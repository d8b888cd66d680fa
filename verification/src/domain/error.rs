//! Failures of the BitTorrent side.

use vstd::prelude::*;

use crate::text;

verus! {

#[derive(Debug)]
pub enum TorrentError {
    InvalidFile(String),
    ParseError(String),
    IoError(String),
    NullPointer,
    NoPeers(String),
    PieceNotReady(String),
    Timeout(String),
    Unknown { code: i32, message: String },
}

pub type TorrentResult<T> = Result<T, TorrentError>;

impl TorrentError {
    /// The conditions that may pass by themselves.
    pub open spec fn transient(&self) -> bool {
        *self is NoPeers || *self is PieceNotReady || *self is Timeout
    }

    /// Whether a retry may succeed: a timeout, no peers yet, a piece that is not ready.
    ///
    /// An `IoError` does not count, since it may be a full disk or a missing permission.
    pub fn is_transient(&self) -> (r: bool)
        ensures
            r == self.transient(),
    {
        match self {
            TorrentError::NoPeers(_) => true,
            TorrentError::PieceNotReady(_) => true,
            TorrentError::Timeout(_) => true,
            _ => false,
        }
    }

    pub open spec fn message(&self) -> Seq<char> {
        match *self {
            TorrentError::InvalidFile(m) => "Invalid torrent file: "@ + m@,
            TorrentError::ParseError(m) => "Failed to parse torrent: "@ + m@,
            TorrentError::IoError(m) => "IO error: "@ + m@,
            TorrentError::NullPointer => "Null pointer encountered"@,
            TorrentError::NoPeers(m) => "No peers available: "@ + m@
                + ". Tracker returned 0 peers and 0 seeds. Check tracker health or try again later."@,
            TorrentError::PieceNotReady(m) => "Piece not ready: "@ + m@,
            TorrentError::Timeout(m) => "Operation timed out: "@ + m@,
            TorrentError::Unknown { code, message } => "Unknown error: code "@ + text::dec_signed(
                code as int,
            ) + ", message: "@ + message@,
        }
    }

    /// The error as a line of text.
    pub fn to_text(&self) -> (r: String)
        ensures
            r@ == self.message(),
    {
        match self {
            TorrentError::InvalidFile(m) => text::concat2("Invalid torrent file: ", m.as_str()),
            TorrentError::ParseError(m) => text::concat2("Failed to parse torrent: ", m.as_str()),
            TorrentError::IoError(m) => text::concat2("IO error: ", m.as_str()),
            TorrentError::NullPointer => "Null pointer encountered".to_owned(),
            TorrentError::NoPeers(m) => text::concat3(
                "No peers available: ",
                m.as_str(),
                ". Tracker returned 0 peers and 0 seeds. Check tracker health or try again later.",
            ),
            TorrentError::PieceNotReady(m) => text::concat2("Piece not ready: ", m.as_str()),
            TorrentError::Timeout(m) => text::concat2("Operation timed out: ", m.as_str()),
            TorrentError::Unknown { code, message } => {
                let mut r = text::concat3(
                    "Unknown error: code ",
                    text::decimal_signed(*code as i64).as_str(),
                    ", message: ",
                );
                r.append(message.as_str());
                r
            },
        }
    }
}

/// The errors after which a read is tried again.
pub open spec fn transient_read_error(err: TorrentError) -> bool {
    err is PieceNotReady || err is NoPeers || err is Timeout || err is IoError || err is Unknown
}

/// Whether a read that failed with `err` should be tried again.
///
/// This is wider than `TorrentError::is_transient`: the retries run under a budget, and a flake
/// of the disk or an unknown failure often does not come back.
pub fn is_transient_read_error(err: &TorrentError) -> (r: bool)
    ensures
        r == transient_read_error(*err),
{
    match err {
        TorrentError::PieceNotReady(_) => true,
        TorrentError::NoPeers(_) => true,
        TorrentError::Timeout(_) => true,
        TorrentError::IoError(_) => true,
        TorrentError::Unknown { .. } => true,
        _ => false,
    }
}

/// What may pass by itself is also worth another read.
pub proof fn transient_errors_are_retried(err: TorrentError)
    ensures
        err.transient() ==> transient_read_error(err),
        transient_read_error(err) && !err.transient() ==> err is IoError || err is Unknown,
{
}

/// The text with every letter in lower case, as `str::to_lowercase` gives it.
pub uninterp spec fn lowercase(s: Seq<char>) -> Seq<char>;

/// `str::to_lowercase`: the lower case of the whole text, which depends on the text alone.
#[verifier::external_body]
fn to_lowercase(s: &str) -> (r: String)
    ensures
        r@ == lowercase(s@),
{
    s.to_lowercase()
}

/// What kind of failure a message in lower case speaks of.
#[derive(Debug, Clone, Copy, PartialEq, Eq, Structural)]
pub enum FailureClass {
    Parse,
    File,
    Timeout,
    Other,
}

/// The class of a failure by the words in its message, the first that fits.
pub open spec fn failure_class(lower: Seq<char>) -> FailureClass {
    if text::has(lower, "bdecode"@) || text::has(lower, "parse"@) || text::has(lower, "invalid"@) {
        FailureClass::Parse
    } else if text::has(lower, "file"@) || text::has(lower, "path"@) || text::has(
        lower,
        "not found"@,
    ) {
        FailureClass::File
    } else if text::has(lower, "timed out"@) || text::has(lower, "timeout"@) {
        FailureClass::Timeout
    } else {
        FailureClass::Other
    }
}

/// Classifies a message that is in lower case already.
pub fn classify_failure(lower: &str) -> (r: FailureClass)
    ensures
        r == failure_class(lower@),
{
    if text::contains(lower, "bdecode") || text::contains(lower, "parse") || text::contains(
        lower,
        "invalid",
    ) {
        FailureClass::Parse
    } else if text::contains(lower, "file") || text::contains(lower, "path") || text::contains(
        lower,
        "not found",
    ) {
        FailureClass::File
    } else if text::contains(lower, "timed out") || text::contains(lower, "timeout") {
        FailureClass::Timeout
    } else {
        FailureClass::Other
    }
}

/// `e` is the error for a message of the given class.
pub open spec fn error_of_class(
    class: FailureClass,
    code: i32,
    message: Seq<char>,
    e: TorrentError,
) -> bool {
    match class {
        FailureClass::Parse => e matches TorrentError::ParseError(m) && m@ == message,
        FailureClass::File => e matches TorrentError::InvalidFile(m) && m@ == message,
        FailureClass::Timeout => e matches TorrentError::Timeout(m) && m@ == message,
        FailureClass::Other => e matches TorrentError::Unknown { code: c, message: m } && c == code
            && m@ == message,
    }
}

/// The error for a message of the given class.
pub fn error_for_class(class: FailureClass, code: i32, message: String) -> (r: TorrentError)
    ensures
        error_of_class(class, code, message@, r),
{
    match class {
        FailureClass::Parse => TorrentError::ParseError(message),
        FailureClass::File => TorrentError::InvalidFile(message),
        FailureClass::Timeout => TorrentError::Timeout(message),
        FailureClass::Other => TorrentError::Unknown { code, message },
    }
}

/// A failure that libtorrent reports: a code, and a message where there is one.
pub struct LibtorrentFailure {
    pub code: i32,
    pub message: Option<String>,
}

impl LibtorrentFailure {
    pub open spec fn text(&self) -> Seq<char> {
        match self.message {
            Some(m) => m@,
            None => "Unknown error"@,
        }
    }
}

/// The error for a failure that libtorrent reports, or for one that it does not describe.
pub fn error_from_c(error: Option<LibtorrentFailure>) -> (r: TorrentError)
    ensures
        match error {
            None => r matches TorrentError::Unknown { code, message } && code == -1 && message@
                == "Unknown error"@,
            Some(f) => error_of_class(failure_class(lowercase(f.text())), f.code, f.text(), r),
        },
{
    match error {
        None => TorrentError::Unknown { code: -1, message: "Unknown error".to_owned() },
        Some(failure) => {
            let message = match failure.message {
                Some(m) => m,
                None => "Unknown error".to_owned(),
            };
            let lower = to_lowercase(message.as_str());
            let class = classify_failure(lower.as_str());
            error_for_class(class, failure.code, message)
        },
    }
}

/// Reads the number with which a call of the session came back: zero for success.
pub fn check_code(code: i32, failure: &str) -> (r: TorrentResult<()>)
    ensures
        if code == 0 {
            r is Ok
        } else {
            r matches Err(TorrentError::Unknown { code: c, message }) && c == code && message@
                == failure@
        },
{
    if code == 0 {
        Ok(())
    } else {
        Err(TorrentError::Unknown { code, message: failure.to_owned() })
    }
}

/// A message is classed by the words that stand anywhere in it: those of a bad torrent before those of a
/// bad file, and those before the ones of a timeout.
pub proof fn words_class_the_failure(a: Seq<char>, b: Seq<char>)
    ensures
        failure_class(a + "bdecode"@ + b) is Parse,
        failure_class(a + "parse"@ + b) is Parse,
        failure_class(a + "invalid"@ + b) is Parse,
        failure_class(a + "file"@ + b) is Parse || failure_class(a + "file"@ + b) is File,
        failure_class(a + "path"@ + b) is Parse || failure_class(a + "path"@ + b) is File,
        failure_class(a + "not found"@ + b) is Parse || failure_class(a + "not found"@ + b) is File,
        !(failure_class(a + "timed out"@ + b) is Other),
        !(failure_class(a + "timeout"@ + b) is Other),
{
    text::joined_text_holds_its_parts(a, "bdecode"@, b);
    text::joined_text_holds_its_parts(a, "parse"@, b);
    text::joined_text_holds_its_parts(a, "invalid"@, b);
    text::joined_text_holds_its_parts(a, "file"@, b);
    text::joined_text_holds_its_parts(a, "path"@, b);
    text::joined_text_holds_its_parts(a, "not found"@, b);
    text::joined_text_holds_its_parts(a, "timed out"@, b);
    text::joined_text_holds_its_parts(a, "timeout"@, b);
}

/// An error of a class is of the kind that the class speaks of, and keeps the message.
pub proof fn classed_error_keeps_its_message(
    class: FailureClass,
    code: i32,
    message: Seq<char>,
    e: TorrentError,
)
    requires
        error_of_class(class, code, message, e),
    ensures
        class is Parse <==> e is ParseError,
        class is File <==> e is InvalidFile,
        class is Timeout <==> e is Timeout,
        class is Other <==> e is Unknown,
        text::has(e.message(), message),
        e.transient() <==> class is Timeout,
{
    let none = Seq::<char>::empty();
    match e {
        TorrentError::ParseError(m) => {
            text::joined_text_holds_its_parts("Failed to parse torrent: "@, m@, none);
            assert("Failed to parse torrent: "@ + m@ + none =~= e.message());
        },
        TorrentError::InvalidFile(m) => {
            text::joined_text_holds_its_parts("Invalid torrent file: "@, m@, none);
            assert("Invalid torrent file: "@ + m@ + none =~= e.message());
        },
        TorrentError::Timeout(m) => {
            text::joined_text_holds_its_parts("Operation timed out: "@, m@, none);
            assert("Operation timed out: "@ + m@ + none =~= e.message());
        },
        TorrentError::Unknown { code, message } => {
            let head = "Unknown error: code "@ + text::dec_signed(code as int) + ", message: "@;
            text::joined_text_holds_its_parts(head, message@, none);
            assert(head + message@ + none =~= e.message());
        },
        _ => {},
    }
}

} // verus!
