//! The keys under which pieces are cached: `{info_hash}:piece:{index}`.

use vstd::prelude::*;

use crate::text;

verus! {

/// The key of a piece.
pub open spec fn piece_key(info_hash: Seq<char>, index: int) -> Seq<char> {
    info_hash + ":piece:"@ + text::dec_signed(index)
}

pub fn make_piece_key(info_hash: &str, index: i32) -> (r: String)
    ensures
        r@ == piece_key(info_hash@, index as int),
{
    text::concat3(info_hash, ":piece:", text::decimal_signed(index as i64).as_str())
}

/// The info hash and the index that a key names, where the second part is `piece` and the third
/// a number.
pub open spec fn key_parts(key: Seq<char>) -> Option<(Seq<char>, int)> {
    let parts = text::split(key, ':');
    if parts.len() >= 3 && parts[1] == "piece"@ {
        match text::signed_numeral(parts[2]) {
            Some(index) => Some((parts[0], index)),
            None => None,
        }
    } else {
        None
    }
}

/// Splits a key of the form `{info_hash}:piece:{index}` into its parts.
pub fn split_piece_key(key: &str) -> (r: Option<(String, i32)>)
    ensures
        match r {
            Some((hash, index)) => key_parts(key@) == Some((hash@, index as int)),
            None => key_parts(key@) is None,
        },
{
    let parts = text::split_on(key, ':');
    proof {
        assert forall|i: int| 0 <= i < parts@.len() implies text::split(key@, ':')[i]
            == #[trigger] parts@[i]@ by {
            assert(text::views(parts@)[i] == parts@[i]@);
        }
    }
    if parts.len() < 3 || !text::same(parts[1].as_str(), "piece") {
        return None;
    }
    match text::parse_i32(parts[2].as_str()) {
        Some(index) => Some((parts[0].clone(), index)),
        None => None,
    }
}

proof fn numerals_hold_no_colon(n: int)
    ensures
        !text::dec_signed(n).contains(':'),
{
    let m = if n < 0 {
        -n
    } else {
        n
    };
    text::numeral_reads_dec(m, m);
    let s = text::dec_signed(n);
    assert forall|i: int| 0 <= i < s.len() implies s[i] != ':' by {
        if n < 0 {
            if i > 0 {
                assert(s[i] == text::dec(m)[i - 1]);
                assert(text::is_digit(text::dec(m)[i - 1]));
            }
        } else {
            assert(text::is_digit(s[i]));
        }
    }
}

/// A piece's key falls into the info hash, the word `piece` and the numeral of the index.
pub proof fn piece_key_splits(info_hash: Seq<char>, index: int)
    requires
        !info_hash.contains(':'),
    ensures
        text::split(piece_key(info_hash, index), ':') == seq![
            info_hash,
            "piece"@,
            text::dec_signed(index),
        ],
{
    reveal_strlit(":piece:");
    reveal_strlit("piece");
    numerals_hold_no_colon(index);
    let n = text::dec_signed(index);
    let w = "piece"@;
    assert(!w.contains(':'));
    text::split_of_plain(info_hash, ':');
    text::split_of_plain(w, ':');
    text::split_of_plain(n, ':');
    let tail = w + seq![':'] + n;
    text::split_of_joined(w, n, ':');
    text::split_of_joined(info_hash, tail, ':');
    assert(":piece:"@ =~= seq![':'] + w + seq![':']);
    assert(piece_key(info_hash, index) =~= info_hash + seq![':'] + tail);
    assert(text::split(piece_key(info_hash, index), ':') =~= seq![info_hash, w, n]);
}

/// Splitting the key of a piece gives its info hash and its index back.
pub proof fn split_undoes_make(info_hash: Seq<char>, index: int)
    requires
        !info_hash.contains(':'),
        i32::MIN <= index <= i32::MAX,
    ensures
        key_parts(piece_key(info_hash, index)) == Some((info_hash, index)),
{
    piece_key_splits(info_hash, index);
    text::signed_numeral_reads_dec(index);
}

} // verus!
