//! Which pieces a read needs, and how their bytes make up its answer.

use vstd::prelude::*;

use crate::domain::error::TorrentError;
use crate::domain::pieces_manager::FilePieceInfo;
use crate::fuse::inodes;
use crate::text;

verus! {

/// The bytes of a torrent from `absolute_offset` up to `end_offset`, and the first and the last
/// of the pieces that hold them.
#[derive(Debug, Clone, Copy, PartialEq, Eq, Structural)]
pub struct PieceRange {
    pub absolute_offset: u64,
    pub end_offset: u64,
    pub start_piece: i32,
    pub end_piece: i32,
    pub piece_length: u64,
}

/// What a read comes to.
#[derive(Debug, Clone, Copy, PartialEq, Eq, Structural)]
pub enum RangePlan {
    /// There is nothing to read.
    Nothing,
    Pieces(PieceRange),
}

/// Where a read begins, counted from the start of the torrent.
pub open spec fn place(info: FilePieceInfo, offset: u64) -> int {
    inodes::as_unsigned(info.file_offset) + offset
}

/// The range of a read of `size` bytes in a torrent of `num_pieces` pieces. Piece numbers are
/// counted in 32 bits.
pub open spec fn range_of(
    info: FilePieceInfo,
    piece_length: i64,
    num_pieces: i64,
    offset: u64,
    size: u32,
) -> PieceRange {
    let from = place(info, offset);
    let length = inodes::as_unsigned(piece_length);
    let start = (from / length) as i32;
    let last = ((from + size - 1) / length) as i32;
    let count = num_pieces as i32;
    PieceRange {
        absolute_offset: from as u64,
        end_offset: (from + size) as u64,
        start_piece: start,
        end_piece: if size == 0 {
            start
        } else if last <= count - 1 {
            last
        } else {
            (count - 1) as i32
        },
        piece_length: length as u64,
    }
}

pub open spec fn beyond_text(range: PieceRange, num_pieces: i32) -> Seq<char> {
    "start_piece "@ + text::dec_signed(range.start_piece as int) + " exceeds num_pieces "@
        + text::dec_signed(num_pieces as int) + " (absolute_offset="@ + text::dec(
        range.absolute_offset as int,
    ) + ", piece_length="@ + text::dec(range.piece_length as int) + ")"@
}

fn unsigned(n: i64) -> (r: u64)
    ensures
        r == inodes::as_unsigned(n),
{
    assert(n < 0 ==> (n as u64) == n + 0x1_0000_0000_0000_0000) by (bit_vector);
    n as u64
}

/// Finds the pieces that hold `size` bytes of a file from `offset` on.
pub fn plan_range(
    info: FilePieceInfo,
    piece_length: i64,
    num_pieces: i64,
    offset: u64,
    size: u32,
) -> (r: Result<RangePlan, TorrentError>)
    requires
        place(info, offset) <= u64::MAX,
        (num_pieces as i32) > 0 ==> piece_length != 0 && place(info, offset) + size <= u64::MAX,
    ensures
        ({
            let range = range_of(info, piece_length, num_pieces, offset, size);
            let count = num_pieces as i32;
            if count <= 0 {
                r matches Err(TorrentError::InvalidFile(m)) && m@
                    == "Invalid torrent: num_pieces = "@ + text::dec_signed(count as int)
            } else if range.start_piece >= count {
                r matches Err(TorrentError::InvalidFile(m)) && m@ == beyond_text(range, count)
            } else if range.start_piece > range.end_piece {
                r == Ok::<RangePlan, TorrentError>(RangePlan::Nothing)
            } else {
                r == Ok::<RangePlan, TorrentError>(RangePlan::Pieces(range))
            }
        }),
{
    let length: u64 = unsigned(piece_length);
    let count: i32 = num_pieces as i32;
    let absolute_offset: u64 = unsigned(info.file_offset) + offset;
    if count <= 0 {
        return Err(
            TorrentError::InvalidFile(
                text::concat2(
                    "Invalid torrent: num_pieces = ",
                    text::decimal_signed(count as i64).as_str(),
                ),
            ),
        );
    }
    let start_piece: i32 = (absolute_offset / length) as i32;
    let end_offset: u64 = absolute_offset + size as u64;
    let end_piece: i32 = if size > 0 {
        let last: i32 = ((end_offset - 1) / length) as i32;
        if last <= count - 1 {
            last
        } else {
            count - 1
        }
    } else {
        start_piece
    };
    let range = PieceRange {
        absolute_offset,
        end_offset,
        start_piece,
        end_piece,
        piece_length: length,
    };
    if start_piece >= count {
        let mut m = "start_piece ".to_owned();
        m.append(text::decimal_signed(start_piece as i64).as_str());
        m.append(" exceeds num_pieces ");
        m.append(text::decimal_signed(count as i64).as_str());
        m.append(" (absolute_offset=");
        m.append(text::decimal(absolute_offset).as_str());
        m.append(", piece_length=");
        m.append(text::decimal(length).as_str());
        m.append(")");
        return Err(TorrentError::InvalidFile(m));
    }
    if start_piece > end_piece {
        return Ok(RangePlan::Nothing);
    }
    Ok(RangePlan::Pieces(range))
}

impl PieceRange {
    /// How many bytes are asked for.
    pub open spec fn size(&self) -> int {
        self.end_offset - self.absolute_offset
    }

    /// The bytes of a piece that the range takes in.
    pub open spec fn chunk(&self, index: int, data: Seq<u8>) -> Seq<u8> {
        let start = index * self.piece_length;
        let end = start + data.len();
        let from = if self.absolute_offset >= start {
            self.absolute_offset as int
        } else {
            start
        };
        let to = if self.end_offset <= end {
            self.end_offset as int
        } else {
            end
        };
        if from < to {
            data.subrange(from - start, to - start)
        } else {
            Seq::empty()
        }
    }

    /// As many bytes as were asked for are there.
    pub open spec fn complete(&self, bytes: Seq<u8>) -> bool {
        self.size() > 0 && bytes.len() >= self.size()
    }

    /// The answer after the range's first pieces, taken in turn until it is complete.
    pub open spec fn gathered(&self, pieces: Seq<Seq<u8>>) -> Seq<u8>
        decreases pieces.len(),
    {
        if pieces.len() == 0 {
            Seq::empty()
        } else {
            let before = self.gathered(pieces.drop_last());
            if self.complete(before) {
                before
            } else {
                before + self.chunk(self.start_piece + pieces.len() - 1, pieces.last())
            }
        }
    }

    /// Adds to an answer what a piece holds of it, and tells whether it is complete.
    pub fn append_piece(&self, answer: &mut Vec<u8>, index: i32, data: &Vec<u8>) -> (done: bool)
        requires
            index >= 0,
            index * self.piece_length + data@.len() <= u64::MAX,
            self.absolute_offset <= self.end_offset,
            !self.complete(old(answer)@),
        ensures
            final(answer)@ == old(answer)@ + self.chunk(index as int, data@),
            done == self.complete(final(answer)@),
    {
        let ghost before = answer@;
        proof {
            assert(index * self.piece_length >= 0) by (nonlinear_arith)
                requires
                    index >= 0,
            ;
        }
        let start: u64 = index as u64 * self.piece_length;
        let end: u64 = start + data.len() as u64;
        let from: u64 = if self.absolute_offset >= start {
            self.absolute_offset
        } else {
            start
        };
        let to: u64 = if self.end_offset <= end {
            self.end_offset
        } else {
            end
        };
        if from < to {
            let mut i: usize = (from - start) as usize;
            let last: usize = (to - start) as usize;
            let ghost first = i;
            proof {
                assert(before + data@.subrange(first as int, first as int) =~= before);
            }
            while i < last
                invariant
                    first <= i <= last <= data@.len(),
                    answer@ == before + data@.subrange(first as int, i as int),
                decreases last - i,
            {
                answer.push(data[i]);
                proof {
                    assert(before + data@.subrange(first as int, i as int + 1) =~= (before
                        + data@.subrange(first as int, i as int)).push(data@[i as int]));
                }
                i = i + 1;
            }
            return answer.len() as u64 >= self.end_offset - self.absolute_offset;
        }
        proof {
            assert(before + Seq::<u8>::empty() =~= before);
        }
        false
    }
}

/// The piece `index` of a torrent that holds `content`.
pub open spec fn piece_of(content: Seq<u8>, piece_length: int, index: int) -> Seq<u8> {
    content.subrange(
        index * piece_length,
        if (index + 1) * piece_length <= content.len() {
            (index + 1) * piece_length
        } else {
            content.len() as int
        },
    )
}

/// How many pieces a torrent of `total` bytes has.
pub open spec fn piece_total(total: int, piece_length: int) -> int {
    (total + piece_length - 1) / piece_length
}

/// Where the answer ends after `n` pieces.
spec fn reached(range: PieceRange, total: int, n: int) -> int {
    let a = (range.start_piece + n) * range.piece_length;
    let b = if a <= range.end_offset {
        a
    } else {
        range.end_offset as int
    };
    let c = if b <= total {
        b
    } else {
        total
    };
    if c >= range.absolute_offset {
        c
    } else {
        range.absolute_offset as int
    }
}

proof fn gathered_so_far(content: Seq<u8>, range: PieceRange, pieces: Seq<Seq<u8>>)
    requires
        range.piece_length > 0,
        range.start_piece >= 0,
        range.start_piece == range.absolute_offset as int / range.piece_length as int,
        range.absolute_offset <= range.end_offset,
        range.absolute_offset < content.len(),
        forall|i: int|
            0 <= i < pieces.len() ==> #[trigger] pieces[i] == piece_of(
                content,
                range.piece_length as int,
                range.start_piece + i,
            ),
        pieces.len() > 0 ==> (range.start_piece + pieces.len() - 1) * range.piece_length
            < content.len(),
    ensures
        range.gathered(pieces) == content.subrange(
            range.absolute_offset as int,
            reached(range, content.len() as int, pieces.len() as int),
        ),
    decreases pieces.len(),
{
    let total = content.len() as int;
    let from = range.absolute_offset as int;
    let length = range.piece_length as int;
    let first = range.start_piece as int;
    assert(first * length <= from < (first + 1) * length) by (nonlinear_arith)
        requires
            length > 0,
            first == from / length,
    ;
    if pieces.len() == 0 {
        assert(reached(range, total, 0) == from);
        assert(content.subrange(from, from) =~= Seq::<u8>::empty());
    } else {
        let n = pieces.len() as int;
        let rest = pieces.drop_last();
        assert forall|i: int| 0 <= i < rest.len() implies #[trigger] rest[i] == piece_of(
            content,
            length,
            first + i,
        ) by {
            assert(rest[i] == pieces[i]);
        }
        assert((first + n - 2) * length <= (first + n - 1) * length) by (nonlinear_arith)
            requires
                length > 0,
        ;
        gathered_so_far(content, range, rest);
        let before = range.gathered(rest);
        let at = reached(range, total, n - 1);
        let index = first + n - 1;
        let data = pieces[n - 1];
        assert(data == piece_of(content, length, index));
        assert(index * length < total);
        assert((index + 1) * length == index * length + length) by (nonlinear_arith);
        assert(index * length >= first * length) by (nonlinear_arith)
            requires
                index >= first,
                length > 0,
        ;
        if n >= 2 {
            assert(index * length >= (first + 1) * length) by (nonlinear_arith)
                requires
                    index >= first + 1,
                    length > 0,
            ;
        }
        assert(content.subrange(from, at) == before);
        let to = reached(range, total, n);
        let chunk = range.chunk(index, data);
        if range.complete(before) {
            assert(at == range.end_offset);
            assert(to == at);
        } else {
            assert(before + chunk =~= content.subrange(from, to));
        }
    }
}

/// A read that begins within the torrent is planned within its pieces, where the number of the
/// last piece asked for can be counted.
pub proof fn range_lies_in_torrent(
    total: int,
    info: FilePieceInfo,
    piece_length: i64,
    num_pieces: i64,
    offset: u64,
    size: u32,
)
    requires
        piece_length > 0,
        num_pieces == piece_total(total, piece_length as int) <= i32::MAX,
        place(info, offset) < total,
        place(info, offset) + size <= u64::MAX,
        (place(info, offset) + size - 1) / piece_length as int <= i32::MAX,
    ensures
        ({
            let range = range_of(info, piece_length, num_pieces, offset, size);
            &&& 0 <= range.start_piece <= range.end_piece < num_pieces
            &&& range.start_piece == place(info, offset) / piece_length as int
        }),
{
    let from = place(info, offset);
    let length = piece_length as int;
    let count = num_pieces as int;
    let first = from / length;
    assert(0 <= first && first * length <= from) by (nonlinear_arith)
        requires
            length > 0,
            first == from / length,
            from >= 0,
    ;
    assert(total <= count * length) by (nonlinear_arith)
        requires
            length > 0,
            count == (total + length - 1) / length,
    ;
    assert(first < count) by (nonlinear_arith)
        requires
            first * length <= from,
            from < total,
            total <= count * length,
            length > 0,
    ;
    if size > 0 {
        assert((from + size - 1) / length >= first) by (nonlinear_arith)
            requires
                length > 0,
                first == from / length,
                size > 0,
        ;
    }
}

/// The bytes of a torrent from `from` on: `size` of them, or as many as the torrent has.
pub open spec fn asked_bytes(content: Seq<u8>, from: int, size: int) -> Seq<u8> {
    if from >= content.len() {
        Seq::empty()
    } else if from + size <= content.len() {
        content.subrange(from, from + size)
    } else {
        content.subrange(from, content.len() as int)
    }
}

/// Counting pieces in 32 bits does the read no harm: within a torrent of `total` bytes it begins
/// with the right piece, and ends with the last one asked for or the last one of the torrent.
pub open spec fn counts_right(
    total: int,
    info: FilePieceInfo,
    piece_length: i64,
    num_pieces: i64,
    offset: u64,
    size: u32,
) -> bool {
    let range = range_of(info, piece_length, num_pieces, offset, size);
    let from = place(info, offset);
    let length = piece_length as int;
    if from < total {
        &&& range.start_piece == from / length
        &&& size > 0 ==> range.end_piece >= (from + size - 1) / length || (range.end_piece + 1)
            * length >= total
    } else {
        range.start_piece >= 0
    }
}

/// Pieces are counted right wherever the torrent's pieces and the last one asked for have numbers
/// of 32 bits.
pub proof fn small_numbers_count_right(
    total: int,
    info: FilePieceInfo,
    piece_length: i64,
    num_pieces: i64,
    offset: u64,
    size: u32,
)
    requires
        piece_length > 0,
        num_pieces == piece_total(total, piece_length as int) <= i32::MAX,
        place(info, offset) + size <= u64::MAX,
        place(info, offset) / piece_length as int <= i32::MAX,
        (place(info, offset) + size - 1) / piece_length as int <= i32::MAX,
    ensures
        counts_right(total, info, piece_length, num_pieces, offset, size),
{
    let from = place(info, offset);
    let length = piece_length as int;
    assert(from / length >= 0) by (nonlinear_arith)
        requires
            length > 0,
            from >= 0,
    ;
    if from < total {
        range_lies_in_torrent(total, info, piece_length, num_pieces, offset, size);
        assert(num_pieces * length >= total) by (nonlinear_arith)
            requires
                length > 0,
                num_pieces == (total + length - 1) / length,
        ;
    }
}

proof fn empty_range_gathers_nothing(range: PieceRange, pieces: Seq<Seq<u8>>)
    requires
        range.absolute_offset == range.end_offset,
    ensures
        range.gathered(pieces) == Seq::<u8>::empty(),
    decreases pieces.len(),
{
    if pieces.len() > 0 {
        empty_range_gathers_nothing(range, pieces.drop_last());
        assert(range.gathered(pieces) =~= Seq::<u8>::empty());
    }
}

proof fn nothing_lies_beyond(content: Seq<u8>, range: PieceRange, pieces: Seq<Seq<u8>>)
    requires
        range.piece_length > 0,
        range.start_piece >= 0,
        range.absolute_offset >= content.len(),
        forall|i: int|
            0 <= i < pieces.len() ==> #[trigger] pieces[i] == piece_of(
                content,
                range.piece_length as int,
                range.start_piece + i,
            ),
        pieces.len() > 0 ==> (range.start_piece + pieces.len() - 1) * range.piece_length
            < content.len(),
    ensures
        range.gathered(pieces) == Seq::<u8>::empty(),
    decreases pieces.len(),
{
    if pieces.len() > 0 {
        let rest = pieces.drop_last();
        assert forall|i: int| 0 <= i < rest.len() implies #[trigger] rest[i] == piece_of(
            content,
            range.piece_length as int,
            range.start_piece + i,
        ) by {
            assert(rest[i] == pieces[i]);
        }
        let index = range.start_piece + pieces.len() - 1;
        let data = pieces[pieces.len() - 1];
        let length = range.piece_length as int;
        assert((index - 1) * length <= index * length) by (nonlinear_arith)
            requires
                length > 0,
        ;
        nothing_lies_beyond(content, range, rest);
        assert(data == piece_of(content, length, index));
        assert((index + 1) * length == index * length + length && index * length >= 0)
            by (nonlinear_arith)
            requires
                index >= 0,
                length > 0,
        ;
        assert(index * length + data.len() <= content.len());
        assert(range.chunk(index, data) =~= Seq::<u8>::empty());
        assert(range.gathered(pieces) =~= Seq::<u8>::empty());
    }
}

/// The pieces of a planned range give exactly the bytes that were asked for, as far as the
/// torrent has them, wherever counting pieces in 32 bits does no harm.
pub proof fn range_gives_the_bytes(
    content: Seq<u8>,
    info: FilePieceInfo,
    piece_length: i64,
    num_pieces: i64,
    offset: u64,
    size: u32,
    pieces: Seq<Seq<u8>>,
)
    requires
        piece_length > 0,
        num_pieces == piece_total(content.len() as int, piece_length as int),
        place(info, offset) + size <= u64::MAX,
        counts_right(content.len() as int, info, piece_length, num_pieces, offset, size),
        ({
            let range = range_of(info, piece_length, num_pieces, offset, size);
            &&& range.start_piece < num_pieces as i32
            &&& pieces.len() == range.end_piece - range.start_piece + 1
            &&& forall|i: int|
                0 <= i < pieces.len() ==> #[trigger] pieces[i] == piece_of(
                    content,
                    piece_length as int,
                    range.start_piece + i,
                )
        }),
    ensures
        range_of(info, piece_length, num_pieces, offset, size).gathered(pieces) == asked_bytes(
            content,
            place(info, offset),
            size as int,
        ),
{
    let total = content.len() as int;
    let from = place(info, offset);
    let length = piece_length as int;
    let count = num_pieces as int;
    let range = range_of(info, piece_length, num_pieces, offset, size);
    let first = range.start_piece as int;
    let n = pieces.len() as int;
    assert(num_pieces >= 0) by (nonlinear_arith)
        requires
            length > 0,
            total >= 0,
            num_pieces == (total + length - 1) / length,
    ;
    assert(num_pieces >= 0 ==> (num_pieces as i32) as i64 <= num_pieces) by (bit_vector);
    assert((count - 1) * length < total) by (nonlinear_arith)
        requires
            length > 0,
            count == (total + length - 1) / length,
    ;
    assert((first + n - 1) * length <= (count - 1) * length) by (nonlinear_arith)
        requires
            first + n - 1 <= count - 1,
            length > 0,
    ;
    if from >= total {
        nothing_lies_beyond(content, range, pieces);
    } else {
        assert(first * length <= from < (first + 1) * length && first >= 0) by (nonlinear_arith)
            requires
                length > 0,
                first == from / length,
                from >= 0,
        ;
        gathered_so_far(content, range, pieces);
        let last = (from + size - 1) / length;
        if size > 0 {
            assert(from + size - 1 < (last + 1) * length) by (nonlinear_arith)
                requires
                    length > 0,
                    last == (from + size - 1) / length,
            ;
            assert(range.end_piece >= last ==> (first + n) * length >= (last + 1) * length)
                by (nonlinear_arith)
                requires
                    first + n == range.end_piece + 1,
                    length > 0,
            ;
        }
        assert(reached(range, total, n) == if from + size <= total {
            from + size
        } else {
            total
        });
    }
}

/// A read within a file gives the file's own bytes.
pub proof fn read_within_file_gives_its_bytes(
    content: Seq<u8>,
    info: FilePieceInfo,
    file_size: u64,
    piece_length: i64,
    num_pieces: i64,
    offset: u64,
    size: u32,
    pieces: Seq<Seq<u8>>,
)
    requires
        piece_length > 0,
        num_pieces == piece_total(content.len() as int, piece_length as int) <= i32::MAX,
        info.file_offset >= 0,
        info.file_offset + file_size <= content.len() <= u64::MAX,
        offset + size <= file_size,
        ({
            let range = range_of(info, piece_length, num_pieces, offset, size);
            &&& pieces.len() == range.end_piece - range.start_piece + 1
            &&& forall|i: int|
                0 <= i < pieces.len() ==> #[trigger] pieces[i] == piece_of(
                    content,
                    piece_length as int,
                    range.start_piece + i,
                )
        }),
    ensures
        range_of(info, piece_length, num_pieces, offset, size).gathered(pieces)
            == content.subrange(
            info.file_offset as int,
            info.file_offset + file_size,
        ).subrange(offset as int, offset + size),
{
    let total = content.len() as int;
    let from = place(info, offset);
    let end = from + size;
    let length = piece_length as int;
    let range = range_of(info, piece_length, num_pieces, offset, size);
    let file = content.subrange(info.file_offset as int, info.file_offset + file_size);
    if size == 0 {
        empty_range_gathers_nothing(range, pieces);
        assert(file.subrange(offset as int, offset + size) =~= Seq::<u8>::empty());
    } else {
        assert((end - 1) / length <= i32::MAX && from / length <= i32::MAX) by (nonlinear_arith)
            requires
                length > 0,
                from < end <= total,
                (total + length - 1) / length <= i32::MAX,
        ;
        range_lies_in_torrent(total, info, piece_length, num_pieces, offset, size);
        small_numbers_count_right(total, info, piece_length, num_pieces, offset, size);
        range_gives_the_bytes(content, info, piece_length, num_pieces, offset, size, pieces);
        assert(file.subrange(offset as int, offset + size) =~= content.subrange(from, end));
    }
}

} // verus!
