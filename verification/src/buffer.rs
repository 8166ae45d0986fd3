//! The text of a buffer by rows and columns. Columns count bytes of UTF-8.

use vstd::prelude::*;
use vstd::utf8::*;

verus! {

broadcast use {
    encode_utf8_valid_utf8,
    is_char_boundary_start_end_of_seq,
};

/// What ends a row.
pub const NEWLINE: u8 = 10;

/// A place in a text.
#[derive(Clone, Copy, Debug, PartialEq, Eq, Structural)]
pub struct Point {
    pub row: u32,
    pub column: u32,
}

/// A part of a text, from one place up to another.
#[derive(Clone, Copy, Debug, PartialEq, Eq, Structural)]
pub struct PointRange {
    pub start: Point,
    pub end: Point,
}

/// Whether a place comes before another one.
pub open spec fn comes_before(a: Point, b: Point) -> bool {
    a.row < b.row || (a.row == b.row && a.column < b.column)
}

/// The bytes of a text.
pub open spec fn bytes_of(text: Seq<char>) -> Seq<u8> {
    encode_utf8(text)
}

/// Where the row ends that the byte at an offset belongs to.
pub open spec fn row_end(bytes: Seq<u8>, from: nat) -> nat
    decreases bytes.len() - from,
{
    if from >= bytes.len() {
        bytes.len()
    } else if bytes[from as int] == NEWLINE {
        from
    } else {
        row_end(bytes, from + 1)
    }
}

/// Where a row starts.
pub open spec fn row_start(bytes: Seq<u8>, row: nat) -> nat
    decreases row,
{
    if row == 0 {
        0
    } else {
        row_end(bytes, row_start(bytes, (row - 1) as nat)) + 1
    }
}

/// The last row: as many as there are newlines.
pub open spec fn last_row(bytes: Seq<u8>) -> nat
    decreases bytes.len(),
{
    if bytes.len() == 0 {
        0
    } else {
        last_row(bytes.drop_last()) + (if bytes.last() == NEWLINE {
            1nat
        } else {
            0nat
        })
    }
}

/// How many bytes a row has.
pub open spec fn row_len(bytes: Seq<u8>, row: nat) -> nat {
    (row_end(bytes, row_start(bytes, row)) - row_start(bytes, row)) as nat
}

/// Where a place is in the bytes of a text.
pub open spec fn offset(bytes: Seq<u8>, point: Point) -> nat {
    row_start(bytes, point.row as nat) + point.column as nat
}

/// Whether a text has a place: it is in a row of the text, and between two of
/// its characters.
pub open spec fn has_point(text: Seq<char>, point: Point) -> bool {
    let bytes = bytes_of(text);
    &&& point.row <= last_row(bytes)
    &&& point.column <= row_len(bytes, point.row as nat)
    &&& is_char_boundary(bytes, offset(bytes, point) as int)
}

/// The text between two of its places.
pub open spec fn text_between(text: Seq<char>, range: PointRange) -> Seq<char> {
    let bytes = bytes_of(text);
    decode_utf8(
        bytes.subrange(offset(bytes, range.start) as int, offset(bytes, range.end) as int),
    )
}

proof fn row_end_bounds(bytes: Seq<u8>, from: nat)
    requires
        from <= bytes.len(),
    ensures
        from <= row_end(bytes, from) <= bytes.len(),
        row_end(bytes, from) < bytes.len() ==> bytes[row_end(bytes, from) as int] == NEWLINE,
        last_row(bytes.take(row_end(bytes, from) as int)) == last_row(bytes.take(from as int)),
    decreases bytes.len() - from,
{
    if from < bytes.len() && bytes[from as int] != NEWLINE {
        row_end_bounds(bytes, from + 1);
        assert(bytes.take(from + 1int).drop_last() =~= bytes.take(from as int));
    } else if from == bytes.len() {
        assert(bytes.take(from as int) =~= bytes);
    }
}

proof fn last_row_grows(bytes: Seq<u8>, n: int)
    requires
        0 <= n <= bytes.len(),
    ensures
        last_row(bytes.take(n)) <= last_row(bytes) <= bytes.len(),
    decreases bytes.len(),
{
    if bytes.len() > 0 {
        if n < bytes.len() {
            last_row_grows(bytes.drop_last(), n);
            assert(bytes.drop_last().take(n) =~= bytes.take(n));
        } else {
            last_row_grows(bytes.drop_last(), bytes.len() - 1);
            assert(bytes.take(n) =~= bytes);
        }
    }
}

/// Each row of a text starts within it, behind as many newlines as its number
/// says.
pub proof fn row_start_bounds(bytes: Seq<u8>, row: nat)
    requires
        row <= last_row(bytes),
    ensures
        row_start(bytes, row) <= bytes.len(),
        last_row(bytes.take(row_start(bytes, row) as int)) == row,
        row > 0 ==> bytes[row_start(bytes, row) - 1] == NEWLINE,
    decreases row,
{
    if row > 0 {
        let before = (row - 1) as nat;
        row_start_bounds(bytes, before);
        let start = row_start(bytes, before);
        row_end_bounds(bytes, start);
        let end = row_end(bytes, start);
        if end == bytes.len() {
            assert(bytes.take(end as int) =~= bytes);
        }
        assert(bytes.take(end + 1int).drop_last() =~= bytes.take(end as int));
    }
}

/// Of two rows, the earlier one ends before the later one starts.
proof fn rows_are_in_order(bytes: Seq<u8>, row: nat, later: nat)
    requires
        row < later <= last_row(bytes),
    ensures
        row_end(bytes, row_start(bytes, row)) < row_start(bytes, later),
    decreases later,
{
    if later == row + 1 {
    } else {
        let before = (later - 1) as nat;
        rows_are_in_order(bytes, row, before);
        row_start_bounds(bytes, before);
        row_end_bounds(bytes, row_start(bytes, before));
    }
}

/// What comes before in a text has the smaller offset.
pub proof fn offsets_are_in_order(text: Seq<char>, a: Point, b: Point)
    requires
        has_point(text, a),
        has_point(text, b),
        comes_before(a, b),
    ensures
        offset(bytes_of(text), a) < offset(bytes_of(text), b) <= bytes_of(text).len(),
{
    let bytes = bytes_of(text);
    row_start_bounds(bytes, a.row as nat);
    row_start_bounds(bytes, b.row as nat);
    row_end_bounds(bytes, row_start(bytes, a.row as nat));
    row_end_bounds(bytes, row_start(bytes, b.row as nat));
    if a.row < b.row {
        rows_are_in_order(bytes, a.row as nat, b.row as nat);
    }
}

proof fn newline_is_no_continuation()
    ensures
        !is_continuation_byte(NEWLINE),
        is_leading_byte_width_1(NEWLINE),
{
    assert(!is_continuation_byte(10u8)) by (bit_vector);
    assert(is_leading_byte_width_1(10u8)) by (bit_vector);
}

/// Both ends of a row are between two characters.
pub proof fn row_ends_are_points(text: Seq<char>, row: nat)
    requires
        row <= last_row(bytes_of(text)),
    ensures
        is_char_boundary(bytes_of(text), row_start(bytes_of(text), row) as int),
        is_char_boundary(
            bytes_of(text),
            row_end(bytes_of(text), row_start(bytes_of(text), row)) as int,
        ),
        row_start(bytes_of(text), row) <= row_end(
            bytes_of(text),
            row_start(bytes_of(text), row),
        ) <= bytes_of(text).len(),
{
    let bytes = bytes_of(text);
    row_start_bounds(bytes, row);
    let start = row_start(bytes, row) as int;
    row_end_bounds(bytes, start as nat);
    let end = row_end(bytes, start as nat) as int;
    newline_is_no_continuation();
    if end < bytes.len() {
        is_char_boundary_iff_not_is_continuation_byte(bytes, end);
    }
    if row > 0 && start < bytes.len() {
        is_char_boundary_iff_not_is_continuation_byte(bytes, start - 1);
        valid_utf8_split(bytes, start - 1);
        let rest = bytes.subrange(start - 1, bytes.len() as int);
        assert(rest[0] == NEWLINE);
        let tail = pop_first_scalar(rest);
        assert(valid_utf8(tail));
        assert(tail =~= bytes.subrange(start, bytes.len() as int));
        is_char_boundary_iff_not_is_continuation_byte(tail, 0);
        assert(tail[0] == bytes[start]);
        is_char_boundary_iff_not_is_continuation_byte(bytes, start);
    }
}

fn find_row_end(bytes: &[u8], from: usize) -> (r: usize)
    requires
        from <= bytes@.len(),
    ensures
        r == row_end(bytes@, from as nat),
        from <= r <= bytes@.len(),
{
    let mut i: usize = from;
    while i < bytes.len() && bytes[i] != NEWLINE
        invariant
            from <= i <= bytes@.len(),
            row_end(bytes@, i as nat) == row_end(bytes@, from as nat),
        decreases bytes@.len() - i,
    {
        i = i + 1;
    }
    i
}

fn find_row_start(bytes: &[u8], row: u32) -> (r: usize)
    requires
        row <= last_row(bytes@),
    ensures
        r == row_start(bytes@, row as nat),
        r <= bytes@.len(),
{
    let len: usize = bytes.len();
    let mut start: usize = 0;
    let mut current: u32 = 0;
    while current < row
        invariant
            len == bytes@.len(),
            current <= row <= last_row(bytes@),
            start <= bytes@.len(),
            start == row_start(bytes@, current as nat),
        decreases row - current,
    {
        proof {
            row_start_bounds(bytes@, (current + 1) as nat);
        }
        start = find_row_end(bytes, start) + 1;
        current = current + 1;
    }
    start
}

/// The last row of a text.
pub fn max_row(text: &str) -> (r: u32)
    requires
        bytes_of(text@).len() <= u32::MAX,
    ensures
        r == last_row(bytes_of(text@)),
{
    let bytes = text.as_bytes();
    let mut rows: u32 = 0;
    let mut i: usize = 0;
    assert(bytes@.take(0) =~= Seq::empty());
    while i < bytes.len()
        invariant
            bytes@ == bytes_of(text@),
            bytes@.len() <= u32::MAX,
            i <= bytes@.len(),
            rows == last_row(bytes@.take(i as int)),
        decreases bytes@.len() - i,
    {
        proof {
            assert(bytes@.take(i + 1).drop_last() =~= bytes@.take(i as int));
            last_row_grows(bytes@.take(i + 1), i + 1);
        }
        if bytes[i] == NEWLINE {
            rows = rows + 1;
        }
        i = i + 1;
    }
    assert(bytes@.take(i as int) =~= bytes@);
    rows
}

/// How many bytes a row of a text has.
pub fn line_len(text: &str, row: u32) -> (r: u32)
    requires
        bytes_of(text@).len() <= u32::MAX,
        row <= last_row(bytes_of(text@)),
    ensures
        r == row_len(bytes_of(text@), row as nat),
{
    let bytes = text.as_bytes();
    let start = find_row_start(bytes, row);
    let end = find_row_end(bytes, start);
    (end - start) as u32
}

proof fn boundary_in_front(bytes: Seq<u8>, start: int, end: int)
    requires
        valid_utf8(bytes),
        0 <= start <= end <= bytes.len(),
        is_char_boundary(bytes, start),
        is_char_boundary(bytes, end),
    ensures
        valid_utf8(bytes.subrange(0, end)),
        is_char_boundary(bytes.subrange(0, end), start),
{
    let front = bytes.subrange(0, end);
    valid_utf8_split(bytes, end);
    if start < end {
        is_char_boundary_iff_not_is_continuation_byte(bytes, start);
        is_char_boundary_iff_not_is_continuation_byte(front, start);
        assert(front[start] == bytes[start]);
    } else {
        is_char_boundary_start_end_of_seq(front);
    }
}

/// The text between two of its places.
pub fn text_for_range(text: &str, range: PointRange) -> (r: String)
    requires
        has_point(text@, range.start),
        has_point(text@, range.end),
        comes_before(range.start, range.end),
    ensures
        r@ == text_between(text@, range),
{
    let bytes = text.as_bytes();
    let len: usize = bytes.len();
    let ghost all = bytes_of(text@);
    proof {
        assert(all.len() == len);
        offsets_are_in_order(text@, range.start, range.end);
        row_start_bounds(all, range.start.row as nat);
        row_start_bounds(all, range.end.row as nat);
        row_end_bounds(all, row_start(all, range.start.row as nat));
        row_end_bounds(all, row_start(all, range.end.row as nat));
    }
    let start: usize = find_row_start(bytes, range.start.row) + range.start.column as usize;
    let end: usize = find_row_start(bytes, range.end.row) + range.end.column as usize;
    proof {
        boundary_in_front(all, start as int, end as int);
    }
    let (front, _) = text.split_at(end);
    let (_, part) = front.split_at(start);
    proof {
        assert(bytes_of(part@) =~= all.subrange(start as int, end as int));
        encode_utf8_decode_utf8(part@);
    }
    part.to_owned()
}

/// A row goes on up to the next newline, or to the end of the text.
pub proof fn row_ends_at_the_next_newline(bytes: Seq<u8>, from: nat, i: int)
    requires
        from <= bytes.len(),
    ensures
        from <= row_end(bytes, from) <= bytes.len(),
        from <= i < row_end(bytes, from) ==> bytes[i] != 10,
        row_end(bytes, from) < bytes.len() ==> bytes[row_end(bytes, from) as int] == 10,
    decreases bytes.len() - from,
{
    if from < bytes.len() && bytes[from as int] != 10 {
        row_ends_at_the_next_newline(bytes, from + 1, i);
    }
}

/// The first row starts where the text does, and each other one right behind
/// the newline that ends the row before it. There is one row more than there
/// are newlines.
pub proof fn rows_are_parted_by_newlines(bytes: Seq<u8>, row: nat, byte: u8)
    ensures
        row_start(bytes, 0) == 0,
        row < last_row(bytes) ==> {
            let end = row_start(bytes, row) + row_len(bytes, row);
            &&& end < bytes.len()
            &&& bytes[end as int] == 10
            &&& row_start(bytes, row + 1) == end + 1
        },
        row == last_row(bytes) ==> row_start(bytes, row) + row_len(bytes, row) == bytes.len(),
        last_row(Seq::<u8>::empty()) == 0,
        last_row(bytes.push(byte)) == last_row(bytes) + if byte == 10 {
            1int
        } else {
            0
        },
{
    assert(bytes.push(byte).drop_last() =~= bytes);
    if row <= last_row(bytes) {
        row_start_bounds(bytes, row);
        let start = row_start(bytes, row);
        row_end_bounds(bytes, start);
        let end = row_end(bytes, start);
        if end == bytes.len() {
            assert(bytes.take(end as int) =~= bytes);
        } else {
            assert(bytes.take(end + 1int).drop_last() =~= bytes.take(end as int));
            last_row_grows(bytes, end + 1int);
        }
    }
}

/// One place comes before another exactly where it is nearer to the start of
/// the text.
pub proof fn earlier_places_are_nearer_to_the_start(text: Seq<char>, a: Point, b: Point)
    requires
        has_point(text, a),
        has_point(text, b),
    ensures
        comes_before(a, b) == (offset(bytes_of(text), a) < offset(bytes_of(text), b)),
        !comes_before(a, a),
{
    if comes_before(a, b) {
        offsets_are_in_order(text, a, b);
    } else if comes_before(b, a) {
        offsets_are_in_order(text, b, a);
    } else {
        assert(a.row == b.row && a.column == b.column);
    }
}

/// A place is so many bytes behind the start of its row as its column says, and
/// within the text.
pub proof fn place_is_counted_from_its_row(text: Seq<char>, point: Point)
    requires
        has_point(text, point),
    ensures
        offset(bytes_of(text), point) == row_start(bytes_of(text), point.row as nat) + point.column,
        point.row <= last_row(bytes_of(text)),
        point.column <= row_len(bytes_of(text), point.row as nat),
        offset(bytes_of(text), point) <= bytes_of(text).len(),
{
    let bytes = bytes_of(text);
    row_start_bounds(bytes, point.row as nat);
    row_end_bounds(bytes, row_start(bytes, point.row as nat));
}

/// The text between two places is what stands between them: with what is before
/// the one and what is behind the other, it makes the whole text.
pub proof fn text_between_places_is_a_part_of_the_text(text: Seq<char>, range: PointRange)
    requires
        has_point(text, range.start),
        has_point(text, range.end),
        comes_before(range.start, range.end),
    ensures
        ({
            let bytes = bytes_of(text);
            let (start, end) = (
                offset(bytes, range.start) as int,
                offset(bytes, range.end) as int,
            );
            &&& bytes_of(text_between(text, range)) == bytes.subrange(start, end)
            &&& bytes.take(start) + bytes_of(text_between(text, range)) + bytes.skip(end) == bytes
        }),
{
    let all = bytes_of(text);
    let start = offset(all, range.start) as int;
    let end = offset(all, range.end) as int;
    offsets_are_in_order(text, range.start, range.end);
    boundary_in_front(all, start, end);
    let front = all.subrange(0, end);
    valid_utf8_split(front, start);
    assert(front.subrange(start, end) =~= all.subrange(start, end));
    decode_utf8_encode_utf8(all.subrange(start, end));
    assert(all.take(start) + all.subrange(start, end) + all.skip(end) =~= all);
}

/// Every row of a text begins and ends at a place of the text, and no place is
/// behind the end of its row or below the last row.
pub proof fn rows_begin_and_end_at_places(text: Seq<char>, row: u32, point: Point)
    requires
        bytes_of(text).len() <= u32::MAX,
    ensures
        row <= last_row(bytes_of(text)) ==> {
            &&& has_point(text, Point { row, column: 0 })
            &&& has_point(
                text,
                Point { row, column: row_len(bytes_of(text), row as nat) as u32 },
            )
        },
        has_point(text, point) ==> point.row <= last_row(bytes_of(text)) && point.column <= row_len(
            bytes_of(text),
            point.row as nat,
        ),
{
    if row <= last_row(bytes_of(text)) {
        row_ends_are_points(text, row as nat);
    }
}

} // verus!
