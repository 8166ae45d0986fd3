//! Excerpts of the files that are likely to be edited next: what surrounds the
//! cursor, and what was edited before.

use crate::buffer::{
    bytes_of, comes_before, has_point, last_row, line_len, max_row, row_ends_are_points, row_len,
    text_between, text_for_range, Point, PointRange,
};
use vstd::prelude::*;
use vstd::seq_lib::*;

verus! {

/// How many rows before the cursor, and how many after it, count as what
/// surrounds it.
pub const CURSOR_CONTEXT_LINE_COUNT: u32 = 20;

/// Where the file of a buffer is.
#[derive(Debug, PartialEq, Eq)]
pub struct FileLocation {
    /// The name of the worktree that it belongs to; none where the project has
    /// no such worktree.
    pub worktree_root: Option<String>,
    /// Its path within the worktree.
    pub path: String,
}

/// A buffer as it is now.
#[derive(Debug, PartialEq, Eq)]
pub struct BufferSnapshot {
    /// Its file, where it has one.
    pub file: Option<FileLocation>,
    pub text: String,
}

/// What was edited. Buffers are named by their position among all buffers.
#[derive(Clone, Copy, Debug, PartialEq, Eq, Structural)]
pub struct EditHistoryContextEntry {
    pub buffer: usize,
    pub edited_range: PointRange,
}

/// A part of a file.
#[derive(Debug, PartialEq, Eq)]
pub struct RelatedExcerpt {
    /// Its first row, and its last one.
    pub row_range: (u32, u32),
    pub text: String,
    /// Its rank: the cursor comes first, then the edits.
    pub order: usize,
}

/// A file with the parts of it that matter.
#[derive(Debug, PartialEq, Eq)]
pub struct RelatedFile {
    pub path: String,
    pub max_row: u32,
    pub excerpts: Vec<RelatedExcerpt>,
    pub in_open_source_repo: bool,
}

/// The model of a part of a file.
#[verifier::ext_equal]
pub struct ExcerptModel {
    pub row_range: (u32, u32),
    pub text: Seq<char>,
    pub order: usize,
}

/// The model of a file with the parts of it that matter.
#[verifier::ext_equal]
pub struct FileModel {
    pub path: Seq<char>,
    pub max_row: nat,
    pub excerpts: Seq<ExcerptModel>,
    pub in_open_source_repo: bool,
}

impl View for RelatedExcerpt {
    type V = ExcerptModel;

    open spec fn view(&self) -> ExcerptModel {
        ExcerptModel { row_range: self.row_range, text: self.text@, order: self.order }
    }
}

impl View for RelatedFile {
    type V = FileModel;

    open spec fn view(&self) -> FileModel {
        FileModel {
            path: self.path@,
            max_row: self.max_row as nat,
            excerpts: excerpt_models(self.excerpts@),
            in_open_source_repo: self.in_open_source_repo,
        }
    }
}

/// The models of excerpts.
pub open spec fn excerpt_models(excerpts: Seq<RelatedExcerpt>) -> Seq<ExcerptModel> {
    excerpts.map_values(|excerpt: RelatedExcerpt| excerpt@)
}

/// The models of files.
pub open spec fn file_models(files: Seq<RelatedFile>) -> Seq<FileModel> {
    files.map_values(|file: RelatedFile| file@)
}

/// A part of a text, with its rank.
pub type RankedRange = (PointRange, usize);

/// The excerpts of a text, in the order of the ranges. Empty ranges have none.
pub open spec fn excerpts_of(text: Seq<char>, ranges: Seq<RankedRange>) -> Seq<ExcerptModel>
    decreases ranges.len(),
{
    if ranges.len() == 0 {
        Seq::empty()
    } else {
        let before = excerpts_of(text, ranges.drop_last());
        let (range, order) = ranges.last();
        if comes_before(range.start, range.end) {
            before.push(
                ExcerptModel {
                    row_range: (range.start.row, range.end.row),
                    text: text_between(text, range),
                    order,
                },
            )
        } else {
            before
        }
    }
}

/// How many excerpts at the front of a list come before one of this rank, or
/// have the same.
pub open spec fn place_of(excerpts: Seq<ExcerptModel>, order: usize) -> nat
    decreases excerpts.len(),
{
    if excerpts.len() == 0 {
        0
    } else if excerpts.last().order <= order {
        excerpts.len()
    } else {
        place_of(excerpts.drop_last(), order)
    }
}

/// The excerpts by rank. Those of the same rank stay in order.
pub open spec fn by_order(excerpts: Seq<ExcerptModel>) -> Seq<ExcerptModel>
    decreases excerpts.len(),
{
    if excerpts.len() == 0 {
        Seq::empty()
    } else {
        let sorted = by_order(excerpts.drop_last());
        sorted.insert(place_of(sorted, excerpts.last().order) as int, excerpts.last())
    }
}

/// What matters of the file of a buffer; nothing where the buffer has no file,
/// or the project no worktree for it.
pub open spec fn related_file(buffer: BufferSnapshot, ranges: Seq<RankedRange>) -> Option<FileModel> {
    match buffer.file {
        Some(file) => match file.worktree_root {
            Some(root) => Some(
                FileModel {
                    path: root@ + "/"@ + file.path@,
                    max_row: last_row(bytes_of(buffer.text@)),
                    excerpts: by_order(excerpts_of(buffer.text@, ranges)),
                    in_open_source_repo: false,
                },
            ),
            None => None,
        },
        None => None,
    }
}

/// What surrounds a cursor: whole rows, as far as the text has them.
pub open spec fn around_cursor(text: Seq<char>, cursor: Point) -> PointRange {
    let bytes = bytes_of(text);
    let start_row = if cursor.row < CURSOR_CONTEXT_LINE_COUNT {
        0
    } else {
        (cursor.row - CURSOR_CONTEXT_LINE_COUNT) as u32
    };
    let end_row = if cursor.row + CURSOR_CONTEXT_LINE_COUNT <= last_row(bytes) {
        (cursor.row + CURSOR_CONTEXT_LINE_COUNT) as u32
    } else {
        last_row(bytes) as u32
    };
    PointRange {
        start: Point { row: start_row, column: 0 },
        end: Point { row: end_row, column: row_len(bytes, end_row as nat) as u32 },
    }
}

/// Whether a text is small enough for rows and columns.
pub open spec fn is_indexable(text: Seq<char>) -> bool {
    bytes_of(text).len() <= u32::MAX
}

/// Whether a text has both ends of a range.
pub open spec fn has_range(text: Seq<char>, range: PointRange) -> bool {
    has_point(text, range.start) && has_point(text, range.end)
}

/// What surrounds a cursor.
fn cursor_range(text: &str, cursor: Point) -> (r: PointRange)
    requires
        is_indexable(text@),
        cursor.row <= last_row(bytes_of(text@)),
        cursor.row <= u32::MAX - CURSOR_CONTEXT_LINE_COUNT,
    ensures
        r == around_cursor(text@, cursor),
        has_range(text@, r),
{
    let last = max_row(text);
    let start_row: u32 = cursor.row.saturating_sub(CURSOR_CONTEXT_LINE_COUNT);
    let wanted: u32 = cursor.row + CURSOR_CONTEXT_LINE_COUNT;
    let end_row: u32 = if wanted <= last {
        wanted
    } else {
        last
    };
    proof {
        row_ends_are_points(text@, start_row as nat);
        row_ends_are_points(text@, end_row as nat);
    }
    PointRange {
        start: Point { row: start_row, column: 0 },
        end: Point { row: end_row, column: line_len(text, end_row) },
    }
}

fn is_before(a: Point, b: Point) -> (r: bool)
    ensures
        r == comes_before(a, b),
{
    a.row < b.row || (a.row == b.row && a.column < b.column)
}

/// Puts an excerpt among others by its rank.
fn insert_by_order(excerpts: &mut Vec<RelatedExcerpt>, excerpt: RelatedExcerpt)
    ensures
        excerpt_models(final(excerpts)@) == excerpt_models(old(excerpts)@).insert(
            place_of(excerpt_models(old(excerpts)@), excerpt.order) as int,
            excerpt@,
        ),
{
    let ghost before = excerpt_models(excerpts@);
    let mut at: usize = excerpts.len();
    assert(before.take(at as int) =~= before);
    while at > 0 && excerpts[at - 1].order > excerpt.order
        invariant
            before == excerpt_models(excerpts@),
            at <= excerpts@.len(),
            place_of(before.take(at as int), excerpt.order) == place_of(before, excerpt.order),
        decreases at,
    {
        assert(before.take(at as int).drop_last() =~= before.take(at - 1));
        assert(before.take(at as int).last() == excerpts@[at - 1]@);
        at = at - 1;
    }
    proof {
        if at > 0 {
            assert(before.take(at as int).last() == excerpts@[at - 1]@);
        }
        assert(place_of(before, excerpt.order) == at);
    }
    excerpts.insert(at, excerpt);
    assert(excerpt_models(excerpts@) =~= before.insert(at as int, excerpt@));
}

/// What matters of the file of a buffer.
pub fn related_file_for_ranges(buffer: &BufferSnapshot, ranges: &Vec<RankedRange>) -> (r: Option<
    RelatedFile,
>)
    requires
        is_indexable(buffer.text@),
        forall|i: int| 0 <= i < ranges@.len() ==> has_range(buffer.text@, (#[trigger] ranges@[i]).0),
    ensures
        r is Some == related_file(*buffer, ranges@) is Some,
        r matches Some(file) ==> file@ == related_file(*buffer, ranges@)->0,
{
    let file = match &buffer.file {
        Some(file) => file,
        None => {
            return None;
        },
    };
    let root = match &file.worktree_root {
        Some(root) => root,
        None => {
            return None;
        },
    };
    let mut path = root.clone();
    path.append("/");
    path.append(file.path.as_str());

    let mut excerpts: Vec<RelatedExcerpt> = Vec::new();
    let mut i: usize = 0;
    assert(ranges@.take(0) =~= Seq::empty());
    assert(excerpt_models(excerpts@) =~= Seq::empty());
    while i < ranges.len()
        invariant
            forall|j: int|
                0 <= j < ranges@.len() ==> has_range(buffer.text@, (#[trigger] ranges@[j]).0),
            i <= ranges@.len(),
            excerpt_models(excerpts@) == by_order(
                excerpts_of(buffer.text@, ranges@.take(i as int)),
            ),
        decreases ranges@.len() - i,
    {
        let (range, order) = ranges[i];
        proof {
            assert(ranges@.take(i + 1).drop_last() =~= ranges@.take(i as int));
            assert(ranges@.take(i + 1).last() == ranges@[i as int]);
            assert(has_range(buffer.text@, ranges@[i as int].0));
        }
        if is_before(range.start, range.end) {
            let excerpt = RelatedExcerpt {
                row_range: (range.start.row, range.end.row),
                text: text_for_range(buffer.text.as_str(), range),
                order,
            };
            proof {
                let before = excerpts_of(buffer.text@, ranges@.take(i as int));
                let after = excerpts_of(buffer.text@, ranges@.take(i + 1));
                assert(after == before.push(excerpt@));
                assert(after.drop_last() =~= before);
            }
            insert_by_order(&mut excerpts, excerpt);
        }
        i = i + 1;
    }
    assert(ranges@.take(i as int) =~= ranges@);
    Some(
        RelatedFile {
            path,
            max_row: max_row(buffer.text.as_str()),
            excerpts,
            in_open_source_repo: false,
        },
    )
}

/// A part of the text of a buffer, with its rank.
pub type BufferRange = (usize, PointRange, usize);

/// All parts of texts that matter: what surrounds the cursor has the first
/// rank, and the edits follow in order.
pub open spec fn ranked_ranges(
    buffers: Seq<BufferSnapshot>,
    active_buffer: usize,
    cursor: Point,
    edit_history: Seq<EditHistoryContextEntry>,
) -> Seq<BufferRange> {
    seq![(active_buffer, around_cursor(buffers[active_buffer as int].text@, cursor), 0usize)]
        + Seq::new(
        edit_history.len(),
        |i: int| (edit_history[i].buffer, edit_history[i].edited_range, (i + 1) as usize),
    )
}

/// The ranges that are in one buffer.
pub open spec fn ranges_in(all: Seq<BufferRange>, buffer: int) -> Seq<RankedRange>
    decreases all.len(),
{
    if all.len() == 0 {
        Seq::empty()
    } else {
        let before = ranges_in(all.drop_last(), buffer);
        if all.last().0 == buffer {
            before.push((all.last().1, all.last().2))
        } else {
            before
        }
    }
}

/// What matters of the files of the first `n` buffers: of those in which
/// something matters, and that have a file in the project.
pub open spec fn files_of(buffers: Seq<BufferSnapshot>, all: Seq<BufferRange>, n: int) -> Seq<
    FileModel,
>
    decreases n,
{
    if n <= 0 {
        Seq::empty()
    } else {
        let before = files_of(buffers, all, n - 1);
        let ranges = ranges_in(all, n - 1);
        if ranges.len() == 0 {
            before
        } else {
            match related_file(buffers[n - 1], ranges) {
                Some(file) => before.push(file),
                None => before,
            }
        }
    }
}

/// The rank of a file: that of its first excerpt, and the last one where it has
/// none.
pub open spec fn rank(file: FileModel) -> usize {
    if file.excerpts.len() == 0 {
        usize::MAX
    } else {
        lowest_order(file.excerpts)
    }
}

/// The lowest rank of excerpts.
pub open spec fn lowest_order(excerpts: Seq<ExcerptModel>) -> usize
    decreases excerpts.len(),
{
    if excerpts.len() == 0 {
        usize::MAX
    } else {
        let before = lowest_order(excerpts.drop_last());
        if excerpts.last().order < before {
            excerpts.last().order
        } else {
            before
        }
    }
}

/// The files stand by rank.
pub open spec fn ordered_by_rank(files: Seq<FileModel>) -> bool {
    forall|i: int, j: int|
        0 <= i < j < files.len() ==> rank(#[trigger] files[i]) <= rank(#[trigger] files[j])
}

/// Whether `files` are these files, put by rank.
pub open spec fn is_rank_order_of(files: Seq<FileModel>, of: Seq<FileModel>) -> bool {
    ordered_by_rank(files) && files.to_multiset() == of.to_multiset()
}

/// The rank of a file.
fn rank_of(file: &RelatedFile) -> (r: usize)
    ensures
        r == rank(file@),
{
    let ghost models = excerpt_models(file.excerpts@);
    let mut lowest: usize = usize::MAX;
    let mut i: usize = 0;
    assert(models.take(0) =~= Seq::empty());
    while i < file.excerpts.len()
        invariant
            models == excerpt_models(file.excerpts@),
            i <= file.excerpts@.len(),
            lowest == lowest_order(models.take(i as int)),
        decreases file.excerpts@.len() - i,
    {
        proof {
            assert(models.take(i + 1).drop_last() =~= models.take(i as int));
            assert(models.take(i + 1).last() == file.excerpts@[i as int]@);
        }
        let order = file.excerpts[i].order;
        if order < lowest {
            lowest = order;
        }
        i = i + 1;
    }
    assert(models.take(i as int) =~= models);
    lowest
}

/// Puts a file among others by its rank.
fn insert_by_rank(files: &mut Vec<RelatedFile>, file: RelatedFile)
    requires
        ordered_by_rank(file_models(old(files)@)),
    ensures
        ordered_by_rank(file_models(final(files)@)),
        file_models(final(files)@).to_multiset() == file_models(
            old(files)@,
        ).to_multiset().insert(file@),
{
    let ghost before = file_models(files@);
    let own = rank_of(&file);
    let mut at: usize = files.len();
    while at > 0 && rank_of(&files[at - 1]) > own
        invariant
            before == file_models(files@),
            own == rank(file@),
            at <= files@.len(),
            forall|j: int| at <= j < files@.len() ==> rank(#[trigger] before[j]) > own,
        decreases at,
    {
        assert(before[at - 1] == files@[at - 1]@);
        at = at - 1;
    }
    proof {
        if at > 0 {
            assert(before[at - 1] == files@[at - 1]@);
        }
    }
    files.insert(at, file);
    proof {
        let after = file_models(files@);
        assert(after =~= before.insert(at as int, file@));
        to_multiset_insert(before, at as int, file@);
        assert forall|i: int, j: int| 0 <= i < j < after.len() implies rank(#[trigger] after[i])
            <= rank(#[trigger] after[j]) by {
            let i0 = if i < at { i } else { i - 1 };
            let j0 = if j < at { j } else { j - 1 };
            if i != at {
                assert(after[i] == before[i0]);
            }
            if j != at {
                assert(after[j] == before[j0]);
            }
            if j == at {
                if i < at - 1 {
                    assert(rank(before[i]) <= rank(before[at - 1]));
                }
            }
        }
    }
}

/// The ranges in one buffer are among all ranges.
proof fn ranges_come_from_all(all: Seq<BufferRange>, buffer: int, i: int)
    requires
        0 <= i < ranges_in(all, buffer).len(),
    ensures
        exists|j: int|
            0 <= j < all.len() && (#[trigger] all[j]).0 == buffer && all[j].1 == ranges_in(
                all,
                buffer,
            )[i].0,
    decreases all.len(),
{
    let front = all.drop_last();
    if i < ranges_in(front, buffer).len() {
        ranges_come_from_all(front, buffer, i);
        let j = choose|j: int|
            0 <= j < front.len() && (#[trigger] front[j]).0 == buffer && front[j].1 == ranges_in(
                front,
                buffer,
            )[i].0;
        assert(all[j] == front[j]);
    } else {
        assert(all[all.len() - 1].0 == buffer);
    }
}

/// The ranges that are in one buffer.
fn collect_ranges(all: &Vec<BufferRange>, buffer: usize) -> (r: Vec<RankedRange>)
    ensures
        r@ == ranges_in(all@, buffer as int),
{
    let mut out: Vec<RankedRange> = Vec::new();
    let mut i: usize = 0;
    assert(all@.take(0) =~= Seq::empty());
    while i < all.len()
        invariant
            i <= all@.len(),
            out@ == ranges_in(all@.take(i as int), buffer as int),
        decreases all@.len() - i,
    {
        proof {
            assert(all@.take(i + 1).drop_last() =~= all@.take(i as int));
            assert(all@.take(i + 1).last() == all@[i as int]);
        }
        let (own, range, order) = all[i];
        if own == buffer {
            out.push((range, order));
        }
        i = i + 1;
    }
    assert(all@.take(i as int) =~= all@);
    out
}

/// Collects the excerpts of the files that are likely to be edited next, file
/// by file. Files without an excerpt come last.
pub fn collect_editable_context(
    buffers: &Vec<BufferSnapshot>,
    active_buffer: usize,
    cursor_position: Point,
    edit_history: &Vec<EditHistoryContextEntry>,
) -> (r: Vec<RelatedFile>)
    requires
        forall|i: int| 0 <= i < buffers@.len() ==> is_indexable((#[trigger] buffers@[i]).text@),
        active_buffer < buffers@.len(),
        has_point(buffers@[active_buffer as int].text@, cursor_position),
        cursor_position.row <= u32::MAX - CURSOR_CONTEXT_LINE_COUNT,
        forall|i: int|
            0 <= i < edit_history@.len() ==> (#[trigger] edit_history@[i]).buffer < buffers@.len()
                && has_range(
                buffers@[edit_history@[i].buffer as int].text@,
                edit_history@[i].edited_range,
            ),
    ensures
        is_rank_order_of(
            file_models(r@),
            files_of(
                buffers@,
                ranked_ranges(buffers@, active_buffer, cursor_position, edit_history@),
                buffers@.len() as int,
            ),
        ),
{
    let ghost ranked = ranked_ranges(buffers@, active_buffer, cursor_position, edit_history@);
    let mut all: Vec<BufferRange> = Vec::new();
    let around = cursor_range(buffers[active_buffer].text.as_str(), cursor_position);
    all.push((active_buffer, around, 0));
    let len: usize = edit_history.len();
    let mut i: usize = 0;
    while i < len
        invariant
            len == edit_history@.len(),
            i <= len,
            active_buffer < buffers@.len(),
            all@ == ranked_ranges(buffers@, active_buffer, cursor_position, edit_history@).take(
                i + 1,
            ),
            has_range(buffers@[active_buffer as int].text@, all@[0].1),
            forall|j: int|
                0 <= j < edit_history@.len() ==> (#[trigger] edit_history@[j]).buffer
                    < buffers@.len() && has_range(
                    buffers@[edit_history@[j].buffer as int].text@,
                    edit_history@[j].edited_range,
                ),
            forall|j: int|
                0 <= j < all@.len() ==> (#[trigger] all@[j]).0 < buffers@.len() && has_range(
                    buffers@[all@[j].0 as int].text@,
                    all@[j].1,
                ),
        decreases len - i,
    {
        let entry = edit_history[i];
        let ghost before = all@;
        all.push((entry.buffer, entry.edited_range, i + 1));
        proof {
            let ranked = ranked_ranges(buffers@, active_buffer, cursor_position, edit_history@);
            assert(ranked.take(i + 2) =~= ranked.take(i + 1).push(ranked[i + 1]));
            assert(edit_history@[i as int].buffer < buffers@.len());
            assert forall|j: int| 0 <= j < all@.len() implies (#[trigger] all@[j]).0 < buffers@.len()
                && has_range(buffers@[all@[j].0 as int].text@, all@[j].1) by {
                if j < before.len() {
                    assert(all@[j] == before[j]);
                }
            }
        }
        i = i + 1;
    }
    assert(ranked.take(i + 1) =~= ranked);

    let mut files: Vec<RelatedFile> = Vec::new();
    let mut b: usize = 0;
    assert(file_models(files@) =~= Seq::empty());
    while b < buffers.len()
        invariant
            forall|j: int| 0 <= j < buffers@.len() ==> is_indexable((#[trigger] buffers@[j]).text@),
            b <= buffers@.len(),
            all@ == ranked,
            forall|j: int|
                0 <= j < all@.len() ==> (#[trigger] all@[j]).0 < buffers@.len() && has_range(
                    buffers@[all@[j].0 as int].text@,
                    all@[j].1,
                ),
            is_rank_order_of(file_models(files@), files_of(buffers@, ranked, b as int)),
        decreases buffers@.len() - b,
    {
        let ranges = collect_ranges(&all, b);
        let ghost before = files_of(buffers@, ranked, b as int);
        if ranges.len() > 0 {
            assert(is_indexable(buffers@[b as int].text@));
            assert forall|j: int| 0 <= j < ranges@.len() implies has_range(
                buffers@[b as int].text@,
                (#[trigger] ranges@[j]).0,
            ) by {
                ranges_come_from_all(ranked, b as int, j);
            }
            if let Some(file) = related_file_for_ranges(&buffers[b], &ranges) {
                insert_by_rank(&mut files, file);
                proof {
                    to_multiset_build(before, file@);
                }
            }
        }
        b = b + 1;
    }
    files
}

/// What surrounds a cursor holds the row of the cursor and stays within the
/// text, with no more than so many rows on either side.
pub proof fn cursor_is_within_its_surroundings(text: Seq<char>, cursor: Point)
    requires
        is_indexable(text),
        cursor.row <= last_row(bytes_of(text)),
        cursor.row <= u32::MAX - CURSOR_CONTEXT_LINE_COUNT,
    ensures
        ({
            let range = around_cursor(text, cursor);
            &&& range.start.row <= cursor.row <= range.end.row <= last_row(bytes_of(text))
            &&& cursor.row - range.start.row <= CURSOR_CONTEXT_LINE_COUNT
            &&& range.end.row - cursor.row <= CURSOR_CONTEXT_LINE_COUNT
            &&& range.start.column == 0
        }),
{
}

proof fn place_splits(sorted: Seq<ExcerptModel>, order: usize)
    requires
        forall|i: int, j: int|
            0 <= i < j < sorted.len() ==> (#[trigger] sorted[i]).order <= (
            #[trigger] sorted[j]).order,
    ensures
        place_of(sorted, order) <= sorted.len(),
        forall|i: int| 0 <= i < place_of(sorted, order) ==> (#[trigger] sorted[i]).order <= order,
        forall|i: int|
            place_of(sorted, order) <= i < sorted.len() ==> (#[trigger] sorted[i]).order > order,
    decreases sorted.len(),
{
    if sorted.len() > 0 && sorted.last().order > order {
        let front = sorted.drop_last();
        assert forall|i: int, j: int| 0 <= i < j < front.len() implies (#[trigger] front[i]).order
            <= (#[trigger] front[j]).order by {
            assert(front[i] == sorted[i] && front[j] == sorted[j]);
        }
        place_splits(front, order);
        assert forall|i: int| 0 <= i < place_of(sorted, order) implies (
        #[trigger] sorted[i]).order <= order by {
            assert(front[i] == sorted[i]);
        }
        assert forall|i: int| place_of(sorted, order) <= i < sorted.len() implies (
        #[trigger] sorted[i]).order > order by {
            if i < front.len() {
                assert(front[i] == sorted[i]);
            }
        }
    } else if sorted.len() > 0 {
        assert forall|i: int| 0 <= i < sorted.len() implies (#[trigger] sorted[i]).order
            <= order by {
            if i < sorted.len() - 1 {
                assert(sorted[i].order <= sorted[sorted.len() - 1].order);
            }
        }
    }
}

/// The excerpts of a file stand by rank, and none is lost or added by putting
/// them so.
pub proof fn excerpts_stand_by_rank(excerpts: Seq<ExcerptModel>)
    ensures
        forall|i: int, j: int|
            0 <= i < j < by_order(excerpts).len() ==> (#[trigger] by_order(excerpts)[i]).order <= (
            #[trigger] by_order(excerpts)[j]).order,
        by_order(excerpts).to_multiset() == excerpts.to_multiset(),
    decreases excerpts.len(),
{
    if excerpts.len() == 0 {
        assert(by_order(excerpts) =~= excerpts);
    } else {
        let front = excerpts.drop_last();
        let last = excerpts.last();
        excerpts_stand_by_rank(front);
        let sorted = by_order(front);
        place_splits(sorted, last.order);
        let at = place_of(sorted, last.order) as int;
        let after = by_order(excerpts);
        assert forall|i: int, j: int| 0 <= i < j < after.len() implies (#[trigger] after[i]).order
            <= (#[trigger] after[j]).order by {
            let i0 = if i < at { i } else { i - 1 };
            let j0 = if j < at { j } else { j - 1 };
            if i != at {
                assert(after[i] == sorted[i0]);
            }
            if j != at {
                assert(after[j] == sorted[j0]);
            }
        }
        to_multiset_insert(sorted, at, last);
        to_multiset_build(front, last);
        assert(front.push(last) =~= excerpts);
    }
}

proof fn lowest_order_is_lowest(excerpts: Seq<ExcerptModel>)
    ensures
        forall|i: int|
            0 <= i < excerpts.len() ==> lowest_order(excerpts) <= (#[trigger] excerpts[i]).order,
        excerpts.len() > 0 && lowest_order(excerpts) < usize::MAX ==> exists|i: int|
            0 <= i < excerpts.len() && (#[trigger] excerpts[i]).order == lowest_order(excerpts),
    decreases excerpts.len(),
{
    if excerpts.len() > 0 {
        let front = excerpts.drop_last();
        lowest_order_is_lowest(front);
        assert forall|i: int| 0 <= i < excerpts.len() implies lowest_order(excerpts) <= (
        #[trigger] excerpts[i]).order by {
            if i < front.len() {
                assert(front[i] == excerpts[i]);
            }
        }
        if lowest_order(excerpts) < usize::MAX {
            if excerpts.last().order < lowest_order(front) {
                assert(excerpts[excerpts.len() - 1].order == lowest_order(excerpts));
            } else {
                let i = choose|i: int|
                    0 <= i < front.len() && (#[trigger] front[i]).order == lowest_order(front);
                assert(excerpts[i] == front[i]);
            }
        }
    }
}

/// The file with the cursor comes first.
pub proof fn file_with_the_cursor_comes_first(files: Seq<FileModel>, file: int, excerpt: int)
    requires
        ordered_by_rank(files),
        0 <= file < files.len(),
        0 <= excerpt < files[file].excerpts.len(),
        files[file].excerpts[excerpt].order == 0,
    ensures
        exists|i: int|
            0 <= i < files[0].excerpts.len() && (#[trigger] files[0].excerpts[i]).order == 0,
{
    lowest_order_is_lowest(files[file].excerpts);
    assert(rank(files[file]) == 0);
    if file > 0 {
        assert(rank(files[0]) <= rank(files[file]));
    }
    lowest_order_is_lowest(files[0].excerpts);
}

proof fn ranks_in_one_buffer_rise(all: Seq<BufferRange>, buffer: int)
    requires
        forall|i: int| 0 <= i < all.len() ==> (#[trigger] all[i]).2 == i,
    ensures
        forall|i: int, j: int|
            0 <= i < j < ranges_in(all, buffer).len() ==> (#[trigger] ranges_in(all, buffer)[i]).1
                < (#[trigger] ranges_in(all, buffer)[j]).1,
        forall|i: int|
            0 <= i < ranges_in(all, buffer).len() ==> (#[trigger] ranges_in(all, buffer)[i]).1
                < all.len(),
    decreases all.len(),
{
    if all.len() > 0 {
        let front = all.drop_last();
        assert forall|i: int| 0 <= i < front.len() implies (#[trigger] front[i]).2 == i by {
            assert(front[i] == all[i]);
        }
        ranks_in_one_buffer_rise(front, buffer);
        assert(all[all.len() - 1].2 == all.len() - 1);
        let ranges = ranges_in(all, buffer);
        let before = ranges_in(front, buffer);
        assert forall|i: int| 0 <= i < ranges.len() implies (#[trigger] ranges[i]).1
            < all.len() by {
            if i < before.len() {
                assert(ranges[i] == before[i]);
            }
        }
        assert forall|i: int, j: int| 0 <= i < j < ranges.len() implies (#[trigger] ranges[i]).1 < (
        #[trigger] ranges[j]).1 by {
            assert(ranges[i] == before[i]);
            if j < before.len() {
                assert(ranges[j] == before[j]);
            }
        }
    }
}

/// No two parts of one buffer have the same rank: the cursor and the edits are
/// numbered one after the other.
pub proof fn ranks_are_distinct(
    buffers: Seq<BufferSnapshot>,
    active_buffer: usize,
    cursor: Point,
    edit_history: Seq<EditHistoryContextEntry>,
    buffer: int,
)
    requires
        edit_history.len() < usize::MAX,
    ensures
        ({
            let ranges = ranges_in(
                ranked_ranges(buffers, active_buffer, cursor, edit_history),
                buffer,
            );
            forall|i: int, j: int|
                0 <= i < j < ranges.len() ==> (#[trigger] ranges[i]).1 < (#[trigger] ranges[j]).1
        }),
{
    ranks_in_one_buffer_rise(
        ranked_ranges(buffers, active_buffer, cursor, edit_history),
        buffer,
    );
}

/// What surrounds a cursor is every row of the text within twenty rows of it,
/// and no other, whole: from the start of the first of them to the end of the
/// last, behind which no byte of that row is left.
pub proof fn rows_around_the_cursor_are_all_there(text: Seq<char>, cursor: Point, row: nat)
    requires
        is_indexable(text),
        cursor.row <= last_row(bytes_of(text)),
        cursor.row <= u32::MAX - 20,
        row <= last_row(bytes_of(text)),
    ensures
        ({
            let range = around_cursor(text, cursor);
            let bytes = bytes_of(text);
            let end = crate::buffer::offset(bytes, range.end) as int;
            &&& -20 <= row - cursor.row <= 20 <==> range.start.row <= row <= range.end.row
            &&& range.start.column == 0
            &&& range.end.row <= last_row(bytes)
            &&& range.end.column == row_len(bytes, range.end.row as nat)
            &&& end == bytes.len() || (0 <= end < bytes.len() && bytes[end] == 10)
        }),
{
    let range = around_cursor(text, cursor);
    let bytes = bytes_of(text);
    let last = range.end.row as nat;
    crate::buffer::rows_are_parted_by_newlines(bytes, last, 0);
    row_ends_are_points(text, last);
    assert(row_len(bytes, last) <= bytes.len());
}

/// Each range that is not empty has an excerpt, with its rows, its text and its
/// rank, and an empty one has none; they follow one another as the ranges do.
pub proof fn each_range_has_its_excerpt(
    text: Seq<char>,
    ranges: Seq<RankedRange>,
    range: PointRange,
    order: usize,
)
    ensures
        excerpts_of(text, Seq::<RankedRange>::empty()) == Seq::<ExcerptModel>::empty(),
        comes_before(range.start, range.end) ==> {
            let more = excerpts_of(text, ranges.push((range, order)));
            &&& more.len() == excerpts_of(text, ranges).len() + 1
            &&& more.drop_last() == excerpts_of(text, ranges)
            &&& more.last().row_range == (range.start.row, range.end.row)
            &&& more.last().text == text_between(text, range)
            &&& more.last().order == order
        },
        !comes_before(range.start, range.end) ==> excerpts_of(text, ranges.push((range, order)))
            == excerpts_of(text, ranges),
{
    assert(ranges.push((range, order)).drop_last() =~= ranges);
    assert(ranges.push((range, order)).last() == (range, order));
    if comes_before(range.start, range.end) {
        assert(excerpts_of(text, ranges.push((range, order))).drop_last() =~= excerpts_of(
            text,
            ranges,
        ));
    }
}

/// Excerpts that stand by rank already stay as they stand, those of one rank
/// among them.
pub proof fn excerpts_in_order_stay(excerpts: Seq<ExcerptModel>)
    requires
        forall|i: int, j: int|
            0 <= i < j < excerpts.len() ==> (#[trigger] excerpts[i]).order <= (
            #[trigger] excerpts[j]).order,
    ensures
        by_order(excerpts) == excerpts,
    decreases excerpts.len(),
{
    if excerpts.len() == 0 {
        assert(by_order(excerpts) =~= excerpts);
    } else {
        let front = excerpts.drop_last();
        assert forall|i: int, j: int| 0 <= i < j < front.len() implies (#[trigger] front[i]).order
            <= (#[trigger] front[j]).order by {
            assert(front[i] == excerpts[i] && front[j] == excerpts[j]);
        }
        excerpts_in_order_stay(front);
        if front.len() > 0 {
            assert(front.last() == excerpts[excerpts.len() - 2]);
            assert(excerpts[excerpts.len() - 2].order <= excerpts[excerpts.len() - 1].order);
        }
        assert(place_of(front, excerpts.last().order) == front.len());
        assert(by_order(excerpts) =~= excerpts);
    }
}

/// A buffer has a related file exactly where it has a file that the project has
/// a worktree for. The file goes by the name of the worktree and its path
/// within it, and its excerpts are those of the ranges.
pub proof fn file_in_a_worktree_is_related(
    buffer: BufferSnapshot,
    ranges: Seq<RankedRange>,
    root: String,
    path: String,
)
    ensures
        buffer.file is None ==> related_file(buffer, ranges) is None,
        buffer.file matches Some(file) ==> file.worktree_root is None ==> related_file(
            buffer,
            ranges,
        ) is None,
        buffer.file == Some(FileLocation { worktree_root: Some(root), path }) ==> {
            let file = related_file(buffer, ranges)->0;
            &&& related_file(buffer, ranges) is Some
            &&& file.path == root@ + seq!['/'] + path@
            &&& file.max_row == last_row(bytes_of(buffer.text@))
            &&& !file.in_open_source_repo
            &&& file.excerpts.to_multiset() == excerpts_of(buffer.text@, ranges).to_multiset()
            &&& forall|i: int, j: int|
                0 <= i < j < file.excerpts.len() ==> (#[trigger] file.excerpts[i]).order <= (
                #[trigger] file.excerpts[j]).order
        },
{
    reveal_strlit("/");
    assert("/"@ =~= seq!['/']);
    excerpts_stand_by_rank(excerpts_of(buffer.text@, ranges));
}

/// What surrounds the cursor has the first rank, and each edit the rank of its
/// place in the history, counted from one; all of them count.
pub proof fn cursor_comes_before_the_edits(
    buffers: Seq<BufferSnapshot>,
    active_buffer: usize,
    cursor: Point,
    edit_history: Seq<EditHistoryContextEntry>,
    i: int,
)
    requires
        active_buffer < buffers.len(),
        edit_history.len() < usize::MAX,
    ensures
        ({
            let all = ranked_ranges(buffers, active_buffer, cursor, edit_history);
            &&& all.len() == edit_history.len() + 1
            &&& all[0] == (
                active_buffer,
                around_cursor(buffers[active_buffer as int].text@, cursor),
                0usize,
            )
            &&& 0 <= i < edit_history.len() ==> {
                &&& all[i + 1].0 == edit_history[i].buffer
                &&& all[i + 1].1 == edit_history[i].edited_range
                &&& all[i + 1].2 == i + 1
            }
        }),
{
}

proof fn ranges_of_a_buffer_are_kept(all: Seq<BufferRange>, j: int)
    requires
        0 <= j < all.len(),
    ensures
        ranges_in(all, all[j].0 as int).contains((all[j].1, all[j].2)),
    decreases all.len(),
{
    let buffer = all[j].0 as int;
    let ranges = ranges_in(all, buffer);
    if j == all.len() - 1 {
        assert(ranges[ranges.len() - 1] == (all[j].1, all[j].2));
    } else {
        let front = all.drop_last();
        assert(front[j] == all[j]);
        ranges_of_a_buffer_are_kept(front, j);
        let before = ranges_in(front, buffer);
        let i = choose|i: int| 0 <= i < before.len() && before[i] == (all[j].1, all[j].2);
        assert(ranges[i] == before[i]);
    }
}

proof fn range_of_a_buffer_was_given(all: Seq<BufferRange>, buffer: int, i: int) -> (j: int)
    requires
        0 <= i < ranges_in(all, buffer).len(),
    ensures
        0 <= j < all.len(),
        all[j].0 == buffer,
        (all[j].1, all[j].2) == ranges_in(all, buffer)[i],
    decreases all.len(),
{
    let front = all.drop_last();
    if i < ranges_in(front, buffer).len() {
        let j = range_of_a_buffer_was_given(front, buffer, i);
        assert(all[j] == front[j]);
        j
    } else {
        all.len() - 1
    }
}

proof fn excerpt_of_a_range_is_there(text: Seq<char>, ranges: Seq<RankedRange>, i: int)
    requires
        0 <= i < ranges.len(),
        comes_before(ranges[i].0.start, ranges[i].0.end),
    ensures
        excerpts_of(text, ranges).contains(
            ExcerptModel {
                row_range: (ranges[i].0.start.row, ranges[i].0.end.row),
                text: text_between(text, ranges[i].0),
                order: ranges[i].1,
            },
        ),
    decreases ranges.len(),
{
    let all = excerpts_of(text, ranges);
    let wanted = ExcerptModel {
        row_range: (ranges[i].0.start.row, ranges[i].0.end.row),
        text: text_between(text, ranges[i].0),
        order: ranges[i].1,
    };
    if i == ranges.len() - 1 {
        assert(all[all.len() - 1] == wanted);
    } else {
        let front = ranges.drop_last();
        assert(front[i] == ranges[i]);
        excerpt_of_a_range_is_there(text, front, i);
        let before = excerpts_of(text, front);
        let k = choose|k: int| 0 <= k < before.len() && before[k] == wanted;
        assert(all[k] == wanted);
    }
}

proof fn excerpt_is_of_a_range(text: Seq<char>, ranges: Seq<RankedRange>, k: int) -> (i: int)
    requires
        0 <= k < excerpts_of(text, ranges).len(),
    ensures
        0 <= i < ranges.len(),
        comes_before(ranges[i].0.start, ranges[i].0.end),
        excerpts_of(text, ranges)[k] == (ExcerptModel {
            row_range: (ranges[i].0.start.row, ranges[i].0.end.row),
            text: text_between(text, ranges[i].0),
            order: ranges[i].1,
        }),
    decreases ranges.len(),
{
    let front = ranges.drop_last();
    if k < excerpts_of(text, front).len() {
        let i = excerpt_is_of_a_range(text, front, k);
        assert(front[i] == ranges[i]);
        i
    } else {
        ranges.len() - 1
    }
}

proof fn file_of_a_buffer_is_there(
    buffers: Seq<BufferSnapshot>,
    all: Seq<BufferRange>,
    n: int,
    b: int,
)
    requires
        0 <= b < n,
        ranges_in(all, b).len() > 0,
        related_file(buffers[b], ranges_in(all, b)) is Some,
    ensures
        files_of(buffers, all, n).contains(related_file(buffers[b], ranges_in(all, b))->0),
    decreases n,
{
    let files = files_of(buffers, all, n);
    let wanted = related_file(buffers[b], ranges_in(all, b))->0;
    if b == n - 1 {
        assert(files[files.len() - 1] == wanted);
    } else {
        file_of_a_buffer_is_there(buffers, all, n - 1, b);
        let before = files_of(buffers, all, n - 1);
        let k = choose|k: int| 0 <= k < before.len() && before[k] == wanted;
        assert(files[k] == wanted);
    }
}

proof fn file_is_of_a_buffer(
    buffers: Seq<BufferSnapshot>,
    all: Seq<BufferRange>,
    n: int,
    k: int,
) -> (b: int)
    requires
        0 <= k < files_of(buffers, all, n).len(),
    ensures
        0 <= b < n,
        ranges_in(all, b).len() > 0,
        related_file(buffers[b], ranges_in(all, b)) == Some(files_of(buffers, all, n)[k]),
    decreases n,
{
    if k < files_of(buffers, all, n - 1).len() {
        file_is_of_a_buffer(buffers, all, n - 1, k)
    } else {
        n - 1
    }
}

proof fn same_pieces<A>(a: Seq<A>, b: Seq<A>, piece: A)
    requires
        a.to_multiset() == b.to_multiset(),
    ensures
        a.contains(piece) == b.contains(piece),
        a.len() == b.len(),
{
    a.to_multiset_ensures();
    b.to_multiset_ensures();
    to_multiset_contains(a, piece);
    to_multiset_contains(b, piece);
}

/// Nothing that matters is lost: what surrounds the cursor, and each edit, has
/// its excerpt, with its rows, its text and its rank, in the file of its
/// buffer, unless it is empty or its buffer has no file in the project.
pub proof fn everything_that_matters_is_collected(
    buffers: Seq<BufferSnapshot>,
    all: Seq<BufferRange>,
    files: Seq<FileModel>,
    j: int,
    root: String,
    path: String,
) -> (r: (int, int))
    requires
        is_rank_order_of(files, files_of(buffers, all, buffers.len() as int)),
        0 <= j < all.len(),
        all[j].0 < buffers.len(),
        comes_before(all[j].1.start, all[j].1.end),
        buffers[all[j].0 as int].file == Some(FileLocation { worktree_root: Some(root), path }),
    ensures
        0 <= r.0 < files.len(),
        0 <= r.1 < files[r.0].excerpts.len(),
        files[r.0].path == root@ + "/"@ + path@,
        files[r.0].excerpts[r.1].row_range == (all[j].1.start.row, all[j].1.end.row),
        files[r.0].excerpts[r.1].text == text_between(buffers[all[j].0 as int].text@, all[j].1),
        files[r.0].excerpts[r.1].order == all[j].2,
{
    let b = all[j].0 as int;
    let text = buffers[b].text@;
    let ranges = ranges_in(all, b);
    ranges_of_a_buffer_are_kept(all, j);
    let i = choose|i: int| 0 <= i < ranges.len() && ranges[i] == (all[j].1, all[j].2);
    excerpt_of_a_range_is_there(text, ranges, i);
    let file = related_file(buffers[b], ranges)->0;
    file_of_a_buffer_is_there(buffers, all, buffers.len() as int, b);
    same_pieces(files, files_of(buffers, all, buffers.len() as int), file);
    let f = choose|f: int| 0 <= f < files.len() && files[f] == file;
    let wanted = ExcerptModel {
        row_range: (all[j].1.start.row, all[j].1.end.row),
        text: text_between(text, all[j].1),
        order: all[j].2,
    };
    excerpts_stand_by_rank(excerpts_of(text, ranges));
    same_pieces(file.excerpts, excerpts_of(text, ranges), wanted);
    let e = choose|e: int| 0 <= e < file.excerpts.len() && file.excerpts[e] == wanted;
    (f, e)
}

/// Nothing else is collected: every excerpt of every file is that of the cursor
/// or of an edit, in a buffer whose file that is.
pub proof fn only_what_matters_is_collected(
    buffers: Seq<BufferSnapshot>,
    all: Seq<BufferRange>,
    files: Seq<FileModel>,
    f: int,
    e: int,
) -> (j: int)
    requires
        is_rank_order_of(files, files_of(buffers, all, buffers.len() as int)),
        0 <= f < files.len(),
        0 <= e < files[f].excerpts.len(),
    ensures
        0 <= j < all.len(),
        0 <= all[j].0 < buffers.len(),
        comes_before(all[j].1.start, all[j].1.end),
        files[f].excerpts[e].row_range == (all[j].1.start.row, all[j].1.end.row),
        files[f].excerpts[e].text == text_between(buffers[all[j].0 as int].text@, all[j].1),
        files[f].excerpts[e].order == all[j].2,
        buffers[all[j].0 as int].file matches Some(file) && file.worktree_root matches Some(root)
            && files[f].path == root@ + "/"@ + file.path@,
{
    let of = files_of(buffers, all, buffers.len() as int);
    same_pieces(files, of, files[f]);
    assert(files.contains(files[f]));
    let k = choose|k: int| 0 <= k < of.len() && of[k] == files[f];
    let b = file_is_of_a_buffer(buffers, all, buffers.len() as int, k);
    let ranges = ranges_in(all, b);
    let text = buffers[b].text@;
    excerpts_stand_by_rank(excerpts_of(text, ranges));
    let excerpt = files[f].excerpts[e];
    same_pieces(files[f].excerpts, excerpts_of(text, ranges), excerpt);
    assert(files[f].excerpts.contains(excerpt));
    let x = choose|x: int|
        0 <= x < excerpts_of(text, ranges).len() && excerpts_of(text, ranges)[x] == excerpt;
    let i = excerpt_is_of_a_range(text, ranges, x);
    range_of_a_buffer_was_given(all, b, i)
}

/// Files stand by the lowest rank among their excerpts: of two files the later
/// one has no excerpt with a lower rank than all of the earlier one, and a file
/// without excerpts comes after all that have one.
pub proof fn files_stand_by_their_lowest_rank(files: Seq<FileModel>, f: int, g: int, e: int)
    requires
        ordered_by_rank(files),
        0 <= f < g < files.len(),
        0 <= e < files[g].excerpts.len(),
        files[g].excerpts[e].order < usize::MAX,
    ensures
        exists|i: int|
            0 <= i < files[f].excerpts.len() && (#[trigger] files[f].excerpts[i]).order
                <= files[g].excerpts[e].order,
{
    lowest_order_is_lowest(files[g].excerpts);
    lowest_order_is_lowest(files[f].excerpts);
    assert(rank(files[f]) <= rank(files[g]));
    assert(lowest_order(files[g].excerpts) <= files[g].excerpts[e].order);
}

/// No two files are of one buffer: each buffer in which something matters, and
/// that has a file in the project, adds one file, and no other adds any.
pub proof fn each_buffer_adds_one_file(
    buffers: Seq<BufferSnapshot>,
    all: Seq<BufferRange>,
    n: int,
)
    requires
        0 <= n < buffers.len(),
    ensures
        ({
            let (before, after) = (files_of(buffers, all, n), files_of(buffers, all, n + 1));
            let adds = (exists|j: int| 0 <= j < all.len() && (#[trigger] all[j]).0 == n)
                && buffers[n].file is Some && buffers[n].file->0.worktree_root is Some;
            &&& adds ==> after.len() == before.len() + 1 && after.drop_last() == before
            &&& !adds ==> after == before
        }),
        files_of(buffers, all, 0) == Seq::<FileModel>::empty(),
{
    let (before, after) = (files_of(buffers, all, n), files_of(buffers, all, n + 1));
    if exists|j: int| 0 <= j < all.len() && (#[trigger] all[j]).0 == n {
        let j = choose|j: int| 0 <= j < all.len() && (#[trigger] all[j]).0 == n;
        ranges_of_a_buffer_are_kept(all, j);
    }
    if ranges_in(all, n).len() > 0 {
        let j = range_of_a_buffer_was_given(all, n, 0);
        assert(all[j].0 == n);
        if related_file(buffers[n], ranges_in(all, n)) is Some {
            assert(after.drop_last() =~= before);
        }
    }
}

/// A file is given as its model says: with its path, its rows and all of its
/// excerpts, in their order.
pub proof fn file_is_what_the_model_says(file: RelatedFile, i: int)
    ensures
        file@.path == file.path@,
        file@.max_row == file.max_row,
        file@.in_open_source_repo == file.in_open_source_repo,
        file@.excerpts.len() == file.excerpts@.len(),
        0 <= i < file.excerpts@.len() ==> {
            &&& file@.excerpts[i].row_range == file.excerpts@[i].row_range
            &&& file@.excerpts[i].text == file.excerpts@[i].text@
            &&& file@.excerpts[i].order == file.excerpts@[i].order
        },
{
}

/// Excerpts and files are taken one for one, in their order, and a text has a
/// range where it has both of its ends.
pub proof fn excerpts_and_files_are_taken_one_for_one(
    excerpts: Seq<RelatedExcerpt>,
    files: Seq<RelatedFile>,
    text: Seq<char>,
    range: PointRange,
    i: int,
)
    ensures
        excerpt_models(excerpts).len() == excerpts.len(),
        0 <= i < excerpts.len() ==> excerpt_models(excerpts)[i] == excerpts[i]@,
        file_models(files).len() == files.len(),
        0 <= i < files.len() ==> file_models(files)[i] == files[i]@,
        has_range(text, range) == (has_point(text, range.start) && has_point(text, range.end)),
{
}

} // verus!
