//! Unix paths as texts: segments with slashes between them.

use crate::text::{
    join, joined, joined_parts_are_split_again, same_text, split, split_at_each,
    split_parts_have_no_separator, texts,
};
use vstd::prelude::*;

verus! {

/// What separates the segments of a path.
pub const SEPARATOR: char = '/';

/// A path below another one. One that starts with a slash stands for itself.
pub open spec fn below(base: Seq<char>, path: Seq<char>) -> Seq<char> {
    if path.len() > 0 && path[0] == SEPARATOR {
        path
    } else if base.len() == 0 || base.last() == SEPARATOR {
        base + path
    } else {
        base.push(SEPARATOR) + path
    }
}

/// The path that a path has below another one.
pub fn path_below(base: &str, path: &str) -> (r: String)
    ensures
        r@ == below(base@, path@),
{
    if !path.is_empty() && path.get_char(0) == SEPARATOR {
        return path.to_owned();
    }
    let mut out = base.to_owned();
    let n: usize = base.unicode_len();
    if n > 0 && base.get_char(n - 1) != SEPARATOR {
        out.push(SEPARATOR);
    }
    out.append(path);
    assert(out@ =~= below(base@, path@));
    out
}

/// The segments of a path.
pub open spec fn segments(path: Seq<char>) -> Seq<Seq<char>> {
    split(path, SEPARATOR)
}

/// The path of these segments.
pub open spec fn path_of(segments: Seq<Seq<char>>) -> Seq<char> {
    joined(segments, seq![SEPARATOR])
}

/// Whether a segment leads nowhere: it is empty, or a single dot.
pub open spec fn is_idle(segment: Seq<char>) -> bool {
    segment.len() == 0 || segment == "."@
}

/// Whether a path leads through the parent of a directory.
pub open spec fn climbs(path: Seq<char>) -> bool {
    segments(path).contains(".."@)
}

/// The segments from the first on that leads somewhere.
pub open spec fn without_idle_start(segments: Seq<Seq<char>>) -> Seq<Seq<char>>
    decreases segments.len(),
{
    if segments.len() > 0 && is_idle(segments[0]) {
        without_idle_start(segments.drop_first())
    } else {
        segments
    }
}

/// The segments up to the last that leads somewhere.
pub open spec fn without_idle_end(segments: Seq<Seq<char>>) -> Seq<Seq<char>>
    decreases segments.len(),
{
    if segments.len() > 0 && is_idle(segments.last()) {
        without_idle_end(segments.drop_last())
    } else {
        segments
    }
}

/// A path from its first segment to its last one that leads somewhere: without
/// the slashes, and the single dots, at its ends.
pub open spec fn stripped(path: Seq<char>) -> Seq<char> {
    path_of(without_idle_end(without_idle_start(segments(path))))
}

/// The last segment of a path that leads somewhere, unless it leads up.
pub open spec fn file_name(path: Seq<char>) -> Option<Seq<char>> {
    let segments = without_idle_end(segments(path));
    if segments.len() == 0 || segments.last() == ".."@ {
        None
    } else {
        Some(segments.last())
    }
}

/// The path up to the last segment with a given name.
pub open spec fn up_to_segment(segments: Seq<Seq<char>>, name: Seq<char>) -> Option<Seq<char>>
    decreases segments.len(),
{
    if segments.len() == 0 {
        None
    } else if segments.last() == name {
        Some(path_of(segments))
    } else {
        up_to_segment(segments.drop_last(), name)
    }
}

fn segment_is_idle(segment: &str) -> (r: bool)
    ensures
        r == is_idle(segment@),
{
    segment.is_empty() || same_text(segment, ".")
}

/// Whether a path leads through the parent of a directory.
pub fn path_climbs(path: &str) -> (r: bool)
    ensures
        r == climbs(path@),
{
    let parts = split_at_each(path, SEPARATOR);
    let mut i: usize = 0;
    while i < parts.len()
        invariant
            texts(parts@) == segments(path@),
            i <= parts@.len(),
            forall|j: int| 0 <= j < i ==> #[trigger] segments(path@)[j] != ".."@,
        decreases parts@.len() - i,
    {
        assert(parts@[i as int]@ == segments(path@)[i as int]);
        if same_text(parts[i].as_str(), "..") {
            return true;
        }
        i = i + 1;
    }
    assert(parts@.len() == segments(path@).len());
    false
}

/// A path without the slashes, and the single dots, at its ends.
pub fn strip_path(path: &str) -> (r: String)
    ensures
        r@ == stripped(path@),
{
    let mut parts = split_at_each(path, SEPARATOR);
    while parts.len() > 0 && segment_is_idle(parts[0].as_str())
        invariant
            without_idle_start(texts(parts@)) == without_idle_start(segments(path@)),
        decreases parts@.len(),
    {
        let ghost before = texts(parts@);
        let _ = parts.remove(0);
        assert(texts(parts@) =~= before.drop_first());
    }
    assert(parts@.len() > 0 ==> texts(parts@)[0] == parts@[0]@);
    while parts.len() > 0 && segment_is_idle(parts[parts.len() - 1].as_str())
        invariant
            without_idle_end(texts(parts@)) == without_idle_end(
                without_idle_start(segments(path@)),
            ),
        decreases parts@.len(),
    {
        let ghost before = texts(parts@);
        let _ = parts.pop();
        assert(texts(parts@) =~= before.drop_last());
    }
    assert(parts@.len() > 0 ==> texts(parts@).last() == parts@.last()@);
    proof {
        reveal_strlit("/");
        assert("/"@ =~= seq![SEPARATOR]);
    }
    join(&parts, "/")
}

/// The last segment of a path that leads somewhere, unless it leads up.
pub fn last_segment(path: &str) -> (r: Option<String>)
    ensures
        r is Some == file_name(path@) is Some,
        r matches Some(name) ==> name@ == file_name(path@)->0,
{
    let mut parts = split_at_each(path, SEPARATOR);
    while parts.len() > 0 && segment_is_idle(parts[parts.len() - 1].as_str())
        invariant
            without_idle_end(texts(parts@)) == without_idle_end(segments(path@)),
        decreases parts@.len(),
    {
        let ghost before = texts(parts@);
        let _ = parts.pop();
        assert(texts(parts@) =~= before.drop_last());
    }
    assert(parts@.len() > 0 ==> texts(parts@).last() == parts@.last()@);
    match parts.pop() {
        Some(name) => {
            if same_text(name.as_str(), "..") {
                None
            } else {
                Some(name)
            }
        },
        None => None,
    }
}

/// The path up to the last segment with a given name.
pub fn path_up_to(path: &str, name: &str) -> (r: Option<String>)
    ensures
        r is Some == up_to_segment(segments(path@), name@) is Some,
        r matches Some(up_to) ==> up_to@ == up_to_segment(segments(path@), name@)->0,
{
    let mut parts = split_at_each(path, SEPARATOR);
    while parts.len() > 0
        invariant
            up_to_segment(texts(parts@), name@) == up_to_segment(segments(path@), name@),
        decreases parts@.len(),
    {
        let ghost before = texts(parts@);
        assert(before.last() == parts@.last()@);
        if same_text(parts[parts.len() - 1].as_str(), name) {
            proof {
                reveal_strlit("/");
                assert("/"@ =~= seq![SEPARATOR]);
            }
            return Some(join(&parts, "/"));
        }
        let _ = parts.pop();
        assert(texts(parts@) =~= before.drop_last());
    }
    None
}

proof fn idle_start_is_a_front(s: Seq<Seq<char>>)
    ensures
        exists|k: int| 0 <= k <= s.len() && without_idle_start(s) == #[trigger] s.skip(k),
    decreases s.len(),
{
    if s.len() > 0 && is_idle(s[0]) {
        let rest = s.drop_first();
        idle_start_is_a_front(rest);
        let k = choose|k: int| 0 <= k <= rest.len() && without_idle_start(rest) == #[trigger] rest.skip(k);
        assert(rest.skip(k) =~= s.skip(k + 1));
    } else {
        assert(s.skip(0) =~= s);
    }
}

proof fn idle_end_is_a_back(s: Seq<Seq<char>>)
    ensures
        exists|k: int| 0 <= k <= s.len() && without_idle_end(s) == #[trigger] s.take(k),
    decreases s.len(),
{
    if s.len() > 0 && is_idle(s.last()) {
        let rest = s.drop_last();
        idle_end_is_a_back(rest);
        let k = choose|k: int| 0 <= k <= rest.len() && without_idle_end(rest) == #[trigger] rest.take(k);
        assert(rest.take(k) =~= s.take(k));
    } else {
        assert(s.take(s.len() as int) =~= s);
    }
}

/// A path that leads through no parent still leads through none when it is
/// stripped.
pub proof fn stripped_keeps_from_climbing(path: Seq<char>)
    requires
        !climbs(path),
    ensures
        !climbs(stripped(path)),
{
    let all = segments(path);
    let rest = without_idle_start(all);
    idle_start_is_a_front(all);
    let from = choose|k: int| 0 <= k <= all.len() && rest == #[trigger] all.skip(k);
    idle_end_is_a_back(rest);
    let to = choose|k: int| 0 <= k <= rest.len() && without_idle_end(rest) == #[trigger] rest.take(k);
    let kept = rest.take(to);
    split_parts_have_no_separator(path, SEPARATOR);
    assert forall|i: int| 0 <= i < kept.len() implies kept[i] == all[from + i] by {}
    if kept.len() == 0 {
        assert(stripped(path) =~= Seq::empty());
        reveal_strlit("..");
        assert(segments(stripped(path)) =~= seq![Seq::empty()]);
    } else {
        assert forall|i: int| 0 <= i < kept.len() implies !(#[trigger] kept[i]).contains(
            SEPARATOR,
        ) by {
            assert(kept[i] == all[from + i]);
        }
        joined_parts_are_split_again(kept, SEPARATOR);
        assert forall|i: int| 0 <= i < kept.len() implies kept[i] != ".."@ by {
            assert(all.contains(all[from + i]));
        }
    }
}

proof fn joined_starts_with_first(parts: Seq<Seq<char>>, separator: Seq<char>)
    requires
        parts.len() > 0,
    ensures
        parts[0].is_prefix_of(joined(parts, separator)),
    decreases parts.len(),
{
    if parts.len() > 1 {
        let front = parts.drop_last();
        joined_starts_with_first(front, separator);
        let all = joined(parts, separator);
        assert(front[0] == parts[0]);
        assert(all.subrange(0, parts[0].len() as int) =~= joined(front, separator).subrange(
            0,
            parts[0].len() as int,
        ));
    } else {
        assert(parts[0].subrange(0, parts[0].len() as int) =~= parts[0]);
    }
}

/// A stripped path does not start with a slash.
pub proof fn stripped_is_relative(path: Seq<char>)
    ensures
        stripped(path).len() > 0 ==> stripped(path)[0] != SEPARATOR,
{
    let all = segments(path);
    let rest = without_idle_start(all);
    idle_start_is_a_front(all);
    let from = choose|k: int| 0 <= k <= all.len() && rest == #[trigger] all.skip(k);
    idle_end_is_a_back(rest);
    let to = choose|k: int| 0 <= k <= rest.len() && without_idle_end(rest) == #[trigger] rest.take(k);
    let kept = rest.take(to);
    idle_start_is_gone(all);
    if kept.len() > 0 {
        split_parts_have_no_separator(path, SEPARATOR);
        assert(kept[0] == all[from]);
        assert(!all[from].contains(SEPARATOR));
        joined_starts_with_first(kept, seq![SEPARATOR]);
        assert(kept[0].len() > 0);
        assert(stripped(path).subrange(0, kept[0].len() as int)[0] == kept[0][0]);
        assert(kept[0].contains(kept[0][0]));
    }
}

proof fn idle_start_is_gone(s: Seq<Seq<char>>)
    ensures
        without_idle_start(s).len() > 0 ==> !is_idle(without_idle_start(s)[0]),
    decreases s.len(),
{
    if s.len() > 0 && is_idle(s[0]) {
        idle_start_is_gone(s.drop_first());
    }
}

/// Whether these can be the segments of a path: there is one at least, and none
/// of them holds a slash.
pub open spec fn are_segments(parts: Seq<Seq<char>>) -> bool {
    parts.len() > 0 && forall|i: int| 0 <= i < parts.len() ==> !(#[trigger] parts[i]).contains('/')
}

/// Whether all segments are empty, or single dots.
pub open spec fn lead_nowhere(parts: Seq<Seq<char>>) -> bool {
    forall|i: int| 0 <= i < parts.len() ==> (#[trigger] parts[i]).len() == 0 || parts[i] == seq!['.']
}

/// A path that starts with a slash stands for itself wherever it is taken to be
/// below. Any other is appended, with exactly one slash between the two, or
/// none where there is nothing to be below.
pub proof fn path_is_put_below(base: Seq<char>, path: Seq<char>)
    ensures
        path.len() > 0 && path[0] == '/' ==> below(base, path) == path,
        !(path.len() > 0 && path[0] == '/') && base.len() > 0 && base.last() != '/' ==> below(
            base,
            path,
        ) == base + seq!['/'] + path,
        !(path.len() > 0 && path[0] == '/') && (base.len() == 0 || base.last() == '/') ==> below(
            base,
            path,
        ) == base + path,
{
    assert(base.push('/') + path =~= base + seq!['/'] + path);
}

/// A path leads through a parent exactly where one of its segments is two dots.
pub proof fn parent_segments_climb(parts: Seq<Seq<char>>)
    requires
        are_segments(parts),
    ensures
        segments(joined(parts, seq!['/'])) == parts,
        climbs(joined(parts, seq!['/'])) == exists|i: int|
            0 <= i < parts.len() && #[trigger] parts[i] == seq!['.', '.'],
{
    reveal_strlit("..");
    assert(".."@ =~= seq!['.', '.']);
    joined_parts_are_split_again(parts, '/');
    if climbs(joined(parts, seq!['/'])) {
        let i = choose|i: int| 0 <= i < parts.len() && parts[i] == ".."@;
        assert(parts[i] == seq!['.', '.']);
    }
}

proof fn idle_segments_lead_nowhere(segment: Seq<char>)
    ensures
        is_idle(segment) == (segment.len() == 0 || segment == seq!['.']),
{
    reveal_strlit(".");
    assert("."@ =~= seq!['.']);
}

proof fn idle_end_is_taken_off(kept: Seq<Seq<char>>, idle: Seq<Seq<char>>)
    requires
        lead_nowhere(idle),
        kept.len() > 0 ==> !(kept.last().len() == 0 || kept.last() == seq!['.']),
    ensures
        without_idle_end(kept + idle) == kept,
    decreases idle.len(),
{
    let all = kept + idle;
    if idle.len() == 0 {
        assert(all =~= kept);
        if kept.len() > 0 {
            idle_segments_lead_nowhere(kept.last());
        }
    } else {
        idle_segments_lead_nowhere(idle.last());
        assert(all.last() == idle.last());
        assert(all.drop_last() =~= kept + idle.drop_last());
        assert forall|i: int| 0 <= i < idle.drop_last().len() implies (#[trigger] idle.drop_last()[i]).len()
            == 0 || idle.drop_last()[i] == seq!['.'] by {
            assert(idle.drop_last()[i] == idle[i]);
        }
        idle_end_is_taken_off(kept, idle.drop_last());
    }
}

proof fn idle_start_is_taken_off(idle: Seq<Seq<char>>, kept: Seq<Seq<char>>)
    requires
        lead_nowhere(idle),
        kept.len() > 0 ==> !(kept[0].len() == 0 || kept[0] == seq!['.']),
    ensures
        without_idle_start(idle + kept) == kept,
    decreases idle.len(),
{
    let all = idle + kept;
    if idle.len() == 0 {
        assert(all =~= kept);
        if kept.len() > 0 {
            idle_segments_lead_nowhere(kept[0]);
        }
    } else {
        idle_segments_lead_nowhere(idle[0]);
        assert(all.drop_first() =~= idle.drop_first() + kept);
        assert forall|i: int| 0 <= i < idle.drop_first().len() implies (#[trigger] idle.drop_first()[i]).len()
            == 0 || idle.drop_first()[i] == seq!['.'] by {
            assert(idle.drop_first()[i] == idle[i + 1]);
        }
        idle_start_is_taken_off(idle.drop_first(), kept);
    }
}

/// Stripping a path takes the segments that lead nowhere off its two ends, and
/// keeps all that stands between.
pub proof fn ends_of_a_path_are_stripped(
    front: Seq<Seq<char>>,
    kept: Seq<Seq<char>>,
    back: Seq<Seq<char>>,
)
    requires
        are_segments(front + kept + back),
        lead_nowhere(front),
        lead_nowhere(back),
        kept.len() > 0 ==> !(kept[0].len() == 0 || kept[0] == seq!['.']) && !(kept.last().len() == 0
            || kept.last() == seq!['.']),
        kept.len() == 0 ==> back.len() == 0,
    ensures
        stripped(joined(front + kept + back, seq!['/'])) == joined(kept, seq!['/']),
{
    let all = front + kept + back;
    parent_segments_climb(all);
    assert(all =~= front + (kept + back));
    if kept.len() > 0 {
        assert((kept + back)[0] == kept[0]);
    }
    idle_start_is_taken_off(front, kept + back);
    idle_end_is_taken_off(kept, back);
}

/// The name of what a path leads to is its last segment that leads anywhere.
/// There is none where no segment leads anywhere, or where that one leads up.
pub proof fn last_segment_is_the_name(
    front: Seq<Seq<char>>,
    name: Seq<char>,
    back: Seq<Seq<char>>,
)
    requires
        lead_nowhere(back),
    ensures
        are_segments(front.push(name) + back) && name.len() > 0 && name != seq!['.'] ==> file_name(
            joined(front.push(name) + back, seq!['/']),
        ) == if name == seq!['.', '.'] {
            None
        } else {
            Some(name)
        },
        are_segments(back) ==> file_name(joined(back, seq!['/'])) is None,
{
    reveal_strlit("..");
    assert(".."@ =~= seq!['.', '.']);
    if are_segments(front.push(name) + back) && name.len() > 0 && name != seq!['.'] {
        parent_segments_climb(front.push(name) + back);
        idle_end_is_taken_off(front.push(name), back);
    }
    if are_segments(back) {
        parent_segments_climb(back);
        assert(Seq::<Seq<char>>::empty() + back =~= back);
        idle_end_is_taken_off(Seq::empty(), back);
    }
}

/// The way up to a segment of a name goes up to the last one of that name, and
/// there is none where no segment has it.
pub proof fn way_ends_at_the_last_of_the_name(
    front: Seq<Seq<char>>,
    name: Seq<char>,
    back: Seq<Seq<char>>,
)
    requires
        !back.contains(name),
    ensures
        up_to_segment(front.push(name) + back, name) == Some(joined(front.push(name), seq!['/'])),
        up_to_segment(back, name) is None,
    decreases back.len(),
{
    let all = front.push(name) + back;
    if back.len() == 0 {
        assert(all =~= front.push(name));
    } else {
        assert(back.contains(back.last()));
        assert(all.drop_last() =~= front.push(name) + back.drop_last());
        assert forall|i: int| 0 <= i < back.drop_last().len() implies back.drop_last()[i] != name by {
            assert(back.contains(back[i]));
        }
        way_ends_at_the_last_of_the_name(front, name, back.drop_last());
    }
}

} // verus!
