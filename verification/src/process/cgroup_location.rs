//! Where in the hierarchy of control groups a process stands, and where a new
//! control group goes.

use crate::digits::{
    decimal, hexadecimal, numeral, numeral_chars, numeral_injective, to_numeral,
};
use crate::process::error::{failed, ProcessError};
use crate::process::unix_path::{
    are_segments, below, climbs, file_name, last_segment, last_segment_is_the_name,
    parent_segments_climb, path_below, path_climbs, path_up_to, segments, strip_path, stripped,
    stripped_is_relative, stripped_keeps_from_climbing, up_to_segment,
    way_ends_at_the_last_of_the_name, SEPARATOR,
};
use crate::text::{ends_with, joined, lines, lines_of, split, starts_with, texts};
use vstd::prelude::*;

verus! {

/// Where the hierarchy of control groups is mounted.
pub const CGROUP_MOUNT: &'static str = "/sys/fs/cgroup";

/// What the line of the unified hierarchy starts with.
pub const UNIFIED_PREFIX: &'static str = "0::";

/// The slice that holds the user's applications.
pub const APP_SLICE: &'static str = "app.slice";

/// What stands behind a prefix in the first line that starts with it.
pub open spec fn first_after(lines: Seq<Seq<char>>, prefix: Seq<char>) -> Option<Seq<char>>
    decreases lines.len(),
{
    if lines.len() == 0 {
        None
    } else if prefix.is_prefix_of(lines[0]) {
        Some(lines[0].skip(prefix.len() as int))
    } else {
        first_after(lines.drop_first(), prefix)
    }
}

/// The directory of the control group of a process, from what the system says
/// of its control groups: the path in the unified hierarchy, below the mount.
/// It has to be absolute, and must not lead through the parent of a directory.
pub open spec fn cgroup_dir(cgroups: Seq<char>) -> Result<Seq<char>, Seq<Seq<char>>> {
    match first_after(lines(cgroups), UNIFIED_PREFIX@) {
        None => Err(seq!["process is not in a unified cgroup v2 hierarchy"@]),
        Some(path) => if climbs(path) {
            Err(seq!["self cgroup path contains parent traversal"@])
        } else if path.len() == 0 || path[0] != SEPARATOR {
            Err(seq!["self cgroup path is not absolute"@, "prefix not found"@])
        } else {
            Ok(below(CGROUP_MOUNT@, stripped(path)))
        },
    }
}

/// What stands behind a prefix in the first line that starts with it.
fn first_line_after(text: &str, prefix: &str) -> (r: Option<String>)
    ensures
        r is Some == first_after(lines(text@), prefix@) is Some,
        r matches Some(rest) ==> rest@ == first_after(lines(text@), prefix@)->0,
{
    let all = lines_of(text);
    let ghost models = lines(text@);
    let mut i: usize = 0;
    assert(models.skip(0) =~= models);
    while i < all.len()
        invariant
            models == lines(text@),
            texts(all@) == models,
            i <= all@.len(),
            first_after(models.skip(i as int), prefix@) == first_after(models, prefix@),
        decreases all@.len() - i,
    {
        let line = all[i].as_str();
        assert(line@ == models.skip(i as int)[0]);
        if starts_with(line, prefix) {
            let rest = line.substring_char(prefix.unicode_len(), line.unicode_len()).to_owned();
            assert(rest@ =~= line@.skip(prefix@.len() as int));
            return Some(rest);
        }
        assert(models.skip(i as int).drop_first() =~= models.skip(i + 1));
        i = i + 1;
    }
    None
}

/// The directory of the control group of a process, from what the system says
/// of its control groups.
pub fn current_cgroup_dir(cgroups: &str) -> (r: Result<String, ProcessError>)
    ensures
        match cgroup_dir(cgroups@) {
            Ok(dir) => r is Ok && r->Ok_0@ == dir,
            Err(error) => r is Err && r->Err_0@ == error,
        },
{
    let relative = match first_line_after(cgroups, UNIFIED_PREFIX) {
        Some(relative) => relative,
        None => {
            return Err(
                ProcessError::new("process is not in a unified cgroup v2 hierarchy".to_owned()),
            );
        },
    };
    if path_climbs(relative.as_str()) {
        return Err(ProcessError::new("self cgroup path contains parent traversal".to_owned()));
    }
    if relative.as_str().is_empty() || relative.as_str().get_char(0) != SEPARATOR {
        return Err(failed("self cgroup path is not absolute", "prefix not found".to_owned()));
    }
    Ok(path_below(CGROUP_MOUNT, strip_path(relative.as_str()).as_str()))
}

/// The name of a control group: which process made it, when it was started, and
/// the how manieth it is.
pub open spec fn name_of_cgroup(pid: u32, instance: u128, id: u64) -> Seq<char> {
    "zed-process-"@ + decimal(pid as nat) + "-"@ + hexadecimal(instance as nat) + "-"@ + decimal(
        id as nat,
    )
}

/// The name of a control group.
pub fn cgroup_name(pid: u32, instance: u128, id: u64) -> (r: String)
    ensures
        r@ == name_of_cgroup(pid, instance, id),
{
    let mut name = "zed-process-".to_owned();
    name.append(to_numeral(pid as u128, 10).as_str());
    name.append("-");
    name.append(to_numeral(instance, 16).as_str());
    name.append("-");
    name.append(to_numeral(id as u128, 10).as_str());
    name
}

/// Where a transient scope goes: the slice of the applications, and the unit
/// that it belongs to.
pub open spec fn scope_site(current: Seq<char>) -> Result<(Seq<char>, Seq<char>), Seq<Seq<char>>> {
    match up_to_segment(segments(current), APP_SLICE@) {
        None => Err(seq!["current cgroup is not within app.slice"@]),
        Some(slice) => match file_name(current) {
            None => Err(seq!["current cgroup has no systemd unit name"@]),
            Some(unit) => if ".service"@.is_suffix_of(unit) || ".scope"@.is_suffix_of(unit) {
                Ok((slice, unit))
            } else {
                Err(seq!["current cgroup is not a systemd unit"@])
            },
        },
    }
}

/// Where a transient scope goes that is made by a process in this control
/// group.
pub fn find_scope_site(current: &str) -> (r: Result<(String, String), ProcessError>)
    ensures
        match scope_site(current@) {
            Ok((slice, unit)) => r is Ok && r->Ok_0.0@ == slice && r->Ok_0.1@ == unit,
            Err(error) => r is Err && r->Err_0@ == error,
        },
{
    let slice = match path_up_to(current, APP_SLICE) {
        Some(slice) => slice,
        None => {
            return Err(ProcessError::new("current cgroup is not within app.slice".to_owned()));
        },
    };
    let unit = match last_segment(current) {
        Some(unit) => unit,
        None => {
            return Err(ProcessError::new("current cgroup has no systemd unit name".to_owned()));
        },
    };
    if !ends_with(unit.as_str(), ".service") && !ends_with(unit.as_str(), ".scope") {
        return Err(ProcessError::new("current cgroup is not a systemd unit".to_owned()));
    }
    Ok((slice, unit))
}

/// The control group of a process is below the mount, and no segment of its
/// path leads out again.
pub proof fn cgroup_dir_is_below_the_mount(cgroups: Seq<char>)
    ensures
        cgroup_dir(cgroups) matches Ok(dir) ==> exists|rest: Seq<char>|
            dir == CGROUP_MOUNT@ + seq![SEPARATOR] + rest && !#[trigger] climbs(rest),
{
    if let Ok(dir) = cgroup_dir(cgroups) {
        let path = first_after(lines(cgroups), UNIFIED_PREFIX@)->0;
        stripped_keeps_from_climbing(path);
        stripped_is_relative(path);
        reveal_strlit("/sys/fs/cgroup");
        assert(dir =~= CGROUP_MOUNT@ + seq![SEPARATOR] + stripped(path));
    }
}

proof fn cut_at_first_dash(a: Seq<char>, b: Seq<char>, c: Seq<char>, d: Seq<char>)
    requires
        !a.contains('-'),
        !c.contains('-'),
        a + seq!['-'] + b == c + seq!['-'] + d,
    ensures
        a == c,
        b == d,
{
    let s = a + seq!['-'] + b;
    let t = c + seq!['-'] + d;
    assert(s[a.len() as int] == '-');
    assert(t[c.len() as int] == '-');
    if a.len() < c.len() {
        assert(c[a.len() as int] == t[a.len() as int]);
    } else if c.len() < a.len() {
        assert(a[c.len() as int] == s[c.len() as int]);
    }
    assert(a =~= c) by {
        assert forall|i: int| 0 <= i < a.len() implies a[i] == c[i] by {
            assert(s[i] == t[i]);
        }
    }
    assert(b =~= s.skip(a.len() + 1int));
    assert(d =~= t.skip(c.len() + 1int));
}

proof fn numeral_has_no_dash(n: nat, base: nat)
    requires
        2 <= base <= 16,
    ensures
        !numeral(n, base).contains('-'),
{
    let s = numeral(n, base);
    assert forall|i: int| 0 <= i < s.len() implies s[i] != '-' by {
        numeral_chars(n, base, i);
    }
}

/// No two control groups have the same name: two of one process differ in
/// their number, and two processes differ in their identifier or in when they
/// were started.
pub proof fn cgroup_names_are_distinct(
    pid: u32,
    instance: u128,
    id: u64,
    other_pid: u32,
    other_instance: u128,
    other_id: u64,
)
    requires
        name_of_cgroup(pid, instance, id) == name_of_cgroup(other_pid, other_instance, other_id),
    ensures
        pid == other_pid,
        instance == other_instance,
        id == other_id,
{
    reveal_strlit("-");
    reveal_strlit("zed-process-");
    assert("-"@ =~= seq!['-']);
    let start = "zed-process-"@;
    let (a, c) = (decimal(pid as nat), decimal(other_pid as nat));
    let (b, d) = (hexadecimal(instance as nat), hexadecimal(other_instance as nat));
    let (e, f) = (decimal(id as nat), decimal(other_id as nat));
    let s = name_of_cgroup(pid, instance, id);
    let t = name_of_cgroup(other_pid, other_instance, other_id);
    let n = start.len() as int;
    assert(s.skip(n) =~= a + seq!['-'] + (b + seq!['-'] + e));
    assert(t.skip(n) =~= c + seq!['-'] + (d + seq!['-'] + f));
    numeral_has_no_dash(pid as nat, 10);
    numeral_has_no_dash(other_pid as nat, 10);
    numeral_has_no_dash(instance as nat, 16);
    numeral_has_no_dash(other_instance as nat, 16);
    cut_at_first_dash(a, b + seq!['-'] + e, c, d + seq!['-'] + f);
    cut_at_first_dash(b, e, d, f);
    numeral_injective(pid as nat, other_pid as nat, 10);
    numeral_injective(instance as nat, other_instance as nat, 16);
    numeral_injective(id as nat, other_id as nat, 10);
}

/// Of the lines that start with a prefix the first one counts, with what stands
/// behind the prefix.
pub proof fn first_line_with_the_prefix_counts(
    front: Seq<Seq<char>>,
    prefix: Seq<char>,
    rest: Seq<char>,
    back: Seq<Seq<char>>,
)
    requires
        forall|i: int| 0 <= i < front.len() ==> !prefix.is_prefix_of(#[trigger] front[i]),
    ensures
        first_after(front.push(prefix + rest) + back, prefix) == Some(rest),
        first_after(front, prefix) is None,
    decreases front.len(),
{
    let all = front.push(prefix + rest) + back;
    if front.len() == 0 {
        assert(all[0] == prefix + rest);
        assert((prefix + rest).subrange(0, prefix.len() as int) =~= prefix);
        assert((prefix + rest).skip(prefix.len() as int) =~= rest);
    } else {
        let tail = front.drop_first();
        assert(all[0] == front[0]);
        assert(all.drop_first() =~= tail.push(prefix + rest) + back);
        assert forall|i: int| 0 <= i < tail.len() implies !prefix.is_prefix_of(#[trigger] tail[i]) by {
            assert(tail[i] == front[i + 1]);
        }
        first_line_with_the_prefix_counts(tail, prefix, rest, back);
    }
}

/// The control group of a process is what the first line of the unified
/// hierarchy names, wherever among the lines it stands, below the mount. A text
/// without such a line, a path that leads through a parent, and one that does
/// not start at the root are refused, each for its own reason.
pub proof fn unified_line_names_the_cgroup(
    cgroups: Seq<char>,
    front: Seq<Seq<char>>,
    path: Seq<char>,
    back: Seq<Seq<char>>,
)
    requires
        forall|i: int| 0 <= i < front.len() ==> !"0::"@.is_prefix_of(#[trigger] front[i]),
    ensures
        lines(cgroups) == front ==> cgroup_dir(cgroups) == Err::<Seq<char>, Seq<Seq<char>>>(
            seq!["process is not in a unified cgroup v2 hierarchy"@],
        ),
        lines(cgroups) == front.push("0::"@ + path) + back ==> {
            let dir = cgroup_dir(cgroups);
            if split(path, '/').contains(".."@) {
                dir == Err::<Seq<char>, Seq<Seq<char>>>(
                    seq!["self cgroup path contains parent traversal"@],
                )
            } else if path.len() == 0 || path[0] != '/' {
                dir == Err::<Seq<char>, Seq<Seq<char>>>(
                    seq!["self cgroup path is not absolute"@, "prefix not found"@],
                )
            } else {
                dir == Ok::<Seq<char>, Seq<Seq<char>>>(
                    "/sys/fs/cgroup"@ + seq!['/'] + stripped(path),
                )
            }
        },
{
    first_line_with_the_prefix_counts(front, "0::"@, path, back);
    stripped_is_relative(path);
    reveal_strlit("/sys/fs/cgroup");
    assert("/sys/fs/cgroup"@.push('/') + stripped(path) =~= "/sys/fs/cgroup"@ + seq!['/'] + stripped(
        path,
    ));
}

/// A scope goes into the innermost slice of the applications that the owner is
/// in, and belongs to the owner's own unit, a service or a scope.
pub proof fn scope_goes_into_the_application_slice(
    front: Seq<Seq<char>>,
    between: Seq<Seq<char>>,
    unit: Seq<char>,
)
    requires
        are_segments(front.push("app.slice"@) + between.push(unit)),
        !between.push(unit).contains("app.slice"@),
        unit.len() > 0,
        unit != seq!['.'],
        unit != seq!['.', '.'],
    ensures
        scope_site(joined(front.push("app.slice"@) + between.push(unit), seq!['/'])) == if ".service"@.is_suffix_of(
            unit,
        ) || ".scope"@.is_suffix_of(unit) {
            Ok::<(Seq<char>, Seq<char>), Seq<Seq<char>>>(
                (joined(front.push("app.slice"@), seq!['/']), unit),
            )
        } else {
            Err(seq!["current cgroup is not a systemd unit"@])
        },
{
    let all = front.push("app.slice"@) + between.push(unit);
    parent_segments_climb(all);
    way_ends_at_the_last_of_the_name(front, "app.slice"@, between.push(unit));
    let before = front.push("app.slice"@) + between;
    assert(before.push(unit) + Seq::<Seq<char>>::empty() =~= all);
    last_segment_is_the_name(before, unit, Seq::empty());
}

/// There is no place for a scope where the owner is in no slice of the
/// applications, and none where its control group has no name.
pub proof fn scope_needs_the_application_slice(parts: Seq<Seq<char>>)
    requires
        are_segments(parts),
    ensures
        !parts.contains("app.slice"@) ==> scope_site(joined(parts, seq!['/'])) == Err::<
            (Seq<char>, Seq<char>),
            Seq<Seq<char>>,
        >(seq!["current cgroup is not within app.slice"@]),
        parts.contains("app.slice"@) && parts.last() == seq!['.', '.'] ==> scope_site(
            joined(parts, seq!['/']),
        ) == Err::<(Seq<char>, Seq<char>), Seq<Seq<char>>>(
            seq!["current cgroup has no systemd unit name"@],
        ),
{
    parent_segments_climb(parts);
    if !parts.contains("app.slice"@) {
        way_ends_at_the_last_of_the_name(Seq::empty(), "app.slice"@, parts);
    } else if parts.last() == seq!['.', '.'] {
        let none = Seq::<Seq<char>>::empty();
        assert(parts.drop_last().push(parts.last()) + none =~= parts);
        last_segment_is_the_name(parts.drop_last(), parts.last(), none);
        found_segment_is_a_way(parts, "app.slice"@);
    }
}

proof fn found_segment_is_a_way(parts: Seq<Seq<char>>, name: Seq<char>)
    requires
        parts.contains(name),
    ensures
        up_to_segment(parts, name) is Some,
    decreases parts.len(),
{
    if parts.last() != name {
        let i = choose|i: int| 0 <= i < parts.len() && parts[i] == name;
        assert(parts.drop_last()[i] == name);
        found_segment_is_a_way(parts.drop_last(), name);
    }
}

/// The name of a control group is made of the process, of when it was started,
/// and of the number of the group, each written out, with dashes between them.
pub proof fn cgroup_is_named_after_its_maker(pid: u32, instance: u128, id: u64)
    ensures
        name_of_cgroup(pid, instance, id) == joined(
            seq![
                "zed"@,
                "process"@,
                decimal(pid as nat),
                hexadecimal(instance as nat),
                decimal(id as nat),
            ],
            seq!['-'],
        ),
{
    reveal_strlit("zed");
    reveal_strlit("process");
    reveal_strlit("-");
    reveal_strlit("zed-process-");
    assert("-"@ =~= seq!['-']);
    assert("zed-process-"@ =~= "zed"@ + seq!['-'] + "process"@ + seq!['-']);
    reveal_with_fuel(joined, 6);
    let all = seq![
        "zed"@,
        "process"@,
        decimal(pid as nat),
        hexadecimal(instance as nat),
        decimal(id as nat),
    ];
    let sep = seq!['-'];
    let four = all.drop_last();
    let three = four.drop_last();
    let two = three.drop_last();
    assert(two.drop_last() =~= seq!["zed"@]);
    assert(joined(two, sep) =~= "zed"@ + sep + "process"@);
    assert(joined(three, sep) =~= "zed-process-"@ + decimal(pid as nat));
    assert(joined(four, sep) =~= "zed-process-"@ + decimal(pid as nat) + sep + hexadecimal(
        instance as nat,
    ));
}

} // verus!
