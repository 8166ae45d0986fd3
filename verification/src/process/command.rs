//! Commands that keep watch over a group of processes.

use crate::text::texts;
use vstd::prelude::*;

verus! {

/// What the watchdog of a control group runs. Its arguments are the directory
/// of the group and the paths of `rmdir`, `find` and `sleep`. Once its lifeline
/// is closed it kills the group, and removes its directory.
pub const CGROUP_WATCHDOG_SCRIPT: &'static str = r#"
while IFS= read -r line; do :; done
while [ -e "$1" ]; do
    if [ -e "$1/cgroup.freeze" ]; then
        printf 0 > "$1/cgroup.freeze" 2>/dev/null || :
    fi
    if ! printf 1 > "$1/cgroup.kill"; then
        "$4" 0.05
        continue
    fi
    "$3" "$1" -depth -mindepth 1 -type d -exec "$2" '{}' ';' 2>/dev/null || :
    "$2" "$1" 2>/dev/null && break
    "$4" 0.05
done
"#;

/// What the watchdog of a session runs. Its arguments are the paths of `ps`,
/// `awk` and `sleep`. It reads the leader of the session from its lifeline, and
/// kills the session once the lifeline is closed or the leader is gone.
pub const SESSION_WATCHDOG_SCRIPT: &'static str = r#"
IFS= read -r root_pid || {
    kill -KILL 0 2>/dev/null || :
    exit
}
ps_path=$1
awk_path=$2
sleep_path=$3

cleanup_session() {
    trap - USR1
    kill "$monitor_pid" 2>/dev/null || :
    while :; do
        pids=$("$ps_path" -axo pid=,sess=,stat= | "$awk_path" -v session="$root_pid" \
            '$2 == session && $3 !~ /^Z/ { print $1 }')
        [ -n "$pids" ] || break
        kill -STOP $pids 2>/dev/null || :
        kill -KILL $pids 2>/dev/null || :
        "$sleep_path" 0.05
    done
    kill -KILL 0 2>/dev/null || :
}

watchdog_pid=$$
(
    while kill -0 "$root_pid" 2>/dev/null; do
        "$sleep_path" 0.1
    done
    kill -USR1 "$watchdog_pid" 2>/dev/null || :
) &
monitor_pid=$!
trap cleanup_session USR1

while IFS= read -r line; do :; done
cleanup_session
"#;

/// What the process runs that keeps a transient scope alive. Its argument is
/// the path of `sleep`.
pub const SCOPE_HOLDER_SCRIPT: &'static str = r#"while :; do "$1" 3600; done"#;

/// A command to be run in a process group of its own, with nobody listening to
/// what it says.
#[derive(Debug, PartialEq, Eq)]
pub struct CommandPlan {
    pub program: String,
    pub args: Vec<String>,
}

/// The model of a command.
#[verifier::ext_equal]
pub struct CommandModel {
    pub program: Seq<char>,
    pub args: Seq<Seq<char>>,
}

impl View for CommandPlan {
    type V = CommandModel;

    open spec fn view(&self) -> CommandModel {
        CommandModel { program: self.program@, args: texts(self.args@) }
    }
}

impl CommandPlan {
    /// A command without arguments.
    pub fn new(program: String) -> (r: Self)
        ensures
            r@ == (CommandModel { program: program@, args: Seq::empty() }),
    {
        let r = CommandPlan { program, args: Vec::new() };
        assert(texts(r.args@) =~= Seq::empty());
        r
    }

    /// The command with one more argument.
    pub fn arg(self, arg: &str) -> (r: Self)
        ensures
            r@ == (CommandModel { program: self@.program, args: self@.args.push(arg@) }),
    {
        let ghost before = texts(self.args@);
        let mut args = self.args;
        args.push(arg.to_owned());
        assert(texts(args@) =~= before.push(arg@));
        CommandPlan { program: self.program, args }
    }
}

/// The command that keeps watch over a control group.
pub open spec fn cgroup_watchdog(
    shell: Seq<char>,
    label: Seq<char>,
    path: Seq<char>,
    rmdir: Seq<char>,
    find: Seq<char>,
    sleep: Seq<char>,
) -> CommandModel {
    CommandModel {
        program: shell,
        args: seq!["-c"@, CGROUP_WATCHDOG_SCRIPT@, label, path, rmdir, find, sleep],
    }
}

/// The command that keeps watch over a session.
pub open spec fn session_watchdog(
    shell: Seq<char>,
    ps: Seq<char>,
    awk: Seq<char>,
    sleep: Seq<char>,
) -> CommandModel {
    CommandModel {
        program: shell,
        args: seq!["-c"@, SESSION_WATCHDOG_SCRIPT@, "zed-process-watchdog"@, ps, awk, sleep],
    }
}

/// The command that makes a transient scope for a unit, and keeps it alive.
pub open spec fn scope_holder(
    systemd_run: Seq<char>,
    unit: Seq<char>,
    parent_unit: Seq<char>,
    shell: Seq<char>,
    sleep: Seq<char>,
) -> CommandModel {
    CommandModel {
        program: systemd_run,
        args: seq![
            "--user"@,
            "--scope"@,
            "--quiet"@,
            "--collect"@,
            "--slice=app.slice"@,
            "--unit="@ + unit,
            "--property=PartOf="@ + parent_unit,
            "--"@,
            shell,
            "-c"@,
            SCOPE_HOLDER_SCRIPT@,
            "zed-systemd-scope-holder"@,
            sleep,
        ],
    }
}

/// Makes the command that keeps watch over a control group.
pub fn cgroup_watchdog_command(
    shell: &str,
    label: &str,
    path: &str,
    rmdir: &str,
    find: &str,
    sleep: &str,
) -> (r: CommandPlan)
    ensures
        r@ == cgroup_watchdog(shell@, label@, path@, rmdir@, find@, sleep@),
{
    let r = CommandPlan::new(shell.to_owned()).arg("-c").arg(CGROUP_WATCHDOG_SCRIPT).arg(label).arg(
        path,
    ).arg(rmdir).arg(find).arg(sleep);
    assert(r@ =~= cgroup_watchdog(shell@, label@, path@, rmdir@, find@, sleep@));
    r
}

/// Makes the command that keeps watch over a session.
pub fn session_watchdog_command(shell: &str, ps: &str, awk: &str, sleep: &str) -> (r: CommandPlan)
    ensures
        r@ == session_watchdog(shell@, ps@, awk@, sleep@),
{
    let r = CommandPlan::new(shell.to_owned()).arg("-c").arg(SESSION_WATCHDOG_SCRIPT).arg(
        "zed-process-watchdog",
    ).arg(ps).arg(awk).arg(sleep);
    assert(r@ =~= session_watchdog(shell@, ps@, awk@, sleep@));
    r
}

/// Makes the command that makes a transient scope, and keeps it alive.
pub fn scope_holder_command(
    systemd_run: &str,
    unit: &str,
    parent_unit: &str,
    shell: &str,
    sleep: &str,
) -> (r: CommandPlan)
    ensures
        r@ == scope_holder(systemd_run@, unit@, parent_unit@, shell@, sleep@),
{
    let mut unit_arg = "--unit=".to_owned();
    unit_arg.append(unit);
    let mut part_of_arg = "--property=PartOf=".to_owned();
    part_of_arg.append(parent_unit);
    let r = CommandPlan::new(systemd_run.to_owned()).arg("--user").arg("--scope").arg(
        "--quiet",
    ).arg("--collect").arg("--slice=app.slice").arg(unit_arg.as_str()).arg(
        part_of_arg.as_str(),
    ).arg("--").arg(shell).arg("-c").arg(SCOPE_HOLDER_SCRIPT).arg("zed-systemd-scope-holder").arg(
        sleep,
    );
    assert(r@ =~= scope_holder(systemd_run@, unit@, parent_unit@, shell@, sleep@));
    r
}

/// The watchdog of a control group is a shell that runs its script with the
/// arguments that the script takes them for: the directory of the group first,
/// then what removes directories, what finds them, and what waits.
pub proof fn cgroup_watchdog_gets_its_arguments(
    shell: Seq<char>,
    label: Seq<char>,
    path: Seq<char>,
    rmdir: Seq<char>,
    find: Seq<char>,
    sleep: Seq<char>,
)
    ensures
        ({
            let command = cgroup_watchdog(shell, label, path, rmdir, find, sleep);
            &&& command.program == shell
            &&& command.args.len() == 7
            &&& command.args[0] == "-c"@
            &&& command.args[2] == label
            &&& command.args[3] == path
            &&& command.args[4] == rmdir
            &&& command.args[5] == find
            &&& command.args[6] == sleep
            &&& command.args[1] == r#"
while IFS= read -r line; do :; done
while [ -e "$1" ]; do
    if [ -e "$1/cgroup.freeze" ]; then
        printf 0 > "$1/cgroup.freeze" 2>/dev/null || :
    fi
    if ! printf 1 > "$1/cgroup.kill"; then
        "$4" 0.05
        continue
    fi
    "$3" "$1" -depth -mindepth 1 -type d -exec "$2" '{}' ';' 2>/dev/null || :
    "$2" "$1" 2>/dev/null && break
    "$4" 0.05
done
"#@
        }),
{
}

/// The watchdog of a session is a shell that runs its script with what lists
/// processes, what reads the list, and what waits.
pub proof fn session_watchdog_gets_its_arguments(
    shell: Seq<char>,
    ps: Seq<char>,
    awk: Seq<char>,
    sleep: Seq<char>,
)
    ensures
        ({
            let command = session_watchdog(shell, ps, awk, sleep);
            &&& command.program == shell
            &&& command.args.len() == 6
            &&& command.args[0] == "-c"@
            &&& command.args[1] == SESSION_WATCHDOG_SCRIPT@
            &&& command.args[2] == "zed-process-watchdog"@
            &&& command.args[3] == ps
            &&& command.args[4] == awk
            &&& command.args[5] == sleep
        }),
{
}

/// The holder of a scope is started by the service manager, in a scope of the
/// given name that goes with the owner's unit; it is a shell that sleeps again
/// and again.
pub proof fn scope_holder_gets_its_arguments(
    systemd_run: Seq<char>,
    unit: Seq<char>,
    parent_unit: Seq<char>,
    shell: Seq<char>,
    sleep: Seq<char>,
)
    ensures
        ({
            let command = scope_holder(systemd_run, unit, parent_unit, shell, sleep);
            &&& command.program == systemd_run
            &&& command.args.len() == 13
            &&& command.args[0] == "--user"@
            &&& command.args[1] == "--scope"@
            &&& command.args[2] == "--quiet"@
            &&& command.args[3] == "--collect"@
            &&& command.args[4] == "--slice=app.slice"@
            &&& command.args[5] == "--unit="@ + unit
            &&& command.args[6] == "--property=PartOf="@ + parent_unit
            &&& command.args[7] == "--"@
            &&& command.args[8] == shell
            &&& command.args[9] == "-c"@
            &&& command.args[10] == r#"while :; do "$1" 3600; done"#@
            &&& command.args[11] == "zed-systemd-scope-holder"@
            &&& command.args[12] == sleep
        }),
{
}

} // verus!
