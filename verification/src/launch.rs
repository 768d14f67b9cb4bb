//! How the external commands (the rotation scripts, `convert`) are started:
//! up to four run in the background, then one is run to its end before
//! going on, and the last one is always run to its end.

use vstd::prelude::*;

verus! {

/// How one command is started.
#[derive(Clone, Copy, Debug, PartialEq, Eq, Structural)]
pub enum LaunchMode {
    /// Started in the background (`Command::spawn`).
    Spawn,
    /// Run, and waited for (`Command::output`).
    Wait,
}

/// The most commands started in the background one after another.
pub const MAX_BACKGROUND: u32 = 4;

/// How the next command is started, and how many background commands are
/// then counted: a command is put in the background while more follow and
/// fewer than four are counted; otherwise it is waited for and the count
/// starts again.
pub open spec fn spec_next_launch(running: nat, more_after: bool) -> (LaunchMode, nat) {
    if more_after && running < 4 {
        (LaunchMode::Spawn, running + 1)
    } else {
        (LaunchMode::Wait, 0)
    }
}

/// Chooses how the next command is started.
pub fn next_launch(running: u32, more_after: bool) -> (r: (LaunchMode, u32))
    requires
        running <= MAX_BACKGROUND,
    ensures
        (r.0, r.1 as nat) == spec_next_launch(running as nat, more_after),
        r.1 <= MAX_BACKGROUND,
{
    if more_after && running < 4 {
        (LaunchMode::Spawn, running + 1)
    } else {
        (LaunchMode::Wait, 0)
    }
}

/// The modes of a run of commands, each flag telling whether more follow,
/// starting from a count of `running`.
pub open spec fn schedule(flags: Seq<bool>, running: nat) -> Seq<LaunchMode>
    decreases flags.len(),
{
    if flags.len() == 0 {
        Seq::empty()
    } else {
        let (mode, next) = spec_next_launch(running, flags[0]);
        seq![mode] + schedule(flags.drop_first(), next)
    }
}

/// One of the five modes from position `i` on is a wait.
pub open spec fn waits_within_five(s: Seq<LaunchMode>, i: int) -> bool {
    exists|k: int| i <= k <= i + 4 && #[trigger] s[k] == LaunchMode::Wait
}

/// Of any five commands in a row, at least one is waited for; and a command
/// after which none follows is always waited for. So never more than four
/// commands run in the background at once, and the last command has ended
/// before the work is reported done.
pub proof fn lemma_schedule_bounded(flags: Seq<bool>, running: nat)
    requires
        running <= 4,
    ensures
        schedule(flags, running).len() == flags.len(),
        forall|i: int|
            0 <= i < flags.len() && !flags[i] ==> #[trigger] schedule(flags, running)[i]
                == LaunchMode::Wait,
        4 - running < flags.len() ==> exists|k: int|
            0 <= k <= 4 - running && #[trigger] schedule(flags, running)[k] == LaunchMode::Wait,
        forall|i: int|
            0 <= i && i + 4 < flags.len() ==> #[trigger] waits_within_five(
                schedule(flags, running),
                i,
            ),
    decreases flags.len(),
{
    if flags.len() > 0 {
        let (mode, next) = spec_next_launch(running, flags[0]);
        let rest = flags.drop_first();
        lemma_schedule_bounded(rest, next);
        let s = schedule(flags, running);
        let t = schedule(rest, next);
        assert(s =~= seq![mode] + t);
        assert forall|i: int| 0 <= i < flags.len() && !flags[i] implies #[trigger] s[i]
            == LaunchMode::Wait by {
            if i > 0 {
                assert(rest[i - 1] == flags[i]);
                assert(s[i] == t[i - 1]);
            }
        }
        if 4 - running < flags.len() {
            if mode == LaunchMode::Wait {
                assert(s[0] == LaunchMode::Wait);
            } else {
                // the count grew by one: the rest reaches a wait one step sooner
                let k = choose|k: int| 0 <= k <= 4 - next && #[trigger] t[k] == LaunchMode::Wait;
                assert(s[k + 1] == t[k]);
            }
        }
        assert forall|i: int| 0 <= i && i + 4 < flags.len() implies #[trigger] waits_within_five(
            s,
            i,
        ) by {
            if i == 0 {
                if mode == LaunchMode::Wait {
                    assert(s[0] == LaunchMode::Wait);
                } else {
                    let k = choose|k: int| 0 <= k <= 4 - next && #[trigger] t[k] == LaunchMode::Wait;
                    assert(s[k + 1] == t[k]);
                }
            } else {
                assert(waits_within_five(t, i - 1));
                let k = choose|k: int| i - 1 <= k <= i - 1 + 4 && #[trigger] t[k] == LaunchMode::Wait;
                assert(s[k + 1] == t[k]);
            }
        }
    } else {
        assert(schedule(flags, running) =~= Seq::<LaunchMode>::empty());
    }
}

} // verus!

verus! {

/// An external command to run: a program, its arguments, and how it is started.
pub struct Job {
    pub program: String,
    pub args: Vec<String>,
    pub mode: LaunchMode,
}

/// A command as plain values: program, arguments, mode.
pub open spec fn job_view(j: Job) -> (Seq<char>, Seq<Seq<char>>, LaunchMode) {
    (j.program@, crate::sorting::texts(j.args@), j.mode)
}

/// The path of the file `name` in the directory `dir`, as the window writes
/// it: `dir/name`.
pub open spec fn path_in(dir: Seq<char>, name: Seq<char>) -> Seq<char> {
    dir + "/"@ + name
}

/// Writes the path of the file `name` in the directory `dir`.
pub fn path_text(dir: &str, name: &str) -> (r: String)
    ensures
        r@ == path_in(dir@, name@),
{
    let mut s = String::from_str(dir);
    s.append("/");
    s.append(name);
    s
}

/// The flags of a run of `n` commands: more follow every command but the last.
pub open spec fn run_flags(n: nat) -> Seq<bool> {
    Seq::new(n, |k: int| k + 1 < n)
}

/// Unfolds one step of a schedule.
pub proof fn lemma_schedule_step(flags: Seq<bool>, k: int, running: nat)
    requires
        0 <= k < flags.len(),
    ensures
        schedule(flags.skip(k), running) == seq![spec_next_launch(running, flags[k]).0]
            + schedule(flags.skip(k + 1), spec_next_launch(running, flags[k]).1),
{
    assert(flags.skip(k).drop_first() =~= flags.skip(k + 1));
    assert(flags.skip(k)[0] == flags[k]);
}

} // verus!
