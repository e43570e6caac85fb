//! Stopping the application: which processes are terminated, and for how
//! long their exit is waited for.

use crate::text::{eq_ignore_ascii_case, eq_ignore_case, list_items, parse_list};
use sysinfo::{Process, ProcessRefreshKind, ProcessesToUpdate, Signal, System};
use vstd::prelude::*;

verus! {

/// The longest time, in milliseconds, that a reap waits for the
/// processes to go.
pub const MAX_WAIT_MS: u64 = 5000;

/// The time, in milliseconds, between two looks at the process table.
pub const POLL_INTERVAL_MS: u64 = 500;

/// A running process that bears one of the target names.
#[derive(Debug)]
pub struct ProcessTarget {
    pub pid: u32,
    pub name: String,
}

/// A terminate signal that was sent, or tried to be sent.
#[derive(Debug)]
pub struct KillAttempt {
    /// The process the signal was meant for.
    pub target: ProcessTarget,
    /// Whether the signal was sent; `None` where the platform has no
    /// such signal.
    pub delivered: Option<bool>,
}

/// A process name is a target when it equals one of the target names up
/// to the case of ASCII letters.
pub open spec fn is_target(name: Seq<char>, targets: Seq<Seq<char>>) -> bool {
    exists|i: int| 0 <= i < targets.len() && eq_ignore_case(name, #[trigger] targets[i])
}

/// Reads the comma-separated list of target names: each name trimmed,
/// the empty ones left out.
pub fn parse_names(names: &str) -> (targets: Vec<String>)
    ensures
        targets.deep_view() == list_items(names@),
{
    parse_list(names)
}

/// Tells whether `name` is one of the target names.
pub fn matches_target(name: &str, targets: &Vec<String>) -> (b: bool)
    ensures
        b == is_target(name@, targets.deep_view()),
{
    let mut i: usize = 0;
    while i < targets.len()
        invariant
            i <= targets@.len(),
            forall|j: int| 0 <= j < i ==> !eq_ignore_case(name@, #[trigger] targets.deep_view()[j]),
        decreases targets@.len() - i,
    {
        assert(targets.deep_view()[i as int] == targets@[i as int]@);
        if eq_ignore_ascii_case(name, targets[i].as_str()) {
            return true;
        }
        i += 1;
    }
    false
}

/// `sysinfo::System`, of which nothing is known but what
/// [`process_table`] names.
#[verifier::external_type_specification]
#[verifier::external_body]
pub struct ExSystem(System);

/// `sysinfo::Process`, a handle that is only passed on.
#[verifier::external_type_specification]
#[verifier::external_body]
pub struct ExProcess(Process);

/// What the map of `sysinfo::System::processes` holds: the name of each
/// process, under the process's identifier.
pub uninterp spec fn process_table(system: System) -> Map<u32, Seq<char>>;

/// One process of the table, with the handle to signal it through.
struct Listed<'a> {
    pid: u32,
    name: String,
    process: &'a Process,
}

/// `entries` lists the processes of `table`, each once.
spec fn lists_table(entries: Seq<(u32, Seq<char>)>, table: Map<u32, Seq<char>>) -> bool {
    &&& forall|i: int|
        0 <= i < entries.len() ==> table.dom().contains((#[trigger] entries[i]).0)
            && table[entries[i].0] == entries[i].1
    &&& forall|i: int, j: int|
        0 <= i < j < entries.len() ==> (#[trigger] entries[i]).0 != (#[trigger] entries[j]).0
    &&& forall|pid: u32| #[trigger]
        table.dom().contains(pid) ==> exists|i: int|
            0 <= i < entries.len() && (#[trigger] entries[i]).0 == pid
}

/// `entries` lists the processes of `table` that bear a target name, each
/// once, and no other.
pub open spec fn lists_targets(
    entries: Seq<(u32, Seq<char>)>,
    table: Map<u32, Seq<char>>,
    targets: Seq<Seq<char>>,
) -> bool {
    &&& forall|i: int|
        0 <= i < entries.len() ==> {
            &&& table.dom().contains((#[trigger] entries[i]).0)
            &&& table[entries[i].0] == entries[i].1
            &&& is_target(entries[i].1, targets)
        }
    &&& forall|i: int, j: int|
        0 <= i < j < entries.len() ==> (#[trigger] entries[i]).0 != (#[trigger] entries[j]).0
    &&& forall|pid: u32| #[trigger]
        table.dom().contains(pid) && is_target(table[pid], targets) ==> exists|i: int|
            0 <= i < entries.len() && (#[trigger] entries[i]).0 == pid
}

spec fn listed_entries(listed: Seq<Listed>) -> Seq<(u32, Seq<char>)> {
    listed.map_values(|l: Listed| (l.pid, l.name@))
}

/// The processes as identifier and name.
pub open spec fn target_entries(targets: Seq<ProcessTarget>) -> Seq<(u32, Seq<char>)> {
    targets.map_values(|t: ProcessTarget| (t.pid, t.name@))
}

/// The processes that the attempts were made on, as identifier and name.
pub open spec fn attempted_entries(attempts: Seq<KillAttempt>) -> Seq<(u32, Seq<char>)> {
    attempts.map_values(|a: KillAttempt| (a.target.pid, a.target.name@))
}

/// `sysinfo::System::new_all`: a view of the system with everything
/// loaded. What it holds depends on the machine; nothing is claimed.
#[verifier::external_body]
fn system_new_all() -> System {
    System::new_all()
}

/// `sysinfo::System::refresh_processes_specifics`, for all processes and
/// all that is known of each, processes that are gone dropped. What the
/// table holds afterwards depends on the machine; nothing is claimed.
#[verifier::external_body]
fn system_refresh_processes(system: &mut System) {
    system.refresh_processes_specifics(ProcessesToUpdate::All, true, ProcessRefreshKind::everything());
}

/// `sysinfo::System::processes`: the entries of the table's map, in the
/// order in which the map hands them out. Of each, the identifier is the
/// map's key as a `u32`, and the name is `sysinfo::Process::name` with
/// what is not Unicode replaced as `to_string_lossy` does.
///
/// The contract claims that the result lists [`process_table`]: every
/// entry is of the table, every process of the table has its entry, and
/// no identifier occurs twice, the keys of a map being distinct and
/// process identifiers fitting a `u32`.
#[verifier::external_body]
fn system_processes<'a>(system: &'a System) -> (listed: Vec<Listed<'a>>)
    ensures
        lists_table(listed_entries(listed@), process_table(*system)),
{
    system.processes().iter().map(
        |(pid, process)|
            Listed {
                pid: pid.as_u32(),
                name: process.name().to_string_lossy().into_owned(),
                process,
            },
    ).collect()
}

/// `sysinfo::Process::kill_with` with `Signal::Kill`: `None` where the
/// platform has no such signal, else whether the signal was sent. Nothing
/// is claimed of which it is.
#[verifier::external_body]
fn process_kill(process: &Process) -> Option<bool> {
    process.kill_with(Signal::Kill)
}

/// The process table of the machine, as it was when last refreshed.
pub struct ProcessTable {
    system: System,
}

impl View for ProcessTable {
    type V = Map<u32, Seq<char>>;

    /// The name of each process, under the process's identifier.
    closed spec fn view(&self) -> Map<u32, Seq<char>> {
        process_table(self.system)
    }
}

impl ProcessTable {
    /// Takes a first look at the machine's processes.
    pub fn new() -> ProcessTable {
        let mut system = system_new_all();
        system_refresh_processes(&mut system);
        ProcessTable { system }
    }

    /// Looks at the machine's processes again.
    pub fn refresh(&mut self) {
        system_refresh_processes(&mut self.system);
    }

    /// Sends the forceful terminate signal to every process of the table
    /// that bears a target name, and to no other.
    pub fn kill_matching(&self, targets: &Vec<String>) -> (attempts: Vec<KillAttempt>)
        ensures
            lists_targets(attempted_entries(attempts@), self@, targets.deep_view()),
    {
        let listed = system_processes(&self.system);
        let picks = pick_targets(&listed, targets);
        let ghost all = listed_entries(listed@);
        let mut attempts: Vec<KillAttempt> = Vec::new();
        let mut j: usize = 0;
        while j < picks.len()
            invariant
                j <= picks@.len(),
                attempts@.len() == j,
                all == listed_entries(listed@),
                picks_targets(picks@, all, targets.deep_view()),
                forall|k: int|
                    0 <= k < j ==> ((#[trigger] attempts@[k]).target.pid, attempts@[k].target.name@)
                        == all[picks@[k] as int],
            decreases picks@.len() - j,
        {
            let entry = &listed[picks[j]];
            assert(all[picks@[j as int] as int] == (entry.pid, entry.name@));
            let delivered = process_kill(entry.process);
            let target = ProcessTarget { pid: entry.pid, name: entry.name.clone() };
            attempts.push(KillAttempt { target, delivered });
            j += 1;
        }
        proof {
            lemma_picked_lists_targets(
                all,
                self@,
                targets.deep_view(),
                picks@,
                attempted_entries(attempts@),
            );
        }
        attempts
    }

    /// The processes of the table that bear a target name.
    pub fn survivors(&self, targets: &Vec<String>) -> (alive: Vec<ProcessTarget>)
        ensures
            lists_targets(target_entries(alive@), self@, targets.deep_view()),
    {
        let listed = system_processes(&self.system);
        let picks = pick_targets(&listed, targets);
        let ghost all = listed_entries(listed@);
        let mut alive: Vec<ProcessTarget> = Vec::new();
        let mut j: usize = 0;
        while j < picks.len()
            invariant
                j <= picks@.len(),
                alive@.len() == j,
                all == listed_entries(listed@),
                picks_targets(picks@, all, targets.deep_view()),
                forall|k: int|
                    0 <= k < j ==> ((#[trigger] alive@[k]).pid, alive@[k].name@) == all[picks@[k] as int],
            decreases picks@.len() - j,
        {
            let entry = &listed[picks[j]];
            assert(all[picks@[j as int] as int] == (entry.pid, entry.name@));
            alive.push(ProcessTarget { pid: entry.pid, name: entry.name.clone() });
            j += 1;
        }
        proof {
            lemma_picked_lists_targets(
                all,
                self@,
                targets.deep_view(),
                picks@,
                target_entries(alive@),
            );
        }
        alive
    }
}

/// `picks` holds, in rising order, the positions of the entries of `all`
/// that bear a target name.
spec fn picks_targets(
    picks: Seq<usize>,
    all: Seq<(u32, Seq<char>)>,
    targets: Seq<Seq<char>>,
) -> bool {
    &&& forall|j: int|
        0 <= j < picks.len() ==> (#[trigger] picks[j]) < all.len() && is_target(
            all[picks[j] as int].1,
            targets,
        )
    &&& forall|i: int, j: int| 0 <= i < j < picks.len() ==> #[trigger] picks[i] < #[trigger] picks[j]
    &&& forall|m: int|
        0 <= m < all.len() && is_target((#[trigger] all[m]).1, targets) ==> exists|j: int|
            0 <= j < picks.len() && #[trigger] picks[j] == m
}

fn pick_targets(listed: &Vec<Listed<'_>>, targets: &Vec<String>) -> (picks: Vec<usize>)
    ensures
        picks_targets(picks@, listed_entries(listed@), targets.deep_view()),
{
    let ghost all = listed_entries(listed@);
    let mut picks: Vec<usize> = Vec::new();
    let mut m: usize = 0;
    while m < listed.len()
        invariant
            m <= listed@.len(),
            all == listed_entries(listed@),
            forall|j: int|
                0 <= j < picks@.len() ==> (#[trigger] picks@[j]) < m && is_target(
                    all[picks@[j] as int].1,
                    targets.deep_view(),
                ),
            forall|i: int, j: int|
                0 <= i < j < picks@.len() ==> #[trigger] picks@[i] < #[trigger] picks@[j],
            forall|x: int|
                0 <= x < m && is_target((#[trigger] all[x]).1, targets.deep_view()) ==> exists|
                    j: int,
                | 0 <= j < picks@.len() && #[trigger] picks@[j] == x,
        decreases listed@.len() - m,
    {
        let ghost before = picks@;
        assert(all[m as int].1 == listed@[m as int].name@);
        if matches_target(listed[m].name.as_str(), targets) {
            picks.push(m);
            assert forall|x: int|
                0 <= x < m + 1 && is_target((#[trigger] all[x]).1, targets.deep_view()) implies exists|
                j: int,
            | 0 <= j < picks@.len() && #[trigger] picks@[j] == x by {
                if x < m {
                    let j = choose|j: int| 0 <= j < before.len() && #[trigger] before[j] == x;
                    assert(picks@[j] == x);
                } else {
                    assert(picks@[before.len() as int] == x);
                }
            }
        }
        m += 1;
    }
    picks
}

proof fn lemma_picked_lists_targets(
    all: Seq<(u32, Seq<char>)>,
    table: Map<u32, Seq<char>>,
    targets: Seq<Seq<char>>,
    picks: Seq<usize>,
    out: Seq<(u32, Seq<char>)>,
)
    requires
        lists_table(all, table),
        picks_targets(picks, all, targets),
        out.len() == picks.len(),
        forall|j: int| 0 <= j < out.len() ==> #[trigger] out[j] == all[picks[j] as int],
    ensures
        lists_targets(out, table, targets),
{
    assert forall|i: int, j: int| 0 <= i < j < out.len() implies (#[trigger] out[i]).0 != (
    #[trigger] out[j]).0 by {
        assert(picks[i] < picks[j]);
        assert(all[picks[i] as int].0 != all[picks[j] as int].0);
    }
    assert forall|pid: u32| #[trigger]
        table.dom().contains(pid) && is_target(table[pid], targets) implies exists|i: int|
        0 <= i < out.len() && (#[trigger] out[i]).0 == pid by {
        let m = choose|m: int| 0 <= m < all.len() && (#[trigger] all[m]).0 == pid;
        assert(all[m].1 == table[pid]);
        let j = choose|j: int| 0 <= j < picks.len() && #[trigger] picks[j] == m;
        assert(out[j].0 == pid);
    }
}

/// For how long a reap waits.
#[derive(Clone, Copy, Debug, PartialEq, Eq, Structural)]
pub struct ReapPolicy {
    /// The waiting ends once at least this many milliseconds have been
    /// waited.
    pub max_wait_ms: u64,
    /// The time, in milliseconds, that is waited before each look at the
    /// process table.
    pub poll_interval_ms: u64,
}

/// How a reap ended.
#[derive(Clone, Copy, Debug, PartialEq, Eq, Structural)]
pub enum ReapOutcome {
    /// No target name was given: nothing was terminated or waited for.
    NoTargets,
    /// A look at the process table found no process with a target name.
    AllExited,
    /// Processes with a target name were still there when the time was
    /// up. The update goes on all the same.
    TimedOut,
}

/// What the caller does next.
#[derive(Clone, Copy, Debug, PartialEq, Eq, Structural)]
pub enum ReapStep {
    /// Send the forceful terminate signal to every process that bears a
    /// target name.
    Signal,
    /// Wait for `wait_ms` milliseconds, look at the process table again
    /// and count the processes that bear a target name.
    Poll { wait_ms: u64 },
    /// The reap is over.
    Finished(ReapOutcome),
}

/// The time that a reap has waited so far.
pub struct Reaper {
    policy: ReapPolicy,
    elapsed_ms: u64,
}

impl ReapPolicy {
    /// The usual policy: up to [`MAX_WAIT_MS`], with a look every
    /// [`POLL_INTERVAL_MS`].
    pub fn standard() -> (policy: ReapPolicy)
        ensures
            policy == (ReapPolicy { max_wait_ms: MAX_WAIT_MS, poll_interval_ms: POLL_INTERVAL_MS }),
    {
        ReapPolicy { max_wait_ms: MAX_WAIT_MS, poll_interval_ms: POLL_INTERVAL_MS }
    }
}

/// The time waited after one more wait of `interval_ms`: the sum, or the
/// largest number where the sum is beyond it.
pub open spec fn waited(elapsed_ms: u64, interval_ms: u64) -> u64 {
    if elapsed_ms + interval_ms > u64::MAX {
        u64::MAX
    } else {
        (elapsed_ms + interval_ms) as u64
    }
}

/// What follows a look at the process table that was made after one
/// more wait and found `survivors` processes with a target name.
pub open spec fn after_poll(policy: ReapPolicy, elapsed_ms: u64, survivors: nat) -> ReapStep {
    if survivors == 0 {
        ReapStep::Finished(ReapOutcome::AllExited)
    } else if waited(elapsed_ms, policy.poll_interval_ms) >= policy.max_wait_ms {
        ReapStep::Finished(ReapOutcome::TimedOut)
    } else {
        ReapStep::Poll { wait_ms: policy.poll_interval_ms }
    }
}

/// The first step of a reap: with no target names there is nothing to
/// do.
pub fn begin_reap(targets: &Vec<String>) -> (step: ReapStep)
    ensures
        targets@.len() == 0 ==> step == ReapStep::Finished(ReapOutcome::NoTargets),
        targets@.len() > 0 ==> step == ReapStep::Signal,
{
    if targets.len() == 0 {
        ReapStep::Finished(ReapOutcome::NoTargets)
    } else {
        ReapStep::Signal
    }
}

impl Reaper {
    /// The policy that the reap follows.
    pub closed spec fn policy(&self) -> ReapPolicy {
        self.policy
    }

    /// The time, in milliseconds, that has been waited so far.
    pub closed spec fn elapsed_ms(&self) -> u64 {
        self.elapsed_ms
    }

    /// A reap that has not waited yet.
    pub fn new(policy: ReapPolicy) -> (reaper: Reaper)
        ensures
            reaper.policy() == policy,
            reaper.elapsed_ms() == 0,
    {
        Reaper { policy, elapsed_ms: 0 }
    }

    /// The step after the signals have been sent: the first wait.
    pub fn signalled(&self) -> (step: ReapStep)
        ensures
            step == (ReapStep::Poll { wait_ms: self.policy().poll_interval_ms }),
    {
        ReapStep::Poll { wait_ms: self.policy.poll_interval_ms }
    }

    /// Takes note of a wait and of the look at the process table that
    /// followed it, which found `survivors` processes with a target name.
    ///
    /// The reap ends at once when no such process is left, however short
    /// the wait has been. It goes on only while the time waited is below
    /// the policy's limit.
    pub fn observe(&mut self, survivors: usize) -> (step: ReapStep)
        ensures
            final(self).policy() == old(self).policy(),
            final(self).elapsed_ms() == waited(
                old(self).elapsed_ms(),
                old(self).policy().poll_interval_ms,
            ),
            step == after_poll(old(self).policy(), old(self).elapsed_ms(), survivors as nat),
            survivors == 0 ==> step == ReapStep::Finished(ReapOutcome::AllExited),
            step is Poll ==> {
                &&& final(self).elapsed_ms() == old(self).elapsed_ms()
                    + old(self).policy().poll_interval_ms
                &&& final(self).elapsed_ms() < old(self).policy().max_wait_ms
            },
    {
        self.elapsed_ms = self.elapsed_ms.saturating_add(self.policy.poll_interval_ms);
        if survivors == 0 {
            ReapStep::Finished(ReapOutcome::AllExited)
        } else if self.elapsed_ms >= self.policy.max_wait_ms {
            ReapStep::Finished(ReapOutcome::TimedOut)
        } else {
            ReapStep::Poll { wait_ms: self.policy.poll_interval_ms }
        }
    }

    /// Takes note of a wait and looks at `table`, which the caller has
    /// refreshed after the wait: returns the processes that still bear a
    /// target name, and the step that follows.
    ///
    /// Where the table holds no process with a target name, the reap is
    /// over, whatever time has been waited.
    pub fn poll(&mut self, table: &ProcessTable, targets: &Vec<String>) -> (found: (
        Vec<ProcessTarget>,
        ReapStep,
    ))
        ensures
            final(self).policy() == old(self).policy(),
            final(self).elapsed_ms() == waited(
                old(self).elapsed_ms(),
                old(self).policy().poll_interval_ms,
            ),
            lists_targets(target_entries(found.0@), table@, targets.deep_view()),
            found.1 == after_poll(old(self).policy(), old(self).elapsed_ms(), found.0@.len()),
            (forall|pid: u32| #[trigger]
                table@.dom().contains(pid) ==> !is_target(table@[pid], targets.deep_view()))
                ==> found.1 == ReapStep::Finished(ReapOutcome::AllExited),
    {
        let alive = table.survivors(targets);
        proof {
            if alive@.len() > 0 {
                assert(table@.dom().contains(target_entries(alive@)[0].0));
            }
        }
        let step = self.observe(alive.len());
        (alive, step)
    }
}

} // verus!
