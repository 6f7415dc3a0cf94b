//! The on-disk cache of indexes: one directory per archive, named by the
//! archive's checksum, built in a staging directory and moved into place in
//! one step.
//!
//! The library decides, the caller touches the disk: after each step the
//! caller reports what happened, and `next_step` says what to do next. A
//! crash before the move leaves only a staging directory behind, never a
//! half-written index under the final name.

use vstd::prelude::*;

verus! {

/// The character of a hexadecimal digit, upper case.
pub open spec fn hex_digit(d: int) -> char
    recommends
        0 <= d < 16,
{
    if d == 0 {
        '0'
    } else if d == 1 {
        '1'
    } else if d == 2 {
        '2'
    } else if d == 3 {
        '3'
    } else if d == 4 {
        '4'
    } else if d == 5 {
        '5'
    } else if d == 6 {
        '6'
    } else if d == 7 {
        '7'
    } else if d == 8 {
        '8'
    } else if d == 9 {
        '9'
    } else if d == 10 {
        'A'
    } else if d == 11 {
        'B'
    } else if d == 12 {
        'C'
    } else if d == 13 {
        'D'
    } else if d == 14 {
        'E'
    } else {
        'F'
    }
}

/// Bytes in upper-case hexadecimal, two digits each.
pub open spec fn hex_upper(bytes: Seq<u8>) -> Seq<char> {
    Seq::new(
        2 * bytes.len(),
        |i: int|
            if i % 2 == 0 {
                hex_digit(bytes[i / 2] as int / 16)
            } else {
                hex_digit(bytes[i / 2] as int % 16)
            },
    )
}

/// The ending of the name of a finished index.
pub open spec fn index_suffix() -> Seq<char> {
    seq!['.', 'i', 'd', 'x']
}

/// The ending of the name of an index under construction.
pub open spec fn staging_suffix() -> Seq<char> {
    seq!['.', 'i', 'd', 'x', '.', 't', 'm', 'p']
}

/// The name of the directory that holds the index of the archive with this checksum.
pub open spec fn index_name(checksum: Seq<u8>) -> Seq<char> {
    hex_upper(checksum) + index_suffix()
}

/// The name of the directory in which that index is built.
pub open spec fn staging_name(checksum: Seq<u8>) -> Seq<char> {
    hex_upper(checksum) + staging_suffix()
}

fn hex_digit_str(d: u8) -> (s: &'static str)
    requires
        d < 16,
    ensures
        s@ == seq![hex_digit(d as int)],
{
    proof {
        reveal_strlit("0");
        reveal_strlit("1");
        reveal_strlit("2");
        reveal_strlit("3");
        reveal_strlit("4");
        reveal_strlit("5");
        reveal_strlit("6");
        reveal_strlit("7");
        reveal_strlit("8");
        reveal_strlit("9");
        reveal_strlit("A");
        reveal_strlit("B");
        reveal_strlit("C");
        reveal_strlit("D");
        reveal_strlit("E");
        reveal_strlit("F");
    }
    let s = if d == 0 {
        "0"
    } else if d == 1 {
        "1"
    } else if d == 2 {
        "2"
    } else if d == 3 {
        "3"
    } else if d == 4 {
        "4"
    } else if d == 5 {
        "5"
    } else if d == 6 {
        "6"
    } else if d == 7 {
        "7"
    } else if d == 8 {
        "8"
    } else if d == 9 {
        "9"
    } else if d == 10 {
        "A"
    } else if d == 11 {
        "B"
    } else if d == 12 {
        "C"
    } else if d == 13 {
        "D"
    } else if d == 14 {
        "E"
    } else {
        "F"
    };
    assert(s@ =~= seq![hex_digit(d as int)]);
    s
}

/// Writes bytes in upper-case hexadecimal.
pub fn checksum_hex(checksum: &[u8]) -> (hex: String)
    ensures
        hex@ == hex_upper(checksum@),
{
    let mut hex = String::new();
    let mut i: usize = 0;
    while i < checksum.len()
        invariant
            i <= checksum.len(),
            hex@ == hex_upper(checksum@.take(i as int)),
        decreases checksum.len() - i,
    {
        let byte = checksum[i];
        let ghost before = hex@;
        hex.append(hex_digit_str(byte / 16));
        hex.append(hex_digit_str(byte % 16));
        i += 1;
        assert(hex@ =~= hex_upper(checksum@.take(i as int))) by {
            let now = hex_upper(checksum@.take(i as int));
            assert(hex@.len() == now.len());
            assert forall|k: int| 0 <= k < now.len() implies hex@[k] == now[k] by {
                if k < before.len() {
                    assert(checksum@.take(i as int)[k / 2] == checksum@.take(i - 1)[k / 2]);
                    assert(before[k] == hex_upper(checksum@.take(i - 1))[k]);
                } else {
                    assert(checksum@.take(i as int)[k / 2] == byte);
                }
            }
        }
    }
    assert(checksum@.take(i as int) =~= checksum@);
    hex
}

/// The name of the directory that holds the index of the archive with this checksum.
pub fn index_dir_name(checksum: &[u8]) -> (name: String)
    ensures
        name@ == index_name(checksum@),
{
    proof {
        reveal_strlit(".idx");
    }
    let mut name = checksum_hex(checksum);
    name.append(".idx");
    assert(name@ =~= index_name(checksum@));
    name
}

/// The name of the directory in which that index is built.
pub fn staging_dir_name(checksum: &[u8]) -> (name: String)
    ensures
        name@ == staging_name(checksum@),
{
    proof {
        reveal_strlit(".idx.tmp");
    }
    let mut name = checksum_hex(checksum);
    name.append(".idx.tmp");
    assert(name@ =~= staging_name(checksum@));
    name
}

/// Content addressing: archives with different checksums never share a
/// directory, neither for the finished index nor for the staging of one.
pub proof fn law_names_tell_checksums_apart(a: Seq<u8>, b: Seq<u8>)
    requires
        a != b,
    ensures
        index_name(a) != index_name(b),
        staging_name(a) != staging_name(b),
{
    let ha = hex_upper(a);
    let hb = hex_upper(b);
    assert(index_name(a).len() == 2 * a.len() + 4);
    assert(index_name(b).len() == 2 * b.len() + 4);
    assert(staging_name(a).len() == 2 * a.len() + 8);
    assert(staging_name(b).len() == 2 * b.len() + 8);
    if a.len() == b.len() {
        assert(!(a =~= b));
        let i = choose|i: int| 0 <= i < a.len() && a[i] != b[i];
        let x = a[i] as int;
        let y = b[i] as int;
        assert(x / 16 != y / 16 || x % 16 != y % 16);
        assert(ha[2 * i] == hex_digit(x / 16));
        assert(ha[2 * i + 1] == hex_digit(x % 16));
        assert(hb[2 * i] == hex_digit(y / 16));
        assert(hb[2 * i + 1] == hex_digit(y % 16));
        assert(index_name(a)[2 * i] == ha[2 * i]);
        assert(index_name(a)[2 * i + 1] == ha[2 * i + 1]);
        assert(index_name(b)[2 * i] == hb[2 * i]);
        assert(index_name(b)[2 * i + 1] == hb[2 * i + 1]);
        assert(staging_name(a)[2 * i] == ha[2 * i]);
        assert(staging_name(a)[2 * i + 1] == ha[2 * i + 1]);
        assert(staging_name(b)[2 * i] == hb[2 * i]);
        assert(staging_name(b)[2 * i + 1] == hb[2 * i + 1]);
    }
}

/// No staging directory is taken for a finished index, whatever the
/// checksums: the one name ends in `x`, the other in `p`.
pub proof fn law_staging_is_told_from_finished(a: Seq<u8>, b: Seq<u8>)
    ensures
        index_name(a) != staging_name(b),
{
    if index_name(a).len() == staging_name(b).len() {
        let n = index_name(a).len() as int;
        assert(index_name(a)[n - 1] == 'x');
        assert(staging_name(b)[n - 1] == 'p');
    }
}

/// One thing to do on disk. The caller does it and reports what happened.
#[derive(Debug, Clone, Copy, PartialEq, Eq, Structural)]
pub enum IndexAction {
    /// See whether the directory of all indexes exists.
    ProbeRoot,
    /// Create the directory of all indexes.
    CreateRoot,
    /// See whether the finished index exists.
    ProbeFinal,
    /// See whether a staging directory was left behind.
    ProbeStaging,
    /// Remove the staging directory, which succeeds only if it is empty.
    RemoveStaging,
    /// Create the staging directory.
    CreateStaging,
    /// Create the index in the staging directory, add a document for every
    /// entry that is to be indexed, and commit once.
    Build,
    /// Rename the staging directory to the final name.
    Promote,
    /// Open the finished index.
    Open,
}

/// What the caller reports of an action.
#[derive(Debug, Clone, Copy, PartialEq, Eq, Structural)]
pub enum IndexEvent {
    /// The probed directory exists.
    Found,
    /// The probed directory does not exist.
    Missing,
    /// The action was carried out.
    Done,
    /// The action failed.
    Failed,
}

/// Why no index could be had.
#[derive(Debug, Clone, Copy, PartialEq, Eq, Structural)]
pub enum IndexError {
    /// The file system refused an action.
    Io,
    /// The index could not be written.
    Build,
    /// The report does not answer the action.
    Unexpected,
}

/// How to go on.
#[derive(Debug, Clone, Copy, PartialEq, Eq, Structural)]
pub enum IndexStep {
    Do(IndexAction),
    /// The opened index is the result.
    Finished,
    Abort(IndexError),
}

/// The error that the failure of an action stands for.
pub open spec fn failure_of(action: IndexAction) -> IndexError {
    match action {
        IndexAction::Build => IndexError::Build,
        _ => IndexError::Io,
    }
}

/// The step that follows the report `event` on `action`.
///
/// A finished index is opened and nothing else is done. Otherwise a staging
/// directory that was left behind is removed, a new one is created and
/// filled, and only then moved to the final name.
pub open spec fn step_after(action: IndexAction, event: IndexEvent) -> IndexStep {
    match (action, event) {
        (_, IndexEvent::Failed) => IndexStep::Abort(failure_of(action)),
        (IndexAction::ProbeRoot, IndexEvent::Found) => IndexStep::Do(IndexAction::ProbeFinal),
        (IndexAction::ProbeRoot, IndexEvent::Missing) => IndexStep::Do(IndexAction::CreateRoot),
        (IndexAction::CreateRoot, IndexEvent::Done) => IndexStep::Do(IndexAction::ProbeFinal),
        (IndexAction::ProbeFinal, IndexEvent::Found) => IndexStep::Do(IndexAction::Open),
        (IndexAction::ProbeFinal, IndexEvent::Missing) => IndexStep::Do(IndexAction::ProbeStaging),
        (IndexAction::ProbeStaging, IndexEvent::Found) => IndexStep::Do(
            IndexAction::RemoveStaging,
        ),
        (IndexAction::ProbeStaging, IndexEvent::Missing) => IndexStep::Do(
            IndexAction::CreateStaging,
        ),
        (IndexAction::RemoveStaging, IndexEvent::Done) => IndexStep::Do(
            IndexAction::CreateStaging,
        ),
        (IndexAction::CreateStaging, IndexEvent::Done) => IndexStep::Do(IndexAction::Build),
        (IndexAction::Build, IndexEvent::Done) => IndexStep::Do(IndexAction::Promote),
        (IndexAction::Promote, IndexEvent::Done) => IndexStep::Do(IndexAction::Open),
        (IndexAction::Open, IndexEvent::Done) => IndexStep::Finished,
        _ => IndexStep::Abort(IndexError::Unexpected),
    }
}

/// The action with which to begin.
pub fn first_step() -> (action: IndexAction)
    ensures
        action == IndexAction::ProbeRoot,
{
    IndexAction::ProbeRoot
}

/// Decides how to go on after the caller reported `event` on `action`.
pub fn next_step(action: IndexAction, event: IndexEvent) -> (step: IndexStep)
    ensures
        step == step_after(action, event),
{
    match (action, event) {
        (IndexAction::Build, IndexEvent::Failed) => IndexStep::Abort(IndexError::Build),
        (_, IndexEvent::Failed) => IndexStep::Abort(IndexError::Io),
        (IndexAction::ProbeRoot, IndexEvent::Found) => IndexStep::Do(IndexAction::ProbeFinal),
        (IndexAction::ProbeRoot, IndexEvent::Missing) => IndexStep::Do(IndexAction::CreateRoot),
        (IndexAction::CreateRoot, IndexEvent::Done) => IndexStep::Do(IndexAction::ProbeFinal),
        (IndexAction::ProbeFinal, IndexEvent::Found) => IndexStep::Do(IndexAction::Open),
        (IndexAction::ProbeFinal, IndexEvent::Missing) => IndexStep::Do(IndexAction::ProbeStaging),
        (IndexAction::ProbeStaging, IndexEvent::Found) => IndexStep::Do(
            IndexAction::RemoveStaging,
        ),
        (IndexAction::ProbeStaging, IndexEvent::Missing) => IndexStep::Do(
            IndexAction::CreateStaging,
        ),
        (IndexAction::RemoveStaging, IndexEvent::Done) => IndexStep::Do(
            IndexAction::CreateStaging,
        ),
        (IndexAction::CreateStaging, IndexEvent::Done) => IndexStep::Do(IndexAction::Build),
        (IndexAction::Build, IndexEvent::Done) => IndexStep::Do(IndexAction::Promote),
        (IndexAction::Promote, IndexEvent::Done) => IndexStep::Do(IndexAction::Open),
        (IndexAction::Open, IndexEvent::Done) => IndexStep::Finished,
        _ => IndexStep::Abort(IndexError::Unexpected),
    }
}

/// What may stand under the staging name.
#[derive(PartialEq, Eq, Structural)]
pub enum Staging {
    Absent,
    Empty,
    Filled,
}

/// The directories of one archive's index, as far as the steps depend on them.
pub struct CacheDir {
    /// Whether the directory of all indexes exists.
    pub root: bool,
    /// Whether the finished index exists.
    pub finished: bool,
    pub staging: Staging,
}

impl CacheDir {
    /// Nothing exists in a directory that does not exist.
    pub open spec fn wf(self) -> bool {
        !self.root ==> !self.finished && self.staging == Staging::Absent
    }
}

/// What an action does to the directories when nothing but the state of the
/// directories themselves can make it fail, and what the caller then reports.
pub open spec fn perform(dir: CacheDir, action: IndexAction) -> (CacheDir, IndexEvent) {
    match action {
        IndexAction::ProbeRoot => (
            dir,
            if dir.root {
                IndexEvent::Found
            } else {
                IndexEvent::Missing
            },
        ),
        IndexAction::CreateRoot => if dir.root {
            (dir, IndexEvent::Failed)
        } else {
            (CacheDir { root: true, ..dir }, IndexEvent::Done)
        },
        IndexAction::ProbeFinal => (
            dir,
            if dir.finished {
                IndexEvent::Found
            } else {
                IndexEvent::Missing
            },
        ),
        IndexAction::ProbeStaging => (
            dir,
            if dir.staging != Staging::Absent {
                IndexEvent::Found
            } else {
                IndexEvent::Missing
            },
        ),
        IndexAction::RemoveStaging => if dir.staging == Staging::Empty {
            (CacheDir { staging: Staging::Absent, ..dir }, IndexEvent::Done)
        } else {
            (dir, IndexEvent::Failed)
        },
        IndexAction::CreateStaging => if dir.root && dir.staging == Staging::Absent {
            (CacheDir { staging: Staging::Empty, ..dir }, IndexEvent::Done)
        } else {
            (dir, IndexEvent::Failed)
        },
        IndexAction::Build => if dir.staging != Staging::Absent {
            (CacheDir { staging: Staging::Filled, ..dir }, IndexEvent::Done)
        } else {
            (dir, IndexEvent::Failed)
        },
        IndexAction::Promote => if dir.staging != Staging::Absent && !dir.finished {
            (CacheDir { finished: true, staging: Staging::Absent, ..dir }, IndexEvent::Done)
        } else {
            (dir, IndexEvent::Failed)
        },
        IndexAction::Open => if dir.finished {
            (dir, IndexEvent::Done)
        } else {
            (dir, IndexEvent::Failed)
        },
    }
}

/// How a run of the steps ended.
pub struct Run {
    pub dir: CacheDir,
    /// `Finished` or `Abort`.
    pub end: IndexStep,
    /// The actions that were carried out, in order.
    pub actions: Seq<IndexAction>,
}

/// What the caller reports of an action: what `perform` says, but for a
/// build that fails, which leaves the directories as they are.
pub open spec fn attempt(dir: CacheDir, action: IndexAction, build_succeeds: bool) -> (
    CacheDir,
    IndexEvent,
) {
    if action == IndexAction::Build && !build_succeeds {
        (dir, IndexEvent::Failed)
    } else {
        perform(dir, action)
    }
}

/// The run that begins with `action` and takes at most `limit` actions.
pub open spec fn run_from(dir: CacheDir, action: IndexAction, limit: nat, build_succeeds: bool) -> Run
    decreases limit,
{
    if limit == 0 {
        Run { dir, end: IndexStep::Do(action), actions: Seq::empty() }
    } else {
        let (after, event) = attempt(dir, action, build_succeeds);
        match step_after(action, event) {
            IndexStep::Do(next) => {
                let rest = run_from(after, next, (limit - 1) as nat, build_succeeds);
                Run { actions: seq![action] + rest.actions, ..rest }
            },
            end => Run { dir: after, end, actions: seq![action] },
        }
    }
}

/// A whole run on the directories `dir` in which the build, if it comes to
/// one, succeeds. No run takes more than nine actions.
pub open spec fn run(dir: CacheDir) -> Run {
    run_from(dir, IndexAction::ProbeRoot, 9, true)
}

/// A whole run in which the build fails: an entry could not be indexed, or
/// the index could not be written.
pub open spec fn run_with_failed_build(dir: CacheDir) -> Run {
    run_from(dir, IndexAction::ProbeRoot, 9, false)
}

/// The actions of a run that has to build the index.
pub open spec fn building_actions(dir: CacheDir) -> Seq<IndexAction> {
    (if dir.root {
        seq![IndexAction::ProbeRoot]
    } else {
        seq![IndexAction::ProbeRoot, IndexAction::CreateRoot]
    }) + seq![IndexAction::ProbeFinal, IndexAction::ProbeStaging] + (if dir.staging
        == Staging::Empty {
        seq![IndexAction::RemoveStaging]
    } else {
        Seq::empty()
    }) + seq![
        IndexAction::CreateStaging,
        IndexAction::Build,
        IndexAction::Promote,
        IndexAction::Open,
    ]
}

/// The actions of a run that finds the index finished.
pub open spec fn reusing_actions() -> Seq<IndexAction> {
    seq![IndexAction::ProbeRoot, IndexAction::ProbeFinal, IndexAction::Open]
}

/// Where no finished index exists and no filled staging directory is in the
/// way, a run creates the staging directory, builds once in it, moves it to
/// the final name and opens it; it leaves the finished index and no staging
/// directory.
pub proof fn law_first_run_builds_in_staging(dir: CacheDir)
    requires
        dir.wf(),
        !dir.finished,
        dir.staging != Staging::Filled,
    ensures
        run(dir).end == IndexStep::Finished,
        run(dir).actions == building_actions(dir),
        run(dir).dir == (CacheDir { root: true, finished: true, staging: Staging::Absent }),
{
    reveal_with_fuel(run_from, 10);
    assert(run(dir).actions =~= building_actions(dir));
}

/// Where the finished index exists, a run opens it and does nothing else:
/// it creates no staging directory and builds nothing.
pub proof fn law_finished_index_is_reused(dir: CacheDir)
    requires
        dir.wf(),
        dir.finished,
    ensures
        run(dir).end == IndexStep::Finished,
        run(dir).actions == reusing_actions(),
        run(dir).dir == dir,
{
    reveal_with_fuel(run_from, 10);
    assert(run(dir).actions =~= reusing_actions());
}

/// Idempotence: after a run that finished, a second run on the same archive
/// arrives at the same index without building again, and changes nothing.
pub proof fn law_second_run_does_not_rebuild(dir: CacheDir)
    requires
        dir.wf(),
        run(dir).end == IndexStep::Finished,
    ensures
        run(run(dir).dir).end == IndexStep::Finished,
        run(run(dir).dir).actions == reusing_actions(),
        run(run(dir).dir).dir == run(dir).dir,
{
    if dir.finished {
        law_finished_index_is_reused(dir);
        law_finished_index_is_reused(run(dir).dir);
    } else if dir.staging != Staging::Filled {
        law_first_run_builds_in_staging(dir);
        law_finished_index_is_reused(run(dir).dir);
    } else {
        law_filled_staging_stops_the_run(dir);
    }
}

/// A staging directory that is not empty is not removed: the run stops with
/// an error and leaves everything as it was.
pub proof fn law_filled_staging_stops_the_run(dir: CacheDir)
    requires
        dir.wf(),
        !dir.finished,
        dir.staging == Staging::Filled,
    ensures
        run(dir).end == IndexStep::Abort(IndexError::Io),
        run(dir).dir == dir,
        run(dir).actions == seq![
            IndexAction::ProbeRoot,
            IndexAction::ProbeFinal,
            IndexAction::ProbeStaging,
            IndexAction::RemoveStaging,
        ],
{
    reveal_with_fuel(run_from, 10);
    assert(run(dir).actions =~= seq![
        IndexAction::ProbeRoot,
        IndexAction::ProbeFinal,
        IndexAction::ProbeStaging,
        IndexAction::RemoveStaging,
    ]);
}

/// A build that fails ends the run with an error straight after the build:
/// nothing is moved to the final name, so no finished index exists
/// afterwards, and what was built so far stays in the staging directory.
pub proof fn law_failed_build_leaves_no_index(dir: CacheDir)
    requires
        dir.wf(),
        !dir.finished,
        dir.staging != Staging::Filled,
    ensures
        run_with_failed_build(dir).end == IndexStep::Abort(IndexError::Build),
        !run_with_failed_build(dir).dir.finished,
        run_with_failed_build(dir).dir.staging == Staging::Empty,
        run_with_failed_build(dir).actions.last() == IndexAction::Build,
        forall|i: int|
            0 <= i < run_with_failed_build(dir).actions.len() ==> {
                &&& run_with_failed_build(dir).actions[i] != IndexAction::Promote
                &&& run_with_failed_build(dir).actions[i] != IndexAction::Open
            },
{
    reveal_with_fuel(run_from, 10);
    let before = (if dir.root {
        seq![IndexAction::ProbeRoot]
    } else {
        seq![IndexAction::ProbeRoot, IndexAction::CreateRoot]
    }) + seq![IndexAction::ProbeFinal, IndexAction::ProbeStaging] + (if dir.staging
        == Staging::Empty {
        seq![IndexAction::RemoveStaging]
    } else {
        Seq::empty()
    }) + seq![IndexAction::CreateStaging, IndexAction::Build];
    assert(run_with_failed_build(dir).actions =~= before);
}

} // verus!
