//! Whether a source file has to be converted again.

use crate::fault::FaultKind;
use crate::profile::{Profile, ProfileView};
use vstd::prelude::*;

verus! {

/// What the file system says of one source file.
pub struct FileProbe {
    /// Whether the file that a conversion would write is there.
    pub output_exists: bool,
    /// The source file's modification time, in seconds since the epoch.
    pub mtime: i64,
}

/// The staleness policy. A forced run converts every file. So does a missing
/// output. Otherwise a file is left alone exactly when it was converted
/// before and the time noted then is not earlier than the file's own.
pub open spec fn is_stale(
    force: bool,
    output_exists: bool,
    last_converted: Option<i64>,
    mtime: i64,
) -> bool {
    force || !output_exists || match last_converted {
        Some(noted) => noted < mtime,
        None => true,
    }
}

/// Decides whether `source_file` has to be converted under `profile`.
pub fn requires_conversion(source_file: &str, profile: &Profile, probe: &FileProbe, force: bool) -> (stale:
    bool)
    ensures
        stale == is_stale(
            force,
            probe.output_exists,
            profile.last_converted(source_file@),
            probe.mtime,
        ),
        force ==> stale,
        !probe.output_exists ==> stale,
        profile.last_converted(source_file@) is None ==> stale,
        profile.last_converted(source_file@) matches Some(noted) && noted < probe.mtime ==> stale,
        !force && probe.output_exists && profile.last_converted(source_file@) == Some(probe.mtime)
            ==> !stale,
{
    if force {
        return true;
    }
    if !probe.output_exists {
        return true;
    }
    match profile.tracked_mtime(source_file) {
        Some(noted) => noted < probe.mtime,
        None => true,
    }
}

/// What is to be done with one candidate.
#[derive(Clone, Copy, Debug, PartialEq, Eq, Structural)]
pub enum Verdict {
    /// The file is stale: convert it.
    Convert,
    /// The file is not stale: leave it alone.
    UpToDate,
    /// Whether the file is stale hangs on its modification time, and that
    /// cannot be read: the file is given up for this run.
    Unreadable,
}

impl Verdict {
    /// The fault that this verdict reports, if it reports one.
    pub open spec fn fault_of(self) -> Option<FaultKind> {
        match self {
            Verdict::Unreadable => Some(FaultKind::Io),
            _ => None,
        }
    }

    /// The fault that this verdict reports, if it reports one.
    pub fn fault(self) -> (fault: Option<FaultKind>)
        ensures
            fault == self.fault_of(),
    {
        match self {
            Verdict::Unreadable => Some(FaultKind::Io),
            _ => None,
        }
    }
}

/// The verdict on a candidate whose modification time is `mtime`, or could
/// not be read where there is none. The policy goes in its order: a forced
/// run converts the file, and so does a missing output, and so does a file
/// that was never converted, whatever its time. Only a file that was
/// converted before is judged by its time: it is converted if the time noted
/// then is earlier, left alone if not, and given up if its time cannot be
/// read.
pub open spec fn verdict_of(
    force: bool,
    output_exists: bool,
    last_converted: Option<i64>,
    mtime: Option<i64>,
) -> Verdict {
    if force || !output_exists {
        Verdict::Convert
    } else {
        match (last_converted, mtime) {
            (None, _) => Verdict::Convert,
            (Some(noted), Some(m)) => if noted < m {
                Verdict::Convert
            } else {
                Verdict::UpToDate
            },
            (Some(noted), None) => Verdict::Unreadable,
        }
    }
}

/// Where the modification time is known, the verdict is to convert exactly
/// the stale files.
pub proof fn lemma_verdict_follows_staleness(
    force: bool,
    output_exists: bool,
    last_converted: Option<i64>,
    mtime: i64,
)
    ensures
        verdict_of(force, output_exists, last_converted, Some(mtime)) == if is_stale(
            force,
            output_exists,
            last_converted,
            mtime,
        ) {
            Verdict::Convert
        } else {
            Verdict::UpToDate
        },
{
}

/// Decides what is to be done with the candidate `source_file` under
/// `profile`. `output_exists` says whether the file that a conversion would
/// write is there; `mtime` is the candidate's modification time, or nothing
/// if it could not be read.
pub fn assess(
    source_file: &str,
    profile: &Profile,
    output_exists: bool,
    mtime: Option<i64>,
    force: bool,
) -> (verdict: Verdict)
    ensures
        verdict == verdict_of(force, output_exists, profile.last_converted(source_file@), mtime),
        force ==> verdict == Verdict::Convert,
        mtime matches Some(m) ==> (verdict == Verdict::Convert <==> is_stale(
            force,
            output_exists,
            profile.last_converted(source_file@),
            m,
        )),
{
    if force || !output_exists {
        return Verdict::Convert;
    }
    match profile.tracked_mtime(source_file) {
        None => Verdict::Convert,
        Some(noted) => match mtime {
            None => Verdict::Unreadable,
            Some(m) => if noted < m {
                Verdict::Convert
            } else {
                Verdict::UpToDate
            },
        },
    }
}

/// A file that was never converted, and whose output is missing, is stale.
pub proof fn lemma_new_file_is_stale(profile: Profile, source_file: Seq<char>, mtime: i64, force: bool)
    requires
        profile.last_converted(source_file) is None,
    ensures
        is_stale(force, false, profile.last_converted(source_file), mtime),
{
}

/// A file whose modification time is the one noted at its last conversion is
/// not stale, as long as its output is there and the run is not forced.
pub proof fn lemma_unchanged_file_is_fresh(profile: Profile, source_file: Seq<char>, mtime: i64)
    requires
        profile.last_converted(source_file) == Some(mtime),
    ensures
        !is_stale(false, true, profile.last_converted(source_file), mtime),
{
}

/// A file modified after the time noted at its last conversion is stale.
pub proof fn lemma_changed_file_is_stale(
    profile: Profile,
    source_file: Seq<char>,
    noted: i64,
    mtime: i64,
    output_exists: bool,
    force: bool,
)
    requires
        profile.last_converted(source_file) == Some(noted),
        noted < mtime,
    ensures
        is_stale(force, output_exists, profile.last_converted(source_file), mtime),
{
}

/// A forced run finds every file stale, whatever is noted of it.
pub proof fn lemma_forced_run_is_stale(
    profile: Profile,
    source_file: Seq<char>,
    mtime: i64,
    output_exists: bool,
)
    ensures
        is_stale(true, output_exists, profile.last_converted(source_file), mtime),
{
}

/// Once a conversion is noted with the file's modification time, the file is
/// not stale on the next run: not until it is modified, its output goes
/// missing or a run is forced.
pub proof fn lemma_converted_file_is_fresh(
    before: ProfileView,
    after: Profile,
    source_file: Seq<char>,
    mtime: i64,
)
    requires
        after@ == (ProfileView {
            metadata: Some(
                match before.metadata {
                    Some(m) => m.insert(source_file, mtime),
                    None => Map::<Seq<char>, i64>::empty().insert(source_file, mtime),
                },
            ),
            ..before
        }),
    ensures
        after.last_converted(source_file) == Some(mtime),
        !is_stale(false, true, after.last_converted(source_file), mtime),
{
}

} // verus!
