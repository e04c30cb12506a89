//! The kinds of fault, and how far each of them reaches.

use vstd::prelude::*;

verus! {

/// What went wrong.
#[derive(Clone, Copy, Debug, PartialEq, Eq, Structural)]
pub enum FaultKind {
    /// The store cannot be reached, or a row of it is malformed or refused.
    Persistence,
    /// An output directory cannot be made, or a file's own attributes cannot
    /// be read.
    Io,
    /// The conversion routine could not be loaded, or raised while it ran.
    Engine,
    /// A directory entry could not be listed.
    Walk,
}

impl FaultKind {
    /// Whether a fault of this kind ends the session in which it occurs.
    /// The other kinds cost one file, or one subtree of a walk.
    pub open spec fn is_fatal(self) -> bool {
        self is Persistence
    }

    /// Whether a fault of this kind ends the session in which it occurs.
    pub fn ends_session(self) -> (fatal: bool)
        ensures
            fatal == self.is_fatal(),
    {
        match self {
            FaultKind::Persistence => true,
            _ => false,
        }
    }

    /// The name under which a fault of this kind is reported.
    pub fn label(self) -> (name: &'static str)
        ensures
            name@ == match self {
                FaultKind::Persistence => "PersistenceFault"@,
                FaultKind::Io => "IOFault"@,
                FaultKind::Engine => "EngineFault"@,
                FaultKind::Walk => "WalkFault"@,
            },
    {
        match self {
            FaultKind::Persistence => "PersistenceFault",
            FaultKind::Io => "IOFault",
            FaultKind::Engine => "EngineFault",
            FaultKind::Walk => "WalkFault",
        }
    }
}

/// The line that reports a fault: the name of its kind, a colon and a space,
/// and the path that it struck.
pub open spec fn report_of(kind: FaultKind, path: Seq<char>) -> Seq<char> {
    let name = match kind {
        FaultKind::Persistence => "PersistenceFault"@,
        FaultKind::Io => "IOFault"@,
        FaultKind::Engine => "EngineFault"@,
        FaultKind::Walk => "WalkFault"@,
    };
    name + ": "@ + path
}

/// Writes the line that reports a fault of `kind` at `path`.
pub fn report_line(kind: FaultKind, path: &str) -> (line: String)
    ensures
        line@ == report_of(kind, path@),
{
    let mut line = kind.label().to_owned();
    line.append(": ");
    line.append(path);
    line
}

/// Whether some fault among `faults` ends the session.
pub open spec fn any_fatal(faults: Seq<FaultKind>) -> bool {
    exists|i: int| 0 <= i < faults.len() && (#[trigger] faults[i]).is_fatal()
}

/// The exit status of a run in which `faults` occurred: 1 if one of them
/// ends the session, else 0. Faults that cost single files do not count.
pub fn exit_status(faults: &Vec<FaultKind>) -> (status: u8)
    ensures
        status == if any_fatal(faults@) {
            1u8
        } else {
            0u8
        },
{
    let mut i: usize = 0;
    while i < faults.len()
        invariant
            i <= faults.len(),
            forall|j: int| 0 <= j < i ==> !(#[trigger] faults@[j]).is_fatal(),
        decreases faults.len() - i,
    {
        if faults[i].ends_session() {
            return 1;
        }
        i += 1;
    }
    0
}

} // verus!
