//! The boundary to the front end.

use crate::config::InterfaceArgs;
use vstd::prelude::*;

verus! {

/// A front end. It is started once and runs until its user is done; what it
/// asks of the store it sends to the coordinator as events.
pub trait Interface {
    fn spawn_and_run(&mut self);
}

/// The kinds of front end.
#[derive(Clone, Copy, Debug, PartialEq, Eq, Structural)]
pub enum InterfaceKind {
    /// In the terminal.
    CommandLine,
    /// In a window.
    Graphical,
}

/// Chooses the front end.
pub struct InterfaceBuilder;

impl InterfaceBuilder {
    /// The front end that the configuration asks for.
    pub fn build(args: &InterfaceArgs) -> (kind: InterfaceKind)
        ensures
            kind == if args.tui {
                InterfaceKind::CommandLine
            } else {
                InterfaceKind::Graphical
            },
    {
        if args.tui {
            InterfaceKind::CommandLine
        } else {
            InterfaceKind::Graphical
        }
    }
}

} // verus!
