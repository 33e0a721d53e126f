pub mod create;
pub mod delete;
pub mod handler;
pub mod hiding;
pub mod inspect;
pub mod kill;
pub mod list;
pub mod reload;
pub mod show;
pub mod update;

use vstd::prelude::*;

verus! {

/// One command of the protocol, bound to the state that it is to be applied to.
pub trait Command {
    /// What the command needs before it runs: that the state it is bound to is well formed.
    spec fn ready(&self) -> bool;

    /// Carries the command out and hands back the answer for the client.
    fn execute(&mut self) -> (response: String)
        requires
            old(self).ready(),
    ;
}

} // verus!
