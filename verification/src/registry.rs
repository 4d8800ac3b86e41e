//! Access to the fail points of the process.

use vstd::prelude::*;

use crate::http::pairs_view;

verus! {

/// One thing that was asked of the fail points of the process.
pub enum FailCall {
    /// Give the fail point of this name these actions.
    Configure(Seq<char>, Seq<char>),
    /// Remove the fail point of this name.
    Remove(Seq<char>),
    /// List the fail points: their names and actions, as they were listed.
    List(Seq<(Seq<char>, Seq<char>)>),
}

/// Access to the fail points of the process. Its value is what was asked of
/// them through it so far, in order; the fail points themselves belong to the process.
pub struct FailPoints {
    asked: Ghost<Seq<FailCall>>,
}

impl View for FailPoints {
    type V = Seq<FailCall>;

    closed spec fn view(&self) -> Seq<FailCall> {
        self.asked@
    }
}

/// The text with which `fail` refuses actions, on a machine whose words count up
/// to `word_max`; `None` for actions that it takes.
pub uninterp spec fn actions_refused(actions: Seq<char>, word_max: nat) -> Option<Seq<char>>;

/// One action that is written as a single word.
pub open spec fn bare_action(actions: Seq<char>) -> bool {
    ||| actions == "off"@
    ||| actions == "return"@
    ||| actions == "panic"@
    ||| actions == "print"@
    ||| actions == "pause"@
    ||| actions == "yield"@
}

/// No two fail points share a name.
pub open spec fn distinct_names(fail_points: Seq<(Seq<char>, Seq<char>)>) -> bool {
    forall|i: int, j: int|
        0 <= i < j < fail_points.len() ==> (#[trigger] fail_points[i]).0 != (
        #[trigger] fail_points[j]).0
}

impl FailPoints {
    /// Access through which nothing was asked yet.
    pub fn new() -> (fail_points: FailPoints)
        ensures
            fail_points@ == Seq::<FailCall>::empty(),
    {
        FailPoints { asked: Ghost(Seq::empty()) }
    }

    /// Calls `fail::cfg` with the name and the actions, once. Whether the actions are taken, and
    /// the text with which they are refused, are claimed to depend on the
    /// actions and the word size alone: not on the name, and not on the fail
    /// points that there are. An action that is a single word is claimed to be
    /// taken; which other actions are is not claimed, nor what the call leaves in
    /// the process, where others may set and remove fail points too. The call
    /// panics if another panicked while it held the lock on the fail points.
    #[verifier::external_body]
    pub(crate) fn set(&mut self, name: &str, actions: &str) -> (outcome: Result<(), String>)
        ensures
            final(self)@ == old(self)@.push(FailCall::Configure(name@, actions@)),
            match outcome {
                Ok(_) => actions_refused(actions@, usize::MAX as nat) is None,
                Err(text) => actions_refused(actions@, usize::MAX as nat) == Some(text@),
            },
            bare_action(actions@) ==> outcome is Ok,
    {
        fail::cfg(name.to_owned(), actions)
    }

    /// Calls `fail::remove` with the name, once; it returns nothing. What the call
    /// leaves in the process is not claimed. The call panics if another panicked
    /// while it held the lock on the fail points.
    #[verifier::external_body]
    pub(crate) fn remove(&mut self, name: &str)
        ensures
            final(self)@ == old(self)@.push(FailCall::Remove(name@)),
    {
        fail::remove(name)
    }

    /// Calls `fail::list`, once, and keeps what it gave, in which no name is
    /// claimed to come twice. Nothing else is claimed of the list: it holds what
    /// is set in the process at that moment, in any order. The call panics if
    /// another panicked while it held the lock on the fail points.
    #[verifier::external_body]
    pub(crate) fn list(&mut self) -> (fail_points: Vec<(String, String)>)
        ensures
            final(self)@ == old(self)@.push(FailCall::List(pairs_view(fail_points@))),
            distinct_names(pairs_view(fail_points@)),
    {
        fail::list()
    }
}

} // verus!
