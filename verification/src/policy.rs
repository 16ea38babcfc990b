//! Who approves the use of a private key.

use vstd::prelude::*;
use crate::name::{place, Place};

verus! {

/// How a request to use a private key is decided. The default denies.
#[derive(Clone, Debug)]
pub enum ConfirmPolicy {
    /// Every use is denied.
    AutoDeny,
    /// A use is approved only when a person, asked for this use, said yes.
    PromptApprove,
    /// A use is approved when the key's nickname is on the list.
    PolicyApprove(Vec<String>),
}

/// Some name on the list is `nickname`.
pub open spec fn listed(names: Seq<String>, nickname: Seq<char>) -> bool {
    exists|i: int| 0 <= i < names.len() && (#[trigger] names[i])@ == nickname
}

/// Whether `nickname` is on the list.
fn on_list(names: &Vec<String>, nickname: &str) -> (found: bool)
    ensures
        found == listed(names@, nickname@),
{
    let n: usize = names.len();
    let mut i: usize = 0;
    while i < n
        invariant
            n == names@.len(),
            i <= n,
            forall|j: int| 0 <= j < i ==> (#[trigger] names@[j])@ != nickname@,
        decreases n - i,
    {
        if place(names[i].as_str(), nickname) == Place::Same {
            assert(names@[i as int]@ == nickname@);
            return true;
        }
        i = i + 1;
    }
    false
}

impl ConfirmPolicy {
    /// Whether the use of the key `nickname` is approved, given the answer
    /// of the person who was asked, if anyone was.
    pub open spec fn allows(self, nickname: Seq<char>, answer: Option<bool>) -> bool {
        match self {
            ConfirmPolicy::AutoDeny => false,
            ConfirmPolicy::PromptApprove => answer == Some(true),
            ConfirmPolicy::PolicyApprove(names) => listed(names@, nickname),
        }
    }

    /// Whether a person has to be asked before `decide` is called.
    pub fn needs_prompt(&self) -> (ask: bool)
        ensures
            ask == (self is PromptApprove),
    {
        match self {
            ConfirmPolicy::PromptApprove => true,
            _ => false,
        }
    }

    /// Decides one use of the key `nickname`. A missing answer is a no.
    pub fn decide(&self, nickname: &str, answer: Option<bool>) -> (approved: bool)
        ensures
            approved == self.allows(nickname@, answer),
    {
        match self {
            ConfirmPolicy::AutoDeny => false,
            ConfirmPolicy::PromptApprove => match answer {
                Some(yes) => yes,
                None => false,
            },
            ConfirmPolicy::PolicyApprove(names) => on_list(names, nickname),
        }
    }
}

impl Default for ConfirmPolicy {
    fn default() -> (policy: ConfirmPolicy)
        ensures
            policy is AutoDeny,
    {
        ConfirmPolicy::AutoDeny
    }
}

} // verus!
