//! Messages that travel between the editor and the checking worker.
use crate::interop::bridge::Recommendation;
use vstd::prelude::*;

verus! {

/// The text of the editor, sent to the checking worker.
#[derive(Debug, Clone)]
pub struct Message(pub String);

/// The recommendations that the checking worker found for a text.
#[derive(Debug, Clone, PartialEq)]
pub struct Suggestion(pub Vec<Recommendation>);

impl Default for Message {
    fn default() -> (m: Self)
        ensures
            m.0@ == Seq::<char>::empty(),
    {
        Message(String::new())
    }
}

impl Default for Suggestion {
    fn default() -> (s: Self)
        ensures
            s.0@ == Seq::<Recommendation>::empty(),
    {
        Suggestion(Vec::new())
    }
}

} // verus!
