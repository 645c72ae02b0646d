//! Change-notification vocabulary shared with the object-store collaborator.

use vstd::prelude::*;

verus! {

/// An explicit deep-copy operation.
pub trait DeepCopy: Sized {
    fn DeepCopy(&self) -> Self;
}

/// The kind of change a watch event reports.
#[derive(Debug, PartialEq, Eq, Clone)]
pub enum EventType {
    NoEvent,
    Added,
    Modified,
    Deleted,
    InitDone,
    Error(String),
}

impl Default for EventType {
    fn default() -> (r: Self)
        ensures
            r is NoEvent,
    {
        EventType::NoEvent
    }
}

impl EventType {
    /// A structural copy of the event type.
    pub fn DeepCopy(&self) -> (r: Self)
        ensures
            r == *self,
    {
        match self {
            EventType::NoEvent => EventType::NoEvent,
            EventType::Added => EventType::Added,
            EventType::Modified => EventType::Modified,
            EventType::Deleted => EventType::Deleted,
            EventType::InitDone => EventType::InitDone,
            EventType::Error(s) => EventType::Error(s.clone()),
        }
    }
}

} // verus!
