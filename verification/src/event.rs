//! The unit that a worker takes off its channel.

use vstd::prelude::*;

verus! {

/// One directive for a worker: run a task, stop, or report itself.
///
/// A task is carried as a ticket; the caller keeps the callable that the
/// ticket stands for.
#[derive(Clone, Copy, Debug, PartialEq, Eq, Structural)]
pub enum Event {
    /// Shutdown sentinel: the worker that takes it exits.
    Stop,
    /// Run the task with this ticket.
    Task(u64),
    /// Diagnostic probe: the worker reports its identity and goes on.
    Debug,
}

impl Event {
    /// The directive to run the task `task`.
    pub fn with_task(task: u64) -> (event: Event)
        ensures
            event == Event::Task(task),
    {
        Event::Task(task)
    }

    /// The shutdown sentinel.
    pub fn stop() -> (event: Event)
        ensures
            event == Event::Stop,
    {
        Event::Stop
    }

    /// The diagnostic probe.
    pub fn debug() -> (event: Event)
        ensures
            event == Event::Debug,
    {
        Event::Debug
    }

    /// Is this a task?
    pub open spec fn is_task(self) -> bool {
        self is Task
    }

    /// The text that stands for this event in diagnostics.
    pub open spec fn label(self) -> Seq<char> {
        match self {
            Event::Stop => "event stop"@,
            Event::Task(_) => "event task"@,
            Event::Debug => "event debug"@,
        }
    }

    /// The diagnostic text of this event; the ticket of a task is not shown.
    pub fn describe(&self) -> (text: String)
        ensures
            text@ == self.label(),
    {
        match self {
            Event::Stop => "event stop".to_owned(),
            Event::Task(_) => "event task".to_owned(),
            Event::Debug => "event debug".to_owned(),
        }
    }
}

} // verus!
