//! The worker's state machine: what one worker does with what it finds on
//! its channel.

use vstd::prelude::*;

use crate::channel::Channel;
use crate::event::Event;
use crate::signal::WakeSignal;

verus! {

/// What a worker is doing, as far as others can see.
#[derive(Clone, Copy, Debug, PartialEq, Eq, Structural)]
pub enum Status {
    /// Not running a task: the state a worker starts in and ends in.
    Stop,
    /// A task has been taken up.
    Running,
}

/// What a worker does in one turn. The caller performs it.
#[derive(Clone, Copy, Debug, PartialEq, Eq, Structural)]
pub enum Action {
    /// Sleep until the wake signal is raised.
    Wait,
    /// Run the task with this ticket.
    Run(u64),
    /// Leave the loop: the worker is done for good.
    Exit,
    /// Report the worker's identity.
    Report,
    /// Nothing was queued: hint the processor and poll again.
    Spin,
}

/// The position of the first `Stop` in `events`, or their number if there is
/// none.
pub open spec fn first_stop(events: Seq<Event>) -> int
    decreases events.len(),
{
    if events.len() == 0 || events.first() == Event::Stop {
        0
    } else {
        1 + first_stop(events.drop_first())
    }
}

/// The tickets of the tasks among `events`, in their order.
pub open spec fn tasks_of(events: Seq<Event>) -> Seq<u64>
    decreases events.len(),
{
    if events.len() == 0 {
        Seq::empty()
    } else {
        match events.last() {
            Event::Task(task) => tasks_of(events.drop_last()).push(task),
            _ => tasks_of(events.drop_last()),
        }
    }
}

/// What a worker that is still in its loop does with what it took off its
/// channel.
pub open spec fn action_for(taken: Option<Event>) -> Action {
    match taken {
        Some(Event::Task(task)) => Action::Run(task),
        Some(Event::Stop) => Action::Exit,
        Some(Event::Debug) => Action::Report,
        None => Action::Spin,
    }
}

/// The status a worker shows after it has dealt with `taken`.
pub open spec fn status_after(status: Status, taken: Option<Event>) -> Status {
    match taken {
        Some(Event::Task(_)) => Status::Running,
        Some(Event::Stop) => Status::Stop,
        _ => status,
    }
}

/// `first_stop` is where the first `Stop` stands.
pub proof fn lemma_first_stop(events: Seq<Event>, at: int)
    requires
        0 <= at <= events.len(),
        forall|i: int| 0 <= i < at ==> events[i] != Event::Stop,
        at < events.len() ==> events[at] == Event::Stop,
    ensures
        first_stop(events) == at,
    decreases at,
{
    if at > 0 {
        let rest = events.drop_first();
        assert forall|i: int| 0 <= i < at - 1 implies rest[i] != Event::Stop by {
            assert(rest[i] == events[i + 1]);
        }
        lemma_first_stop(rest, at - 1);
        assert(events.first() == events[0]);
    }
}

/// Nothing before `first_stop` is a `Stop`, and what stands there is one.
pub proof fn lemma_first_stop_bounds(events: Seq<Event>)
    ensures
        0 <= first_stop(events) <= events.len(),
        forall|i: int| 0 <= i < first_stop(events) ==> events[i] != Event::Stop,
        first_stop(events) < events.len() ==> events[first_stop(events)] == Event::Stop,
    decreases events.len(),
{
    if events.len() > 0 && events.first() != Event::Stop {
        let rest = events.drop_first();
        lemma_first_stop_bounds(rest);
        assert forall|i: int| 0 <= i < first_stop(events) implies events[i] != Event::Stop by {
            if i > 0 {
                assert(events[i] == rest[i - 1]);
            }
        }
        if first_stop(events) < events.len() {
            assert(events[first_stop(events)] == rest[first_stop(rest)]);
        }
    }
}

/// First in, first out: the tasks of events queued behind others come after
/// the tasks of those, and each group keeps its order.
pub proof fn lemma_tasks_in_queue_order(ahead: Seq<Event>, behind: Seq<Event>)
    ensures
        tasks_of(ahead + behind) == tasks_of(ahead) + tasks_of(behind),
    decreases behind.len(),
{
    if behind.len() == 0 {
        assert(ahead + behind == ahead);
        assert(tasks_of(ahead) + tasks_of(behind) == tasks_of(ahead));
    } else {
        lemma_tasks_in_queue_order(ahead, behind.drop_last());
        assert((ahead + behind).drop_last() == ahead + behind.drop_last());
        assert((ahead + behind).last() == behind.last());
        match behind.last() {
            Event::Task(task) => {
                assert(tasks_of(ahead + behind) == (tasks_of(ahead) + tasks_of(
                    behind.drop_last(),
                )).push(task));
                assert((tasks_of(ahead) + tasks_of(behind.drop_last())).push(task) == tasks_of(ahead)
                    + tasks_of(behind.drop_last()).push(task));
            },
            _ => {},
        }
    }
}

proof fn lemma_tasks_of_tickets(tickets: Seq<u64>)
    ensures
        tasks_of(tickets.map_values(|ticket: u64| Event::Task(ticket))) == tickets,
    decreases tickets.len(),
{
    let events = tickets.map_values(|ticket: u64| Event::Task(ticket));
    if tickets.len() > 0 {
        lemma_tasks_of_tickets(tickets.drop_last());
        assert(events.drop_last() == tickets.drop_last().map_values(
            |ticket: u64| Event::Task(ticket),
        ));
        assert(events.last() == Event::Task(tickets.last()));
        assert(tickets.drop_last().push(tickets.last()) == tickets);
    } else {
        assert(tasks_of(events) == tickets);
    }
}

/// Tasks run in the order submitted: when tasks are queued on a channel one
/// after another, the worker takes up what was queued ahead of them first
/// and then these tasks, in the order of their submission.
pub proof fn lemma_tasks_run_in_submission_order(ahead: Seq<Event>, tickets: Seq<u64>)
    ensures
        tasks_of(ahead + tickets.map_values(|ticket: u64| Event::Task(ticket))) == tasks_of(ahead)
            + tickets,
{
    lemma_tasks_in_queue_order(ahead, tickets.map_values(|ticket: u64| Event::Task(ticket)));
    lemma_tasks_of_tickets(tickets);
}

/// A probe leaves no trace: wherever it stands in a queue, the tasks taken
/// up from the queue are the same as without it, and the worker that takes
/// it shows the status it showed before.
pub proof fn lemma_probe_leaves_no_trace(ahead: Seq<Event>, behind: Seq<Event>, status: Status)
    ensures
        tasks_of(ahead + seq![Event::Debug] + behind) == tasks_of(ahead + behind),
        status_after(status, Some(Event::Debug)) == status,
        !(action_for(Some(Event::Debug)) is Run),
        !(action_for(Some(Event::Debug)) is Exit),
{
    let probe = seq![Event::Debug];
    lemma_tasks_in_queue_order(ahead + probe, behind);
    lemma_tasks_in_queue_order(ahead, probe);
    lemma_tasks_in_queue_order(ahead, behind);
    assert(probe.drop_last() == Seq::<Event>::empty());
    assert(tasks_of(probe) == Seq::<u64>::empty()) by {
        assert(tasks_of(probe.drop_last()) == Seq::<u64>::empty());
    }
    assert(tasks_of(ahead) + Seq::<u64>::empty() == tasks_of(ahead));
}

/// One worker. It starts in its loop with nothing taken up, and leaves the
/// loop when it takes a `Stop` off its channel.
#[derive(Debug)]
pub struct Worker {
    status: Status,
    exited: bool,
}

impl Worker {
    /// The status the worker shows.
    pub closed spec fn status(&self) -> Status {
        self.status
    }

    /// Has the worker left its loop?
    pub closed spec fn exited(&self) -> bool {
        self.exited
    }

    /// A worker at the start of its loop.
    pub fn new() -> (worker: Worker)
        ensures
            worker.status() == Status::Stop,
            !worker.exited(),
    {
        Worker { status: Status::Stop, exited: false }
    }

    /// The status the worker shows.
    pub fn current_status(&self) -> (status: Status)
        ensures
            status == self.status(),
    {
        self.status
    }

    /// Has the worker left its loop?
    pub fn has_exited(&self) -> (exited: bool)
        ensures
            exited == self.exited(),
    {
        self.exited
    }

    /// Deals with what was taken off the channel: a task is taken up and
    /// handed out to be run, `Stop` ends the worker, a probe is reported and
    /// changes nothing, and an empty channel is polled again. A worker that
    /// has left its loop stays as it is.
    pub fn handle(&mut self, taken: Option<Event>) -> (action: Action)
        ensures
            old(self).exited() ==> action == Action::Exit && *final(self) == *old(self),
            !old(self).exited() ==> action == action_for(taken) && final(self).status()
                == status_after(old(self).status(), taken) && final(self).exited() == (taken
                == Some(Event::Stop)),
    {
        if self.exited {
            return Action::Exit;
        }
        match taken {
            Some(Event::Task(task)) => {
                self.status = Status::Running;
                Action::Run(task)
            },
            Some(Event::Stop) => {
                self.status = Status::Stop;
                self.exited = true;
                Action::Exit
            },
            Some(Event::Debug) => Action::Report,
            None => Action::Spin,
        }
    }

    /// One turn of the worker's loop. A worker whose signal is lowered waits
    /// and touches nothing; a woken one takes the oldest event off its
    /// channel and deals with it.
    pub fn turn(&mut self, channel: &mut Channel, signal: &WakeSignal) -> (action: Action)
        requires
            old(channel).wf(),
        ensures
            final(channel).wf(),
            final(channel).capacity() == old(channel).capacity(),
            old(self).exited() ==> action == Action::Exit && *final(self) == *old(self)
                && final(channel)@ == old(channel)@,
            !old(self).exited() && !signal.raised() ==> action == Action::Wait && *final(self)
                == *old(self) && final(channel)@ == old(channel)@,
            !old(self).exited() && signal.raised() && old(channel)@.len() == 0 ==> action
                == Action::Spin && *final(self) == *old(self) && final(channel)@ == old(
                channel,
            )@,
            !old(self).exited() && signal.raised() && old(channel)@.len() > 0 ==> {
                let taken = Some(old(channel)@.first());
                &&& action == action_for(taken)
                &&& final(self).status() == status_after(old(self).status(), taken)
                &&& final(self).exited() == (taken == Some(Event::Stop))
                &&& final(channel)@ == old(channel)@.drop_first()
            },
    {
        if self.exited {
            return Action::Exit;
        }
        if !signal.is_raised() {
            return Action::Wait;
        }
        let taken = channel.dequeue();
        self.handle(taken)
    }

    /// Waits for the worker to leave its loop, letting it take its turns
    /// until it has taken the first `Stop` off `channel`. The result holds
    /// the tasks it took up on the way, in the order taken: all that were
    /// queued ahead of that `Stop`. What was queued behind it stays. Beside
    /// them stands the worker as it was when the wait ended: out of its loop,
    /// and stopped.
    ///
    /// A worker that sleeps, or that is never sent a `Stop`, never leaves its
    /// loop: such a wait would not return and is left out.
    pub fn join(self, channel: &mut Channel, signal: &WakeSignal) -> (out: (
        Vec<u64>,
        Ghost<Worker>,
    ))
        requires
            old(channel).wf(),
            self.exited() || (signal.raised() && first_stop(old(channel)@) < old(channel)@.len()),
        ensures
            final(channel).wf(),
            final(channel).capacity() == old(channel).capacity(),
            out.1@.exited(),
            self.exited() ==> out.0@ == Seq::<u64>::empty() && final(channel)@ == old(channel)@
                && out.1@ == self,
            !self.exited() ==> out.0@ == tasks_of(old(channel)@.take(first_stop(old(channel)@)))
                && final(channel)@ == old(channel)@.skip(first_stop(old(channel)@) + 1)
                && out.1@.status() == Status::Stop,
    {
        let mut worker = self;
        let mut run: Vec<u64> = Vec::new();
        let ghost events = channel@;
        let ghost stop = first_stop(events);
        let ghost mut taken: int = 0;
        proof {
            lemma_first_stop_bounds(events);
            assert(events.skip(0) == events);
            assert(events.take(0) == Seq::<Event>::empty());
        }
        while !worker.has_exited()
            invariant
                channel.wf(),
                channel.capacity() == old(channel).capacity(),
                events == old(channel)@,
                stop == first_stop(events),
                self.exited() ==> worker == self && taken == 0,
                !self.exited() && worker.exited() ==> worker.status() == Status::Stop,
                !self.exited() ==> signal.raised() && stop < events.len(),
                !self.exited() ==> (worker.exited() <==> taken == stop + 1),
                0 <= taken <= stop + 1,
                forall|i: int| 0 <= i < stop ==> events[i] != Event::Stop,
                stop < events.len() ==> events[stop] == Event::Stop,
                channel@ == events.skip(taken),
                run@ == tasks_of(events.take(if taken <= stop { taken } else { stop })),
            decreases stop + 1 - taken,
        {
            assert(channel@.first() == events[taken]);
            let action = worker.turn(channel, signal);
            proof {
                assert(events.skip(taken).drop_first() == events.skip(taken + 1));
                if taken < stop {
                    assert(events.take(taken + 1).drop_last() == events.take(taken));
                    assert(events.take(taken + 1).last() == events[taken]);
                }
                taken = taken + 1;
            }
            if let Action::Run(task) = action {
                run.push(task);
            }
        }
        (run, Ghost(worker))
    }
}

} // verus!
