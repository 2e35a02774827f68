//! The pool: its configuration, the channels and workers it owns, submission
//! and orderly shutdown.

use vstd::prelude::*;

use crate::channel::Channel;
use crate::channel::PoolError;
use crate::channel::MAX_CHANNEL_TOTAL;
use crate::dispatch::first_shortest;
use crate::dispatch::shortest;
use crate::dispatch::submitted;
use crate::dispatch::unbounded;
use crate::event::Event;
use crate::signal::WakeSignal;
use crate::worker::action_for;
use crate::worker::lemma_first_stop;
use crate::worker::lemma_tasks_in_queue_order;
use crate::worker::status_after;
use crate::worker::tasks_of;
use crate::worker::Action;
use crate::worker::Status;
use crate::worker::Worker;

verus! {

/// The capacity of each channel where none is asked for.
pub const MAX_TASK_TOTAL: usize = 100;

/// `num_cpus::get`: the number of logical processors that this process can
/// use. It differs from machine to machine and from run to run; the crate
/// documents that it is never below one, and that is all that is claimed.
#[verifier::external_body]
fn logical_cpus() -> (count: usize)
    ensures
        count >= 1,
{
    num_cpus::get()
}

/// The configuration of a pool: how many workers, and how much room on the
/// channel of each.
#[derive(Debug)]
pub struct Builder {
    worker_total: usize,
    channel_total: usize,
}

impl Default for Builder {
    /// One worker for each logical processor, and room for 100 events on
    /// each channel.
    fn default() -> (builder: Builder)
        ensures
            builder.worker_total() >= 1,
            builder.channel_total() == MAX_TASK_TOTAL,
    {
        Builder { worker_total: logical_cpus(), channel_total: MAX_TASK_TOTAL }
    }
}

impl Builder {
    /// The number of workers asked for.
    pub closed spec fn spec_worker_total(&self) -> usize {
        self.worker_total
    }

    /// The room asked for on each channel.
    pub closed spec fn spec_channel_total(&self) -> usize {
        self.channel_total
    }

    /// The number of workers asked for.
    #[verifier::when_used_as_spec(spec_worker_total)]
    pub fn worker_total(&self) -> (total: usize)
        ensures
            total == self.worker_total(),
    {
        self.worker_total
    }

    /// The room asked for on each channel.
    #[verifier::when_used_as_spec(spec_channel_total)]
    pub fn channel_total(&self) -> (total: usize)
        ensures
            total == self.channel_total(),
    {
        self.channel_total
    }

    /// Asks for `total` workers.
    pub fn with_worker_total(self, total: usize) -> (builder: Builder)
        ensures
            builder.worker_total() == total,
            builder.channel_total() == self.channel_total(),
    {
        let mut builder = self;
        builder.worker_total = total;
        builder
    }

    /// Asks for room for `total` events on each channel.
    pub fn with_channel_total(self, total: usize) -> (builder: Builder)
        ensures
            builder.channel_total() == total,
            builder.worker_total() == self.worker_total(),
    {
        let mut builder = self;
        builder.channel_total = total;
        builder
    }

    /// The pool that was asked for. It has no workers until `run` starts
    /// them.
    pub fn build(self) -> (pool: ThreadPool)
        ensures
            pool.wf(),
            pool.worker_total() == self.worker_total(),
            pool.queue_total() == self.channel_total(),
            pool.lanes() == Seq::<LaneState>::empty(),
    {
        let pool = ThreadPool {
            worker_total: self.worker_total,
            channels: Vec::new(),
            queue_total: self.channel_total,
        };
        assert(pool.lanes() =~= Seq::<LaneState>::empty());
        pool
    }
}

/// What a worker that was just started looks like: nothing queued, asleep,
/// nothing taken up.
pub open spec fn started(capacity: nat) -> LaneState {
    LaneState {
        items: Seq::empty(),
        capacity,
        raised: false,
        status: Status::Stop,
        exited: false,
    }
}

/// What is left of a worker's share when the worker has been stopped: an
/// empty channel, and a worker that was woken, has left its loop and shows
/// `Stop`.
pub open spec fn retired(lane: LaneState) -> LaneState {
    LaneState {
        items: Seq::empty(),
        raised: true,
        status: Status::Stop,
        exited: true,
        ..lane
    }
}

/// What one worker's share of the pool looks like from outside.
pub struct LaneState {
    /// The events waiting on the worker's channel, oldest first.
    pub items: Seq<Event>,
    /// The number of events the channel has room for.
    pub capacity: nat,
    /// Whether the worker's wake signal has been raised.
    pub raised: bool,
    /// The status the worker shows.
    pub status: Status,
    /// Whether the worker has left its loop.
    pub exited: bool,
}

/// One worker with its channel and its wake signal.
#[derive(Debug)]
struct Lane {
    channel: Channel,
    worker: Worker,
    signal: WakeSignal,
}

impl Lane {
    fn start(capacity: usize) -> (lane: Lane)
        requires
            0 < capacity <= MAX_CHANNEL_TOTAL,
        ensures
            lane.state() == started(capacity as nat),
    {
        Lane { channel: Channel::new(capacity), worker: Worker::new(), signal: WakeSignal::new() }
    }

    spec fn state(&self) -> LaneState {
        LaneState {
            items: self.channel@,
            capacity: self.channel.capacity(),
            raised: self.signal.raised(),
            status: self.worker.status(),
            exited: self.worker.exited(),
        }
    }
}

/// A pool of workers, each with a bounded channel of its own.
#[derive(Debug)]
pub struct ThreadPool {
    worker_total: usize,
    queue_total: usize,
    channels: Vec<Lane>,
}

impl ThreadPool {
    /// The number of workers that `run` starts.
    pub closed spec fn spec_worker_total(&self) -> usize {
        self.worker_total
    }

    /// The capacity that `run` gives each channel.
    pub closed spec fn spec_queue_total(&self) -> usize {
        self.queue_total
    }

    /// The number of workers that `run` starts.
    #[verifier::when_used_as_spec(spec_worker_total)]
    pub fn worker_total(&self) -> (total: usize)
        ensures
            total == self.worker_total(),
    {
        self.worker_total
    }

    /// The capacity that `run` gives each channel.
    #[verifier::when_used_as_spec(spec_queue_total)]
    pub fn queue_total(&self) -> (total: usize)
        ensures
            total == self.queue_total(),
    {
        self.queue_total
    }

    /// The workers of the pool, in the order they were started.
    pub closed spec fn lanes(&self) -> Seq<LaneState> {
        Seq::new(self.channels@.len(), |at: int| self.channels@[at].state())
    }

    /// How many events each channel holds.
    pub open spec fn lengths(&self) -> Seq<nat> {
        Seq::new(self.lanes().len(), |at: int| self.lanes()[at].items.len())
    }

    /// Every channel has the pool's capacity and holds no more than that; no
    /// worker has left its loop, and no `Stop` is under way.
    pub open spec fn wf(&self) -> bool {
        forall|at: int|
            0 <= at < self.lanes().len() ==> {
                let lane = #[trigger] self.lanes()[at];
                &&& 0 < lane.capacity == self.queue_total()
                &&& lane.items.len() <= lane.capacity
                &&& !lane.exited
                &&& forall|i: int| 0 <= i < lane.items.len() ==> lane.items[i] != Event::Stop
            }
    }

    /// How many events each channel holds, in the order of the workers.
    pub fn occupancy(&self) -> (lengths: Vec<usize>)
        ensures
            unbounded(lengths@) == self.lengths(),
    {
        let mut lengths: Vec<usize> = Vec::new();
        let mut at: usize = 0;
        while at < self.channels.len()
            invariant
                0 <= at <= self.channels@.len(),
                lengths@.len() == at,
                forall|i: int| 0 <= i < at ==> lengths@[i] == self.channels@[i].channel@.len(),
            decreases self.channels@.len() - at,
        {
            lengths.push(self.channels[at].channel.length());
            at = at + 1;
        }
        assert(unbounded(lengths@) =~= self.lengths());
        lengths
    }

    /// Submits the task `task`. It goes to the first of the channels that
    /// hold the least; the worker of that channel is woken, and the task is
    /// queued behind what the channel holds. A pool without workers turns the
    /// task down with `NoChannel` and a full channel with `Full`; the worker
    /// of a full channel is woken all the same.
    pub fn push(&mut self, task: u64) -> (outcome: Result<(), PoolError>)
        requires
            old(self).wf(),
        ensures
            final(self).wf(),
            final(self).worker_total() == old(self).worker_total(),
            final(self).queue_total() == old(self).queue_total(),
            final(self).lengths() == submitted(old(self).lengths(), old(self).queue_total() as nat),
            old(self).lanes().len() == 0 ==> outcome == Err::<(), PoolError>(PoolError::NoChannel)
                && final(self).lanes() == old(self).lanes(),
            old(self).lanes().len() > 0 ==> {
                let at = first_shortest(old(self).lengths());
                let lane = old(self).lanes()[at];
                if lane.items.len() < lane.capacity {
                    &&& outcome == Ok::<(), PoolError>(())
                    &&& final(self).lanes() == old(self).lanes().update(
                        at,
                        LaneState {
                            items: lane.items.push(Event::Task(task)),
                            raised: true,
                            ..lane
                        },
                    )
                } else {
                    &&& outcome == Err::<(), PoolError>(PoolError::Full)
                    &&& final(self).lanes() == old(self).lanes().update(
                        at,
                        LaneState { raised: true, ..lane },
                    )
                }
            },
    {
        let lengths = self.occupancy();
        match shortest(&lengths) {
            None => Err(PoolError::NoChannel),
            Some(at) => {
                proof {
                    crate::dispatch::lemma_first_shortest(old(self).lengths());
                }
                let lane = &mut self.channels[at];
                let _ = lane.signal.raise();
                let outcome = lane.channel.enqueue(Event::with_task(task));
                assert(final(self).lanes() =~= old(self).lanes().update(
                    at as int,
                    final(self).lanes()[at as int],
                ));
                assert(final(self).lengths() =~= submitted(
                    old(self).lengths(),
                    old(self).queue_total() as nat,
                ));
                outcome
            },
        }
    }

    /// A pool with one worker for each logical processor and room for 100
    /// events on each channel. It has no workers until `run` starts them.
    pub fn new() -> (pool: ThreadPool)
        ensures
            pool.wf(),
            pool.worker_total() >= 1,
            pool.queue_total() == MAX_TASK_TOTAL,
            pool.lanes() == Seq::<LaneState>::empty(),
    {
        ThreadPool::default()
    }

    /// A pool with `total` workers and room for 100 events on each channel.
    /// It has no workers until `run` starts them.
    pub fn with_worker_total(total: usize) -> (pool: ThreadPool)
        ensures
            pool.wf(),
            pool.worker_total() == total,
            pool.queue_total() == MAX_TASK_TOTAL,
            pool.lanes() == Seq::<LaneState>::empty(),
    {
        let mut pool: ThreadPool = ThreadPool::default();
        pool.worker_total = total;
        pool
    }

    /// Starts the workers: as many as were asked for, each asleep on an
    /// empty channel of the capacity asked for. They come behind the workers
    /// that an earlier call has started.
    ///
    /// A channel needs room for at least one event, and no more than
    /// `MAX_CHANNEL_TOTAL`.
    pub fn run(&mut self)
        requires
            old(self).wf(),
            0 < old(self).queue_total() <= MAX_CHANNEL_TOTAL,
        ensures
            final(self).wf(),
            final(self).worker_total() == old(self).worker_total(),
            final(self).queue_total() == old(self).queue_total(),
            final(self).lanes() == old(self).lanes() + Seq::new(
                old(self).worker_total() as nat,
                |at: int| started(old(self).queue_total() as nat),
            ),
    {
        self.build_channel();
    }

    fn build_channel(&mut self)
        requires
            old(self).wf(),
            0 < old(self).queue_total() <= MAX_CHANNEL_TOTAL,
        ensures
            final(self).wf(),
            final(self).worker_total() == old(self).worker_total(),
            final(self).queue_total() == old(self).queue_total(),
            final(self).lanes() == old(self).lanes() + Seq::new(
                old(self).worker_total() as nat,
                |at: int| started(old(self).queue_total() as nat),
            ),
    {
        let mut made: usize = 0;
        while made < self.worker_total
            invariant
                self.worker_total == old(self).worker_total,
                self.queue_total == old(self).queue_total,
                0 < self.queue_total <= MAX_CHANNEL_TOTAL,
                0 <= made <= self.worker_total,
                self.channels@.len() == old(self).channels@.len() + made,
                forall|at: int|
                    0 <= at < old(self).channels@.len() ==> self.channels@[at] == old(
                        self,
                    ).channels@[at],
                forall|at: int|
                    old(self).channels@.len() <= at < self.channels@.len()
                        ==> self.channels@[at].state() == started(self.queue_total as nat),
            decreases self.worker_total - made,
        {
            let lane = Lane::start(self.queue_total);
            self.channels.push(lane);
            made = made + 1;
        }
        assert(self.lanes() =~= old(self).lanes() + Seq::new(
            old(self).worker_total() as nat,
            |at: int| started(old(self).queue_total() as nat),
        ));
    }

    /// Gives worker `worker` one turn of its loop and says what it does. A
    /// worker that was never woken waits; a woken one takes the oldest event
    /// off its channel: a task to run, a probe to report, or nothing, in
    /// which case it polls again. Everything else in the pool stays as it is.
    pub fn turn(&mut self, worker: usize) -> (action: Action)
        requires
            old(self).wf(),
            worker < old(self).lanes().len(),
        ensures
            final(self).wf(),
            final(self).worker_total() == old(self).worker_total(),
            final(self).queue_total() == old(self).queue_total(),
            ({
                let lane = old(self).lanes()[worker as int];
                if !lane.raised {
                    action == Action::Wait && final(self).lanes() == old(self).lanes()
                } else if lane.items.len() == 0 {
                    action == Action::Spin && final(self).lanes() == old(self).lanes()
                } else {
                    &&& action == action_for(Some(lane.items.first()))
                    &&& final(self).lanes() == old(self).lanes().update(
                        worker as int,
                        LaneState {
                            items: lane.items.drop_first(),
                            status: status_after(lane.status, Some(lane.items.first())),
                            ..lane
                        },
                    )
                }
            }),
    {
        let ghost before = self.lanes()[worker as int];
        assert(before.items.len() > 0 ==> before.items.first() == before.items[0]);
        let lane = &mut self.channels[worker];
        let action = lane.worker.turn(&mut lane.channel, &lane.signal);
        proof {
            assert(final(self).lanes() =~= old(self).lanes().update(
                worker as int,
                final(self).lanes()[worker as int],
            ));
            if before.raised && before.items.len() > 0 {
                assert forall|i: int| 0 <= i < before.items.drop_first().len() implies before.items.drop_first()[i]
                    != Event::Stop by {
                    assert(before.items.drop_first()[i] == before.items[i + 1]);
                }
            } else {
                assert(final(self).lanes() =~= old(self).lanes());
            }
        }
        action
    }

    /// Stops one worker: wakes it, queues a `Stop` behind what its channel
    /// holds, giving the worker a turn where the channel is full, and waits
    /// for it to leave its loop. The result holds the tasks the worker took
    /// up on the way, in the order taken, and what was left of its share.
    fn shut_down(lane: Lane) -> (out: (Vec<u64>, Ghost<LaneState>))
        requires
            lane.channel.wf(),
            !lane.worker.exited(),
            forall|i: int| 0 <= i < lane.channel@.len() ==> lane.channel@[i] != Event::Stop,
        ensures
            out.0@ == tasks_of(lane.channel@),
            out.1@ == retired(lane.state()),
    {
        let ghost room = lane.channel.capacity();
        let mut lane = lane;
        let mut run: Vec<u64> = Vec::new();
        let ghost queued = lane.channel@;
        let mut delivered = false;
        proof {
            assert(Seq::<u64>::empty() + tasks_of(queued) == tasks_of(queued));
        }
        while !delivered
            invariant
                lane.channel.wf(),
                lane.channel.capacity() == room,
                !lane.worker.exited(),
                delivered ==> lane.signal.raised(),
                forall|i: int|
                    0 <= i < lane.channel@.len() - (if delivered {
                        1int
                    } else {
                        0int
                    }) ==> lane.channel@[i] != Event::Stop,
                delivered ==> lane.channel@.len() > 0 && lane.channel@.last() == Event::Stop,
                run@ + tasks_of(lane.channel@) == tasks_of(queued),
            decreases
                    (if delivered {
                        0int
                    } else if lane.channel@.len() < lane.channel.capacity() {
                        1int
                    } else {
                        2int
                    }),
        {
            let _ = lane.signal.raise();
            let ghost waiting = lane.channel@;
            match lane.channel.enqueue(Event::stop()) {
                Ok(_) => {
                    proof {
                        assert(lane.channel@.drop_last() == waiting);
                    }
                    delivered = true;
                },
                Err(_) => {
                    let action = lane.worker.turn(&mut lane.channel, &lane.signal);
                    proof {
                        let first = seq![waiting.first()];
                        assert(waiting == first + waiting.drop_first());
                        lemma_tasks_in_queue_order(first, waiting.drop_first());
                        assert(first.drop_last() == Seq::<Event>::empty());
                        assert(tasks_of(first.drop_last()) == Seq::<u64>::empty());
                        assert forall|i: int| 0 <= i < waiting.drop_first().len() implies waiting.drop_first()[i]
                            != Event::Stop by {
                            assert(waiting.drop_first()[i] == waiting[i + 1]);
                        }
                        assert(waiting.first() == waiting[0]);
                    }
                    if let Action::Run(task) = action {
                        let ghost earlier = run@;
                        run.push(task);
                        assert(run@ + tasks_of(lane.channel@) == tasks_of(queued)) by {
                            assert(tasks_of(seq![waiting.first()]) == seq![task]);
                            assert(run@ == earlier + seq![task]);
                            assert((earlier + seq![task]) + tasks_of(lane.channel@) == earlier + (
                            seq![task] + tasks_of(lane.channel@)));
                        }
                    } else {
                        assert(tasks_of(seq![waiting.first()]) == Seq::<u64>::empty());
                        assert(Seq::<u64>::empty() + tasks_of(lane.channel@) == tasks_of(
                            lane.channel@,
                        ));
                    }
                },
            }
        }
        let ghost ahead = lane.channel@.drop_last();
        proof {
            lemma_first_stop(lane.channel@, ahead.len() as int);
            assert(lane.channel@.take(ahead.len() as int) == ahead);
        }
        let Lane { mut channel, worker, signal } = lane;
        let (mut rest, Ghost(last)) = worker.join(&mut channel, &signal);
        run.append(&mut rest);
        let ghost left = Lane { channel, worker: last, signal }.state();
        assert(left.items =~= Seq::<Event>::empty());
        (run, Ghost(left))
    }

    /// Shuts the pool down: stops the workers one after another, in the
    /// order they were started, and returns when all have left their loops.
    /// Each worker first takes up every task that its channel still holds.
    /// The result names, for each worker, the tasks it took up during the
    /// shutdown, in the order taken: they are the tasks that were waiting on
    /// its channel, oldest first. Beside them stands the pool's last state:
    /// every channel empty, every worker out of its loop.
    pub fn join_all(self) -> (out: (Vec<Vec<u64>>, Ghost<Seq<LaneState>>))
        requires
            self.wf(),
        ensures
            out.0@.len() == self.lanes().len(),
            out.1@.len() == self.lanes().len(),
            forall|at: int|
                0 <= at < self.lanes().len() ==> (#[trigger] out.0@[at])@ == tasks_of(
                    self.lanes()[at].items,
                ),
            forall|at: int|
                0 <= at < self.lanes().len() ==> (#[trigger] out.1@[at]) == retired(
                    self.lanes()[at],
                ),
    {
        let ghost lanes = self.lanes();
        let ghost mut last: Seq<LaneState> = Seq::empty();
        let mut channels = self.channels;
        let ghost all = channels@;
        let mut run: Vec<Vec<u64>> = Vec::new();
        while channels.len() > 0
            invariant
                lanes.len() == all.len(),
                forall|at: int| 0 <= at < all.len() ==> lanes[at] == (#[trigger] all[at]).state(),
                forall|at: int|
                    0 <= at < lanes.len() ==> {
                        let lane = #[trigger] lanes[at];
                        &&& 0 < lane.capacity
                        &&& lane.items.len() <= lane.capacity
                        &&& !lane.exited
                        &&& forall|i: int|
                            0 <= i < lane.items.len() ==> lane.items[i] != Event::Stop
                    },
                run@.len() + channels@.len() == all.len(),
                channels@ == all.skip(run@.len() as int),
                last.len() == run@.len(),
                forall|at: int|
                    0 <= at < run@.len() ==> (#[trigger] run@[at])@ == tasks_of(lanes[at].items),
                forall|at: int| 0 <= at < run@.len() ==> (#[trigger] last[at]) == retired(lanes[at]),
            decreases channels@.len(),
        {
            let ghost at = run@.len() as int;
            assert(channels@[0] == all[at]);
            assert(lanes[at] == all[at].state());
            let lane = channels.remove(0);
            let (taken, Ghost(left)) = ThreadPool::shut_down(lane);
            run.push(taken);
            proof {
                last = last.push(left);
            }
            assert(channels@ == all.skip(at + 1));
        }
        (run, Ghost(last))
    }
}

impl Default for ThreadPool {
    /// A pool with one worker for each logical processor and room for 100
    /// events on each channel.
    fn default() -> (pool: ThreadPool)
        ensures
            pool.wf(),
            pool.worker_total() >= 1,
            pool.queue_total() == MAX_TASK_TOTAL,
            pool.lanes() == Seq::<LaneState>::empty(),
    {
        let pool = ThreadPool {
            worker_total: logical_cpus(),
            channels: Vec::new(),
            queue_total: MAX_TASK_TOTAL,
        };
        assert(pool.lanes() =~= Seq::<LaneState>::empty());
        pool
    }
}

} // verus!
