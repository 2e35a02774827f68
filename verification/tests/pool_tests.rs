use thread_pool::channel::PoolError;
use thread_pool::channel::MAX_CHANNEL_TOTAL;
use thread_pool::pool::Builder;
use thread_pool::pool::ThreadPool;
use thread_pool::pool::MAX_TASK_TOTAL;
use thread_pool::worker::Action;

fn pool_of(workers: usize, room: usize) -> ThreadPool {
    let mut pool = Builder::default().with_worker_total(workers).with_channel_total(room).build();
    pool.run();
    pool
}

#[test]
fn builder_defaults() {
    let builder = Builder::default();
    assert!(builder.worker_total() >= 1);
    assert_eq!(builder.channel_total(), 100);
    assert_eq!(MAX_TASK_TOTAL, 100);
}

#[test]
fn builder_setters_are_independent() {
    let builder = Builder::default().with_worker_total(4);
    assert_eq!(builder.worker_total(), 4);
    assert_eq!(builder.channel_total(), 100);
    let builder = builder.with_channel_total(7);
    assert_eq!(builder.worker_total(), 4);
    assert_eq!(builder.channel_total(), 7);
    let builder = builder.with_worker_total(0);
    assert_eq!(builder.worker_total(), 0);
    assert_eq!(builder.channel_total(), 7);
}

#[test]
fn build_gives_a_pool_without_workers() {
    let pool = Builder::default().with_worker_total(3).with_channel_total(5).build();
    assert_eq!(pool.worker_total(), 3);
    assert_eq!(pool.queue_total(), 5);
    assert_eq!(pool.occupancy(), Vec::<usize>::new());
}

#[test]
fn new_pool_has_the_defaults() {
    let pool = ThreadPool::new();
    assert!(pool.worker_total() >= 1);
    assert_eq!(pool.queue_total(), 100);
    assert!(pool.queue_total() <= MAX_CHANNEL_TOTAL);
    assert_eq!(pool.occupancy(), Vec::<usize>::new());
    let pool = ThreadPool::default();
    assert!(pool.worker_total() >= 1);
    assert_eq!(pool.queue_total(), 100);
}

#[test]
fn pool_with_worker_total_keeps_the_default_room() {
    let mut pool = ThreadPool::with_worker_total(2);
    assert_eq!(pool.worker_total(), 2);
    assert_eq!(pool.queue_total(), 100);
    pool.run();
    assert_eq!(pool.occupancy(), vec![0, 0]);
}

#[test]
fn run_starts_one_sleeping_worker_per_channel() {
    let mut pool = pool_of(3, 2);
    assert_eq!(pool.occupancy(), vec![0, 0, 0]);
    assert_eq!(pool.turn(0), Action::Wait);
    assert_eq!(pool.turn(1), Action::Wait);
    assert_eq!(pool.turn(2), Action::Wait);
}

#[test]
fn run_with_default_workers_starts_at_least_one() {
    let mut pool = ThreadPool::new();
    let workers = pool.worker_total();
    pool.run();
    assert_eq!(pool.occupancy().len(), workers);
    assert!(pool.occupancy().len() >= 1);
}

#[test]
fn run_again_adds_workers_behind() {
    let mut pool = pool_of(2, 2);
    assert_eq!(pool.push(1), Ok(()));
    pool.run();
    assert_eq!(pool.occupancy(), vec![1, 0, 0, 0]);
}

#[test]
fn run_without_workers_leaves_no_channel() {
    let mut pool = pool_of(0, 4);
    assert_eq!(pool.occupancy(), Vec::<usize>::new());
    assert_eq!(pool.push(1), Err(PoolError::NoChannel));
    assert_eq!(pool.join_all().0, Vec::<Vec<u64>>::new());
}

#[test]
fn three_tasks_on_two_workers_run_once_each() {
    let mut pool = pool_of(2, 2);
    assert_eq!(pool.push(1), Ok(()));
    assert_eq!(pool.push(2), Ok(()));
    assert_eq!(pool.push(3), Ok(()));
    assert_eq!(pool.occupancy(), vec![2, 1]);
    let (run, _) = pool.join_all();
    assert_eq!(run, vec![vec![1, 3], vec![2]]);
    let mut counter = 0;
    let mut seen = vec![0, 0, 0];
    for tasks in run.iter() {
        for task in tasks.iter() {
            counter += 1;
            seen[(*task - 1) as usize] += 1;
        }
    }
    assert_eq!(counter, 3);
    assert_eq!(seen, vec![1, 1, 1]);
}

#[test]
fn second_push_on_single_slot_fails_until_first_is_taken() {
    let mut pool = pool_of(1, 1);
    assert_eq!(pool.push(1), Ok(()));
    assert_eq!(pool.push(2), Err(PoolError::Full));
    assert_eq!(pool.occupancy(), vec![1]);
    assert_eq!(pool.turn(0), Action::Run(1));
    assert_eq!(pool.occupancy(), vec![0]);
    assert_eq!(pool.push(2), Ok(()));
    assert_eq!(pool.join_all().0, vec![vec![2]]);
}

#[test]
fn push_before_run_fails_with_no_channel() {
    let mut pool = Builder::default().with_worker_total(3).with_channel_total(100).build();
    assert_eq!(pool.push(1), Err(PoolError::NoChannel));
    assert_eq!(pool.occupancy(), Vec::<usize>::new());
}

#[test]
fn other_workers_stay_responsive_when_one_dies() {
    let mut pool = pool_of(2, 2);
    assert_eq!(pool.push(1), Ok(()));
    assert_eq!(pool.turn(0), Action::Run(1));
    // Worker 0 dies running task 1 and takes no further turn.
    assert_eq!(pool.push(2), Ok(()));
    assert_eq!(pool.push(3), Ok(()));
    assert_eq!(pool.occupancy(), vec![1, 1]);
    assert_eq!(pool.turn(1), Action::Run(3));
    assert_eq!(pool.push(4), Ok(()));
    assert_eq!(pool.turn(1), Action::Run(4));
    // The dead worker's channel still takes tasks until it is full.
    assert_eq!(pool.push(5), Ok(()));
    assert_eq!(pool.push(6), Ok(()));
    assert_eq!(pool.occupancy(), vec![2, 1]);
    assert_eq!(pool.turn(1), Action::Run(5));
    assert_eq!(pool.push(7), Ok(()));
    assert_eq!(pool.turn(1), Action::Run(7));
    assert_eq!(pool.occupancy(), vec![2, 0]);
}

#[test]
fn push_goes_to_the_first_shortest_channel() {
    let mut pool = pool_of(3, 4);
    for task in 0..7 {
        assert_eq!(pool.push(task), Ok(()));
    }
    assert_eq!(pool.occupancy(), vec![3, 2, 2]);
    assert_eq!(pool.turn(0), Action::Run(0));
    assert_eq!(pool.turn(0), Action::Run(3));
    assert_eq!(pool.occupancy(), vec![1, 2, 2]);
    assert_eq!(pool.push(7), Ok(()));
    assert_eq!(pool.push(8), Ok(()));
    assert_eq!(pool.occupancy(), vec![3, 2, 2]);
    assert_eq!(pool.join_all().0, vec![vec![6, 7, 8], vec![1, 4], vec![2, 5]]);
}

#[test]
fn occupancy_stays_within_the_balanced_share() {
    let workers = 4;
    let mut pool = pool_of(workers, 10);
    for task in 0..18u64 {
        assert_eq!(pool.push(task), Ok(()));
        let submitted = (task + 1) as usize;
        let share = (submitted + workers - 1) / workers;
        for length in pool.occupancy() {
            assert!(length <= share);
        }
    }
    assert_eq!(pool.occupancy(), vec![5, 5, 4, 4]);
}

#[test]
fn push_wakes_only_the_chosen_worker() {
    let mut pool = pool_of(2, 2);
    assert_eq!(pool.push(1), Ok(()));
    assert_eq!(pool.turn(1), Action::Wait);
    assert_eq!(pool.turn(0), Action::Run(1));
    assert_eq!(pool.turn(0), Action::Spin);
    assert_eq!(pool.turn(1), Action::Wait);
}

#[test]
fn full_pool_turns_tasks_down_and_keeps_what_it_holds() {
    let mut pool = pool_of(2, 1);
    assert_eq!(pool.push(1), Ok(()));
    assert_eq!(pool.push(2), Ok(()));
    assert_eq!(pool.push(3), Err(PoolError::Full));
    assert_eq!(pool.push(4), Err(PoolError::Full));
    assert_eq!(pool.occupancy(), vec![1, 1]);
    assert_eq!(pool.join_all().0, vec![vec![1], vec![2]]);
}

#[test]
fn join_all_drains_full_channels() {
    let mut pool = pool_of(1, 2);
    assert_eq!(pool.push(1), Ok(()));
    assert_eq!(pool.push(2), Ok(()));
    assert_eq!(pool.push(3), Err(PoolError::Full));
    assert_eq!(pool.join_all().0, vec![vec![1, 2]]);
}

#[test]
fn join_all_of_idle_workers_runs_nothing() {
    let pool = pool_of(3, 1);
    assert_eq!(pool.join_all().0, vec![Vec::<u64>::new(), Vec::new(), Vec::new()]);
}

#[test]
fn join_all_leaves_out_what_was_taken_before() {
    let mut pool = pool_of(2, 3);
    for task in 1..=6 {
        assert_eq!(pool.push(task), Ok(()));
    }
    assert_eq!(pool.turn(0), Action::Run(1));
    assert_eq!(pool.turn(1), Action::Run(2));
    assert_eq!(pool.turn(1), Action::Run(4));
    assert_eq!(pool.join_all().0, vec![vec![3, 5], vec![6]]);
}
