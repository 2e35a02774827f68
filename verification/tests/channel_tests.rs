use thread_pool::channel::Channel;
use thread_pool::channel::PoolError;
use thread_pool::event::Event;
use thread_pool::signal::WakeSignal;

#[test]
fn event_constructors_give_their_variants() {
    assert_eq!(Event::with_task(7), Event::Task(7));
    assert_eq!(Event::stop(), Event::Stop);
    assert_eq!(Event::debug(), Event::Debug);
    assert_ne!(Event::with_task(7), Event::with_task(8));
}

#[test]
fn event_describe_gives_the_diagnostic_text() {
    assert_eq!(Event::stop().describe(), "event stop");
    assert_eq!(Event::with_task(42).describe(), "event task");
    assert_eq!(Event::debug().describe(), "event debug");
}

#[test]
fn new_channel_is_empty() {
    let mut channel = Channel::new(3);
    assert_eq!(channel.length(), 0);
    assert_eq!(channel.dequeue(), None);
    assert_eq!(channel.length(), 0);
}

#[test]
fn channel_is_first_in_first_out() {
    let mut channel = Channel::new(4);
    assert_eq!(channel.enqueue(Event::with_task(10)), Ok(()));
    assert_eq!(channel.enqueue(Event::debug()), Ok(()));
    assert_eq!(channel.enqueue(Event::with_task(20)), Ok(()));
    assert_eq!(channel.enqueue(Event::stop()), Ok(()));
    assert_eq!(channel.length(), 4);
    assert_eq!(channel.dequeue(), Some(Event::Task(10)));
    assert_eq!(channel.dequeue(), Some(Event::Debug));
    assert_eq!(channel.length(), 2);
    assert_eq!(channel.dequeue(), Some(Event::Task(20)));
    assert_eq!(channel.dequeue(), Some(Event::Stop));
    assert_eq!(channel.dequeue(), None);
}

#[test]
fn enqueue_beyond_capacity_fails_with_full() {
    let mut channel = Channel::new(3);
    assert_eq!(channel.enqueue(Event::with_task(1)), Ok(()));
    assert_eq!(channel.enqueue(Event::with_task(2)), Ok(()));
    assert_eq!(channel.enqueue(Event::with_task(3)), Ok(()));
    assert_eq!(channel.enqueue(Event::with_task(4)), Err(PoolError::Full));
    assert_eq!(channel.enqueue(Event::with_task(5)), Err(PoolError::Full));
    assert_eq!(channel.length(), 3);
    assert_eq!(channel.dequeue(), Some(Event::Task(1)));
    assert_eq!(channel.dequeue(), Some(Event::Task(2)));
    assert_eq!(channel.dequeue(), Some(Event::Task(3)));
    assert_eq!(channel.dequeue(), None);
}

#[test]
fn channel_of_one_has_room_again_after_a_dequeue() {
    let mut channel = Channel::new(1);
    assert_eq!(channel.enqueue(Event::with_task(1)), Ok(()));
    assert_eq!(channel.enqueue(Event::with_task(2)), Err(PoolError::Full));
    assert_eq!(channel.dequeue(), Some(Event::Task(1)));
    assert_eq!(channel.enqueue(Event::with_task(2)), Ok(()));
    assert_eq!(channel.length(), 1);
    assert_eq!(channel.dequeue(), Some(Event::Task(2)));
}

#[test]
fn channel_keeps_order_across_wrap_around() {
    let mut channel = Channel::new(2);
    let mut next: u64 = 0;
    let mut expected: u64 = 0;
    for _ in 0..5 {
        assert_eq!(channel.enqueue(Event::with_task(next)), Ok(()));
        next += 1;
        assert_eq!(channel.enqueue(Event::with_task(next)), Ok(()));
        next += 1;
        assert_eq!(channel.enqueue(Event::with_task(99)), Err(PoolError::Full));
        assert_eq!(channel.dequeue(), Some(Event::Task(expected)));
        expected += 1;
        assert_eq!(channel.dequeue(), Some(Event::Task(expected)));
        expected += 1;
        assert_eq!(channel.length(), 0);
    }
}

#[test]
fn signal_starts_lowered_and_latches() {
    let mut signal = WakeSignal::new();
    assert!(!signal.is_raised());
    assert!(signal.raise());
    assert!(signal.is_raised());
    assert!(!signal.raise());
    assert!(signal.is_raised());
}

#[test]
fn pool_error_messages() {
    assert_eq!(PoolError::Full.message(), "pushing into a full queue");
    assert_eq!(PoolError::NoChannel.message(), "not found a channel to push");
    assert_ne!(PoolError::Full, PoolError::NoChannel);
}
