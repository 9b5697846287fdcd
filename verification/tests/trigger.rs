use overbot::trigger::FireOutcome;
use overbot::trigger::ObserverState;
use overbot::trigger::ShutdownTrigger;
use tokio::sync::broadcast::error::TryRecvError;

#[test]
fn fire_without_observers_is_no_failure() {
    let mut trigger = ShutdownTrigger::new();
    assert!(!trigger.is_fired());
    assert_eq!(trigger.shutdown(), FireOutcome::NoObservers);
    assert!(trigger.is_fired());
    assert_eq!(trigger.shutdown(), FireOutcome::NoObservers);
    assert_eq!(trigger.observer_count(), 0);
}

#[test]
fn fire_counts_the_waiting_observers() {
    let mut trigger = ShutdownTrigger::new();
    let first = trigger.receiver().observer;
    assert_eq!(first.id(), 0);
    assert_eq!(trigger.shutdown(), FireOutcome::Notified(1));

    let mut many = ShutdownTrigger::new();
    let mut observers = Vec::new();
    for _ in 0..5 {
        observers.push(many.receiver().observer);
    }
    assert_eq!(many.observer_count(), 5);
    assert_eq!(many.shutdown(), FireOutcome::Notified(5));
    for observer in observers {
        assert_eq!(many.state_of(observer), Some(ObserverState::Pending));
    }
}

#[test]
fn firing_twice_is_firing_once() {
    let mut trigger = ShutdownTrigger::new();
    let a = trigger.receiver().observer;
    let b = trigger.receiver().observer;
    assert_eq!(trigger.shutdown(), FireOutcome::Notified(2));
    assert!(trigger.poll(a));
    assert_eq!(trigger.shutdown(), FireOutcome::Notified(2));
    assert_eq!(trigger.shutdown(), FireOutcome::Notified(2));
    assert_eq!(trigger.state_of(a), Some(ObserverState::Notified));
    assert_eq!(trigger.state_of(b), Some(ObserverState::Pending));
    assert!(!trigger.poll(a));
    assert!(trigger.poll(b));
    assert!(!trigger.poll(b));
}

#[test]
fn every_observer_is_notified_exactly_once() {
    let mut trigger = ShutdownTrigger::new();
    let early = trigger.receiver().observer;
    assert!(!trigger.poll(early));
    assert_eq!(trigger.state_of(early), Some(ObserverState::Waiting));
    trigger.shutdown();
    let during = trigger.receiver().observer;
    trigger.shutdown();
    let late = trigger.receiver().observer;
    trigger.shutdown();
    for observer in [early, during, late] {
        let mut notifications = 0;
        for _ in 0..4 {
            if trigger.poll(observer) {
                notifications += 1;
            }
            trigger.shutdown();
        }
        assert_eq!(notifications, 1);
        assert_eq!(trigger.state_of(observer), Some(ObserverState::Notified));
    }
}

#[test]
fn late_subscriber_sees_shutdown_at_once() {
    let mut trigger = ShutdownTrigger::new();
    trigger.shutdown();
    let late = trigger.receiver().observer;
    assert_eq!(trigger.state_of(late), Some(ObserverState::Pending));
    assert!(trigger.poll(late));
}

#[test]
fn unknown_observer_is_never_notified() {
    let mut one = ShutdownTrigger::new();
    let mut other = ShutdownTrigger::new();
    other.receiver();
    let stranger = other.receiver().observer;
    one.receiver();
    one.shutdown();
    assert_eq!(stranger.id(), 1);
    assert_eq!(one.state_of(stranger), None);
    assert!(!one.poll(stranger));
}

#[test]
fn waiting_observers_are_woken_when_shutdown_is_requested() {
    let mut trigger = ShutdownTrigger::new();
    let mut first = trigger.receiver();
    let mut second = trigger.receiver();
    assert_eq!(first.wake.try_recv(), Err(TryRecvError::Empty));
    assert_eq!(trigger.shutdown(), FireOutcome::Notified(2));
    assert_eq!(first.wake.try_recv(), Ok(()));
    assert_eq!(second.wake.try_recv(), Ok(()));
    assert!(trigger.poll(first.observer));
    assert!(trigger.poll(second.observer));
    // Nobody is waiting any more, so nobody is woken again.
    assert_eq!(trigger.shutdown(), FireOutcome::Notified(2));
    assert_eq!(first.wake.try_recv(), Err(TryRecvError::Empty));
    // A late subscriber needs no wake-up: its notification is pending.
    let mut late = trigger.receiver();
    assert_eq!(late.wake.try_recv(), Err(TryRecvError::Empty));
    assert!(trigger.poll(late.observer));
}

#[test]
fn repeated_request_reports_the_observers_there_are() {
    let mut trigger = ShutdownTrigger::new();
    assert_eq!(trigger.shutdown(), FireOutcome::NoObservers);
    let mut between = trigger.receiver();
    assert_eq!(trigger.shutdown(), FireOutcome::Notified(1));
    let after = trigger.receiver();
    assert_eq!(trigger.shutdown(), FireOutcome::Notified(2));
    // The observer that subscribed between two requests is notified once.
    assert!(trigger.poll(between.observer));
    assert!(!trigger.poll(between.observer));
    assert_eq!(trigger.shutdown(), FireOutcome::Notified(2));
    assert!(!trigger.poll(between.observer));
    assert!(trigger.poll(after.observer));
    // Nobody was waiting at any request, so no wake-up went out.
    assert_eq!(between.wake.try_recv(), Err(TryRecvError::Empty));
}

#[test]
fn one_wake_up_goes_out_however_often_shutdown_is_requested() {
    let mut trigger = ShutdownTrigger::new();
    let mut waiting = trigger.receiver();
    for _ in 0..3 {
        trigger.shutdown();
    }
    assert_eq!(waiting.wake.try_recv(), Ok(()));
    assert_eq!(waiting.wake.try_recv(), Err(TryRecvError::Empty));
}
