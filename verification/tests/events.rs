use kikan::events::{published_count, FanoutChannel, DEFAULT_CAPACITY};
use tokio::sync::broadcast::error::TryRecvError;

#[test]
fn fanout_channel_publish_reaches_subscriber() {
    let ch = FanoutChannel::<u32>::with_capacity(8);
    let mut rx = ch.subscribe();
    let delivered = ch.publish(42);
    assert_eq!(delivered, 1);
    assert_eq!(rx.try_recv().unwrap(), 42);
}

#[test]
fn fanout_channel_multiple_subscribers_each_receive() {
    let ch = FanoutChannel::<u32>::with_capacity(8);
    let mut rx_a = ch.subscribe();
    let mut rx_b = ch.subscribe();
    let delivered = ch.publish(7);
    assert_eq!(delivered, 2);
    assert_eq!(rx_a.try_recv().unwrap(), 7);
    assert_eq!(rx_b.try_recv().unwrap(), 7);
}

#[test]
fn fanout_channel_with_no_subscribers_returns_zero() {
    let ch = FanoutChannel::<u32>::with_capacity(8);
    assert_eq!(ch.publish(1), 0);
    assert_eq!(ch.receiver_count(), 0);
}

#[test]
fn fanout_channel_lagged_receiver_still_gets_new_events() {
    let ch = FanoutChannel::<u32>::with_capacity(2);
    let mut rx = ch.subscribe();
    for i in 0..5 {
        ch.publish(i);
    }
    match rx.try_recv() {
        Err(TryRecvError::Lagged(_)) => {}
        other => panic!("expected Lagged, got {other:?}"),
    }
    while rx.try_recv().is_ok() {}
    ch.publish(99);
    assert_eq!(rx.try_recv().unwrap(), 99);
}

#[test]
fn fanout_channel_counts_subscriptions() {
    let ch = FanoutChannel::<String>::with_capacity(DEFAULT_CAPACITY);
    let rx1 = ch.subscribe();
    let _rx2 = ch.subscribe();
    assert_eq!(ch.receiver_count(), 2);
    drop(rx1);
    assert_eq!(ch.receiver_count(), 1);
    assert_eq!(ch.publish("x".to_string()), 1);
}

#[test]
fn published_count_of_send_outcome() {
    assert_eq!(published_count(Some(3)), 3);
    assert_eq!(published_count(None), 0);
}

#[test]
fn publish_without_subscriber_returns_zero() {
    let ch = FanoutChannel::<u32>::with_capacity(8);
    assert_eq!(ch.publish(7), 0);
}
