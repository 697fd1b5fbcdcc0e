use feed_data::hub::BroadcastHub;

fn drain(hub: &mut BroadcastHub, sub: &feed_data::hub::Subscription) -> Vec<String> {
    let mut out: Vec<String> = Vec::new();
    while let Some(m) = hub.pop_next(sub) {
        out.push(m);
    }
    out
}

#[test]
fn subscriber_sees_only_the_suffix_after_creation() {
    let mut hub = BroadcastHub::new(8);
    let early = hub.subscribe();
    hub.publish("m1");
    hub.publish("m2");
    let late = hub.subscribe();
    hub.publish("m3");
    assert_eq!(drain(&mut hub, &early), vec!["m1".to_string(), "m2".to_string(), "m3".to_string()]);
    assert_eq!(drain(&mut hub, &late), vec!["m3".to_string()]);
}

#[test]
fn interleaved_subscriptions_each_get_their_own_suffix_in_order() {
    let mut hub = BroadcastHub::new(16);
    let a = hub.subscribe();
    hub.publish("p1");
    let b = hub.subscribe();
    hub.publish("p2");
    let c = hub.subscribe();
    hub.publish("p3");
    hub.publish("p4");
    assert_eq!(
        drain(&mut hub, &a),
        vec!["p1".to_string(), "p2".to_string(), "p3".to_string(), "p4".to_string()]
    );
    assert_eq!(
        drain(&mut hub, &b),
        vec!["p2".to_string(), "p3".to_string(), "p4".to_string()]
    );
    assert_eq!(drain(&mut hub, &c), vec!["p3".to_string(), "p4".to_string()]);
}

#[test]
fn drop_oldest_overflow_keeps_the_newest_two() {
    let mut hub = BroadcastHub::new(2);
    let slow = hub.subscribe();
    hub.publish("a");
    hub.publish("b");
    hub.publish("c");
    assert_eq!(drain(&mut hub, &slow), vec!["b".to_string(), "c".to_string()]);
    assert_eq!(hub.dropped, 1);
}

#[test]
fn one_slow_subscriber_does_not_disturb_a_draining_one() {
    let mut hub = BroadcastHub::new(2);
    let slow = hub.subscribe();
    let fast = hub.subscribe();
    hub.publish("a");
    assert_eq!(hub.pop_next(&fast), Some("a".to_string()));
    hub.publish("b");
    assert_eq!(hub.pop_next(&fast), Some("b".to_string()));
    hub.publish("c");
    assert_eq!(hub.pop_next(&fast), Some("c".to_string()));
    assert_eq!(drain(&mut hub, &slow), vec!["b".to_string(), "c".to_string()]);
    assert_eq!(hub.dropped, 1);
}

#[test]
fn unsubscribe_twice_is_a_no_op_and_never_an_error() {
    let mut hub = BroadcastHub::new(4);
    let a = hub.subscribe();
    let b = hub.subscribe();
    hub.publish("x");
    hub.unsubscribe(&a);
    hub.unsubscribe(&a);
    assert_eq!(hub.pop_next(&a), None);
    hub.publish("y");
    assert_eq!(drain(&mut hub, &b), vec!["x".to_string(), "y".to_string()]);
    hub.unsubscribe(&b);
    hub.unsubscribe(&b);
    hub.unsubscribe(&a);
}

#[test]
fn pop_on_empty_or_unknown_subscription_returns_none() {
    let mut hub = BroadcastHub::new(4);
    let a = hub.subscribe();
    assert_eq!(hub.pop_next(&a), None);
    hub.unsubscribe(&a);
    assert_eq!(hub.pop_next(&a), None);
}

#[test]
fn publish_with_no_subscribers_is_absorbed() {
    let mut hub = BroadcastHub::new(4);
    hub.publish("nobody listens");
    let late = hub.subscribe();
    assert_eq!(hub.pop_next(&late), None);
    assert_eq!(hub.dropped, 0);
}
