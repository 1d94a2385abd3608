use wall_sync::delivery::{retry_delay, Delivery, DeliveryAction};

fn is(a: &DeliveryAction, b: &DeliveryAction) -> bool {
    match (a, b) {
        (DeliveryAction::Delivered(x), DeliveryAction::Delivered(y)) => x == y,
        (DeliveryAction::Wait(x), DeliveryAction::Wait(y)) => x == y,
        (DeliveryAction::Failed(x), DeliveryAction::Failed(y)) => x == y,
        (DeliveryAction::GaveUp, DeliveryAction::GaveUp) => true,
        _ => false,
    }
}

#[test]
fn rate_limit_waits_given_seconds_once() {
    let mut d = Delivery::new(102, None);
    let waits: Vec<u64> = [(429u16, Some(3i64)), (200, None)]
        .iter()
        .filter_map(|(s, r)| match d.on_response(*s, *r) {
            DeliveryAction::Wait(n) => Some(n),
            _ => None,
        })
        .collect();
    assert_eq!(waits, vec![3]);
}

#[test]
fn rate_limit_without_retry_after_waits_five() {
    let mut d = Delivery::new(102, None);
    assert!(is(&d.on_response(429, None), &DeliveryAction::Wait(5)));
    assert_eq!(retry_delay(None), 5);
    assert_eq!(retry_delay(Some(-4)), 5);
    assert_eq!(retry_delay(Some(0)), 0);
}

#[test]
fn success_returns_timestamp() {
    let mut d = Delivery::new(108, None);
    assert!(is(&d.on_response(200, None), &DeliveryAction::Delivered(108)));
}

#[test]
fn other_status_fails() {
    let mut d = Delivery::new(108, None);
    assert!(is(&d.on_response(400, None), &DeliveryAction::Failed(400)));
    assert!(is(&d.on_response(500, Some(3)), &DeliveryAction::Failed(500)));
}

#[test]
fn retry_limit_gives_up() {
    let mut d = Delivery::new(1, Some(2));
    assert!(is(&d.on_response(429, Some(1)), &DeliveryAction::Wait(1)));
    assert!(is(&d.on_response(429, Some(1)), &DeliveryAction::Wait(1)));
    assert!(is(&d.on_response(429, Some(1)), &DeliveryAction::GaveUp));
    assert_eq!(d.retries, 2);
}

#[test]
fn unbounded_retries_never_give_up() {
    let mut d = Delivery::new(1, None);
    for _ in 0..100 {
        assert!(is(&d.on_response(429, Some(2)), &DeliveryAction::Wait(2)));
    }
}
