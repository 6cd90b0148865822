use video_queue::gate::AdmissionGate;

#[test]
fn permits_are_issued_up_to_the_limit() {
    let mut gate = AdmissionGate::new(2);
    assert_eq!(gate.limit(), 2);
    assert_eq!(gate.issued(), 0);
    assert_eq!(gate.try_acquire(), Some(0));
    assert_eq!(gate.try_acquire(), Some(1));
    assert_eq!(gate.try_acquire(), None);
    assert_eq!(gate.issued(), 2);
}

#[test]
fn released_slots_are_used_again_lowest_first() {
    let mut gate = AdmissionGate::new(3);
    assert_eq!(gate.try_acquire(), Some(0));
    assert_eq!(gate.try_acquire(), Some(1));
    assert_eq!(gate.try_acquire(), Some(2));
    gate.release(1);
    assert_eq!(gate.issued(), 2);
    gate.release(0);
    assert_eq!(gate.issued(), 1);
    assert_eq!(gate.try_acquire(), Some(0));
    assert_eq!(gate.try_acquire(), Some(1));
    assert_eq!(gate.try_acquire(), None);
}

#[test]
fn release_of_what_is_not_out_changes_nothing() {
    let mut gate = AdmissionGate::new(2);
    gate.release(0);
    gate.release(17);
    assert_eq!(gate.issued(), 0);
    assert_eq!(gate.try_acquire(), Some(0));
    gate.release(0);
    gate.release(0);
    assert_eq!(gate.issued(), 0);
    assert_eq!(gate.try_acquire(), Some(0));
    assert_eq!(gate.try_acquire(), Some(1));
    assert_eq!(gate.issued(), 2);
}

#[test]
fn replacing_the_limit_starts_a_fresh_count() {
    let mut gate = AdmissionGate::new(1);
    assert_eq!(gate.try_acquire(), Some(0));
    assert_eq!(gate.try_acquire(), None);
    gate.replace(2);
    assert_eq!(gate.limit(), 2);
    assert_eq!(gate.issued(), 0);
    assert_eq!(gate.try_acquire(), Some(1));
    assert_eq!(gate.try_acquire(), Some(2));
    assert_eq!(gate.try_acquire(), None);
    gate.release(0);
    assert_eq!(gate.issued(), 2);
    assert_eq!(gate.try_acquire(), None);
    gate.release(2);
    assert_eq!(gate.issued(), 1);
    assert_eq!(gate.try_acquire(), Some(0));
    gate.replace(0);
    assert_eq!(gate.issued(), 0);
    assert_eq!(gate.try_acquire(), None);
}
