use supervisor::mode::{Mode, ModeCell, ModePred};

#[test]
fn encode_decode_round_trip() {
    assert_eq!(Mode::decode(Mode::Once.encode()), Some(Mode::Once));
    assert_eq!(Mode::decode(Mode::Repeat.encode()), Some(Mode::Repeat));
    assert_eq!(Mode::decode(Mode::Stop.encode()), Some(Mode::Stop));
}

#[test]
fn decode_rejects_out_of_range() {
    assert_eq!(Mode::decode(3), None);
    assert_eq!(Mode::decode(u32::MAX), None);
}

#[test]
fn send_same_mode_is_idempotent() {
    let mut cell = ModeCell::new(Mode::Once);
    cell.send(Mode::Once);
    assert_eq!(cell.mode, Mode::Once);
    assert!(!cell.pending, "re-sending the active mode must not raise a wakeup");
    // A waiter blocked on an unrelated predicate sees no change either.
    let before = cell.poll_wait(ModePred::is_stop());
    assert_eq!(before, None);
    cell.send(Mode::Once);
    assert_eq!(cell.poll_wait(ModePred::is_stop()), None);
    assert!(!cell.pending);
}

#[test]
fn send_change_raises_wakeup() {
    let mut cell = ModeCell::new(Mode::Once);
    cell.send(Mode::Stop);
    assert_eq!(cell.mode, Mode::Stop);
    assert!(cell.pending);
}

#[test]
fn compare_exchange_succeeds_only_on_once() {
    let mut cell = ModeCell::new(Mode::Once);
    assert_eq!(cell.compair_exchange(Mode::Once, Mode::Stop), Mode::Stop);
    assert_eq!(cell.get(), Mode::Stop);

    let mut repeat_cell = ModeCell::new(Mode::Repeat);
    assert_eq!(repeat_cell.compair_exchange(Mode::Once, Mode::Stop), Mode::Repeat);
    assert_eq!(repeat_cell.get(), Mode::Repeat);

    let mut stop_cell = ModeCell::new(Mode::Stop);
    assert_eq!(stop_cell.compair_exchange(Mode::Once, Mode::Stop), Mode::Stop);
    assert_eq!(stop_cell.get(), Mode::Stop);
    assert!(!stop_cell.pending, "a failed swap must not notify");
}

#[test]
fn wait_returns_only_satisfying_values() {
    let mut cell = ModeCell::new(Mode::Stop);
    assert_eq!(cell.poll_wait(ModePred::not_stop()), None);
    cell.send(Mode::Repeat);
    assert!(cell.pending, "the change around the parked waiter is not lost");
    assert_eq!(cell.poll_wait(ModePred::not_stop()), Some(Mode::Repeat));
}

#[test]
fn wait_consumes_stored_permit() {
    let mut cell = ModeCell::new(Mode::Once);
    cell.send(Mode::Repeat);
    assert!(cell.pending);
    assert_eq!(cell.poll_wait(ModePred::is_stop()), None);
    assert!(!cell.pending);
}
