use serial_echo::inbox::initialize;
use serial_echo::inbox::produce;
use serial_echo::inbox::try_pop;
use serial_echo::inbox::Inbox;
use serial_echo::inbox::RxRead;
use serial_echo::queue::CAPACITY;

#[test]
fn initialize_installs_empty_queue() {
    let mut slot: Option<Inbox> = None;
    initialize(&mut slot);
    assert!(slot.is_some());
    assert_eq!(try_pop(&mut slot), None);
}

#[test]
fn produce_before_initialize_is_a_noop() {
    let mut slot: Option<Inbox> = None;
    let reads = vec![RxRead::Byte(1), RxRead::Byte(2)];
    produce(&mut slot, &reads);
    assert!(slot.is_none());
    assert_eq!(try_pop(&mut slot), None);
    assert!(slot.is_none());
}

#[test]
fn produced_bytes_come_back_in_order() {
    let mut slot: Option<Inbox> = None;
    initialize(&mut slot);
    let reads = vec![RxRead::Byte(72), RxRead::Byte(105), RxRead::Byte(13)];
    produce(&mut slot, &reads);
    assert_eq!(try_pop(&mut slot), Some(72));
    assert_eq!(try_pop(&mut slot), Some(105));
    assert_eq!(try_pop(&mut slot), Some(13));
    assert_eq!(try_pop(&mut slot), None);
}

#[test]
fn read_errors_are_skipped_not_propagated() {
    let mut slot: Option<Inbox> = None;
    initialize(&mut slot);
    let reads = vec![
        RxRead::ReadError,
        RxRead::Byte(65),
        RxRead::ReadError,
        RxRead::Byte(66),
        RxRead::ReadError,
    ];
    produce(&mut slot, &reads);
    assert_eq!(try_pop(&mut slot), Some(65));
    assert_eq!(try_pop(&mut slot), Some(66));
    assert_eq!(try_pop(&mut slot), None);
}

#[test]
fn producer_overflow_drops_newest_bytes() {
    let mut slot: Option<Inbox> = None;
    initialize(&mut slot);
    let mut reads = Vec::new();
    for i in 0..(CAPACITY + 10) as u8 {
        reads.push(RxRead::Byte(i));
    }
    produce(&mut slot, &reads);
    for i in 0..CAPACITY as u8 {
        assert_eq!(try_pop(&mut slot), Some(i));
    }
    assert_eq!(try_pop(&mut slot), None);
}

#[test]
fn produce_in_bursts_preserves_arrival_order() {
    let mut slot: Option<Inbox> = None;
    initialize(&mut slot);
    produce(&mut slot, &vec![RxRead::Byte(10), RxRead::Byte(11)]);
    produce(&mut slot, &vec![RxRead::Byte(12)]);
    assert_eq!(try_pop(&mut slot), Some(10));
    produce(&mut slot, &vec![RxRead::Byte(13)]);
    assert_eq!(try_pop(&mut slot), Some(11));
    assert_eq!(try_pop(&mut slot), Some(12));
    assert_eq!(try_pop(&mut slot), Some(13));
    assert_eq!(try_pop(&mut slot), None);
}
