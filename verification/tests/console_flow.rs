use serial_echo::console::reset_sequence_bytes;
use serial_echo::inbox::initialize;
use serial_echo::inbox::produce;
use serial_echo::inbox::Inbox;
use serial_echo::inbox::RxRead;
use serial_echo::console::Console;
use serial_echo::console::Mode;
use serial_echo::console::CONTROL_RESET;
use serial_echo::queue::ByteQueue;

fn expected_reset_sequence() -> Vec<u8> {
    let mut v = Vec::new();
    v.extend_from_slice(b"\x1b[2J\x1b[H");
    v.extend_from_slice("H\u{1ECD} v\u{E0} t\u{EA}n sinh vi\u{EA}n: ".as_bytes());
    v
}

#[test]
fn reset_sequence_is_clear_home_then_prompt() {
    assert_eq!(reset_sequence_bytes(), expected_reset_sequence());
}

#[test]
fn new_console_is_at_the_prompt() {
    let c = Console::new();
    assert_eq!(c.mode(), Mode::Prompt);
    assert!(c.serial().is_empty());
    assert!(c.display().is_empty());
    assert_eq!(c.cursor(), (0, 0));
}

#[test]
fn control_byte_resets_cursor_and_emits_prompt() {
    let mut c = Console::new();
    c.step(CONTROL_RESET);
    assert_eq!(c.mode(), Mode::Prompt);
    assert_eq!(c.cursor(), (0, 1));
    assert_eq!(c.serial().clone(), expected_reset_sequence());
    assert!(c.display().is_empty());
}

#[test]
fn printable_byte_is_echoed_to_both_sinks() {
    let mut c = Console::new();
    c.step(65);
    assert_eq!(c.mode(), Mode::Echoing);
    assert_eq!(c.serial().clone(), vec![65]);
    assert_eq!(c.display().clone(), vec![65]);
    assert_eq!(c.cursor(), (0, 0));
}

#[test]
fn mode_transitions_prompt_echoing_prompt() {
    let mut c = Console::new();
    assert_eq!(c.mode(), Mode::Prompt);
    c.step(65);
    assert_eq!(c.mode(), Mode::Echoing);
    c.step(66);
    assert_eq!(c.mode(), Mode::Echoing);
    c.step(CONTROL_RESET);
    assert_eq!(c.mode(), Mode::Prompt);
    c.step(67);
    assert_eq!(c.mode(), Mode::Echoing);
}

#[test]
fn reset_does_not_clear_display_characters() {
    let mut c = Console::new();
    c.step(88);
    c.step(CONTROL_RESET);
    assert_eq!(c.display().clone(), vec![88]);
    assert_eq!(c.cursor(), (0, 1));
}

#[test]
fn poll_on_uninstalled_inbox_changes_nothing() {
    let mut slot: Option<Inbox> = None;
    let mut c = Console::new();
    assert!(!c.poll(&mut slot));
    assert!(slot.is_none());
    assert!(c.serial().is_empty());
    assert!(c.display().is_empty());
}

#[test]
fn poll_consumes_one_byte_per_iteration() {
    let mut slot: Option<Inbox> = None;
    initialize(&mut slot);
    produce(&mut slot, &vec![RxRead::Byte(65), RxRead::Byte(66)]);
    let mut c = Console::new();
    assert!(c.poll(&mut slot));
    assert_eq!(c.display().clone(), vec![65]);
    assert!(c.poll(&mut slot));
    assert_eq!(c.display().clone(), vec![65, 66]);
    assert!(!c.poll(&mut slot));
    assert_eq!(c.display().clone(), vec![65, 66]);
    assert_eq!(c.serial().clone(), vec![65, 66]);
}

#[test]
fn scenario_hi_then_carriage_return() {
    let mut q = ByteQueue::new();
    assert!(q.push(72));
    assert!(q.push(105));
    assert!(q.push(13));

    let mut c = Console::new();
    c.drain(&mut q);

    assert!(q.is_empty());
    assert_eq!(c.display().clone(), vec![72, 105]);
    let mut expected_serial = vec![72, 105];
    expected_serial.extend_from_slice(&expected_reset_sequence());
    assert_eq!(c.serial().clone(), expected_serial);
    assert_eq!(c.cursor(), (0, 1));
    assert_eq!(c.mode(), Mode::Prompt);
}
