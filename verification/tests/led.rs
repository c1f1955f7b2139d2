use tessel::LedState;

#[test]
fn led_starts_off() {
    let led = LedState::new();
    assert!(!led.read());
}

#[test]
fn led_set_reports_control_bytes() {
    let mut led = LedState::new();
    assert_eq!(led.set(true), b'1');
    assert!(led.read());
    assert_eq!(led.set(false), b'0');
    assert!(!led.read());
}

#[test]
fn led_toggle_alternates() {
    let mut led = LedState::new();
    assert_eq!(led.toggle(), b'1');
    assert!(led.read());
    assert_eq!(led.toggle(), b'0');
    assert!(!led.read());
    assert_eq!(led.toggle(), b'1');
    assert!(led.read());
}
