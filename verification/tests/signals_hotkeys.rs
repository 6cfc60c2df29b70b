use key_listener::hotkey::{HELLO_WORLD, STOP_LISTENER};
use key_listener::{HotKey, Signals};

#[test]
fn signal_codes_follow_declaration() {
    assert_eq!(Signals::NoSignal.as_uint(), 0);
    assert_eq!(Signals::Shutdown.as_uint(), 1);
    assert_eq!(Signals::PrintHelloWorld.as_uint(), 2);
    assert_eq!(Signals::StopLogger.as_uint(), 3);
    assert_eq!(Signals::LoggerReadyShutdown.as_uint(), 4);
}

#[test]
fn hotkey_bits_are_single_and_distinct() {
    assert_eq!(HotKey::NoComponent.bits(), 0b0);
    assert_eq!(HotKey::Escape.bits(), 0b1);
    assert_eq!(HotKey::ControlLeft.bits(), 0b10);
    assert_eq!(HotKey::ShiftLeft.bits(), 0b100);
    assert_eq!(HotKey::KeyQ.bits(), 0b1000);
    assert_eq!(HotKey::KeyC.bits(), 0b10000);
    assert_eq!(STOP_LISTENER, 1);
    assert_eq!(HELLO_WORLD, 24);
}

#[test]
fn hotkey_signal_needs_the_exact_combination() {
    assert_eq!(HotKey::get_hotkey_signal(0), Signals::NoSignal);
    assert_eq!(HotKey::get_hotkey_signal(1), Signals::Shutdown);
    assert_eq!(HotKey::get_hotkey_signal(24), Signals::PrintHelloWorld);
    assert_eq!(HotKey::get_hotkey_signal(8), Signals::NoSignal);
    assert_eq!(HotKey::get_hotkey_signal(3), Signals::NoSignal);
    assert_eq!(HotKey::get_hotkey_signal(25), Signals::NoSignal);
}

#[test]
fn press_then_release_restores_combination() {
    let mut c: u16 = 0;
    HotKey::KeyQ.press_key(&mut c);
    assert_eq!(c, 8);
    HotKey::KeyC.press_key(&mut c);
    assert_eq!(c, 24);
    assert_eq!(HotKey::get_hotkey_signal(c), Signals::PrintHelloWorld);
    HotKey::KeyQ.press_key(&mut c);
    assert_eq!(c, 24);
    HotKey::KeyQ.release_key(&mut c);
    assert_eq!(c, 16);
    HotKey::KeyC.release_key(&mut c);
    assert_eq!(c, 0);
}

#[test]
fn release_of_key_not_held_changes_nothing() {
    let mut c: u16 = 0;
    HotKey::Escape.release_key(&mut c);
    assert_eq!(c, 0);
    assert_eq!(HotKey::get_hotkey_signal(c), Signals::NoSignal);
    let mut c: u16 = 0b1000;
    HotKey::KeyC.release_key(&mut c);
    assert_eq!(c, 0b1000);
    HotKey::KeyQ.release_key(&mut c);
    HotKey::KeyQ.release_key(&mut c);
    assert_eq!(c, 0);
}

#[test]
fn combination_stays_within_component_bits() {
    let keys = [HotKey::NoComponent, HotKey::Escape, HotKey::ControlLeft, HotKey::ShiftLeft, HotKey::KeyQ, HotKey::KeyC];
    let mut c: u16 = 0;
    for (i, k) in keys.iter().enumerate() {
        if i % 2 == 0 {
            k.press_key(&mut c);
        } else {
            k.press_key(&mut c);
            keys[(i + 3) % keys.len()].release_key(&mut c);
        }
        assert!(c <= 0b11111);
    }
}

#[test]
fn key_names_map_to_components() {
    assert_eq!(HotKey::from_key_name("Escape"), HotKey::Escape);
    assert_eq!(HotKey::from_key_name("ControlLeft"), HotKey::ControlLeft);
    assert_eq!(HotKey::from_key_name("ShiftLeft"), HotKey::ShiftLeft);
    assert_eq!(HotKey::from_key_name("KeyQ"), HotKey::KeyQ);
    assert_eq!(HotKey::from_key_name("KeyC"), HotKey::KeyC);
    assert_eq!(HotKey::from_key_name("KeyA"), HotKey::NoComponent);
    assert_eq!(HotKey::from_key_name("escape"), HotKey::NoComponent);
    assert_eq!(HotKey::from_key_name("ControlRight"), HotKey::NoComponent);
    assert_eq!(HotKey::from_key_name(""), HotKey::NoComponent);
}
