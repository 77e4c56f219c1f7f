use deckery_auth::{
    ABS_HAT0X, ABS_HAT0Y, BTN_EAST, BTN_MODE, BTN_NORTH, BTN_SELECT, BTN_SOUTH, BTN_START, BTN_TL,
    BTN_TL2, BTN_TR, BTN_TR2, BTN_TRIGGER_HAPPY1, BTN_TRIGGER_HAPPY2, BTN_TRIGGER_HAPPY3,
    BTN_TRIGGER_HAPPY4, BTN_WEST, EV_ABS, EV_KEY,
};
use evdev::{AbsoluteAxisType, EventType, Key};

#[test]
fn key_codes_match_evdev() {
    assert_eq!(Key::BTN_SOUTH.code(), BTN_SOUTH);
    assert_eq!(Key::BTN_EAST.code(), BTN_EAST);
    assert_eq!(Key::BTN_NORTH.code(), BTN_NORTH);
    assert_eq!(Key::BTN_WEST.code(), BTN_WEST);
    assert_eq!(Key::BTN_TL.code(), BTN_TL);
    assert_eq!(Key::BTN_TR.code(), BTN_TR);
    assert_eq!(Key::BTN_TL2.code(), BTN_TL2);
    assert_eq!(Key::BTN_TR2.code(), BTN_TR2);
    assert_eq!(Key::BTN_SELECT.code(), BTN_SELECT);
    assert_eq!(Key::BTN_START.code(), BTN_START);
    assert_eq!(Key::BTN_MODE.code(), BTN_MODE);
    assert_eq!(Key::BTN_TRIGGER_HAPPY1.code(), BTN_TRIGGER_HAPPY1);
    assert_eq!(Key::BTN_TRIGGER_HAPPY2.code(), BTN_TRIGGER_HAPPY2);
    assert_eq!(Key::BTN_TRIGGER_HAPPY3.code(), BTN_TRIGGER_HAPPY3);
    assert_eq!(Key::BTN_TRIGGER_HAPPY4.code(), BTN_TRIGGER_HAPPY4);
}

#[test]
fn event_types_and_axes_match_evdev() {
    assert_eq!(EventType::KEY.0, EV_KEY);
    assert_eq!(EventType::ABSOLUTE.0, EV_ABS);
    assert_eq!(AbsoluteAxisType::ABS_HAT0X.0, ABS_HAT0X);
    assert_eq!(AbsoluteAxisType::ABS_HAT0Y.0, ABS_HAT0Y);
}
