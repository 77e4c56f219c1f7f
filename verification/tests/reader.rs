use deckery_auth::{
    key_to_button, key_to_control, key_to_modifier, Button, ControlAction, Modifier, RawEvent,
    Token, TokenReader, ABS_HAT0X, ABS_HAT0Y, BTN_EAST, BTN_MODE, BTN_SELECT, BTN_SOUTH, BTN_START,
    BTN_TL, BTN_TR, BTN_TRIGGER_HAPPY3, BTN_WEST, EV_ABS, EV_KEY,
};

fn key(code: u16, value: i32) -> RawEvent {
    RawEvent { event_type: EV_KEY, code, value }
}

fn axis(code: u16, value: i32) -> RawEvent {
    RawEvent { event_type: EV_ABS, code, value }
}

fn feed(reader: &mut TokenReader, events: &[RawEvent]) -> Vec<Option<Token>> {
    events.iter().map(|e| reader.process_event(*e)).collect()
}

#[test]
fn key_maps() {
    assert_eq!(key_to_button(BTN_SOUTH), Some(Button::A));
    assert_eq!(key_to_button(BTN_WEST), Some(Button::X));
    assert_eq!(key_to_button(BTN_TRIGGER_HAPPY3), Some(Button::L5));
    assert_eq!(key_to_button(BTN_TL), None);
    assert_eq!(key_to_modifier(BTN_TL), Some(Modifier::L1));
    assert_eq!(key_to_modifier(BTN_TR), Some(Modifier::R1));
    assert_eq!(key_to_modifier(BTN_SOUTH), None);
    assert_eq!(key_to_control(BTN_START), Some(ControlAction::Confirm));
    assert_eq!(key_to_control(BTN_SELECT), Some(ControlAction::Backspace));
    assert_eq!(key_to_control(BTN_MODE), Some(ControlAction::Cancel));
    assert_eq!(key_to_control(BTN_EAST), None);
}

#[test]
fn simple_press_fires_on_press_only() {
    let mut r = TokenReader::new();
    let out = feed(&mut r, &[key(BTN_SOUTH, 1), key(BTN_SOUTH, 2), key(BTN_SOUTH, 0)]);
    assert_eq!(out, vec![Some(Token::SimplePress(Button::A)), None, None]);
}

#[test]
fn phrase_collects_taps_in_order() {
    let mut r = TokenReader::new();
    let out = feed(
        &mut r,
        &[
            key(BTN_TL, 1),
            key(BTN_SOUTH, 1),
            key(BTN_SOUTH, 0),
            key(BTN_EAST, 1),
            key(BTN_EAST, 0),
            key(BTN_WEST, 1),
            key(BTN_WEST, 0),
            key(BTN_TL, 0),
        ],
    );
    let mut expected = vec![None; 7];
    expected.push(Some(Token::PhraseEnd(Modifier::L1, vec![Button::A, Button::B, Button::X])));
    assert_eq!(out, expected);
    assert_eq!(r.process_event(key(BTN_SOUTH, 1)), Some(Token::SimplePress(Button::A)));
}

#[test]
fn modifier_without_taps_gives_empty_phrase() {
    let mut r = TokenReader::new();
    assert_eq!(r.process_event(key(BTN_TR, 1)), None);
    assert_eq!(r.process_event(key(BTN_TR, 2)), None);
    assert_eq!(r.process_event(key(BTN_TR, 0)), Some(Token::PhraseEmpty));
    // a second release of a modifier that is not held produces nothing
    assert_eq!(r.process_event(key(BTN_TR, 0)), None);
}

#[test]
fn l1_takes_taps_when_both_held() {
    let mut r = TokenReader::new();
    let out = feed(
        &mut r,
        &[key(BTN_TR, 1), key(BTN_TL, 1), key(BTN_SOUTH, 1), key(BTN_TR, 0), key(BTN_TL, 0)],
    );
    assert_eq!(
        out,
        vec![
            None,
            None,
            None,
            Some(Token::PhraseEmpty),
            Some(Token::PhraseEnd(Modifier::L1, vec![Button::A])),
        ]
    );
}

#[test]
fn dpad_presses_on_leaving_centre() {
    let mut r = TokenReader::new();
    let out = feed(
        &mut r,
        &[
            axis(ABS_HAT0X, 1),
            axis(ABS_HAT0X, 1),
            axis(ABS_HAT0X, -1),
            axis(ABS_HAT0X, 0),
            axis(ABS_HAT0X, -1),
            axis(ABS_HAT0Y, 1),
            axis(ABS_HAT0Y, 0),
            axis(ABS_HAT0Y, -1),
        ],
    );
    assert_eq!(
        out,
        vec![
            Some(Token::SimplePress(Button::Right)),
            None,
            None,
            None,
            Some(Token::SimplePress(Button::Left)),
            Some(Token::SimplePress(Button::Down)),
            None,
            Some(Token::SimplePress(Button::Up)),
        ]
    );
}

#[test]
fn dpad_joins_phrase() {
    let mut r = TokenReader::new();
    let out = feed(
        &mut r,
        &[key(BTN_TR, 1), axis(ABS_HAT0Y, -1), axis(ABS_HAT0Y, 0), key(BTN_SOUTH, 1), key(BTN_TR, 0)],
    );
    assert_eq!(out[4], Some(Token::PhraseEnd(Modifier::R1, vec![Button::Up, Button::A])));
}

#[test]
fn control_fires_on_press_even_in_phrase() {
    let mut r = TokenReader::new();
    let out = feed(
        &mut r,
        &[
            key(BTN_TL, 1),
            key(BTN_SOUTH, 1),
            key(BTN_START, 1),
            key(BTN_START, 0),
            key(BTN_MODE, 1),
            key(BTN_SELECT, 1),
            key(BTN_TL, 0),
        ],
    );
    assert_eq!(
        out,
        vec![
            None,
            None,
            Some(Token::Control(ControlAction::Confirm)),
            None,
            Some(Token::Control(ControlAction::Cancel)),
            Some(Token::Control(ControlAction::Backspace)),
            Some(Token::PhraseEnd(Modifier::L1, vec![Button::A])),
        ]
    );
}

#[test]
fn pressing_modifier_again_restarts_phrase() {
    let mut r = TokenReader::new();
    let out = feed(
        &mut r,
        &[key(BTN_TL, 1), key(BTN_SOUTH, 1), key(BTN_TL, 1), key(BTN_EAST, 1), key(BTN_TL, 0)],
    );
    assert_eq!(out[4], Some(Token::PhraseEnd(Modifier::L1, vec![Button::B])));
}

#[test]
fn other_events_are_ignored() {
    let mut r = TokenReader::new();
    // a sync event, a relative event, an unknown key and an unknown axis
    let out = feed(
        &mut r,
        &[
            RawEvent { event_type: 0, code: 0, value: 0 },
            RawEvent { event_type: 2, code: 0, value: 5 },
            key(0x1, 1),
            axis(0x00, 100),
        ],
    );
    assert_eq!(out, vec![None, None, None, None]);
    assert_eq!(r.process_event(key(BTN_EAST, 1)), Some(Token::SimplePress(Button::B)));
}

#[test]
fn handle_absolute_fires_only_on_leaving_centre() {
    let mut r = TokenReader::new();
    assert_eq!(r.handle_absolute(ABS_HAT0X, 1), Some(Token::SimplePress(Button::Right)));
    assert_eq!(r.handle_absolute(ABS_HAT0X, 1), None);
    assert_eq!(r.handle_absolute(ABS_HAT0X, -1), None);
    assert_eq!(r.handle_absolute(ABS_HAT0X, 0), None);
    assert_eq!(r.handle_absolute(ABS_HAT0X, -1), Some(Token::SimplePress(Button::Left)));
    // another code is no D-Pad axis
    assert_eq!(r.handle_absolute(0x00, 1), None);
}

#[test]
fn handle_modifier_closes_phrase_of_taps() {
    let mut r = TokenReader::new();
    assert_eq!(r.handle_modifier(Modifier::L1, true, false), None);
    assert_eq!(r.handle_button(Button::A), None);
    assert_eq!(r.handle_button(Button::B), None);
    assert_eq!(
        r.handle_modifier(Modifier::L1, false, true),
        Some(Token::PhraseEnd(Modifier::L1, vec![Button::A, Button::B]))
    );
    // released with no taps: a new press and release is an empty phrase
    assert_eq!(r.handle_modifier(Modifier::L1, true, false), None);
    assert_eq!(r.handle_modifier(Modifier::L1, false, true), Some(Token::PhraseEmpty));
    // a release of a modifier that is not held gives nothing
    assert_eq!(r.handle_modifier(Modifier::R1, false, true), None);
    assert_eq!(r.handle_button(Button::X), Some(Token::SimplePress(Button::X)));
}

#[test]
fn handle_key_maps_press_release_repeat() {
    let mut r = TokenReader::new();
    assert_eq!(r.handle_key(BTN_START, 1), Some(Token::Control(ControlAction::Confirm)));
    assert_eq!(r.handle_key(BTN_START, 0), None);
    assert_eq!(r.handle_key(BTN_SOUTH, 2), None);
    assert_eq!(r.handle_key(BTN_SOUTH, 1), Some(Token::SimplePress(Button::A)));
}
