use deckery_auth::{encode_sequence, Button, ControlAction, Modifier, Token};

#[test]
fn simple_press_encoding() {
    assert_eq!(Token::SimplePress(Button::A).encode(), "a");
    assert_eq!(Token::SimplePress(Button::Up).encode(), "u");
    assert_eq!(Token::SimplePress(Button::L2).encode(), "l2");
    assert_eq!(Token::SimplePress(Button::L4).encode(), "l4");
}

#[test]
fn phrase_encoding() {
    let t = Token::PhraseEnd(Modifier::L1, vec![Button::A, Button::B, Button::X]);
    assert_eq!(t.encode(), "L(a,b,x)");

    let t = Token::PhraseEnd(Modifier::R1, vec![Button::Down, Button::Y]);
    assert_eq!(t.encode(), "R(d,y)");
}

#[test]
fn phrase_single_tap() {
    let t = Token::PhraseEnd(Modifier::L1, vec![Button::A]);
    assert_eq!(t.encode(), "L(a)");
}

#[test]
fn empty_phrase_encodes_empty() {
    assert_eq!(Token::PhraseEmpty.encode(), "");
}

#[test]
fn full_sequence() {
    let tokens = vec![
        Token::SimplePress(Button::Up),
        Token::SimplePress(Button::Up),
        Token::SimplePress(Button::Down),
        Token::PhraseEnd(Modifier::L1, vec![Button::A, Button::B]),
        Token::SimplePress(Button::B),
    ];
    assert_eq!(encode_sequence(&tokens), "uudL(a,b)b");
}

#[test]
fn konami_code() {
    let tokens = vec![
        Token::SimplePress(Button::Up),
        Token::SimplePress(Button::Up),
        Token::SimplePress(Button::Down),
        Token::SimplePress(Button::Down),
        Token::SimplePress(Button::Left),
        Token::SimplePress(Button::Right),
        Token::SimplePress(Button::Left),
        Token::SimplePress(Button::Right),
        Token::SimplePress(Button::B),
        Token::SimplePress(Button::A),
    ];
    assert_eq!(encode_sequence(&tokens), "uuddlrlrba");
}

#[test]
fn every_button_has_its_code() {
    let expected = [
        (Button::A, "a"),
        (Button::B, "b"),
        (Button::X, "x"),
        (Button::Y, "y"),
        (Button::Up, "u"),
        (Button::Down, "d"),
        (Button::Left, "l"),
        (Button::Right, "r"),
        (Button::L2, "l2"),
        (Button::R2, "r2"),
        (Button::L4, "l4"),
        (Button::R4, "r4"),
        (Button::L5, "l5"),
        (Button::R5, "r5"),
    ];
    for (button, code) in expected {
        assert_eq!(button.encode(), code);
        assert_eq!(Token::SimplePress(button).encode(), code);
    }
}

#[test]
fn modifier_letters() {
    assert_eq!(Modifier::L1.encode(), 'L');
    assert_eq!(Modifier::R1.encode(), 'R');
}

#[test]
fn control_actions_encode_empty() {
    assert_eq!(Token::Control(ControlAction::Confirm).encode(), "");
    assert_eq!(Token::Control(ControlAction::Backspace).encode(), "");
    assert_eq!(Token::Control(ControlAction::Cancel).encode(), "");
}

#[test]
fn phrase_with_no_taps_keeps_its_parentheses() {
    assert_eq!(Token::PhraseEnd(Modifier::R1, vec![]).encode(), "R()");
}

#[test]
fn phrase_of_two_letter_codes() {
    let t = Token::PhraseEnd(Modifier::R1, vec![Button::L5, Button::R2, Button::Left]);
    assert_eq!(t.encode(), "R(l5,r2,l)");
}

#[test]
fn empty_sequence_encodes_empty() {
    assert_eq!(encode_sequence(&[]), "");
}

#[test]
fn empty_phrases_and_controls_contribute_nothing() {
    let with_noise = vec![
        Token::SimplePress(Button::A),
        Token::PhraseEmpty,
        Token::Control(ControlAction::Confirm),
        Token::PhraseEnd(Modifier::L1, vec![Button::X]),
        Token::Control(ControlAction::Backspace),
    ];
    let clean = vec![
        Token::SimplePress(Button::A),
        Token::PhraseEnd(Modifier::L1, vec![Button::X]),
    ];
    assert_eq!(encode_sequence(&with_noise), encode_sequence(&clean));
    assert_eq!(encode_sequence(&clean), "aL(x)");
}

#[test]
fn left_then_a_differs_from_l2() {
    let two = vec![Token::SimplePress(Button::Left), Token::SimplePress(Button::A)];
    let one = vec![Token::SimplePress(Button::L2)];
    assert_eq!(encode_sequence(&two), "la");
    assert_eq!(encode_sequence(&one), "l2");
    assert_ne!(encode_sequence(&two), encode_sequence(&one));
}

#[test]
fn sequence_of_concatenation_is_concatenation() {
    let a = vec![Token::SimplePress(Button::R4), Token::PhraseEnd(Modifier::R1, vec![Button::Up])];
    let b = vec![Token::SimplePress(Button::Y)];
    let mut ab = a.clone();
    ab.extend(b.clone());
    assert_eq!(encode_sequence(&ab), encode_sequence(&a) + &encode_sequence(&b));
    assert_eq!(encode_sequence(&ab), "r4R(u)y");
}
