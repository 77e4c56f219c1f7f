use deckery_auth::{enter_token, Button, ControlAction, EntryStep, Modifier, Token};

#[test]
fn entering_and_confirming_a_pin() {
    let mut entry = Vec::new();
    assert!(matches!(enter_token(&mut entry, Token::SimplePress(Button::Up)), EntryStep::Added));
    assert!(matches!(enter_token(&mut entry, Token::PhraseEmpty), EntryStep::Ignored));
    assert!(matches!(
        enter_token(&mut entry, Token::PhraseEnd(Modifier::L1, vec![Button::A, Button::B])),
        EntryStep::Added
    ));
    assert!(matches!(enter_token(&mut entry, Token::SimplePress(Button::X)), EntryStep::Added));
    assert!(matches!(
        enter_token(&mut entry, Token::Control(ControlAction::Backspace)),
        EntryStep::Erased
    ));
    assert_eq!(entry.len(), 2);
    match enter_token(&mut entry, Token::Control(ControlAction::Confirm)) {
        EntryStep::Confirmed(credential) => assert_eq!(credential, "uL(a,b)"),
        other => panic!("unexpected {:?}", other),
    }
    assert!(entry.is_empty());
}

#[test]
fn backspace_on_empty_entry_and_cancel() {
    let mut entry = Vec::new();
    assert!(matches!(
        enter_token(&mut entry, Token::Control(ControlAction::Backspace)),
        EntryStep::Erased
    ));
    assert!(entry.is_empty());
    enter_token(&mut entry, Token::SimplePress(Button::R5));
    assert!(matches!(
        enter_token(&mut entry, Token::Control(ControlAction::Cancel)),
        EntryStep::Cancelled
    ));
    assert!(entry.is_empty());
    match enter_token(&mut entry, Token::Control(ControlAction::Confirm)) {
        EntryStep::Confirmed(credential) => assert_eq!(credential, ""),
        other => panic!("unexpected {:?}", other),
    }
}
