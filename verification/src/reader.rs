//! The event decoder: turns raw controller events (key presses and D-Pad
//! axis moves, as the kernel's input layer reports them) into [`Token`]s.

use vstd::prelude::*;

use crate::token::{Button, ControlAction, Modifier, Token, TokenView};

verus! {

/// Event type of key and button events.
pub const EV_KEY: u16 = 0x01;

/// Event type of absolute axis events.
pub const EV_ABS: u16 = 0x03;

/// D-Pad horizontal axis.
pub const ABS_HAT0X: u16 = 0x10;

/// D-Pad vertical axis.
pub const ABS_HAT0Y: u16 = 0x11;

pub const BTN_SOUTH: u16 = 0x130;

pub const BTN_EAST: u16 = 0x131;

pub const BTN_NORTH: u16 = 0x133;

pub const BTN_WEST: u16 = 0x134;

pub const BTN_TL: u16 = 0x136;

pub const BTN_TR: u16 = 0x137;

pub const BTN_TL2: u16 = 0x138;

pub const BTN_TR2: u16 = 0x139;

pub const BTN_SELECT: u16 = 0x13a;

pub const BTN_START: u16 = 0x13b;

pub const BTN_MODE: u16 = 0x13c;

pub const BTN_TRIGGER_HAPPY1: u16 = 0x2c0;

pub const BTN_TRIGGER_HAPPY2: u16 = 0x2c1;

pub const BTN_TRIGGER_HAPPY3: u16 = 0x2c2;

pub const BTN_TRIGGER_HAPPY4: u16 = 0x2c3;

/// One raw input event: its type, its code (key or axis) and its value
/// (for keys: 1 press, 0 release, 2 repeat; for axes: the position).
#[derive(Debug, Clone, Copy, PartialEq, Eq, Structural)]
pub struct RawEvent {
    pub event_type: u16,
    pub code: u16,
    pub value: i32,
}

/// The button a key code stands for.
pub open spec fn key_button(key: u16) -> Option<Button> {
    if key == BTN_SOUTH {
        Some(Button::A)
    } else if key == BTN_EAST {
        Some(Button::B)
    } else if key == BTN_NORTH {
        Some(Button::Y)
    } else if key == BTN_WEST {
        Some(Button::X)
    } else if key == BTN_TL2 {
        Some(Button::L2)
    } else if key == BTN_TR2 {
        Some(Button::R2)
    } else if key == BTN_TRIGGER_HAPPY1 {
        Some(Button::L4)
    } else if key == BTN_TRIGGER_HAPPY2 {
        Some(Button::R4)
    } else if key == BTN_TRIGGER_HAPPY3 {
        Some(Button::L5)
    } else if key == BTN_TRIGGER_HAPPY4 {
        Some(Button::R5)
    } else {
        None
    }
}

/// The modifier a key code stands for.
pub open spec fn key_modifier(key: u16) -> Option<Modifier> {
    if key == BTN_TL {
        Some(Modifier::L1)
    } else if key == BTN_TR {
        Some(Modifier::R1)
    } else {
        None
    }
}

/// The control action a key code stands for.
pub open spec fn key_control(key: u16) -> Option<ControlAction> {
    if key == BTN_START {
        Some(ControlAction::Confirm)
    } else if key == BTN_SELECT {
        Some(ControlAction::Backspace)
    } else if key == BTN_MODE {
        Some(ControlAction::Cancel)
    } else {
        None
    }
}

/// Maps key codes to our [`Button`] type.
pub fn key_to_button(key: u16) -> (b: Option<Button>)
    ensures
        b == key_button(key),
{
    if key == BTN_SOUTH {
        Some(Button::A)
    } else if key == BTN_EAST {
        Some(Button::B)
    } else if key == BTN_NORTH {
        Some(Button::Y)
    } else if key == BTN_WEST {
        Some(Button::X)
    } else if key == BTN_TL2 {
        Some(Button::L2)
    } else if key == BTN_TR2 {
        Some(Button::R2)
    } else if key == BTN_TRIGGER_HAPPY1 {
        // Back paddles: the Steam Deck reports its paddles as trigger-happy buttons
        Some(Button::L4)
    } else if key == BTN_TRIGGER_HAPPY2 {
        Some(Button::R4)
    } else if key == BTN_TRIGGER_HAPPY3 {
        Some(Button::L5)
    } else if key == BTN_TRIGGER_HAPPY4 {
        Some(Button::R5)
    } else {
        None
    }
}

/// Maps key codes to phrase modifiers.
pub fn key_to_modifier(key: u16) -> (m: Option<Modifier>)
    ensures
        m == key_modifier(key),
{
    if key == BTN_TL {
        Some(Modifier::L1)
    } else if key == BTN_TR {
        Some(Modifier::R1)
    } else {
        None
    }
}

/// Maps key codes to control actions.
pub fn key_to_control(key: u16) -> (a: Option<ControlAction>)
    ensures
        a == key_control(key),
{
    if key == BTN_START {
        Some(ControlAction::Confirm)
    } else if key == BTN_SELECT {
        Some(ControlAction::Backspace)
    } else if key == BTN_MODE {
        // Home / Steam button
        Some(ControlAction::Cancel)
    } else {
        None
    }
}

/// State of one modifier (L1 or R1).
struct ModifierState {
    held: bool,
    taps: Vec<Button>,
}

/// The value of one modifier's state: whether it is held and the taps of the
/// phrase it has open.
pub struct ModifierView {
    pub held: bool,
    pub taps: Seq<Button>,
}

/// The value of a [`TokenReader`].
pub struct ReaderView {
    pub l1: ModifierView,
    pub r1: ModifierView,
    /// D-Pad axis positions: which direction is currently active.
    pub dpad_x: i32,
    pub dpad_y: i32,
}

/// Turns raw controller events into [`Token`]s, one event at a time.
pub struct TokenReader {
    l1: ModifierState,
    r1: ModifierState,
    /// D-Pad axis state: tracks which direction is currently active.
    dpad_x: i32,
    dpad_y: i32,
}

impl View for TokenReader {
    type V = ReaderView;

    closed spec fn view(&self) -> ReaderView {
        ReaderView {
            l1: self.l1.view(),
            r1: self.r1.view(),
            dpad_x: self.dpad_x,
            dpad_y: self.dpad_y,
        }
    }
}

/// A reader at rest: no modifier held, no phrase open, D-Pad centred.
pub open spec fn initial_reader() -> ReaderView {
    ReaderView {
        l1: ModifierView { held: false, taps: Seq::empty() },
        r1: ModifierView { held: false, taps: Seq::empty() },
        dpad_x: 0,
        dpad_y: 0,
    }
}

/// The view of a token the reader may hand out.
pub open spec fn token_option_view(t: Option<Token>) -> Option<TokenView> {
    match t {
        Some(t) => Some(t@),
        None => None,
    }
}

/// The state of one modifier.
pub open spec fn modifier_of(v: ReaderView, m: Modifier) -> ModifierView {
    match m {
        Modifier::L1 => v.l1,
        Modifier::R1 => v.r1,
    }
}

/// The reader with one modifier's state replaced.
pub open spec fn with_modifier(v: ReaderView, m: Modifier, s: ModifierView) -> ReaderView {
    match m {
        Modifier::L1 => ReaderView { l1: s, ..v },
        Modifier::R1 => ReaderView { r1: s, ..v },
    }
}

/// A button press: it joins the phrase of a held modifier (L1 first), or
/// else stands alone as a simple press.
pub open spec fn button_step(v: ReaderView, b: Button) -> (ReaderView, Option<TokenView>) {
    if v.l1.held {
        (
            ReaderView { l1: ModifierView { held: true, taps: v.l1.taps.push(b) }, ..v },
            None,
        )
    } else if v.r1.held {
        (
            ReaderView { r1: ModifierView { held: true, taps: v.r1.taps.push(b) }, ..v },
            None,
        )
    } else {
        (v, Some(TokenView::SimplePress(b)))
    }
}

/// What a modifier key does to that modifier's state: a press opens an
/// empty phrase; a release of a held modifier closes its phrase, handing
/// out its taps (an empty phrase when there were none); anything else
/// changes nothing.
pub open spec fn modifier_transition(s: ModifierView, m: Modifier, pressed: bool, released: bool) -> (
    ModifierView,
    Option<TokenView>,
) {
    if pressed {
        (ModifierView { held: true, taps: Seq::empty() }, None)
    } else if released && s.held {
        (
            ModifierView { held: false, taps: Seq::empty() },
            Some(
                if s.taps.len() == 0 {
                    TokenView::PhraseEmpty
                } else {
                    TokenView::PhraseEnd(m, s.taps)
                },
            ),
        )
    } else {
        (s, None)
    }
}

/// A modifier key event, on the whole reader.
pub open spec fn modifier_step(v: ReaderView, m: Modifier, pressed: bool, released: bool) -> (
    ReaderView,
    Option<TokenView>,
) {
    let (s, out) = modifier_transition(modifier_of(v, m), m, pressed, released);
    (with_modifier(v, m, s), out)
}

/// A key event: control actions fire on press, modifiers open and close
/// phrases, buttons count on press only (not on repeat or release).
pub open spec fn key_step(v: ReaderView, key: u16, value: i32) -> (ReaderView, Option<TokenView>) {
    let pressed = value == 1;
    let released = value == 0;
    if pressed && key_control(key) is Some {
        (v, Some(TokenView::Control(key_control(key)->0)))
    } else if key_modifier(key) is Some {
        modifier_step(v, key_modifier(key)->0, pressed, released)
    } else if pressed && key_button(key) is Some {
        button_step(v, key_button(key)->0)
    } else {
        (v, None)
    }
}

/// A D-Pad axis event: the axis takes the new position, and a move from the
/// centre to a direction presses that direction's button.
pub open spec fn axis_step(v: ReaderView, axis: u16, value: i32) -> (ReaderView, Option<TokenView>) {
    if axis == ABS_HAT0X {
        let moved = ReaderView { dpad_x: value, ..v };
        if v.dpad_x == 0 && value != 0 {
            button_step(
                moved,
                if value > 0 {
                    Button::Right
                } else {
                    Button::Left
                },
            )
        } else {
            (moved, None)
        }
    } else if axis == ABS_HAT0Y {
        let moved = ReaderView { dpad_y: value, ..v };
        if v.dpad_y == 0 && value != 0 {
            button_step(
                moved,
                if value > 0 {
                    Button::Down
                } else {
                    Button::Up
                },
            )
        } else {
            (moved, None)
        }
    } else {
        (v, None)
    }
}

/// What one event does to the reader, and the token it produces if any.
pub open spec fn reader_step(v: ReaderView, e: RawEvent) -> (ReaderView, Option<TokenView>) {
    if e.event_type == EV_KEY {
        key_step(v, e.code, e.value)
    } else if e.event_type == EV_ABS {
        axis_step(v, e.code, e.value)
    } else {
        (v, None)
    }
}

impl ModifierState {
    spec fn view(&self) -> ModifierView {
        ModifierView { held: self.held, taps: self.taps@ }
    }

    fn transition(&mut self, modifier: Modifier, pressed: bool, released: bool) -> (t: Option<Token>)
        ensures
            (final(self).view(), token_option_view(t)) == modifier_transition(
                old(self).view(),
                modifier,
                pressed,
                released,
            ),
    {
        if pressed {
            self.held = true;
            self.taps.clear();
            return None;
        }
        if released && self.held {
            self.held = false;
            let mut taps: Vec<Button> = Vec::new();
            std::mem::swap(&mut taps, &mut self.taps);
            return Some(
                if taps.is_empty() {
                    Token::PhraseEmpty
                } else {
                    Token::PhraseEnd(modifier, taps)
                },
            );
        }
        None
    }
}

impl TokenReader {
    /// A reader at rest.
    pub fn new() -> (r: Self)
        ensures
            r@ == initial_reader(),
    {
        TokenReader {
            l1: ModifierState { held: false, taps: Vec::new() },
            r1: ModifierState { held: false, taps: Vec::new() },
            dpad_x: 0,
            dpad_y: 0,
        }
    }

    /// Feeds one raw event to the reader; returns the token it completes, if any.
    pub fn process_event(&mut self, event: RawEvent) -> (t: Option<Token>)
        ensures
            (final(self)@, token_option_view(t)) == reader_step(old(self)@, event),
    {
        if event.event_type == EV_KEY {
            self.handle_key(event.code, event.value)
        } else if event.event_type == EV_ABS {
            self.handle_absolute(event.code, event.value)
        } else {
            None
        }
    }

    /// Handle a key press (value=1), release (value=0), or repeat (value=2).
    pub fn handle_key(&mut self, key: u16, value: i32) -> (t: Option<Token>)
        ensures
            (final(self)@, token_option_view(t)) == key_step(old(self)@, key, value),
    {
        let pressed = value == 1;
        let released = value == 0;

        // Control actions fire on press.
        if pressed {
            if let Some(action) = key_to_control(key) {
                return Some(Token::Control(action));
            }
        }
        // Modifier press/release.
        if let Some(modifier) = key_to_modifier(key) {
            return self.handle_modifier(modifier, pressed, released);
        }
        // Regular button press (only on press, not repeat or release).
        if pressed {
            if let Some(button) = key_to_button(key) {
                return self.handle_button(button);
            }
        }
        None
    }

    /// Handle a press or release of a modifier: a press opens an empty
    /// phrase, a release of a held modifier closes it.
    pub fn handle_modifier(&mut self, modifier: Modifier, pressed: bool, released: bool) -> (t: Option<
        Token,
    >)
        ensures
            (final(self)@, token_option_view(t)) == modifier_step(
                old(self)@,
                modifier,
                pressed,
                released,
            ),
    {
        match modifier {
            Modifier::L1 => self.l1.transition(modifier, pressed, released),
            Modifier::R1 => self.r1.transition(modifier, pressed, released),
        }
    }

    /// Handle a button press: it joins the open phrase (L1's first), or
    /// else is a simple press.
    pub fn handle_button(&mut self, button: Button) -> (t: Option<Token>)
        ensures
            (final(self)@, token_option_view(t)) == button_step(old(self)@, button),
    {
        // If either modifier is held, this tap goes into that phrase.
        if self.l1.held {
            self.l1.taps.push(button);
            return None;
        }
        if self.r1.held {
            self.r1.taps.push(button);
            return None;
        }
        // No modifier held — simple press.
        Some(Token::SimplePress(button))
    }

    /// Handle D-Pad absolute axis events (ABS_HAT0X / ABS_HAT0Y).
    pub fn handle_absolute(&mut self, code: u16, value: i32) -> (t: Option<Token>)
        ensures
            (final(self)@, token_option_view(t)) == axis_step(old(self)@, code, value),
    {
        if code == ABS_HAT0X {
            let prev = self.dpad_x;
            self.dpad_x = value;
            // Only produce a token on the transition from 0 → direction.
            if prev == 0 && value != 0 {
                let button = if value > 0 {
                    Button::Right
                } else {
                    Button::Left
                };
                return self.handle_button(button);
            }
        } else if code == ABS_HAT0Y {
            let prev = self.dpad_y;
            self.dpad_y = value;
            if prev == 0 && value != 0 {
                let button = if value > 0 {
                    Button::Down
                } else {
                    Button::Up
                };
                return self.handle_button(button);
            }
        }
        None
    }
}

} // verus!
