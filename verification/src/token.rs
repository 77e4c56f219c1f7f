use vstd::prelude::*;

verus! {

/// A pressable input button (excluding modifiers and control actions).
#[derive(Debug, Clone, Copy, PartialEq, Eq, Hash, Structural)]
pub enum Button {
    // Face buttons
    A,
    B,
    X,
    Y,
    // D-Pad
    Up,
    Down,
    Left,
    Right,
    // Triggers (digital)
    L2,
    R2,
    // Back paddles
    L4,
    R4,
    L5,
    R5,
}

/// A phrase modifier. L1 or R1 held opens a phrase; releasing closes it.
/// Modifiers never appear as standalone [`Token::SimplePress`] inputs.
#[derive(Debug, Clone, Copy, PartialEq, Eq, Hash, Structural)]
pub enum Modifier {
    L1,
    R1,
}

/// Buttons reserved for control actions — never part of the PIN sequence.
#[derive(Debug, Clone, Copy, PartialEq, Eq, Hash, Structural)]
pub enum ControlAction {
    /// Start / Menu — confirm authentication.
    Confirm,
    /// Select / Back — delete last token (backspace).
    Backspace,
    /// Home / Steam — cancel authentication.
    Cancel,
}

/// A single unit of controller input as seen by the auth daemon.
#[derive(Debug, Clone, PartialEq, Eq)]
pub enum Token {
    /// A button pressed with no modifier held.
    SimplePress(Button),
    /// A modifier was held, buttons were tapped in order, modifier released.
    /// The `Vec<Button>` is the ordered sequence of taps.
    PhraseEnd(Modifier, Vec<Button>),
    /// Modifier pressed and released with no taps — caller should ignore this.
    PhraseEmpty,
    /// A control action (confirm / backspace / cancel).
    Control(ControlAction),
}

/// The mathematical value of a [`Token`]: the taps of a phrase as a sequence.
pub enum TokenView {
    SimplePress(Button),
    PhraseEnd(Modifier, Seq<Button>),
    PhraseEmpty,
    Control(ControlAction),
}

impl View for Token {
    type V = TokenView;

    open spec fn view(&self) -> TokenView {
        match self {
            Token::SimplePress(b) => TokenView::SimplePress(*b),
            Token::PhraseEnd(m, taps) => TokenView::PhraseEnd(*m, taps@),
            Token::PhraseEmpty => TokenView::PhraseEmpty,
            Token::Control(a) => TokenView::Control(*a),
        }
    }
}

/// The views of a sequence of tokens.
pub open spec fn token_views(tokens: Seq<Token>) -> Seq<TokenView> {
    tokens.map_values(|t: Token| t@)
}

/// The credential fragment of a button.
pub open spec fn button_code(b: Button) -> Seq<char> {
    match b {
        Button::A => seq!['a'],
        Button::B => seq!['b'],
        Button::X => seq!['x'],
        Button::Y => seq!['y'],
        Button::Up => seq!['u'],
        Button::Down => seq!['d'],
        Button::Left => seq!['l'],
        Button::Right => seq!['r'],
        Button::L2 => seq!['l', '2'],
        Button::R2 => seq!['r', '2'],
        Button::L4 => seq!['l', '4'],
        Button::R4 => seq!['r', '4'],
        Button::L5 => seq!['l', '5'],
        Button::R5 => seq!['r', '5'],
    }
}

/// The letter that opens a phrase held with a modifier.
pub open spec fn modifier_letter(m: Modifier) -> char {
    match m {
        Modifier::L1 => 'L',
        Modifier::R1 => 'R',
    }
}

/// The codes of the taps, separated by commas.
pub open spec fn tap_list(taps: Seq<Button>) -> Seq<char>
    decreases taps.len(),
{
    if taps.len() == 0 {
        Seq::empty()
    } else if taps.len() == 1 {
        button_code(taps[0])
    } else {
        tap_list(taps.drop_last()) + seq![','] + button_code(taps.last())
    }
}

/// The credential fragment of a token: a button's code, `M(c1,c2,...)` for a
/// phrase, nothing for an empty phrase or a control action.
pub open spec fn token_code(t: TokenView) -> Seq<char> {
    match t {
        TokenView::SimplePress(b) => button_code(b),
        TokenView::PhraseEnd(m, taps) => seq![modifier_letter(m), '('] + tap_list(taps) + seq![')'],
        TokenView::PhraseEmpty => Seq::empty(),
        TokenView::Control(_) => Seq::empty(),
    }
}

/// The credential of a token sequence: the fragments of its tokens, in order.
pub open spec fn sequence_code(ts: Seq<TokenView>) -> Seq<char>
    decreases ts.len(),
{
    if ts.len() == 0 {
        Seq::empty()
    } else {
        sequence_code(ts.drop_last()) + token_code(ts.last())
    }
}

/// `String::push` of std: appends one char at the end.
#[verifier::external_body]
fn push_char(s: &mut String, c: char)
    ensures
        final(s)@ == old(s)@.push(c),
{
    s.push(c)
}

impl Button {
    /// Short encoding string used in the PAM credential.
    pub fn encode(self) -> (code: &'static str)
        ensures
            code@ == button_code(self),
    {
        match self {
            Button::A => {
                proof { reveal_strlit("a"); }
                "a"
            },
            Button::B => {
                proof { reveal_strlit("b"); }
                "b"
            },
            Button::X => {
                proof { reveal_strlit("x"); }
                "x"
            },
            Button::Y => {
                proof { reveal_strlit("y"); }
                "y"
            },
            Button::Up => {
                proof { reveal_strlit("u"); }
                "u"
            },
            Button::Down => {
                proof { reveal_strlit("d"); }
                "d"
            },
            Button::Left => {
                proof { reveal_strlit("l"); }
                "l"
            },
            Button::Right => {
                proof { reveal_strlit("r"); }
                "r"
            },
            Button::L2 => {
                proof { reveal_strlit("l2"); }
                "l2"
            },
            Button::R2 => {
                proof { reveal_strlit("r2"); }
                "r2"
            },
            Button::L4 => {
                proof { reveal_strlit("l4"); }
                "l4"
            },
            Button::R4 => {
                proof { reveal_strlit("r4"); }
                "r4"
            },
            Button::L5 => {
                proof { reveal_strlit("l5"); }
                "l5"
            },
            Button::R5 => {
                proof { reveal_strlit("r5"); }
                "r5"
            },
        }
    }
}

impl Modifier {
    /// The letter that opens a phrase in the PAM credential.
    pub fn encode(self) -> (c: char)
        ensures
            c == modifier_letter(self),
    {
        match self {
            Modifier::L1 => 'L',
            Modifier::R1 => 'R',
        }
    }
}

impl Token {
    /// Encode this token to its PAM credential string fragment.
    ///
    /// - `SimplePress(A)` → `"a"`
    /// - `PhraseEnd(L1, [A,B,X])` → `"L(a,b,x)"`
    /// - `PhraseEmpty` and `Control(_)` → `""` (contribute nothing to the credential)
    pub fn encode(&self) -> (s: String)
        ensures
            s@ == token_code(self@),
    {
        match self {
            Token::SimplePress(btn) => String::from_str(btn.encode()),
            Token::PhraseEnd(modifier, taps) => {
                let mut out = String::new();
                push_char(&mut out, modifier.encode());
                push_char(&mut out, '(');
                let mut i: usize = 0;
                while i < taps.len()
                    invariant
                        i <= taps.len(),
                        out@ == seq![modifier_letter(*modifier), '('] + tap_list(
                            taps@.take(i as int),
                        ),
                    decreases taps.len() - i,
                {
                    if i > 0 {
                        push_char(&mut out, ',');
                    }
                    out.append(taps[i].encode());
                    assert(taps@.take(i + 1).drop_last() =~= taps@.take(i as int));
                    i = i + 1;
                }
                push_char(&mut out, ')');
                assert(taps@.take(taps.len() as int) =~= taps@);
                out
            },
            Token::PhraseEmpty => String::new(),
            Token::Control(_) => String::new(),
        }
    }
}

/// Encode a full sequence of tokens into the credential string sent to PAM.
pub fn encode_sequence(tokens: &[Token]) -> (s: String)
    ensures
        s@ == sequence_code(token_views(tokens@)),
{
    let mut out = String::new();
    let mut i: usize = 0;
    while i < tokens.len()
        invariant
            i <= tokens.len(),
            out@ == sequence_code(token_views(tokens@).take(i as int)),
        decreases tokens.len() - i,
    {
        let piece = tokens[i].encode();
        out.append(piece.as_str());
        assert(token_views(tokens@).take(i + 1).drop_last() =~= token_views(tokens@).take(i as int));
        i = i + 1;
    }
    assert(token_views(tokens@).take(tokens.len() as int) =~= token_views(tokens@));
    out
}

} // verus!
