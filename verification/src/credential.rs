//! Properties of the credential encoding: every credential string comes from
//! exactly one sequence of presses and phrases.

use vstd::prelude::*;

use crate::token::{
    button_code, sequence_code, tap_list, token_code, Button, Modifier, TokenView,
};

verus! {

/// A token that contributes to the credential: a simple press or a phrase.
pub open spec fn is_credential_token(t: TokenView) -> bool {
    t is SimplePress || t is PhraseEnd
}

/// Every token of `ts` contributes to the credential.
pub open spec fn all_credential_tokens(ts: Seq<TokenView>) -> bool {
    forall|i: int| 0 <= i < ts.len() ==> is_credential_token(#[trigger] ts[i])
}

/// A character that may follow `l` or `r` inside a button code.
spec fn is_code_digit(c: char) -> bool {
    c == '2' || c == '4' || c == '5'
}

/// Length of the button code at the front of `s`; 0 where none starts there.
spec fn code_len_at(s: Seq<char>) -> int {
    if s.len() == 0 {
        0
    } else if s[0] == 'a' || s[0] == 'b' || s[0] == 'x' || s[0] == 'y' || s[0] == 'u' || s[0]
        == 'd' {
        1
    } else if s[0] == 'l' || s[0] == 'r' {
        if s.len() > 1 && is_code_digit(s[1]) {
            2
        } else {
            1
        }
    } else {
        0
    }
}

/// The button whose code starts `s` (meaningful where `code_len_at(s) > 0`).
spec fn button_at(s: Seq<char>) -> Button {
    if s[0] == 'a' {
        Button::A
    } else if s[0] == 'b' {
        Button::B
    } else if s[0] == 'x' {
        Button::X
    } else if s[0] == 'y' {
        Button::Y
    } else if s[0] == 'u' {
        Button::Up
    } else if s[0] == 'd' {
        Button::Down
    } else if s[0] == 'l' {
        if s.len() > 1 && s[1] == '2' {
            Button::L2
        } else if s.len() > 1 && s[1] == '4' {
            Button::L4
        } else if s.len() > 1 && s[1] == '5' {
            Button::L5
        } else {
            Button::Left
        }
    } else {
        if s.len() > 1 && s[1] == '2' {
            Button::R2
        } else if s.len() > 1 && s[1] == '4' {
            Button::R4
        } else if s.len() > 1 && s[1] == '5' {
            Button::R5
        } else {
            Button::Right
        }
    }
}

/// Where a reader of a credential string stands.
enum DecodeMode {
    /// Between tokens.
    Between,
    /// After `(` or `,` of a phrase opened with the modifier, with the taps read so far.
    Open(Modifier, Seq<Button>),
    /// After a tap inside a phrase.
    AfterTap(Modifier, Seq<Button>),
}

spec fn prepend(t: TokenView, rest: Option<Seq<TokenView>>) -> Option<Seq<TokenView>> {
    match rest {
        Some(ts) => Some(seq![t] + ts),
        None => None,
    }
}

/// Reads a credential string back into tokens; `None` where it is no credential.
spec fn decode_in(s: Seq<char>, mode: DecodeMode) -> Option<Seq<TokenView>>
    decreases s.len(),
{
    match mode {
        DecodeMode::Between => {
            if s.len() == 0 {
                Some(Seq::empty())
            } else if s[0] == 'L' || s[0] == 'R' {
                let m = if s[0] == 'L' {
                    Modifier::L1
                } else {
                    Modifier::R1
                };
                if s.len() > 1 && s[1] == '(' {
                    decode_in(s.skip(2), DecodeMode::Open(m, Seq::empty()))
                } else {
                    None
                }
            } else {
                let n = code_len_at(s);
                if n == 0 {
                    None
                } else {
                    prepend(
                        TokenView::SimplePress(button_at(s)),
                        decode_in(s.skip(n), DecodeMode::Between),
                    )
                }
            }
        },
        DecodeMode::Open(m, taps) => {
            if s.len() == 0 {
                None
            } else if s[0] == ')' && taps.len() == 0 {
                prepend(TokenView::PhraseEnd(m, taps), decode_in(s.skip(1), DecodeMode::Between))
            } else {
                let n = code_len_at(s);
                if n == 0 {
                    None
                } else {
                    decode_in(s.skip(n), DecodeMode::AfterTap(m, taps.push(button_at(s))))
                }
            }
        },
        DecodeMode::AfterTap(m, taps) => {
            if s.len() == 0 {
                None
            } else if s[0] == ',' {
                decode_in(s.skip(1), DecodeMode::Open(m, taps))
            } else if s[0] == ')' {
                prepend(TokenView::PhraseEnd(m, taps), decode_in(s.skip(1), DecodeMode::Between))
            } else {
                None
            }
        },
    }
}

/// A button code is read back whole when no code digit follows it.
proof fn lemma_read_button(b: Button, rest: Seq<char>)
    requires
        rest.len() == 0 || !is_code_digit(rest[0]),
    ensures
        code_len_at(button_code(b) + rest) == button_code(b).len(),
        button_at(button_code(b) + rest) == b,
        (button_code(b) + rest).skip(button_code(b).len() as int) == rest,
{
    let s = button_code(b) + rest;
    assert(s.skip(button_code(b).len() as int) =~= rest);
    if button_code(b).len() == 1 {
        assert(s[0] == button_code(b)[0]);
        if rest.len() > 0 {
            assert(s[1] == rest[0]);
        }
    } else {
        assert(s[0] == button_code(b)[0]);
        assert(s[1] == button_code(b)[1]);
    }
}

/// The tap list read from its front.
proof fn lemma_tap_list_front(b: Button, t: Seq<Button>)
    requires
        t.len() > 0,
    ensures
        tap_list(seq![b] + t) == button_code(b) + seq![','] + tap_list(t),
    decreases t.len(),
{
    let u = seq![b] + t;
    assert(u.last() == t.last());
    if t.len() == 1 {
        assert(u.drop_last() =~= seq![b]);
        assert(tap_list(u.drop_last()) == button_code(b));
        assert(tap_list(t) == button_code(t.last()));
        assert(tap_list(u) =~= button_code(b) + seq![','] + tap_list(t));
    } else {
        assert(u.drop_last() =~= seq![b] + t.drop_last());
        lemma_tap_list_front(b, t.drop_last());
        assert(tap_list(u) =~= button_code(b) + seq![','] + tap_list(t));
    }
}

/// The credential of a sequence read from its front.
proof fn lemma_sequence_code_front(t: TokenView, ts: Seq<TokenView>)
    ensures
        sequence_code(seq![t] + ts) == token_code(t) + sequence_code(ts),
    decreases ts.len(),
{
    let u = seq![t] + ts;
    if ts.len() == 0 {
        assert(u.drop_last() =~= Seq::<TokenView>::empty());
        assert(sequence_code(u.drop_last()) =~= Seq::<char>::empty());
        assert(u.last() == t);
        assert(sequence_code(u) =~= token_code(t) + sequence_code(ts));
    } else {
        assert(u.drop_last() =~= seq![t] + ts.drop_last());
        assert(u.last() == ts.last());
        lemma_sequence_code_front(t, ts.drop_last());
        assert(sequence_code(u) =~= token_code(t) + sequence_code(ts));
    }
}

/// A credential never starts with a code digit.
proof fn lemma_credential_start(ts: Seq<TokenView>)
    requires
        all_credential_tokens(ts),
    ensures
        sequence_code(ts).len() == 0 || !is_code_digit(sequence_code(ts)[0]),
{
    if ts.len() > 0 {
        let t = ts[0];
        assert(is_credential_token(ts[0]));
        assert(ts =~= seq![t] + ts.drop_first());
        lemma_sequence_code_front(t, ts.drop_first());
        let s = sequence_code(ts);
        assert(s[0] == token_code(t)[0]);
    }
}

/// A phrase body `c1,...,cn)` is read back into its taps.
proof fn lemma_read_phrase(m: Modifier, taps0: Seq<Button>, taps: Seq<Button>, rest: Seq<char>)
    requires
        taps.len() > 0,
    ensures
        decode_in(tap_list(taps) + seq![')'] + rest, DecodeMode::Open(m, taps0)) == prepend(
            TokenView::PhraseEnd(m, taps0 + taps),
            decode_in(rest, DecodeMode::Between),
        ),
    decreases taps.len(),
{
    let b = taps[0];
    let t = taps.drop_first();
    assert(taps =~= seq![b] + t);
    let s = tap_list(taps) + seq![')'] + rest;
    let after = taps0.push(b);
    if t.len() == 0 {
        assert(tap_list(taps) == button_code(b));
        assert(s =~= button_code(b) + (seq![')'] + rest));
        lemma_read_button(b, seq![')'] + rest);
        let r = seq![')'] + rest;
        assert(s[0] == button_code(b)[0]);
        assert(r[0] == ')');
        assert(r.skip(1) =~= rest);
        assert(decode_in(r, DecodeMode::AfterTap(m, after)) == prepend(
            TokenView::PhraseEnd(m, after),
            decode_in(rest, DecodeMode::Between),
        ));
        assert(after =~= taps0 + taps);
    } else {
        lemma_tap_list_front(b, t);
        let r = seq![','] + tap_list(t) + seq![')'] + rest;
        assert(s =~= button_code(b) + r);
        lemma_read_button(b, r);
        assert(s[0] == button_code(b)[0]);
        assert(r[0] == ',');
        assert(r.skip(1) =~= tap_list(t) + seq![')'] + rest);
        lemma_read_phrase(m, after, t, rest);
        assert(decode_in(r, DecodeMode::AfterTap(m, after)) == decode_in(
            tap_list(t) + seq![')'] + rest,
            DecodeMode::Open(m, after),
        ));
        assert(after + t =~= taps0 + taps);
    }
}

/// Reading a credential back gives the tokens it was made from.
proof fn lemma_decode_credential(ts: Seq<TokenView>)
    requires
        all_credential_tokens(ts),
    ensures
        decode_in(sequence_code(ts), DecodeMode::Between) == Some(ts),
    decreases ts.len(),
{
    if ts.len() == 0 {
        assert(ts =~= Seq::<TokenView>::empty());
    } else {
        let t = ts[0];
        let rest = ts.drop_first();
        assert(is_credential_token(ts[0]));
        assert(ts =~= seq![t] + rest);
        assert(all_credential_tokens(rest)) by {
            assert forall|i: int| 0 <= i < rest.len() implies is_credential_token(
                #[trigger] rest[i],
            ) by {
                assert(rest[i] == ts[i + 1]);
            }
        }
        lemma_sequence_code_front(t, rest);
        lemma_decode_credential(rest);
        lemma_credential_start(rest);
        let r = sequence_code(rest);
        let s = sequence_code(ts);
        match t {
            TokenView::SimplePress(b) => {
                assert(s =~= button_code(b) + r);
                lemma_read_button(b, r);
                assert(s[0] == button_code(b)[0]);
            },
            TokenView::PhraseEnd(m, taps) => {
                assert(s[0] == token_code(t)[0]);
                assert(s[1] == '(');
                let body = tap_list(taps) + seq![')'] + r;
                assert(s.skip(2) =~= body);
                if taps.len() == 0 {
                    assert(tap_list(taps) =~= Seq::<char>::empty());
                    assert(body[0] == ')');
                    assert(body.skip(1) =~= r);
                    assert(taps =~= Seq::<Button>::empty());
                } else {
                    lemma_read_phrase(m, Seq::empty(), taps, r);
                    assert(Seq::<Button>::empty() + taps =~= taps);
                }
            },
            _ => {},
        }
    }
}

/// The credential is unambiguous: two sequences of presses and phrases with
/// the same credential string are the same sequence.
pub proof fn lemma_credential_is_unambiguous(a: Seq<TokenView>, b: Seq<TokenView>)
    requires
        all_credential_tokens(a),
        all_credential_tokens(b),
        sequence_code(a) == sequence_code(b),
    ensures
        a == b,
{
    lemma_decode_credential(a);
    lemma_decode_credential(b);
}

/// Each press or phrase has its own fragment: two of them with the same
/// fragment are the same token.
pub proof fn lemma_token_code_is_unambiguous(a: TokenView, b: TokenView)
    requires
        is_credential_token(a),
        is_credential_token(b),
        token_code(a) == token_code(b),
    ensures
        a == b,
{
    lemma_sequence_code_front(a, Seq::empty());
    lemma_sequence_code_front(b, Seq::empty());
    assert(token_code(a) + Seq::<char>::empty() =~= token_code(a));
    assert(token_code(b) + Seq::<char>::empty() =~= token_code(b));
    assert(all_credential_tokens(seq![a]));
    assert(all_credential_tokens(seq![b]));
    assert(seq![a] + Seq::<TokenView>::empty() =~= seq![a]);
    assert(seq![b] + Seq::<TokenView>::empty() =~= seq![b]);
    lemma_credential_is_unambiguous(seq![a], seq![b]);
    assert(seq![a][0] == seq![b][0]);
}

/// The credential of two sequences one after the other is the credential of
/// the first followed by that of the second.
pub proof fn lemma_sequence_code_concat(a: Seq<TokenView>, b: Seq<TokenView>)
    ensures
        sequence_code(a + b) == sequence_code(a) + sequence_code(b),
    decreases b.len(),
{
    if b.len() == 0 {
        assert(a + b =~= a);
        assert(sequence_code(a) + sequence_code(b) =~= sequence_code(a));
    } else {
        assert((a + b).drop_last() =~= a + b.drop_last());
        assert((a + b).last() == b.last());
        lemma_sequence_code_concat(a, b.drop_last());
        assert(sequence_code(a + b) =~= sequence_code(a) + sequence_code(b));
    }
}

/// Empty phrases and control actions contribute nothing: the credential of a
/// sequence is that of its presses and phrases alone.
pub proof fn lemma_only_credential_tokens_count(ts: Seq<TokenView>)
    ensures
        sequence_code(ts) == sequence_code(ts.filter(|t: TokenView| is_credential_token(t))),
    decreases ts.len(),
{
    reveal(Seq::filter);
    let pred = |t: TokenView| is_credential_token(t);
    if ts.len() > 0 {
        lemma_only_credential_tokens_count(ts.drop_last());
        let sub = ts.drop_last().filter(pred);
        if pred(ts.last()) {
            assert(sub.push(ts.last()).drop_last() =~= sub);
            assert(sub.push(ts.last()).last() == ts.last());
        } else {
            assert(token_code(ts.last()) =~= Seq::<char>::empty());
            assert(sequence_code(ts) =~= sequence_code(ts.drop_last()));
        }
    }
}

} // verus!
