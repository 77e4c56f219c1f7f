//! PIN entry on the controller: how the tokens a user produces edit the
//! credential being entered.

use vstd::prelude::*;

use crate::credential::{all_credential_tokens, is_credential_token};
use crate::token::{encode_sequence, sequence_code, token_views, ControlAction, Token, TokenView};

verus! {

/// What a token did to the credential being entered.
#[derive(Debug)]
pub enum EntryStep {
    /// An empty phrase: ignored.
    Ignored,
    /// Backspace: the last token was removed (if there was one).
    Erased,
    /// Confirm: the credential entered, handed out; the entry starts over.
    Confirmed(String),
    /// Cancel: the entry was thrown away and starts over.
    Cancelled,
    /// A press or phrase joined the entry.
    Added,
}

/// The entry after a token.
pub open spec fn entry_after(entry: Seq<TokenView>, t: TokenView) -> Seq<TokenView> {
    match t {
        TokenView::PhraseEmpty => entry,
        TokenView::Control(ControlAction::Backspace) => if entry.len() == 0 {
            entry
        } else {
            entry.drop_last()
        },
        TokenView::Control(_) => Seq::empty(),
        _ => entry.push(t),
    }
}

/// Applies a token to the entry: an empty phrase is ignored, Backspace
/// removes the last token, Confirm hands out the credential of the entry
/// and clears it, Cancel clears it, a press or phrase is appended.
pub fn enter_token(entry: &mut Vec<Token>, token: Token) -> (step: EntryStep)
    ensures
        token_views(final(entry)@) == entry_after(token_views(old(entry)@), token@),
        match token@ {
            TokenView::PhraseEmpty => step is Ignored,
            TokenView::Control(ControlAction::Backspace) => step is Erased,
            TokenView::Control(ControlAction::Confirm) => step matches EntryStep::Confirmed(
                credential,
            ) && credential@ == sequence_code(token_views(old(entry)@)),
            TokenView::Control(ControlAction::Cancel) => step is Cancelled,
            _ => step is Added,
        },
{
    match token {
        Token::PhraseEmpty => EntryStep::Ignored,
        Token::Control(ControlAction::Backspace) => {
            let ghost before = entry@;
            let _ = entry.pop();
            proof {
                if before.len() > 0 {
                    assert(token_views(entry@) =~= token_views(before).drop_last());
                } else {
                    assert(token_views(entry@) =~= token_views(before));
                }
            }
            EntryStep::Erased
        },
        Token::Control(ControlAction::Confirm) => {
            let credential = encode_sequence(entry.as_slice());
            entry.clear();
            assert(token_views(entry@) =~= Seq::<TokenView>::empty());
            EntryStep::Confirmed(credential)
        },
        Token::Control(ControlAction::Cancel) => {
            entry.clear();
            assert(token_views(entry@) =~= Seq::<TokenView>::empty());
            EntryStep::Cancelled
        },
        _ => {
            let ghost before = entry@;
            let ghost view = token@;
            entry.push(token);
            assert(token_views(entry@) =~= token_views(before).push(view));
            EntryStep::Added
        },
    }
}

/// Control actions and empty phrases never become part of a PIN: an entry
/// of presses and phrases stays one, whatever token comes next.
pub proof fn lemma_entry_holds_only_presses_and_phrases(entry: Seq<TokenView>, t: TokenView)
    requires
        all_credential_tokens(entry),
    ensures
        all_credential_tokens(entry_after(entry, t)),
{
    let next = entry_after(entry, t);
    assert forall|i: int| 0 <= i < next.len() implies is_credential_token(#[trigger] next[i]) by {
        if i < entry.len() {
            assert(next[i] == entry[i]);
        }
    }
}


/// Backspace removes exactly the last token of a non-empty entry, keeping
/// the others in order, and leaves an empty entry empty.
pub proof fn lemma_backspace_removes_last(entry: Seq<TokenView>)
    ensures
        ({
            let after = entry_after(entry, TokenView::Control(ControlAction::Backspace));
            &&& entry.len() > 0 ==> after.len() == entry.len() - 1
            &&& entry.len() == 0 ==> after.len() == 0
            &&& forall|i: int| 0 <= i < after.len() ==> after[i] == entry[i]
        }),
{
}

/// Backspace after appending a press or phrase gives back the entry as it
/// was: the two undo each other.
pub proof fn lemma_backspace_undoes_append(entry: Seq<TokenView>, t: TokenView)
    requires
        is_credential_token(t),
    ensures
        entry_after(entry_after(entry, t), TokenView::Control(ControlAction::Backspace)) == entry,
{
    assert(entry.push(t).drop_last() =~= entry);
}

/// Confirm and Cancel both leave an empty entry behind, and an empty phrase
/// leaves the entry as it was.
pub proof fn lemma_confirm_cancel_clear(entry: Seq<TokenView>)
    ensures
        entry_after(entry, TokenView::Control(ControlAction::Confirm)).len() == 0,
        entry_after(entry, TokenView::Control(ControlAction::Cancel)).len() == 0,
        entry_after(entry, TokenView::PhraseEmpty) == entry,
{
}

} // verus!
