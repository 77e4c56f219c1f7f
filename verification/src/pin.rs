//! The PIN rules shared by the PIN setup tool and the PAM module: which new
//! PINs are accepted, how a PIN is hashed for storage, how a PIN is checked
//! against the stored hash, and what the PAM module answers.

use vstd::prelude::*;
use vstd::utf8::encode_utf8;

use crate::argon::{
    argon2_accepts, argon2_verify_password, argon2id_hash_password, argon2id_hash_text,
    argon2id_phc_prefix, decimal_text, is_digit_char, is_generated_salt_text, long_lane_count_at,
    parse_phc, phc_parses, random_salt, records_long_lane_count,
};
use crate::text::{is_white_space, trim, trim_end, trim_start, trimmed};

verus! {

/// Argon2id memory cost, in KiB (64 MiB). A PIN is checked rarely and
/// locally, so the costs sit well above the usual minimums.
pub const ARGON2_M_COST: u32 = 65536;

/// Argon2id number of passes.
pub const ARGON2_T_COST: u32 = 3;

/// Argon2id degree of parallelism.
pub const ARGON2_P_COST: u32 = 4;

/// Why a new PIN is refused.
#[derive(Debug, Clone, Copy, PartialEq, Eq, Structural)]
pub enum NewPinError {
    /// The PIN and its confirmation differ.
    Mismatch,
    /// The PIN is empty or only white space.
    Empty,
    /// The PIN is shorter than 4 characters.
    TooShort,
}

/// Why hashing or checking a PIN failed.
#[derive(Debug)]
pub enum PinHashError {
    /// The stored hash is not a PHC string.
    MalformedHash(argon2::password_hash::Error),
    /// Hashing the PIN failed.
    HashFailed(argon2::password_hash::Error),
}

/// What the PAM module answers.
#[derive(Debug, Clone, Copy, PartialEq, Eq, Structural)]
pub enum AuthVerdict {
    /// The PIN matches the stored hash.
    Success,
    /// No usable PIN was given, it does not match, or the stored hash is malformed.
    AuthErr,
    /// No PIN is configured: the stack falls through to the next module.
    AuthInfoUnavail,
    /// This module has no say: PAM disregards its answer.
    Ignore,
}

/// What the PAM module does once it has tried to read the stored hash.
#[derive(Debug, Clone, Copy, PartialEq, Eq, Structural)]
pub enum AuthStep {
    /// Ask the user for the PIN.
    AskForPin,
    /// Answer without asking.
    Answer(AuthVerdict),
}

/// The answer to a new PIN and its confirmation: they must match, hold
/// something besides white space, and be at least 4 characters long,
/// checked in that order.
pub open spec fn new_pin_outcome(pin: Seq<char>, confirm: Seq<char>) -> Result<(), NewPinError> {
    if pin != confirm {
        Err(NewPinError::Mismatch)
    } else if trimmed(pin).len() == 0 {
        Err(NewPinError::Empty)
    } else if pin.len() < 4 {
        Err(NewPinError::TooShort)
    } else {
        Ok(())
    }
}

/// A PHC string that stores `pin`: it parses, Argon2 accepts the PIN's UTF-8
/// bytes against it, it holds no white space, and the lane count it records
/// is short.
pub open spec fn is_hash_of_pin(pin: Seq<char>, phc: Seq<char>) -> bool {
    &&& phc_parses(phc)
    &&& argon2_accepts(encode_utf8(pin), phc)
    &&& forall|i: int| 0 <= i < phc.len() ==> !is_white_space(#[trigger] phc[i])
    &&& !records_long_lane_count(phc)
}

/// The check of `pin` against the stored hash text: `None` where the text,
/// without surrounding white space, is no PHC string; a refusal where it
/// records a lane count of nine or more digits (argon2 accepts none of
/// 2^24 or more); otherwise whether Argon2 accepts the PIN's UTF-8 bytes
/// against it.
pub open spec fn stored_pin_check(pin: Seq<char>, stored: Seq<char>) -> Option<bool> {
    let text = trimmed(stored);
    if !phc_parses(text) {
        None
    } else if records_long_lane_count(text) {
        Some(false)
    } else {
        Some(argon2_accepts(encode_utf8(pin), text))
    }
}

/// Checks a new PIN and its confirmation.
pub fn check_new_pin(pin: &String, confirm: &String) -> (r: Result<(), NewPinError>)
    ensures
        r == new_pin_outcome(pin@, confirm@),
{
    if !(*pin == *confirm) {
        return Err(NewPinError::Mismatch);
    }
    if trim(pin.as_str()).is_empty() {
        return Err(NewPinError::Empty);
    }
    if pin.as_str().unicode_len() < 4 {
        return Err(NewPinError::TooShort);
    }
    Ok(())
}

/// How every PHC string this tool stores begins: Argon2id, version 0x13,
/// 64 MiB, 3 passes, 4 lanes.
pub open spec fn stored_hash_prefix() -> Seq<char> {
    argon2id_phc_prefix(ARGON2_M_COST, ARGON2_T_COST, ARGON2_P_COST)
}

/// The PHC string that Argon2id with this tool's costs writes for `pin` and
/// some salt drawn from the generator: the prefix, the salt, `$` and the
/// hash.
pub open spec fn is_argon2id_pin_hash(pin: Seq<char>, phc: Seq<char>) -> bool {
    exists|salt: Seq<char>|
        #[trigger] is_generated_salt_text(salt) && phc == stored_hash_prefix() + salt + "$"@
            + argon2id_hash_text(ARGON2_M_COST, ARGON2_T_COST, ARGON2_P_COST, encode_utf8(pin), salt)
}

/// Hashes a PIN with Argon2id (64 MiB, 3 passes, 4 lanes) and a random salt,
/// into the PHC string that is stored. It fails only for a PIN longer than
/// 2^32 - 1 bytes, which argon2 refuses.
pub fn hash_pin(pin: &str) -> (r: Result<String, PinHashError>)
    ensures
        r is Ok <==> encode_utf8(pin@).len() <= u32::MAX,
        r matches Ok(phc) ==> is_argon2id_pin_hash(pin@, phc@) && is_hash_of_pin(pin@, phc@),
        r matches Err(e) ==> e is HashFailed,
{
    let salt = random_salt();
    match argon2id_hash_password(ARGON2_M_COST, ARGON2_T_COST, ARGON2_P_COST, pin.as_bytes(), &salt) {
        Ok(phc) => {
            assert(is_generated_salt_text(salt.text()));
            Ok(phc)
        },
        Err(e) => Err(PinHashError::HashFailed(e)),
    }
}

/// What every stored hash begins with, written out.
pub proof fn lemma_stored_hash_prefix()
    ensures
        stored_hash_prefix() == "$argon2id$v=19$m=65536,t=3,p=4$"@,
{
    reveal_strlit("$argon2id$v=19$m=");
    reveal_strlit(",t=");
    reveal_strlit(",p=");
    reveal_strlit("$");
    reveal_strlit("$argon2id$v=19$m=65536,t=3,p=4$");
    reveal_with_fuel(decimal_text, 6);
    assert(decimal_text(3) =~= seq!['3']);
    assert(decimal_text(4) =~= seq!['4']);
    assert(decimal_text(6) =~= seq!['6']);
    assert(decimal_text(65) =~= seq!['6', '5']);
    assert(decimal_text(655) =~= seq!['6', '5', '5']);
    assert(decimal_text(6553) =~= seq!['6', '5', '5', '3']);
    assert(decimal_text(65536) =~= seq!['6', '5', '5', '3', '6']);
    assert(stored_hash_prefix() =~= "$argon2id$v=19$m=65536,t=3,p=4$"@);
}

/// Whether the character at `j` is a decimal digit.
fn is_digit_at(text: &str, j: usize) -> (r: bool)
    requires
        j < text@.len(),
    ensures
        r == is_digit_char(text@[j as int]),
{
    let c = text.get_char(j);
    '0' <= c && c <= '9'
}

/// Whether `p=` and nine or more digits occur in the text.
fn has_long_lane_count(text: &str) -> (r: bool)
    ensures
        r == records_long_lane_count(text@),
{
    let n = text.unicode_len();
    let mut i: usize = 0;
    while n >= 11 && i <= n - 11
        invariant
            n == text@.len(),
            forall|k: int| 0 <= k < i ==> !long_lane_count_at(text@, k),
        decreases n - i,
    {
        if text.get_char(i) == 'p' && text.get_char(i + 1) == '=' {
            let mut j: usize = i + 2;
            while j < i + 11 && is_digit_at(text, j)
                invariant
                    n == text@.len(),
                    i + 11 <= n,
                    i + 2 <= j <= i + 11,
                    forall|k: int| i + 2 <= k < j ==> is_digit_char(#[trigger] text@[k]),
                decreases i + 11 - j,
            {
                j = j + 1;
            }
            if j == i + 11 {
                assert(long_lane_count_at(text@, i as int));
                return true;
            }
            assert(!long_lane_count_at(text@, i as int)) by {
                assert(!is_digit_char(text@[j as int]));
            }
        }
        i = i + 1;
    }
    assert forall|k: int| !long_lane_count_at(text@, k) by {
        if 0 <= k < i {
        }
    }
    false
}

/// Checks a PIN against the stored hash text (surrounding white space
/// ignored). `Err` where the stored text is no PHC string; `Ok(false)`
/// where it records a lane count of nine or more digits, which argon2
/// refuses.
pub fn verify_pin(pin: &str, stored_hash: &str) -> (r: Result<bool, PinHashError>)
    ensures
        match r {
            Ok(ok) => stored_pin_check(pin@, stored_hash@) == Some(ok),
            Err(e) => stored_pin_check(pin@, stored_hash@) is None && e is MalformedHash,
        },
{
    let text = trim(stored_hash);
    let parsed = match parse_phc(text) {
        Ok(parsed) => parsed,
        Err(e) => return Err(PinHashError::MalformedHash(e)),
    };
    if has_long_lane_count(text) {
        return Ok(false);
    }
    Ok(argon2_verify_password(pin.as_bytes(), &parsed))
}

/// What the PAM module does after trying to read the stored hash: with no
/// hash, no PIN is configured and it answers so without asking.
pub fn auth_step_for_stored_hash(found: bool) -> (s: AuthStep)
    ensures
        s == if found {
            AuthStep::AskForPin
        } else {
            AuthStep::Answer(AuthVerdict::AuthInfoUnavail)
        },
{
    if found {
        AuthStep::AskForPin
    } else {
        AuthStep::Answer(AuthVerdict::AuthInfoUnavail)
    }
}

/// The PAM module's answer to the PIN the user gave (`None` where none came
/// back or it was no text): success exactly when the PIN checks against the
/// stored hash.
pub fn auth_verdict(stored_hash: &str, pin: Option<&str>) -> (v: AuthVerdict)
    ensures
        v == match pin {
            Some(p) => if stored_pin_check(p@, stored_hash@) == Some(true) {
                AuthVerdict::Success
            } else {
                AuthVerdict::AuthErr
            },
            None => AuthVerdict::AuthErr,
        },
{
    match pin {
        None => AuthVerdict::AuthErr,
        Some(p) => match verify_pin(p, stored_hash) {
            Ok(true) => AuthVerdict::Success,
            Ok(false) => AuthVerdict::AuthErr,
            Err(_) => AuthVerdict::AuthErr,
        },
    }
}

/// The answer to a request to set credentials. It runs only after the user's
/// identity was established, and this module has no credentials to set up,
/// so there is nothing to do and it succeeds.
pub fn set_credentials_verdict() -> (v: AuthVerdict)
    ensures
        v == AuthVerdict::Success,
{
    AuthVerdict::Success
}

/// The answer to account management (expired or locked accounts, forced
/// password changes). This module has no opinion there, so it is ignored
/// rather than succeeding: it can never wave an account through.
pub fn account_management_verdict() -> (v: AuthVerdict)
    ensures
        v == AuthVerdict::Ignore,
{
    AuthVerdict::Ignore
}

/// Leading white space goes; what follows stays.
proof fn lemma_trim_start_of_padded(pre: Seq<char>, s: Seq<char>)
    requires
        forall|i: int| 0 <= i < pre.len() ==> is_white_space(#[trigger] pre[i]),
    ensures
        trim_start(pre + s) == trim_start(s),
    decreases pre.len(),
{
    if pre.len() > 0 {
        assert((pre + s)[0] == pre[0]);
        assert((pre + s).drop_first() =~= pre.drop_first() + s);
        lemma_trim_start_of_padded(pre.drop_first(), s);
    } else {
        assert(pre + s =~= s);
    }
}

/// Trailing white space goes; what precedes stays.
proof fn lemma_trim_end_of_padded(s: Seq<char>, post: Seq<char>)
    requires
        forall|i: int| 0 <= i < post.len() ==> is_white_space(#[trigger] post[i]),
    ensures
        trim_end(s + post) == trim_end(s),
    decreases post.len(),
{
    if post.len() > 0 {
        assert((s + post).last() == post.last());
        assert((s + post).drop_last() =~= s + post.drop_last());
        lemma_trim_end_of_padded(s, post.drop_last());
    } else {
        assert(s + post =~= s);
    }
}

/// A hash stored by the PIN setup tool lets the PAM module accept the same
/// PIN: the check of a PIN against a PHC string that stores it succeeds,
/// also with white space (a line break, say) before or after the string.
pub proof fn lemma_stored_pin_verifies(pin: Seq<char>, phc: Seq<char>, pre: Seq<char>, post: Seq<char>)
    requires
        is_hash_of_pin(pin, phc),
        forall|i: int| 0 <= i < pre.len() ==> is_white_space(#[trigger] pre[i]),
        forall|i: int| 0 <= i < post.len() ==> is_white_space(#[trigger] post[i]),
    ensures
        stored_pin_check(pin, pre + phc + post) == Some(true),
{
    lemma_trim_start_of_padded(pre, phc + post);
    assert(pre + phc + post =~= pre + (phc + post));
    if phc.len() > 0 {
        assert((phc + post)[0] == phc[0]);
        assert(trim_start(phc + post) == phc + post);
        lemma_trim_end_of_padded(phc, post);
        assert(trim_end(phc) == phc);
    } else {
        assert(phc + post =~= post);
        lemma_trim_start_of_padded(post, Seq::empty());
        assert(post + Seq::<char>::empty() =~= post);
        assert(trim_start(Seq::<char>::empty()) == Seq::<char>::empty());
        assert(trim_end(Seq::<char>::empty()) == Seq::<char>::empty());
        assert(phc =~= Seq::<char>::empty());
    }
}


/// Trimming leaves nothing exactly when every character is white space.
proof fn lemma_trimmed_empty_iff_blank(s: Seq<char>)
    ensures
        trimmed(s).len() == 0 <==> forall|i: int| 0 <= i < s.len() ==> is_white_space(#[trigger] s[i]),
{
    lemma_trim_start_blank(s);
    let t = trim_start(s);
    if t.len() > 0 {
        lemma_trim_end_keeps_first(t);
    }
}

/// `trim_start` leaves nothing exactly when every character is white space;
/// what it leaves is a suffix starting at a character that is not.
proof fn lemma_trim_start_blank(s: Seq<char>)
    ensures
        trim_start(s).len() == 0 <==> forall|i: int| 0 <= i < s.len() ==> is_white_space(#[trigger] s[i]),
        trim_start(s).len() > 0 ==> !is_white_space(trim_start(s)[0]),
    decreases s.len(),
{
    if s.len() > 0 && is_white_space(s[0]) {
        lemma_trim_start_blank(s.drop_first());
        assert forall|i: int| 0 <= i < s.len() && (forall|j: int| 0 <= j < s.drop_first().len() ==> is_white_space(#[trigger] s.drop_first()[j])) implies is_white_space(#[trigger] s[i]) by {
            if i > 0 {
                assert(s[i] == s.drop_first()[i - 1]);
            }
        }
        assert((forall|i: int| 0 <= i < s.len() ==> is_white_space(#[trigger] s[i])) ==> (forall|j: int| 0 <= j < s.drop_first().len() ==> is_white_space(#[trigger] s.drop_first()[j]))) by {
            assert forall|j: int| 0 <= j < s.drop_first().len() && (forall|i: int| 0 <= i < s.len() ==> is_white_space(#[trigger] s[i])) implies is_white_space(#[trigger] s.drop_first()[j]) by {
                assert(s.drop_first()[j] == s[j + 1]);
            }
        }
    } else if s.len() > 0 {
        assert(!is_white_space(s[0]));
    }
}

/// A text whose first character is not white space keeps it when trimmed at
/// the end, so it does not become empty.
proof fn lemma_trim_end_keeps_first(t: Seq<char>)
    requires
        t.len() > 0,
        !is_white_space(t[0]),
    ensures
        trim_end(t).len() > 0,
    decreases t.len(),
{
    if is_white_space(t.last()) {
        assert(t.len() > 1);
        assert(t.drop_last()[0] == t[0]);
        lemma_trim_end_keeps_first(t.drop_last());
    }
}

/// A new PIN is accepted exactly when it equals its confirmation, holds a
/// character that is not white space, and has at least 4 characters, however
/// long it is. Otherwise the first rule it breaks, in that order, is the
/// error.
pub proof fn lemma_new_pin_rules(pin: Seq<char>, confirm: Seq<char>)
    ensures
        new_pin_outcome(pin, confirm) is Ok <==> pin == confirm && (exists|i: int|
            0 <= i < pin.len() && !is_white_space(#[trigger] pin[i])) && pin.len() >= 4,
        new_pin_outcome(pin, confirm) == Err::<(), NewPinError>(NewPinError::Mismatch) <==> pin
            != confirm,
        new_pin_outcome(pin, confirm) == Err::<(), NewPinError>(NewPinError::Empty) <==> pin
            == confirm && forall|i: int| 0 <= i < pin.len() ==> is_white_space(#[trigger] pin[i]),
        new_pin_outcome(pin, confirm) == Err::<(), NewPinError>(NewPinError::TooShort) <==> pin
            == confirm && (exists|i: int| 0 <= i < pin.len() && !is_white_space(#[trigger] pin[i]))
            && pin.len() < 4,
{
    lemma_trimmed_empty_iff_blank(pin);
}

} // verus!
