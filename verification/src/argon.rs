//! The calls into the `argon2` crate (and its `password-hash` companion)
//! that hashing and checking a PIN make, with what each is trusted to do.

use vstd::prelude::*;

use argon2::password_hash::rand_core::OsRng;
use argon2::password_hash::{PasswordHash, PasswordHasher, PasswordVerifier, SaltString};
use argon2::{Argon2, Params};

use crate::text::is_white_space;

verus! {

#[verifier::external_type_specification]
#[verifier::external_body]
pub struct ExPasswordHashError(argon2::password_hash::Error);

#[verifier::external_type_specification]
#[verifier::external_body]
pub struct ExSaltString(SaltString);

#[verifier::external_type_specification]
#[verifier::external_body]
pub struct ExPasswordHash<'a>(PasswordHash<'a>);

/// Whether `PasswordHash::new` of `password-hash` accepts the text as a PHC
/// string.
pub uninterp spec fn phc_parses(text: Seq<char>) -> bool;

/// Whether argon2's `verify_password`, on a context without a secret key,
/// accepts the password bytes against the hash parsed from the PHC text.
pub uninterp spec fn argon2_accepts(password: Seq<u8>, phc: Seq<char>) -> bool;

/// The last field of the PHC string that argon2's `hash_password` writes
/// with Argon2id, version 0x13, these costs, no secret key and this B64
/// salt: the 32-byte hash of the password, B64-encoded.
pub uninterp spec fn argon2id_hash_text(
    m_cost: u32,
    t_cost: u32,
    p_cost: u32,
    password: Seq<u8>,
    salt: Seq<char>,
) -> Seq<char>;

/// The parameter bounds that `Params::new` of argon2 checks: memory at least
/// 8 KiB blocks and at least 8 per lane, at least one pass, between 1 and
/// 2^24 - 1 lanes.
pub open spec fn argon2_params_valid(m_cost: u32, t_cost: u32, p_cost: u32) -> bool {
    &&& m_cost >= 8
    &&& m_cost >= 8 * p_cost
    &&& t_cost >= 1
    &&& 1 <= p_cost <= 0xFF_FFFF
}

/// The decimal digit `d` (below 10).
pub open spec fn digit_char(d: nat) -> char {
    if d == 0 {
        '0'
    } else if d == 1 {
        '1'
    } else if d == 2 {
        '2'
    } else if d == 3 {
        '3'
    } else if d == 4 {
        '4'
    } else if d == 5 {
        '5'
    } else if d == 6 {
        '6'
    } else if d == 7 {
        '7'
    } else if d == 8 {
        '8'
    } else {
        '9'
    }
}

/// `n` written in decimal, without leading zeros.
pub open spec fn decimal_text(n: nat) -> Seq<char>
    decreases n,
{
    if n < 10 {
        seq![digit_char(n)]
    } else {
        decimal_text(n / 10).push(digit_char(n % 10))
    }
}

/// How a PHC string of Argon2id at version 0x13 with these costs begins, up
/// to and including the `$` before the salt.
pub open spec fn argon2id_phc_prefix(m_cost: u32, t_cost: u32, p_cost: u32) -> Seq<char> {
    "$argon2id$v=19$m="@ + decimal_text(m_cost as nat) + ",t="@ + decimal_text(t_cost as nat)
        + ",p="@ + decimal_text(p_cost as nat) + "$"@
}

/// A character of the B64 alphabet (standard Base64 without padding).
pub open spec fn is_b64_char(c: char) -> bool {
    ||| 'A' <= c <= 'Z'
    ||| 'a' <= c <= 'z'
    ||| '0' <= c <= '9'
    ||| c == '+'
    ||| c == '/'
}

/// The text of a salt drawn from the generator: 16 bytes in B64, that is 22
/// characters of the B64 alphabet.
pub open spec fn is_generated_salt_text(s: Seq<char>) -> bool {
    &&& s.len() == 22
    &&& forall|i: int| 0 <= i < s.len() ==> is_b64_char(#[trigger] s[i])
}

/// A decimal digit.
pub open spec fn is_digit_char(c: char) -> bool {
    '0' <= c <= '9'
}

/// Whether `p=` followed by nine or more digits starts at position `i`: a
/// lane count of 10^8 or more recorded there.
pub open spec fn long_lane_count_at(text: Seq<char>, i: int) -> bool {
    &&& 0 <= i
    &&& i + 11 <= text.len()
    &&& text[i] == 'p'
    &&& text[i + 1] == '='
    &&& forall|j: int| i + 2 <= j < i + 11 ==> is_digit_char(#[trigger] text[j])
}

/// Whether a PHC text records a lane count of 10^8 or more. Argon2 refuses
/// any lane count of 2^24 or more; from 2^29 on, checking a password
/// against such a text overflows in argon2's `Params::new` before it is
/// refused.
pub open spec fn records_long_lane_count(text: Seq<char>) -> bool {
    exists|i: int| long_lane_count_at(text, i)
}

/// A salt drawn from the operating system's generator, together with its
/// B64 text. Only `random_salt` makes one.
pub struct GeneratedSalt {
    salt: SaltString,
    text: String,
}

impl GeneratedSalt {
    /// The salt's B64 text.
    pub closed spec fn text(&self) -> Seq<char> {
        self.text@
    }
}

/// A parsed PHC string together with the text it was parsed from.
pub struct ParsedHash<'a> {
    hash: PasswordHash<'a>,
    text: &'a str,
}

impl<'a> ParsedHash<'a> {
    /// The text the hash was parsed from.
    pub closed spec fn text(&self) -> Seq<char> {
        self.text@
    }
}

/// `SaltString::generate(&mut OsRng)` of `password-hash`, with the salt's
/// text (`as_str`). Its source fills 16 bytes from the generator and
/// encodes them in B64 without padding: 22 characters of the B64 alphabet.
/// Which bytes come out rests on chance and is not stated. `OsRng` panics
/// where the operating system's generator fails; that cannot be excluded by
/// a precondition and is not stated.
#[verifier::external_body]
pub(crate) fn random_salt() -> (salt: GeneratedSalt)
    ensures
        is_generated_salt_text(salt.text()),
{
    let salt = SaltString::generate(&mut OsRng);
    let text = salt.as_str().to_string();
    GeneratedSalt { salt, text }
}

/// `PasswordHasher::hash_password` of argon2 on the context
/// `Argon2::from(Params::new(m_cost, t_cost, p_cost, None))` (Argon2id,
/// version 0x13, these costs, no secret key, 32-byte output), the hash
/// written out as its PHC string (`Display` of `PasswordHash`). Costs that
/// `Params::new` refuses are left out. Of the sources: the salt (16 bytes) and the output (32 bytes) are within
/// argon2's bounds, so hashing fails exactly where the password is longer
/// than 2^32 - 1 bytes. A success is `$argon2id$v=19$m=..,t=..,p=..$`, the
/// salt's text, `$` and the B64 hash; it parses again; checking the same
/// password against it succeeds, since checking recomputes the hash with
/// the algorithm, version, costs, salt and output length that the string
/// records; it holds no white space; and the one `p=` in it is followed by
/// the lane count, below 2^24 and so of at most 8 digits (`=` occurs
/// nowhere else but after `v` and the other cost names, and not in the
/// Base64 salt and hash). The memory the costs ask for must be available;
/// that is not stated.
#[verifier::external_body]
pub(crate) fn argon2id_hash_password(
    m_cost: u32,
    t_cost: u32,
    p_cost: u32,
    password: &[u8],
    salt: &GeneratedSalt,
) -> (r: Result<String, argon2::password_hash::Error>)
    requires
        argon2_params_valid(m_cost, t_cost, p_cost),
    ensures
        r is Ok <==> password@.len() <= u32::MAX,
        r matches Ok(phc) ==> {
            &&& phc@ == argon2id_phc_prefix(m_cost, t_cost, p_cost) + salt.text() + "$"@
                + argon2id_hash_text(m_cost, t_cost, p_cost, password@, salt.text())
            &&& phc_parses(phc@)
            &&& argon2_accepts(password@, phc@)
            &&& forall|i: int| 0 <= i < phc@.len() ==> !is_white_space(#[trigger] phc@[i])
            &&& !records_long_lane_count(phc@)
        },
{
    let params = Params::new(m_cost, t_cost, p_cost, None)?;
    let hash = Argon2::from(params).hash_password(password, &salt.salt)?;
    Ok(hash.to_string())
}

/// `PasswordHash::new` of `password-hash`: parses a PHC string. It succeeds
/// exactly where `phc_parses` holds; the parsed hash keeps the text.
#[verifier::external_body]
pub(crate) fn parse_phc<'a>(text: &'a str) -> (r: Result<ParsedHash<'a>, argon2::password_hash::Error>)
    ensures
        r is Ok <==> phc_parses(text@),
        r matches Ok(parsed) ==> parsed.text() == text@,
{
    match PasswordHash::new(text) {
        Ok(hash) => Ok(ParsedHash { hash, text }),
        Err(e) => Err(e),
    }
}

/// `PasswordVerifier::verify_password` of argon2 on `Argon2::default()`,
/// which has no secret key; success turned into `true`. Its source
/// recomputes the hash with the algorithm, version, costs, salt and output
/// length recorded in the parsed hash and with the context's secret key
/// (none), so the answer is `argon2_accepts` of the password and the parsed
/// text. The costs are read with `Params::try_from`, which ends in
/// `Params::new`; that computes `p_cost * 8` in `u32` and overflows for a
/// recorded lane count of 2^29 or more, so texts that record a lane count
/// of nine or more digits are left out. The memory the recorded costs ask
/// for must be available; that is not stated.
#[verifier::external_body]
pub(crate) fn argon2_verify_password(password: &[u8], hash: &ParsedHash) -> (ok: bool)
    requires
        !records_long_lane_count(hash.text()),
    ensures
        ok == argon2_accepts(password@, hash.text()),
{
    Argon2::default().verify_password(password, &hash.hash).is_ok()
}

} // verus!
