//! Decisions of the PAM smoke test, which runs `pam_authenticate` against a
//! service and answers the module's prompts with the PIN it was given.

use vstd::prelude::*;

verus! {

/// The code PAM returns on success.
pub const PAM_SUCCESS: i32 = 0;

/// Message style of a prompt whose answer is not echoed.
pub const PAM_PROMPT_ECHO_OFF: i32 = 1;

/// Message style of a prompt whose answer is echoed.
pub const PAM_PROMPT_ECHO_ON: i32 = 2;

/// Whether a conversation message of this style gets the PIN as its answer:
/// prompts do, with or without echo; informational and error messages do not.
pub fn answers_prompt(msg_style: i32) -> (b: bool)
    ensures
        b == (msg_style == PAM_PROMPT_ECHO_OFF || msg_style == PAM_PROMPT_ECHO_ON),
{
    msg_style == PAM_PROMPT_ECHO_OFF || msg_style == PAM_PROMPT_ECHO_ON
}

/// The smoke test's exit status for PAM's return code: 0 on success, 1
/// otherwise (the code decides, not PAM's message text, which differs
/// between implementations).
pub fn exit_status(pam_code: i32) -> (status: i32)
    ensures
        status == if pam_code == PAM_SUCCESS {
            0i32
        } else {
            1i32
        },
{
    if pam_code == PAM_SUCCESS {
        0
    } else {
        1
    }
}

} // verus!
