//! Controller-native PIN authentication: the token model of controller
//! input and its credential encoding, the event decoder that turns raw
//! controller events into tokens, PIN entry, recognising the controller,
//! and the PIN rules shared by the PIN setup tool and the PAM module.

mod argon;
mod credential;
mod device;
mod entry;
mod pam_client;
mod pin;
mod reader;
mod reader_laws;
mod text;
mod token;

pub use argon::{
    argon2_accepts, argon2_params_valid, argon2id_hash_text, argon2id_phc_prefix, decimal_text,
    digit_char, is_b64_char, is_digit_char, is_generated_salt_text, long_lane_count_at,
    phc_parses, records_long_lane_count,
};
pub use credential::{
    all_credential_tokens, is_credential_token, lemma_credential_is_unambiguous,
    lemma_only_credential_tokens_count, lemma_sequence_code_concat, lemma_token_code_is_unambiguous,
};
pub use device::{
    is_controller_name, is_known_controller, known_controller_names, lemma_controller_names,
    lemma_known_names_recognised,
};
pub use entry::{
    enter_token, entry_after, lemma_backspace_removes_last, lemma_backspace_undoes_append,
    lemma_confirm_cancel_clear, lemma_entry_holds_only_presses_and_phrases, EntryStep,
};
pub use pam_client::{answers_prompt, exit_status, PAM_PROMPT_ECHO_OFF, PAM_PROMPT_ECHO_ON, PAM_SUCCESS};
pub use pin::{
    account_management_verdict, auth_step_for_stored_hash, auth_verdict, check_new_pin, hash_pin,
    is_argon2id_pin_hash, is_hash_of_pin, lemma_new_pin_rules, lemma_stored_hash_prefix, lemma_stored_pin_verifies,
    stored_hash_prefix, new_pin_outcome, set_credentials_verdict,
    stored_pin_check, verify_pin, AuthStep, AuthVerdict, NewPinError, PinHashError, ARGON2_M_COST,
    ARGON2_P_COST, ARGON2_T_COST,
};
pub use reader::{
    axis_step, button_step, initial_reader, key_button, key_control, key_modifier, key_step,
    key_to_button, key_to_control, key_to_modifier, modifier_of, modifier_step, modifier_transition, reader_step,
    token_option_view, with_modifier, ModifierView, RawEvent, ReaderView, TokenReader, ABS_HAT0X,
    ABS_HAT0Y, BTN_EAST, BTN_MODE, BTN_NORTH, BTN_SELECT, BTN_SOUTH, BTN_START, BTN_TL, BTN_TL2,
    BTN_TR, BTN_TR2, BTN_TRIGGER_HAPPY1, BTN_TRIGGER_HAPPY2, BTN_TRIGGER_HAPPY3, BTN_TRIGGER_HAPPY4,
    BTN_WEST, EV_ABS, EV_KEY,
};
pub use reader_laws::{
    axis_event, axis_events, axis_position, buttons_run, dpad_button, key_event,
    lemma_control_fires_on_press, lemma_dpad_fires_once, lemma_dpad_press_on_leaving_centre,
    lemma_dpad_run, lemma_initial_reader_well_formed, lemma_modifier_phrase,
    lemma_modifier_repeat_changes_nothing, lemma_other_axes_ignored, lemma_phrase_survives_repeats, lemma_phrase_of_taps,
    lemma_reader_stays_well_formed, lemma_simple_press, modifier_key, phrase_events,
    position_before, reader_run, reader_well_formed, tap_events, taps_events, with_axis,
};
pub use text::{
    contains, contains_text, is_white_space, is_whitespace, occurs_at, trim, trim_end, trim_start,
    trimmed,
};
pub use token::{
    button_code, encode_sequence, modifier_letter, sequence_code, tap_list, token_code, token_views,
    Button, ControlAction, Modifier, Token, TokenView,
};
