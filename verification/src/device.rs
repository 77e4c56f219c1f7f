//! Recognising the handheld's controller among the input devices.

use vstd::prelude::*;

use crate::text::{contains, contains_text, occurs_at};

verus! {

/// Known controller device names as reported by the handheld daemon or the
/// kernel driver: the Steam Deck's own controller, the Steam Controller,
/// and the two pads the daemon emulates on other handhelds.
pub open spec fn known_controller_names() -> Seq<Seq<char>> {
    seq![
        "Steam Deck Controller"@,
        "Steam Controller"@,
        "Microsoft X-Box 360 pad"@,
        "Xbox Wireless Controller"@,
    ]
}

/// A device name that looks like a handheld controller: it contains one of
/// the known names.
pub open spec fn is_controller_name(name: Seq<char>) -> bool {
    exists|k: int| 0 <= k < known_controller_names().len() && contains_text(name, #[trigger] known_controller_names()[k])
}

/// Whether a device of this name looks like a handheld controller.
pub fn is_known_controller(name: &str) -> (b: bool)
    ensures
        b == is_controller_name(name@),
{
    let ghost names = known_controller_names();
    let found = contains(name, "Steam Deck Controller") || contains(name, "Steam Controller")
        || contains(name, "Microsoft X-Box 360 pad") || contains(name, "Xbox Wireless Controller");
    assert(names[0] == "Steam Deck Controller"@);
    assert(names[1] == "Steam Controller"@);
    assert(names[2] == "Microsoft X-Box 360 pad"@);
    assert(names[3] == "Xbox Wireless Controller"@);
    found
}


/// A device name is recognised exactly when it contains "Steam Deck
/// Controller", "Steam Controller", "Microsoft X-Box 360 pad" or "Xbox
/// Wireless Controller"; each of those names itself is recognised.
pub proof fn lemma_controller_names(name: Seq<char>)
    ensures
        is_controller_name(name) <==> {
            ||| contains_text(name, "Steam Deck Controller"@)
            ||| contains_text(name, "Steam Controller"@)
            ||| contains_text(name, "Microsoft X-Box 360 pad"@)
            ||| contains_text(name, "Xbox Wireless Controller"@)
        },
{
    let names = known_controller_names();
    assert(names[0] == "Steam Deck Controller"@);
    assert(names[1] == "Steam Controller"@);
    assert(names[2] == "Microsoft X-Box 360 pad"@);
    assert(names[3] == "Xbox Wireless Controller"@);
    if contains_text(name, "Steam Deck Controller"@) {
        assert(contains_text(name, names[0]));
    }
    if contains_text(name, "Steam Controller"@) {
        assert(contains_text(name, names[1]));
    }
    if contains_text(name, "Microsoft X-Box 360 pad"@) {
        assert(contains_text(name, names[2]));
    }
    if contains_text(name, "Xbox Wireless Controller"@) {
        assert(contains_text(name, names[3]));
    }
}

/// Each known name is recognised on its own.
pub proof fn lemma_known_names_recognised()
    ensures
        is_controller_name("Steam Deck Controller"@),
        is_controller_name("Steam Controller"@),
        is_controller_name("Microsoft X-Box 360 pad"@),
        is_controller_name("Xbox Wireless Controller"@),
{
    lemma_contains_itself("Steam Deck Controller"@);
    lemma_contains_itself("Steam Controller"@);
    lemma_contains_itself("Microsoft X-Box 360 pad"@);
    lemma_contains_itself("Xbox Wireless Controller"@);
    lemma_controller_names("Steam Deck Controller"@);
    lemma_controller_names("Steam Controller"@);
    lemma_controller_names("Microsoft X-Box 360 pad"@);
    lemma_controller_names("Xbox Wireless Controller"@);
}

/// A text contains itself.
proof fn lemma_contains_itself(s: Seq<char>)
    ensures
        contains_text(s, s),
{
    assert(s.subrange(0, s.len() as int) =~= s);
    assert(occurs_at(s, s, 0));
}

} // verus!
