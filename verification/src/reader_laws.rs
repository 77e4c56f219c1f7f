//! What the event decoder guarantees over whole runs of events.

use vstd::prelude::*;

use crate::reader::{
    button_step, initial_reader, key_control, key_modifier, modifier_of, modifier_step, reader_step,
    with_modifier, ModifierView, RawEvent,
    ReaderView, ABS_HAT0X, ABS_HAT0Y, BTN_EAST, BTN_NORTH, BTN_SOUTH, BTN_TL, BTN_TL2, BTN_TR,
    BTN_TR2, BTN_TRIGGER_HAPPY1, BTN_TRIGGER_HAPPY2, BTN_TRIGGER_HAPPY3, BTN_TRIGGER_HAPPY4,
    BTN_WEST, EV_ABS, EV_KEY,
};
use crate::token::{Button, Modifier, TokenView};

verus! {

/// The state after feeding `evs` to a reader in state `v`, and what each event produced.
pub open spec fn reader_run(v: ReaderView, evs: Seq<RawEvent>) -> (
    ReaderView,
    Seq<Option<TokenView>>,
)
    decreases evs.len(),
{
    if evs.len() == 0 {
        (v, Seq::empty())
    } else {
        let (v1, out) = reader_step(v, evs[0]);
        let (v2, outs) = reader_run(v1, evs.drop_first());
        (v2, seq![out] + outs)
    }
}

/// A key event.
pub open spec fn key_event(key: u16, value: i32) -> RawEvent {
    RawEvent { event_type: EV_KEY, code: key, value }
}

/// A D-Pad axis event.
pub open spec fn axis_event(axis: u16, value: i32) -> RawEvent {
    RawEvent { event_type: EV_ABS, code: axis, value }
}

/// The key of a modifier.
pub open spec fn modifier_key(m: Modifier) -> u16 {
    match m {
        Modifier::L1 => BTN_TL,
        Modifier::R1 => BTN_TR,
    }
}

/// Pressing and letting go of a button: a key press and release, or for the
/// D-Pad a move of its axis to the direction and back to the centre.
pub open spec fn tap_events(b: Button) -> Seq<RawEvent> {
    match b {
        Button::A => seq![key_event(BTN_SOUTH, 1), key_event(BTN_SOUTH, 0)],
        Button::B => seq![key_event(BTN_EAST, 1), key_event(BTN_EAST, 0)],
        Button::X => seq![key_event(BTN_WEST, 1), key_event(BTN_WEST, 0)],
        Button::Y => seq![key_event(BTN_NORTH, 1), key_event(BTN_NORTH, 0)],
        Button::L2 => seq![key_event(BTN_TL2, 1), key_event(BTN_TL2, 0)],
        Button::R2 => seq![key_event(BTN_TR2, 1), key_event(BTN_TR2, 0)],
        Button::L4 => seq![key_event(BTN_TRIGGER_HAPPY1, 1), key_event(BTN_TRIGGER_HAPPY1, 0)],
        Button::R4 => seq![key_event(BTN_TRIGGER_HAPPY2, 1), key_event(BTN_TRIGGER_HAPPY2, 0)],
        Button::L5 => seq![key_event(BTN_TRIGGER_HAPPY3, 1), key_event(BTN_TRIGGER_HAPPY3, 0)],
        Button::R5 => seq![key_event(BTN_TRIGGER_HAPPY4, 1), key_event(BTN_TRIGGER_HAPPY4, 0)],
        Button::Up => seq![axis_event(ABS_HAT0Y, -1i32), axis_event(ABS_HAT0Y, 0)],
        Button::Down => seq![axis_event(ABS_HAT0Y, 1), axis_event(ABS_HAT0Y, 0)],
        Button::Left => seq![axis_event(ABS_HAT0X, -1i32), axis_event(ABS_HAT0X, 0)],
        Button::Right => seq![axis_event(ABS_HAT0X, 1), axis_event(ABS_HAT0X, 0)],
    }
}

/// Tapping the buttons one after the other.
pub open spec fn taps_events(bs: Seq<Button>) -> Seq<RawEvent>
    decreases bs.len(),
{
    if bs.len() == 0 {
        Seq::empty()
    } else {
        tap_events(bs[0]) + taps_events(bs.drop_first())
    }
}

/// Holding a modifier, tapping the buttons, and letting go of the modifier.
pub open spec fn phrase_events(m: Modifier, bs: Seq<Button>) -> Seq<RawEvent> {
    seq![key_event(modifier_key(m), 1)] + taps_events(bs) + seq![key_event(modifier_key(m), 0)]
}

/// A released modifier has no taps.
pub open spec fn reader_well_formed(v: ReaderView) -> bool {
    &&& (!v.l1.held ==> v.l1.taps.len() == 0)
    &&& (!v.r1.held ==> v.r1.taps.len() == 0)
}

/// Running two event sequences one after the other.
proof fn lemma_run_concat(v: ReaderView, a: Seq<RawEvent>, b: Seq<RawEvent>)
    ensures
        reader_run(v, a + b) == (
            reader_run(reader_run(v, a).0, b).0,
            reader_run(v, a).1 + reader_run(reader_run(v, a).0, b).1,
        ),
    decreases a.len(),
{
    if a.len() == 0 {
        assert(a + b =~= b);
        assert(Seq::<Option<TokenView>>::empty() + reader_run(v, b).1 =~= reader_run(v, b).1);
    } else {
        let v1 = reader_step(v, a[0]).0;
        assert((a + b)[0] == a[0]);
        assert((a + b).drop_first() =~= a.drop_first() + b);
        lemma_run_concat(v1, a.drop_first(), b);
        let out = reader_step(v, a[0]).1;
        let mid = reader_run(v1, a.drop_first());
        assert(seq![out] + (mid.1 + reader_run(mid.0, b).1) =~= (seq![out] + mid.1) + reader_run(
            mid.0,
            b,
        ).1);
    }
}

/// Running a one-event sequence.
proof fn lemma_run_one(v: ReaderView, e: RawEvent)
    ensures
        reader_run(v, seq![e]) == (reader_step(v, e).0, seq![reader_step(v, e).1]),
{
    let v1 = reader_step(v, e).0;
    let none = Seq::<RawEvent>::empty();
    assert(seq![e].drop_first() =~= none);
    assert(reader_run(v1, none) == (v1, Seq::<Option<TokenView>>::empty()));
    assert(seq![e][0] == e);
    assert(seq![reader_step(v, e).1] + Seq::<Option<TokenView>>::empty() =~= seq![
        reader_step(v, e).1,
    ]);
}

/// Running a two-event sequence.
proof fn lemma_run_two(v: ReaderView, e0: RawEvent, e1: RawEvent)
    ensures
        reader_run(v, seq![e0, e1]) == (
            reader_step(reader_step(v, e0).0, e1).0,
            seq![reader_step(v, e0).1, reader_step(reader_step(v, e0).0, e1).1],
        ),
{
    let evs = seq![e0, e1];
    let v1 = reader_step(v, e0).0;
    assert(evs.drop_first() =~= seq![e1]);
    assert(evs[0] == e0);
    lemma_run_one(v1, e1);
    assert(seq![reader_step(v, e0).1] + seq![reader_step(v1, e1).1] =~= seq![
        reader_step(v, e0).1,
        reader_step(v1, e1).1,
    ]);
}

/// A tap while a phrase is open joins the phrase and produces nothing.
proof fn lemma_tap_in_phrase(u: ReaderView, m: Modifier, b: Button)
    requires
        modifier_of(u, m).held,
        m == Modifier::R1 ==> !u.l1.held,
        u.dpad_x == 0,
        u.dpad_y == 0,
    ensures
        reader_run(u, tap_events(b)) == (
            with_modifier(
                u,
                m,
                ModifierView { held: true, taps: modifier_of(u, m).taps.push(b) },
            ),
            seq![None::<TokenView>, None::<TokenView>],
        ),
{
    let evs = tap_events(b);
    lemma_run_two(u, evs[0], evs[1]);
    assert(evs =~= seq![evs[0], evs[1]]);
    let w = with_modifier(u, m, ModifierView { held: true, taps: modifier_of(u, m).taps.push(b) });
    assert(reader_step(reader_step(u, evs[0]).0, evs[1]).0 == w);
}

/// Taps while a phrase is open join the phrase, in order, and produce nothing.
proof fn lemma_taps_in_phrase(u: ReaderView, m: Modifier, bs: Seq<Button>)
    requires
        modifier_of(u, m).held,
        m == Modifier::R1 ==> !u.l1.held,
        u.dpad_x == 0,
        u.dpad_y == 0,
    ensures
        reader_run(u, taps_events(bs)).0 == with_modifier(
            u,
            m,
            ModifierView { held: true, taps: modifier_of(u, m).taps + bs },
        ),
        reader_run(u, taps_events(bs)).1 == Seq::new(2 * bs.len(), |i: int| None::<TokenView>),
    decreases bs.len(),
{
    if bs.len() == 0 {
        assert(modifier_of(u, m).taps + bs =~= modifier_of(u, m).taps);
        assert(reader_run(u, taps_events(bs)).1 =~= Seq::new(0, |i: int| None::<TokenView>));
    } else {
        let b = bs[0];
        let rest = bs.drop_first();
        lemma_run_concat(u, tap_events(b), taps_events(rest));
        lemma_tap_in_phrase(u, m, b);
        let u1 = with_modifier(
            u,
            m,
            ModifierView { held: true, taps: modifier_of(u, m).taps.push(b) },
        );
        lemma_taps_in_phrase(u1, m, rest);
        assert(modifier_of(u, m).taps.push(b) + rest =~= modifier_of(u, m).taps + bs);
        assert(with_modifier(
            u1,
            m,
            ModifierView { held: true, taps: modifier_of(u1, m).taps + rest },
        ) == with_modifier(u, m, ModifierView { held: true, taps: modifier_of(u, m).taps + bs }));
        assert(seq![None::<TokenView>, None::<TokenView>] + Seq::new(
            2 * rest.len(),
            |i: int| None::<TokenView>,
        ) =~= Seq::new(2 * bs.len(), |i: int| None::<TokenView>));
    }
}

/// Holding a modifier, tapping buttons and letting go of it produces the
/// phrase of exactly those taps, in order (an empty phrase when there were
/// none), and nothing before it; afterwards the modifier is released with no
/// taps and the rest of the reader is as it was. It holds from any state with
/// the D-Pad centred, for R1 when L1 is not held: while L1 is held, taps go
/// to L1's phrase.
pub proof fn lemma_phrase_of_taps(v: ReaderView, m: Modifier, bs: Seq<Button>)
    requires
        v.dpad_x == 0,
        v.dpad_y == 0,
        m == Modifier::R1 ==> !v.l1.held,
    ensures
        ({
            let (w, outs) = reader_run(v, phrase_events(m, bs));
            &&& w == with_modifier(v, m, ModifierView { held: false, taps: Seq::empty() })
            &&& outs.len() == 2 * bs.len() + 2
            &&& forall|i: int| 0 <= i < outs.len() - 1 ==> outs[i] is None
            &&& outs.last() == Some(
                if bs.len() == 0 {
                    TokenView::PhraseEmpty
                } else {
                    TokenView::PhraseEnd(m, bs)
                },
            )
        }),
{
    let press = key_event(modifier_key(m), 1);
    let release = key_event(modifier_key(m), 0);
    let open = with_modifier(v, m, ModifierView { held: true, taps: Seq::empty() });
    lemma_run_one(v, press);
    assert(reader_step(v, press) == (open, None::<TokenView>));
    lemma_taps_in_phrase(open, m, bs);
    let full = with_modifier(open, m, ModifierView { held: true, taps: Seq::empty() + bs });
    assert(Seq::<Button>::empty() + bs =~= bs);
    lemma_run_one(full, release);
    let closed = with_modifier(v, m, ModifierView { held: false, taps: Seq::empty() });
    assert(reader_step(full, release) == (
        closed,
        Some(
            if bs.len() == 0 {
                TokenView::PhraseEmpty
            } else {
                TokenView::PhraseEnd(m, bs)
            },
        ),
    ));
    let evs = phrase_events(m, bs);
    lemma_run_concat(v, seq![press], taps_events(bs));
    lemma_run_concat(v, seq![press] + taps_events(bs), seq![release]);
}

/// With no modifier held and the D-Pad centred, tapping a button produces
/// its simple press and leaves the reader as it was.
pub proof fn lemma_simple_press(v: ReaderView, b: Button)
    requires
        !v.l1.held,
        !v.r1.held,
        v.dpad_x == 0,
        v.dpad_y == 0,
    ensures
        reader_run(v, tap_events(b)) == (v, seq![Some(TokenView::SimplePress(b)), None]),
{
    let evs = tap_events(b);
    lemma_run_two(v, evs[0], evs[1]);
    assert(evs =~= seq![evs[0], evs[1]]);
}

/// A control action fires on the press of its key, whatever state the reader
/// is in, and leaves the state as it was; its release and repeats produce
/// nothing.
pub proof fn lemma_control_fires_on_press(v: ReaderView, key: u16, value: i32)
    requires
        key_control(key) is Some,
    ensures
        reader_step(v, key_event(key, value)) == (
            v,
            if value == 1 {
                Some(TokenView::Control(key_control(key)->0))
            } else {
                None
            },
        ),
{
}

/// Holding the D-Pad in a direction presses it once: further moves of an
/// axis that is off centre produce nothing until it passes through the
/// centre; the axis takes the new position.
pub proof fn lemma_dpad_fires_once(v: ReaderView, axis: u16, value: i32)
    requires
        (axis == ABS_HAT0X && v.dpad_x != 0) || (axis == ABS_HAT0Y && v.dpad_y != 0),
    ensures
        reader_step(v, axis_event(axis, value)) == (
            if axis == ABS_HAT0X {
                ReaderView { dpad_x: value, ..v }
            } else {
                ReaderView { dpad_y: value, ..v }
            },
            None::<TokenView>,
        ),
{
}

/// Every state a reader reaches from one at rest has no taps on a released
/// modifier: a phrase never holds taps from before its modifier was pressed.
pub proof fn lemma_reader_stays_well_formed(v: ReaderView, evs: Seq<RawEvent>)
    requires
        reader_well_formed(v),
    ensures
        reader_well_formed(reader_run(v, evs).0),
    decreases evs.len(),
{
    if evs.len() > 0 {
        lemma_reader_stays_well_formed(reader_step(v, evs[0]).0, evs.drop_first());
    }
}

/// A reader at rest is well formed.
pub proof fn lemma_initial_reader_well_formed()
    ensures
        reader_well_formed(initial_reader()),
{
}


/// Tapping the buttons one after the other, whatever keys or D-Pad moves
/// they come from: the reader after each tap, and what each tap produced.
pub open spec fn buttons_run(v: ReaderView, bs: Seq<Button>) -> (ReaderView, Seq<Option<TokenView>>)
    decreases bs.len(),
{
    if bs.len() == 0 {
        (v, Seq::empty())
    } else {
        let (v1, out) = button_step(v, bs[0]);
        let (v2, outs) = buttons_run(v1, bs.drop_first());
        (v2, seq![out] + outs)
    }
}

/// Taps while a phrase is open join that phrase, in order, and produce nothing.
proof fn lemma_buttons_in_phrase(u: ReaderView, m: Modifier, bs: Seq<Button>)
    requires
        modifier_of(u, m).held,
        m == Modifier::R1 ==> !u.l1.held,
    ensures
        buttons_run(u, bs).0 == with_modifier(
            u,
            m,
            ModifierView { held: true, taps: modifier_of(u, m).taps + bs },
        ),
        buttons_run(u, bs).1 == Seq::new(bs.len(), |i: int| None::<TokenView>),
    decreases bs.len(),
{
    if bs.len() == 0 {
        assert(modifier_of(u, m).taps + bs =~= modifier_of(u, m).taps);
        assert(buttons_run(u, bs).1 =~= Seq::new(0, |i: int| None::<TokenView>));
    } else {
        let b = bs[0];
        let rest = bs.drop_first();
        let u1 = with_modifier(
            u,
            m,
            ModifierView { held: true, taps: modifier_of(u, m).taps.push(b) },
        );
        assert(button_step(u, b) == (u1, None::<TokenView>));
        lemma_buttons_in_phrase(u1, m, rest);
        assert(modifier_of(u, m).taps.push(b) + rest =~= modifier_of(u, m).taps + bs);
        assert(with_modifier(
            u1,
            m,
            ModifierView { held: true, taps: modifier_of(u1, m).taps + rest },
        ) == with_modifier(u, m, ModifierView { held: true, taps: modifier_of(u, m).taps + bs }));
        assert(seq![None::<TokenView>] + Seq::new(rest.len(), |i: int| None::<TokenView>)
            =~= Seq::new(bs.len(), |i: int| None::<TokenView>));
    }
}

/// Pressing a modifier, tapping buttons and letting go of the modifier: the
/// press and the taps produce nothing; the release produces the phrase of
/// exactly those taps, in order (an empty phrase when there were none), and
/// leaves the modifier released with no taps and the rest of the reader as
/// it was. It holds from any state, for R1 when L1 is not held: while L1 is
/// held, taps go to L1's phrase.
pub proof fn lemma_modifier_phrase(v: ReaderView, m: Modifier, bs: Seq<Button>)
    requires
        m == Modifier::R1 ==> !v.l1.held,
    ensures
        ({
            let (v1, t1) = modifier_step(v, m, true, false);
            let (v2, outs) = buttons_run(v1, bs);
            let (v3, t3) = modifier_step(v2, m, false, true);
            &&& t1 is None
            &&& outs.len() == bs.len()
            &&& forall|i: int| 0 <= i < outs.len() ==> outs[i] is None
            &&& t3 == Some(
                if bs.len() == 0 {
                    TokenView::PhraseEmpty
                } else {
                    TokenView::PhraseEnd(m, bs)
                },
            )
            &&& v3 == with_modifier(v, m, ModifierView { held: false, taps: Seq::empty() })
        }),
{
    let open = with_modifier(v, m, ModifierView { held: true, taps: Seq::empty() });
    assert(modifier_step(v, m, true, false) == (open, None::<TokenView>));
    lemma_buttons_in_phrase(open, m, bs);
    assert(Seq::<Button>::empty() + bs =~= bs);
    let full = with_modifier(open, m, ModifierView { held: true, taps: bs });
    assert(buttons_run(open, bs).0 == full);
    assert(with_modifier(full, m, ModifierView { held: false, taps: Seq::empty() }) == with_modifier(
        v,
        m,
        ModifierView { held: false, taps: Seq::empty() },
    ));
}

/// The button a D-Pad axis position presses: right or down for a positive
/// position, left or up for a negative one.
pub open spec fn dpad_button(axis: u16, value: i32) -> Button {
    if axis == ABS_HAT0X {
        if value > 0 {
            Button::Right
        } else {
            Button::Left
        }
    } else {
        if value > 0 {
            Button::Down
        } else {
            Button::Up
        }
    }
}

/// The position of a D-Pad axis.
pub open spec fn axis_position(v: ReaderView, axis: u16) -> i32 {
    if axis == ABS_HAT0X {
        v.dpad_x
    } else {
        v.dpad_y
    }
}

/// The reader with a D-Pad axis moved to a position.
pub open spec fn with_axis(v: ReaderView, axis: u16, value: i32) -> ReaderView {
    if axis == ABS_HAT0X {
        ReaderView { dpad_x: value, ..v }
    } else {
        ReaderView { dpad_y: value, ..v }
    }
}

/// Moving a D-Pad axis through the positions one after the other.
pub open spec fn axis_events(axis: u16, positions: Seq<i32>) -> Seq<RawEvent> {
    Seq::new(positions.len(), |i: int| axis_event(axis, positions[i]))
}

/// The position an axis had before the `i`-th of the positions it moves to.
pub open spec fn position_before(start: i32, positions: Seq<i32>, i: int) -> i32 {
    if i == 0 {
        start
    } else {
        positions[i - 1]
    }
}

/// With no modifier held, a D-Pad axis event presses a direction exactly
/// when the axis leaves the centre: a move from the centre to a position
/// is the simple press of that position's direction; a move from one
/// direction to another, or back to the centre, produces nothing. The axis
/// takes the new position and nothing else changes.
pub proof fn lemma_dpad_press_on_leaving_centre(v: ReaderView, axis: u16, value: i32)
    requires
        axis == ABS_HAT0X || axis == ABS_HAT0Y,
        !v.l1.held,
        !v.r1.held,
    ensures
        reader_step(v, axis_event(axis, value)) == (
            with_axis(v, axis, value),
            if axis_position(v, axis) == 0 && value != 0 {
                Some(TokenView::SimplePress(dpad_button(axis, value)))
            } else {
                None
            },
        ),
{
}

/// With no modifier held, moving a D-Pad axis through a run of positions
/// presses a direction at exactly the moves that leave the centre, each
/// time the direction of the new position, and nothing at the other moves;
/// afterwards the axis is at the last position.
pub proof fn lemma_dpad_run(v: ReaderView, axis: u16, positions: Seq<i32>)
    requires
        axis == ABS_HAT0X || axis == ABS_HAT0Y,
        !v.l1.held,
        !v.r1.held,
    ensures
        ({
            let (w, outs) = reader_run(v, axis_events(axis, positions));
            &&& w == if positions.len() == 0 {
                v
            } else {
                with_axis(v, axis, positions.last())
            }
            &&& outs.len() == positions.len()
            &&& forall|i: int|
                0 <= i < positions.len() ==> #[trigger] outs[i] == if position_before(
                    axis_position(v, axis),
                    positions,
                    i,
                ) == 0 && positions[i] != 0 {
                    Some(TokenView::SimplePress(dpad_button(axis, positions[i])))
                } else {
                    None
                }
        }),
    decreases positions.len(),
{
    let evs = axis_events(axis, positions);
    if positions.len() > 0 {
        let rest = positions.drop_first();
        let v1 = with_axis(v, axis, positions[0]);
        lemma_dpad_press_on_leaving_centre(v, axis, positions[0]);
        assert(evs[0] == axis_event(axis, positions[0]));
        assert(evs.drop_first() =~= axis_events(axis, rest));
        lemma_dpad_run(v1, axis, rest);
        let (w1, outs1) = reader_run(v1, axis_events(axis, rest));
        let out0 = reader_step(v, evs[0]).1;
        let outs = reader_run(v, evs).1;
        assert(outs == seq![out0] + outs1);
        assert(axis_position(v1, axis) == positions[0]);
        assert forall|i: int| 0 <= i < positions.len() implies #[trigger] outs[i] == if position_before(
            axis_position(v, axis),
            positions,
            i,
        ) == 0 && positions[i] != 0 {
            Some(TokenView::SimplePress(dpad_button(axis, positions[i])))
        } else {
            None
        } by {
            if i > 0 {
                assert(outs[i] == outs1[i - 1]);
                assert(rest[i - 1] == positions[i]);
                assert(position_before(positions[0], rest, i - 1) == position_before(
                    axis_position(v, axis),
                    positions,
                    i,
                ));
            }
        }
        if rest.len() > 0 {
            assert(rest.last() == positions.last());
            assert(with_axis(v1, axis, rest.last()) == with_axis(v, axis, positions.last()));
        }
    } else {
        assert(evs =~= Seq::<RawEvent>::empty());
    }
}


/// A repeat of a modifier key (any value but a press or a release, as the
/// autorepeat 2) changes nothing and produces nothing, whatever state the
/// reader is in: an open phrase keeps its taps.
pub proof fn lemma_modifier_repeat_changes_nothing(v: ReaderView, m: Modifier, value: i32)
    requires
        value != 0,
        value != 1,
    ensures
        reader_step(v, key_event(modifier_key(m), value)) == (v, None::<TokenView>),
{
    assert(key_modifier(modifier_key(m)) == Some(m));
    assert(with_modifier(v, m, modifier_of(v, m)) == v);
}

/// Pressing a modifier, tapping buttons, repeating the modifier key any
/// number of times and then letting go of it produces exactly the phrase of
/// the taps: the repeats lose none of them.
pub proof fn lemma_phrase_survives_repeats(v: ReaderView, m: Modifier, bs: Seq<Button>, repeats: nat)
    requires
        m == Modifier::R1 ==> !v.l1.held,
    ensures
        ({
            let (v1, t1) = modifier_step(v, m, true, false);
            let (v2, outs) = buttons_run(v1, bs);
            let (v3, outs3) = reader_run(
                v2,
                Seq::new(repeats, |i: int| key_event(modifier_key(m), 2)),
            );
            let (v4, t4) = reader_step(v3, key_event(modifier_key(m), 0));
            &&& outs3 == Seq::new(repeats, |i: int| None::<TokenView>)
            &&& t4 == Some(
                if bs.len() == 0 {
                    TokenView::PhraseEmpty
                } else {
                    TokenView::PhraseEnd(m, bs)
                },
            )
            &&& v4 == with_modifier(v, m, ModifierView { held: false, taps: Seq::empty() })
        }),
{
    lemma_modifier_phrase(v, m, bs);
    let (v1, t1) = modifier_step(v, m, true, false);
    let v2 = buttons_run(v1, bs).0;
    lemma_repeats_change_nothing(v2, m, repeats);
    assert(key_modifier(modifier_key(m)) == Some(m));
}

/// A run of repeats of a modifier key leaves the reader as it was and
/// produces nothing.
proof fn lemma_repeats_change_nothing(v: ReaderView, m: Modifier, n: nat)
    ensures
        reader_run(v, Seq::new(n, |i: int| key_event(modifier_key(m), 2))) == (
            v,
            Seq::new(n, |i: int| None::<TokenView>),
        ),
    decreases n,
{
    let evs = Seq::new(n, |i: int| key_event(modifier_key(m), 2));
    if n == 0 {
        assert(Seq::<Option<TokenView>>::empty() =~= Seq::new(0, |i: int| None::<TokenView>));
    } else {
        let rest = Seq::new((n - 1) as nat, |i: int| key_event(modifier_key(m), 2));
        assert(evs.drop_first() =~= rest);
        lemma_modifier_repeat_changes_nothing(v, m, 2);
        lemma_repeats_change_nothing(v, m, (n - 1) as nat);
        assert(seq![None::<TokenView>] + Seq::new((n - 1) as nat, |i: int| None::<TokenView>)
            =~= Seq::new(n, |i: int| None::<TokenView>));
    }
}

/// An absolute axis event on any axis other than the D-Pad's two (an analog
/// stick or a trigger, say) produces nothing and leaves the reader as it
/// was, whatever state it is in.
pub proof fn lemma_other_axes_ignored(v: ReaderView, axis: u16, value: i32)
    requires
        axis != ABS_HAT0X,
        axis != ABS_HAT0Y,
    ensures
        reader_step(v, axis_event(axis, value)) == (v, None::<TokenView>),
{
}

} // verus!
