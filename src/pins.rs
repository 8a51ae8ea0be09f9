use vstd::prelude::*;

use crate::action::{Action, GpioMode};

verus! {

/// The state of one GPIO pin, as far as routing is concerned.
#[derive(Clone, Copy, PartialEq, Eq, Structural, Debug)]
pub struct PinState {
    pub mode: GpioMode,
    /// Output level (high when true).
    pub high: bool,
    /// Alternate-function number.
    pub af: u8,
}

/// Whether `mask` names pin number `pin`.
pub open spec fn has_pin(mask: u16, pin: u16) -> bool {
    pin < 16 && (mask >> pin) & 1u16 == 1u16
}

/// What one action does to pin `pin` of port `port`. A set/reset write that
/// names the pin in both masks sets it, as the port's set/reset register does.
pub open spec fn pin_effect(st: PinState, port: u8, pin: u16, a: Action) -> PinState {
    match a {
        Action::SetPins(w) | Action::ChipSelect(w) => {
            if w.port == port && has_pin(w.set_mask, pin) {
                PinState { high: true, ..st }
            } else if w.port == port && has_pin(w.reset_mask, pin) {
                PinState { high: false, ..st }
            } else {
                st
            }
        },
        Action::Configure(c) => {
            if c.port == port && has_pin(c.pin_mask, pin) {
                PinState { mode: c.mode, af: c.af, ..st }
            } else {
                st
            }
        },
        _ => st,
    }
}

/// The state of pin `pin` of port `port` after `actions`, starting from `st`.
pub open spec fn pin_after(st: PinState, port: u8, pin: u16, actions: Seq<Action>) -> PinState
    decreases actions.len(),
{
    if actions.len() == 0 {
        st
    } else {
        pin_effect(pin_after(st, port, pin, actions.drop_last()), port, pin, actions.last())
    }
}

pub proof fn lemma_pin_after_append(
    st: PinState,
    port: u8,
    pin: u16,
    a: Seq<Action>,
    b: Seq<Action>,
)
    ensures
        pin_after(st, port, pin, a + b) == pin_after(pin_after(st, port, pin, a), port, pin, b),
    decreases b.len(),
{
    if b.len() == 0 {
        assert(a + b =~= a);
    } else {
        assert((a + b).drop_last() =~= a + b.drop_last());
        lemma_pin_after_append(st, port, pin, a, b.drop_last());
    }
}

pub proof fn lemma_pin_after_one(st: PinState, port: u8, pin: u16, a: Action)
    ensures
        pin_after(st, port, pin, seq![a]) == pin_effect(st, port, pin, a),
{
    let one = seq![a];
    assert(one.drop_last() =~= Seq::<Action>::empty());
    assert(pin_after(st, port, pin, one.drop_last()) == st);
    assert(one.last() == a);
}

pub proof fn lemma_pin_after_two(st: PinState, port: u8, pin: u16, a: Action, b: Action)
    ensures
        pin_after(st, port, pin, seq![a, b]) == pin_effect(pin_effect(st, port, pin, a), port, pin, b),
{
    assert(seq![a, b].drop_last() =~= seq![a]);
    lemma_pin_after_one(st, port, pin, a);
}

pub proof fn lemma_no_pin_in_zero(pin: u16)
    ensures
        !has_pin(0, pin),
{
    assert((0u16 >> pin) & 1u16 == 0u16) by (bit_vector);
}

pub proof fn lemma_disjoint_masks(a: u16, b: u16, pin: u16)
    requires
        a & b == 0,
        has_pin(a, pin),
    ensures
        !has_pin(b, pin),
{
    assert(pin < 16 && (a >> pin) & 1u16 == 1u16 && a & b == 0u16 ==> (b >> pin) & 1u16 != 1u16)
        by (bit_vector);
}

} // verus!
