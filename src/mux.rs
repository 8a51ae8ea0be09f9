use vstd::prelude::*;

use crate::action::{Action, GpioMode, PinConfig, PinWrite};
use crate::config::{output_group_ok, PinGroup, SpiMuxOption};
use crate::pins::{
    has_pin, lemma_disjoint_masks, lemma_no_pin_in_zero, lemma_pin_after_append, lemma_pin_after_one,
    lemma_pin_after_two, pin_after, PinState,
};

verus! {

/// Hands a pin group to the controller.
pub open spec fn attach(group: PinGroup) -> Action {
    Action::Configure(PinConfig {
        port: group.pins.port,
        pin_mask: group.pins.pin_mask,
        mode: GpioMode::Alternate,
        af: group.af,
    })
}

/// Actions that activate a mux option: data-line swap first, then every
/// output group, then the input pin, each to its alternate function.
pub open spec fn activate_ops(opt: SpiMuxOption) -> Seq<Action> {
    seq![Action::SetDataLineSwap(opt.swap_data)] + opt.outputs@.map_values(|g: PinGroup| attach(g))
        + seq![attach(opt.input)]
}

/// Actions that park one output group: drive it low, then make it a plain
/// output.
pub open spec fn park_output(group: PinGroup) -> Seq<Action> {
    seq![
        Action::SetPins(PinWrite { port: group.pins.port, set_mask: 0, reset_mask: group.pins.pin_mask }),
        Action::Configure(PinConfig {
            port: group.pins.port,
            pin_mask: group.pins.pin_mask,
            mode: GpioMode::Output,
            af: 0,
        }),
    ]
}

pub open spec fn park_outputs(groups: Seq<PinGroup>) -> Seq<Action>
    decreases groups.len(),
{
    if groups.len() == 0 {
        seq![]
    } else {
        park_outputs(groups.drop_last()) + park_output(groups.last())
    }
}

/// Makes the input pin a high-impedance plain input.
pub open spec fn park_input(group: PinGroup) -> Action {
    Action::Configure(PinConfig {
        port: group.pins.port,
        pin_mask: group.pins.pin_mask,
        mode: GpioMode::Input,
        af: 0,
    })
}

/// Actions that deactivate a mux option: every output group parked low,
/// then the input pin released.
pub open spec fn deactivate_ops(opt: SpiMuxOption) -> Seq<Action> {
    park_outputs(opt.outputs@) + seq![park_input(opt.input)]
}

/// The actions that route the controller through `opt`.
pub fn activate_mux_option(opt: &SpiMuxOption) -> (r: Vec<Action>)
    ensures
        r@ == activate_ops(*opt),
{
    let mut r: Vec<Action> = Vec::new();
    r.push(Action::SetDataLineSwap(opt.swap_data));
    let mut j: usize = 0;
    while j < opt.outputs.len()
        invariant
            0 <= j <= opt.outputs@.len(),
            r@ =~= seq![Action::SetDataLineSwap(opt.swap_data)] + opt.outputs@.take(
                j as int,
            ).map_values(|g: PinGroup| attach(g)),
        decreases opt.outputs@.len() - j,
    {
        let g = opt.outputs[j];
        r.push(
            Action::Configure(
                PinConfig {
                    port: g.pins.port,
                    pin_mask: g.pins.pin_mask,
                    mode: GpioMode::Alternate,
                    af: g.af,
                },
            ),
        );
        proof {
            assert(opt.outputs@.take(j + 1) =~= opt.outputs@.take(j as int).push(g));
        }
        j = j + 1;
    }
    assert(opt.outputs@.take(j as int) =~= opt.outputs@);
    let input = opt.input;
    r.push(
        Action::Configure(
            PinConfig {
                port: input.pins.port,
                pin_mask: input.pins.pin_mask,
                mode: GpioMode::Alternate,
                af: input.af,
            },
        ),
    );
    r
}

/// The actions that take the controller off `opt`'s pins.
pub fn deactivate_mux_option(opt: &SpiMuxOption) -> (r: Vec<Action>)
    ensures
        r@ == deactivate_ops(*opt),
{
    let mut r: Vec<Action> = Vec::new();
    let mut j: usize = 0;
    while j < opt.outputs.len()
        invariant
            0 <= j <= opt.outputs@.len(),
            r@ == park_outputs(opt.outputs@.take(j as int)),
        decreases opt.outputs@.len() - j,
    {
        let g = opt.outputs[j];
        r.push(
            Action::SetPins(PinWrite { port: g.pins.port, set_mask: 0, reset_mask: g.pins.pin_mask }),
        );
        r.push(
            Action::Configure(
                PinConfig { port: g.pins.port, pin_mask: g.pins.pin_mask, mode: GpioMode::Output, af: 0 },
            ),
        );
        proof {
            let gs = opt.outputs@.take(j + 1);
            assert(gs.drop_last() =~= opt.outputs@.take(j as int));
            assert(r@ =~= park_outputs(gs));
        }
        j = j + 1;
    }
    assert(opt.outputs@.take(j as int) =~= opt.outputs@);
    let input = opt.input;
    r.push(
        Action::Configure(
            PinConfig { port: input.pins.port, pin_mask: input.pins.pin_mask, mode: GpioMode::Input, af: 0 },
        ),
    );
    r
}

/// Whether some output group of `opt` names pin `pin` of port `port`.
pub open spec fn is_output_pin(opt: SpiMuxOption, port: u8, pin: u16) -> bool {
    exists|j: int|
        0 <= j < opt.outputs@.len() && #[trigger] opt.outputs@[j].pins.port == port && has_pin(
            opt.outputs@[j].pins.pin_mask,
            pin,
        )
}

/// Whether `opt`'s data-in pin is pin `pin` of port `port`.
pub open spec fn is_input_pin(opt: SpiMuxOption, port: u8, pin: u16) -> bool {
    opt.input.pins.port == port && has_pin(opt.input.pins.pin_mask, pin)
}

proof fn lemma_park_outputs(groups: Seq<PinGroup>, st: PinState, port: u8, pin: u16, j: int)
    requires
        0 <= j < groups.len(),
        groups[j].pins.port == port,
        has_pin(groups[j].pins.pin_mask, pin),
    ensures
        pin_after(st, port, pin, park_outputs(groups)).mode == GpioMode::Output,
        !pin_after(st, port, pin, park_outputs(groups)).high,
    decreases groups.len(),
{
    let init = groups.drop_last();
    let g = groups.last();
    lemma_pin_after_append(st, port, pin, park_outputs(init), park_output(g));
    let mid = pin_after(st, port, pin, park_outputs(init));
    let two = park_output(g);
    assert(two =~= seq![two[0], two[1]]);
    lemma_pin_after_two(mid, port, pin, two[0], two[1]);
    lemma_no_pin_in_zero(pin);
    assert(groups =~= init.push(g));
    if j < groups.len() - 1 {
        assert(init[j] == groups[j]);
        lemma_park_outputs(init, st, port, pin, j);
    }
}

/// Activating a valid mux option and then deactivating it leaves each of its
/// output pins a plain output driven low, and its input pin a high-impedance
/// input, whatever state the pin was in before.
pub proof fn lemma_activate_deactivate_parks_pins(
    opt: SpiMuxOption,
    prior: PinState,
    port: u8,
    pin: u16,
)
    requires
        opt.valid(),
    ensures
        ({
            let after = pin_after(prior, port, pin, activate_ops(opt) + deactivate_ops(opt));
            &&& is_output_pin(opt, port, pin) ==> after.mode == GpioMode::Output && !after.high
            &&& is_input_pin(opt, port, pin) ==> after.mode == GpioMode::Input
        }),
{
    let act = activate_ops(opt);
    let parked = park_outputs(opt.outputs@);
    let last = seq![park_input(opt.input)];
    lemma_pin_after_append(prior, port, pin, act, deactivate_ops(opt));
    let s0 = pin_after(prior, port, pin, act);
    lemma_pin_after_append(s0, port, pin, parked, last);
    let s1 = pin_after(s0, port, pin, parked);
    lemma_pin_after_one(s1, port, pin, park_input(opt.input));
    if is_output_pin(opt, port, pin) {
        let j = choose|j: int|
            0 <= j < opt.outputs@.len() && #[trigger] opt.outputs@[j].pins.port == port
                && has_pin(opt.outputs@[j].pins.pin_mask, pin);
        lemma_park_outputs(opt.outputs@, s0, port, pin, j);
        assert(output_group_ok(opt.outputs@[j].pins, opt.input.pins));
        if opt.input.pins.port == port {
            lemma_disjoint_masks(opt.outputs@[j].pins.pin_mask, opt.input.pins.pin_mask, pin);
        }
    }
}

} // verus!
