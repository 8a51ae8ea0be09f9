use vstd::prelude::*;

verus! {

/// A set of pins on one GPIO port.
#[derive(Clone, Copy, PartialEq, Eq, Structural, Debug)]
pub struct PinSet {
    /// Port number (0 for port A, 1 for port B, ...).
    pub port: u8,
    /// One bit per pin of the port.
    pub pin_mask: u16,
}

/// A pin set together with the alternate function that connects it to the
/// controller.
#[derive(Clone, Copy, PartialEq, Eq, Structural, Debug)]
pub struct PinGroup {
    pub pins: PinSet,
    /// Alternate-function number (0 to 15).
    pub af: u8,
}

/// One way of routing the controller's clock and data lines onto pins.
#[derive(Debug)]
pub struct SpiMuxOption {
    /// Pin groups that carry the outputs (clock and data-out), each with the
    /// alternate function that hands them to the controller. To deactivate
    /// the option these pins are driven low, which is the idle level of the
    /// two supported clock modes (polarity low) only.
    pub outputs: Vec<PinGroup>,
    /// The single data-in pin and its alternate function. Deactivating the
    /// option makes it a high-impedance input.
    pub input: PinGroup,
    /// Whether the controller swaps its data-in and data-out lines.
    pub swap_data: bool,
}

/// One device attached to the controller.
#[derive(Clone, Copy, PartialEq, Eq, Structural, Debug)]
pub struct DeviceDescriptor {
    /// Index of the mux option that reaches this device.
    pub mux_index: usize,
    /// The device's chip-select line: a single pin, active low.
    pub cs: PinSet,
    /// Clock divider setting used while talking to this device.
    pub clock_divider: u8,
}

/// The static description of one controller: where its registers live, how
/// it can be routed, and which devices hang off it.
#[derive(Debug)]
pub struct ServerConfig {
    /// Base address of the controller's register block.
    pub registers: usize,
    /// Routing options, numbered from 0.
    pub mux_options: Vec<SpiMuxOption>,
    /// Attached devices, numbered from 0.
    pub devices: Vec<DeviceDescriptor>,
}

/// Total number of pins over a list of output groups.
pub open spec fn output_pins(outputs: Seq<PinGroup>) -> nat
    decreases outputs.len(),
{
    if outputs.len() == 0 {
        0
    } else {
        output_pins(outputs.drop_last()) + pins_in(outputs.last().pins.pin_mask as nat)
    }
}

/// An output group is well formed for a mux option whose data-in pin is
/// `input`: it names some pin, and none that is the data-in pin.
pub open spec fn output_group_ok(group: PinSet, input: PinSet) -> bool {
    &&& group.pin_mask != 0
    &&& (group.port == input.port ==> group.pin_mask & input.pin_mask == 0)
}

impl SpiMuxOption {
    /// A clean wiring: output groups that cover exactly the two output pins
    /// (clock and data-out) without touching the data-in pin, and exactly one
    /// data-in pin.
    pub open spec fn valid(&self) -> bool {
        &&& self.outputs@.len() > 0
        &&& (forall|j: int|
            0 <= j < self.outputs@.len() ==> output_group_ok(
                #[trigger] self.outputs@[j].pins,
                self.input.pins,
            ))
        &&& output_pins(self.outputs@) == 2
        &&& pins_in(self.input.pins.pin_mask as nat) == 1
    }
}

impl DeviceDescriptor {
    /// The device routes through an existing option and its chip-select
    /// names exactly one pin.
    pub open spec fn valid(&self, n_options: nat) -> bool {
        &&& self.mux_index < n_options
        &&& pins_in(self.cs.pin_mask as nat) == 1
    }
}

impl ServerConfig {
    /// What startup demands of a configuration.
    pub open spec fn valid(&self) -> bool {
        &&& self.registers != 0
        &&& self.mux_options@.len() > 0
        &&& (forall|i: int|
            0 <= i < self.mux_options@.len() ==> (#[trigger] self.mux_options@[i]).valid())
        &&& self.devices@.len() > 0
        &&& (forall|i: int|
            0 <= i < self.devices@.len() ==> (#[trigger] self.devices@[i]).valid(
                self.mux_options@.len(),
            ))
    }
}

/// Number of pins (set bits) in a 16-bit pin mask.
pub open spec fn pins_in(mask: nat) -> nat
    decreases mask,
{
    if mask == 0 {
        0
    } else {
        mask % 2 + pins_in(mask / 2)
    }
}

proof fn lemma_pins_in_le(mask: nat)
    ensures
        pins_in(mask) <= mask,
    decreases mask,
{
    if mask != 0 {
        lemma_pins_in_le(mask / 2);
    }
}

/// Counts the pins named by a pin mask.
pub fn pin_count(mask: u16) -> (r: u32)
    ensures
        r as nat == pins_in(mask as nat),
{
    let mut rest: u16 = mask;
    let mut n: u32 = 0;
    while rest != 0
        invariant
            pins_in(mask as nat) == n + pins_in(rest as nat),
        decreases rest,
    {
        proof {
            lemma_pins_in_le(mask as nat);
        }
        n = n + (rest % 2) as u32;
        rest = rest / 2;
    }
    n
}

/// Checks one mux option against `SpiMuxOption::valid`.
fn check_mux_option(opt: &SpiMuxOption) -> (r: bool)
    ensures
        r == opt.valid(),
{
    if opt.outputs.len() == 0 {
        return false;
    }
    let input = opt.input.pins;
    // Running pin total, capped at 3: enough to tell "exactly 2" apart.
    let mut total: u32 = 0;
    let mut j: usize = 0;
    while j < opt.outputs.len()
        invariant
            0 <= j <= opt.outputs@.len(),
            input == opt.input.pins,
            total as nat == if output_pins(opt.outputs@.take(j as int)) < 3 {
                output_pins(opt.outputs@.take(j as int))
            } else {
                3
            },
            forall|k: int| 0 <= k < j ==> output_group_ok(#[trigger] opt.outputs@[k].pins, input),
        decreases opt.outputs@.len() - j,
    {
        let group = opt.outputs[j].pins;
        if group.pin_mask == 0 || (group.port == input.port && group.pin_mask & input.pin_mask
            != 0) {
            assert(!output_group_ok(opt.outputs@[j as int].pins, input));
            return false;
        }
        proof {
            let gs = opt.outputs@.take(j + 1);
            assert(gs.drop_last() =~= opt.outputs@.take(j as int));
        }
        let c: u32 = pin_count(group.pin_mask);
        proof {
            lemma_pins_in_le(group.pin_mask as nat);
        }
        total = if total + c > 3 {
            3
        } else {
            total + c
        };
        j = j + 1;
    }
    assert(opt.outputs@.take(j as int) =~= opt.outputs@);
    total == 2 && pin_count(input.pin_mask) == 1
}

/// Checks a configuration before the server starts; the server refuses to
/// start on one for which this returns false.
pub fn check_server_config(config: &ServerConfig) -> (r: bool)
    ensures
        r == config.valid(),
{
    if config.registers == 0 || config.mux_options.len() == 0 {
        return false;
    }
    let mut i: usize = 0;
    while i < config.mux_options.len()
        invariant
            0 <= i <= config.mux_options@.len(),
            forall|k: int| 0 <= k < i ==> (#[trigger] config.mux_options@[k]).valid(),
        decreases config.mux_options@.len() - i,
    {
        if !check_mux_option(&config.mux_options[i]) {
            assert(!config.mux_options@[i as int].valid());
            return false;
        }
        i = i + 1;
    }
    if config.devices.len() == 0 {
        return false;
    }
    let n_options: usize = config.mux_options.len();
    let mut d: usize = 0;
    while d < config.devices.len()
        invariant
            0 <= d <= config.devices@.len(),
            n_options == config.mux_options@.len(),
            forall|k: int|
                0 <= k < d ==> (#[trigger] config.devices@[k]).valid(n_options as nat),
        decreases config.devices@.len() - d,
    {
        let dev = config.devices[d];
        if dev.mux_index >= n_options || pin_count(dev.cs.pin_mask) != 1 {
            assert(!config.devices@[d as int].valid(n_options as nat));
            return false;
        }
        d = d + 1;
    }
    true
}

} // verus!
