use spi_server::{
    activate_mux_option, check_server_config, deactivate_mux_option, pin_count, Action,
    DeviceDescriptor, GpioMode, PinConfig, PinGroup, PinSet, PinWrite, ServerConfig, SpiMuxOption,
};

fn group(port: u8, pin_mask: u16, af: u8) -> PinGroup {
    PinGroup { pins: PinSet { port, pin_mask }, af }
}

fn option_a() -> SpiMuxOption {
    SpiMuxOption { outputs: vec![group(0, 0b1010_0000, 5)], input: group(0, 0b0100_0000, 5), swap_data: false }
}

fn option_b() -> SpiMuxOption {
    SpiMuxOption {
        outputs: vec![group(1, 0b1000, 5), group(1, 0b10_0000, 6)],
        input: group(1, 0b1_0000, 5),
        swap_data: true,
    }
}

fn device(mux_index: usize, port: u8, pin_mask: u16) -> DeviceDescriptor {
    DeviceDescriptor { mux_index, cs: PinSet { port, pin_mask }, clock_divider: 3 }
}

fn config() -> ServerConfig {
    ServerConfig {
        registers: 0x4001_3000,
        mux_options: vec![option_a(), option_b()],
        devices: vec![device(0, 0, 0b1_0000), device(0, 2, 1), device(1, 3, 0x8000)],
    }
}

#[derive(Clone, Copy, PartialEq, Debug)]
struct Pin {
    mode: GpioMode,
    high: bool,
    af: u8,
}

/// Sixteen pins on each of eight ports, all starting in `start`.
fn bank(start: Pin) -> Vec<Vec<Pin>> {
    vec![vec![start; 16]; 8]
}

fn apply(bank: &mut Vec<Vec<Pin>>, actions: &[Action]) {
    for a in actions {
        match *a {
            Action::SetPins(w) | Action::ChipSelect(w) => {
                for p in 0..16 {
                    if w.set_mask & (1 << p) != 0 {
                        bank[w.port as usize][p].high = true;
                    } else if w.reset_mask & (1 << p) != 0 {
                        bank[w.port as usize][p].high = false;
                    }
                }
            }
            Action::Configure(c) => {
                for p in 0..16 {
                    if c.pin_mask & (1 << p) != 0 {
                        bank[c.port as usize][p].mode = c.mode;
                        bank[c.port as usize][p].af = c.af;
                    }
                }
            }
            _ => {}
        }
    }
}

#[test]
fn pin_count_counts_set_bits() {
    assert_eq!(pin_count(0), 0);
    assert_eq!(pin_count(1), 1);
    assert_eq!(pin_count(0b1010_0000), 2);
    assert_eq!(pin_count(0x8000), 1);
    assert_eq!(pin_count(0xffff), 16);
}

#[test]
fn valid_config_is_accepted() {
    assert!(check_server_config(&config()));
}

#[test]
fn null_registers_rejected() {
    let mut c = config();
    c.registers = 0;
    assert!(!check_server_config(&c));
}

#[test]
fn missing_mux_options_rejected() {
    let mut c = config();
    c.mux_options = vec![];
    c.devices = vec![];
    assert!(!check_server_config(&c));
}

#[test]
fn option_without_outputs_rejected() {
    let mut c = config();
    c.mux_options[1].outputs = vec![];
    assert!(!check_server_config(&c));
}

#[test]
fn empty_output_group_rejected() {
    let mut c = config();
    c.mux_options[1].outputs.push(group(4, 0, 5));
    assert!(!check_server_config(&c));
}

#[test]
fn output_overlapping_input_rejected() {
    let mut c = config();
    // Pins 5 and 6 of port A, where pin 6 is the data-in pin.
    c.mux_options[0].outputs = vec![group(0, 0b0110_0000, 5)];
    assert!(!check_server_config(&c));
}

#[test]
fn same_mask_on_other_port_is_no_overlap() {
    let mut c = config();
    c.mux_options[0].outputs = vec![group(2, 0b0100_0000, 5), group(0, 0b1000_0000, 5)];
    assert!(check_server_config(&c));
}

#[test]
fn three_output_pins_rejected() {
    let mut c = config();
    c.mux_options[0].outputs.push(group(3, 1, 5));
    assert!(!check_server_config(&c));
}

#[test]
fn one_output_pin_rejected() {
    let mut c = config();
    c.mux_options[0].outputs = vec![group(0, 0b1000_0000, 5)];
    assert!(!check_server_config(&c));
}

#[test]
fn two_input_pins_rejected() {
    let mut c = config();
    c.mux_options[1].input = group(1, 0b1_0001, 5);
    assert!(!check_server_config(&c));
}

#[test]
fn missing_devices_rejected() {
    let mut c = config();
    c.devices = vec![];
    assert!(!check_server_config(&c));
}

#[test]
fn device_with_unknown_mux_rejected() {
    let mut c = config();
    c.devices[2].mux_index = 2;
    assert!(!check_server_config(&c));
}

#[test]
fn chip_select_of_two_pins_rejected() {
    let mut c = config();
    c.devices[0].cs.pin_mask = 0b11;
    assert!(!check_server_config(&c));
}

#[test]
fn chip_select_of_no_pin_rejected() {
    let mut c = config();
    c.devices[0].cs.pin_mask = 0;
    assert!(!check_server_config(&c));
}

#[test]
fn activation_swaps_then_attaches_outputs_then_input() {
    let ops = activate_mux_option(&option_b());
    assert_eq!(
        ops,
        vec![
            Action::SetDataLineSwap(true),
            Action::Configure(PinConfig { port: 1, pin_mask: 0b1000, mode: GpioMode::Alternate, af: 5 }),
            Action::Configure(PinConfig { port: 1, pin_mask: 0b10_0000, mode: GpioMode::Alternate, af: 6 }),
            Action::Configure(PinConfig { port: 1, pin_mask: 0b1_0000, mode: GpioMode::Alternate, af: 5 }),
        ]
    );
}

#[test]
fn deactivation_parks_outputs_low_and_releases_input() {
    let ops = deactivate_mux_option(&option_a());
    assert_eq!(
        ops,
        vec![
            Action::SetPins(PinWrite { port: 0, set_mask: 0, reset_mask: 0b1010_0000 }),
            Action::Configure(PinConfig { port: 0, pin_mask: 0b1010_0000, mode: GpioMode::Output, af: 0 }),
            Action::Configure(PinConfig { port: 0, pin_mask: 0b0100_0000, mode: GpioMode::Input, af: 0 }),
        ]
    );
}

#[test]
fn activate_then_deactivate_restores_parked_pins() {
    for start in [
        Pin { mode: GpioMode::Output, high: true, af: 9 },
        Pin { mode: GpioMode::Alternate, high: false, af: 3 },
        Pin { mode: GpioMode::Input, high: true, af: 0 },
    ] {
        let opt = option_b();
        let mut pins = bank(start);
        apply(&mut pins, &activate_mux_option(&opt));
        assert_eq!(pins[1][3], Pin { mode: GpioMode::Alternate, high: start.high, af: 5 });
        assert_eq!(pins[1][5], Pin { mode: GpioMode::Alternate, high: start.high, af: 6 });
        apply(&mut pins, &deactivate_mux_option(&opt));
        assert_eq!(pins[1][3].mode, GpioMode::Output);
        assert!(!pins[1][3].high);
        assert_eq!(pins[1][5].mode, GpioMode::Output);
        assert!(!pins[1][5].high);
        assert_eq!(pins[1][4].mode, GpioMode::Input);
        // Pins outside the option are untouched.
        assert_eq!(pins[1][6], start);
        assert_eq!(pins[0][3], start);
    }
}
