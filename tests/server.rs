use std::collections::VecDeque;

use spi_server::{
    activate_mux_option, deactivate_mux_option, Action, CsState, DeviceDescriptor, Event, GpioMode,
    LockState, PinConfig, PinGroup, PinSet, PinWrite, Server, ServerConfig, SpiError, SpiMuxOption,
    TaskId, Transfer, TX_PERMITS,
};

fn group(port: u8, pin_mask: u16, af: u8) -> PinGroup {
    PinGroup { pins: PinSet { port, pin_mask }, af }
}

fn option_a() -> SpiMuxOption {
    SpiMuxOption { outputs: vec![group(0, 0b1010_0000, 5)], input: group(0, 0b0100_0000, 5), swap_data: false }
}

fn option_b() -> SpiMuxOption {
    SpiMuxOption {
        outputs: vec![group(1, 0b1000, 5), group(1, 0b10_0000, 6)],
        input: group(1, 0b1_0000, 5),
        swap_data: true,
    }
}

/// Devices 0 and 1 share option 0; device 2 is on option 1.
fn config() -> ServerConfig {
    ServerConfig {
        registers: 0x4001_3000,
        mux_options: vec![option_a(), option_b()],
        devices: vec![
            DeviceDescriptor { mux_index: 0, cs: PinSet { port: 0, pin_mask: 0b1_0000 }, clock_divider: 3 },
            DeviceDescriptor { mux_index: 0, cs: PinSet { port: 2, pin_mask: 1 }, clock_divider: 2 },
            DeviceDescriptor { mux_index: 1, cs: PinSet { port: 3, pin_mask: 0x8000 }, clock_divider: 5 },
        ],
    }
}

fn server() -> Server {
    Server::try_new(config()).expect("valid configuration")
}

fn cs_low(port: u8, mask: u16) -> Action {
    Action::ChipSelect(PinWrite { port, set_mask: 0, reset_mask: mask })
}

fn cs_high(port: u8, mask: u16) -> Action {
    Action::ChipSelect(PinWrite { port, set_mask: mask, reset_mask: 0 })
}

fn prime(len: u16, clock_divider: u8) -> Vec<Action> {
    vec![
        Action::Enable { len, clock_divider },
        Action::Start,
        Action::ClearEot,
        Action::EnableTransferInterrupts,
    ]
}

/// What a simulated bus saw while a transfer ran.
struct Run {
    last: Action,
    actions: Vec<Action>,
    wire: Vec<u8>,
    most_in_flight: usize,
}

/// Runs `t` on a simulated controller whose peripheral answers byte `i` of
/// the transaction, `b`, with `reply(i, b)`. The receive side only reports a
/// byte on every `rx_every`-th query, to let transmission run ahead.
fn drive(t: &mut Transfer, reply: &dyn Fn(usize, u8) -> u8, rx_every: usize) -> Run {
    let mut ev = Event::Ack;
    let mut rx: VecDeque<u8> = VecDeque::new();
    let mut wire: Vec<u8> = Vec::new();
    let mut actions: Vec<Action> = Vec::new();
    let mut len: usize = 0;
    let mut received: usize = 0;
    let mut rx_queries: usize = 0;
    let mut most_in_flight: usize = 0;
    for _ in 0..1_000_000 {
        let a = t.step(ev);
        actions.push(a);
        ev = match a {
            Action::Enable { len: n, .. } => {
                len = n as usize;
                Event::Ack
            }
            Action::QueryTxFrame => Event::Ready(rx.len() < 64),
            Action::Send(b) => {
                rx.push_back(reply(wire.len(), b));
                wire.push(b);
                most_in_flight = most_in_flight.max(wire.len() - received);
                Event::Ack
            }
            Action::QueryRxByte => {
                rx_queries += 1;
                Event::Ready(!rx.is_empty() && rx_queries % rx_every == 0)
            }
            Action::Receive => {
                received += 1;
                Event::Received(rx.pop_front().unwrap())
            }
            Action::CheckOverrun => Event::Ready(false),
            Action::CheckEot => Event::Ready(wire.len() == len && rx.is_empty()),
            Action::Complete | Action::Halt => {
                return Run { last: a, actions, wire, most_in_flight };
            }
            _ => Event::Ack,
        };
    }
    panic!("transfer did not finish");
}

fn echo(_: usize, b: u8) -> u8 {
    b
}

fn position(i: usize, _: u8) -> u8 {
    0x10 + i as u8
}

#[test]
fn exchange_echo_end_to_end() {
    let mut s = server();
    let mut t = s.exchange(0, vec![0xAA, 0xBB, 0xCC], 3).unwrap();
    let run = drive(&mut t, &echo, 1);
    assert_eq!(run.last, Action::Complete);
    assert_eq!(run.wire, vec![0xAA, 0xBB, 0xCC]);
    assert_eq!(t.dest(), &vec![0xAA, 0xBB, 0xCC]);
}

#[test]
fn exchange_returns_what_the_peripheral_answers() {
    let mut s = server();
    let mut t = s.exchange(0, vec![0xAA, 0xBB, 0xCC], 3).unwrap();
    let run = drive(&mut t, &position, 1);
    assert_eq!(run.last, Action::Complete);
    assert_eq!(run.wire, vec![0xAA, 0xBB, 0xCC]);
    assert_eq!(t.dest(), &vec![0x10, 0x11, 0x12]);
}

#[test]
fn short_source_is_zero_padded() {
    let mut s = server();
    let mut t = s.exchange(1, vec![1, 2], 5).unwrap();
    let run = drive(&mut t, &position, 1);
    assert_eq!(run.last, Action::Complete);
    assert_eq!(run.wire, vec![1, 2, 0, 0, 0]);
    assert_eq!(t.dest(), &vec![0x10, 0x11, 0x12, 0x13, 0x14]);
}

#[test]
fn short_destination_keeps_the_first_bytes() {
    let mut s = server();
    let mut t = s.exchange(1, vec![9, 8, 7, 6], 2).unwrap();
    let run = drive(&mut t, &position, 1);
    assert_eq!(run.last, Action::Complete);
    assert_eq!(run.wire, vec![9, 8, 7, 6]);
    assert_eq!(t.dest(), &vec![0x10, 0x11]);
}

#[test]
fn read_sends_zeros() {
    let mut s = server();
    let mut t = s.read(0, 4).unwrap();
    let run = drive(&mut t, &position, 1);
    assert_eq!(run.last, Action::Complete);
    assert_eq!(run.wire, vec![0, 0, 0, 0]);
    assert_eq!(t.dest(), &vec![0x10, 0x11, 0x12, 0x13]);
}

#[test]
fn write_keeps_nothing() {
    let mut s = server();
    let mut t = s.write(0, vec![5, 6, 7]).unwrap();
    let run = drive(&mut t, &position, 1);
    assert_eq!(run.last, Action::Complete);
    assert_eq!(run.wire, vec![5, 6, 7]);
    assert!(t.dest().is_empty());
}

#[test]
fn largest_transfer_completes() {
    let mut s = server();
    let src: Vec<u8> = (0..65535u32).map(|i| (i % 251) as u8).collect();
    let mut t = s.exchange(0, src.clone(), 65535).unwrap();
    let run = drive(&mut t, &echo, 3);
    assert_eq!(run.last, Action::Complete);
    assert_eq!(run.wire, src);
    assert_eq!(t.dest(), &src);
}

#[test]
fn transmission_runs_at_most_the_permits_ahead() {
    let mut s = server();
    let mut t = s.read(0, 200).unwrap();
    let run = drive(&mut t, &echo, 7);
    assert_eq!(run.last, Action::Complete);
    assert_eq!(run.wire.len(), 200);
    assert_eq!(run.most_in_flight, TX_PERMITS as usize);
}

#[test]
fn transfer_action_sequence() {
    let mut s = server();
    let mut t = s.write(0, vec![0x42]).unwrap();
    let run = drive(&mut t, &echo, 1);
    let mut expected = prime(1, 3);
    expected.push(cs_low(0, 0b1_0000));
    expected.extend([
        Action::QueryTxFrame,
        Action::Send(0x42),
        Action::DisableTxInterrupt,
        Action::QueryRxByte,
        Action::Receive,
        Action::QueryRxByte,
        Action::WaitForInterrupt,
        Action::CheckEot,
        Action::ClearEot,
        Action::End,
        cs_high(0, 0b1_0000),
        Action::Complete,
    ]);
    assert_eq!(run.actions, expected);
}

#[test]
fn idle_pass_checks_overrun_then_waits() {
    let mut s = server();
    let mut t = s.read(0, 1).unwrap();
    let mut a = t.step(Event::Ack);
    while a != Action::QueryTxFrame {
        a = t.step(Event::Ack);
    }
    // The transmit FIFO is full and nothing has come back: no progress.
    assert_eq!(t.step(Event::Ready(false)), Action::QueryRxByte);
    assert_eq!(t.step(Event::Ready(false)), Action::CheckOverrun);
    assert_eq!(t.step(Event::Ready(false)), Action::WaitForInterrupt);
    assert_eq!(t.step(Event::Ack), Action::QueryTxFrame);
}

#[test]
fn overrun_halts() {
    let mut s = server();
    let mut t = s.read(0, 1).unwrap();
    let mut a = t.step(Event::Ack);
    while a != Action::QueryTxFrame {
        a = t.step(Event::Ack);
    }
    assert_eq!(t.step(Event::Ready(false)), Action::QueryRxByte);
    assert_eq!(t.step(Event::Ready(false)), Action::CheckOverrun);
    assert_eq!(t.step(Event::Ready(true)), Action::Halt);
    assert_eq!(t.step(Event::Ack), Action::Halt);
}

#[test]
fn byte_received_before_any_sent_halts() {
    let mut s = server();
    let mut t = s.read(0, 1).unwrap();
    let mut a = t.step(Event::Ack);
    while a != Action::QueryTxFrame {
        a = t.step(Event::Ack);
    }
    assert_eq!(t.step(Event::Ready(false)), Action::QueryRxByte);
    assert_eq!(t.step(Event::Ready(true)), Action::Halt);
}

#[test]
fn wrong_event_halts() {
    let mut s = server();
    let mut t = s.read(0, 1).unwrap();
    assert_eq!(t.step(Event::Received(3)), Action::Halt);
}

#[test]
fn zero_length_transfers_refused() {
    let mut s = server();
    assert_eq!(s.read(0, 0).err(), Some(SpiError::BadTransferSize));
    assert_eq!(s.write(1, vec![]).err(), Some(SpiError::BadTransferSize));
    assert_eq!(s.exchange(2, vec![], 0).err(), Some(SpiError::BadTransferSize));
    assert_eq!(s.current_mux_index(), 0);
}

#[test]
fn unknown_device_refused() {
    let mut s = server();
    assert_eq!(s.read(3, 1).err(), Some(SpiError::BadDevice));
    assert_eq!(s.write(200, vec![1]).err(), Some(SpiError::BadDevice));
    assert_eq!(s.exchange(255, vec![1], 1).err(), Some(SpiError::BadDevice));
    assert_eq!(s.read(3, 0).err(), Some(SpiError::BadDevice));
    assert_eq!(s.lock(TaskId(1), 3, CsState::Asserted), Err(SpiError::BadDevice));
    assert_eq!(s.lock_holder(), None);
}

#[test]
fn lock_asserts_and_pins_the_device() {
    let mut s = server();
    assert_eq!(s.lock(TaskId(4), 1, CsState::Asserted), Ok(PinWrite { port: 2, set_mask: 0, reset_mask: 1 }));
    assert_eq!(s.lock_holder(), Some(LockState { task: TaskId(4), device_index: 1 }));
    assert_eq!(s.recv_source(), Some(TaskId(4)));
    assert!(s.accepts(TaskId(4)));
    assert!(!s.accepts(TaskId(5)));
    assert_eq!(s.read(0, 1).err(), Some(SpiError::BadDevice));
    assert_eq!(s.exchange(2, vec![1], 1).err(), Some(SpiError::BadDevice));
    assert_eq!(s.lock(TaskId(4), 0, CsState::Asserted), Err(SpiError::BadDevice));
    let mut t = s.exchange(1, vec![1, 2], 2).unwrap();
    assert!(!t.cs_auto());
    let run = drive(&mut t, &echo, 1);
    assert_eq!(run.last, Action::Complete);
    assert!(!run.actions.iter().any(|a| matches!(a, Action::ChipSelect(_))));
    assert_eq!(t.dest(), &vec![1, 2]);
}

#[test]
fn locked_holder_may_change_cs_level() {
    let mut s = server();
    assert!(s.lock(TaskId(4), 2, CsState::Asserted).is_ok());
    assert_eq!(
        s.lock(TaskId(4), 2, CsState::Deasserted),
        Ok(PinWrite { port: 3, set_mask: 0x8000, reset_mask: 0 })
    );
    assert_eq!(s.lock_holder(), Some(LockState { task: TaskId(4), device_index: 2 }));
}

#[test]
fn release_without_lock_refused() {
    let mut s = server();
    assert_eq!(s.release(TaskId(1)), Err(SpiError::NothingToRelease));
}

#[test]
fn release_deasserts_once() {
    let mut s = server();
    assert!(s.lock(TaskId(7), 0, CsState::Asserted).is_ok());
    assert_eq!(s.release(TaskId(7)), Ok(PinWrite { port: 0, set_mask: 0b1_0000, reset_mask: 0 }));
    assert_eq!(s.lock_holder(), None);
    assert_eq!(s.release(TaskId(7)), Err(SpiError::NothingToRelease));
}

#[test]
fn crashed_lock_holder_is_forgotten() {
    let mut s = server();
    assert!(s.lock(TaskId(1), 1, CsState::Asserted).is_ok());
    assert_eq!(s.closed_recv_fail(), Some(PinWrite { port: 2, set_mask: 1, reset_mask: 0 }));
    assert_eq!(s.recv_source(), None);
    assert!(s.accepts(TaskId(2)));
    let mut t = s.exchange(1, vec![0x5A], 1).unwrap();
    assert!(t.cs_auto());
    let mut setup = prime(1, 2);
    setup.push(cs_low(2, 1));
    assert_eq!(t.setup(), &setup);
    let run = drive(&mut t, &echo, 1);
    assert_eq!(run.last, Action::Complete);
    let n = run.actions.len();
    assert_eq!(run.actions[n - 2], cs_high(2, 1));
    assert_eq!(t.dest(), &vec![0x5A]);
}

/// Level of pin 0 of port 2 (device 1's chip-select) after `w`.
fn cs1_after(high: bool, w: PinWrite) -> bool {
    if w.port != 2 {
        high
    } else if w.set_mask & 1 != 0 {
        true
    } else if w.reset_mask & 1 != 0 {
        false
    } else {
        high
    }
}

#[test]
fn crashed_holder_chip_select_raised_before_next_assert() {
    let mut s = server();
    let mut high = true;
    high = cs1_after(high, s.lock(TaskId(1), 1, CsState::Asserted).unwrap());
    assert!(!high);
    high = cs1_after(high, s.closed_recv_fail().unwrap());
    assert!(high);
    // A transfer to another device in between leaves device 1 deselected.
    let mut t = s.read(0, 2).unwrap();
    let run = drive(&mut t, &echo, 1);
    assert_eq!(run.last, Action::Complete);
    for a in &run.actions {
        if let Action::ChipSelect(w) = a {
            high = cs1_after(high, *w);
        }
    }
    assert!(high);
    // The next transfer to device 1 asserts the line itself, as its first
    // chip-select action.
    let t = s.write(1, vec![7]).unwrap();
    let first_cs = t.setup().iter().find(|a| matches!(a, Action::ChipSelect(_)));
    assert_eq!(first_cs, Some(&cs_low(2, 1)));
}

#[test]
fn closed_channel_without_lock_does_nothing() {
    let mut s = server();
    assert_eq!(s.closed_recv_fail(), None);
    assert_eq!(s.lock_holder(), None);
}

#[test]
fn same_mux_routes_once() {
    let mut s = server();
    let t = s.read(2, 1).unwrap();
    let mut first = deactivate_mux_option(&option_a());
    first.extend(activate_mux_option(&option_b()));
    first.extend(prime(1, 5));
    first.push(cs_low(3, 0x8000));
    assert_eq!(t.setup(), &first);
    assert_eq!(s.current_mux_index(), 1);
    let t = s.read(2, 1).unwrap();
    let mut second = prime(1, 5);
    second.push(cs_low(3, 0x8000));
    assert_eq!(t.setup(), &second);
    // Devices 0 and 1 share option 0: no routing between them.
    let _ = s.read(0, 1).unwrap();
    let t = s.read(1, 1).unwrap();
    assert_eq!(t.setup()[0], Action::Enable { len: 1, clock_divider: 2 });
}

#[test]
fn alternating_mux_deactivates_then_activates() {
    let mut s = server();
    for _ in 0..2 {
        let t = s.write(2, vec![1]).unwrap();
        let mut expected = deactivate_mux_option(&option_a());
        expected.extend(activate_mux_option(&option_b()));
        assert_eq!(&t.setup()[..expected.len()], &expected[..]);
        let t = s.write(0, vec![1]).unwrap();
        let mut expected = deactivate_mux_option(&option_b());
        expected.extend(activate_mux_option(&option_a()));
        assert_eq!(&t.setup()[..expected.len()], &expected[..]);
        assert_eq!(s.current_mux_index(), 0);
    }
}

#[test]
fn startup_parks_everything_but_option_zero() {
    let s = server();
    let mut expected = vec![];
    for (port, mask) in [(0u8, 0b1_0000u16), (2, 1), (3, 0x8000)] {
        expected.push(cs_high(port, mask));
        expected.push(Action::Configure(PinConfig { port, pin_mask: mask, mode: GpioMode::Output, af: 1 }));
    }
    expected.extend(deactivate_mux_option(&option_b()));
    expected.extend(activate_mux_option(&option_a()));
    assert_eq!(s.startup_actions(), expected);
}

#[test]
fn invalid_configuration_gives_no_server() {
    let mut c = config();
    c.devices[0].mux_index = 9;
    assert!(Server::try_new(c).is_none());
}
