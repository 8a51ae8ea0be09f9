use vstd::prelude::*;

use crate::action::{Action, GpioMode, PinConfig, PinWrite};
use crate::config::{check_server_config, DeviceDescriptor, PinSet, ServerConfig, SpiMuxOption};
use crate::mux::{
    activate_mux_option, activate_ops, deactivate_mux_option, deactivate_ops, park_output,
    park_outputs,
};
use crate::config::PinGroup;
use crate::pins::{has_pin, pin_effect, PinState};
use crate::action::Event;
use crate::transfer::{
    lemma_finished_transfer_moved_every_byte, lemma_locked_run_leaves_cs, lemma_run_keeps_inv,
    no_chip_select, padded, Phase,
    Transfer, TransferView,
};

verus! {

/// Errors returned to a client.
#[derive(Clone, Copy, PartialEq, Eq, Structural, Debug)]
pub enum SpiError {
    /// The device index is out of range, or differs from the locked device.
    BadDevice,
    /// The transfer would move no byte.
    BadTransferSize,
    /// `release` without a lock held.
    NothingToRelease,
}

/// The chip-select level a lock holder asks for.
#[derive(Clone, Copy, PartialEq, Eq, Structural, Debug)]
pub enum CsState {
    Asserted,
    Deasserted,
}

/// Identity of a client task.
#[derive(Clone, Copy, PartialEq, Eq, Structural, Debug)]
pub struct TaskId(pub u16);

/// Who holds the bus lock, and for which device.
#[derive(Clone, Copy, PartialEq, Eq, Structural, Debug)]
pub struct LockState {
    pub task: TaskId,
    pub device_index: usize,
}

/// The write that puts a chip-select line at the asked level. The line is
/// active low: asserting drives it low, deasserting drives it high.
pub open spec fn cs_write(cs: PinSet, asserted: bool) -> PinWrite {
    if asserted {
        PinWrite { port: cs.port, set_mask: 0, reset_mask: cs.pin_mask }
    } else {
        PinWrite { port: cs.port, set_mask: cs.pin_mask, reset_mask: 0 }
    }
}

fn make_cs_write(cs: PinSet, asserted: bool) -> (r: PinWrite)
    ensures
        r == cs_write(cs, asserted),
{
    if asserted {
        PinWrite { port: cs.port, set_mask: 0, reset_mask: cs.pin_mask }
    } else {
        PinWrite { port: cs.port, set_mask: cs.pin_mask, reset_mask: 0 }
    }
}

/// Actions that move the routing from option `from` to option `to`: none
/// when they are the same, else `from` deactivated and then `to` activated.
pub open spec fn route_ops(config: ServerConfig, from: nat, to: nat) -> Seq<Action> {
    if from == to {
        seq![]
    } else {
        deactivate_ops(config.mux_options@[from as int]) + activate_ops(
            config.mux_options@[to as int],
        )
    }
}

/// Actions that prime the controller for `len` bytes at `clock_divider`,
/// then assert chip-select when the transfer drives it itself.
pub open spec fn prime_ops(len: nat, clock_divider: u8, cs_auto: bool, cs: PinSet) -> Seq<Action> {
    seq![
        Action::Enable { len: len as u16, clock_divider },
        Action::Start,
        Action::ClearEot,
        Action::EnableTransferInterrupts,
    ] + if cs_auto {
        seq![Action::ChipSelect(cs_write(cs, true))]
    } else {
        seq![]
    }
}

/// Start-up actions for one device: chip-select deasserted, and left a plain
/// output from then on.
pub open spec fn cs_init_ops(devices: Seq<DeviceDescriptor>) -> Seq<Action>
    decreases devices.len(),
{
    if devices.len() == 0 {
        seq![]
    } else {
        let cs = devices.last().cs;
        cs_init_ops(devices.drop_last()) + seq![
            Action::ChipSelect(cs_write(cs, false)),
            Action::Configure(
                PinConfig { port: cs.port, pin_mask: cs.pin_mask, mode: GpioMode::Output, af: 1 },
            ),
        ]
    }
}

pub open spec fn deactivate_all(options: Seq<SpiMuxOption>) -> Seq<Action>
    decreases options.len(),
{
    if options.len() == 0 {
        seq![]
    } else {
        deactivate_all(options.drop_last()) + deactivate_ops(options.last())
    }
}

/// Start-up actions: every chip-select deasserted, every option but the first
/// deactivated (whatever a previous run left active), then the first
/// activated.
pub open spec fn startup_ops(config: ServerConfig) -> Seq<Action> {
    cs_init_ops(config.devices@) + deactivate_all(config.mux_options@.drop_first()) + activate_ops(
        config.mux_options@[0],
    )
}

/// The mathematical state of the server.
pub struct ServerView {
    pub config: ServerConfig,
    pub lock_holder: Option<LockState>,
    pub current_mux_index: nat,
}

impl ServerView {
    pub open spec fn wf(self) -> bool {
        &&& self.config.valid()
        &&& self.current_mux_index < self.config.mux_options@.len()
        &&& self.lock_holder is Some ==> self.lock_holder->0.device_index
            < self.config.devices@.len()
    }

    /// Whether a request from `caller` can be delivered: while a lock is
    /// held, only its holder is listened to.
    pub open spec fn accepts(self, caller: TaskId) -> bool {
        self.lock_holder is Some ==> self.lock_holder->0.task == caller
    }

    /// `lock`: the new state and the result.
    pub open spec fn lock_step(self, caller: TaskId, device_index: u8, cs: CsState) -> (
        ServerView,
        Result<PinWrite, SpiError>,
    ) {
        if self.lock_holder is Some && self.lock_holder->0.device_index != device_index as usize {
            (self, Err(SpiError::BadDevice))
        } else if device_index as nat >= self.config.devices@.len() {
            (self, Err(SpiError::BadDevice))
        } else {
            (
                ServerView {
                    lock_holder: Some(LockState { task: caller, device_index: device_index as usize }),
                    ..self
                },
                Ok(cs_write(self.config.devices@[device_index as int].cs, cs == CsState::Asserted)),
            )
        }
    }

    /// The lock holder's channel closed without `release`: the new state, and
    /// the write that deasserts the chip-select it may have left asserted.
    pub open spec fn closed_step(self) -> (ServerView, Option<PinWrite>) {
        match self.lock_holder {
            None => (self, None),
            Some(l) => (
                ServerView { lock_holder: None, ..self },
                Some(cs_write(self.config.devices@[l.device_index as int].cs, false)),
            ),
        }
    }

    /// `release`: the new state and the result.
    pub open spec fn release_step(self) -> (ServerView, Result<PinWrite, SpiError>) {
        match self.lock_holder {
            None => (self, Err(SpiError::NothingToRelease)),
            Some(l) => (
                ServerView { lock_holder: None, ..self },
                Ok(cs_write(self.config.devices@[l.device_index as int].cs, false)),
            ),
        }
    }

    /// A read, write or exchange with device `device_index`, sending `src`
    /// and keeping up to `dest_len` received bytes: the new state and the
    /// transfer to drive, or the error.
    pub open spec fn transfer_step(self, device_index: u8, src: Seq<u8>, dest_len: nat) -> (
        ServerView,
        Result<TransferView, SpiError>,
    ) {
        let n = if src.len() < dest_len {
            dest_len
        } else {
            src.len()
        };
        if self.lock_holder is Some && self.lock_holder->0.device_index != device_index as usize {
            (self, Err(SpiError::BadDevice))
        } else if device_index as nat >= self.config.devices@.len() {
            (self, Err(SpiError::BadDevice))
        } else if n == 0 {
            (self, Err(SpiError::BadTransferSize))
        } else {
            let dev = self.config.devices@[device_index as int];
            let cs_auto = self.lock_holder is None;
            let setup = route_ops(self.config, self.current_mux_index, dev.mux_index as nat)
                + prime_ops(n, dev.clock_divider, cs_auto, dev.cs);
            (
                ServerView { current_mux_index: dev.mux_index as nat, ..self },
                Ok(
                    TransferView::fresh(setup, src, dest_len, cs_auto, cs_write(dev.cs, false)),
                ),
            )
        }
    }
}

/// The server for one controller: its configuration, the lock, and which
/// mux option is active.
pub struct Server {
    config: ServerConfig,
    lock_holder: Option<LockState>,
    current_mux_index: usize,
}

impl View for Server {
    type V = ServerView;

    closed spec fn view(&self) -> ServerView {
        ServerView {
            config: self.config,
            lock_holder: self.lock_holder,
            current_mux_index: self.current_mux_index as nat,
        }
    }
}

impl Server {
    /// A server on a configuration that `check_server_config` accepted, with
    /// no lock and the first mux option active. Perform `startup_actions`
    /// before serving requests.
    pub fn new(config: ServerConfig) -> (r: Server)
        requires
            config.valid(),
        ensures
            r@ == (ServerView { config, lock_holder: None, current_mux_index: 0 }),
            r@.wf(),
    {
        Server { config, lock_holder: None, current_mux_index: 0 }
    }

    /// The server on `config`, or `None` when the configuration is invalid.
    pub fn try_new(config: ServerConfig) -> (r: Option<Server>)
        ensures
            r is Some <==> config.valid(),
            r is Some ==> r->0@ == (ServerView { config, lock_holder: None, current_mux_index: 0 }),
            r is Some ==> r->0@.wf(),
    {
        if check_server_config(&config) {
            Some(Server::new(config))
        } else {
            None
        }
    }

    /// The task whose requests alone may be received, while a lock is held.
    pub fn recv_source(&self) -> (r: Option<TaskId>)
        ensures
            r == match self@.lock_holder {
                Some(l) => Some(l.task),
                None => None::<TaskId>,
            },
    {
        match self.lock_holder {
            Some(l) => Some(l.task),
            None => None,
        }
    }

    /// The current lock, if any.
    pub fn lock_holder(&self) -> (r: Option<LockState>)
        ensures
            r == self@.lock_holder,
    {
        self.lock_holder
    }

    /// The mux option currently routed.
    pub fn current_mux_index(&self) -> (r: usize)
        ensures
            r as nat == self@.current_mux_index,
    {
        self.current_mux_index
    }

    /// Whether a request from `caller` may be served now.
    pub fn accepts(&self, caller: TaskId) -> (r: bool)
        ensures
            r == self@.accepts(caller),
    {
        match self.lock_holder {
            Some(l) => l.task == caller,
            None => true,
        }
    }

    /// The lock holder's channel closed before it released the lock: forget
    /// the lock. Returns the write that deasserts the locked device's
    /// chip-select, which the dead holder may have left asserted; perform it
    /// before serving the next request.
    pub fn closed_recv_fail(&mut self) -> (r: Option<PinWrite>)
        requires
            old(self)@.wf(),
        ensures
            (final(self)@, r) == old(self)@.closed_step(),
            final(self)@.wf(),
    {
        match self.lock_holder {
            None => None,
            Some(l) => {
                let cs = self.config.devices[l.device_index].cs;
                self.lock_holder = None;
                Some(make_cs_write(cs, false))
            },
        }
    }

    /// Takes the lock for `caller` on device `device_index`, or changes the
    /// chip-select level of the device already locked. Returns the
    /// chip-select write to perform.
    pub fn lock(&mut self, caller: TaskId, device_index: u8, cs_state: CsState) -> (r: Result<
        PinWrite,
        SpiError,
    >)
        requires
            old(self)@.wf(),
            old(self)@.accepts(caller),
        ensures
            (final(self)@, r) == old(self)@.lock_step(caller, device_index, cs_state),
            final(self)@.wf(),
    {
        let device_index: usize = device_index as usize;
        if let Some(l) = self.lock_holder {
            if l.device_index != device_index {
                return Err(SpiError::BadDevice);
            }
        }
        if device_index >= self.config.devices.len() {
            return Err(SpiError::BadDevice);
        }
        let cs = self.config.devices[device_index].cs;
        self.lock_holder = Some(LockState { task: caller, device_index });
        let asserted = match cs_state {
            CsState::Asserted => true,
            CsState::Deasserted => false,
        };
        Ok(make_cs_write(cs, asserted))
    }

    /// Gives the lock up. Returns the write that deasserts the locked
    /// device's chip-select.
    pub fn release(&mut self, caller: TaskId) -> (r: Result<PinWrite, SpiError>)
        requires
            old(self)@.wf(),
            old(self)@.accepts(caller),
        ensures
            (final(self)@, r) == old(self)@.release_step(),
            final(self)@.wf(),
    {
        match self.lock_holder {
            None => Err(SpiError::NothingToRelease),
            Some(l) => {
                let cs = self.config.devices[l.device_index].cs;
                self.lock_holder = None;
                Ok(make_cs_write(cs, false))
            },
        }
    }

    /// The actions to perform once, before serving requests.
    pub fn startup_actions(&self) -> (r: Vec<Action>)
        requires
            self@.wf(),
        ensures
            r@ == startup_ops(self@.config),
    {
        let devices = &self.config.devices;
        let mut r: Vec<Action> = Vec::new();
        let mut i: usize = 0;
        while i < devices.len()
            invariant
                0 <= i <= devices@.len(),
                r@ == cs_init_ops(devices@.take(i as int)),
            decreases devices@.len() - i,
        {
            let cs = devices[i].cs;
            r.push(Action::ChipSelect(make_cs_write(cs, false)));
            r.push(
                Action::Configure(
                    PinConfig { port: cs.port, pin_mask: cs.pin_mask, mode: GpioMode::Output, af: 1 },
                ),
            );
            proof {
                let ds = devices@.take(i + 1);
                assert(ds.drop_last() =~= devices@.take(i as int));
                assert(r@ =~= cs_init_ops(ds));
            }
            i = i + 1;
        }
        assert(devices@.take(i as int) =~= devices@);
        let options = &self.config.mux_options;
        let ghost head = r@;
        let mut k: usize = 1;
        while k < options.len()
            invariant
                1 <= k <= options@.len(),
                r@ == head + deactivate_all(options@.subrange(1, k as int)),
            decreases options@.len() - k,
        {
            let mut ops = deactivate_mux_option(&options[k]);
            r.append(&mut ops);
            proof {
                let os = options@.subrange(1, k + 1);
                assert(os.drop_last() =~= options@.subrange(1, k as int));
                assert(r@ =~= head + deactivate_all(os));
            }
            k = k + 1;
        }
        assert(options@.subrange(1, k as int) =~= options@.drop_first());
        let mut ops = activate_mux_option(&options[0]);
        r.append(&mut ops);
        r
    }

    /// Shared body of `read`, `write` and `exchange`. A read has an empty
    /// source and a write no room for received bytes; a request with neither
    /// a source nor a destination cannot be expressed.
    fn ready_writey(&mut self, device_index: u8, src: Vec<u8>, dest_len: u16) -> (r: Result<
        Transfer,
        SpiError,
    >)
        requires
            old(self)@.wf(),
            src@.len() <= 0xffff,
        ensures
            final(self)@ == old(self)@.transfer_step(device_index, src@, dest_len as nat).0,
            match r {
                Ok(t) => old(self)@.transfer_step(device_index, src@, dest_len as nat).1
                    == Ok::<TransferView, SpiError>(t@) && t@.inv(),
                Err(e) => old(self)@.transfer_step(device_index, src@, dest_len as nat).1
                    == Err::<TransferView, SpiError>(e),
            },
            final(self)@.wf(),
    {
        let device_index: usize = device_index as usize;
        if let Some(l) = self.lock_holder {
            if l.device_index != device_index {
                return Err(SpiError::BadDevice);
            }
        }
        if device_index >= self.config.devices.len() {
            return Err(SpiError::BadDevice);
        }
        if src.len() == 0 && dest_len == 0 {
            return Err(SpiError::BadTransferSize);
        }
        let dev = self.config.devices[device_index];
        let overall_len: u16 = if src.len() < dest_len as usize {
            dest_len
        } else {
            src.len() as u16
        };
        let mut setup: Vec<Action> = Vec::new();
        if dev.mux_index != self.current_mux_index {
            setup = deactivate_mux_option(&self.config.mux_options[self.current_mux_index]);
            let mut on = activate_mux_option(&self.config.mux_options[dev.mux_index]);
            setup.append(&mut on);
            self.current_mux_index = dev.mux_index;
        }
        let cs_auto = self.lock_holder.is_none();
        setup.push(Action::Enable { len: overall_len, clock_divider: dev.clock_divider });
        setup.push(Action::Start);
        setup.push(Action::ClearEot);
        setup.push(Action::EnableTransferInterrupts);
        if cs_auto {
            setup.push(Action::ChipSelect(make_cs_write(dev.cs, true)));
        }
        let ghost route = route_ops(
            old(self)@.config,
            old(self)@.current_mux_index,
            dev.mux_index as nat,
        );
        assert(setup@ =~= route + prime_ops(overall_len as nat, dev.clock_divider, cs_auto, dev.cs));
        Ok(Transfer::new(setup, src, dest_len, cs_auto, make_cs_write(dev.cs, false)))
    }

    /// Reads `dest_len` bytes from device `device_index`, sending zeros.
    pub fn read(&mut self, device_index: u8, dest_len: u16) -> (r: Result<Transfer, SpiError>)
        requires
            old(self)@.wf(),
        ensures
            final(self)@ == old(self)@.transfer_step(device_index, seq![], dest_len as nat).0,
            match r {
                Ok(t) => old(self)@.transfer_step(device_index, seq![], dest_len as nat).1
                    == Ok::<TransferView, SpiError>(t@) && t@.inv(),
                Err(e) => old(self)@.transfer_step(device_index, seq![], dest_len as nat).1
                    == Err::<TransferView, SpiError>(e),
            },
            final(self)@.wf(),
    {
        self.ready_writey(device_index, Vec::new(), dest_len)
    }

    /// Writes `src` to device `device_index`, discarding what comes back.
    pub fn write(&mut self, device_index: u8, src: Vec<u8>) -> (r: Result<Transfer, SpiError>)
        requires
            old(self)@.wf(),
            src@.len() <= 0xffff,
        ensures
            final(self)@ == old(self)@.transfer_step(device_index, src@, 0).0,
            match r {
                Ok(t) => old(self)@.transfer_step(device_index, src@, 0).1 == Ok::<
                    TransferView,
                    SpiError,
                >(t@) && t@.inv(),
                Err(e) => old(self)@.transfer_step(device_index, src@, 0).1 == Err::<
                    TransferView,
                    SpiError,
                >(e),
            },
            final(self)@.wf(),
    {
        self.ready_writey(device_index, src, 0)
    }

    /// Sends `src` to device `device_index` while keeping up to `dest_len`
    /// of the bytes that come back.
    pub fn exchange(&mut self, device_index: u8, src: Vec<u8>, dest_len: u16) -> (r: Result<
        Transfer,
        SpiError,
    >)
        requires
            old(self)@.wf(),
            src@.len() <= 0xffff,
        ensures
            final(self)@ == old(self)@.transfer_step(device_index, src@, dest_len as nat).0,
            match r {
                Ok(t) => old(self)@.transfer_step(device_index, src@, dest_len as nat).1
                    == Ok::<TransferView, SpiError>(t@) && t@.inv(),
                Err(e) => old(self)@.transfer_step(device_index, src@, dest_len as nat).1
                    == Err::<TransferView, SpiError>(e),
            },
            final(self)@.wf(),
    {
        self.ready_writey(device_index, src, dest_len)
    }
}

proof fn lemma_park_outputs_no_cs(groups: Seq<PinGroup>)
    ensures
        no_chip_select(park_outputs(groups)),
    decreases groups.len(),
{
    if groups.len() > 0 {
        lemma_park_outputs_no_cs(groups.drop_last());
        let a = park_outputs(groups.drop_last());
        let b = park_output(groups.last());
        assert forall|i: int| 0 <= i < (a + b).len() implies !(#[trigger] (a + b)[i] is ChipSelect) by {
            if i < a.len() {
                assert((a + b)[i] == a[i]);
            }
        }
    }
}

/// Routing never touches a chip-select line.
proof fn lemma_route_no_cs(config: ServerConfig, from: nat, to: nat)
    ensures
        no_chip_select(route_ops(config, from, to)),
{
    if from != to {
        let off = config.mux_options@[from as int];
        let on = config.mux_options@[to as int];
        lemma_park_outputs_no_cs(off.outputs@);
        let d = deactivate_ops(off);
        let a = activate_ops(on);
        assert(no_chip_select(d)) by {
            let p = park_outputs(off.outputs@);
            assert forall|i: int| 0 <= i < d.len() implies !(#[trigger] d[i] is ChipSelect) by {
                if i < p.len() {
                    assert(d[i] == p[i]);
                }
            }
        }
        assert forall|i: int| 0 <= i < (d + a).len() implies !(#[trigger] (d + a)[i] is ChipSelect) by {
            if i < d.len() {
                assert((d + a)[i] == d[i]);
            }
        }
    }
}

/// A read, write or exchange with `overall_len` bytes, whatever the hardware
/// answers along the way, has once it finishes sent exactly `src` followed by
/// zeros up to `overall_len` bytes, in order, and received exactly
/// `overall_len` bytes, of which the destination holds the first `dest_len`.
pub proof fn lemma_transfer_moves_every_byte(
    s: ServerView,
    device_index: u8,
    src: Seq<u8>,
    dest_len: nat,
    events: Seq<Event>,
)
    requires
        s.wf(),
        src.len() <= 0xffff,
        dest_len <= 0xffff,
        s.transfer_step(device_index, src, dest_len).1 is Ok,
    ensures
        ({
            let t = s.transfer_step(device_index, src, dest_len).1->Ok_0;
            let end = t.run(events);
            let n = if src.len() < dest_len {
                dest_len
            } else {
                src.len()
            };
            &&& t.overall_len == n
            &&& end.phase == Phase::Finished ==> {
                &&& end.sent == padded(src, n)
                &&& end.received.len() == n
                &&& end.dest == end.received.take(dest_len as int)
            }
        }),
{
    let t = s.transfer_step(device_index, src, dest_len).1->Ok_0;
    assert(t.dest =~= t.received.take(0));
    assert(t.sent =~= padded(t.src, t.overall_len).take(0));
    lemma_run_keeps_inv(t, events);
    let end = t.run(events);
    if end.phase == Phase::Finished {
        lemma_finished_transfer_moved_every_byte(end);
    }
}

/// A holder locks device `d` with chip-select asserted and its channel then
/// closes without `release`. Forgetting the lock yields the write that drives
/// that chip-select high again, the server then listens to anyone, and a
/// transfer from any caller to `d` is accepted in automatic chip-select mode:
/// its first chip-select action is its own assert, the last of its setup.
/// So the line is deasserted before the new transfer asserts it.
pub proof fn lemma_crash_recovery(
    s: ServerView,
    holder: TaskId,
    d: u8,
    other: TaskId,
    src: Seq<u8>,
    dest_len: nat,
    prior: PinState,
    pin: u16,
)
    requires
        s.wf(),
        s.accepts(holder),
        s.lock_step(holder, d, CsState::Asserted).1 is Ok,
        src.len() > 0 || dest_len > 0,
    ensures
        ({
            let cs = s.config.devices@[d as int].cs;
            let closed = s.lock_step(holder, d, CsState::Asserted).0.closed_step();
            let t = closed.0.transfer_step(d, src, dest_len).1;
            &&& closed.1 == Some(cs_write(cs, false))
            &&& has_pin(cs.pin_mask, pin) ==> pin_effect(
                prior,
                cs.port,
                pin,
                Action::ChipSelect(cs_write(cs, false)),
            ).high
            &&& closed.0.lock_holder is None
            &&& closed.0.accepts(other)
            &&& t is Ok
            &&& t->Ok_0.cs_auto
            &&& t->Ok_0.setup.last() == Action::ChipSelect(cs_write(cs, true))
            &&& no_chip_select(t->Ok_0.setup.drop_last())
        }),
{
    let locked = s.lock_step(holder, d, CsState::Asserted).0;
    let after = locked.closed_step().0;
    let n = if src.len() < dest_len {
        dest_len
    } else {
        src.len()
    };
    let dev = after.config.devices@[d as int];
    let route = route_ops(after.config, after.current_mux_index, dev.mux_index as nat);
    let head = seq![
        Action::Enable { len: n as u16, clock_divider: dev.clock_divider },
        Action::Start,
        Action::ClearEot,
        Action::EnableTransferInterrupts,
    ];
    let setup = route + prime_ops(n, dev.clock_divider, true, dev.cs);
    assert(setup.drop_last() =~= route + head);
    lemma_route_no_cs(after.config, after.current_mux_index, dev.mux_index as nat);
    assert forall|i: int| 0 <= i < (route + head).len() implies !(#[trigger] (route
        + head)[i] is ChipSelect) by {
        if i < route.len() {
            assert((route + head)[i] == route[i]);
        }
    }
}

/// A transfer that would move no byte is refused with `BadTransferSize`,
/// whether it is a read, a write or an exchange, once the device index is
/// acceptable.
pub proof fn lemma_empty_transfer_refused(s: ServerView, device_index: u8, src: Seq<u8>, dest_len: nat)
    requires
        (device_index as nat) < s.config.devices@.len(),
        s.lock_holder is Some ==> s.lock_holder->0.device_index == device_index as usize,
        src.len() == 0,
        dest_len == 0,
    ensures
        s.transfer_step(device_index, src, dest_len) == (s, Err::<TransferView, SpiError>(
            SpiError::BadTransferSize,
        )),
{
}

/// A device index past the configured devices is refused with `BadDevice`,
/// by transfers and by `lock` alike, and changes nothing.
pub proof fn lemma_unknown_device_refused(
    s: ServerView,
    device_index: u8,
    src: Seq<u8>,
    dest_len: nat,
    caller: TaskId,
    cs: CsState,
)
    requires
        device_index as nat >= s.config.devices@.len(),
    ensures
        s.transfer_step(device_index, src, dest_len) == (s, Err::<TransferView, SpiError>(
            SpiError::BadDevice,
        )),
        s.lock_step(caller, device_index, cs) == (s, Err::<PinWrite, SpiError>(SpiError::BadDevice)),
{
}

/// After `lock(d, Asserted)` succeeds, a transfer to another device is
/// refused with `BadDevice`, and a transfer to `d` is accepted and leaves
/// chip-select to the lock holder: whatever the hardware answers, none of
/// its steps emits a chip-select action.
pub proof fn lemma_lock_pins_device(
    s: ServerView,
    caller: TaskId,
    d: u8,
    other: u8,
    src: Seq<u8>,
    dest_len: nat,
    events: Seq<Event>,
    ev: Event,
)
    requires
        s.wf(),
        s.accepts(caller),
        s.lock_step(caller, d, CsState::Asserted).1 is Ok,
    ensures
        ({
            let locked = s.lock_step(caller, d, CsState::Asserted).0;
            &&& other != d ==> locked.transfer_step(other, src, dest_len).1 == Err::<
                TransferView,
                SpiError,
            >(SpiError::BadDevice)
            &&& (src.len() > 0 || dest_len > 0) ==> {
                let r = locked.transfer_step(d, src, dest_len).1;
                &&& r is Ok
                &&& !r->Ok_0.cs_auto
                &&& !(r->Ok_0.run(events).next(ev).1 is ChipSelect)
            }
        }),
{
    let locked = s.lock_step(caller, d, CsState::Asserted).0;
    if src.len() > 0 || dest_len > 0 {
        let n = if src.len() < dest_len {
            dest_len
        } else {
            src.len()
        };
        let dev = locked.config.devices@[d as int];
        let route = route_ops(locked.config, locked.current_mux_index, dev.mux_index as nat);
        let prime = prime_ops(n, dev.clock_divider, false, dev.cs);
        lemma_route_no_cs(locked.config, locked.current_mux_index, dev.mux_index as nat);
        assert forall|i: int| 0 <= i < (route + prime).len() implies !(#[trigger] (route
            + prime)[i] is ChipSelect) by {
            if i < route.len() {
                assert((route + prime)[i] == route[i]);
            }
        }
        let t = locked.transfer_step(d, src, dest_len).1->Ok_0;
        lemma_locked_run_leaves_cs(t, events, ev);
    }
}

/// `release` without a lock is refused with `NothingToRelease`; after a
/// successful `lock` it deasserts the locked device's chip-select, and a
/// second `release` is refused again.
pub proof fn lemma_release_once(s: ServerView, caller: TaskId, d: u8, cs: CsState)
    requires
        s.wf(),
        s.accepts(caller),
    ensures
        s.lock_holder is None ==> s.release_step() == (s, Err::<PinWrite, SpiError>(
            SpiError::NothingToRelease,
        )),
        s.lock_step(caller, d, cs).1 is Ok ==> {
            let locked = s.lock_step(caller, d, cs).0;
            let released = locked.release_step();
            &&& released.1 == Ok::<PinWrite, SpiError>(
                cs_write(s.config.devices@[d as int].cs, false),
            )
            &&& released.0.lock_holder is None
            &&& released.0.release_step().1 == Err::<PinWrite, SpiError>(SpiError::NothingToRelease)
        },
{
}

/// Of two transfers in a row, the second reroutes only when its device uses
/// another mux option than the first: with the same option its setup holds
/// no routing action at all; with another it deactivates the first one's
/// option and then activates its own before priming.
pub proof fn lemma_mux_switches_only_on_change(
    s: ServerView,
    d1: u8,
    src1: Seq<u8>,
    dest_len1: nat,
    d2: u8,
    src2: Seq<u8>,
    dest_len2: nat,
)
    requires
        s.wf(),
        s.transfer_step(d1, src1, dest_len1).1 is Ok,
        s.transfer_step(d1, src1, dest_len1).0.transfer_step(d2, src2, dest_len2).1 is Ok,
    ensures
        ({
            let s1 = s.transfer_step(d1, src1, dest_len1).0;
            let t2 = s1.transfer_step(d2, src2, dest_len2).1->Ok_0;
            let dev1 = s.config.devices@[d1 as int];
            let dev2 = s.config.devices@[d2 as int];
            let n2 = if src2.len() < dest_len2 {
                dest_len2
            } else {
                src2.len()
            };
            let prime = prime_ops(n2, dev2.clock_divider, s1.lock_holder is None, dev2.cs);
            &&& s1.current_mux_index == dev1.mux_index
            &&& dev1.mux_index == dev2.mux_index ==> t2.setup == prime
            &&& dev1.mux_index != dev2.mux_index ==> t2.setup == deactivate_ops(
                s.config.mux_options@[dev1.mux_index as int],
            ) + activate_ops(s.config.mux_options@[dev2.mux_index as int]) + prime
        }),
{
    let s1 = s.transfer_step(d1, src1, dest_len1).0;
    let dev2 = s.config.devices@[d2 as int];
    let n2 = if src2.len() < dest_len2 {
        dest_len2
    } else {
        src2.len()
    };
    let prime = prime_ops(n2, dev2.clock_divider, s1.lock_holder is None, dev2.cs);
    assert(Seq::<Action>::empty() + prime =~= prime);
}

} // verus!
