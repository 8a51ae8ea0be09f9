use vstd::prelude::*;

use crate::action::{Action, Event, PinWrite};

verus! {

/// How far transmission may run ahead of reception: the smallest receive
/// FIFO among the supported controllers, in bytes. The real depth cannot be
/// read from the hardware, so this is deliberately conservative.
pub const TX_PERMITS: u32 = 16;

/// Where a transfer stands: which action it emitted last, and so which event
/// it awaits.
#[derive(Clone, Copy, PartialEq, Eq, Structural, Debug)]
pub enum Phase {
    /// Emitting the routing and priming actions, one per `Ack`.
    Setup,
    /// Asked `QueryTxFrame`.
    AwaitTxFrame,
    /// Emitted `Send`.
    Sent,
    /// Emitted `DisableTxInterrupt`.
    TxDisabled,
    /// Asked `QueryRxByte`.
    AwaitRxByte,
    /// Emitted `Receive`.
    AwaitByte,
    /// Asked `CheckOverrun` after a pass that moved nothing.
    AwaitOverrun,
    /// Waiting for the interrupt in the middle of the transfer.
    IdleWait,
    /// Waiting for the interrupt once every byte has come back.
    DrainWait,
    /// Asked `CheckEot`.
    AwaitEot,
    /// Emitted the final `ClearEot`.
    EotCleared,
    /// Emitted `End`.
    Ended,
    /// Emitted the chip-select release.
    CsReleased,
    /// Emitted `Complete`; the transfer is over.
    Finished,
    /// Emitted `Halt`.
    Halted,
}

/// The byte sent at position `i` of a transfer from `src`: the source byte,
/// or zero past its end.
pub open spec fn pad(src: Seq<u8>, i: nat) -> u8 {
    if i < src.len() {
        src[i as int]
    } else {
        0
    }
}

/// The `n` bytes a transfer from `src` sends: `src`, cut or zero-padded to `n`.
pub open spec fn padded(src: Seq<u8>, n: nat) -> Seq<u8> {
    Seq::new(n, |i: int| pad(src, i as nat))
}

/// The mathematical state of a transfer.
pub struct TransferView {
    pub phase: Phase,
    /// Routing and priming actions, emitted before any byte moves.
    pub setup: Seq<Action>,
    /// How many of `setup` have been emitted.
    pub setup_pos: nat,
    /// Bytes to send.
    pub src: Seq<u8>,
    /// Room for received bytes.
    pub dest_len: nat,
    /// Bytes received so far that fitted in `dest_len`.
    pub dest: Seq<u8>,
    /// Bytes the transaction moves in each direction: the larger of the two
    /// lengths.
    pub overall_len: nat,
    /// Whether transmission is still being fed.
    pub tx_active: bool,
    pub tx_count: nat,
    pub rx_count: nat,
    /// How many more bytes may be sent before one must come back.
    pub tx_permits: nat,
    /// Whether the current pass moved a byte.
    pub made_progress: bool,
    /// Whether the transfer drives chip-select itself (no lock is held).
    pub cs_auto: bool,
    /// The write that releases chip-select at the end when `cs_auto`.
    pub cs_release: PinWrite,
    /// Every byte sent, in order.
    pub sent: Seq<u8>,
    /// Every byte received, in order.
    pub received: Seq<u8>,
}

impl TransferView {
    pub open spec fn halt(self) -> (TransferView, Action) {
        (TransferView { phase: Phase::Halted, ..self }, Action::Halt)
    }

    /// End of the transmit loop: once everything is sent, transmit-ready
    /// interrupts are turned off and transmission is no longer fed; then the
    /// receive FIFO is drained.
    pub open spec fn tx_done(self) -> (TransferView, Action) {
        if self.tx_active && self.tx_count == self.overall_len {
            (
                TransferView { phase: Phase::TxDisabled, tx_active: false, ..self },
                Action::DisableTxInterrupt,
            )
        } else {
            (TransferView { phase: Phase::AwaitRxByte, ..self }, Action::QueryRxByte)
        }
    }

    /// Transmit loop: send while bytes remain and a permit is left, for as
    /// long as the transmit FIFO has room.
    pub open spec fn tx_decide(self) -> (TransferView, Action) {
        if self.tx_active && self.tx_count < self.overall_len && self.tx_permits > 0 {
            (TransferView { phase: Phase::AwaitTxFrame, ..self }, Action::QueryTxFrame)
        } else {
            self.tx_done()
        }
    }

    /// Start of a pass of the pump.
    pub open spec fn pass_start(self) -> (TransferView, Action) {
        TransferView { made_progress: false, ..self }.tx_decide()
    }

    /// End of a pass: go on at once after progress, suspend after none, and
    /// wait for the end of the transaction once everything came back.
    pub open spec fn pass_end(self) -> (TransferView, Action) {
        if self.rx_count == self.overall_len {
            (TransferView { phase: Phase::DrainWait, ..self }, Action::WaitForInterrupt)
        } else if !self.made_progress {
            (TransferView { phase: Phase::AwaitOverrun, ..self }, Action::CheckOverrun)
        } else {
            self.pass_start()
        }
    }

    /// The next state and the action to perform, on event `ev`.
    pub open spec fn next(self, ev: Event) -> (TransferView, Action) {
        match self.phase {
            Phase::Setup => {
                if ev != Event::Ack {
                    self.halt()
                } else if self.setup_pos < self.setup.len() {
                    (
                        TransferView { setup_pos: self.setup_pos + 1, ..self },
                        self.setup[self.setup_pos as int],
                    )
                } else {
                    self.pass_start()
                }
            },
            Phase::AwaitTxFrame => match ev {
                Event::Ready(true) => {
                    let b = pad(self.src, self.tx_count);
                    (
                        TransferView {
                            phase: Phase::Sent,
                            tx_count: self.tx_count + 1,
                            tx_permits: (self.tx_permits - 1) as nat,
                            made_progress: true,
                            sent: self.sent.push(b),
                            ..self
                        },
                        Action::Send(b),
                    )
                },
                Event::Ready(false) => self.tx_done(),
                _ => self.halt(),
            },
            Phase::Sent => if ev == Event::Ack {
                self.tx_decide()
            } else {
                self.halt()
            },
            Phase::TxDisabled => if ev == Event::Ack {
                (TransferView { phase: Phase::AwaitRxByte, ..self }, Action::QueryRxByte)
            } else {
                self.halt()
            },
            Phase::AwaitRxByte => match ev {
                Event::Ready(true) => {
                    if self.rx_count >= self.tx_count {
                        self.halt()
                    } else {
                        (TransferView { phase: Phase::AwaitByte, ..self }, Action::Receive)
                    }
                },
                Event::Ready(false) => self.pass_end(),
                _ => self.halt(),
            },
            Phase::AwaitByte => match ev {
                Event::Received(b) => (
                    TransferView {
                        phase: Phase::AwaitRxByte,
                        rx_count: self.rx_count + 1,
                        tx_permits: self.tx_permits + 1,
                        made_progress: true,
                        received: self.received.push(b),
                        dest: if self.dest.len() < self.dest_len {
                            self.dest.push(b)
                        } else {
                            self.dest
                        },
                        ..self
                    },
                    Action::QueryRxByte,
                ),
                _ => self.halt(),
            },
            Phase::AwaitOverrun => match ev {
                Event::Ready(false) => (
                    TransferView { phase: Phase::IdleWait, ..self },
                    Action::WaitForInterrupt,
                ),
                _ => self.halt(),
            },
            Phase::IdleWait => if ev == Event::Ack {
                self.pass_start()
            } else {
                self.halt()
            },
            Phase::DrainWait => if ev == Event::Ack {
                (TransferView { phase: Phase::AwaitEot, ..self }, Action::CheckEot)
            } else {
                self.halt()
            },
            Phase::AwaitEot => match ev {
                Event::Ready(true) => (
                    TransferView { phase: Phase::EotCleared, ..self },
                    Action::ClearEot,
                ),
                Event::Ready(false) => (
                    TransferView { phase: Phase::DrainWait, ..self },
                    Action::WaitForInterrupt,
                ),
                _ => self.halt(),
            },
            Phase::EotCleared => if ev == Event::Ack {
                (TransferView { phase: Phase::Ended, ..self }, Action::End)
            } else {
                self.halt()
            },
            Phase::Ended => if ev != Event::Ack {
                self.halt()
            } else if self.cs_auto {
                (
                    TransferView { phase: Phase::CsReleased, ..self },
                    Action::ChipSelect(self.cs_release),
                )
            } else {
                (TransferView { phase: Phase::Finished, ..self }, Action::Complete)
            },
            Phase::CsReleased => if ev == Event::Ack {
                (TransferView { phase: Phase::Finished, ..self }, Action::Complete)
            } else {
                self.halt()
            },
            Phase::Finished => (self, Action::Complete),
            Phase::Halted => (self, Action::Halt),
        }
    }

    /// The state after answering the actions with `events`, in order.
    pub open spec fn run(self, events: Seq<Event>) -> TransferView
        decreases events.len(),
    {
        if events.len() == 0 {
            self
        } else {
            self.run(events.drop_last()).next(events.last()).0
        }
    }

    /// The invariant every reachable state keeps.
    pub open spec fn inv(self) -> bool {
        &&& 0 < self.overall_len <= 0xffff
        &&& self.src.len() <= 0xffff
        &&& self.dest_len <= 0xffff
        &&& self.overall_len == if self.src.len() < self.dest_len {
            self.dest_len
        } else {
            self.src.len()
        }
        &&& self.setup_pos <= self.setup.len()
        &&& self.rx_count <= self.tx_count <= self.overall_len
        &&& self.tx_permits + self.tx_count == TX_PERMITS + self.rx_count
        &&& self.sent == padded(self.src, self.overall_len).take(self.tx_count as int)
        &&& self.received.len() == self.rx_count
        &&& self.dest == self.received.take(
            if self.rx_count < self.dest_len {
                self.rx_count as int
            } else {
                self.dest_len as int
            },
        )
        &&& !self.tx_active ==> self.tx_count == self.overall_len
        &&& self.phase == Phase::AwaitTxFrame ==> self.tx_active && self.tx_count
            < self.overall_len && self.tx_permits > 0
        &&& self.phase == Phase::AwaitByte ==> self.rx_count < self.tx_count
        &&& (self.phase == Phase::DrainWait || self.phase == Phase::AwaitEot || self.phase
            == Phase::EotCleared || self.phase == Phase::Ended || self.phase == Phase::CsReleased
            || self.phase == Phase::Finished) ==> self.rx_count == self.overall_len
    }

    /// A transfer that has not started yet.
    pub open spec fn fresh(
        setup: Seq<Action>,
        src: Seq<u8>,
        dest_len: nat,
        cs_auto: bool,
        cs_release: PinWrite,
    ) -> TransferView {
        TransferView {
            phase: Phase::Setup,
            setup,
            setup_pos: 0,
            src,
            dest_len,
            dest: seq![],
            overall_len: if src.len() < dest_len {
                dest_len
            } else {
                src.len()
            },
            tx_active: true,
            tx_count: 0,
            rx_count: 0,
            tx_permits: TX_PERMITS as nat,
            made_progress: false,
            cs_auto,
            cs_release,
            sent: seq![],
            received: seq![],
        }
    }
}

/// One read, write or exchange in progress. Drive it by calling `step` with
/// `Event::Ack` first, then with the answer to each action it returns, until
/// it returns `Action::Complete` (or `Action::Halt`).
pub struct Transfer {
    phase: Phase,
    setup: Vec<Action>,
    setup_pos: usize,
    src: Vec<u8>,
    dest_len: u16,
    dest: Vec<u8>,
    overall_len: u16,
    tx_active: bool,
    tx_count: u16,
    rx_count: u16,
    tx_permits: u32,
    made_progress: bool,
    cs_auto: bool,
    cs_release: PinWrite,
    sent: Ghost<Seq<u8>>,
    received: Ghost<Seq<u8>>,
}

impl View for Transfer {
    type V = TransferView;

    closed spec fn view(&self) -> TransferView {
        TransferView {
            phase: self.phase,
            setup: self.setup@,
            setup_pos: self.setup_pos as nat,
            src: self.src@,
            dest_len: self.dest_len as nat,
            dest: self.dest@,
            overall_len: self.overall_len as nat,
            tx_active: self.tx_active,
            tx_count: self.tx_count as nat,
            rx_count: self.rx_count as nat,
            tx_permits: self.tx_permits as nat,
            made_progress: self.made_progress,
            cs_auto: self.cs_auto,
            cs_release: self.cs_release,
            sent: self.sent@,
            received: self.received@,
        }
    }
}

impl Transfer {
    /// A transfer that first emits `setup`, then sends `src` zero-padded to
    /// the larger of the two lengths and keeps up to `dest_len` received
    /// bytes; when `cs_auto`, it ends by emitting `cs_release`.
    pub(crate) fn new(
        setup: Vec<Action>,
        src: Vec<u8>,
        dest_len: u16,
        cs_auto: bool,
        cs_release: PinWrite,
    ) -> (r: Transfer)
        requires
            src@.len() <= 0xffff,
            src@.len() > 0 || dest_len > 0,
        ensures
            r@ == TransferView::fresh(setup@, src@, dest_len as nat, cs_auto, cs_release),
            r@.inv(),
    {
        let overall_len: u16 = if src.len() < dest_len as usize {
            dest_len
        } else {
            src.len() as u16
        };
        let r = Transfer {
            phase: Phase::Setup,
            setup,
            setup_pos: 0,
            src,
            dest_len,
            dest: Vec::new(),
            overall_len,
            tx_active: true,
            tx_count: 0,
            rx_count: 0,
            tx_permits: TX_PERMITS,
            made_progress: false,
            cs_auto,
            cs_release,
            sent: Ghost(Seq::empty()),
            received: Ghost(Seq::empty()),
        };
        assert(r@.dest =~= r@.received.take(0));
        assert(r@.sent =~= padded(r@.src, r@.overall_len).take(0));
        r
    }

    /// The bytes received so far that fitted in the destination.
    pub fn dest(&self) -> (r: &Vec<u8>)
        ensures
            r@ == self@.dest,
    {
        &self.dest
    }

    /// Whether the transfer drives chip-select itself.
    pub fn cs_auto(&self) -> (r: bool)
        ensures
            r == self@.cs_auto,
    {
        self.cs_auto
    }

    /// The routing and priming actions emitted before any byte moves.
    pub fn setup(&self) -> (r: &Vec<Action>)
        ensures
            r@ == self@.setup,
    {
        &self.setup
    }

    fn halt(&mut self) -> (r: Action)
        ensures
            (final(self)@, r) == old(self)@.halt(),
    {
        self.phase = Phase::Halted;
        Action::Halt
    }

    fn tx_done(&mut self) -> (r: Action)
        ensures
            (final(self)@, r) == old(self)@.tx_done(),
    {
        if self.tx_active && self.tx_count == self.overall_len {
            self.phase = Phase::TxDisabled;
            self.tx_active = false;
            Action::DisableTxInterrupt
        } else {
            self.phase = Phase::AwaitRxByte;
            Action::QueryRxByte
        }
    }

    fn tx_decide(&mut self) -> (r: Action)
        ensures
            (final(self)@, r) == old(self)@.tx_decide(),
    {
        if self.tx_active && self.tx_count < self.overall_len && self.tx_permits > 0 {
            self.phase = Phase::AwaitTxFrame;
            Action::QueryTxFrame
        } else {
            self.tx_done()
        }
    }

    fn pass_start(&mut self) -> (r: Action)
        ensures
            (final(self)@, r) == old(self)@.pass_start(),
    {
        self.made_progress = false;
        self.tx_decide()
    }

    fn pass_end(&mut self) -> (r: Action)
        ensures
            (final(self)@, r) == old(self)@.pass_end(),
    {
        if self.rx_count == self.overall_len {
            self.phase = Phase::DrainWait;
            Action::WaitForInterrupt
        } else if !self.made_progress {
            self.phase = Phase::AwaitOverrun;
            Action::CheckOverrun
        } else {
            self.pass_start()
        }
    }

    /// Takes the answer to the last action (`Event::Ack` to begin) and
    /// returns the next action.
    pub fn step(&mut self, ev: Event) -> (r: Action)
        requires
            old(self)@.inv(),
        ensures
            (final(self)@, r) == old(self)@.next(ev),
            final(self)@.inv(),
    {
        proof {
            lemma_next_keeps_inv(self@, ev);
        }
        match self.phase {
            Phase::Setup => {
                if ev != Event::Ack {
                    self.halt()
                } else if self.setup_pos < self.setup.len() {
                    let a = self.setup[self.setup_pos];
                    self.setup_pos = self.setup_pos + 1;
                    a
                } else {
                    self.pass_start()
                }
            },
            Phase::AwaitTxFrame => match ev {
                Event::Ready(true) => {
                    let b: u8 = if (self.tx_count as usize) < self.src.len() {
                        self.src[self.tx_count as usize]
                    } else {
                        0
                    };
                    self.phase = Phase::Sent;
                    self.tx_count = self.tx_count + 1;
                    self.tx_permits = self.tx_permits - 1;
                    self.made_progress = true;
                    self.sent = Ghost(self.sent@.push(b));
                    Action::Send(b)
                },
                Event::Ready(false) => self.tx_done(),
                _ => self.halt(),
            },
            Phase::Sent => if ev == Event::Ack {
                self.tx_decide()
            } else {
                self.halt()
            },
            Phase::TxDisabled => if ev == Event::Ack {
                self.phase = Phase::AwaitRxByte;
                Action::QueryRxByte
            } else {
                self.halt()
            },
            Phase::AwaitRxByte => match ev {
                Event::Ready(true) => {
                    if self.rx_count >= self.tx_count {
                        self.halt()
                    } else {
                        self.phase = Phase::AwaitByte;
                        Action::Receive
                    }
                },
                Event::Ready(false) => self.pass_end(),
                _ => self.halt(),
            },
            Phase::AwaitByte => match ev {
                Event::Received(b) => {
                    self.phase = Phase::AwaitRxByte;
                    self.rx_count = self.rx_count + 1;
                    self.tx_permits = self.tx_permits + 1;
                    self.made_progress = true;
                    self.received = Ghost(self.received@.push(b));
                    if self.dest.len() < self.dest_len as usize {
                        self.dest.push(b);
                    }
                    Action::QueryRxByte
                },
                _ => self.halt(),
            },
            Phase::AwaitOverrun => match ev {
                Event::Ready(false) => {
                    self.phase = Phase::IdleWait;
                    Action::WaitForInterrupt
                },
                _ => self.halt(),
            },
            Phase::IdleWait => if ev == Event::Ack {
                self.pass_start()
            } else {
                self.halt()
            },
            Phase::DrainWait => if ev == Event::Ack {
                self.phase = Phase::AwaitEot;
                Action::CheckEot
            } else {
                self.halt()
            },
            Phase::AwaitEot => match ev {
                Event::Ready(true) => {
                    self.phase = Phase::EotCleared;
                    Action::ClearEot
                },
                Event::Ready(false) => {
                    self.phase = Phase::DrainWait;
                    Action::WaitForInterrupt
                },
                _ => self.halt(),
            },
            Phase::EotCleared => if ev == Event::Ack {
                self.phase = Phase::Ended;
                Action::End
            } else {
                self.halt()
            },
            Phase::Ended => if ev != Event::Ack {
                self.halt()
            } else if self.cs_auto {
                self.phase = Phase::CsReleased;
                Action::ChipSelect(self.cs_release)
            } else {
                self.phase = Phase::Finished;
                Action::Complete
            },
            Phase::CsReleased => if ev == Event::Ack {
                self.phase = Phase::Finished;
                Action::Complete
            } else {
                self.halt()
            },
            Phase::Finished => Action::Complete,
            Phase::Halted => Action::Halt,
        }
    }
}

/// Whether `actions` holds no chip-select action.
pub open spec fn no_chip_select(actions: Seq<Action>) -> bool {
    forall|i: int| 0 <= i < actions.len() ==> !(#[trigger] actions[i] is ChipSelect)
}

/// A transfer that leaves chip-select to the lock holder never touches it:
/// when its setup has no chip-select action, no step emits one, and the
/// next state is again such a transfer.
pub proof fn lemma_locked_transfer_leaves_cs(t: TransferView, ev: Event)
    requires
        !t.cs_auto,
        no_chip_select(t.setup),
    ensures
        !(t.next(ev).1 is ChipSelect),
        !t.next(ev).0.cs_auto,
        t.next(ev).0.setup == t.setup,
{
    if t.phase == Phase::Setup && ev == Event::Ack && t.setup_pos < t.setup.len() {
        assert(!(t.setup[t.setup_pos as int] is ChipSelect));
    }
}

/// Over any run, a transfer that leaves chip-select to the lock holder
/// never emits a chip-select action.
pub proof fn lemma_locked_run_leaves_cs(t: TransferView, events: Seq<Event>, ev: Event)
    requires
        !t.cs_auto,
        no_chip_select(t.setup),
    ensures
        !t.run(events).cs_auto,
        t.run(events).setup == t.setup,
        !(t.run(events).next(ev).1 is ChipSelect),
    decreases events.len(),
{
    if events.len() > 0 {
        lemma_locked_run_leaves_cs(t, events.drop_last(), events.last());
        lemma_locked_transfer_leaves_cs(t.run(events.drop_last()), events.last());
    }
    lemma_locked_transfer_leaves_cs(t.run(events), ev);
}

/// Every step of a transfer keeps its invariant.
pub proof fn lemma_next_keeps_inv(t: TransferView, ev: Event)
    requires
        t.inv(),
    ensures
        t.next(ev).0.inv(),
{
    let n = t.next(ev).0;
    if t.phase == Phase::AwaitTxFrame && ev == Event::Ready(true) {
        let full = padded(t.src, t.overall_len);
        assert(n.sent =~= full.take(n.tx_count as int));
    }
    if t.phase == Phase::AwaitByte {
        if let Event::Received(b) = ev {
            let k = if t.rx_count < t.dest_len {
                t.rx_count as int
            } else {
                t.dest_len as int
            };
            let k1 = if n.rx_count < t.dest_len {
                n.rx_count as int
            } else {
                t.dest_len as int
            };
            assert(t.dest.len() == k);
            assert(n.dest =~= n.received.take(k1));
        }
    }
}

/// Every run of a transfer keeps its invariant.
pub proof fn lemma_run_keeps_inv(t: TransferView, events: Seq<Event>)
    requires
        t.inv(),
    ensures
        t.run(events).inv(),
        t.run(events).src == t.src,
        t.run(events).dest_len == t.dest_len,
        t.run(events).overall_len == t.overall_len,
    decreases events.len(),
{
    if events.len() > 0 {
        lemma_run_keeps_inv(t, events.drop_last());
        lemma_next_keeps_inv(t.run(events.drop_last()), events.last());
    }
}

/// Once a transfer has finished, exactly `overall_len` bytes went out, being
/// `src` zero-padded to that length in order, exactly `overall_len` bytes came
/// back, and the destination holds the first `dest_len` of them.
pub proof fn lemma_finished_transfer_moved_every_byte(t: TransferView)
    requires
        t.inv(),
        t.phase == Phase::Finished,
    ensures
        t.sent == padded(t.src, t.overall_len),
        t.received.len() == t.overall_len,
        t.dest == t.received.take(t.dest_len as int),
        t.dest.len() == t.dest_len,
{
    assert(padded(t.src, t.overall_len).take(t.overall_len as int) =~= padded(t.src, t.overall_len));
}

} // verus!
