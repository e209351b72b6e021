//! The firmware's capture-and-forward pipeline as one state object.
//!
//! Each handler below runs inside one critical section, so each is a single
//! step from a whole state to a whole state. The handlers are:
//! the radio's receive-complete callback (`rx_available`, which only marks
//! the deferred drain as pending), the deferred drain (`run_deferred`), and
//! the command handler (`on_command`). The radio's receive buffer and the
//! serial output are held as plain values.
use vstd::prelude::*;
use crate::config::{capture_config, RadioConfig, DEFAULT_CHANNEL};
use crate::protocol::{
    command_frame, is_channel, lemma_command_frame_parses, RESET, parse_command_frame, parse_spec, reset_ack, reset_ack_spec, Command,
};
use crate::wire::{wire_frame, wire_stream, write_wire_frame};

verus! {

/// The firmware's shared state.
pub struct Sniffer {
    /// The single radio configuration; changed only by commands.
    pub config: RadioConfig,
    /// Reception is armed with `config`.
    pub armed: bool,
    /// The deferred drain has been requested and has not run since.
    pub pending: bool,
    /// Frames the radio has buffered, oldest first.
    pub rx_queue: Vec<Vec<u8>>,
    /// Bytes written to the serial transport so far.
    pub serial_out: Vec<u8>,
    /// The serial transport accepts writes.
    pub link_up: bool,
}

/// Why a frame was not forwarded. The frame is dropped and capture goes on.
#[derive(Clone, Copy, Debug, PartialEq, Eq, Structural)]
pub enum ForwardError {
    /// The serial transport refused the write.
    Transport,
}

/// The mathematical model of a `Sniffer`.
pub struct SnifferView {
    pub config: RadioConfig,
    pub armed: bool,
    pub pending: bool,
    pub rx: Seq<Seq<u8>>,
    pub out: Seq<u8>,
    pub link_up: bool,
}

impl View for Sniffer {
    type V = SnifferView;

    open spec fn view(&self) -> SnifferView {
        SnifferView {
            config: self.config,
            armed: self.armed,
            pending: self.pending,
            rx: self.rx_queue@.map_values(|f: Vec<u8>| f@),
            out: self.serial_out@,
            link_up: self.link_up,
        }
    }
}

impl SnifferView {
    /// Between handlers the configuration is a whole capture configuration on
    /// a valid channel, and reception is armed with it.
    pub open spec fn wf(&self) -> bool {
        &&& is_channel(self.config.channel)
        &&& self.config == capture_config(self.config.channel)
        &&& self.armed
    }
}

/// The hardware callback: request the deferred drain, nothing else.
pub open spec fn notify(v: SnifferView) -> SnifferView {
    SnifferView { pending: true, ..v }
}

/// The radio buffers a frame and fires its callback.
pub open spec fn arrive(v: SnifferView, frame: Seq<u8>) -> SnifferView {
    notify(SnifferView { rx: v.rx.push(frame), ..v })
}

/// What forwarding `frames` adds to the serial output: all their wire frames
/// in order while the transport is up, nothing while it is down.
pub open spec fn forwarded(link_up: bool, frames: Seq<Seq<u8>>) -> Seq<u8> {
    if link_up {
        wire_stream(frames)
    } else {
        Seq::empty()
    }
}

/// The deferred drain: when requested, acknowledge the request and take
/// every buffered frame, oldest first, forwarding each.
pub open spec fn deferred(v: SnifferView) -> SnifferView {
    if v.pending {
        SnifferView { pending: false, rx: Seq::empty(), out: v.out + forwarded(v.link_up, v.rx), ..v }
    } else {
        v
    }
}

/// The command handler on the five bytes it consumed.
pub open spec fn command_step(v: SnifferView, frame: Seq<u8>) -> SnifferView {
    match parse_spec(frame) {
        Some(Command::Reset) => SnifferView { out: v.out + reset_ack_spec(), ..v },
        Some(Command::SetChannel(c)) => SnifferView { config: capture_config(c), armed: true, ..v },
        _ => v,
    }
}

/// One handler run, as seen from outside.
pub enum Step {
    Arrive(Seq<u8>),
    Deferred,
    Command(Seq<u8>),
    /// The serial transport goes up or down.
    Link(bool),
}

pub open spec fn step(v: SnifferView, s: Step) -> SnifferView {
    match s {
        Step::Arrive(f) => arrive(v, f),
        Step::Deferred => deferred(v),
        Step::Command(frame) => command_step(v, frame),
        Step::Link(up) => SnifferView { link_up: up, ..v },
    }
}

/// The state after running the handlers in the order given.
pub open spec fn run(v: SnifferView, steps: Seq<Step>) -> SnifferView
    decreases steps.len(),
{
    if steps.len() == 0 {
        v
    } else {
        step(run(v, steps.drop_last()), steps.last())
    }
}

impl Sniffer {
    /// The state after start-up: reception armed on the default channel,
    /// nothing buffered, nothing sent.
    pub fn new() -> (r: Sniffer)
        ensures
            r@.config == capture_config(DEFAULT_CHANNEL),
            r@.armed,
            !r@.pending,
            r@.rx.len() == 0,
            r@.out.len() == 0,
            r@.link_up,
            r@.wf(),
    {
        let r = Sniffer {
            config: RadioConfig::initial(),
            armed: true,
            pending: false,
            rx_queue: Vec::new(),
            serial_out: Vec::new(),
            link_up: true,
        };
        assert(r@.rx =~= Seq::<Seq<u8>>::empty());
        r
    }

    /// The radio's receive-complete callback.
    pub fn rx_available(&mut self)
        ensures
            final(self)@ == notify(old(self)@),
    {
        self.pending = true;
    }

    /// The radio receives `frame`: it is buffered and the callback fires.
    pub fn radio_receive(&mut self, frame: Vec<u8>)
        ensures
            final(self)@ == arrive(old(self)@, frame@),
    {
        let ghost old_rx = self@.rx;
        self.rx_queue.push(frame);
        assert(self@.rx =~= old_rx.push(frame@));
        self.rx_available();
    }

    /// Takes the oldest buffered frame, if any.
    pub fn get_raw_received(&mut self) -> (r: Option<Vec<u8>>)
        ensures
            old(self)@.rx.len() == 0 ==> r is None && final(self)@ == old(self)@,
            old(self)@.rx.len() > 0 ==> r is Some && r->0@ == old(self)@.rx[0]
                && final(self)@ == (SnifferView { rx: old(self)@.rx.drop_first(), ..old(self)@ }),
    {
        if self.rx_queue.len() == 0 {
            None
        } else {
            let ghost old_rx = self@.rx;
            let f = self.rx_queue.remove(0);
            assert(self@.rx =~= old_rx.drop_first());
            Some(f)
        }
    }

    /// Writes the wire frame of `data` to the serial transport; while the
    /// transport is down the frame is dropped and nothing is written.
    pub fn forward(&mut self, data: &[u8]) -> (r: Result<(), ForwardError>)
        ensures
            old(self).link_up ==> r is Ok && final(self)@ == (SnifferView {
                out: old(self)@.out + wire_frame(data@),
                ..old(self)@
            }),
            !old(self).link_up ==> r == Err::<(), _>(ForwardError::Transport) && final(self)@ == old(self)@,
    {
        if !self.link_up {
            return Err(ForwardError::Transport);
        }
        write_wire_frame(&mut self.serial_out, data);
        Ok(())
    }

    /// The serial transport goes up or down.
    pub fn set_link(&mut self, up: bool)
        ensures
            final(self)@ == (SnifferView { link_up: up, ..old(self)@ }),
    {
        self.link_up = up;
    }

    /// Replaces the radio's configuration; reception must be re-armed.
    fn set_config(&mut self, config: RadioConfig)
        ensures
            final(self)@ == (SnifferView { config, armed: false, ..old(self)@ }),
    {
        self.config = config;
        self.armed = false;
    }

    /// Arms reception with the current configuration.
    fn start_receive(&mut self)
        ensures
            final(self)@ == (SnifferView { armed: true, ..old(self)@ }),
    {
        self.armed = true;
    }

    /// The deferred drain. Returns whether it had been requested; if so,
    /// every buffered frame has been forwarded, including those whose
    /// callbacks were coalesced into this one run.
    pub fn run_deferred(&mut self) -> (ran: bool)
        ensures
            ran == old(self)@.pending,
            final(self)@ == deferred(old(self)@),
    {
        if !self.pending {
            return false;
        }
        self.pending = false;
        let ghost v0 = self@;
        let ghost mut k: int = 0;
        proof {
            assert(v0.rx.skip(0) =~= v0.rx);
            assert(v0.rx.take(0) =~= Seq::<Seq<u8>>::empty());
            assert(v0.out + forwarded(v0.link_up, Seq::<Seq<u8>>::empty()) =~= v0.out);
        }
        while self.rx_queue.len() > 0
            invariant
                0 <= k <= v0.rx.len(),
                self@ == (SnifferView {
                    rx: v0.rx.skip(k),
                    out: v0.out + forwarded(v0.link_up, v0.rx.take(k)),
                    ..v0
                }),
            decreases self.rx_queue@.len(),
        {
            let got = self.get_raw_received();
            if let Some(f) = got {
                let _ = self.forward(f.as_slice());
                proof {
                    assert(v0.rx.skip(k).drop_first() =~= v0.rx.skip(k + 1));
                    assert(v0.rx.take(k + 1).drop_last() =~= v0.rx.take(k));
                    assert(self@.out =~= v0.out + forwarded(v0.link_up, v0.rx.take(k + 1)));
                    k = k + 1;
                }
            }
        }
        proof {
            assert(self@.rx.len() == 0);
            assert(k == v0.rx.len());
            assert(v0.rx.take(k) =~= v0.rx);
            assert(self@.rx =~= Seq::<Seq<u8>>::empty());
        }
        true
    }

    /// The command handler, on the five bytes consumed after four markers
    /// were seen. A reset appends the acknowledgment line; a channel byte
    /// installs the capture configuration for it and re-arms reception;
    /// anything else changes nothing. Returns the command read, if any.
    pub fn on_command(&mut self, frame: &[u8]) -> (r: Option<Command>)
        ensures
            r == parse_spec(frame@),
            final(self)@ == command_step(old(self)@, frame@),
    {
        let cmd = parse_command_frame(frame);
        match cmd {
            Some(Command::Reset) => {
                let ack = reset_ack();
                let mut i: usize = 0;
                let ghost out0 = self@.out;
                while i < ack.len()
                    invariant
                        i <= ack@.len(),
                        ack@ == reset_ack_spec(),
                        self@ == (SnifferView { out: out0 + ack@.take(i as int), ..old(self)@ }),
                    decreases ack@.len() - i,
                {
                    self.serial_out.push(ack[i]);
                    assert(ack@.take(i + 1) =~= ack@.take(i as int).push(ack@[i as int]));
                    i = i + 1;
                }
                assert(ack@.take(i as int) =~= ack@);
            },
            Some(Command::SetChannel(c)) => {
                if let Some(config) = RadioConfig::for_channel(c) {
                    self.set_config(config);
                    self.start_receive();
                }
            },
            _ => {},
        }
        cmd
    }
}

/// A command carrying a channel number installs the promiscuous capture
/// configuration on exactly that channel and leaves reception armed; nothing
/// else changes.
pub proof fn lemma_channel_command(v: SnifferView, c: u8)
    requires
        is_channel(c),
    ensures
        command_step(v, command_frame(c)) == (SnifferView { config: capture_config(c), armed: true, ..v }),
        command_step(v, command_frame(c)).config.channel == c,
        command_step(v, command_frame(c)).config.promiscuous,
        command_step(v, command_frame(c)).config.rx_when_idle,
        command_step(v, command_frame(c)).armed,
{
    lemma_command_frame_parses(c);
}

/// A command byte that is neither the reset sentinel nor a channel leaves
/// the whole state unchanged.
pub proof fn lemma_other_command_unchanged(v: SnifferView, b: u8)
    requires
        b != RESET,
        !is_channel(b),
    ensures
        command_step(v, command_frame(b)) == v,
{
    lemma_command_frame_parses(b);
}

/// Whatever order the handlers run in, each leaves a whole state behind: the
/// configuration is always a complete capture configuration on a valid
/// channel with reception armed, and the serial output only ever grows.
pub proof fn lemma_no_torn_state(v: SnifferView, steps: Seq<Step>)
    requires
        v.wf(),
    ensures
        run(v, steps).wf(),
        v.out.is_prefix_of(run(v, steps).out),
    decreases steps.len(),
{
    if steps.len() > 0 {
        let prev = steps.drop_last();
        lemma_no_torn_state(v, prev);
        let u = run(v, prev);
        let w = step(u, steps.last());
        assert(u.out.is_prefix_of(w.out)) by {
            match steps.last() {
                Step::Arrive(f) => {},
                Step::Deferred => {},
                Step::Command(frame) => {},
                Step::Link(up) => {},
            }
        }
        assert(v.out.is_prefix_of(w.out)) by {
            assert(forall|i: int| 0 <= i < v.out.len() ==> v.out[i] == u.out[i]);
            assert(forall|i: int| 0 <= i < u.out.len() ==> u.out[i] == w.out[i]);
        }
    }
}

/// Two frames whose callbacks were coalesced into one pending drain are both
/// forwarded by that one run, after anything already buffered and in arrival
/// order; a further run with nothing new forwards nothing again.
pub proof fn lemma_coalesced_frames_forwarded(v: SnifferView, f1: Seq<u8>, f2: Seq<u8>)
    requires
        v.link_up,
    ensures
        deferred(arrive(arrive(v, f1), f2)) == (SnifferView {
            pending: false,
            rx: Seq::empty(),
            out: v.out + wire_stream(v.rx) + wire_frame(f1) + wire_frame(f2),
            ..v
        }),
        deferred(deferred(arrive(arrive(v, f1), f2))) == deferred(arrive(arrive(v, f1), f2)),
{
    let both = v.rx.push(f1).push(f2);
    assert(both.drop_last() =~= v.rx.push(f1));
    assert(v.rx.push(f1).drop_last() =~= v.rx);
    assert(both.last() == f2);
    assert(v.rx.push(f1).last() == f1);
    assert(wire_stream(both) == wire_stream(v.rx.push(f1)) + wire_frame(f2));
    assert(wire_stream(v.rx.push(f1)) == wire_stream(v.rx) + wire_frame(f1));
    let w = arrive(arrive(v, f1), f2);
    assert(w.rx =~= both);
    assert(v.out + wire_stream(both) =~= v.out + wire_stream(v.rx) + wire_frame(f1) + wire_frame(f2));
}

} // verus!
