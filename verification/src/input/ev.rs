//! Worker lifecycle of one input device pipeline.
//!
//! A context moves through `not started -> running -> exit requested ->
//! exited`. The unverified runtime owns the device node and the epoll wait:
//! it opens the device, reports whether that succeeded to `start`, and then
//! drives one `poll_cycle` per wakeup, handing in the raw records it drained
//! and sending the decoded events on its channel. The worker observes the
//! exit request only between wait cycles, so after `stop` at most one more
//! drain cycle runs before the context reports itself exited
//! (`lemma_exit_latency`).

use vstd::prelude::*;

use crate::input::{spec_decode, InputDevice, InputDeviceState, InputEvent, RawInputEvent};

verus! {

/// The per-device pipeline context: device kind, decode state, and the
/// lifecycle flags.
pub struct EvDevContext {
    pub device: InputDevice,
    pub state: InputDeviceState,
    pub started: bool,
    pub exit_requested: bool,
    pub exited: bool,
}

/// Decoding every raw record of one drain in order: the final decode state
/// and the decoded events, in the order the records were read.
pub open spec fn spec_drain(s: InputDeviceState, raws: Seq<RawInputEvent>) -> (
    InputDeviceState,
    Seq<InputEvent>,
)
    decreases raws.len(),
{
    if raws.len() == 0 {
        (s, Seq::empty())
    } else {
        let first = spec_decode(s, raws[0]);
        let rest = spec_drain(first.0, raws.skip(1));
        (
            rest.0,
            match first.1 {
                Some(ev) => seq![ev] + rest.1,
                None => rest.1,
            },
        )
    }
}

/// One worker wait cycle: a cycle entered after exit was requested reads
/// nothing and marks the worker exited; otherwise the drained records are
/// decoded in order.
pub open spec fn spec_cycle(c: EvDevContext, raws: Seq<RawInputEvent>) -> (
    EvDevContext,
    Seq<InputEvent>,
) {
    if c.exit_requested {
        (EvDevContext { exited: true, ..c }, Seq::empty())
    } else {
        let d = spec_drain(c.state, raws);
        (EvDevContext { state: d.0, ..c }, d.1)
    }
}

impl EvDevContext {
    /// The decode state matches the device this context was built for.
    pub open spec fn wf(self) -> bool {
        self.state.spec_matches(self.device)
    }

    /// A fresh context: not started, not exited, no exit requested, default
    /// decode state.
    pub fn new(device: InputDevice) -> (r: EvDevContext)
        requires
            device != InputDevice::Unknown,
        ensures
            r.wf(),
            r.device == device,
            r.state == InputDeviceState::spec_default_for(device),
            !r.started,
            !r.exit_requested,
            !r.exited,
    {
        EvDevContext {
            device,
            state: InputDeviceState::new(device),
            started: false,
            exit_requested: false,
            exited: false,
        }
    }

    pub fn started(&self) -> (r: bool)
        ensures
            r == self.started,
    {
        self.started
    }

    pub fn exited(&self) -> (r: bool)
        ensures
            r == self.exited,
    {
        self.exited
    }

    /// After exit is requested, at most one more drain cycle runs before the
    /// worker exits.
    pub fn exit_requested(&self) -> (r: bool)
        ensures
            r == self.exit_requested,
    {
        self.exit_requested
    }

    /// Requests a cooperative exit; the worker observes it between cycles.
    pub fn stop(&mut self)
        ensures
            *final(self) == (EvDevContext { exit_requested: true, ..*old(self) }),
    {
        self.exit_requested = true;
    }

    /// Begins a run. The runtime reports in `device_opened` whether the
    /// device node could be opened: on success the context is running with
    /// its flags reset; on failure no worker runs, the decode state is reset
    /// to default, and the context is already exited.
    pub fn start(&mut self, device_opened: bool) -> (r: bool)
        requires
            old(self).wf(),
        ensures
            final(self).wf(),
            r == device_opened,
            final(self).device == old(self).device,
            final(self).started,
            !final(self).exit_requested,
            device_opened ==> !final(self).exited && final(self).state == old(self).state,
            !device_opened ==> final(self).exited && final(self).state
                == InputDeviceState::spec_default_for(old(self).device),
    {
        self.started = true;
        self.exited = false;
        self.exit_requested = false;
        if device_opened {
            true
        } else {
            self.exited = true;
            self.state = InputDeviceState::new(self.device);
            false
        }
    }

    /// One worker wait cycle: decodes the raw records the runtime drained
    /// after its readiness wait, or — when exit was requested before the
    /// cycle — reads nothing and marks the worker exited.
    pub fn poll_cycle(&mut self, raw: &Vec<RawInputEvent>) -> (out: Vec<InputEvent>)
        requires
            old(self).wf(),
        ensures
            final(self).wf(),
            *final(self) == spec_cycle(*old(self), raw@).0,
            out@ == spec_cycle(*old(self), raw@).1,
    {
        if self.exit_requested {
            self.exited = true;
            return Vec::new();
        }
        let ghost target = spec_drain(old(self).state, raw@);
        let mut out: Vec<InputEvent> = Vec::new();
        let mut i: usize = 0;
        proof {
            assert(raw@.skip(0) =~= raw@);
        }
        while i < raw.len()
            invariant
                i <= raw@.len(),
                self.wf(),
                *self == (EvDevContext { state: self.state, ..*old(self) }),
                target == spec_drain(old(self).state, raw@),
                spec_drain(self.state, raw@.skip(i as int)).0 == target.0,
                out@ + spec_drain(self.state, raw@.skip(i as int)).1 == target.1,
            decreases raw@.len() - i,
        {
            let ghost s_before = self.state;
            let ev = crate::input::decode_event(&mut self.state, &raw[i]);
            proof {
                assert(raw@.skip(i as int)[0] == raw@[i as int]);
                assert(raw@.skip(i as int).skip(1) =~= raw@.skip(i + 1));
            }
            match ev {
                Some(e) => {
                    out.push(e);
                    proof {
                        let d = spec_drain(self.state, raw@.skip(i + 1));
                        assert(out@ + d.1 =~= target.1) by {
                            assert(spec_drain(s_before, raw@.skip(i as int)).1 == seq![e] + d.1);
                            assert(out@ =~= out@.subrange(0, out@.len() - 1).push(e));
                        }
                    }
                },
                None => {},
            }
            i = i + 1;
        }
        proof {
            assert(raw@.skip(i as int) =~= Seq::<RawInputEvent>::empty());
            assert(spec_drain(self.state, raw@.skip(i as int)).1 == Seq::<InputEvent>::empty());
            assert(out@ + Seq::<InputEvent>::empty() =~= out@);
        }
        out
    }
}

/// Lifecycle latency of the exit request: a cycle that starts after `stop`
/// was observed emits nothing and marks the worker exited, and a cycle that
/// starts before it never sets the exited flag — so after `stop` at most one
/// more drain cycle runs.
pub proof fn lemma_exit_latency(c: EvDevContext, raws: Seq<RawInputEvent>)
    ensures
        c.exit_requested ==> spec_cycle(c, raws).0.exited && spec_cycle(c, raws).1 == Seq::<
            InputEvent,
        >::empty(),
        !c.exit_requested ==> spec_cycle(c, raws).0.exited == c.exited,
{
}

/// The exited flag is reached only through an exit request (or a failed
/// start): a running worker whose exit was never requested stays not exited,
/// cycle after cycle.
pub proof fn lemma_no_spurious_exit(c: EvDevContext, raws: Seq<RawInputEvent>)
    requires
        !c.exited,
        !c.exit_requested,
    ensures
        !spec_cycle(c, raws).0.exited,
        spec_cycle(c, raws).0.exit_requested == c.exit_requested,
        spec_cycle(c, raws).1 == spec_drain(c.state, raws).1,
{
}

} // verus!
