//! Out-of-band control of a stream.

use std::sync::Arc;

use vstd::prelude::*;
use vstd::rwlock::{ReadHandle, RwLock, RwLockPredicate, WriteHandle};

use crate::error::Error;

verus! {

/// Control messages sent to a running stream.
///
/// These messages allow out-of-band control actions to take effect immediately,
/// even when the stream is waiting (pacing, backpressure, etc.).
#[derive(Clone, Copy, Debug, PartialEq, Eq, Structural)]
pub enum ControlMsg {
    /// Arm the output (opens hardware shutter).
    Arm,
    /// Disarm the output (closes hardware shutter).
    Disarm,
    /// Request the stream to stop.
    Stop,
}

/// What a control handle has been told.
#[derive(Clone, Copy, Debug, PartialEq, Eq, Structural)]
pub struct ControlFlags {
    /// Whether output is armed (laser can fire).
    pub armed: bool,
    /// Whether a stop has been requested.
    pub stop_requested: bool,
    /// How much later than its position a point's color is shown, in nanoseconds.
    pub color_delay: u64,
}

impl ControlFlags {
    /// The flags after a message.
    pub open spec fn after(self, msg: ControlMsg) -> ControlFlags {
        match msg {
            ControlMsg::Arm => ControlFlags { armed: true, ..self },
            ControlMsg::Disarm => ControlFlags { armed: false, ..self },
            ControlMsg::Stop => ControlFlags { stop_requested: true, ..self },
        }
    }

    /// The flags with another color delay.
    pub open spec fn with_delay(self, delay_ns: u64) -> ControlFlags {
        ControlFlags { color_delay: delay_ns, ..self }
    }

    /// Disarmed, and not stopped.
    pub fn new() -> (r: ControlFlags)
        ensures
            r == (ControlFlags { armed: false, stop_requested: false, color_delay: 0 }),
    {
        ControlFlags { armed: false, stop_requested: false, color_delay: 0 }
    }

    pub fn apply(self, msg: ControlMsg) -> (r: ControlFlags)
        ensures
            r == self.after(msg),
    {
        match msg {
            ControlMsg::Arm => ControlFlags { armed: true, ..self },
            ControlMsg::Disarm => ControlFlags { armed: false, ..self },
            ControlMsg::Stop => ControlFlags { stop_requested: true, ..self },
        }
    }
}

/// A handle may hold any flags.
pub struct AnyFlags;

impl RwLockPredicate<ControlFlags> for AnyFlags {
    open spec fn inv(self, v: ControlFlags) -> bool {
        true
    }
}

/// Another pointer to what `shared` points to.
///
/// `Arc::clone` makes a pointer to the same allocation; so the two are equal.
#[verifier::external_body]
pub(crate) fn share<T>(shared: &Arc<T>) -> (r: Arc<T>)
    ensures
        r == *shared,
{
    Arc::clone(shared)
}

/// Thread-safe control handle for safety-critical actions.
///
/// This allows out-of-band control of the stream (arm/disarm/stop) from
/// a different thread, e.g., for E-stop functionality. All clones of a handle share
/// its flags, under a lock. What the flags hold between two calls is up to every
/// thread that has a clone. So a call says what it reads from the lock, or what it
/// takes out of it and puts back; no clause says that one call reads what another has
/// put back.
pub struct StreamControl {
    flags: Arc<RwLock<ControlFlags, AnyFlags>>,
}

impl Clone for StreamControl {
    fn clone(&self) -> (r: StreamControl)
        ensures
            r == *self,
    {
        StreamControl { flags: share(&self.flags) }
    }
}

impl StreamControl {
    /// The handle's lock was made with these flags in it.
    pub closed spec fn made_with(self, flags: ControlFlags) -> bool {
        call_ensures(RwLock::<ControlFlags, AnyFlags>::new, (flags, Ghost(AnyFlags)), *self.flags)
    }

    /// Whoever reads the handle's lock can find these flags in it.
    pub closed spec fn shows(self, flags: ControlFlags) -> bool {
        exists|h: ReadHandle<ControlFlags, AnyFlags>|
            #[trigger] call_ensures(
                RwLock::<ControlFlags, AnyFlags>::acquire_read,
                (&*self.flags,),
                h,
            ) && h.view() == flags
    }

    /// The flags `seen` were taken out of the handle's lock, and `put` was put back.
    pub closed spec fn exchanged(self, seen: ControlFlags, put: ControlFlags) -> bool {
        exists|h: WriteHandle<ControlFlags, AnyFlags>|
            #[trigger] call_ensures(
                RwLock::<ControlFlags, AnyFlags>::acquire_write,
                (&*self.flags,),
                (seen, h),
            ) && call_ensures(
                WriteHandle::<ControlFlags, AnyFlags>::release_write,
                (h, put),
                (),
            )
    }

    /// The flags were changed as the message says.
    pub open spec fn told(self, msg: ControlMsg) -> bool {
        exists|seen: ControlFlags| self.exchanged(seen, #[trigger] seen.after(msg))
    }

    /// The color delay was set, and nothing else changed.
    pub open spec fn delayed_by(self, delay_ns: u64) -> bool {
        exists|seen: ControlFlags| self.exchanged(seen, #[trigger] seen.with_delay(delay_ns))
    }

    /// A handle that is disarmed.
    pub fn new() -> (r: StreamControl)
        ensures
            r.made_with(ControlFlags { armed: false, stop_requested: false, color_delay: 0 }),
    {
        StreamControl { flags: Arc::new(RwLock::new(ControlFlags::new(), Ghost(AnyFlags))) }
    }

    fn tell(&self, msg: ControlMsg) -> (r: Result<ControlMsg, Error>)
        ensures
            r == Ok::<ControlMsg, Error>(msg),
            self.told(msg),
    {
        let (flags, handle) = self.flags.acquire_write();
        handle.release_write(flags.apply(msg));
        assert(self.exchanged(flags, flags.after(msg)));
        Ok(msg)
    }

    /// The flags as they are now.
    pub fn flags(&self) -> (r: ControlFlags)
        ensures
            self.shows(r),
    {
        let handle = self.flags.acquire_read();
        let flags: ControlFlags = *handle.borrow();
        handle.release_read();
        flags
    }

    /// Change the color delay of the running stream, in nanoseconds.
    pub fn set_color_delay(&self, delay_ns: u64)
        ensures
            self.delayed_by(delay_ns),
    {
        let (flags, handle) = self.flags.acquire_write();
        handle.release_write(ControlFlags { color_delay: delay_ns, ..flags });
        assert(self.exchanged(flags, flags.with_delay(delay_ns)));
    }

    /// The color delay, in nanoseconds.
    pub fn color_delay(&self) -> (r: u64)
        ensures
            exists|flags: ControlFlags| #[trigger] self.shows(flags) && r == flags.color_delay,
    {
        self.flags().color_delay
    }

    /// Arm the output (allow laser to fire).
    ///
    /// When armed, content from the producer passes through, after the startup
    /// blanking and apart from the color delay, and the hardware shutter is opened
    /// (best-effort). The message that comes back goes to the stream, for the shutter
    /// to open at once.
    pub fn arm(&self) -> (r: Result<ControlMsg, Error>)
        ensures
            r == Ok::<ControlMsg, Error>(ControlMsg::Arm),
            self.told(ControlMsg::Arm),
    {
        self.tell(ControlMsg::Arm)
    }

    /// Disarm the output (force laser off). Designed for E-stop use.
    ///
    /// Immediately sets a flag (works even if the stream is blocked). All
    /// future points are blanked in software. The stream stays alive outputting
    /// blanks; use `stop()` to terminate entirely. The message that comes back goes
    /// to the stream, for the shutter to close at once.
    ///
    /// **Latency**: Points already in the device buffer will still play out.
    /// `target_buffer` bounds this latency.
    pub fn disarm(&self) -> (r: Result<ControlMsg, Error>)
        ensures
            r == Ok::<ControlMsg, Error>(ControlMsg::Disarm),
            self.told(ControlMsg::Disarm),
    {
        self.tell(ControlMsg::Disarm)
    }

    /// Check if the output is armed.
    pub fn is_armed(&self) -> (r: bool)
        ensures
            exists|flags: ControlFlags| #[trigger] self.shows(flags) && r == flags.armed,
    {
        self.flags().armed
    }

    /// Request the stream to stop. The message that comes back goes to the stream,
    /// for it to stop at once.
    pub fn stop(&self) -> (r: Result<ControlMsg, Error>)
        ensures
            r == Ok::<ControlMsg, Error>(ControlMsg::Stop),
            self.told(ControlMsg::Stop),
    {
        self.tell(ControlMsg::Stop)
    }

    /// Check if a stop has been requested.
    pub fn is_stop_requested(&self) -> (r: bool)
        ensures
            exists|flags: ControlFlags| #[trigger] self.shows(flags) && r == flags.stop_requested,
    {
        self.flags().stop_requested
    }
}

/// A stop cannot be taken back, and whether the output is armed is up to the last
/// message about it.
pub proof fn stop_is_final(flags: ControlFlags, msg: ControlMsg)
    ensures
        flags.stop_requested ==> flags.after(msg).stop_requested,
        flags.after(ControlMsg::Disarm).after(ControlMsg::Stop).stop_requested,
        !flags.after(ControlMsg::Disarm).after(ControlMsg::Stop).armed,
        flags.after(msg).after(msg) == flags.after(msg),
        flags.after(msg).color_delay == flags.color_delay,
{
}

impl StreamControl {
    /// Messages that were told one after another, by whatever clones: each call has
    /// seen what the one before has put back. `states` are the flags before the first
    /// message and after each.
    pub open spec fn told_in_turn(self, states: Seq<ControlFlags>, msgs: Seq<ControlMsg>) -> bool {
        &&& states.len() == msgs.len() + 1
        &&& forall|i: int|
            0 <= i < msgs.len() ==> self.exchanged(#[trigger] states[i], states[i + 1])
                && states[i + 1] == states[i].after(msgs[i])
    }
}

/// Once a stop is requested it stays requested, whatever is told later.
pub proof fn stop_stays_requested(
    control: StreamControl,
    states: Seq<ControlFlags>,
    msgs: Seq<ControlMsg>,
    k: int,
    j: int,
)
    requires
        control.told_in_turn(states, msgs),
        0 <= k < j < states.len(),
        states[k].stop_requested || msgs[k] is Stop,
    ensures
        states[j].stop_requested,
    decreases j,
{
    if k < j - 1 {
        stop_stays_requested(control, states, msgs, k, j - 1);
    }
    assert(states[j - 1 + 1] == states[j - 1].after(msgs[j - 1]));
}

/// The last arm or disarm holds, and a stop does not change it; neither of them
/// requests a stop or takes one back, and none changes the color delay.
pub proof fn last_message_arms(
    control: StreamControl,
    states: Seq<ControlFlags>,
    msgs: Seq<ControlMsg>,
    k: int,
    j: int,
)
    requires
        control.told_in_turn(states, msgs),
        0 <= k < j < states.len(),
        !(msgs[k] is Stop),
        forall|i: int| k < i < j ==> #[trigger] msgs[i] is Stop,
    ensures
        states[j].armed == (msgs[k] is Arm),
        states[j].color_delay == states[k].color_delay,
        j == k + 1 ==> states[j].stop_requested == states[k].stop_requested,
    decreases j,
{
    if k < j - 1 {
        last_message_arms(control, states, msgs, k, j - 1);
    }
    assert(states[j - 1 + 1] == states[j - 1].after(msgs[j - 1]));
}

/// Arming and disarming decide whether the output is armed, and nothing else; a stop is
/// requested by a stop alone; and a color delay is what it was set to last.
pub proof fn each_call_changes_one_thing(flags: ControlFlags, msg: ControlMsg, delay_ns: u64)
    ensures
        flags.after(ControlMsg::Arm).armed,
        !flags.after(ControlMsg::Disarm).armed,
        flags.after(ControlMsg::Stop).armed == flags.armed,
        flags.after(msg).stop_requested == (flags.stop_requested || msg is Stop),
        flags.with_delay(delay_ns).color_delay == delay_ns,
        flags.with_delay(delay_ns).armed == flags.armed,
        flags.with_delay(delay_ns).stop_requested == flags.stop_requested,
        flags.after(msg).with_delay(delay_ns) == flags.with_delay(delay_ns).after(msg),
{
}

} // verus!
