//! Reconnecting session wrapper for automatic reconnection.

use std::sync::Arc;

use vstd::prelude::*;
use vstd::rwlock::{ReadHandle, RwLock, RwLockPredicate, WriteHandle};

use crate::error::Error;
use crate::reconnect::{self, BackoffStep, ReconnectPolicy};
use crate::stream::control::{share, ControlFlags, ControlMsg, StreamControl};
use crate::types::{LaserPoint, RunExit, StreamConfig};

verus! {

/// What a session has been told, and the stream that is attached to it.
pub struct SessionState {
    pub flags: ControlFlags,
    pub current: Option<StreamControl>,
}

impl SessionState {
    /// The state with this stream, or with none.
    pub open spec fn with_stream(self, current: Option<StreamControl>) -> SessionState {
        SessionState { current, ..self }
    }

    /// The state after a message.
    pub open spec fn after(self, msg: ControlMsg) -> SessionState {
        SessionState { flags: self.flags.after(msg), ..self }
    }

    /// What a stream is told that is attached in this state.
    pub open spec fn greeting(self) -> ControlMsg {
        greeting(self.flags.armed, self.flags.stop_requested)
    }

    /// What of a message reaches a stream: all of it if there is one.
    pub open spec fn passed_on(self, msg: ControlMsg) -> Option<ControlMsg> {
        if self.current is Some {
            Some(msg)
        } else {
            None
        }
    }

    /// Tell the stream, if there is one.
    pub fn pass_on(&self, msg: ControlMsg) -> (r: Option<ControlMsg>)
        ensures
            r == self.passed_on(msg),
            self.current matches Some(control) ==> control.told(msg),
    {
        match &self.current {
            Some(control) => {
                let r = match msg {
                    ControlMsg::Arm => control.arm(),
                    ControlMsg::Disarm => control.disarm(),
                    ControlMsg::Stop => control.stop(),
                };
                match r {
                    Ok(told) => Some(told),
                    Err(_) => None,
                }
            },
            None => None,
        }
    }

    /// Take over a stream.
    pub fn attached(self, control: StreamControl) -> (r: SessionState)
        ensures
            r == self.with_stream(Some(control)),
    {
        SessionState { flags: self.flags, current: Some(control) }
    }

    /// Let go of the stream, if there is one.
    pub fn detached(self) -> (r: SessionState)
        ensures
            r == self.with_stream(None),
    {
        SessionState { flags: self.flags, current: None }
    }

    /// Take note of a message.
    pub fn told(self, msg: ControlMsg) -> (r: SessionState)
        ensures
            r == self.after(msg),
    {
        SessionState { flags: self.flags.apply(msg), current: self.current }
    }
}

/// A session may be in any state.
pub struct AnySession;

impl RwLockPredicate<SessionState> for AnySession {
    open spec fn inv(self, v: SessionState) -> bool {
        true
    }
}

/// Control handle for a session.
///
/// This mirrors `StreamControl`, but survives reconnections by attaching
/// to each new stream as it is created. Each call returns the message for the
/// stream that is attached, if there is one. All clones of a handle share its flags
/// and its stream, under a lock. What they hold between two calls is up to every
/// thread that has a clone. So a call says what it reads from the lock, or what it
/// takes out of it and puts back; no clause says that one call reads what another has
/// put back.
pub struct SessionControl {
    state: Arc<RwLock<SessionState, AnySession>>,
}

impl Clone for SessionControl {
    fn clone(&self) -> (r: SessionControl)
        ensures
            r == *self,
    {
        SessionControl { state: share(&self.state) }
    }
}

/// What a stream is told when it is attached to a session with these flags.
pub open spec fn greeting(armed: bool, stop_requested: bool) -> ControlMsg {
    if stop_requested {
        ControlMsg::Stop
    } else if armed {
        ControlMsg::Arm
    } else {
        ControlMsg::Disarm
    }
}

/// Bring a new stream into the state that the session is in.
pub fn greet(control: &StreamControl, armed: bool, stop_requested: bool) -> (r: Result<
    ControlMsg,
    Error,
>)
    ensures
        r == Ok::<ControlMsg, Error>(greeting(armed, stop_requested)),
        control.told(greeting(armed, stop_requested)),
{
    if stop_requested {
        control.stop()
    } else if armed {
        control.arm()
    } else {
        control.disarm()
    }
}

impl SessionControl {
    /// The handle's lock was made with this state in it.
    pub closed spec fn made_with(self, state: SessionState) -> bool {
        call_ensures(RwLock::<SessionState, AnySession>::new, (state, Ghost(AnySession)), *self.state)
    }

    /// Whoever reads the handle's lock can find these flags in it.
    pub closed spec fn shows(self, flags: ControlFlags) -> bool {
        exists|h: ReadHandle<SessionState, AnySession>|
            #[trigger] call_ensures(
                RwLock::<SessionState, AnySession>::acquire_read,
                (&*self.state,),
                h,
            ) && h.view().flags == flags
    }

    /// The state `seen` was taken out of the handle's lock, and `put` was put back.
    pub closed spec fn exchanged(self, seen: SessionState, put: SessionState) -> bool {
        exists|h: WriteHandle<SessionState, AnySession>|
            #[trigger] call_ensures(
                RwLock::<SessionState, AnySession>::acquire_write,
                (&*self.state,),
                (seen, h),
            ) && call_ensures(
                WriteHandle::<SessionState, AnySession>::release_write,
                (h, put),
                (),
            )
    }

    /// The state was changed as the message says, and the stream that was attached,
    /// if there was one, was told, as the result says.
    pub open spec fn told(self, msg: ControlMsg, r: Result<Option<ControlMsg>, Error>) -> bool {
        exists|seen: SessionState|
            {
                &&& self.exchanged(seen, #[trigger] seen.after(msg))
                &&& seen.current matches Some(control) ==> control.told(msg)
                &&& r == Ok::<Option<ControlMsg>, Error>(seen.passed_on(msg))
            }
    }

    /// A handle that is disarmed and has no stream.
    pub fn new() -> (r: SessionControl)
        ensures
            r.made_with(
                SessionState {
                    flags: ControlFlags { armed: false, stop_requested: false, color_delay: 0 },
                    current: None,
                },
            ),
    {
        let state = SessionState { flags: ControlFlags::new(), current: None };
        SessionControl { state: Arc::new(RwLock::new(state, Ghost(AnySession))) }
    }

    /// Take over a stream that has just been created. The message goes to it.
    pub fn attach(&self, control: StreamControl) -> (r: Result<ControlMsg, Error>)
        ensures
            exists|seen: SessionState|
                {
                    &&& self.exchanged(seen, #[trigger] seen.with_stream(Some(control)))
                    &&& control.told(seen.greeting())
                    &&& r == Ok::<ControlMsg, Error>(seen.greeting())
                },
    {
        let (state, handle) = self.state.acquire_write();
        let flags: ControlFlags = state.flags;
        let r = greet(&control, flags.armed, flags.stop_requested);
        handle.release_write(state.attached(control));
        assert(self.exchanged(state, state.with_stream(Some(control))));
        r
    }

    /// Let go of the stream.
    pub fn detach(&self)
        ensures
            exists|seen: SessionState| self.exchanged(seen, #[trigger] seen.with_stream(None)),
    {
        let (state, handle) = self.state.acquire_write();
        handle.release_write(state.detached());
        assert(self.exchanged(state, state.with_stream(None)));
    }

    fn tell(&self, msg: ControlMsg) -> (r: Result<Option<ControlMsg>, Error>)
        ensures
            self.told(msg, r),
    {
        let (state, handle) = self.state.acquire_write();
        let passed: Option<ControlMsg> = state.pass_on(msg);
        handle.release_write(state.told(msg));
        assert(self.exchanged(state, state.after(msg)));
        Ok(passed)
    }

    /// The flags as they are now.
    pub fn flags(&self) -> (r: ControlFlags)
        ensures
            self.shows(r),
    {
        let handle = self.state.acquire_read();
        let flags: ControlFlags = handle.borrow().flags;
        handle.release_read();
        flags
    }

    /// Arm the output (allow laser to fire).
    pub fn arm(&self) -> (r: Result<Option<ControlMsg>, Error>)
        ensures
            self.told(ControlMsg::Arm, r),
            r matches Ok(msg) && (msg is None || msg == Some(ControlMsg::Arm)),
    {
        self.tell(ControlMsg::Arm)
    }

    /// Disarm the output (force laser off).
    pub fn disarm(&self) -> (r: Result<Option<ControlMsg>, Error>)
        ensures
            self.told(ControlMsg::Disarm, r),
            r matches Ok(msg) && (msg is None || msg == Some(ControlMsg::Disarm)),
    {
        self.tell(ControlMsg::Disarm)
    }

    /// Check if the output is armed.
    pub fn is_armed(&self) -> (r: bool)
        ensures
            exists|flags: ControlFlags| #[trigger] self.shows(flags) && r == flags.armed,
    {
        self.flags().armed
    }

    /// Request the session to stop.
    pub fn stop(&self) -> (r: Result<Option<ControlMsg>, Error>)
        ensures
            self.told(ControlMsg::Stop, r),
            r matches Ok(msg) && (msg is None || msg == Some(ControlMsg::Stop)),
    {
        self.tell(ControlMsg::Stop)
    }

    /// Check if a stop has been requested.
    pub fn is_stop_requested(&self) -> (r: bool)
        ensures
            exists|flags: ControlFlags| #[trigger] self.shows(flags) && r == flags.stop_requested,
    {
        self.flags().stop_requested
    }
}

/// A reconnecting wrapper around the streaming API: it reconnects to a device by ID
/// and restarts streaming when a disconnection occurs.
pub struct ReconnectingSession {
    pub device_id: String,
    pub config: StreamConfig,
    pub policy: ReconnectPolicy,
    pub control: SessionControl,
    /// Whether a stream has run before, in this run of the session.
    pub connected_once: bool,
    /// Failed attempts since the last stream, or the start of the run.
    pub retries: u32,
}

/// What to do next in a session.
#[derive(Debug)]
pub enum SessionStep {
    /// Open the device and start a stream.
    Open,
    /// Report the error, if there is one, and back off for so many nanoseconds.
    Backoff(Option<Error>, u64),
    /// Report the error, if there is one, and end.
    Exit(Option<Error>, RunExit),
    /// End with an error.
    Fail(Error),
}

impl ReconnectingSession {
    /// Create a new reconnecting session for a device ID. It retries forever, once a
    /// second.
    pub fn new(device_id: String, config: StreamConfig) -> (r: ReconnectingSession)
        ensures
            r.device_id == device_id,
            r.config == config,
            r.policy == (ReconnectPolicy { max_retries: None, backoff: 1_000_000_000 }),
            !r.connected_once,
            r.retries == 0,
            r.control.made_with(
                SessionState {
                    flags: ControlFlags { armed: false, stop_requested: false, color_delay: 0 },
                    current: None,
                },
            ),
    {
        ReconnectingSession {
            device_id,
            config,
            policy: ReconnectPolicy { max_retries: None, backoff: 1_000_000_000 },
            control: SessionControl::new(),
            connected_once: false,
            retries: 0,
        }
    }

    /// Set the maximum number of reconnect attempts. 0 disables retries: the device is
    /// opened once, and not again after it failed or was lost.
    pub fn with_max_retries(self, max_retries: u32) -> (r: ReconnectingSession)
        ensures
            r == (ReconnectingSession {
                policy: ReconnectPolicy { max_retries: Some(max_retries), ..self.policy },
                ..self
            }),
    {
        ReconnectingSession {
            policy: ReconnectPolicy {
                max_retries: Some(max_retries),
                backoff: self.policy.backoff,
            },
            ..self
        }
    }

    /// Set a fixed backoff between reconnect attempts, in nanoseconds.
    pub fn with_backoff(self, backoff: u64) -> (r: ReconnectingSession)
        ensures
            r == (ReconnectingSession {
                policy: ReconnectPolicy { backoff, ..self.policy },
                ..self
            }),
    {
        ReconnectingSession {
            policy: ReconnectPolicy { max_retries: self.policy.max_retries, backoff },
            ..self
        }
    }

    /// Returns a control handle for arm/disarm/stop: the same as the session's.
    pub fn control(&self) -> (r: SessionControl)
        ensures
            r == self.control,
    {
        self.control.clone()
    }

    /// Start to run: no stream has run before, and no attempt has failed.
    pub fn begin_run(&mut self)
        ensures
            *final(self) == old(self).at_start(),
    {
        self.connected_once = false;
        self.retries = 0;
    }

    /// The session at the start of a run.
    pub open spec fn at_start(self) -> ReconnectingSession {
        ReconnectingSession { connected_once: false, retries: 0, ..self }
    }

    fn exhausted(&self) -> (r: bool)
        ensures
            r == self.policy.exhausted(self.retries),
    {
        match self.policy.max_retries {
            Some(max) => self.retries >= max,
            None => false,
        }
    }

    /// Whether the device has been tried before, so that another attempt is a retry.
    pub open spec fn tried(self) -> bool {
        self.retries > 0 || self.connected_once
    }

    /// What comes next while no stream runs.
    pub open spec fn next_step(self, is_stopped: bool) -> SessionStep {
        if is_stopped {
            SessionStep::Exit(None, RunExit::Stopped)
        } else if self.tried() && self.policy.exhausted(self.retries) {
            SessionStep::Exit(None, RunExit::Disconnected)
        } else {
            SessionStep::Open
        }
    }

    /// Start, or go on after a backoff.
    pub fn next(&self, is_stopped: bool) -> (r: SessionStep)
        ensures
            r == self.next_step(is_stopped),
    {
        if is_stopped {
            return SessionStep::Exit(None, RunExit::Stopped);
        }
        if (self.retries > 0 || self.connected_once) && self.exhausted() {
            return SessionStep::Exit(None, RunExit::Disconnected);
        }
        SessionStep::Open
    }

    /// The device could not be opened, or the stream not be started. Errors that may
    /// pass are reported and counted.
    pub fn start_failed(&mut self, err: Error) -> (r: SessionStep)
        ensures
            !reconnect::may_pass(err) ==> r == SessionStep::Fail(err) && *final(self) == *old(self),
            reconnect::may_pass(err) ==> {
                &&& *final(self) == (ReconnectingSession {
                    retries: reconnect::one_more(old(self).retries),
                    ..*old(self)
                })
                &&& r == if old(self).policy.exhausted(final(self).retries) {
                    SessionStep::Exit(Some(err), RunExit::Disconnected)
                } else {
                    SessionStep::Backoff(Some(err), old(self).policy.backoff)
                }
            },
    {
        if !ReconnectPolicy::is_retriable(&err) {
            return SessionStep::Fail(err);
        }
        self.retries = self.retries.saturating_add(1);
        if self.exhausted() {
            SessionStep::Exit(Some(err), RunExit::Disconnected)
        } else {
            SessionStep::Backoff(Some(err), self.policy.backoff)
        }
    }

    /// A stream has been started. The result says whether the device has come back.
    pub fn stream_started(&mut self) -> (r: bool)
        ensures
            r == old(self).connected_once,
            *final(self) == (ReconnectingSession {
                connected_once: true,
                retries: 0,
                ..*old(self)
            }),
    {
        let again: bool = self.connected_once;
        self.connected_once = true;
        self.retries = 0;
        again
    }

    /// The stream has ended. A session goes on only after a disconnect.
    pub fn stream_ended(&self, result: Result<RunExit, Error>) -> (r: SessionStep)
        ensures
            r == match result {
                Err(e) => SessionStep::Fail(e),
                Ok(RunExit::Disconnected) => if self.policy.exhausted(self.retries) {
                    SessionStep::Exit(None, RunExit::Disconnected)
                } else {
                    SessionStep::Backoff(None, self.policy.backoff)
                },
                Ok(exit) => SessionStep::Exit(None, exit),
            },
    {
        match result {
            Err(e) => SessionStep::Fail(e),
            Ok(RunExit::Disconnected) => {
                if self.exhausted() {
                    SessionStep::Exit(None, RunExit::Disconnected)
                } else {
                    SessionStep::Backoff(None, self.policy.backoff)
                }
            },
            Ok(exit) => SessionStep::Exit(None, exit),
        }
    }

    /// Whether an error of the stream is also a disconnect, to be told as one first.
    pub fn is_disconnect(err: &Error) -> (r: bool)
        ensures
            r == (*err is Disconnected),
    {
        err.is_disconnected()
    }

    /// One part of a backoff of which `remaining` nanoseconds are left.
    pub fn sleep_with_stop(remaining: u64, is_stopped: bool) -> (r: BackoffStep)
        ensures
            r == if is_stopped {
                BackoffStep::Stopped
            } else if remaining == 0 {
                BackoffStep::Over
            } else if remaining <= 50_000_000 {
                BackoffStep::Sleep(remaining)
            } else {
                BackoffStep::Sleep(50_000_000)
            },
    {
        ReconnectPolicy::sleep_with_stop(0, remaining, is_stopped)
    }
}

/// What a producer of a session answers.
#[derive(Clone, Copy, Debug, PartialEq, Eq, Structural)]
pub enum ProducerResult {
    /// All points that were asked for are in the buffer.
    Continue,
    /// So many points are in the buffer.
    ContinuePartial { filled: usize },
    /// The stream is to end.
    End,
}

/// Put the points of a producer that allocates into the buffer, as far as they fit.
pub fn fill_from(points: Option<Vec<LaserPoint>>, n_points: usize, buffer: &mut Vec<LaserPoint>) -> (r:
    ProducerResult)
    ensures
        final(buffer)@.len() == old(buffer)@.len(),
        points is None ==> r is End && final(buffer)@ == old(buffer)@,
        points matches Some(p) ==> {
            let n = if p@.len() <= old(buffer)@.len() {
                p@.len()
            } else {
                old(buffer)@.len()
            };
            &&& final(buffer)@ == p@.take(n as int) + old(buffer)@.skip(n as int)
            &&& r == if n == n_points {
                ProducerResult::Continue
            } else {
                ProducerResult::ContinuePartial { filled: n as usize }
            }
        },
{
    match points {
        None => ProducerResult::End,
        Some(p) => {
            let n: usize = if p.len() <= buffer.len() {
                p.len()
            } else {
                buffer.len()
            };
            let ghost before = buffer@;
            let mut i: usize = 0;
            assert(p@.take(0) + before.skip(0) =~= before);
            while i < n
                invariant
                    i <= n <= p@.len(),
                    n <= before.len(),
                    buffer@ == p@.take(i as int) + before.skip(i as int),
                decreases n - i,
            {
                buffer.set(i, p[i]);
                i += 1;
                assert(buffer@ =~= p@.take(i as int) + before.skip(i as int));
            }
            if n == n_points {
                ProducerResult::Continue
            } else {
                ProducerResult::ContinuePartial { filled: n }
            }
        },
    }
}

/// Arming persists across reconnects: a stream that takes the place of a lost one is
/// told what that one was told last.
pub proof fn arming_persists(before: SessionState, first: StreamControl, msg: ControlMsg)
    requires
        !before.flags.stop_requested,
        !(msg is Stop),
    ensures
        before.with_stream(Some(first)).after(msg).with_stream(None).greeting() == msg,
{
}

/// Runs do not depend on those before: whatever came of an earlier run, a run that is
/// not stopped opens the device.
pub proof fn each_run_starts_afresh(session: ReconnectingSession)
    ensures
        session.at_start().next_step(false) is Open,
        !session.at_start().connected_once,
{
}

/// A call on the control handle of a session.
pub enum SessionCall {
    Tell(ControlMsg),
    Attach(StreamControl),
    Detach,
}

impl SessionState {
    /// The state after a call.
    pub open spec fn called(self, call: SessionCall) -> SessionState {
        match call {
            SessionCall::Tell(msg) => self.after(msg),
            SessionCall::Attach(control) => self.with_stream(Some(control)),
            SessionCall::Detach => self.with_stream(None),
        }
    }
}

impl SessionControl {
    /// Calls that were made one after another, by whatever clones: each has seen what
    /// the one before has put back. `states` are those before the first call and after
    /// each.
    pub open spec fn called_in_turn(
        self,
        states: Seq<SessionState>,
        calls: Seq<SessionCall>,
    ) -> bool {
        &&& states.len() == calls.len() + 1
        &&& forall|i: int|
            0 <= i < calls.len() ==> self.exchanged(#[trigger] states[i], states[i + 1])
                && states[i + 1] == states[i].called(calls[i])
    }
}

/// Once a session was told to stop, it stays so, whatever is called later, and each
/// stream that is attached later is told to stop.
pub proof fn stop_outlives_streams(
    control: SessionControl,
    states: Seq<SessionState>,
    calls: Seq<SessionCall>,
    k: int,
    j: int,
)
    requires
        control.called_in_turn(states, calls),
        0 <= k < j < states.len(),
        calls[k] == SessionCall::Tell(ControlMsg::Stop),
    ensures
        states[j].flags.stop_requested,
        states[j].greeting() is Stop,
        j == k + 1 ==> states[j].flags.armed == states[k].flags.armed,
    decreases j,
{
    if k < j - 1 {
        stop_outlives_streams(control, states, calls, k, j - 1);
    }
    assert(states[j - 1 + 1] == states[j - 1].called(calls[j - 1]));
}

/// What a session was told last about arming holds, with or without a stream, through
/// every attach and detach: without a stop, each stream that is attached is told so.
/// Arming and disarming never cancel a stop.
pub proof fn arming_is_remembered(
    control: SessionControl,
    states: Seq<SessionState>,
    calls: Seq<SessionCall>,
    msg: ControlMsg,
    k: int,
    j: int,
)
    requires
        control.called_in_turn(states, calls),
        0 <= k < j < states.len(),
        calls[k] == SessionCall::Tell(msg),
        !(msg is Stop),
        forall|i: int| k < i < j ==> !(#[trigger] calls[i] is Tell),
    ensures
        states[j].flags.armed == (msg is Arm),
        states[j].flags.stop_requested == states[k].flags.stop_requested,
        !states[k].flags.stop_requested ==> states[j].greeting() == msg,
    decreases j,
{
    if k < j - 1 {
        arming_is_remembered(control, states, calls, msg, k, j - 1);
    }
    assert(states[j - 1 + 1] == states[j - 1].called(calls[j - 1]));
}

/// A session gives up after as many failed attempts as it may make; each is reported. An
/// error that cannot pass ends it at once.
pub proof fn failed_starts_are_counted()
    ensures
        forall|s: &mut ReconnectingSession, err: Error, r: SessionStep|
            #[trigger] call_ensures(ReconnectingSession::start_failed, (s, err), r) && s.retries
                < u32::MAX ==> {
                let last = err is InvalidConfig || err is Stopped;
                &&& last ==> r == SessionStep::Fail(err) && final(s).retries == s.retries
                &&& !last ==> final(s).retries == s.retries + 1
                &&& !last ==> (s.policy.max_retries matches Some(max) && s.retries + 1 >= max
                    <==> r == SessionStep::Exit(Some(err), RunExit::Disconnected))
                &&& !last && !(r is Exit) ==> r == SessionStep::Backoff(Some(err), s.policy.backoff)
                &&& final(s).connected_once == s.connected_once
                &&& final(s).policy == s.policy
            },
{
}

/// A stream that runs ends the count of failed attempts. All but the first one of a run
/// mean that the device has come back.
pub proof fn running_stream_ends_the_count()
    ensures
        forall|s: &mut ReconnectingSession, r: bool|
            #[trigger] call_ensures(ReconnectingSession::stream_started, (s,), r) ==> {
                &&& r <==> s.connected_once
                &&& final(s).connected_once
                &&& final(s).retries == 0
                &&& final(s).policy == s.policy
            },
        forall|s: &mut ReconnectingSession|
            #[trigger] call_ensures(ReconnectingSession::begin_run, (s,), ()) ==> {
                &&& !final(s).connected_once
                &&& final(s).retries == 0
                &&& final(s).policy == s.policy
                &&& final(s).device_id == s.device_id
                &&& final(s).control == s.control
            },
{
}

/// A session goes on after a disconnect, as long as it may retry; whatever else ends its
/// stream ends the session in the same way.
pub proof fn session_goes_on_after_disconnect()
    ensures
        forall|s: &ReconnectingSession, result: Result<RunExit, Error>, r: SessionStep|
            #[trigger] call_ensures(ReconnectingSession::stream_ended, (s, result), r) ==> {
                let given_up = s.policy.max_retries matches Some(max) && s.retries >= max;
                &&& result matches Err(e) ==> r == SessionStep::Fail(e)
                &&& result matches Ok(exit) ==> {
                    &&& !(exit is Disconnected) ==> r == SessionStep::Exit(None, exit)
                    &&& exit is Disconnected && given_up ==> r == SessionStep::Exit(None, exit)
                    &&& exit is Disconnected && !given_up ==> r == SessionStep::Backoff(
                        None,
                        s.policy.backoff,
                    )
                }
            },
        forall|e: &Error, r: bool|
            #[trigger] call_ensures(ReconnectingSession::is_disconnect, (e,), r) ==> (r <==> *e
                is Disconnected),
{
}

/// A session without retries opens its device once in a run, and not again. A stop ends
/// any session before it opens its device.
pub proof fn session_without_retries_opens_once(session: ReconnectingSession)
    ensures
        session.next_step(true) == SessionStep::Exit(None, RunExit::Stopped),
        session.policy.max_retries == Some(0u32) && (session.connected_once || session.retries > 0)
            ==> session.next_step(false) == SessionStep::Exit(None, RunExit::Disconnected),
        !session.connected_once && session.retries == 0 ==> session.next_step(false) is Open,
        session.policy.max_retries is None ==> session.next_step(false) is Open,
        session.policy.max_retries matches Some(max) ==> session.retries < max
            ==> session.next_step(false) is Open,
{
}

/// A backoff of a session is slept in parts of a twentieth of a second at most, all of it
/// unless a stop is requested.
pub proof fn backoff_is_slept_in_parts()
    ensures
        forall|remaining: u64, stopped: bool, r: BackoffStep|
            #[trigger] call_ensures(ReconnectingSession::sleep_with_stop, (remaining, stopped), r) ==> {
                &&& stopped <==> r is Stopped
                &&& !stopped && remaining == 0 <==> r is Over
                &&& r matches BackoffStep::Sleep(ns) ==> {
                    &&& 0 < ns <= 50_000_000
                    &&& ns <= remaining
                    &&& ns == remaining || ns == 50_000_000
                }
            },
{
}

/// The points of a producer are put at the head of the buffer, in order and as far as they
/// fit; the rest of the buffer stays. Fewer than were asked for are told as such, and none
/// at all ends the stream.
pub proof fn produced_points_fill_the_head()
    ensures
        forall|points: Option<Vec<LaserPoint>>, n: usize, buffer: &mut Vec<LaserPoint>, r: ProducerResult|
            #[trigger] call_ensures(fill_from, (points, n, buffer), r) ==> {
                &&& final(buffer)@.len() == buffer@.len()
                &&& points is None <==> r is End
                &&& points matches Some(p) ==> {
                    &&& forall|i: int|
                        0 <= i < p@.len() && i < buffer@.len() ==> #[trigger] final(buffer)@[i] == p@[i]
                    &&& forall|i: int|
                        p@.len() <= i < buffer@.len() ==> #[trigger] final(buffer)@[i] == buffer@[i]
                    &&& r is Continue ==> n == p@.len() || n == buffer@.len()
                    &&& p@.len() == n && n <= buffer@.len() ==> r is Continue
                    &&& r matches ProducerResult::ContinuePartial { filled } ==> p@.len() <= usize::MAX
                        ==> filled != n && (filled == p@.len() || filled == buffer@.len())
                }
            },
{
}

/// A stream that is attached is told to stop if the session was, and else whether to be
/// armed; what a session is told is passed on just while a stream is attached.
pub proof fn attached_stream_follows_the_session(state: SessionState, control: StreamControl, msg: ControlMsg)
    ensures
        state.flags.stop_requested <==> state.greeting() is Stop,
        !state.flags.stop_requested ==> (state.flags.armed <==> state.greeting() is Arm),
        !state.flags.stop_requested ==> (!state.flags.armed <==> state.greeting() is Disarm),
        state.with_stream(Some(control)).passed_on(msg) == Some(msg),
        state.with_stream(None).passed_on(msg) is None,
        state.with_stream(Some(control)).flags == state.flags,
        state.after(msg).current == state.current,
{
}

/// A stream that is attached or detached changes nothing else of the session, and a
/// message is passed on to the stream, if there is one, and noted.
pub proof fn session_passes_messages_on()
    ensures
        forall|s: SessionState, c: StreamControl, r: SessionState| #[trigger]
            call_ensures(SessionState::attached, (s, c), r) ==> r.current == Some(c) && r.flags
                == s.flags,
        forall|s: SessionState, r: SessionState| #[trigger]
            call_ensures(SessionState::detached, (s,), r) ==> r.current is None && r.flags == s.flags,
        forall|s: SessionState, msg: ControlMsg, r: SessionState| #[trigger]
            call_ensures(SessionState::told, (s, msg), r) ==> {
                &&& r.current == s.current
                &&& msg is Arm ==> r.flags.armed
                &&& msg is Disarm ==> !r.flags.armed
                &&& msg is Stop ==> r.flags.stop_requested
                &&& !(msg is Stop) ==> r.flags.stop_requested == s.flags.stop_requested
                &&& r.flags.color_delay == s.flags.color_delay
            },
        forall|s: &SessionState, msg: ControlMsg, r: Option<ControlMsg>| #[trigger]
            call_ensures(SessionState::pass_on, (s, msg), r) ==> {
                &&& s.current is Some ==> r == Some(msg)
                &&& s.current is None ==> r is None
            },
        forall|c: &StreamControl, armed: bool, stop: bool, r: Result<ControlMsg, Error>| #[trigger]
            call_ensures(greet, (c, armed, stop), r) ==> {
                &&& r is Ok
                &&& r->Ok_0 is Stop <==> stop
                &&& r->Ok_0 is Arm <==> armed && !stop
                &&& r->Ok_0 is Disarm <==> !armed && !stop
            },
{
}

/// A session starts with no stream and no failures, and tries for ever, once a second,
/// unless it is told otherwise.
pub proof fn session_starts_patient()
    ensures
        forall|id: String, config: StreamConfig, r: ReconnectingSession| #[trigger]
            call_ensures(ReconnectingSession::new, (id, config), r) ==> {
                &&& r.device_id == id
                &&& r.config == config
                &&& r.policy.max_retries is None
                &&& r.policy.backoff == 1_000_000_000
                &&& r.retries == 0
                &&& !r.connected_once
            },
        forall|s: ReconnectingSession, n: u32, r: ReconnectingSession| #[trigger]
            call_ensures(ReconnectingSession::with_max_retries, (s, n), r) ==> r.policy.max_retries
                == Some(n) && r.policy.backoff == s.policy.backoff && r.retries == s.retries
                && r.config == s.config && r.device_id == s.device_id,
        forall|s: ReconnectingSession, n: u64, r: ReconnectingSession| #[trigger]
            call_ensures(ReconnectingSession::with_backoff, (s, n), r) ==> r.policy.backoff == n
                && r.policy.max_retries == s.policy.max_retries && r.retries == s.retries
                && r.config == s.config && r.device_id == s.device_id,
        forall|s: &ReconnectingSession, stopped: bool, r: SessionStep| #[trigger]
            call_ensures(ReconnectingSession::next, (s, stopped), r) ==> {
                &&& stopped ==> r == SessionStep::Exit(None, RunExit::Stopped)
                &&& !stopped && s.policy.max_retries is None ==> r is Open
                &&& !stopped && !s.connected_once && s.retries == 0 ==> r is Open
                &&& !stopped && s.policy.max_retries is Some && s.retries > 0 ==> (r is Open
                    <==> s.retries < s.policy.max_retries->0)
            },
{
}

} // verus!
