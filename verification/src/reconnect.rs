//! Reconnection policy and helpers for automatic reconnection.
//!
//! [`ReconnectTarget`] says which device, [`ReconnectPolicy`] how often and how fast,
//! and [`Reconnect`] takes the decisions of one reconnect cycle. Times are in
//! nanoseconds.

use vstd::prelude::*;
use vstd::string::*;

use crate::device::{DacCapabilities, DacInfo};
use crate::discovery::DiscoveredDeviceInfo;
use crate::error::Error;
use crate::text::push_text;
use crate::types::RunExit;

verus! {

/// Longest part of a backoff that is slept without looking for a stop.
pub const BACKOFF_SLICE: u64 = 50_000_000;

/// How to reopen a device.
#[derive(Debug)]
pub struct ReconnectTarget {
    pub device_id: String,
}

/// Whether the device with this id stands first at `i`.
pub open spec fn first_match(discovered: Seq<DiscoveredDeviceInfo>, id: Seq<char>, i: int) -> bool {
    &&& 0 <= i < discovered.len()
    &&& discovered[i].stable_id@ == id
    &&& forall|j: int| 0 <= j < i ==> (#[trigger] discovered[j]).stable_id@ != id
}

impl ReconnectTarget {
    /// Pick the device among those that were discovered: the first with its id.
    pub fn open_device(&self, discovered: &[DiscoveredDeviceInfo]) -> (r: Result<usize, Error>)
        ensures
            r matches Ok(i) ==> first_match(discovered@, self.device_id@, i as int),
            r matches Err(e) ==> {
                &&& forall|j: int|
                    0 <= j < discovered@.len() ==> (#[trigger] discovered@[j]).stable_id@
                        != self.device_id@
                &&& e matches Error::Disconnected(m) && m@ == "device not found: "@
                    + self.device_id@
            },
            (exists|j: int|
                0 <= j < discovered@.len() && (#[trigger] discovered@[j]).stable_id@
                    == self.device_id@) ==> r is Ok,
    {
        let mut i: usize = 0;
        while i < discovered.len()
            invariant
                i <= discovered@.len(),
                forall|j: int|
                    0 <= j < i ==> (#[trigger] discovered@[j]).stable_id@ != self.device_id@,
            decreases discovered.len() - i,
        {
            if discovered[i].stable_id == self.device_id {
                return Ok(i);
            }
            i += 1;
        }
        let mut message = "device not found: ".to_owned();
        push_text(&mut message, self.device_id.as_str());
        Err(Error::Disconnected(message))
    }

    /// The device as it is presented to users, once it is open.
    pub fn opened_info(&self, found: &DiscoveredDeviceInfo, caps: DacCapabilities) -> (r: DacInfo)
        ensures
            r == (DacInfo {
                id: self.device_id,
                name: found.name,
                kind: found.dac_type,
                caps,
            }),
    {
        DacInfo {
            id: self.device_id.clone(),
            name: found.name.clone(),
            kind: found.dac_type.clone(),
            caps,
        }
    }
}

/// How often to try, and how long to wait in between.
#[derive(Clone, Copy, Debug, PartialEq, Eq, Structural)]
pub struct ReconnectPolicy {
    /// Without a limit, there is no end.
    pub max_retries: Option<u32>,
    pub backoff: u64,
}

/// One part of a backoff.
#[derive(Clone, Copy, Debug, PartialEq, Eq, Structural)]
pub enum BackoffStep {
    /// A stop was requested.
    Stopped,
    /// Sleep for so long and look again.
    Sleep(u64),
    /// The backoff is over.
    Over,
}

/// Whether an error may go away by itself.
pub open spec fn may_pass(err: Error) -> bool {
    !(err is InvalidConfig) && !(err is Stopped)
}

impl ReconnectPolicy {
    pub fn new(max_retries: Option<u32>, backoff: u64) -> (r: ReconnectPolicy)
        ensures
            r == (ReconnectPolicy { max_retries, backoff }),
    {
        ReconnectPolicy { max_retries, backoff }
    }

    /// Check if an error is retriable (not a config or stop error).
    pub fn is_retriable(err: &Error) -> (r: bool)
        ensures
            r == may_pass(*err),
    {
        match err {
            Error::InvalidConfig(_) => false,
            Error::Stopped => false,
            _ => true,
        }
    }

    /// Whether so many failures are too many.
    pub open spec fn exhausted(self, retries: u32) -> bool {
        self.max_retries matches Some(max) && retries >= max
    }

    fn is_exhausted(&self, retries: u32) -> (r: bool)
        ensures
            r == self.exhausted(retries),
    {
        match self.max_retries {
            Some(max) => retries >= max,
            None => false,
        }
    }

    /// One part of a sleep until `deadline`. The deadline is absolute, so that a
    /// coarse timer cannot stretch the backoff.
    pub fn sleep_with_stop(now: u64, deadline: u64, is_stopped: bool) -> (r: BackoffStep)
        ensures
            r == if is_stopped {
                BackoffStep::Stopped
            } else if now >= deadline {
                BackoffStep::Over
            } else if deadline - now <= 50_000_000 {
                BackoffStep::Sleep((deadline - now) as u64)
            } else {
                BackoffStep::Sleep(50_000_000)
            },
    {
        if is_stopped {
            return BackoffStep::Stopped;
        }
        if now >= deadline {
            return BackoffStep::Over;
        }
        let remaining: u64 = deadline - now;
        if remaining <= BACKOFF_SLICE {
            BackoffStep::Sleep(remaining)
        } else {
            BackoffStep::Sleep(BACKOFF_SLICE)
        }
    }
}

/// Whether a device is lost again less than a backoff after it came back.
pub open spec fn flaps(last_reconnect: Option<u64>, now: u64, backoff: u64) -> bool {
    last_reconnect matches Some(t) && (if now >= t {
        now - t
    } else {
        0
    }) < backoff
}

/// Whether the first reconnect attempt should back off instead of firing
/// immediately: true when the previous reconnect completed less than `backoff`
/// ago (a flapping device that accepts the connection then dies immediately).
/// `None` (first ever reconnect) never delays.
pub fn is_flapping(last_reconnect: Option<u64>, now: u64, backoff: u64) -> (r: bool)
    ensures
        r == flaps(last_reconnect, now, backoff),
{
    match last_reconnect {
        Some(t) => now.saturating_sub(t) < backoff,
        None => false,
    }
}

/// One reconnect cycle.
#[derive(Clone, Copy, Debug, PartialEq, Eq, Structural)]
pub struct Reconnect {
    pub policy: ReconnectPolicy,
    /// Failed attempts.
    pub retries: u32,
    pub flapping: bool,
}

/// What to do before an attempt.
#[derive(Clone, Copy, Debug, PartialEq, Eq, Structural)]
pub enum AttemptStep {
    /// End the cycle.
    Exit(RunExit),
    /// Sleep for so long, unless a stop is requested, and then open the device.
    Backoff(u64),
    /// Open the device.
    Open,
}

/// What came of an attempt.
#[derive(Debug)]
pub enum AttemptOutcome {
    /// The device could not be opened.
    OpenFailed(Error),
    /// The device has no backend.
    NoBackend,
    /// The device is not the one that is wanted.
    Rejected(RunExit),
    /// The device could not be connected.
    ConnectFailed(Error),
    /// The device is connected.
    Connected,
}

/// What to do after an attempt.
#[derive(Clone, Copy, Debug, PartialEq, Eq, Structural)]
pub enum RetryStep {
    /// Try again.
    Again,
    /// End the cycle.
    Exit(RunExit),
    /// The device is back.
    Reconnected,
}

/// The count after one more failure.
pub open spec fn one_more(retries: u32) -> u32 {
    if retries == u32::MAX {
        retries
    } else {
        (retries + 1) as u32
    }
}

impl Reconnect {
    /// Start a cycle after a disconnect at `now`. `last_reconnect` is when the
    /// previous cycle succeeded.
    pub fn start(policy: ReconnectPolicy, last_reconnect: Option<u64>, now: u64) -> (r: Reconnect)
        ensures
            r == (Reconnect {
                policy,
                retries: 0,
                flapping: flaps(last_reconnect, now, policy.backoff),
            }),
    {
        Reconnect {
            policy,
            retries: 0,
            flapping: is_flapping(last_reconnect, now, policy.backoff),
        }
    }

    /// What comes before the next attempt.
    pub open spec fn attempt(self, is_stopped: bool) -> AttemptStep {
        if is_stopped {
            AttemptStep::Exit(RunExit::Stopped)
        } else if self.policy.exhausted(self.retries) {
            AttemptStep::Exit(RunExit::Disconnected)
        } else if self.retries > 0 || self.flapping {
            AttemptStep::Backoff(self.policy.backoff)
        } else {
            AttemptStep::Open
        }
    }

    /// Start an attempt. The first one is immediate, so that an instantly recoverable
    /// disconnect does not blank the output for a backoff; a flapping device waits
    /// even then.
    pub fn next_attempt(&self, is_stopped: bool) -> (r: AttemptStep)
        ensures
            r == self.attempt(is_stopped),
    {
        if is_stopped {
            return AttemptStep::Exit(RunExit::Stopped);
        }
        if self.policy.is_exhausted(self.retries) {
            return AttemptStep::Exit(RunExit::Disconnected);
        }
        if self.retries > 0 || self.flapping {
            AttemptStep::Backoff(self.policy.backoff)
        } else {
            AttemptStep::Open
        }
    }

    /// The backoff is over; `is_stopped` says whether a stop was requested.
    pub fn backed_off(&self, is_stopped: bool) -> (r: AttemptStep)
        ensures
            r == if is_stopped {
                AttemptStep::Exit(RunExit::Stopped)
            } else {
                AttemptStep::Open
            },
    {
        if is_stopped {
            AttemptStep::Exit(RunExit::Stopped)
        } else {
            AttemptStep::Open
        }
    }

    /// The end of an attempt: errors that may pass are counted, others end the cycle.
    pub open spec fn outcome(self, outcome: AttemptOutcome) -> (Reconnect, RetryStep) {
        let failed = Reconnect { retries: one_more(self.retries), ..self };
        match outcome {
            AttemptOutcome::Connected => (self, RetryStep::Reconnected),
            AttemptOutcome::Rejected(exit) => (self, RetryStep::Exit(exit)),
            AttemptOutcome::NoBackend => (failed, RetryStep::Again),
            AttemptOutcome::OpenFailed(e) => if may_pass(e) {
                (failed, RetryStep::Again)
            } else {
                (self, RetryStep::Exit(RunExit::Disconnected))
            },
            AttemptOutcome::ConnectFailed(e) => if may_pass(e) {
                (failed, RetryStep::Again)
            } else {
                (self, RetryStep::Exit(RunExit::Disconnected))
            },
        }
    }

    pub fn attempted(&mut self, outcome: AttemptOutcome) -> (r: RetryStep)
        ensures
            (*final(self), r) == old(self).outcome(outcome),
    {
        let retriable: bool = match &outcome {
            AttemptOutcome::Connected => return RetryStep::Reconnected,
            AttemptOutcome::Rejected(exit) => return RetryStep::Exit(*exit),
            AttemptOutcome::NoBackend => true,
            AttemptOutcome::OpenFailed(e) => ReconnectPolicy::is_retriable(e),
            AttemptOutcome::ConnectFailed(e) => ReconnectPolicy::is_retriable(e),
        };
        if !retriable {
            return RetryStep::Exit(RunExit::Disconnected);
        }
        self.retries = self.retries.saturating_add(1);
        RetryStep::Again
    }
}

/// The cycle after `n` attempts of which each ended like `failure`.
pub open spec fn after_failures(cycle: Reconnect, failure: AttemptOutcome, n: nat) -> Reconnect
    decreases n,
{
    if n == 0 {
        cycle
    } else {
        after_failures(cycle, failure, (n - 1) as nat).outcome(failure).0
    }
}

/// With a limit on the retries, a cycle whose attempts all fail makes as many
/// attempts as the limit says and then gives up. It waits before each attempt, the
/// first one excepted.
pub proof fn retries_are_bounded(
    policy: ReconnectPolicy,
    flapping: bool,
    failure: AttemptOutcome,
    max: u32,
    n: nat,
)
    requires
        policy.max_retries == Some(max),
        failure is OpenFailed ==> may_pass(failure->OpenFailed_0),
        failure is ConnectFailed ==> may_pass(failure->ConnectFailed_0),
        !(failure is Connected) && !(failure is Rejected),
        n <= max,
    ensures
        ({
            let cycle = after_failures(Reconnect { policy, retries: 0, flapping }, failure, n);
            &&& cycle.retries == n
            &&& n == max ==> cycle.attempt(false) == AttemptStep::Exit(RunExit::Disconnected)
            &&& n < max && (n > 0 || flapping) ==> cycle.attempt(false) == AttemptStep::Backoff(
                policy.backoff,
            )
            &&& n < max && n == 0 && !flapping ==> cycle.attempt(false) == AttemptStep::Open
        }),
    decreases n,
{
    if n > 0 {
        retries_are_bounded(policy, flapping, failure, max, (n - 1) as nat);
    }
    lemma_keeps_policy(Reconnect { policy, retries: 0, flapping }, failure, n);
}

proof fn lemma_keeps_policy(cycle: Reconnect, failure: AttemptOutcome, n: nat)
    ensures
        after_failures(cycle, failure, n).policy == cycle.policy,
        after_failures(cycle, failure, n).flapping == cycle.flapping,
    decreases n,
{
    if n > 0 {
        lemma_keeps_policy(cycle, failure, (n - 1) as nat);
    }
}

/// Without a limit on the retries, only a stop ends a cycle before its next attempt.
pub proof fn unlimited_retries_go_on(cycle: Reconnect)
    requires
        cycle.policy.max_retries is None,
    ensures
        !(cycle.attempt(false) is Exit),
        cycle.attempt(true) == AttemptStep::Exit(RunExit::Stopped),
{
}

/// Only a wrong configuration and a stop end a cycle; every other error is tried again,
/// and counted.
pub proof fn errors_are_tried_again(cycle: Reconnect, err: Error)
    ensures
        ({
            let last = err is InvalidConfig || err is Stopped;
            let opened = cycle.outcome(AttemptOutcome::OpenFailed(err));
            let connected = cycle.outcome(AttemptOutcome::ConnectFailed(err));
            &&& may_pass(err) <==> !last
            &&& opened == connected
            &&& last ==> opened.1 == RetryStep::Exit(RunExit::Disconnected) && opened.0 == cycle
            &&& !last ==> opened.1 is Again
            &&& !last && cycle.retries < u32::MAX ==> opened.0.retries == cycle.retries + 1
            &&& !last ==> opened.0.policy == cycle.policy && opened.0.flapping == cycle.flapping
            &&& cycle.outcome(AttemptOutcome::NoBackend).1 is Again
        }),
{
}

/// A device that is connected ends the cycle well, and one that is not wanted ends it with
/// the reason that was found.
pub proof fn cycle_ends_with_the_device(cycle: Reconnect, exit: RunExit)
    ensures
        cycle.outcome(AttemptOutcome::Connected).1 is Reconnected,
        cycle.outcome(AttemptOutcome::Connected).0 == cycle,
        cycle.outcome(AttemptOutcome::Rejected(exit)).1 == RetryStep::Exit(exit),
{
}

/// The first attempt is made at once, unless the device was back for less than a backoff
/// before it was lost again.
pub proof fn only_flapping_delays_first_attempt()
    ensures
        forall|policy: ReconnectPolicy, last: Option<u64>, now: u64, r: Reconnect|
            #[trigger] call_ensures(Reconnect::start, (policy, last, now), r) && (
            policy.max_retries matches Some(max) ==> max > 0) ==> {
                let step = r.attempt(false);
                &&& last is None ==> step is Open
                &&& last matches Some(t) ==> t <= now ==> (step is Open <==> now - t
                    >= policy.backoff)
                &&& !(step is Open) ==> step == AttemptStep::Backoff(policy.backoff)
                &&& r.retries == 0
                &&& r.policy == policy
            },
        forall|c: &Reconnect, stopped: bool, r: AttemptStep|
            #[trigger] call_ensures(Reconnect::backed_off, (c, stopped), r) ==> {
                &&& stopped ==> r == AttemptStep::Exit(RunExit::Stopped)
                &&& !stopped ==> r is Open
            },
{
}

/// A backoff looks for a stop every twentieth of a second, and ends at its deadline.
pub proof fn backoff_ends_at_deadline()
    ensures
        forall|now: u64, deadline: u64, stopped: bool, r: BackoffStep|
            #[trigger] call_ensures(ReconnectPolicy::sleep_with_stop, (now, deadline, stopped), r) ==> {
                &&& stopped <==> r is Stopped
                &&& !stopped && now >= deadline <==> r is Over
                &&& r matches BackoffStep::Sleep(ns) ==> {
                    &&& 0 < ns <= 50_000_000
                    &&& now + ns <= deadline
                    &&& ns == 50_000_000 || now + ns == deadline
                }
            },
{
}

/// The device with the wanted id is found wherever it stands, and the first of several;
/// without one the device counts as lost.
pub proof fn wanted_device_is_found()
    ensures
        forall|t: &ReconnectTarget, all: &[DiscoveredDeviceInfo], r: Result<usize, Error>|
            #[trigger] call_ensures(ReconnectTarget::open_device, (t, all), r) ==> {
                &&& r matches Ok(i) ==> i < all@.len() && all@[i as int].stable_id@ == t.device_id@
                &&& r matches Ok(i) ==> forall|j: int|
                    0 <= j < i ==> (#[trigger] all@[j]).stable_id@ != t.device_id@
                &&& r matches Err(e) ==> e is Disconnected
                &&& forall|j: int|
                    0 <= j < all@.len() && (#[trigger] all@[j]).stable_id@ == t.device_id@
                        ==> r is Ok
            },
{
    assert forall|t: &ReconnectTarget, all: &[DiscoveredDeviceInfo], r: Result<usize, Error>|
        #[trigger] call_ensures(ReconnectTarget::open_device, (t, all), r) && r is Err implies forall|
        j: int,
    | 0 <= j < all@.len() ==> (#[trigger] all@[j]).stable_id@ != t.device_id@ by {
        lemma_none_wanted((t, all), all@, t.device_id@, r);
    }
}

proof fn lemma_none_wanted(
    args: (&ReconnectTarget, &[DiscoveredDeviceInfo]),
    all: Seq<DiscoveredDeviceInfo>,
    device_id: Seq<char>,
    r: Result<usize, Error>,
)
    requires
        call_ensures(ReconnectTarget::open_device, args, r),
        r is Err,
        args.1@ == all,
        args.0.device_id@ == device_id,
    ensures
        forall|j: int| 0 <= j < all.len() ==> (#[trigger] all[j]).stable_id@ != device_id,
{
}

/// The steps of a cycle go by its policy and by what came of the attempts: a failure that
/// may pass counts, one that may not ends the cycle, and a success ends it too.
pub proof fn attempts_go_by_their_outcome()
    ensures
        forall|c: &mut Reconnect, o: AttemptOutcome, r: RetryStep| #[trigger]
            call_ensures(Reconnect::attempted, (c, o), r) ==> {
                &&& r is Reconnected <==> o is Connected
                &&& r is Again ==> c.retries < u32::MAX ==> final(c).retries == c.retries + 1
                &&& !(r is Again) ==> final(c).retries == c.retries
                &&& o is NoBackend ==> r is Again
                &&& o matches AttemptOutcome::Rejected(exit) ==> r == RetryStep::Exit(exit)
                &&& final(c).policy == c.policy
                &&& final(c).flapping == c.flapping
            },
        forall|c: &Reconnect, stopped: bool, r: AttemptStep| #[trigger]
            call_ensures(Reconnect::next_attempt, (c, stopped), r) ==> {
                &&& stopped <==> r == AttemptStep::Exit(RunExit::Stopped)
                &&& !stopped && c.policy.max_retries is None && c.retries > 0 ==> r
                    == AttemptStep::Backoff(c.policy.backoff)
                &&& !stopped && c.policy.max_retries is Some && c.retries
                    >= c.policy.max_retries->0 ==> r == AttemptStep::Exit(RunExit::Disconnected)
                &&& r is Open ==> c.retries == 0 && !c.flapping
            },
        forall|e: &Error, r: bool| #[trigger]
            call_ensures(ReconnectPolicy::is_retriable, (e,), r) ==> (!r <==> e is InvalidConfig
                || e is Stopped),
        forall|last: Option<u64>, now: u64, backoff: u64, r: bool| #[trigger]
            call_ensures(is_flapping, (last, now, backoff), r) ==> {
                &&& last is None ==> !r
                &&& last is Some && last->0 <= now ==> (r <==> now < last->0 + backoff)
            },
        forall|t: &ReconnectTarget, found: &DiscoveredDeviceInfo, caps: DacCapabilities, r: DacInfo|
            #[trigger] call_ensures(ReconnectTarget::opened_info, (t, found, caps), r) ==> r.id
                == t.device_id && r.name == found.name && r.kind == found.dac_type && r.caps == caps,
{
}

} // verus!
