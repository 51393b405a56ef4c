//! IDN streaming backend: the queue of the sender thread and its liveness checks.

use std::collections::VecDeque;

use vstd::prelude::*;

use crate::backend::WriteOutcome;
use crate::buffer_estimate::SoftwareDecayEstimator;
use crate::device::DacCapabilities;
use crate::error::Error;
use crate::protocols::idn::dac::stream::PointFormat;
use crate::protocols::idn::dac::{ServerInfo, ServiceInfo};
use crate::protocols::idn::default_capabilities;
use crate::protocols::idn::protocol::{
    ChannelMessageHeader, PacketHeader, PointExtended, PointXyrgbHighRes, PointXyrgbi,
    SampleChunkHeader, MAX_UDP_PAYLOAD,
};

verus! {

/// Chunks that may wait for the sender thread.
pub const IDN_WORKER_QUEUE_CAPACITY: usize = 8;

/// How often a data send is upgraded to an ACK request (or, while idle, a ping
/// is sent) to prove the device is still alive, in nanoseconds.
pub const ACK_CHECK_INTERVAL_NS: u64 = 500_000_000;

/// How long to wait for an ACK/ping response before counting it as a miss, in
/// nanoseconds.
pub const ACK_TIMEOUT_NS: u64 = 100_000_000;

/// Consecutive ACK/ping misses after which the device is considered dead.
pub const MAX_CONSECUTIVE_ACK_MISSES: u32 = 4;

/// Reachability check timeout used when connecting, in nanoseconds.
pub const CONNECT_PING_TIMEOUT_NS: u64 = 300_000_000;

/// Number of extra ping retries when connecting before giving up.
pub const CONNECT_PING_RETRIES: u32 = 2;

/// A chunk of converted points in the backend's selected wire format.
#[derive(Clone, Debug)]
pub enum ChunkPoints {
    Xyrgbi(Vec<PointXyrgbi>),
    HighRes(Vec<PointXyrgbHighRes>),
    Extended(Vec<PointExtended>),
}

impl ChunkPoints {
    /// How many points the chunk has.
    pub open spec fn count(self) -> nat {
        match self {
            ChunkPoints::Xyrgbi(v) => v@.len(),
            ChunkPoints::HighRes(v) => v@.len(),
            ChunkPoints::Extended(v) => v@.len(),
        }
    }

    pub fn len(&self) -> (r: usize)
        ensures
            r == self.count(),
    {
        match self {
            ChunkPoints::Xyrgbi(v) => v.len(),
            ChunkPoints::HighRes(v) => v.len(),
            ChunkPoints::Extended(v) => v.len(),
        }
    }
}

/// Points that wait for the sender thread, with the rate they play at.
#[derive(Clone, Debug)]
pub struct QueuedChunk {
    pub pps: u32,
    pub points: ChunkPoints,
}

/// What the backend tells the sender thread.
#[derive(Clone, Debug)]
pub enum WorkerCommand {
    Chunk(QueuedChunk),
    Stop,
    Shutdown,
}

/// Whether a chunk is ten dark points at the centre, in the given format.
pub open spec fn is_blank(chunk: QueuedChunk, pps: u32, format: PointFormat) -> bool {
    &&& chunk.pps == pps
    &&& match format {
        PointFormat::Xyrgbi => chunk.points matches ChunkPoints::Xyrgbi(v) && v@ == Seq::new(
            10,
            |i: int| PointXyrgbi { x: 0, y: 0, r: 0, g: 0, b: 0, i: 0 },
        ),
        PointFormat::XyrgbHighRes => chunk.points matches ChunkPoints::HighRes(v) && v@ == Seq::new(
            10,
            |i: int| PointXyrgbHighRes { x: 0, y: 0, r: 0, g: 0, b: 0 },
        ),
        PointFormat::Extended => chunk.points matches ChunkPoints::Extended(v) && v@ == Seq::new(
            10,
            |i: int|
                PointExtended { x: 0, y: 0, r: 0, g: 0, b: 0, i: 0, u1: 0, u2: 0, u3: 0, u4: 0 },
        ),
    }
}

/// A chunk that shows nothing.
pub fn blank_chunk(pps: u32, format: PointFormat) -> (r: QueuedChunk)
    ensures
        is_blank(r, pps, format),
        r.points.count() == 10,
{
    let points: ChunkPoints = match format {
        PointFormat::Xyrgbi => {
            let v: Vec<PointXyrgbi> = vec![PointXyrgbi { x: 0, y: 0, r: 0, g: 0, b: 0, i: 0 }; 10];
            assert(v@ =~= Seq::new(10, |i: int| PointXyrgbi { x: 0, y: 0, r: 0, g: 0, b: 0, i: 0 }));
            ChunkPoints::Xyrgbi(v)
        },
        PointFormat::XyrgbHighRes => {
            let v: Vec<PointXyrgbHighRes> = vec![
                PointXyrgbHighRes { x: 0, y: 0, r: 0, g: 0, b: 0 };
                10
            ];
            assert(v@ =~= Seq::new(10, |i: int| PointXyrgbHighRes { x: 0, y: 0, r: 0, g: 0, b: 0 }));
            ChunkPoints::HighRes(v)
        },
        PointFormat::Extended => {
            let v: Vec<PointExtended> = vec![
                PointExtended { x: 0, y: 0, r: 0, g: 0, b: 0, i: 0, u1: 0, u2: 0, u3: 0, u4: 0 };
                10
            ];
            assert(v@ =~= Seq::new(
                10,
                |i: int|
                    PointExtended {
                        x: 0,
                        y: 0,
                        r: 0,
                        g: 0,
                        b: 0,
                        i: 0,
                        u1: 0,
                        u2: 0,
                        u3: 0,
                        u4: 0,
                    },
            ));
            ChunkPoints::Extended(v)
        },
    };
    QueuedChunk { pps, points }
}

/// Carry out a command on the queue. A stop replaces the backlog by a blank
/// chunk. Returns `false` if the thread is to end.
pub fn handle_worker_command(
    cmd: WorkerCommand,
    queue: &mut VecDeque<QueuedChunk>,
    last_pps: u32,
    point_format: PointFormat,
) -> (r: bool)
    ensures
        match cmd {
            WorkerCommand::Chunk(chunk) => r && final(queue)@ == old(queue)@.push(chunk),
            WorkerCommand::Stop => r && final(queue)@.len() == 1 && is_blank(
                final(queue)@[0],
                last_pps,
                point_format,
            ),
            WorkerCommand::Shutdown => !r && final(queue)@ == old(queue)@,
        },
{
    match cmd {
        WorkerCommand::Chunk(chunk) => {
            queue.push_back(chunk);
            true
        },
        WorkerCommand::Stop => {
            queue.clear();
            queue.push_back(blank_chunk(last_pps, point_format));
            true
        },
        WorkerCommand::Shutdown => false,
    }
}

/// Whether a liveness (ACK/ping) check is due.
pub open spec fn liveness_due(last_ack_check: Option<u64>, misses: u32, now_ns: u64) -> bool {
    misses > 0 || match last_ack_check {
        None => true,
        Some(t) => now_ns - t >= 500_000_000,
    }
}

/// Whether a liveness (ACK/ping) check is due: once misses start, every
/// opportunity is probed so that a dead device is detected quickly; otherwise
/// at most one per [`ACK_CHECK_INTERVAL_NS`].
pub fn liveness_check_due(last_ack_check: Option<u64>, misses: u32, now_ns: u64) -> (r: bool)
    ensures
        r == liveness_due(last_ack_check, misses, now_ns),
{
    if misses > 0 {
        return true;
    }
    match last_ack_check {
        None => true,
        Some(t) => now_ns >= t && now_ns - t >= ACK_CHECK_INTERVAL_NS,
    }
}

/// The state of the sender thread.
pub struct Worker {
    pub queue: VecDeque<QueuedChunk>,
    pub last_pps: u32,
    pub point_format: PointFormat,
    pub last_ack_check: Option<u64>,
    pub misses: u32,
}

/// What the sender thread does next.
pub enum WorkerStep {
    /// Set the scan speed, send the chunk and report what came of it.
    Send { chunk: QueuedChunk, with_ack: bool },
    /// Wait for a command, for as long as the keepalive interval.
    Wait,
}

/// What the sender thread does when no command has come for a while.
#[derive(Clone, Copy, Debug, PartialEq, Eq, Structural)]
pub enum IdleStep {
    /// Send a keepalive and report to [`Worker::keepalive_result`].
    Keepalive,
    /// Ping the server and report to [`Worker::probe_result`].
    Probe,
    /// Go on waiting.
    Rest,
    /// End the thread.
    End,
}

impl Worker {
    /// The device has missed fewer checks in a row than it may.
    pub open spec fn alive(self) -> bool {
        self.misses < MAX_CONSECUTIVE_ACK_MISSES
    }

    pub fn new(scan_speed: u32, point_format: PointFormat) -> (r: Worker)
        ensures
            r.queue@.len() == 0,
            r.last_pps == scan_speed,
            r.point_format == point_format,
            r.last_ack_check is None,
            r.misses == 0,
            r.alive(),
    {
        Worker {
            queue: VecDeque::new(),
            last_pps: scan_speed,
            point_format,
            last_ack_check: None,
            misses: 0,
        }
    }

    /// Carry out a command. Returns `false` if the thread is to end.
    pub fn command(&mut self, cmd: WorkerCommand) -> (r: bool)
        ensures
            match cmd {
                WorkerCommand::Chunk(chunk) => r && final(self).queue@ == old(self).queue@.push(
                    chunk,
                ),
                WorkerCommand::Stop => r && final(self).queue@.len() == 1 && is_blank(
                    final(self).queue@[0],
                    old(self).last_pps,
                    old(self).point_format,
                ),
                WorkerCommand::Shutdown => !r && final(self).queue@ == old(self).queue@,
            },
            final(self).last_pps == old(self).last_pps,
            final(self).point_format == old(self).point_format,
            final(self).last_ack_check == old(self).last_ack_check,
            final(self).misses == old(self).misses,
    {
        let last_pps: u32 = self.last_pps;
        let point_format = self.point_format;
        handle_worker_command(cmd, &mut self.queue, last_pps, point_format)
    }

    /// Take the next chunk, if one waits. The backlog is sent without pauses; a
    /// send asks for an acknowledgment when a liveness check is due.
    pub fn next_step(&mut self, now_ns: u64) -> (r: WorkerStep)
        ensures
            match r {
                WorkerStep::Send { chunk, with_ack } => {
                    &&& old(self).queue@.len() > 0
                    &&& chunk == old(self).queue@[0]
                    &&& final(self).queue@ == old(self).queue@.skip(1)
                    &&& final(self).last_pps == chunk.pps
                    &&& with_ack == liveness_due(
                        old(self).last_ack_check,
                        old(self).misses,
                        now_ns,
                    )
                    &&& final(self).last_ack_check == (if with_ack {
                        Some(now_ns)
                    } else {
                        old(self).last_ack_check
                    })
                    &&& final(self).misses == old(self).misses
                    &&& final(self).point_format == old(self).point_format
                },
                WorkerStep::Wait => old(self).queue@.len() == 0 && *final(self) == *old(self),
            },
    {
        if self.queue.len() == 0 {
            return WorkerStep::Wait;
        }
        let chunk: QueuedChunk = self.queue.pop_front().unwrap();
        assert(self.queue@ =~= old(self).queue@.skip(1));
        self.last_pps = chunk.pps;
        let with_ack: bool = liveness_check_due(self.last_ack_check, self.misses, now_ns);
        if with_ack {
            self.last_ack_check = Some(now_ns);
        }
        WorkerStep::Send { chunk, with_ack }
    }

    /// Note what came of a send. Returns `false` if the thread is to end: a send
    /// failed, or an acknowledgment was missed once too often.
    pub fn send_result(&mut self, with_ack: bool, ok: bool) -> (r: bool)
        requires
            old(self).alive(),
        ensures
            r == (if with_ack { final(self).alive() } else { ok }),
            final(self).misses == (if !with_ack {
                old(self).misses
            } else if ok {
                0
            } else {
                (old(self).misses + 1) as u32
            }),
            *final(self) == (Worker { misses: final(self).misses, ..*old(self) }),
    {
        if with_ack {
            self.probe_result(ok)
        } else {
            ok
        }
    }

    /// Whether the idle connection is to be pinged now; if so, the check counts
    /// as made.
    pub fn idle_probe_due(&mut self, now_ns: u64) -> (r: bool)
        ensures
            r == liveness_due(old(self).last_ack_check, old(self).misses, now_ns),
            *final(self) == (Worker {
                last_ack_check: if r { Some(now_ns) } else { old(self).last_ack_check },
                ..*old(self)
            }),
    {
        if liveness_check_due(self.last_ack_check, self.misses, now_ns) {
            self.last_ack_check = Some(now_ns);
            true
        } else {
            false
        }
    }

    /// What an idle connection needs, apart from a keepalive: a ping where a liveness
    /// check is due.
    pub open spec fn idle_check(self, now_ns: u64) -> IdleStep {
        if liveness_due(self.last_ack_check, self.misses, now_ns) {
            IdleStep::Probe
        } else {
            IdleStep::Rest
        }
    }

    /// The worker once that is under way.
    pub open spec fn checked(self, step: IdleStep, now_ns: u64) -> Worker {
        Worker {
            last_ack_check: if step is Probe {
                Some(now_ns)
            } else {
                self.last_ack_check
            },
            ..self
        }
    }

    /// No command has come. A link that needs a keepalive gets it first.
    pub fn timed_out(&mut self, needs_keepalive: bool, now_ns: u64) -> (r: IdleStep)
        ensures
            r == if needs_keepalive {
                IdleStep::Keepalive
            } else {
                old(self).idle_check(now_ns)
            },
            *final(self) == old(self).checked(r, now_ns),
    {
        if needs_keepalive {
            IdleStep::Keepalive
        } else if self.idle_probe_due(now_ns) {
            IdleStep::Probe
        } else {
            IdleStep::Rest
        }
    }

    /// Whether the keepalive could be sent; if it could not, the thread is to end.
    pub fn keepalive_result(&mut self, ok: bool, now_ns: u64) -> (r: IdleStep)
        ensures
            r == if ok {
                old(self).idle_check(now_ns)
            } else {
                IdleStep::End
            },
            *final(self) == old(self).checked(r, now_ns),
    {
        if !ok {
            IdleStep::End
        } else {
            self.timed_out(false, now_ns)
        }
    }

    /// Note the outcome of a liveness check. Returns `false` if the device has
    /// missed too many in a row.
    pub fn probe_result(&mut self, ok: bool) -> (r: bool)
        requires
            old(self).alive(),
        ensures
            r == final(self).alive(),
            final(self).misses == (if ok { 0 } else { (old(self).misses + 1) as u32 }),
            *final(self) == (Worker { misses: final(self).misses, ..*old(self) }),
    {
        if ok {
            self.misses = 0;
            true
        } else {
            self.misses += 1;
            self.misses < MAX_CONSECUTIVE_ACK_MISSES
        }
    }
}

/// Misses after a row of checks.
pub open spec fn misses_after(misses: int, outcomes: Seq<bool>) -> int
    decreases outcomes.len(),
{
    if outcomes.len() == 0 {
        misses
    } else if outcomes.last() {
        0
    } else {
        misses_after(misses, outcomes.drop_last()) + 1
    }
}

/// A device that answers none of the permitted number of checks in a row is
/// given up, whatever was missed before; one that answers a check is not.
pub proof fn silent_device_is_given_up(misses: int, outcomes: Seq<bool>)
    requires
        misses >= 0,
        outcomes.len() > 0,
    ensures
        outcomes.last() ==> misses_after(misses, outcomes) < MAX_CONSECUTIVE_ACK_MISSES,
        outcomes.len() >= MAX_CONSECUTIVE_ACK_MISSES && (forall|i: int|
            0 <= i < outcomes.len() ==> !outcomes[i]) ==> misses_after(misses, outcomes)
            >= MAX_CONSECUTIVE_ACK_MISSES,
{
    if outcomes.len() >= 4 && (forall|i: int| 0 <= i < outcomes.len() ==> !outcomes[i]) {
        lemma_all_missed(misses, outcomes);
    }
}

proof fn lemma_all_missed(misses: int, outcomes: Seq<bool>)
    requires
        forall|i: int| 0 <= i < outcomes.len() ==> !outcomes[i],
    ensures
        misses_after(misses, outcomes) == misses + outcomes.len(),
    decreases outcomes.len(),
{
    if outcomes.len() > 0 {
        lemma_all_missed(misses, outcomes.drop_last());
    }
}

/// Points that fit in one MTU-sized datagram (without a config header) for a
/// given format.
pub fn max_points_per_chunk_for(format: PointFormat) -> (r: usize)
    ensures
        r == (1454 - 16) / format.size(),
{
    let header: usize = PacketHeader::SIZE_BYTES + ChannelMessageHeader::SIZE_BYTES
        + SampleChunkHeader::SIZE_BYTES;
    (MAX_UDP_PAYLOAD - header) / format.size_bytes()
}

/// IDN DAC backend (ILDA Digital Network).
pub struct IdnBackend {
    pub server: ServerInfo,
    pub service: ServiceInfo,
    pub caps: DacCapabilities,
    /// Wire point format that is selected.
    pub point_format: PointFormat,
    /// Wire point format of the connection, if there is one.
    pub live_format: Option<PointFormat>,
    /// What waits for output, by what was sent.
    pub estimator: SoftwareDecayEstimator,
}

/// What became of a chunk that was offered to the sender thread.
#[derive(Clone, Copy, Debug, PartialEq, Eq, Structural)]
pub enum OfferOutcome {
    Queued,
    /// The queue of the thread is full.
    Full,
    /// The thread has ended.
    Closed,
}

/// The pings that show that a server answers before it counts as connected: a plain
/// UDP connect always succeeds, and a dead address would be streamed to.
#[derive(Clone, Copy, Debug, PartialEq, Eq, Structural)]
pub struct ConnectProbe {
    /// Pings that may still be sent after the one under way.
    pub retries_left: u32,
}

/// What to do after a ping.
#[derive(Debug)]
pub enum ConnectStep {
    /// The server answers.
    Reachable,
    /// Ping again.
    Again,
    /// The server does not answer.
    Failed(Error),
}

impl ConnectProbe {
    /// Start with the first ping.
    pub fn start() -> (r: ConnectProbe)
        ensures
            r.retries_left == 2,
    {
        ConnectProbe { retries_left: CONNECT_PING_RETRIES }
    }

    /// The outcome of a ping.
    pub fn pinged(&mut self, answered: bool) -> (r: ConnectStep)
        ensures
            answered ==> r is Reachable && *final(self) == *old(self),
            !answered && old(self).retries_left > 0 ==> r is Again && final(self).retries_left
                == old(self).retries_left - 1,
            !answered && old(self).retries_left == 0 ==> *final(self) == *old(self) && (
            r matches ConnectStep::Failed(Error::Disconnected(m)) && m@
                == "IDN server did not respond to ping at connect"@),
    {
        if answered {
            return ConnectStep::Reachable;
        }
        if self.retries_left > 0 {
            self.retries_left = self.retries_left - 1;
            ConnectStep::Again
        } else {
            ConnectStep::Failed(
                Error::disconnected("IDN server did not respond to ping at connect"),
            )
        }
    }
}

impl IdnBackend {
    pub fn new(server: ServerInfo, service: ServiceInfo) -> (r: IdnBackend)
        ensures
            r.server == server,
            r.service == service,
            r.caps.pps_min == 1,
            r.caps.pps_max == 100_000,
            r.caps.max_points_per_chunk == 179,
            r.caps.output_model == crate::device::OutputModel::UdpTimed,
            r.point_format == PointFormat::Xyrgbi,
            r.live_format is None,
            r.estimator.wf(),
            r.estimator == (SoftwareDecayEstimator { scheduled: 0, fraction: 0, last: 0, pps: 0 }),
    {
        IdnBackend {
            server,
            service,
            caps: default_capabilities(),
            point_format: PointFormat::Xyrgbi,
            live_format: None,
            estimator: SoftwareDecayEstimator::new(0),
        }
    }

    /// Offer points to the sender thread, if there is one and it has not given up.
    /// What comes back goes to the thread.
    pub fn try_write_points(
        &self,
        has_runtime: bool,
        connected: bool,
        pps: u32,
        points: ChunkPoints,
    ) -> (r: Result<WorkerCommand, Error>)
        ensures
            r is Ok <==> has_runtime && connected,
            r matches Ok(cmd) ==> cmd == WorkerCommand::Chunk(QueuedChunk { pps, points }),
            r matches Err(e) ==> (e matches Error::Disconnected(m) && m@ == if has_runtime {
                "IDN sender thread disconnected"@
            } else {
                "Not connected"@
            }),
    {
        match check_connected(has_runtime, connected) {
            Ok(()) => Ok(WorkerCommand::Chunk(QueuedChunk { pps, points })),
            Err(e) => Err(e),
        }
    }

    /// What became of `n` points that were offered.
    pub fn write_finished(&mut self, outcome: OfferOutcome, n: u64, pps: u32, now_ns: u64) -> (r: Result<
        WriteOutcome,
        Error,
    >)
        requires
            old(self).estimator.wf(),
            old(self).estimator.scheduled + n <= u64::MAX,
        ensures
            final(self).estimator.wf(),
            final(self).estimator == if outcome is Queued {
                old(self).estimator.after_send(now_ns, n, pps)
            } else {
                old(self).estimator
            },
            *final(self) == (IdnBackend { estimator: final(self).estimator, ..*old(self) }),
            match outcome {
                OfferOutcome::Queued => r == Ok::<WriteOutcome, Error>(WriteOutcome::Written),
                OfferOutcome::Full => r == Ok::<WriteOutcome, Error>(WriteOutcome::WouldBlock),
                OfferOutcome::Closed => r matches Err(Error::Disconnected(m)) && m@
                    == "IDN sender thread disconnected"@,
            },
    {
        match outcome {
            OfferOutcome::Queued => {
                self.estimator.record_send(now_ns, n, pps);
                Ok(WriteOutcome::Written)
            },
            OfferOutcome::Full => Ok(WriteOutcome::WouldBlock),
            OfferOutcome::Closed => Err(Error::disconnected("IDN sender thread disconnected")),
        }
    }

    /// Nothing waits for output any more: it was stopped.
    pub fn forget_output(&mut self, now_ns: u64)
        ensures
            final(self).estimator.wf(),
            *final(self) == (IdnBackend { estimator: old(self).idle_since(now_ns), ..*old(self) }),
    {
        self.estimator.reset(now_ns);
    }

    /// The estimate once nothing waits.
    pub open spec fn idle_since(self, now_ns: u64) -> SoftwareDecayEstimator {
        SoftwareDecayEstimator { scheduled: 0, fraction: 0, last: now_ns, ..self.estimator }
    }

    /// The capabilities, with as many points in a chunk as fit in the format.
    pub open spec fn caps_in(self, format: PointFormat) -> DacCapabilities {
        DacCapabilities {
            max_points_per_chunk: ((1454 - 16) / format.size()) as usize,
            ..self.caps
        }
    }

    /// A connection was made, in the format that is selected. Nothing waits for output
    /// on it.
    pub fn connected(&mut self, now_ns: u64)
        ensures
            final(self).estimator.wf(),
            *final(self) == (IdnBackend {
                live_format: Some(old(self).point_format),
                caps: old(self).caps_in(old(self).point_format),
                estimator: old(self).idle_since(now_ns),
                ..*old(self)
            }),
    {
        self.live_format = Some(self.point_format);
        self.caps.max_points_per_chunk = max_points_per_chunk_for(self.point_format);
        self.estimator.reset(now_ns);
    }

    /// The connection is gone. What was selected while it stood holds from now on.
    pub fn disconnected(&mut self, now_ns: u64)
        ensures
            final(self).estimator.wf(),
            *final(self) == (IdnBackend {
                live_format: None,
                caps: old(self).caps_in(old(self).point_format),
                estimator: old(self).idle_since(now_ns),
                ..*old(self)
            }),
    {
        self.live_format = None;
        self.caps.max_points_per_chunk = max_points_per_chunk_for(self.point_format);
        self.estimator.reset(now_ns);
    }

    /// Select the wire point format for streaming. The chunk size follows the
    /// size of a sample. A connection that stands keeps its format and its chunk size;
    /// the next one has the new format.
    pub fn set_point_format(&mut self, format: PointFormat)
        ensures
            *final(self) == (IdnBackend {
                point_format: format,
                caps: if old(self).live_format is Some {
                    old(self).caps
                } else {
                    old(self).caps_in(format)
                },
                ..*old(self)
            }),
    {
        self.point_format = format;
        if self.live_format.is_none() {
            self.caps.max_points_per_chunk = max_points_per_chunk_for(format);
        }
    }

    /// The format that points are sent in: the connection's, or else the selected one.
    pub fn wire_format(&self) -> (r: PointFormat)
        ensures
            r == match self.live_format {
                Some(format) => format,
                None => self.point_format,
            },
    {
        match self.live_format {
            Some(format) => format,
            None => self.point_format,
        }
    }

    /// The currently selected wire point format.
    pub fn point_format(&self) -> (r: PointFormat)
        ensures
            r == self.point_format,
    {
        self.point_format
    }
}

/// Whether points can be handed to the sender thread: there is one, and it has
/// not given up.
pub fn check_connected(has_runtime: bool, connected: bool) -> (r: Result<(), Error>)
    ensures
        match r {
            Ok(_) => has_runtime && connected,
            Err(e) => !(has_runtime && connected) && (e matches Error::Disconnected(m) && m@ == (
            if has_runtime {
                "IDN sender thread disconnected"@
            } else {
                "Not connected"@
            })),
        },
{
    if !has_runtime {
        return Err(Error::disconnected("Not connected"));
    }
    if !connected {
        return Err(Error::disconnected("IDN sender thread disconnected"));
    }
    Ok(())
}

/// A blank chunk shows nothing: ten points at the centre, dark in every channel, at the
/// rate and in the format that were asked for.
pub proof fn blank_chunk_is_dark()
    ensures
        forall|pps: u32, format: PointFormat, r: QueuedChunk| #[trigger]
            call_ensures(blank_chunk, (pps, format), r) ==> {
                &&& r.pps == pps
                &&& match r.points {
                    ChunkPoints::Xyrgbi(v) => {
                        &&& format == PointFormat::Xyrgbi
                        &&& v@.len() == 10
                        &&& forall|i: int|
                            0 <= i < 10 ==> {
                                let p = #[trigger] v@[i];
                                p.x == 0 && p.y == 0 && p.r == 0 && p.g == 0 && p.b == 0 && p.i == 0
                            }
                    },
                    ChunkPoints::HighRes(v) => {
                        &&& format == PointFormat::XyrgbHighRes
                        &&& v@.len() == 10
                        &&& forall|i: int|
                            0 <= i < 10 ==> {
                                let p = #[trigger] v@[i];
                                p.x == 0 && p.y == 0 && p.r == 0 && p.g == 0 && p.b == 0
                            }
                    },
                    ChunkPoints::Extended(v) => {
                        &&& format == PointFormat::Extended
                        &&& v@.len() == 10
                        &&& forall|i: int|
                            0 <= i < 10 ==> {
                                let p = #[trigger] v@[i];
                                &&& p.x == 0 && p.y == 0 && p.r == 0 && p.g == 0 && p.b == 0
                                &&& p.i == 0 && p.u1 == 0 && p.u2 == 0 && p.u3 == 0 && p.u4 == 0
                            }
                    },
                }
            },
{
}

/// Chunks are sent in the order in which they came, each at its own rate; a stop puts one
/// chunk of the last rate in place of all that wait; only a shutdown ends the thread.
pub proof fn chunks_are_sent_in_order()
    ensures
        forall|w: &mut Worker, c: WorkerCommand, r: bool| #[trigger]
            call_ensures(Worker::command, (w, c), r) ==> {
                &&& r <==> !(c is Shutdown)
                &&& c matches WorkerCommand::Chunk(chunk) ==> final(w).queue@.drop_last() == w.queue@
                    && final(w).queue@.last() == chunk
                &&& c is Stop ==> final(w).queue@.len() == 1 && final(w).queue@[0].pps == w.last_pps
                    && final(w).queue@[0].points.count() == 10
                &&& c is Shutdown ==> final(w).queue@ == w.queue@
                &&& final(w).last_pps == w.last_pps
                &&& final(w).misses == w.misses
                &&& final(w).last_ack_check == w.last_ack_check
            },
        forall|w: &mut Worker, now_ns: u64, r: WorkerStep| #[trigger]
            call_ensures(Worker::next_step, (w, now_ns), r) ==> match r {
                WorkerStep::Send { chunk, .. } => seq![chunk] + final(w).queue@ == w.queue@
                    && final(w).last_pps == chunk.pps && final(w).misses == w.misses
                    && final(w).point_format == w.point_format,
                WorkerStep::Wait => w.queue@.len() == 0 && final(w).queue@.len() == 0
                    && final(w).last_pps == w.last_pps,
            },
{
    assert forall|w: &mut Worker, now_ns: u64, r: WorkerStep| #[trigger]
        call_ensures(Worker::next_step, (w, now_ns), r) implies match r {
        WorkerStep::Send { chunk, .. } => seq![chunk] + final(w).queue@ == w.queue@
            && final(w).last_pps == chunk.pps && final(w).misses == w.misses
            && final(w).point_format == w.point_format,
        WorkerStep::Wait => w.queue@.len() == 0 && final(w).queue@.len() == 0 && final(w).last_pps
            == w.last_pps,
    } by {
        if let WorkerStep::Send { chunk, with_ack } = r {
            assert(seq![chunk] + final(w).queue@ =~= w.queue@);
        }
    }
}

/// A device that answers is checked once in half a second, by the next chunk or by a ping;
/// one that has missed a check is checked at every chance. A check that is made starts
/// the half second anew.
pub proof fn checks_are_spaced()
    ensures
        forall|w: &mut Worker, now_ns: u64, r: WorkerStep| #[trigger]
            call_ensures(Worker::next_step, (w, now_ns), r) ==> (r matches WorkerStep::Send {
                with_ack,
                ..
            } ==> {
                &&& with_ack <==> w.misses > 0 || w.last_ack_check is None || now_ns
                    >= w.last_ack_check->0 + 500_000_000
                &&& final(w).last_ack_check == if with_ack {
                    Some(now_ns)
                } else {
                    w.last_ack_check
                }
            }),
        forall|w: &mut Worker, keepalive: bool, now_ns: u64, r: IdleStep| #[trigger]
            call_ensures(Worker::timed_out, (w, keepalive, now_ns), r) ==> {
                let due = w.misses > 0 || w.last_ack_check is None || now_ns
                    >= w.last_ack_check->0 + 500_000_000;
                &&& r is Keepalive <==> keepalive
                &&& r is Probe <==> !keepalive && due
                &&& r is Rest <==> !keepalive && !due
                &&& final(w).last_ack_check == if r is Probe {
                    Some(now_ns)
                } else {
                    w.last_ack_check
                }
                &&& final(w).misses == w.misses
                &&& final(w).queue@ == w.queue@
            },
        forall|w: &mut Worker, ok: bool, now_ns: u64, r: IdleStep| #[trigger]
            call_ensures(Worker::keepalive_result, (w, ok, now_ns), r) ==> {
                let due = w.misses > 0 || w.last_ack_check is None || now_ns
                    >= w.last_ack_check->0 + 500_000_000;
                &&& r is End <==> !ok
                &&& r is Probe <==> ok && due
                &&& r is Rest <==> ok && !due
                &&& final(w).last_ack_check == if r is Probe {
                    Some(now_ns)
                } else {
                    w.last_ack_check
                }
                &&& final(w).misses == w.misses
                &&& final(w).queue@ == w.queue@
            },
{
}

/// An answer clears the misses, and the thread ends with the fourth miss in a row. A chunk
/// that asks for no answer counts neither way, and ends the thread if it cannot be sent.
pub proof fn fourth_miss_ends_the_thread()
    ensures
        forall|w: &mut Worker, ok: bool, r: bool| #[trigger]
            call_ensures(Worker::probe_result, (w, ok), r) && w.misses < 4 ==> {
                &&& r <==> ok || w.misses + 1 < 4
                &&& ok ==> final(w).misses == 0
                &&& !ok ==> final(w).misses == w.misses + 1
                &&& final(w).queue@ == w.queue@
                &&& final(w).last_ack_check == w.last_ack_check
            },
        forall|w: &mut Worker, with_ack: bool, ok: bool, r: bool| #[trigger]
            call_ensures(Worker::send_result, (w, with_ack, ok), r) && w.misses < 4 ==> {
                &&& r <==> ok || (with_ack && w.misses + 1 < 4)
                &&& !with_ack ==> final(w).misses == w.misses
                &&& with_ack && ok ==> final(w).misses == 0
                &&& with_ack && !ok ==> final(w).misses == w.misses + 1
                &&& final(w).queue@ == w.queue@
                &&& final(w).last_ack_check == w.last_ack_check
            },
{
}

/// A chunk holds as many points as a packet has room for behind its headers, of eight,
/// ten or twenty bytes each, and not one more.
pub proof fn chunk_fills_a_packet()
    ensures
        forall|format: PointFormat, r: usize| #[trigger]
            call_ensures(max_points_per_chunk_for, (format,), r) ==> match format {
                PointFormat::Xyrgbi => 16 + 8 * r <= 1454 < 16 + 8 * (r + 1),
                PointFormat::XyrgbHighRes => 16 + 10 * r <= 1454 < 16 + 10 * (r + 1),
                PointFormat::Extended => 16 + 20 * r <= 1454 < 16 + 20 * (r + 1),
            },
{
}

/// A format that is selected holds from the next connection on: one that stands keeps its
/// format and its chunk size. Without a connection the chunk size follows at once.
pub proof fn connection_keeps_its_format()
    ensures
        forall|b: &mut IdnBackend, format: PointFormat| #[trigger]
            call_ensures(IdnBackend::set_point_format, (b, format), ()) ==> {
                &&& final(b).point_format == format
                &&& final(b).live_format == b.live_format
                &&& b.live_format is Some ==> final(b).caps == b.caps
                &&& b.live_format is None ==> 16 + format.size()
                    * final(b).caps.max_points_per_chunk <= 1454 < 16 + format.size() * (final(b).caps.max_points_per_chunk + 1)
                &&& final(b).caps.pps_max == b.caps.pps_max
                &&& final(b).estimator == b.estimator
            },
        forall|b: &mut IdnBackend, now_ns: u64| #[trigger]
            call_ensures(IdnBackend::connected, (b, now_ns), ()) ==> {
                &&& final(b).live_format == Some(b.point_format)
                &&& final(b).point_format == b.point_format
                &&& 16 + b.point_format.size() * final(b).caps.max_points_per_chunk <= 1454
                &&& 1454 < 16 + b.point_format.size() * (final(b).caps.max_points_per_chunk + 1)
                &&& final(b).estimator.scheduled == 0
                &&& final(b).estimator.last == now_ns
            },
        forall|b: &mut IdnBackend, now_ns: u64| #[trigger]
            call_ensures(IdnBackend::disconnected, (b, now_ns), ()) ==> {
                &&& final(b).live_format is None
                &&& final(b).point_format == b.point_format
                &&& 16 + b.point_format.size() * final(b).caps.max_points_per_chunk <= 1454
                &&& 1454 < 16 + b.point_format.size() * (final(b).caps.max_points_per_chunk + 1)
                &&& final(b).estimator.scheduled == 0
                &&& final(b).estimator.last == now_ns
            },
        forall|b: &IdnBackend, r: PointFormat| #[trigger]
            call_ensures(IdnBackend::wire_format, (b,), r) ==> {
                &&& b.live_format is None ==> r == b.point_format
                &&& b.live_format is Some ==> b.live_format == Some(r)
            },
{
    assert forall|b: &mut IdnBackend, format: PointFormat| #[trigger]
        call_ensures(IdnBackend::set_point_format, (b, format), ()) implies (b.live_format is None
        ==> 16 + format.size() * final(b).caps.max_points_per_chunk <= 1454 < 16 + format.size() * (
    final(b).caps.max_points_per_chunk + 1)) by {
        lemma_room(format);
    }
    assert forall|b: &mut IdnBackend, now_ns: u64| #[trigger]
        call_ensures(IdnBackend::connected, (b, now_ns), ()) implies (16 + b.point_format.size()
        * final(b).caps.max_points_per_chunk <= 1454 < 16 + b.point_format.size() * (final(b).caps.max_points_per_chunk + 1)) by {
        lemma_room(b.point_format);
    }
    assert forall|b: &mut IdnBackend, now_ns: u64| #[trigger]
        call_ensures(IdnBackend::disconnected, (b, now_ns), ()) implies (16 + b.point_format.size()
        * final(b).caps.max_points_per_chunk <= 1454 < 16 + b.point_format.size() * (final(b).caps.max_points_per_chunk + 1)) by {
        lemma_room(b.point_format);
    }
}

proof fn lemma_room(format: PointFormat)
    ensures
        ({
            let n = ((1454 - 16) / format.size()) as usize;
            16 + format.size() * n <= 1454 < 16 + format.size() * (n + 1)
        }),
{
}

/// Only points that the thread has taken wait for output; a full queue takes none, and an
/// ended thread means that the device is lost.
pub proof fn only_queued_points_wait()
    ensures
        forall|b: &mut IdnBackend, outcome: OfferOutcome, n: u64, pps: u32, now_ns: u64, r: Result<
            WriteOutcome,
            Error,
        >| #[trigger]
            call_ensures(IdnBackend::write_finished, (b, outcome, n, pps, now_ns), r)
                && b.estimator.wf() && b.estimator.scheduled + n <= u64::MAX ==> {
                &&& outcome is Queued <==> r == Ok::<WriteOutcome, Error>(WriteOutcome::Written)
                &&& outcome is Full <==> r == Ok::<WriteOutcome, Error>(WriteOutcome::WouldBlock)
                &&& outcome is Closed <==> r is Err
                &&& !(outcome is Queued) ==> final(b).estimator == b.estimator
                &&& outcome is Queued ==> final(b).estimator == b.estimator.after_send(now_ns, n, pps)
                &&& final(b).live_format == b.live_format
                &&& final(b).caps == b.caps
            },
        forall|b: &IdnBackend, has_runtime: bool, connected: bool, pps: u32, points: ChunkPoints, r:
            Result<WorkerCommand, Error>| #[trigger]
            call_ensures(
                IdnBackend::try_write_points,
                (b, has_runtime, connected, pps, points),
                r,
            ) ==> {
                &&& r is Ok <==> has_runtime && connected
                &&& r matches Ok(cmd) ==> (cmd matches WorkerCommand::Chunk(c) && c.pps == pps
                    && c.points == points)
                &&& r matches Err(e) ==> e is Disconnected
            },
{
}

/// A server that answers none of three pings is not connected to; one that answers any of
/// them is.
pub proof fn three_pings_are_tried()
    ensures
        forall|p: ConnectProbe| #[trigger]
            call_ensures(ConnectProbe::start, (), p) ==> p.retries_left + 1 == 3,
        forall|p: &mut ConnectProbe, answered: bool, r: ConnectStep| #[trigger]
            call_ensures(ConnectProbe::pinged, (p, answered), r) ==> {
                &&& r is Reachable <==> answered
                &&& r is Again <==> !answered && p.retries_left > 0
                &&& r is Again ==> final(p).retries_left + 1 == p.retries_left
                &&& r is Failed ==> r->0 is Disconnected
            },
{
}

} // verus!
