//! LaserCube WiFi DAC streaming backend.

use vstd::prelude::*;

use crate::backend::WriteOutcome;
use crate::device::{DacCapabilities, DacType};
use crate::error::Error;
use crate::net::SocketAddr;
use crate::protocols::lasercube_wifi::dac::buffer_estimator::{self, BufferEstimator};
use crate::protocols::lasercube_wifi::error::CommunicationError;
use crate::scheduler;

verus! {

/// A LaserCube WiFi DAC and where it is reached.
#[derive(Clone, Copy, Debug, PartialEq, Eq, Structural)]
pub struct Addressed {
    pub source_addr: SocketAddr,
    /// Points that the device can hold.
    pub max_buffer_space: u16,
}

/// A LaserCube WiFi DAC and, while it is connected, what is known of its buffer.
pub struct LasercubeWifiBackend {
    pub addressed: Addressed,
    pub caps: DacCapabilities,
    pub estimator: Option<BufferEstimator>,
}

impl LasercubeWifiBackend {
    /// A device with what it is capable of, not connected yet.
    pub fn new(addressed: Addressed, caps: DacCapabilities) -> (r: LasercubeWifiBackend)
        ensures
            r == (LasercubeWifiBackend { addressed, caps, estimator: None }),
    {
        LasercubeWifiBackend { addressed, caps, estimator: None }
    }

    pub fn dac_type(&self) -> (r: DacType)
        ensures
            r is LasercubeWifi,
    {
        DacType::LasercubeWifi
    }

    pub fn caps(&self) -> (r: &DacCapabilities)
        ensures
            *r == self.caps,
    {
        &self.caps
    }

    pub fn is_connected(&self) -> (r: bool)
        ensures
            r == (self.estimator is Some),
    {
        self.estimator.is_some()
    }

    /// A connection was made, on which the device plays at a rate. Nothing waits in its
    /// buffer.
    pub fn connect(&mut self, point_rate: u32)
        ensures
            final(self).addressed == old(self).addressed,
            final(self).caps == old(self).caps,
            final(self).estimator matches Some(e) && {
                &&& e.capacity == old(self).addressed.max_buffer_space
                &&& e.point_rate == point_rate
                &&& forall|now: u64| e.fullness(now) == 0
                &&& forall|i: int| 0 <= i < 256 ==> (#[trigger] e.message_times.slots@[i]) is None
            },
    {
        self.estimator = Some(BufferEstimator::new(self.addressed.max_buffer_space, point_rate));
    }

    pub fn disconnect(&mut self)
        ensures
            *final(self) == (LasercubeWifiBackend { estimator: None, ..*old(self) }),
    {
        self.estimator = None;
    }

    /// A packet with points has been sent. Without a connection there is nothing to
    /// note.
    pub fn packet_sent(&mut self, message_number: u8, points: u16, now: u64)
        requires
            old(self).estimator matches Some(e) ==> e.fullness(now) + points <= u16::MAX,
        ensures
            final(self).addressed == old(self).addressed,
            final(self).caps == old(self).caps,
            match old(self).estimator {
                Some(before) => final(self).estimator matches Some(after) && buffer_estimator::sent(
                    before,
                    message_number,
                    points,
                    now,
                    after,
                ),
                None => final(self).estimator is None,
            },
    {
        if let Some(estimator) = self.estimator.take() {
            let mut estimator = estimator;
            estimator.record_send(message_number, points, now);
            self.estimator = Some(estimator);
        }
    }

    /// The device has acknowledged a packet and told its free space. Without a
    /// connection there is nothing to note.
    pub fn ack_received(&mut self, message_number: u8, free_space: u16, now: u64)
        ensures
            final(self).addressed == old(self).addressed,
            final(self).caps == old(self).caps,
            match old(self).estimator {
                Some(before) => final(self).estimator matches Some(after) && buffer_estimator::acked(
                    before,
                    message_number,
                    free_space,
                    now,
                    after,
                ),
                None => final(self).estimator is None,
            },
    {
        if let Some(estimator) = self.estimator.take() {
            let mut estimator = estimator;
            estimator.record_ack(message_number, free_space, now);
            self.estimator = Some(estimator);
        }
    }

    /// Whether so many points may be written at a rate. The rate is taken first:
    /// with the old one, a slower rate would make the device seem to have more room
    /// than it has. The packets that they are then sent in are noted by
    /// [`LasercubeWifiBackend::packet_sent`].
    pub fn try_write_chunk(&mut self, pps: u32, points: usize, now: u64) -> (r: Result<
        WriteOutcome,
        Error,
    >)
        ensures
            old(self).estimator is None ==> *final(self) == *old(self) && (r matches Err(
                Error::Disconnected(m),
            ) && m@ == "Not connected"@),
            final(self).addressed == old(self).addressed,
            final(self).caps == old(self).caps,
            old(self).estimator matches Some(before) ==> {
                let at_rate = BufferEstimator { point_rate: pps, ..before };
                &&& final(self).estimator == Some(at_rate)
                &&& r == Ok::<WriteOutcome, Error>(
                    if points > at_rate.room(now) {
                        WriteOutcome::WouldBlock
                    } else {
                        WriteOutcome::Written
                    },
                )
            },
    {
        match self.estimator.take() {
            None => Err(Error::disconnected("Not connected")),
            Some(estimator) => {
                let mut estimator = estimator;
                estimator.set_point_rate(pps);
                let room: u16 = estimator.max_points_to_add(now);
                self.estimator = Some(estimator);
                if points > room as usize {
                    Ok(WriteOutcome::WouldBlock)
                } else {
                    Ok(WriteOutcome::Written)
                }
            },
        }
    }

    /// The points that wait in the device, while it is connected.
    pub fn queued_points(&self, now: u64) -> (r: Option<u64>)
        ensures
            r == match self.estimator {
                Some(e) => Some(e.fullness(now) as u64),
                None => None,
            },
    {
        match &self.estimator {
            Some(e) => Some(e.estimated_buffer_fullness(now) as u64),
            None => None,
        }
    }
}

/// What may be written and is then sent in packets, all before anything plays, leaves
/// the margin in the device's buffer free.
pub proof fn written_points_keep_margin(
    before: BufferEstimator,
    message_number: u8,
    points: u16,
    now: u64,
    after: BufferEstimator,
)
    requires
        0 < points <= before.room(now),
        buffer_estimator::sent(before, message_number, points, now, after),
    ensures
        after.fullness(now) <= before.capacity - 300,
        after.room(now) == before.room(now) - points,
{
    assert(scheduler::played(0, before.point_rate) == 0) by (nonlinear_arith);
}

/// A communication error as a backend error.
pub fn backend_error(err: &CommunicationError) -> (r: Error)
    ensures
        r matches Error::Backend(m) && m@ == err.text(),
{
    let message = err.message();
    Error::backend(message.as_str())
}

/// A write is taken just when its points fit beside what waits and the margin, reckoned at
/// its own rate. Without a connection it fails.
pub proof fn write_is_taken_if_it_fits()
    ensures
        forall|
            b: &mut LasercubeWifiBackend,
            pps: u32,
            points: usize,
            now: u64,
            r: Result<WriteOutcome, Error>,
        |
            #[trigger] call_ensures(
                LasercubeWifiBackend::try_write_chunk,
                (b, pps, points, now),
                r,
            ) ==> {
                &&& b.estimator is None <==> r is Err
                &&& r matches Err(e) ==> e is Disconnected
                &&& b.estimator matches Some(before) ==> {
                    let e = final(b).estimator->0;
                    &&& final(b).estimator is Some
                    &&& e.point_rate == pps
                    &&& e.capacity == before.capacity
                    &&& e.last_data_sent_time == before.last_data_sent_time
                    &&& points > 0 ==> (r == Ok::<WriteOutcome, Error>(WriteOutcome::Written)
                        <==> e.fullness(now) + points + 300 <= e.capacity)
                    &&& points == 0 ==> r == Ok::<WriteOutcome, Error>(WriteOutcome::Written)
                }
            },
{
}

/// A connected device is estimated, from the size of its buffer; what is sent and what it
/// answers goes to that estimate, which is what it tells as waiting.
pub proof fn connected_device_is_estimated()
    ensures
        forall|b: &mut LasercubeWifiBackend, rate: u32| #[trigger]
            call_ensures(LasercubeWifiBackend::connect, (b, rate), ()) ==> {
                &&& final(b).estimator is Some
                &&& final(b).estimator->0.capacity == b.addressed.max_buffer_space
                &&& final(b).estimator->0.point_rate == rate
                &&& final(b).addressed == b.addressed
                &&& final(b).caps == b.caps
            },
        forall|b: &mut LasercubeWifiBackend, number: u8, points: u16, now: u64| #[trigger]
            call_ensures(LasercubeWifiBackend::packet_sent, (b, number, points, now), ()) && (
            b.estimator matches Some(e) ==> e.fullness(now) + points <= u16::MAX) ==> {
                &&& b.estimator is None <==> final(b).estimator is None
                &&& b.estimator is Some ==> buffer_estimator::sent(
                    b.estimator->0,
                    number,
                    points,
                    now,
                    final(b).estimator->0,
                )
            },
        forall|b: &mut LasercubeWifiBackend, number: u8, free: u16, now: u64| #[trigger]
            call_ensures(LasercubeWifiBackend::ack_received, (b, number, free, now), ()) ==> {
                &&& b.estimator is None <==> final(b).estimator is None
                &&& b.estimator is Some ==> buffer_estimator::acked(
                    b.estimator->0,
                    number,
                    free,
                    now,
                    final(b).estimator->0,
                )
            },
        forall|b: &LasercubeWifiBackend, now: u64, r: Option<u64>| #[trigger]
            call_ensures(LasercubeWifiBackend::queued_points, (b, now), r) ==> {
                &&& r is None <==> b.estimator is None
                &&& r matches Some(n) ==> n == b.estimator->0.fullness(now)
            },
        forall|e: &CommunicationError, r: Error| #[trigger]
            call_ensures(backend_error, (e,), r) ==> r is Backend && r->Backend_0@ == e.text(),
{
}

} // verus!
