use vstd::prelude::*;
use crate::protocol::errors::{is_response_error, ShdlcError};
use crate::protocol::frame::{
    count_start_bytes, miso_fault_message, spec_interpret, ShdlcMisoFrame, ShdlcMisoFrameBuilder,
    MAX_RAW_FRAME_LENGTH, START_STOP_BYTE,
};
use crate::protocol::time::{duration_fits, lemma_fits_below, Duration};

verus! {

/// Transceiver logic for sending MOSI frames and receiving MISO frames; the
/// timing rules live here, the exchange itself with the transport around it.
#[derive(Debug, Clone, Copy)]
pub struct ShdlcTransceiver;

/// Time in nanoseconds to receive the longest possible frame at a bitrate:
/// 600 bytes of 10 bits each, plus 0.2 seconds, rounded to the nearest
/// nanosecond (halves upwards).
pub open spec fn max_frame_time_nanos(bitrate: nat) -> nat {
    (12_000_000_000_000nat + bitrate) / (2 * bitrate) + 200_000_000nat
}

/// The bitrate the frame time is computed for where the transport cannot tell its own.
pub const FALLBACK_BITRATE: u32 = 115200;

impl ShdlcTransceiver {
    /// Calculate the time required for receiving the longest possible frame.
    pub fn calculate_maximum_frame_time(bitrate: u32) -> (d: Duration)
        requires
            bitrate > 0,
        ensures
            d.spec_nanos() == max_frame_time_nanos(bitrate as nat),
    {
        let nanos: u64 = (12_000_000_000_000u64 + bitrate as u64) / (2 * bitrate as u64)
            + 200_000_000;
        Duration::from_nanos(nanos)
    }
}

/// What the transceiver does next while it waits for a response.
#[derive(Debug)]
pub enum ReceiveAction {
    /// Read from the transport, waiting at most this long.
    Read(Duration),
    /// The transport had no bytes: wait a moment, then look at the time again.
    Pause,
    /// Bytes were taken in: look at the time again.
    Proceed,
    /// The exchange is over with this result.
    Finish(Result<ShdlcMisoFrame, ShdlcError>),
}

/// What the transceiver learned since its last action.
#[derive(Debug)]
pub enum ReceiveEvent {
    /// This much time has passed since the request was sent.
    Elapsed(Duration),
    /// The transport delivered these bytes (none where it had none).
    Received(Vec<u8>),
    /// The read failed.
    ReadFailed(ShdlcError),
    /// The read did not end in the time it was given.
    ReadTimedOut,
}

/// The decisions of the transceiver while it receives a response: how long
/// it may still wait, and when the bytes received form a frame.
#[derive(Debug)]
pub struct ResponseReceiver {
    builder: ShdlcMisoFrameBuilder,
    response_limit: Duration,
    frame_limit: Duration,
}

impl ResponseReceiver {
    #[verifier::type_invariant]
    spec fn limits_ordered(self) -> bool {
        self.response_limit.spec_nanos() <= self.frame_limit.spec_nanos()
    }

    /// The bytes received so far.
    pub closed spec fn spec_received(self) -> Seq<u8> {
        self.builder@
    }

    /// How long after the request the first byte of the response may arrive.
    pub closed spec fn spec_response_limit(self) -> nat {
        self.response_limit.spec_nanos()
    }

    /// How long after the request the whole response may take, once it has begun.
    pub closed spec fn spec_frame_limit(self) -> nat {
        self.frame_limit.spec_nanos()
    }

    /// The time limit that applies: the longer one once a start byte arrived.
    pub open spec fn spec_limit(self) -> nat {
        if self.spec_received().contains(START_STOP_BYTE) {
            self.spec_frame_limit()
        } else {
            self.spec_response_limit()
        }
    }

    /// A receiver for the response to a request with the given response time:
    /// the response may begin within the response time plus the additional
    /// time, and may end within that plus the time of the longest frame at
    /// the transport's bitrate (or at `FALLBACK_BITRATE` where the transport
    /// cannot tell it).
    pub fn new(response_timeout: Duration, additional_response_time: Duration, bitrate: Option<u32>) -> (r: Self)
        requires
            bitrate != Some(0u32),
            duration_fits(
                response_timeout.spec_nanos() + additional_response_time.spec_nanos()
                    + max_frame_time_nanos(bitrate.unwrap_or(FALLBACK_BITRATE) as nat),
            ),
        ensures
            r.spec_received() == Seq::<u8>::empty(),
            r.spec_response_limit() == response_timeout.spec_nanos() + additional_response_time.spec_nanos(),
            r.spec_frame_limit() == r.spec_response_limit() + max_frame_time_nanos(
                bitrate.unwrap_or(FALLBACK_BITRATE) as nat,
            ),
    {
        let rate = match bitrate {
            Some(b) => b,
            None => FALLBACK_BITRATE,
        };
        let frame_time = ShdlcTransceiver::calculate_maximum_frame_time(rate);
        let response_limit = Duration::from_total_nanos(
            response_timeout.as_nanos() + additional_response_time.as_nanos(),
        );
        let frame_limit = Duration::from_total_nanos(response_limit.as_nanos() + frame_time.as_nanos());
        ResponseReceiver { builder: ShdlcMisoFrameBuilder::new(), response_limit, frame_limit }
    }

    /// The bytes received so far.
    pub fn received(&self) -> (d: &[u8])
        ensures
            d@ == self.spec_received(),
    {
        self.builder.data()
    }

    /// Go on from what was learned to the next action.
    ///
    /// The receiver never lets a read wait past the limit that applies, and
    /// that limit is the frame limit at most. Once two start/stop bytes have
    /// arrived the frame between them is decoded and the exchange is over.
    pub fn step(&mut self, event: ReceiveEvent) -> (action: ReceiveAction)
        ensures
            final(self).spec_response_limit() == old(self).spec_response_limit(),
            final(self).spec_frame_limit() == old(self).spec_frame_limit(),
            old(self).spec_response_limit() <= old(self).spec_frame_limit(),
            action matches ReceiveAction::Read(d) ==> event matches ReceiveEvent::Elapsed(elapsed)
                && elapsed.spec_nanos() + d.spec_nanos() <= old(self).spec_frame_limit(),
            match event {
                ReceiveEvent::Elapsed(elapsed) => {
                    &&& final(self).spec_received() == old(self).spec_received()
                    &&& if elapsed.spec_nanos() >= old(self).spec_limit() {
                        action == ReceiveAction::Finish(Err(ShdlcError::Timeout))
                    } else {
                        action matches ReceiveAction::Read(d) && elapsed.spec_nanos() + d.spec_nanos()
                            == old(self).spec_limit()
                    }
                },
                ReceiveEvent::Received(bytes) => if bytes@.len() == 0 {
                    &&& final(self).spec_received() == old(self).spec_received()
                    &&& action is Pause
                } else {
                    let buf = old(self).spec_received() + bytes@;
                    &&& final(self).spec_received() == buf
                    &&& if count_start_bytes(buf) >= 2 {
                        match spec_interpret(buf) {
                            Ok((a, c, st, d)) => action matches ReceiveAction::Finish(Ok(f))
                                && f.slave_address == a && f.command_id == c && f.state == st
                                && f.data@ == d,
                            Err(fault) => action matches ReceiveAction::Finish(Err(e))
                                && is_response_error(e, miso_fault_message(fault), Some(buf)),
                        }
                    } else if buf.len() > MAX_RAW_FRAME_LENGTH {
                        action matches ReceiveAction::Finish(Err(e)) && is_response_error(
                            e,
                            "Response is too long."@,
                            Some(buf),
                        )
                    } else {
                        action is Proceed
                    }
                },
                ReceiveEvent::ReadFailed(e) => {
                    &&& final(self).spec_received() == old(self).spec_received()
                    &&& action == ReceiveAction::Finish(Err(e))
                },
                ReceiveEvent::ReadTimedOut => {
                    &&& final(self).spec_received() == old(self).spec_received()
                    &&& action == ReceiveAction::Finish(Err(ShdlcError::Timeout))
                },
            },
    {
        proof {
            use_type_invariant(&*self);
        }
        match event {
            ReceiveEvent::Elapsed(elapsed) => {
                let limit = if self.builder.start_received() {
                    self.frame_limit
                } else {
                    self.response_limit
                };
                if elapsed.as_nanos() >= limit.as_nanos() {
                    ReceiveAction::Finish(Err(ShdlcError::Timeout))
                } else {
                    let left = limit.as_nanos() - elapsed.as_nanos();
                    proof {
                        lemma_fits_below(left as nat, limit.spec_nanos());
                    }
                    ReceiveAction::Read(Duration::from_total_nanos(left))
                }
            },
            ReceiveEvent::Received(bytes) => {
                if bytes.len() == 0 {
                    ReceiveAction::Pause
                } else {
                    let mut builder = ShdlcMisoFrameBuilder::new();
                    std::mem::swap(&mut builder, &mut self.builder);
                    let action = match builder.add_data(bytes.as_slice()) {
                        Err(e) => ReceiveAction::Finish(Err(e)),
                        Ok(true) => ReceiveAction::Finish(builder.interpret_data()),
                        Ok(false) => ReceiveAction::Proceed,
                    };
                    self.builder = builder;
                    action
                }
            },
            ReceiveEvent::ReadFailed(e) => ReceiveAction::Finish(Err(e)),
            ReceiveEvent::ReadTimedOut => ReceiveAction::Finish(Err(ShdlcError::Timeout)),
        }
    }
}

} // verus!
