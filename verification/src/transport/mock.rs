use vstd::prelude::*;
use std::collections::VecDeque;
use crate::protocol::errors::ShdlcError;
use crate::protocol::time::Duration;

verus! {

/// The state of a mock transport.
pub struct MockTransportState {
    pub description: Seq<char>,
    pub bitrate: u32,
    pub is_open: bool,
    /// Data the mock hands out on reads, chunk by chunk.
    pub read_queue: Seq<Seq<u8>>,
    /// Every block of data written to the mock, in order.
    pub written_data: Seq<Seq<u8>>,
    pub read_delay: Option<Duration>,
    pub timeout_on_read: bool,
    pub support_bitrate_change: bool,
}

/// A flexible in-memory mock transport for testing without physical hardware.
#[derive(Debug)]
pub struct MockTransport {
    description: String,
    bitrate: u32,
    is_open: bool,
    read_queue: VecDeque<Vec<u8>>,
    written_data: Vec<Vec<u8>>,
    read_delay: Option<Duration>,
    timeout_on_read: bool,
    support_bitrate_change: bool,
}

impl View for MockTransport {
    type V = MockTransportState;

    closed spec fn view(&self) -> MockTransportState {
        MockTransportState {
            description: self.description@,
            bitrate: self.bitrate,
            is_open: self.is_open,
            read_queue: self.read_queue@.map_values(|v: Vec<u8>| v@),
            written_data: self.written_data@.map_values(|v: Vec<u8>| v@),
            read_delay: self.read_delay,
            timeout_on_read: self.timeout_on_read,
            support_bitrate_change: self.support_bitrate_change,
        }
    }
}

/// The state of a new mock transport with the given bitrate.
pub open spec fn fresh_mock_state(bitrate: u32) -> MockTransportState {
    MockTransportState {
        description: "MockTransport@115200"@,
        bitrate,
        is_open: true,
        read_queue: Seq::empty(),
        written_data: Seq::empty(),
        read_delay: None,
        timeout_on_read: false,
        support_bitrate_change: true,
    }
}

/// What a read takes from the queue of a mock transport: `None` where the
/// queue is empty, else at most `max_len` bytes of its first chunk.
pub open spec fn mock_read_result(queue: Seq<Seq<u8>>, max_len: nat) -> Option<Seq<u8>> {
    if queue.len() == 0 {
        None
    } else if queue[0].len() <= max_len {
        Some(queue[0])
    } else {
        Some(queue[0].take(max_len as int))
    }
}

/// The queue of a mock transport after a read of at most `max_len` bytes:
/// the rest of a first chunk that did not fit stays in front.
pub open spec fn mock_queue_after_read(queue: Seq<Seq<u8>>, max_len: nat) -> Seq<Seq<u8>> {
    if queue.len() == 0 {
        queue
    } else if queue[0].len() <= max_len {
        queue.drop_first()
    } else {
        seq![queue[0].skip(max_len as int)] + queue.drop_first()
    }
}

/// Reads hand out queued data in order and lose none of it: for every queue
/// and every read size, the bytes a read returns followed by what stays in
/// front of the queue are the first chunk that was queued, and the chunks
/// behind it stay as they were.
pub proof fn lemma_mock_read_keeps_order(queue: Seq<Seq<u8>>, max_len: nat)
    requires
        queue.len() > 0,
    ensures
        ({
            let got = mock_read_result(queue, max_len)->0;
            let rest = mock_queue_after_read(queue, max_len);
            if queue[0].len() <= max_len {
                got == queue[0] && rest == queue.drop_first()
            } else {
                got + rest[0] == queue[0] && got.len() == max_len && rest.drop_first()
                    == queue.drop_first()
            }
        }),
{
    if queue[0].len() > max_len {
        let rest = mock_queue_after_read(queue, max_len);
        assert(queue[0].take(max_len as int) + queue[0].skip(max_len as int) =~= queue[0]);
        assert(rest.drop_first() =~= queue.drop_first());
    }
}

fn copy_vec(v: &Vec<u8>) -> (c: Vec<u8>)
    ensures
        c@ == v@,
{
    vstd::slice::slice_to_vec(v.as_slice())
}

impl MockTransport {
    pub fn new() -> (t: Self)
        ensures
            t@ == fresh_mock_state(115200),
    {
        let t = MockTransport {
            description: String::from_str("MockTransport@115200"),
            bitrate: 115200,
            is_open: true,
            read_queue: VecDeque::new(),
            written_data: Vec::new(),
            read_delay: None,
            timeout_on_read: false,
            support_bitrate_change: true,
        };
        assert(t@.read_queue =~= Seq::<Seq<u8>>::empty());
        assert(t@.written_data =~= Seq::<Seq<u8>>::empty());
        t
    }

    pub fn with_bitrate(bitrate: u32) -> (t: Self)
        ensures
            t@ == fresh_mock_state(bitrate),
    {
        let mut t = Self::new();
        t.bitrate = bitrate;
        t
    }

    /// Enqueue raw bytes or complete frames to be read on next reads.
    pub fn push_rx_data(&mut self, data: &[u8])
        ensures
            final(self)@ == (MockTransportState {
                read_queue: old(self)@.read_queue.push(data@),
                ..old(self)@
            }),
    {
        self.read_queue.push_back(vstd::slice::slice_to_vec(data));
        assert(self@.read_queue =~= old(self)@.read_queue.push(data@));
    }

    /// Retrieve all data slices that were written to this transport.
    pub fn get_written_data(&self) -> (w: Vec<Vec<u8>>)
        ensures
            w@.map_values(|v: Vec<u8>| v@) == self@.written_data,
    {
        let mut w: Vec<Vec<u8>> = Vec::new();
        let mut i: usize = 0;
        while i < self.written_data.len()
            invariant
                i <= self.written_data.len(),
                w@.len() == i,
                forall|k: int| 0 <= k < i ==> (#[trigger] w@[k])@ == self.written_data@[k]@,
            decreases self.written_data.len() - i,
        {
            w.push(copy_vec(&self.written_data[i]));
            i = i + 1;
        }
        assert(w@.map_values(|v: Vec<u8>| v@) =~= self@.written_data);
        w
    }

    /// Clear recorded writes.
    pub fn clear_written_data(&mut self)
        ensures
            final(self)@ == (MockTransportState { written_data: Seq::empty(), ..old(self)@ }),
    {
        self.written_data = Vec::new();
        assert(self@.written_data =~= Seq::<Seq<u8>>::empty());
    }

    /// Configure simulated read delay.
    pub fn set_read_delay(&mut self, delay: Option<Duration>)
        ensures
            final(self)@ == (MockTransportState { read_delay: delay, ..old(self)@ }),
    {
        self.read_delay = delay;
    }

    /// Configure mock to timeout when reading.
    pub fn set_timeout_on_read(&mut self, timeout: bool)
        ensures
            final(self)@ == (MockTransportState { timeout_on_read: timeout, ..old(self)@ }),
    {
        self.timeout_on_read = timeout;
    }

    /// Set whether changing bitrate is supported.
    pub fn set_support_bitrate_change(&mut self, support: bool)
        ensures
            final(self)@ == (MockTransportState { support_bitrate_change: support, ..old(self)@ }),
    {
        self.support_bitrate_change = support;
    }

    /// The simulated delay before each read.
    pub fn read_delay(&self) -> (d: Option<Duration>)
        ensures
            d == self@.read_delay,
    {
        self.read_delay
    }

    /// Whether reads time out.
    pub fn timeout_on_read(&self) -> (t: bool)
        ensures
            t == self@.timeout_on_read,
    {
        self.timeout_on_read
    }

    /// Record written data; fails on a closed port.
    pub fn write_all(&mut self, data: &[u8]) -> (r: Result<(), ShdlcError>)
        ensures
            !old(self)@.is_open ==> (r matches Err(ShdlcError::Transport(m)) && m@
                == "Port is closed"@) && final(self)@ == old(self)@,
            old(self)@.is_open ==> r is Ok && final(self)@ == (MockTransportState {
                written_data: old(self)@.written_data.push(data@),
                ..old(self)@
            }),
    {
        if !self.is_open {
            return Err(ShdlcError::Transport(String::from_str("Port is closed")));
        }
        self.written_data.push(vstd::slice::slice_to_vec(data));
        assert(self@.written_data =~= old(self)@.written_data.push(data@));
        Ok(())
    }

    /// Take at most `max_len` bytes of the next queued chunk; the rest of the
    /// chunk stays in front of the queue. `None` where nothing is queued;
    /// fails on a closed port.
    pub fn take_rx_data(&mut self, max_len: usize) -> (r: Result<Option<Vec<u8>>, ShdlcError>)
        ensures
            !old(self)@.is_open ==> (r matches Err(ShdlcError::Transport(m)) && m@
                == "Port is closed"@) && final(self)@ == old(self)@,
            old(self)@.is_open ==> {
                &&& r matches Ok(o) && match mock_read_result(old(self)@.read_queue, max_len as nat) {
                    None => o is None,
                    Some(d) => o matches Some(v) && v@ == d,
                }
                &&& final(self)@ == (MockTransportState {
                    read_queue: mock_queue_after_read(old(self)@.read_queue, max_len as nat),
                    ..old(self)@
                })
            },
    {
        if !self.is_open {
            return Err(ShdlcError::Transport(String::from_str("Port is closed")));
        }
        let ghost q = self@.read_queue;
        match self.read_queue.pop_front() {
            None => {
                assert(self@.read_queue =~= q);
                Ok(None)
            },
            Some(chunk) => {
                assert(chunk@ == q[0]);
                if chunk.len() <= max_len {
                    assert(self@.read_queue =~= q.drop_first());
                    Ok(Some(chunk))
                } else {
                    let first = vstd::slice::slice_to_vec(
                        vstd::slice::slice_subrange(chunk.as_slice(), 0, max_len),
                    );
                    let rest = vstd::slice::slice_to_vec(
                        vstd::slice::slice_subrange(chunk.as_slice(), max_len, chunk.len()),
                    );
                    self.read_queue.push_front(rest);
                    assert(first@ =~= q[0].take(max_len as int));
                    assert(self@.read_queue =~= seq![q[0].skip(max_len as int)] + q.drop_first());
                    Ok(Some(first))
                }
            },
        }
    }

    /// Change the bitrate, where the mock supports it.
    pub fn set_bitrate(&mut self, bitrate: u32) -> (r: Result<(), ShdlcError>)
        ensures
            old(self)@.support_bitrate_change ==> r is Ok && final(self)@ == (MockTransportState {
                bitrate,
                ..old(self)@
            }),
            !old(self)@.support_bitrate_change ==> (r matches Err(ShdlcError::PortError(m)) && m@
                == "Changing bitrate is not supported on this port"@) && final(self)@ == old(self)@,
    {
        if !self.support_bitrate_change {
            return Err(
                ShdlcError::PortError(
                    String::from_str("Changing bitrate is not supported on this port"),
                ),
            );
        }
        self.bitrate = bitrate;
        Ok(())
    }

    /// The bitrate, where the mock supports bitrates.
    pub fn bitrate(&self) -> (r: Result<u32, ShdlcError>)
        ensures
            self@.support_bitrate_change ==> r == Ok::<u32, ShdlcError>(self@.bitrate),
            !self@.support_bitrate_change ==> (r matches Err(ShdlcError::PortError(m)) && m@
                == "Reading bitrate is not supported on this port"@),
    {
        if !self.support_bitrate_change {
            return Err(
                ShdlcError::PortError(
                    String::from_str("Reading bitrate is not supported on this port"),
                ),
            );
        }
        Ok(self.bitrate)
    }

    pub fn description(&self) -> (d: String)
        ensures
            d@ == self@.description,
    {
        String::from_str(self.description.as_str())
    }

    pub fn is_open(&self) -> (o: bool)
        ensures
            o == self@.is_open,
    {
        self.is_open
    }

    /// Close the port; later reads and writes fail.
    pub fn close(&mut self)
        ensures
            final(self)@ == (MockTransportState { is_open: false, ..old(self)@ }),
    {
        self.is_open = false;
    }
}

impl Default for MockTransport {
    fn default() -> (t: Self)
        ensures
            t@ == fresh_mock_state(115200),
    {
        Self::new()
    }
}

} // verus!
