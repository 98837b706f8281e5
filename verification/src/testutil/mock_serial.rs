//! A mock of a serial device: bytes that were fed come out in order, and it can be disconnected.
use vstd::prelude::*;

verus! {

/// The state of a mock device.
pub struct MockCore {
    /// Bytes that were received and did not fit into a read.
    pub pending: Vec<u8>,
    /// Bytes that were written to the device.
    pub written: Vec<u8>,
    pub disconnected: bool,
}

/// What a read does.
pub enum MockRead {
    /// Fail: the device is disconnected.
    Broken,
    /// Hand these bytes out.
    Give(Vec<u8>),
    /// Receive what was fed, and hand that out.
    Receive,
}

/// The first `room` items, or all of them.
pub open spec fn fitting(s: Seq<u8>, room: int) -> Seq<u8> {
    if s.len() <= room {
        s
    } else {
        s.take(room)
    }
}

/// What is left of them.
pub open spec fn leftover(s: Seq<u8>, room: int) -> Seq<u8> {
    if s.len() <= room {
        Seq::empty()
    } else {
        s.skip(room)
    }
}

/// Split bytes into those that fit into `room` and the others.
fn split(data: &Vec<u8>, room: usize) -> (r: (Vec<u8>, Vec<u8>))
    ensures
        r.0@ == fitting(data@, room as int),
        r.1@ == leftover(data@, room as int),
{
    let cut: usize = if data.len() <= room {
        data.len()
    } else {
        room
    };
    let mut give: Vec<u8> = Vec::new();
    let mut keep: Vec<u8> = Vec::new();
    let mut i: usize = 0;
    while i < data.len()
        invariant
            i <= data@.len(),
            cut <= data@.len(),
            give@ == data@.take(
                if i < cut {
                    i as int
                } else {
                    cut as int
                },
            ),
            keep@ == (if i < cut {
                Seq::empty()
            } else {
                data@.subrange(cut as int, i as int)
            }),
        decreases data@.len() - i,
    {
        if i < cut {
            give.push(data[i]);
        } else {
            keep.push(data[i]);
        }
        i = i + 1;
        proof {
            assert(give@ =~= data@.take(
                if i < cut {
                    i as int
                } else {
                    cut as int
                },
            ));
            assert(keep@ =~= (if i < cut {
                Seq::empty()
            } else {
                data@.subrange(cut as int, i as int)
            }));
        }
    }
    proof {
        assert(give@ =~= fitting(data@, room as int));
        assert(keep@ =~= leftover(data@, room as int));
    }
    (give, keep)
}

impl MockCore {
    pub fn new() -> (r: MockCore)
        ensures
            r.pending@.len() == 0,
            r.written@.len() == 0,
            !r.disconnected,
    {
        MockCore { pending: Vec::new(), written: Vec::new(), disconnected: false }
    }

    /// Read into `room` bytes: a disconnected device fails, pending bytes go first.
    pub fn read(&mut self, room: usize) -> (r: MockRead)
        ensures
            final(self).written == old(self).written,
            final(self).disconnected == old(self).disconnected,
            old(self).disconnected ==> r is Broken && final(self).pending == old(self).pending,
            !old(self).disconnected && old(self).pending@.len() == 0 ==> r is Receive
                && final(self).pending == old(self).pending,
            !old(self).disconnected && old(self).pending@.len() > 0 ==> {
                &&& r matches MockRead::Give(b) && b@ == fitting(old(self).pending@, room as int)
                &&& final(self).pending@ == leftover(old(self).pending@, room as int)
            },
    {
        if self.disconnected {
            return MockRead::Broken;
        }
        if self.pending.len() == 0 {
            return MockRead::Receive;
        }
        let (give, keep) = split(&self.pending, room);
        self.pending = keep;
        MockRead::Give(give)
    }

    /// Hand out what was received, as far as it fits into `room` bytes; the rest waits.
    pub fn received(&mut self, data: Vec<u8>, room: usize) -> (r: Vec<u8>)
        requires
            old(self).pending@.len() == 0,
        ensures
            final(self).written == old(self).written,
            final(self).disconnected == old(self).disconnected,
            r@ == fitting(data@, room as int),
            final(self).pending@ == leftover(data@, room as int),
    {
        let (give, keep) = split(&data, room);
        self.pending = keep;
        give
    }

    /// Write to the device: the number of bytes taken, or nothing where it is disconnected.
    pub fn write(&mut self, buf: &[u8]) -> (r: Option<usize>)
        ensures
            final(self).pending == old(self).pending,
            final(self).disconnected == old(self).disconnected,
            r is None <==> old(self).disconnected,
            r matches Some(n) ==> n == buf@.len() && final(self).written@ == old(self).written@
                + buf@,
            r is None ==> final(self).written == old(self).written,
    {
        if self.disconnected {
            return None;
        }
        let ghost before = self.written@;
        self.written.extend_from_slice(buf);
        proof {
            assert(self.written@ =~= before + buf@);
        }
        Some(buf.len())
    }

    /// Take all bytes that were written to the device.
    pub fn drain_written(&mut self) -> (r: Vec<u8>)
        ensures
            r@ == old(self).written@,
            final(self).written@.len() == 0,
            final(self).pending == old(self).pending,
            final(self).disconnected == old(self).disconnected,
    {
        let mut out: Vec<u8> = Vec::new();
        std::mem::swap(&mut out, &mut self.written);
        out
    }

    /// Simulate a device disconnect: reads and writes fail.
    pub fn simulate_disconnect(&mut self)
        ensures
            *final(self) == (MockCore { disconnected: true, ..*old(self) }),
    {
        self.disconnected = true;
    }

    /// Simulate reconnection: reads and writes go on.
    pub fn simulate_reconnect(&mut self)
        ensures
            *final(self) == (MockCore { disconnected: false, ..*old(self) }),
    {
        self.disconnected = false;
    }

    /// Check if currently in disconnected state.
    pub fn is_disconnected(&self) -> (r: bool)
        ensures
            r == self.disconnected,
    {
        self.disconnected
    }
}

/// A line as it is fed: its bytes and a line feed.
pub fn line_bytes(line: &str) -> (r: Vec<u8>)
    ensures
        r@ == vstd::utf8::encode_utf8(line@).push(10u8),
{
    let mut v = crate::control::text_bytes(line);
    v.push(10);
    v
}

/// Nothing is lost or reordered by a read: what it hands out and what waits are what there was.
pub proof fn law_reads_in_order(s: Seq<u8>, room: int)
    requires
        room >= 0,
    ensures
        fitting(s, room) + leftover(s, room) == s,
        fitting(s, room).len() <= room,
{
    assert(fitting(s, room) + leftover(s, room) =~= s);
}

/// A read takes from the front as much as there is room for, and leaves the rest.
pub proof fn law_read_sizes(s: Seq<u8>, room: int)
    requires
        room >= 0,
    ensures
        fitting(s, room).len() == (if s.len() <= room {
            s.len() as int
        } else {
            room
        }),
        forall|i: int| 0 <= i < fitting(s, room).len() ==> #[trigger] fitting(s, room)[i] == s[i],
        leftover(s, room).len() == s.len() - fitting(s, room).len(),
        forall|i: int|
            0 <= i < leftover(s, room).len() ==> #[trigger] leftover(s, room)[i] == s[fitting(
                s,
                room,
            ).len() + i],
{
}

} // verus!
