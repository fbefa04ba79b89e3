//! The per-connection state machine: the write and read buffers, the
//! reading/writing/waiting/closed states the readiness loop steps
//! through, and the in-flight table correlating stream ids of submitted
//! requests with their pending completions.

use vstd::prelude::*;
use vstd::seq_lib::lemma_seq_contains_after_push;

use crate::error::{RCError, RCErrorType, RCResult};

verus! {

/// A buffer being drained towards the socket: bytes before `pos` are
/// already written.
pub struct ByteBuf {
    pub data: Vec<u8>,
    pub pos: usize,
}

impl ByteBuf {
    /// The drain position never passes the end.
    pub open spec fn wf(&self) -> bool {
        self.pos as int <= self.data@.len()
    }

    /// Wraps a fully built frame, nothing written yet.
    pub fn new(data: Vec<u8>) -> (r: ByteBuf)
        ensures
            r.wf(),
            r.data@ == data@,
            r.pos == 0,
    {
        ByteBuf { data, pos: 0 }
    }

    /// Whether bytes remain to be written.
    pub fn has_remaining(&self) -> (r: bool)
        requires
            self.wf(),
        ensures
            r == (self.pos < self.data@.len()),
    {
        self.pos < self.data.len()
    }

    /// The bytes still to be written.
    pub fn remaining_bytes(&self) -> (r: Vec<u8>)
        requires
            self.wf(),
        ensures
            r@ == self.data@.subrange(self.pos as int, self.data@.len() as int),
    {
        let mut out: Vec<u8> = Vec::new();
        let mut i: usize = self.pos;
        while i < self.data.len()
            invariant
                self.wf(),
                self.pos <= i <= self.data@.len(),
                out@ =~= self.data@.subrange(self.pos as int, i as int),
            decreases self.data@.len() - i,
        {
            out.push(self.data[i]);
            i += 1;
            proof {
                assert(out@ =~= self.data@.subrange(self.pos as int, i as int));
            }
        }
        proof {
            assert(out@ =~= self.data@.subrange(self.pos as int, self.data@.len() as int));
        }
        out
    }

    /// Records that `n` bytes were written to the socket.
    pub fn consume(&mut self, n: usize)
        requires
            old(self).wf(),
            old(self).pos + n <= old(self).data@.len(),
        ensures
            final(self).wf(),
            final(self).data@ == old(self).data@,
            final(self).pos == old(self).pos + n,
    {
        let len = self.data.len();
        self.pos = self.pos + n;
    }

    /// Turns the drained buffer into an accumulation buffer, keeping its
    /// storage.
    pub fn flip(self) -> (r: MutByteBuf)
        ensures
            r.data@ == self.data@,
    {
        MutByteBuf { data: self.data }
    }
}

/// A growable buffer accumulating bytes read from the socket.
pub struct MutByteBuf {
    pub data: Vec<u8>,
}

impl MutByteBuf {
    /// An empty accumulation buffer.
    pub fn new() -> (r: MutByteBuf)
        ensures
            r.data@ == Seq::<u8>::empty(),
    {
        let data: Vec<u8> = Vec::new();
        proof {
            assert(data@ =~= Seq::<u8>::empty());
        }
        MutByteBuf { data }
    }

    /// Drops everything accumulated.
    pub fn clear(&mut self)
        ensures
            final(self).data@ == Seq::<u8>::empty(),
    {
        self.data.clear();
        proof {
            assert(self.data@ =~= Seq::<u8>::empty());
        }
    }

    /// Appends bytes received from the socket.
    pub fn write_bytes(&mut self, src: &Vec<u8>)
        ensures
            final(self).data@ == old(self).data@ + src@,
    {
        self.data.extend_from_slice(src.as_slice());
        proof {
            assert(self.data@ =~= old(self).data@ + src@);
        }
    }

    /// A copy of the accumulated bytes.
    pub fn bytes(&self) -> (r: Vec<u8>)
        ensures
            r@ == self.data@,
    {
        vstd::slice::slice_to_vec(self.data.as_slice())
    }

    /// Turns the accumulated bytes into a drainable buffer.
    pub fn flip(self) -> (r: ByteBuf)
        ensures
            r.wf(),
            r.data@ == self.data@,
            r.pos == 0,
    {
        ByteBuf { data: self.data, pos: 0 }
    }
}

/// The state of one connection: accumulating a response, draining a
/// request, idle between frames, or closed for good.
pub enum State {
    Reading(MutByteBuf),
    Writing(ByteBuf),
    Waiting,
    Closed,
}

impl State {
    /// Whether the connection is accumulating a response.
    pub open spec fn is_reading(&self) -> bool {
        self is Reading
    }

    /// Whether the connection is draining a request.
    pub open spec fn is_writing(&self) -> bool {
        self is Writing
    }

    /// The accumulation buffer of a reading connection.
    pub open spec fn spec_read_buf(&self) -> MutByteBuf
        recommends
            self.is_reading(),
    {
        self->Reading_0
    }

    /// The drain buffer of a writing connection.
    pub open spec fn spec_write_buf(&self) -> ByteBuf
        recommends
            self.is_writing(),
    {
        self->Writing_0
    }

    /// Moves to reading once the outgoing frame is fully drained; a write
    /// with bytes left keeps draining.
    pub fn try_transition_to_reading(&mut self)
        requires
            old(self).is_writing(),
            old(self).spec_write_buf().wf(),
        ensures
            old(self).spec_write_buf().pos == old(self).spec_write_buf().data@.len() ==> (final(self).is_reading() && final(self).spec_read_buf().data@ == Seq::<u8>::empty()),
            old(self).spec_write_buf().pos < old(self).spec_write_buf().data@.len()
                ==> *final(self) == *old(self),
    {
        let still = match self {
            State::Writing(buf) => buf.has_remaining(),
            _ => false,
        };
        if !still {
            self.transition_to_reading();
        }
    }

    /// Moves to reading unconditionally, reusing the drained buffer's
    /// storage after clearing it.
    pub fn transition_to_reading(&mut self)
        requires
            old(self).is_writing(),
        ensures
            final(self).is_reading(),
            final(self).spec_read_buf().data@ == Seq::<u8>::empty(),
    {
        let mut prev = State::Closed;
        core::mem::swap(&mut prev, self);
        let buf = prev.unwrap_write_buf();
        let mut mut_buf = buf.flip();
        mut_buf.clear();
        *self = State::Reading(mut_buf);
    }

    /// The accumulation buffer; only a reading connection has one.
    pub fn read_buf(&self) -> (r: &MutByteBuf)
        requires
            self.is_reading(),
        ensures
            *r == self.spec_read_buf(),
    {
        match self {
            State::Reading(buf) => buf,
            _ => {
                proof {
                    assert(false);
                }
                unreached()
            },
        }
    }

    /// The accumulation buffer, writable.
    pub fn mut_read_buf(&mut self) -> (r: &mut MutByteBuf)
        requires
            old(self).is_reading(),
        ensures
            *r == old(self).spec_read_buf(),
            final(self).is_reading(),
            final(self).spec_read_buf() == *final(r),
    {
        match self {
            State::Reading(buf) => buf,
            _ => {
                proof {
                    assert(false);
                }
                unreached()
            },
        }
    }

    /// The accumulation buffer, by value.
    pub fn unwrap_read_buf(self) -> (r: MutByteBuf)
        requires
            self.is_reading(),
        ensures
            r == self.spec_read_buf(),
    {
        match self {
            State::Reading(buf) => buf,
            _ => {
                proof {
                    assert(false);
                }
                unreached()
            },
        }
    }

    /// The drain buffer; only a writing connection has one.
    pub fn write_buf(&self) -> (r: &ByteBuf)
        requires
            self.is_writing(),
        ensures
            *r == self.spec_write_buf(),
    {
        match self {
            State::Writing(buf) => buf,
            _ => {
                proof {
                    assert(false);
                }
                unreached()
            },
        }
    }

    /// The drain buffer, writable.
    pub fn mut_write_buf(&mut self) -> (r: &mut ByteBuf)
        requires
            old(self).is_writing(),
        ensures
            *r == old(self).spec_write_buf(),
            final(self).is_writing(),
            final(self).spec_write_buf() == *final(r),
    {
        match self {
            State::Writing(buf) => buf,
            _ => {
                proof {
                    assert(false);
                }
                unreached()
            },
        }
    }

    /// The drain buffer, by value.
    pub fn unwrap_write_buf(self) -> (r: ByteBuf)
        requires
            self.is_writing(),
        ensures
            r == self.spec_write_buf(),
    {
        match self {
            State::Writing(buf) => buf,
            _ => {
                proof {
                    assert(false);
                }
                unreached()
            },
        }
    }

    /// Whether the connection is closed.
    pub fn is_closed(&self) -> (r: bool)
        ensures
            r == (*self is Closed),
    {
        match self {
            State::Closed => true,
            _ => false,
        }
    }
}

/// The stream id capacity of a protocol revision: one signed byte of ids
/// below revision 3, two bytes from it on.
pub open spec fn spec_stream_capacity(version: u8) -> int {
    if version >= 3 {
        32768
    } else {
        128
    }
}

/// The stream id capacity of a protocol revision.
pub fn stream_capacity(version: u8) -> (r: usize)
    ensures
        r == spec_stream_capacity(version),
{
    if version >= 3 {
        32768
    } else {
        128
    }
}

/// The in-flight table of one connection: the stream ids of submitted
/// requests whose responses are still pending. The caller keeps the
/// promise handles; this table decides id assignment and resolution.
pub struct InFlightMap {
    pub version: u8,
    pub pending: Vec<i16>,
}

impl InFlightMap {
    /// Ids are unique, non-negative, and below the revision's capacity.
    pub open spec fn wf(&self) -> bool {
        self.pending@.no_duplicates() && (forall|i: int|
            0 <= i < self.pending@.len() ==> 0 <= #[trigger] self.pending@[i]
                < spec_stream_capacity(self.version))
    }

    /// An empty table for a negotiated revision.
    pub fn new(version: u8) -> (r: InFlightMap)
        ensures
            r.wf(),
            r.version == version,
            r.pending@ == Seq::<i16>::empty(),
    {
        let pending: Vec<i16> = Vec::new();
        proof {
            assert(pending@ =~= Seq::<i16>::empty());
        }
        InFlightMap { version, pending }
    }

    /// How many requests are in flight.
    pub fn len(&self) -> (r: usize)
        ensures
            r == self.pending@.len(),
    {
        self.pending.len()
    }

    /// Whether a stream id is pending.
    pub fn is_pending(&self, id: i16) -> (r: bool)
        ensures
            r == self.pending@.contains(id),
    {
        let mut i: usize = 0;
        while i < self.pending.len()
            invariant
                i <= self.pending@.len(),
                forall|j: int| 0 <= j < i ==> self.pending@[j] != id,
            decreases self.pending@.len() - i,
        {
            if self.pending[i] == id {
                return true;
            }
            i += 1;
        }
        false
    }

    /// Assigns a fresh stream id to a submission. While the table is
    /// under capacity a fresh id is always granted; a full table refuses
    /// with a connection-busy error.
    #[verifier::rlimit(60)]
    pub fn submit(&mut self) -> (r: RCResult<i16>)
        requires
            old(self).wf(),
        ensures
            final(self).wf(),
            final(self).version == old(self).version,
            old(self).pending@.len() < spec_stream_capacity(old(self).version) ==> (r matches Ok(
                id,
            ) && 0 <= id < spec_stream_capacity(old(self).version) && !old(self).pending@.contains(id) && final(self).pending@ == old(self).pending@.push(id)),
            old(self).pending@.len() >= spec_stream_capacity(old(self).version) ==> (r matches Err(
                e,
            ) && e.kind == RCErrorType::GenericError && final(self).pending@ == old(self).pending@),
    {
        let cap = stream_capacity(self.version);
        if self.pending.len() >= cap {
            return Err(RCError::new("connection busy", RCErrorType::GenericError));
        }
        let mut cand: usize = 0;
        while cand < cap
            invariant
                self.wf(),
                *self == *old(self),
                old(self).pending@.len() < spec_stream_capacity(old(self).version),
                cap == spec_stream_capacity(self.version),
                cap <= 32768,
                cand <= cap,
                forall|j: int| 0 <= j < cand ==> self.pending@.contains(#[trigger] (j as i16)),
            decreases cap - cand,
        {
            let id = cand as i16;
            if !self.is_pending(id) {
                proof {
                    lemma_seq_contains_after_push(self.pending@, id, id);
                    assert forall|k: int|
                        0 <= k < self.pending@.push(id).len() implies 0 <= #[trigger] self.pending@.push(
                        id,
                    )[k] < spec_stream_capacity(self.version) by {
                        if k < self.pending@.len() {
                            assert(self.pending@.push(id)[k] == self.pending@[k]);
                        }
                    }
                }
                self.pending.push(id);
                return Ok(id);
            }
            cand += 1;
        }
        proof {
            let ints = self.pending@.map_values(|x: i16| x as int);
            assert forall|j: int| 0 <= j < cap implies ints.to_set().contains(j) by {
                assert(self.pending@.contains(j as i16));
                let k = choose|k: int|
                    0 <= k < self.pending@.len() && self.pending@[k] == j as i16;
                assert(ints[k] == j);
                assert(ints.contains(j));
            }
            assert(vstd::set_lib::set_int_range(0, cap as int) <= ints.to_set());
            vstd::set_lib::lemma_int_range(0, cap as int);
            vstd::seq_lib::seq_to_set_is_finite(ints);
            vstd::set_lib::lemma_len_subset(
                vstd::set_lib::set_int_range(0, cap as int),
                ints.to_set(),
            );
            ints.lemma_cardinality_of_set();
            assert(false);
        }
        Err(RCError::new("connection busy", RCErrorType::GenericError))
    }

    /// Resolves the completer of a received response by its stream id:
    /// reports whether it was pending, and removes it so that it can
    /// never resolve twice.
    pub fn complete(&mut self, id: i16) -> (r: bool)
        requires
            old(self).wf(),
        ensures
            final(self).wf(),
            final(self).version == old(self).version,
            r == old(self).pending@.contains(id),
            !final(self).pending@.contains(id),
            forall|x: i16| x != id ==> final(self).pending@.contains(x) == old(self).pending@.contains(x),
            final(self).pending@.len() == old(self).pending@.len() - (if r {
                1int
            } else {
                0int
            }),
    {
        let mut i: usize = 0;
        while i < self.pending.len()
            invariant
                self.wf(),
                *self == *old(self),
                i <= self.pending@.len(),
                forall|j: int| 0 <= j < i ==> self.pending@[j] != id,
            decreases self.pending@.len() - i,
        {
            if self.pending[i] == id {
                self.pending.remove(i);
                proof {
                    let after = self.pending@;
                    let before = old(self).pending@;
                    assert(after =~= before.subrange(0, i as int) + before.subrange(
                        i + 1,
                        before.len() as int,
                    ));
                    assert(before.contains(id));
                    assert forall|x: i16| after.contains(x) implies before.contains(x) by {
                        let k = choose|k: int| 0 <= k < after.len() && after[k] == x;
                        if k < i {
                            assert(before[k] == x);
                        } else {
                            assert(before[k + 1] == x);
                        }
                    }
                    assert(!after.contains(id)) by {
                        if after.contains(id) {
                            let k = choose|k: int| 0 <= k < after.len() && after[k] == id;
                            if k < i {
                                assert(before[k] == id);
                            } else {
                                assert(before[k + 1] == id);
                            }
                        }
                    }
                    assert forall|x: i16| x != id && before.contains(x) implies after.contains(
                        x,
                    ) by {
                        let k = choose|k: int| 0 <= k < before.len() && before[k] == x;
                        if k < i {
                            assert(after[k] == x);
                        } else {
                            assert(before[i as int] == id);
                            assert(k != i);
                            assert(after[k - 1] == x);
                        }
                    }
                    assert(after.no_duplicates()) by {
                        assert forall|m: int, n: int|
                            0 <= m < n < after.len() implies after[m] != after[n] by {
                            if n < i {
                                assert(after[m] == before[m] && after[n] == before[n]);
                            } else if m < i {
                                assert(after[m] == before[m] && after[n] == before[n + 1]);
                            } else {
                                assert(after[m] == before[m + 1] && after[n] == before[n + 1]);
                            }
                        }
                    }
                }
                return true;
            }
            i += 1;
        }
        false
    }

    /// Empties the table on connection closure, handing back every
    /// pending id so each completer can be failed exactly once.
    pub fn close(&mut self) -> (r: Vec<i16>)
        requires
            old(self).wf(),
        ensures
            final(self).wf(),
            final(self).version == old(self).version,
            final(self).pending@ == Seq::<i16>::empty(),
            r@ == old(self).pending@,
    {
        let mut out: Vec<i16> = Vec::new();
        core::mem::swap(&mut out, &mut self.pending);
        proof {
            assert(self.pending@ =~= Seq::<i16>::empty());
        }
        out
    }
}

/// Stream id correlation: a submission is granted an id that no other
/// pending request holds; the id stays pending until its response
/// arrives, and resolving it removes it, leaving every other pending id
/// untouched — so each completer is resolved exactly once, by the
/// response bearing its own stream id.
pub proof fn law_stream_correlation(p0: Seq<i16>, p1: Seq<i16>, p2: Seq<i16>, id: i16)
    requires
        !p0.contains(id),
        p1 == p0.push(id),
        !p2.contains(id),
        forall|x: i16| x != id ==> p2.contains(x) == p1.contains(x),
    ensures
        p1.contains(id),
        !p2.contains(id),
        forall|x: i16| x != id ==> p2.contains(x) == p0.contains(x),
{
    lemma_seq_contains_after_push(p0, id, id);
    assert forall|x: i16| x != id implies p2.contains(x) == p0.contains(x) by {
        lemma_seq_contains_after_push(p0, id, x);
    }
}

} // verus!
