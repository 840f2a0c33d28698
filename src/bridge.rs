use vstd::prelude::*;

use crate::error::SessionError;
use crate::utf8::{
    decode_utf8, held_tail, held_tail_len, is_char_encoding, lemma_complete_character_is_released,
    utf8_text,
};

verus! {

/// Bytes read from the terminal's master side and not yet handed to the
/// consumer. `buf[pos..]` is pending; everything before `pos` was consumed.
pub struct ReadBuffer {
    buf: Vec<u8>,
    pos: usize,
    produced: Ghost<Seq<u8>>,
    delivered: Ghost<Seq<u8>>,
}

/// The part of `p` that a read hands out: all but an incomplete trailing character.
pub open spec fn deliverable(p: Seq<u8>) -> Seq<u8> {
    p.subrange(0, p.len() - held_tail(p))
}

/// The part of `p` that a read leaves pending.
pub open spec fn held_back(p: Seq<u8>) -> Seq<u8> {
    p.subrange(p.len() - held_tail(p), p.len() as int)
}

impl ReadBuffer {
    /// Bytes buffered and not yet consumed.
    pub closed spec fn pending(&self) -> Seq<u8> {
        self.buf@.subrange(self.pos as int, self.buf@.len() as int)
    }

    /// Every byte that ever entered the buffer, in order.
    pub closed spec fn produced(&self) -> Seq<u8> {
        self.produced@
    }

    /// Every byte that reads have handed out, in order.
    pub closed spec fn delivered(&self) -> Seq<u8> {
        self.delivered@
    }

    /// The consumed offset never passes the end, and what was delivered followed
    /// by what is pending is exactly what was produced.
    pub closed spec fn wf(&self) -> bool {
        &&& self.pos <= self.buf@.len()
        &&& self.produced@ == self.delivered@ + self.pending()
    }

    pub fn new() -> (r: ReadBuffer)
        ensures
            r.wf(),
            r.pending() == Seq::<u8>::empty(),
            r.produced() == Seq::<u8>::empty(),
            r.delivered() == Seq::<u8>::empty(),
    {
        let r = ReadBuffer {
            buf: Vec::new(),
            pos: 0,
            produced: Ghost(Seq::empty()),
            delivered: Ghost(Seq::empty()),
        };
        proof {
            assert(r.pending() =~= Seq::<u8>::empty());
        }
        r
    }

    /// Number of pending bytes.
    pub fn pending_len(&self) -> (r: usize)
        requires
            self.wf(),
        ensures
            r == self.pending().len(),
    {
        self.buf.len() - self.pos
    }

    /// Appends bytes that arrived from the master side.
    pub fn fill(&mut self, data: &[u8])
        requires
            old(self).wf(),
        ensures
            final(self).wf(),
            final(self).pending() == old(self).pending() + data@,
            final(self).produced() == old(self).produced() + data@,
            final(self).delivered() == old(self).delivered(),
    {
        if self.pos == self.buf.len() {
            self.buf.clear();
            self.pos = 0;
            proof {
                assert(old(self).pending() =~= Seq::<u8>::empty());
            }
        }
        let ghost start = self.pending();
        let ghost pos0 = self.pos;
        let mut i: usize = 0;
        while i < data.len()
            invariant
                i <= data@.len(),
                self.pos == pos0,
                pos0 <= self.buf@.len(),
                self.buf@.subrange(pos0 as int, self.buf@.len() as int) == start + data@.subrange(0, i as int),
                self.produced == old(self).produced,
                self.delivered == old(self).delivered,
            decreases data@.len() - i,
        {
            let ghost before = self.buf@;
            self.buf.push(data[i]);
            i = i + 1;
            proof {
                assert(self.buf@.subrange(pos0 as int, self.buf@.len() as int) =~= before.subrange(
                    pos0 as int,
                    before.len() as int,
                ).push(data@[i - 1]));
                assert(data@.subrange(0, i as int) =~= data@.subrange(0, i - 1).push(data@[i - 1]));
            }
        }
        proof {
            assert(data@.subrange(0, data@.len() as int) =~= data@);
            self.produced = Ghost(old(self).produced@ + data@);
            assert(self.produced@ =~= self.delivered@ + self.pending());
        }
    }

    /// How many pending bytes the next read hands out: all but an incomplete
    /// trailing character.
    pub fn deliverable_len(&self) -> (r: usize)
        requires
            self.wf(),
        ensures
            r == deliverable(self.pending()).len(),
    {
        let held = held_tail_len(vstd::slice::slice_subrange(self.buf.as_slice(), self.pos, self.buf.len()));
        self.buf.len() - self.pos - held
    }

    /// Completes a read of the first `len` pending bytes, given what they decode to:
    /// text is handed out and exactly those bytes are consumed; no text is a read
    /// failure that consumes nothing.
    pub fn settle_read(&mut self, len: usize, decoded: Option<String>) -> (r: Result<Option<String>, SessionError>)
        requires
            old(self).wf(),
            len <= old(self).pending().len(),
        ensures
            final(self).wf(),
            final(self).produced() == old(self).produced(),
            decoded is None ==> r == Err::<Option<String>, SessionError>(SessionError::ReadFailed)
                && *final(self) == *old(self),
            decoded is Some ==> r == Ok::<Option<String>, SessionError>(decoded)
                && final(self).pending() == old(self).pending().subrange(len as int, old(self).pending().len() as int)
                && final(self).delivered() == old(self).delivered() + old(self).pending().subrange(0, len as int),
    {
        match decoded {
            None => Err(SessionError::ReadFailed),
            Some(text) => {
                let ghost p = self.pending();
                let n = self.buf.len();
                assert(p.len() == n - self.pos);
                self.pos = self.pos + len;
                proof {
                    self.delivered = Ghost(old(self).delivered@ + p.subrange(0, len as int));
                    assert(self.pending() =~= p.subrange(len as int, p.len() as int));
                    assert(p =~= p.subrange(0, len as int) + p.subrange(len as int, p.len() as int));
                    assert(self.produced@ =~= self.delivered@ + self.pending());
                }
                Ok(Some(text))
            },
        }
    }

    /// Non-blocking read: `None` when no complete character is pending; otherwise
    /// the pending bytes up to the last complete character, decoded as UTF-8 and
    /// consumed, or `ReadFailed` (consuming nothing) where they are not valid UTF-8.
    pub fn read_chunk(&mut self) -> (r: Result<Option<String>, SessionError>)
        requires
            old(self).wf(),
        ensures
            final(self).wf(),
            final(self).produced() == old(self).produced(),
            ({
                let p = old(self).pending();
                let d = deliverable(p);
                if d.len() == 0 {
                    r == Ok::<Option<String>, SessionError>(None) && *final(self) == *old(self)
                } else if utf8_text(d) is None {
                    r == Err::<Option<String>, SessionError>(SessionError::ReadFailed)
                        && *final(self) == *old(self)
                } else {
                    &&& r is Ok && r->Ok_0 is Some
                    &&& Some(r->Ok_0->Some_0@) == utf8_text(d)
                    &&& final(self).pending() == held_back(p)
                    &&& final(self).delivered() == old(self).delivered() + d
                }
            }),
    {
        let len = self.deliverable_len();
        if len == 0 {
            return Ok(None);
        }
        let n = self.buf.len();
        assert(self.pending().len() == n - self.pos);
        let chunk = vstd::slice::slice_subrange(self.buf.as_slice(), self.pos, self.pos + len);
        proof {
            assert(chunk@ =~= deliverable(self.pending()));
        }
        let decoded = decode_utf8(chunk);
        self.settle_read(len, decoded)
    }
}

/// A read splits the pending bytes into what it hands out and what stays, in
/// order and without overlap; at most the three bytes of an unfinished character stay.
pub proof fn lemma_read_partitions_pending(p: Seq<u8>)
    ensures
        deliverable(p) + held_back(p) == p,
        held_back(p).len() <= 3,
{
    assert(deliverable(p) + held_back(p) =~= p);
}

/// Bytes that the shell echoes back whole, ending with a complete character,
/// are handed out in full by one read: nothing lost, repeated or reordered.
pub proof fn lemma_echo_is_delivered_whole(b: Seq<u8>, last: Seq<u8>)
    requires
        is_char_encoding(last),
    ensures
        deliverable(b + last) == b + last,
        held_back(b + last).len() == 0,
{
    lemma_complete_character_is_released(b, last);
    assert(deliverable(b + last) =~= b + last);
}

/// The consumed offset and the pending region always account for every byte
/// produced: nothing is counted twice and nothing is skipped; once nothing is
/// pending, exactly what was produced has been delivered.
pub proof fn lemma_offsets_balance(r: &ReadBuffer)
    requires
        r.wf(),
    ensures
        r.delivered().len() + r.pending().len() == r.produced().len(),
        r.delivered() == r.produced().subrange(0, r.delivered().len() as int),
        r.pending().len() == 0 ==> r.delivered() == r.produced(),
{
    assert(r.delivered() =~= r.produced().subrange(0, r.delivered().len() as int));
    if r.pending().len() == 0 {
        assert(r.delivered() =~= r.produced());
    }
}

} // verus!
