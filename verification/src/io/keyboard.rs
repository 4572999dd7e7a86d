//! Host keyboard buffer feeding characters to the console.
use vstd::prelude::*;
use vstd::string::StringSliceAdditionalSpecFns;

verus! {

/// Keyboard controller for the IMSAI 8080: a queue of typed bytes.
pub struct Keyboard {
    buffer: Vec<u8>,
    position: usize,
}

impl View for Keyboard {
    type V = Seq<u8>;

    /// The bytes typed and not yet read, oldest first.
    closed spec fn view(&self) -> Seq<u8> {
        self.buffer@.subrange(self.position as int, self.buffer@.len() as int)
    }
}

impl Keyboard {
    /// The read position stays inside the buffer.
    pub closed spec fn wf(&self) -> bool {
        self.position <= self.buffer@.len()
    }

    pub fn new() -> (r: Self)
        ensures
            r.wf(),
            r@ == Seq::<u8>::empty(),
    {
        let r = Self { buffer: Vec::new(), position: 0 };
        assert(r@ =~= Seq::<u8>::empty());
        r
    }

    pub fn is_char_ready(&self) -> (r: bool)
        requires
            self.wf(),
        ensures
            r == (self@.len() > 0),
    {
        !self.buffer.is_empty() && self.position < self.buffer.len()
    }

    /// Take the oldest pending byte, if any.
    pub fn read_char(&mut self) -> (r: Option<u8>)
        requires
            old(self).wf(),
        ensures
            final(self).wf(),
            old(self)@.len() > 0 ==> r == Some(old(self)@[0]) && final(self)@ == old(
                self,
            )@.drop_first(),
            old(self)@.len() == 0 ==> r is None && final(self)@ == old(self)@,
            (r, final(self)@) == key_read(old(self)@),
    {
        if self.position < self.buffer.len() {
            let ch = self.buffer[self.position];
            self.position = self.position + 1;
            if self.position >= self.buffer.len() {
                self.buffer.clear();
                self.position = 0;
            }
            assert(self@ =~= old(self)@.drop_first());
            Some(ch)
        } else {
            None
        }
    }

    /// Queue the UTF-8 bytes of `text` after the pending bytes.
    pub fn type_text(&mut self, text: &str)
        requires
            old(self).wf(),
        ensures
            final(self).wf(),
            final(self)@ == old(self)@ + text.spec_bytes(),
    {
        let bytes = text.as_bytes();
        let ghost start = self@;
        let mut i: usize = 0;
        while i < bytes.len()
            invariant
                i <= bytes@.len(),
                self.wf(),
                bytes@ == text.spec_bytes(),
                self@ == start + bytes@.subrange(0, i as int),
            decreases bytes@.len() - i,
        {
            let ghost before = self@;
            self.buffer.push(bytes[i]);
            assert(self@ =~= before.push(bytes@[i as int]));
            assert(self@ =~= start + bytes@.subrange(0, i + 1));
            i = i + 1;
        }
        assert(bytes@.subrange(0, bytes@.len() as int) =~= bytes@);
    }

    /// Drop every pending byte.
    pub fn clear_buffer(&mut self)
        ensures
            final(self).wf(),
            final(self)@ == Seq::<u8>::empty(),
    {
        self.buffer.clear();
        self.position = 0;
        assert(self@ =~= Seq::<u8>::empty());
    }
}

impl Default for Keyboard {
    fn default() -> (r: Self)
        ensures
            r.wf(),
            r@ == Seq::<u8>::empty(),
    {
        Self::new()
    }
}

/// What one read of the keyboard gives for queue `q`, and the queue after.
pub open spec fn key_read(q: Seq<u8>) -> (Option<u8>, Seq<u8>) {
    if q.len() > 0 {
        (Some(q[0]), q.drop_first())
    } else {
        (None, q)
    }
}

/// What `n` reads in a row give for queue `q`, and the queue after them.
pub open spec fn key_reads(q: Seq<u8>, n: nat) -> (Seq<Option<u8>>, Seq<u8>)
    decreases n,
{
    if n == 0 {
        (Seq::empty(), q)
    } else {
        let (rs, q1) = key_reads(q, (n - 1) as nat);
        let (r, q2) = key_read(q1);
        (rs.push(r), q2)
    }
}

/// Typed bytes come back in order: `n` reads of queue `q` (at most its
/// length) give its first `n` bytes, oldest first, and leave the rest, so
/// a key is ready exactly while bytes remain; one read more than the queue
/// holds gives nothing.
pub proof fn lemma_reads_in_order(q: Seq<u8>, n: nat)
    requires
        n <= q.len(),
    ensures
        key_reads(q, n).0 == Seq::new(n, |i: int| Some(q[i])),
        key_reads(q, n).1 == q.skip(n as int),
        key_reads(q, n).1.len() > 0 <==> n < q.len(),
        key_reads(q, (q.len() + 1) as nat).0.last() is None,
    decreases n,
{
    if n > 0 {
        lemma_reads_in_order(q, (n - 1) as nat);
        assert(q.skip((n - 1) as int).drop_first() =~= q.skip(n as int));
        assert(key_reads(q, n).0 =~= Seq::new(n, |i: int| Some(q[i])));
    }
    lemma_reads_all(q, q.len());
}

/// Reading a queue to its end leaves it empty.
proof fn lemma_reads_all(q: Seq<u8>, n: nat)
    requires
        n <= q.len(),
    ensures
        key_reads(q, n).1 == q.skip(n as int),
    decreases n,
{
    if n > 0 {
        lemma_reads_all(q, (n - 1) as nat);
        assert(q.skip((n - 1) as int).drop_first() =~= q.skip(n as int));
    }
}

} // verus!
