use vstd::prelude::*;

verus! {

/// The bytes received from a connection and not yet consumed, in arrival order.
pub struct ByteQueue {
    data: Vec<u8>,
    pos: usize,
}

impl View for ByteQueue {
    type V = Seq<u8>;

    closed spec fn view(&self) -> Seq<u8> {
        self.data@.subrange(self.pos as int, self.data@.len() as int)
    }
}

impl ByteQueue {
    pub closed spec fn wf(&self) -> bool {
        self.pos <= self.data@.len()
    }

    /// An empty queue.
    pub fn new() -> (r: ByteQueue)
        ensures
            r.wf(),
            r@ == Seq::<u8>::empty(),
    {
        let r = ByteQueue { data: Vec::new(), pos: 0 };
        assert(r@ =~= Seq::<u8>::empty());
        r
    }

    /// A queue holding `data`.
    pub fn from_vec(data: Vec<u8>) -> (r: ByteQueue)
        ensures
            r.wf(),
            r@ == data@,
    {
        let r = ByteQueue { data, pos: 0 };
        assert(r@ =~= data@);
        r
    }

    /// The number of unconsumed bytes.
    pub fn len(&self) -> (r: usize)
        requires
            self.wf(),
        ensures
            r == self@.len(),
    {
        self.data.len() - self.pos
    }

    /// Appends newly received bytes at the end.
    pub fn extend(&mut self, bytes: &[u8])
        requires
            old(self).wf(),
        ensures
            final(self).wf(),
            final(self)@ == old(self)@ + bytes@,
    {
        if self.pos == self.data.len() {
            self.data.clear();
            self.pos = 0;
        }
        self.data.extend_from_slice(bytes);
        assert(self@ =~= old(self)@ + bytes@);
    }

    /// The unconsumed byte at index `i`, without consuming it.
    pub fn peek(&self, i: usize) -> (r: u8)
        requires
            self.wf(),
            i < self@.len(),
        ensures
            r == self@[i as int],
    {
        let _ = self.data.len();
        self.data[self.pos + i]
    }

    /// Consumes the first `n` bytes and returns them.
    pub fn take(&mut self, n: usize) -> (r: Vec<u8>)
        requires
            old(self).wf(),
            n <= old(self)@.len(),
        ensures
            final(self).wf(),
            r@ == old(self)@.take(n as int),
            final(self)@ == old(self)@.skip(n as int),
    {
        let mut out: Vec<u8> = Vec::new();
        let mut i: usize = 0;
        while i < n
            invariant
                self.wf(),
                i <= n,
                n <= old(self)@.len(),
                self.data@ == old(self).data@,
                self.pos == old(self).pos + i,
                out@ == old(self)@.take(i as int),
            decreases n - i,
        {
            let _ = self.data.len();
            out.push(self.data[self.pos]);
            self.pos = self.pos + 1;
            assert(out@ =~= old(self)@.take(i + 1));
            i = i + 1;
        }
        assert(self@ =~= old(self)@.skip(n as int));
        out
    }

    /// Consumes the first `n` bytes and discards them.
    pub fn skip(&mut self, n: usize)
        requires
            old(self).wf(),
            n <= old(self)@.len(),
        ensures
            final(self).wf(),
            final(self)@ == old(self)@.skip(n as int),
    {
        let _ = self.data.len();
        self.pos = self.pos + n;
        assert(self@ =~= old(self)@.skip(n as int));
    }
}

} // verus!
