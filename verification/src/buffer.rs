use vstd::prelude::*;

verus! {

/// The byte accumulator of the framing layer: chunks arrive at the
/// tail as the source delivers them, and whole sections are dropped
/// from the front once consumed. A linear buffer; the visible window
/// is all of it.
pub struct Buffer {
    pub data: Vec<u8>,
}

impl Buffer {
    /// The bytes currently visible to the parser.
    pub open spec fn window(self) -> Seq<u8> {
        self.data@
    }

    pub fn new() -> (r: Buffer)
        ensures
            r.window() == Seq::<u8>::empty(),
    {
        Buffer { data: Vec::new() }
    }

    pub fn len(&self) -> (r: usize)
        ensures
            r == self.window().len(),
    {
        self.data.len()
    }

    /// Append a freshly read chunk at the tail.
    pub fn feed(&mut self, chunk: &[u8])
        ensures
            final(self).window() == old(self).window() + chunk@,
    {
        let n = chunk.len();
        let mut i: usize = 0;
        while i < n
            invariant
                i <= n == chunk@.len(),
                self.data@ == old(self).data@ + chunk@.subrange(0, i as int),
            decreases n - i,
        {
            let b = *vstd::slice::slice_index_get(chunk, i);
            self.data.push(b);
            proof {
                assert(old(self).data@ + chunk@.subrange(0, i + 1 as int) =~= (old(self).data@
                    + chunk@.subrange(0, i as int)).push(chunk@[i as int]));
            }
            i = i + 1;
        }
        proof {
            assert(chunk@.subrange(0, chunk@.len() as int) =~= chunk@);
        }
    }

    /// Drop the `n` leading bytes: they have been consumed.
    pub fn advance(&mut self, n: usize)
        requires
            n <= old(self).window().len(),
        ensures
            final(self).window() == old(self).window().subrange(
                n as int,
                old(self).window().len() as int,
            ),
    {
        let len = self.data.len();
        let mut rest: Vec<u8> = Vec::new();
        let mut i: usize = n;
        while i < len
            invariant
                n <= i <= len == self.data@.len(),
                self.data == old(self).data,
                rest@ == self.data@.subrange(n as int, i as int),
            decreases len - i,
        {
            rest.push(self.data[i]);
            proof {
                assert(self.data@.subrange(n as int, i + 1 as int) =~= self.data@.subrange(
                    n as int,
                    i as int,
                ).push(self.data@[i as int]));
            }
            i = i + 1;
        }
        self.data = rest;
    }
}

} // verus!
