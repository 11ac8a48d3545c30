//! Byte-wise prefix comparison against a streamed rendering of a value:
//! the prefix is consumed as text arrives, so no rendered copy is kept.

use vstd::prelude::*;

verus! {

use vstd::string::StringSliceAdditionalSpecFns;

/// A prefix being consumed: `pos` bytes of `bytes` have already matched.
pub struct StartsWith {
    pub bytes: Vec<u8>,
    pub pos: usize,
}

impl StartsWith {
    pub open spec fn wf(self) -> bool {
        self.pos <= self.bytes@.len()
    }

    /// The bytes still waiting to be matched.
    pub open spec fn remaining(self) -> Seq<u8> {
        self.bytes@.subrange(self.pos as int, self.bytes@.len() as int)
    }

    pub fn new(prefix: &str) -> (r: StartsWith)
        ensures
            r.wf(),
            r.remaining() == prefix.spec_bytes(),
    {
        let b = prefix.as_bytes();
        let mut bytes: Vec<u8> = Vec::new();
        let mut i: usize = 0;
        while i < b.len()
            invariant
                i <= b.len(),
                bytes@ == b@.subrange(0, i as int),
            decreases b.len() - i,
        {
            bytes.push(b[i]);
            i = i + 1;
            proof {
                assert(bytes@ =~= b@.subrange(0, i as int));
            }
        }
        let r = StartsWith { bytes, pos: 0 };
        proof {
            assert(r.remaining() =~= prefix.spec_bytes());
        }
        r
    }

    /// Whether the whole prefix has been matched.
    pub fn is_empty(&self) -> (r: bool)
        requires
            self.wf(),
        ensures
            r == (self.remaining().len() == 0),
    {
        self.bytes.len() - self.pos == 0
    }

    /// How many prefix bytes still wait to be matched.
    pub fn len(&self) -> (r: usize)
        requires
            self.wf(),
        ensures
            r == self.remaining().len(),
    {
        self.bytes.len() - self.pos
    }

    /// Consumes and returns the next `n` waiting bytes; `n` must not
    /// exceed what remains.
    pub fn take(&mut self, n: usize) -> (r: Vec<u8>)
        requires
            old(self).wf(),
            n <= old(self).remaining().len(),
        ensures
            final(self).wf(),
            final(self).bytes == old(self).bytes,
            r@ == old(self).remaining().subrange(0, n as int),
            final(self).remaining() == old(self).remaining().subrange(
                n as int,
                old(self).remaining().len() as int,
            ),
    {
        let total = self.bytes.len();
        let mut r: Vec<u8> = Vec::new();
        let mut i: usize = 0;
        while i < n
            invariant
                old(self).wf(),
                i <= n,
                total == old(self).bytes@.len(),
                n + old(self).pos <= old(self).bytes@.len(),
                self.bytes == old(self).bytes,
                self.pos == old(self).pos + i,
                r@ == old(self).remaining().subrange(0, i as int),
            decreases n - i,
        {
            r.push(self.bytes[self.pos]);
            self.pos = self.pos + 1;
            i = i + 1;
            proof {
                assert(r@ =~= old(self).remaining().subrange(0, i as int));
            }
        }
        proof {
            assert(final(self).remaining() =~= old(self).remaining().subrange(
                n as int,
                old(self).remaining().len() as int,
            ));
        }
        r
    }

    /// One chunk of streamed text: matches as many waiting bytes as the
    /// chunk covers. Answers `false` — the stream is rejected — exactly
    /// when the overlap disagrees.
    pub fn write_str(&mut self, s: &str) -> (r: bool)
        requires
            old(self).wf(),
        ensures
            final(self).wf(),
            final(self).bytes == old(self).bytes,
            ({
                let n = if old(self).remaining().len() <= s.spec_bytes().len() {
                    old(self).remaining().len() as int
                } else {
                    s.spec_bytes().len() as int
                };
                &&& r == (old(self).remaining().subrange(0, n) == s.spec_bytes().subrange(0, n))
                &&& final(self).remaining() == old(self).remaining().subrange(
                    n,
                    old(self).remaining().len() as int,
                )
            }),
    {
        let sb = s.as_bytes();
        let n = if self.len() <= sb.len() {
            self.len()
        } else {
            sb.len()
        };
        let taken = self.take(n);
        let mut ok = true;
        let mut i: usize = 0;
        while i < n
            invariant
                i <= n,
                n <= taken@.len(),
                n <= sb@.len(),
                ok == (forall|k: int| 0 <= k < i ==> taken@[k] == sb@[k]),
            decreases n - i,
        {
            let agree = taken[i] == sb[i];
            ok = ok && agree;
            i = i + 1;
        }
        proof {
            assert(taken@ =~= taken@.subrange(0, n as int));
            if ok {
                assert(old(self).remaining().subrange(0, n as int) =~= sb@.subrange(0, n as int));
            } else {
                if old(self).remaining().subrange(0, n as int) == sb@.subrange(0, n as int) {
                    assert(forall|k: int|
                        0 <= k < n ==> taken@[k] == old(self).remaining().subrange(0, n as int)[k]
                            && sb@[k] == sb@.subrange(0, n as int)[k]);
                    assert(false);
                }
            }
        }
        ok
    }
}

/// Byte-wise prefix tests.
pub struct ByteCompare;

impl ByteCompare {
    /// Whether the rendering of `original` starts with `prefix`, compared
    /// byte by byte.
    pub fn starts_with(original: &str, prefix: &str) -> (r: bool)
        ensures
            r == (prefix.spec_bytes().len() <= original.spec_bytes().len()
                && original.spec_bytes().subrange(0, prefix.spec_bytes().len() as int)
                == prefix.spec_bytes()),
    {
        let mut b = StartsWith::new(prefix);
        let matched = b.write_str(original);
        let done = b.is_empty();
        proof {
            let pb = prefix.spec_bytes();
            let ob = original.spec_bytes();
            if pb.len() <= ob.len() {
                assert(pb.subrange(0, pb.len() as int) =~= pb);
            }
        }
        matched && done
    }
}

} // verus!
