//! A model of the two chained legacy interrupt controllers: vector
//! remapping, the per-line mask bits, and end-of-interrupt acknowledgment.
//!
//! The port writes that program the real chips happen outside this crate;
//! the state they act on — which chip owns a line, which bit carries its
//! mask, which chip must see the end-of-interrupt command — is modelled and
//! verified here.

use vstd::prelude::*;

verus! {

/// One controller chip: its remapped vector base, its per-line mask bits
/// (a set bit masks the line), and the log of end-of-interrupt commands it
/// has received.
pub struct Pic {
    pub offset: u8,
    pub mask: u8,
    pub eoi_log: Vec<u8>,
}

/// The mathematical value of one chip.
#[verifier::ext_equal]
pub ghost struct PicSnap {
    pub offset: u8,
    pub mask: u8,
    pub eoi_log: Seq<u8>,
}

impl View for Pic {
    type V = PicSnap;

    open spec fn view(&self) -> PicSnap {
        PicSnap { offset: self.offset, mask: self.mask, eoi_log: self.eoi_log@ }
    }
}

impl PicSnap {
    /// Whether this chip owns `vector`: the chip serves the 8 vectors
    /// starting at its remapped base.
    pub open spec fn handles(self, vector: u8) -> bool {
        self.offset <= vector < self.offset + 8
    }

    /// This chip after receiving one end-of-interrupt command while
    /// `vector` was being serviced.
    pub open spec fn with_eoi(self, vector: u8) -> PicSnap {
        PicSnap { eoi_log: self.eoi_log.push(vector), ..self }
    }
}

/// The two chained chips: hardware lines 0-7 are wired to the primary,
/// lines 8-15 to the secondary, which cascades into the primary.
pub struct Pics {
    pub primary: Pic,
    pub secondary: Pic,
}

/// The mathematical value of the chained pair.
#[verifier::ext_equal]
pub ghost struct PicsSnap {
    pub primary: PicSnap,
    pub secondary: PicSnap,
}

impl View for Pics {
    type V = PicsSnap;

    open spec fn view(&self) -> PicsSnap {
        PicsSnap { primary: self.primary@, secondary: self.secondary@ }
    }
}

impl PicsSnap {
    /// Whether hardware line `line` is masked at its owning chip: lines 0-7
    /// read the primary chip's bits, lines 8-15 the secondary's, with the
    /// bit offset reduced by 8.
    pub open spec fn line_masked(self, line: u8) -> bool
        recommends
            line < 16,
    {
        if line < 8 {
            self.primary.mask & (1u8 << line) != 0
        } else {
            self.secondary.mask & (1u8 << ((line - 8) as u8)) != 0
        }
    }

    /// The pair after an end-of-interrupt for `vector`: the owning chip
    /// logs the command; a vector owned by the secondary chip is also
    /// acknowledged to the primary, which carries the cascade line. A
    /// vector owned by neither chip changes nothing.
    pub open spec fn acked(self, vector: u8) -> PicsSnap {
        if self.secondary.handles(vector) {
            PicsSnap {
                primary: self.primary.with_eoi(vector),
                secondary: self.secondary.with_eoi(vector),
            }
        } else if self.primary.handles(vector) {
            PicsSnap { primary: self.primary.with_eoi(vector), ..self }
        } else {
            self
        }
    }

    /// The two offsets and both acknowledgment logs, unchanged — what every
    /// mask operation leaves alone.
    pub open spec fn same_but_masks(self, other: PicsSnap) -> bool {
        &&& self.primary.offset == other.primary.offset
        &&& self.primary.eoi_log == other.primary.eoi_log
        &&& self.secondary.offset == other.secondary.offset
        &&& self.secondary.eoi_log == other.secondary.eoi_log
    }
}

impl Pics {
    /// A freshly remapped pair of chips: vectors based at the two given
    /// offsets, every line masked (handlers are inert until registered,
    /// which unmasks their line), and no acknowledgments yet.
    pub fn new(offset1: u8, offset2: u8) -> (p: Pics)
        ensures
            p@.primary.offset == offset1,
            p@.secondary.offset == offset2,
            p@.primary.mask == 0xFFu8,
            p@.secondary.mask == 0xFFu8,
            p@.primary.eoi_log == Seq::<u8>::empty(),
            p@.secondary.eoi_log == Seq::<u8>::empty(),
            forall|l: u8| l < 16 ==> p@.line_masked(l),
    {
        let p = Pics {
            primary: Pic { offset: offset1, mask: 0xFF, eoi_log: Vec::new() },
            secondary: Pic { offset: offset2, mask: 0xFF, eoi_log: Vec::new() },
        };
        proof {
            assert forall|l: u8| l < 16 implies p@.line_masked(l) by {
                if l < 8 {
                    lemma_bit_test(0xFF, l);
                } else {
                    lemma_bit_test(0xFF, (l - 8) as u8);
                }
            }
        }
        p
    }

    /// Sends the end-of-interrupt command for `vector` to whichever chips
    /// must see it. This must happen exactly once per serviced hardware
    /// interrupt, or the owning chip delivers no further interrupts — and
    /// when the owner is the secondary chip, neither does the primary.
    pub fn notify_end_of_interrupt(&mut self, vector: u8)
        ensures
            final(self)@ == old(self)@.acked(vector),
    {
        if self.secondary.offset <= vector && (vector as u16) < self.secondary.offset as u16 + 8 {
            self.secondary.eoi_log.push(vector);
            self.primary.eoi_log.push(vector);
        } else if self.primary.offset <= vector && (vector as u16) < self.primary.offset as u16
            + 8 {
            self.primary.eoi_log.push(vector);
        }
        proof {
            assert(self@ =~~= old(self)@.acked(vector));
        }
    }
}

/// In a fully set mask every bit below 8 tests as set.
proof fn lemma_bit_test(m: u8, i: u8)
    requires
        i < 8,
        m == 0xFFu8,
    ensures
        m & (1u8 << i) != 0,
{
    assert(m == 0xFFu8 && i < 8 ==> m & (1u8 << i) != 0) by (bit_vector);
}

/// Setting bit `i` sets exactly that bit: bit `j` of the result is set iff
/// `j` is `i` or was set before.
proof fn lemma_or_bit(m: u8, i: u8, j: u8)
    requires
        i < 8,
        j < 8,
    ensures
        ((m | (1u8 << i)) & (1u8 << j) != 0) == (i == j || (m & (1u8 << j) != 0)),
{
    assert(i < 8 && j < 8 ==> (((m | (1u8 << i)) & (1u8 << j) != 0) == (i == j || (m & (1u8 << j)
        != 0)))) by (bit_vector);
}

/// Clearing bit `i` clears exactly that bit: bit `j` of the result is set
/// iff `j` differs from `i` and was set before.
proof fn lemma_andnot_bit(m: u8, i: u8, j: u8)
    requires
        i < 8,
        j < 8,
    ensures
        ((m & !(1u8 << i)) & (1u8 << j) != 0) == (i != j && (m & (1u8 << j) != 0)),
{
    assert(i < 8 && j < 8 ==> (((m & !(1u8 << i)) & (1u8 << j) != 0) == (i != j && (m & (1u8 << j)
        != 0)))) by (bit_vector);
}

/// Sets the mask bit for hardware line `irq`, silencing it at the
/// controller: the owning chip is the primary for lines 0-7 and the
/// secondary for lines 8-15, and the bit offset within the chip is the line
/// number reduced by 8 for the secondary. Exactly that one line becomes
/// masked.
pub fn set_irq_mask(pics: &mut Pics, irq: u8)
    requires
        irq < 16,
    ensures
        final(pics)@.same_but_masks(old(pics)@),
        irq < 8 ==> final(pics)@.primary.mask == (old(pics)@.primary.mask | (1u8 << irq))
            && final(pics)@.secondary.mask == old(pics)@.secondary.mask,
        irq >= 8 ==> final(pics)@.secondary.mask == (old(pics)@.secondary.mask | (1u8 << ((irq
            - 8) as u8))) && final(pics)@.primary.mask == old(pics)@.primary.mask,
        forall|l: u8|
            l < 16 ==> final(pics)@.line_masked(l) == (l == irq || old(pics)@.line_masked(l)),
{
    if irq < 8 {
        let bit = 1u8 << irq;
        pics.primary.mask = pics.primary.mask | bit;
    } else {
        let bit = 1u8 << (irq - 8);
        pics.secondary.mask = pics.secondary.mask | bit;
    }
    proof {
        assert forall|l: u8|
            l < 16 implies final(pics)@.line_masked(l) == (l == irq || old(pics)@.line_masked(
            l,
        )) by {
            if irq < 8 {
                if l < 8 {
                    lemma_or_bit(old(pics)@.primary.mask, irq, l);
                }
            } else {
                if l >= 8 {
                    lemma_or_bit(old(pics)@.secondary.mask, (irq - 8) as u8, (l - 8) as u8);
                }
            }
        }
    }
}

/// Clears the mask bit for hardware line `irq`, letting it fire again: the
/// chip and bit-offset choice is the same as for `set_irq_mask`, and
/// exactly that one line becomes unmasked.
pub fn clear_irq_mask(pics: &mut Pics, irq: u8)
    requires
        irq < 16,
    ensures
        final(pics)@.same_but_masks(old(pics)@),
        irq < 8 ==> final(pics)@.primary.mask == (old(pics)@.primary.mask & !(1u8 << irq))
            && final(pics)@.secondary.mask == old(pics)@.secondary.mask,
        irq >= 8 ==> final(pics)@.secondary.mask == (old(pics)@.secondary.mask & !(1u8 << ((irq
            - 8) as u8))) && final(pics)@.primary.mask == old(pics)@.primary.mask,
        forall|l: u8|
            l < 16 ==> final(pics)@.line_masked(l) == (l != irq && old(pics)@.line_masked(l)),
{
    if irq < 8 {
        let bit = 1u8 << irq;
        pics.primary.mask = pics.primary.mask & !bit;
    } else {
        let bit = 1u8 << (irq - 8);
        pics.secondary.mask = pics.secondary.mask & !bit;
    }
    proof {
        assert forall|l: u8|
            l < 16 implies final(pics)@.line_masked(l) == (l != irq && old(pics)@.line_masked(
            l,
        )) by {
            if irq < 8 {
                if l < 8 {
                    lemma_andnot_bit(old(pics)@.primary.mask, irq, l);
                }
            } else {
                if l >= 8 {
                    lemma_andnot_bit(old(pics)@.secondary.mask, (irq - 8) as u8, (l - 8) as u8);
                }
            }
        }
    }
}

} // verus!
