//! The toy in-memory filesystem record format: an index of units, each a
//! label terminated by a separator byte, a type tag, and a 32-bit payload
//! stored little-endian. A read head (`heading`) tracks the end of the
//! last unit touched; `forward` commits it as the new unit pointer.

use vstd::prelude::*;

verus! {

/// Total budget of the in-memory store, split between index and data.
pub const FS_MAX_SIZE: usize = 0x400 * 0x400 * 10;

pub const INDEX_SIZE: usize = FS_MAX_SIZE / 8;

pub const DATA_SIZE: usize = FS_MAX_SIZE * 7 / 8;

/// Terminates a unit's label inside the index.
pub const DATA_SEP: u8 = 0x1E;

pub const TYPE_FILE: u8 = 0x11;

pub const TYPE_DIR: u8 = 0x12;

/// A label with a pointer to the directory's contents located in the
/// index.
pub struct Directory {
    pub label: Vec<u8>,
    pub data: usize,
}

/// A label with a pointer to the file's contents located in the data
/// table.
pub struct File {
    pub label: Vec<u8>,
    pub data: usize,
}

pub enum FileType {
    Directory(Directory),
    File(File),
}

impl FileType {
    pub open spec fn spec_label(self) -> Seq<u8> {
        match self {
            FileType::Directory(d) => d.label@,
            FileType::File(f) => f.label@,
        }
    }

    pub open spec fn spec_data(self) -> usize {
        match self {
            FileType::Directory(d) => d.data,
            FileType::File(f) => f.data,
        }
    }

    /// The type tag a unit of this kind carries in the index.
    pub open spec fn spec_tag(self) -> u8 {
        match self {
            FileType::Directory(_) => TYPE_DIR,
            FileType::File(_) => TYPE_FILE,
        }
    }
}

/// The position of the first separator byte at or after `from`.
pub open spec fn first_sep(index: Seq<u8>, from: nat) -> Option<int>
    decreases index.len() - from,
{
    if from >= index.len() {
        None
    } else if index[from as int] == DATA_SEP {
        Some(from as int)
    } else {
        first_sep(index, from + 1)
    }
}

/// Everything `first_sep` promises: the returned position is the first
/// separator at or after `from`, and a `None` answer means there is none.
pub proof fn lemma_first_sep_props(index: Seq<u8>, from: nat)
    ensures
        match first_sep(index, from) {
            Some(e) => from <= e < index.len() && index[e] == DATA_SEP && forall|k: int|
                from <= k < e ==> index[k] != DATA_SEP,
            None => forall|k: int| from <= k < index.len() ==> index[k] != DATA_SEP,
        },
    decreases index.len() - from,
{
    if from >= index.len() {
    } else if index[from as int] == DATA_SEP {
    } else {
        lemma_first_sep_props(index, from + 1);
    }
}

/// A separator-free stretch followed by a separator makes the scan land
/// exactly on the separator.
pub proof fn lemma_first_sep_finds(index: Seq<u8>, from: nat, e: int)
    requires
        from <= e < index.len(),
        index[e] == DATA_SEP,
        forall|k: int| from <= k < e ==> index[k] != DATA_SEP,
    ensures
        first_sep(index, from) == Some(e),
    decreases e - from,
{
    if index[from as int] == DATA_SEP {
    } else {
        lemma_first_sep_finds(index, from + 1, e);
    }
}

/// Reassembling a 32-bit payload from its four little-endian bytes gives
/// the payload back.
proof fn lemma_le_bytes_reassemble(data: u64)
    requires
        data < 0x1_0000_0000,
    ensures
        ((data & 0xFF) | (((data >> 8) & 0xFF) << 8) | (((data >> 16) & 0xFF) << 16) | (((data
            >> 24) & 0xFF) << 24)) == data,
{
    assert(data < 0x1_0000_0000 ==> ((data & 0xFF) | (((data >> 8) & 0xFF) << 8) | (((data >> 16)
        & 0xFF) << 16) | (((data >> 24) & 0xFF) << 24)) == data) by (bit_vector);
}

/// Writing a unit and reading it back at the same pointer round-trips:
/// the label scan stops exactly at the written separator, the label reads
/// back unchanged, the kind survives, and the four little-endian bytes
/// reassemble into the payload that went in. This needs a label free of
/// the separator byte, which could otherwise cut the label short.
pub proof fn lemma_unit_round_trip(index: Seq<u8>, p: int, label: Seq<u8>, tag: u8, data: usize)
    requires
        0 <= p,
        p + label.len() + 6 <= index.len(),
        index.len() == INDEX_SIZE,
        data < 0x1_0000_0000,
        tag == TYPE_FILE || tag == TYPE_DIR,
        forall|k: int| 0 <= k < label.len() ==> label[k] != DATA_SEP,
        index.subrange(p, p + label.len()) == label,
        index[p + label.len()] == DATA_SEP,
        index[p + label.len() + 1] == tag,
        index[p + label.len() + 2] == (data & 0xFF) as u8,
        index[p + label.len() + 3] == ((data >> 8) & 0xFF) as u8,
        index[p + label.len() + 4] == ((data >> 16) & 0xFF) as u8,
        index[p + label.len() + 5] == ((data >> 24) & 0xFF) as u8,
    ensures
        first_sep(index, p as nat) == Some(p + label.len()),
        ({
            let e = p + label.len() as int;
            &&& index.subrange(p, e) == label
            &&& (index[e + 2] as usize) | ((index[e + 3] as usize) << 8) | ((index[e
                + 4] as usize) << 16) | ((index[e + 5] as usize) << 24) == data
        }),
{
    let e = p + label.len() as int;
    assert forall|k: int| p <= k < e implies index[k] != DATA_SEP by {
        assert(index.subrange(p, e)[k - p] == label[k - p]);
    }
    lemma_first_sep_finds(index, p as nat, e);
    let d = data as u64;
    lemma_le_bytes_reassemble(d);
    assert(((d & 0xFF) as u8 as u64) == (d & 0xFF) && (((d >> 8) & 0xFF) as u8 as u64) == ((d
        >> 8) & 0xFF) && (((d >> 16) & 0xFF) as u8 as u64) == ((d >> 16) & 0xFF) && (((d >> 24)
        & 0xFF) as u8 as u64) == ((d >> 24) & 0xFF)) by (bit_vector);
    assert((((d & 0xFF) as u8) as usize) | ((((d >> 8) & 0xFF) as u8 as usize) << 8) | ((((d
        >> 16) & 0xFF) as u8 as usize) << 16) | ((((d >> 24) & 0xFF) as u8 as usize) << 24)
        == data) by (bit_vector)
        requires
            d == data as u64,
            data < 0x1_0000_0000,
    ;
    assert((data & 0xFF) as u8 == (d & 0xFF) as u8 && ((data >> 8) & 0xFF) as u8 == ((d >> 8)
        & 0xFF) as u8 && ((data >> 16) & 0xFF) as u8 == ((d >> 16) & 0xFF) as u8 && ((data >> 24)
        & 0xFF) as u8 == ((d >> 24) & 0xFF) as u8) by (bit_vector)
        requires
            d == data as u64,
    ;
}

/// The in-memory store: the unit index, the data table, the read head and
/// the committed unit pointer.
pub struct Filesystem {
    pub index: Vec<u8>,
    pub fs: Vec<u8>,
    pub heading: usize,
    pub ptr: usize,
}

impl Filesystem {
    pub open spec fn wf(self) -> bool {
        &&& self.index@.len() == INDEX_SIZE
        &&& self.fs@.len() == DATA_SIZE
        &&& self.ptr <= INDEX_SIZE
        &&& self.heading <= INDEX_SIZE
    }

    /// An empty store: both regions zeroed, head and pointer at the start.
    pub fn new() -> (r: Filesystem)
        ensures
            r.wf(),
            r.heading == 0,
            r.ptr == 0,
            forall|i: int| 0 <= i < r.index@.len() ==> r.index@[i] == 0,
            forall|i: int| 0 <= i < r.fs@.len() ==> r.fs@[i] == 0,
    {
        Filesystem { index: zero_bytes(INDEX_SIZE), fs: zero_bytes(DATA_SIZE), heading: 0, ptr: 0 }
    }

    /// Commits the read head as the new unit pointer, so the next unit
    /// operation works past the last unit touched.
    pub fn forward(&mut self)
        ensures
            final(self).ptr == old(self).heading,
            final(self).heading == old(self).heading,
            final(self).index == old(self).index,
            final(self).fs == old(self).fs,
    {
        self.ptr = self.heading;
    }

    /// Writes one unit at the unit pointer: the label, the separator, the
    /// type tag, then the payload as four little-endian bytes. The read
    /// head ends just past the unit; the unit pointer does not move until
    /// `forward`.
    pub fn write_unit(&mut self, file: FileType)
        requires
            old(self).wf(),
            old(self).ptr + file.spec_label().len() + 6 <= INDEX_SIZE,
            file.spec_data() < 0x1_0000_0000,
        ensures
            final(self).wf(),
            final(self).heading == old(self).ptr + file.spec_label().len() + 6,
            final(self).ptr == old(self).ptr,
            final(self).fs == old(self).fs,
            ({
                let p = old(self).ptr as int;
                let label = file.spec_label();
                let n = label.len() as int;
                let data = file.spec_data();
                &&& final(self).index@.subrange(p, p + n) == label
                &&& final(self).index@[p + n] == DATA_SEP
                &&& final(self).index@[p + n + 1] == file.spec_tag()
                &&& final(self).index@[p + n + 2] == (data & 0xFF) as u8
                &&& final(self).index@[p + n + 3] == ((data >> 8) & 0xFF) as u8
                &&& final(self).index@[p + n + 4] == ((data >> 16) & 0xFF) as u8
                &&& final(self).index@[p + n + 5] == ((data >> 24) & 0xFF) as u8
                &&& forall|k: int|
                    0 <= k < INDEX_SIZE && !(p <= k < p + n + 6) ==> final(self).index@[k] == old(
                        self,
                    ).index@[k]
            }),
    {
        let (label, tag, data) = match file {
            FileType::Directory(d) => (d.label, TYPE_DIR, d.data),
            FileType::File(f) => (f.label, TYPE_FILE, f.data),
        };
        self.heading = self.ptr;
        let mut i: usize = 0;
        let n = label.len();
        while i < n
            invariant
                old(self).wf(),
                i <= n,
                n == label@.len(),
                old(self).ptr + n + 6 <= INDEX_SIZE,
                self.heading == old(self).ptr + i,
                self.ptr == old(self).ptr,
                self.fs == old(self).fs,
                self.index@.len() == INDEX_SIZE,
                self.index@.subrange(old(self).ptr as int, old(self).ptr + i) == label@.subrange(
                    0,
                    i as int,
                ),
                forall|k: int|
                    0 <= k < INDEX_SIZE && !(old(self).ptr <= k < old(self).ptr + i)
                        ==> self.index@[k] == old(self).index@[k],
            decreases n - i,
        {
            self.index[self.heading] = label[i];
            self.heading = self.heading + 1;
            i = i + 1;
            proof {
                assert(self.index@.subrange(old(self).ptr as int, old(self).ptr + i)
                    =~= label@.subrange(0, i as int));
            }
        }
        let ghost base = self.index@;
        self.index[self.heading] = DATA_SEP;
        self.heading = self.heading + 1;
        self.index[self.heading] = tag;
        self.heading = self.heading + 1;
        self.index[self.heading] = #[verifier::truncate] ((data & 0xFF) as u8);
        self.heading = self.heading + 1;
        self.index[self.heading] = #[verifier::truncate] (((data >> 8) & 0xFF) as u8);
        self.heading = self.heading + 1;
        self.index[self.heading] = #[verifier::truncate] (((data >> 16) & 0xFF) as u8);
        self.heading = self.heading + 1;
        self.index[self.heading] = #[verifier::truncate] (((data >> 24) & 0xFF) as u8);
        self.heading = self.heading + 1;
        proof {
            let p = old(self).ptr as int;
            let n = label@.len() as int;
            assert forall|j: int| 0 <= j < n implies final(self).index@[p + j] == label@[j] by {
                assert(base[p + j] == base.subrange(p, p + n)[j]);
            }
            assert(final(self).index@.subrange(p, p + n) =~= label@);
        }
    }

    /// Reads the unit at the unit pointer: scans the index for the label's
    /// separator, then takes the type tag and the four little-endian
    /// payload bytes. The read head ends just past the unit. A tag other
    /// than the directory tag reads as a file.
    pub fn read_unit(&mut self) -> (r: FileType)
        requires
            old(self).wf(),
            first_sep(old(self).index@, old(self).ptr as nat) is Some,
            first_sep(old(self).index@, old(self).ptr as nat)->Some_0 + 6 <= INDEX_SIZE,
        ensures
            final(self).wf(),
            final(self).index == old(self).index,
            final(self).fs == old(self).fs,
            final(self).ptr == old(self).ptr,
            ({
                let e = first_sep(old(self).index@, old(self).ptr as nat)->Some_0;
                let index = old(self).index@;
                &&& final(self).heading == e + 6
                &&& r.spec_label() == index.subrange(old(self).ptr as int, e)
                &&& r.spec_data() == (index[e + 2] as usize) | ((index[e + 3] as usize) << 8) | ((
                index[e + 4] as usize) << 16) | ((index[e + 5] as usize) << 24)
                &&& (r is Directory <==> index[e + 1] == TYPE_DIR)
            }),
    {
        proof {
            lemma_first_sep_props(old(self).index@, old(self).ptr as nat);
        }
        let ghost e = first_sep(old(self).index@, old(self).ptr as nat)->Some_0;
        self.heading = self.ptr;
        let mut label: Vec<u8> = Vec::new();
        while self.index[self.heading] != DATA_SEP
            invariant
                old(self).wf(),
                *self == (Filesystem { heading: self.heading, ..*old(self) }),
                old(self).ptr <= self.heading <= e,
                e == first_sep(old(self).index@, old(self).ptr as nat)->Some_0,
                first_sep(old(self).index@, old(self).ptr as nat) is Some,
                e + 6 <= INDEX_SIZE,
                old(self).index@[e] == DATA_SEP,
                forall|k: int| old(self).ptr <= k < e ==> old(self).index@[k] != DATA_SEP,
                label@ == old(self).index@.subrange(old(self).ptr as int, self.heading as int),
            decreases e - self.heading,
        {
            label.push(self.index[self.heading]);
            self.heading = self.heading + 1;
            proof {
                assert(label@ =~= old(self).index@.subrange(
                    old(self).ptr as int,
                    self.heading as int,
                ));
            }
        }
        let end_of_label = self.heading;
        self.heading = self.heading + 1;
        let filetype = self.index[self.heading];
        self.heading = self.heading + 1;
        let b0 = self.index[self.heading] as usize;
        self.heading = self.heading + 1;
        let b1 = self.index[self.heading] as usize;
        self.heading = self.heading + 1;
        let b2 = self.index[self.heading] as usize;
        self.heading = self.heading + 1;
        let b3 = self.index[self.heading] as usize;
        self.heading = self.heading + 1;
        let data = b0 | (b1 << 8) | (b2 << 16) | (b3 << 24);
        if filetype == TYPE_DIR {
            FileType::Directory(Directory { label, data })
        } else {
            FileType::File(File { label, data })
        }
    }
}

fn zero_bytes(n: usize) -> (v: Vec<u8>)
    ensures
        v@.len() == n,
        forall|i: int| 0 <= i < v@.len() ==> v@[i] == 0,
{
    let mut v: Vec<u8> = Vec::new();
    let mut i: usize = 0;
    while i < n
        invariant
            i <= n,
            v@.len() == i,
            forall|j: int| 0 <= j < v@.len() ==> v@[j] == 0,
        decreases n - i,
    {
        v.push(0);
        i = i + 1;
    }
    v
}

} // verus!
