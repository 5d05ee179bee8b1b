//! The vector container: a fixed-layout header plus a growable, sparse
//! collection of optional regions. The first successful write locks the
//! vector's scalar type; regions are allocated lazily, one per 1024-index
//! span; the header keeps bounds and a write counter.

use vstd::prelude::*;
use crate::bitmap::is_bit_set;
use crate::bitmap::set_bitmap_bit;
use crate::codec::decode_fixed_point;
use crate::codec::encode_fixed_point;
use crate::region::new_region;
use crate::region::region_tag;
use crate::region::region_wf;
use crate::region::slot_present;
use crate::region::slot_value;
use crate::region::spec_value_kind;
use crate::region::VecValue;
use crate::region::VectorRegion;
use crate::region::REGION_SIZE;
use crate::region::VEC_TYPE_DECIMAL;
use crate::region::VEC_TYPE_DOUBLE;
use crate::region::VEC_TYPE_INT;

verus! {

/// Magic marker in the high bits of the header's type field: a vector is
/// typed exactly when these bits are set.
pub const VECTOR_MAGIC: u16 = 0x8B00;

/// Region slots in the header's region map, and so the most regions a vector
/// can ever hold.
pub const VEC_NUM_REGIONS: usize = 64;

/// Reserved statistics counters in the header.
pub const VEC_NUM_STATS: usize = 19;

/// One more than the largest addressable index: 64 regions of 1024 slots.
pub const VEC_CAPACITY: usize = 64 * 1024;

/// The fixed decimal scale: a decimal value is stored as the value times ten
/// to this power, truncated toward zero.
pub const DECIMAL_SCALE: u32 = 4;

/// Why an operation was refused. Every error leaves the vector unchanged.
#[derive(Clone, Copy, Debug, PartialEq, Eq, Structural)]
pub enum VectorError {
    /// The type name is unrecognized, or the value is not given in the named
    /// type's representation.
    InvalidType,
    /// The vector is locked to a different type.
    TypeMismatch,
    /// No region is allocated at the index, or the vector is not of the
    /// requested type.
    RegionNotInitialized,
    /// The presence bit at the index is clear.
    NoValueAtIndex,
    /// The index is beyond the 64 * 1024 addressable span.
    IndexOutOfRange,
}

/// Fixed-layout vector metadata. `stats` always holds `VEC_NUM_STATS` 16-bit
/// counters and `regmap` one 16-bit entry per region slot, mirroring the
/// binary header layout.
pub struct VectorHeader {
    pub type_field: u16,
    pub format: u8,
    pub version: u8,
    pub first: u16,
    pub last: u16,
    pub count: u32,
    pub dic_offset: u32,
    pub dic_length: u32,
    pub refs: u16,
    pub uflags: u16,
    pub vflags: u16,
    pub stats: Vec<u16>,
    pub regmap: Vec<u16>,
}

/// The vector: one header and a growable collection of optional regions,
/// indexed by region number (`index / 1024`).
pub struct Vector {
    pub header: VectorHeader,
    pub regions: Vec<Option<VectorRegion>>,
}

/// The region number an index falls in.
pub open spec fn region_of(i: int) -> int {
    i / (REGION_SIZE as int)
}

/// The in-region offset of an index.
pub open spec fn offset_of(i: int) -> int {
    i % (REGION_SIZE as int)
}

/// Case-insensitive match of one character against a lower-case character:
/// equal code points, or an ASCII capital whose lower-case form is `b`.
pub open spec fn char_lower_matches(a: char, b: char) -> bool {
    a as u32 == b as u32 || (65 <= a as u32 && a as u32 <= 90 && a as u32 + 32 == b as u32)
}

/// Case-insensitive equality of a name against a lower-case keyword.
pub open spec fn name_matches(s: Seq<char>, keyword: Seq<char>) -> bool {
    s.len() == keyword.len() && forall|i: int|
        0 <= i < s.len() ==> char_lower_matches(s[i], keyword[i])
}

/// The type tag a name denotes, compared case-insensitively.
pub open spec fn spec_type_from_name(s: Seq<char>) -> Option<u8> {
    if name_matches(s, "integer"@) {
        Some(VEC_TYPE_INT)
    } else if name_matches(s, "decimal"@) {
        Some(VEC_TYPE_DECIMAL)
    } else if name_matches(s, "double"@) {
        Some(VEC_TYPE_DOUBLE)
    } else {
        None
    }
}

/// An addressable index splits into a region number below `VEC_NUM_REGIONS`
/// and an in-region offset below `REGION_SIZE`.
proof fn lemma_index_split(i: int)
    requires
        0 <= i < VEC_CAPACITY,
    ensures
        0 <= region_of(i) < VEC_NUM_REGIONS,
        0 <= offset_of(i) < REGION_SIZE,
        i == region_of(i) * (REGION_SIZE as int) + offset_of(i),
{
    vstd::arithmetic::div_mod::lemma_fundamental_div_mod(i, REGION_SIZE as int);
    vstd::arithmetic::div_mod::lemma_mod_bound(i, REGION_SIZE as int);
}

/// Distinct addressable indices differ in region number or in offset.
proof fn lemma_index_distinct(i: int, j: int)
    requires
        0 <= i < VEC_CAPACITY,
        0 <= j < VEC_CAPACITY,
        i != j,
    ensures
        region_of(i) != region_of(j) || offset_of(i) != offset_of(j),
{
    lemma_index_split(i);
    lemma_index_split(j);
}

/// Case-insensitive comparison of a name against a lower-case keyword.
fn matches_name(s: &str, keyword: &str) -> (r: bool)
    ensures
        r == name_matches(s@, keyword@),
{
    let n = s.unicode_len();
    let m = keyword.unicode_len();
    if n != m {
        return false;
    }
    let mut i: usize = 0;
    while i < n
        invariant
            0 <= i <= n,
            n == s@.len(),
            n == keyword@.len(),
            forall|k: int| 0 <= k < i ==> char_lower_matches(s@[k], keyword@[k]),
        decreases n - i,
    {
        let cu = s.get_char(i) as u32;
        let ku = keyword.get_char(i) as u32;
        if !(cu == ku || (65 <= cu && cu <= 90 && cu + 32 == ku)) {
            return false;
        }
        i += 1;
    }
    true
}

/// The type tag in the low byte of a header type field.
fn tag_of_field(type_field: u16) -> (r: u8)
    ensures
        r == (type_field & 0xff) as u8,
{
    proof {
        assert(type_field & 0xffu16 < 256) by (bit_vector);
    }
    (type_field & 0xff) as u8
}

/// The type tag a value carries, as executable code.
fn value_kind(value: &VecValue) -> (r: u8)
    ensures
        r == spec_value_kind(*value),
{
    match value {
        VecValue::Integer(_) => VEC_TYPE_INT,
        VecValue::Decimal(_) => VEC_TYPE_DECIMAL,
        VecValue::Double(_) => VEC_TYPE_DOUBLE,
    }
}

/// What a successful `set` does: the vector ends typed to the value's kind
/// with the type field holding exactly the magic marker and the tag, the
/// write counter grows by one, `first` becomes the smallest and `last` the
/// largest index ever written (the very first write seeds both), the other
/// header fields keep their values, the region collection has grown exactly
/// far enough, no other region slot changes its allocation status, the value
/// is present at the index, and every other index keeps its presence and its
/// value.
pub open spec fn spec_set_updated(pre: Vector, post: Vector, index: int, value: VecValue) -> bool {
    &&& post.spec_is_typed()
    &&& post.spec_type() == spec_value_kind(value)
    &&& post.header.type_field == VECTOR_MAGIC | (spec_value_kind(value) as u16)
    &&& post.header.count == pre.header.count + 1
    &&& post.header.first == (if pre.header.count == 0 {
        index as u16
    } else if pre.header.first as int <= index {
        pre.header.first
    } else {
        index as u16
    })
    &&& post.header.last == (if pre.header.last as int >= index {
        pre.header.last
    } else {
        index as u16
    })
    &&& post.header.format == pre.header.format
    &&& post.header.version == pre.header.version
    &&& post.header.dic_offset == pre.header.dic_offset
    &&& post.header.dic_length == pre.header.dic_length
    &&& post.header.refs == pre.header.refs
    &&& post.header.uflags == pre.header.uflags
    &&& post.header.vflags == pre.header.vflags
    &&& post.header.stats@ == pre.header.stats@
    &&& post.regions@.len() == (if pre.regions@.len() >= region_of(index) + 1 {
        pre.regions@.len() as int
    } else {
        region_of(index) + 1
    })
    &&& forall|q: int|
        0 <= q < VEC_NUM_REGIONS && q != region_of(index) ==> post.spec_regmap_entry(q)
            == pre.spec_regmap_entry(q)
    &&& post.spec_present(index)
    &&& post.spec_value_at(index) == value
    &&& forall|j: int|
        0 <= j < VEC_CAPACITY && j != index ==> post.spec_present(j) == pre.spec_present(j)
    &&& forall|j: int|
        0 <= j < VEC_CAPACITY && j != index && pre.spec_present(j) ==> post.spec_value_at(j)
            == pre.spec_value_at(j)
}

impl Vector {
    /// Whether the header's magic marker says the vector has a locked type.
    pub open spec fn spec_is_typed(self) -> bool {
        self.header.type_field & VECTOR_MAGIC == VECTOR_MAGIC
    }

    /// The locked type tag, meaningful only when the vector is typed.
    pub open spec fn spec_type(self) -> u8 {
        (self.header.type_field & 0xff) as u8
    }

    /// The region-map entry the header must hold for region slot `r`: 1 once
    /// the region has been allocated, 0 otherwise.
    pub open spec fn spec_regmap_entry(self, r: int) -> u16 {
        if 0 <= r < self.regions@.len() && self.regions@[r] is Some {
            1u16
        } else {
            0u16
        }
    }

    /// Well-formedness: fixed header array sizes, at most 64 regions, an
    /// untyped vector empty with a zero type field, a typed vector locked to
    /// one of the three tags, the region map tracking allocation exactly, and
    /// every allocated region well formed and of the locked type.
    pub open spec fn wf(self) -> bool {
        &&& self.header.stats@.len() == VEC_NUM_STATS
        &&& self.header.regmap@.len() == VEC_NUM_REGIONS
        &&& self.regions@.len() <= VEC_NUM_REGIONS
        &&& (!self.spec_is_typed() ==> self.header.type_field == 0 && self.regions@.len() == 0)
        &&& (self.spec_is_typed() ==> self.spec_type() == VEC_TYPE_INT || self.spec_type()
            == VEC_TYPE_DECIMAL || self.spec_type() == VEC_TYPE_DOUBLE)
        &&& (self.spec_is_typed() ==> self.header.type_field == VECTOR_MAGIC | (
        self.spec_type() as u16))
        &&& (forall|r: int|
            0 <= r < VEC_NUM_REGIONS ==> self.header.regmap@[r] == self.spec_regmap_entry(r))
        &&& (forall|r: int|
            0 <= r < self.regions@.len() && self.regions@[r] is Some ==> region_wf(
                #[trigger] self.regions@[r]->Some_0,
            ) && region_tag(self.regions@[r]->Some_0) == self.spec_type())
    }

    /// Whether a value is present at index `i`: the index is addressable, its
    /// region is allocated, and the presence bit is set.
    pub open spec fn spec_present(self, i: int) -> bool {
        &&& 0 <= i < VEC_CAPACITY
        &&& region_of(i) < self.regions@.len()
        &&& self.regions@[region_of(i)] is Some
        &&& slot_present(self.regions@[region_of(i)]->Some_0, offset_of(i))
    }

    /// The value stored at index `i`, meaningful when its region is
    /// allocated.
    pub open spec fn spec_value_at(self, i: int) -> VecValue {
        slot_value(self.regions@[region_of(i)]->Some_0, offset_of(i))
    }

    /// A new vector: untyped, empty, every header field zero except `vflags`,
    /// which starts at 1.
    pub fn new() -> (r: Vector)
        ensures
            r.wf(),
            !r.spec_is_typed(),
            r.header.type_field == 0,
            r.header.format == 0,
            r.header.version == 0,
            r.header.first == 0,
            r.header.last == 0,
            r.header.count == 0,
            r.header.dic_offset == 0,
            r.header.dic_length == 0,
            r.header.refs == 0,
            r.header.uflags == 0,
            r.header.vflags == 1,
            forall|s: int| 0 <= s < VEC_NUM_STATS ==> r.header.stats@[s] == 0,
            r.regions@.len() == 0,
            forall|i: int| !r.spec_present(i),
    {
        let header = VectorHeader {
            type_field: 0,
            format: 0,
            version: 0,
            first: 0,
            last: 0,
            count: 0,
            dic_offset: 0,
            dic_length: 0,
            refs: 0,
            uflags: 0,
            vflags: 1,
            stats: vec![0u16; VEC_NUM_STATS],
            regmap: vec![0u16; VEC_NUM_REGIONS],
        };
        let r = Vector { header, regions: Vec::new() };
        proof {
            assert(0u16 & VECTOR_MAGIC != VECTOR_MAGIC) by (bit_vector);
        }
        r
    }

    /// Parses a type name, case-insensitively, into its type tag.
    pub fn type_from_str(type_str: &str) -> (r: Option<u8>)
        ensures
            r == spec_type_from_name(type_str@),
    {
        if matches_name(type_str, "integer") {
            Some(VEC_TYPE_INT)
        } else if matches_name(type_str, "decimal") {
            Some(VEC_TYPE_DECIMAL)
        } else if matches_name(type_str, "double") {
            Some(VEC_TYPE_DOUBLE)
        } else {
            None
        }
    }

    /// The error a `set` call must return, or `None` where it must succeed:
    /// an unparsable type name or a value in the wrong representation is
    /// `InvalidType`; a parsed tag differing from the locked type is
    /// `TypeMismatch`; an index beyond the addressable span is
    /// `IndexOutOfRange`. The checks happen in that order, all before any
    /// mutation.
    pub open spec fn spec_set_error(self, index: int, name: Seq<char>, value: VecValue) -> Option<
        VectorError,
    > {
        if spec_type_from_name(name) is None {
            Some(VectorError::InvalidType)
        } else if spec_value_kind(value) != spec_type_from_name(name)->Some_0 {
            Some(VectorError::InvalidType)
        } else if self.spec_is_typed() && self.spec_type() != spec_type_from_name(name)->Some_0 {
            Some(VectorError::TypeMismatch)
        } else if index >= VEC_CAPACITY {
            Some(VectorError::IndexOutOfRange)
        } else {
            None
        }
    }

    /// The region number and in-region offset of an index.
    fn get_region_info(&self, index: usize) -> (r: (usize, usize))
        ensures
            r.0 as int == region_of(index as int),
            r.1 as int == offset_of(index as int),
    {
        (index / REGION_SIZE, index % REGION_SIZE)
    }

    /// Grows the region collection up to `region_index` and allocates a fresh
    /// region of the locked type there if none exists yet, recording the
    /// allocation in the header's region map. Every existing region and every
    /// header field but the region map keeps its value.
    fn ensure_region(&mut self, region_index: usize)
        requires
            old(self).wf(),
            old(self).spec_is_typed(),
            region_index < VEC_NUM_REGIONS,
        ensures
            final(self).wf(),
            final(self).header.type_field == old(self).header.type_field,
            final(self).header.format == old(self).header.format,
            final(self).header.version == old(self).header.version,
            final(self).header.first == old(self).header.first,
            final(self).header.last == old(self).header.last,
            final(self).header.count == old(self).header.count,
            final(self).header.dic_offset == old(self).header.dic_offset,
            final(self).header.dic_length == old(self).header.dic_length,
            final(self).header.refs == old(self).header.refs,
            final(self).header.uflags == old(self).header.uflags,
            final(self).header.vflags == old(self).header.vflags,
            final(self).header.stats@ == old(self).header.stats@,
            final(self).regions@.len() == (if old(self).regions@.len() >= region_index + 1 {
                old(self).regions@.len() as int
            } else {
                region_index + 1
            }),
            final(self).regions@[region_index as int] is Some,
            forall|q: int|
                0 <= q < old(self).regions@.len() && q != region_index
                    ==> final(self).regions@[q] == old(self).regions@[q],
            forall|q: int|
                old(self).regions@.len() <= q < final(self).regions@.len() && q != region_index
                    ==> final(self).regions@[q] is None,
            (region_index < old(self).regions@.len() && old(self).regions@[region_index as int]
                is Some) ==> final(self).regions@[region_index as int]
                == old(self).regions@[region_index as int],
            !(region_index < old(self).regions@.len() && old(self).regions@[region_index as int]
                is Some) ==> forall|o: int|
                0 <= o < REGION_SIZE ==> !slot_present(
                    final(self).regions@[region_index as int]->Some_0,
                    o,
                ),
    {
        while self.regions.len() <= region_index
            invariant
                old(self).wf(),
                old(self).spec_is_typed(),
                region_index < VEC_NUM_REGIONS,
                old(self).regions@.len() <= self.regions@.len(),
                self.regions@.len() <= (if old(self).regions@.len() >= region_index + 1 {
                    old(self).regions@.len() as int
                } else {
                    region_index + 1
                }),
                forall|q: int|
                    0 <= q < old(self).regions@.len() ==> self.regions@[q] == old(
                        self,
                    ).regions@[q],
                forall|q: int|
                    old(self).regions@.len() <= q < self.regions@.len() ==> self.regions@[q]
                        is None,
                self.header == old(self).header,
            decreases region_index + 1 - self.regions.len(),
        {
            self.regions.push(None);
        }
        if self.regions[region_index].is_none() {
            let tag = tag_of_field(self.header.type_field);
            let fresh = new_region(tag);
            self.regions[region_index] = Some(fresh);
            self.header.regmap[region_index] = 1;
        }
        proof {
            assert forall|r: int| 0 <= r < VEC_NUM_REGIONS implies self.header.regmap@[r]
                == self.spec_regmap_entry(r) by {
                assert(old(self).header.regmap@[r] == old(self).spec_regmap_entry(r));
            }
        }
    }

    /// Updates the header after a write: the counter grows by one, and
    /// `first`/`last` track the smallest and largest index ever written — the
    /// very first write seeds `first`, later ones take the minimum.
    fn update_header_for_set(&mut self, index: usize)
        requires
            old(self).header.count < 0xffff_ffffu32,
            index < VEC_CAPACITY,
        ensures
            final(self).header.count == old(self).header.count + 1,
            final(self).header.first == (if old(self).header.count == 0 {
                index as u16
            } else if old(self).header.first as int <= index {
                old(self).header.first
            } else {
                index as u16
            }),
            final(self).header.last == (if old(self).header.last as int >= index {
                old(self).header.last
            } else {
                index as u16
            }),
            final(self).header.type_field == old(self).header.type_field,
            final(self).header.format == old(self).header.format,
            final(self).header.version == old(self).header.version,
            final(self).header.dic_offset == old(self).header.dic_offset,
            final(self).header.dic_length == old(self).header.dic_length,
            final(self).header.refs == old(self).header.refs,
            final(self).header.uflags == old(self).header.uflags,
            final(self).header.vflags == old(self).header.vflags,
            final(self).header.stats == old(self).header.stats,
            final(self).header.regmap == old(self).header.regmap,
            final(self).regions == old(self).regions,
    {
        let idx = index as u16;
        if self.header.count == 0 {
            self.header.first = idx;
        } else if idx < self.header.first {
            self.header.first = idx;
        }
        if idx > self.header.last {
            self.header.last = idx;
        }
        self.header.count = self.header.count + 1;
    }

    /// Writes a value whose kind matches the locked type: allocates the
    /// owning region if needed, stores the native representation, marks the
    /// presence bit, and updates the header.
    fn set_value(&mut self, index: usize, value: VecValue)
        requires
            old(self).wf(),
            old(self).spec_is_typed(),
            old(self).spec_type() == spec_value_kind(value),
            index < VEC_CAPACITY,
            old(self).header.count < 0xffff_ffffu32,
        ensures
            final(self).wf(),
            spec_set_updated(*old(self), *final(self), index as int, value),
    {
        proof {
            lemma_index_split(index as int);
        }
        let (region_index, offset) = self.get_region_info(index);
        self.ensure_region(region_index);
        let ghost mid = *self;
        match value {
            VecValue::Integer(x) => {
                match &mut self.regions[region_index] {
                    Some(VectorRegion::Integer(d)) => {
                        d.data[offset] = x;
                        set_bitmap_bit(&mut d.bitmap, offset, true);
                    },
                    _ => {
                        proof {
                            assert(false);
                        }
                    },
                }
            },
            VecValue::Decimal(x) => {
                match &mut self.regions[region_index] {
                    Some(VectorRegion::Decimal(d)) => {
                        let bytes = encode_fixed_point(x);
                        d.data[offset] = bytes;
                        set_bitmap_bit(&mut d.bitmap, offset, true);
                    },
                    _ => {
                        proof {
                            assert(false);
                        }
                    },
                }
            },
            VecValue::Double(x) => {
                match &mut self.regions[region_index] {
                    Some(VectorRegion::Double(d)) => {
                        d.data[offset] = x;
                        set_bitmap_bit(&mut d.bitmap, offset, true);
                    },
                    _ => {
                        proof {
                            assert(false);
                        }
                    },
                }
            },
        }
        proof {
            let ri = region_of(index as int);
            let off = offset_of(index as int);
            let oldr = mid.regions@[ri]->Some_0;
            let newr = self.regions@[ri]->Some_0;
            assert(self.regions@.len() == mid.regions@.len());
            assert(forall|q: int|
                0 <= q < self.regions@.len() && q != ri ==> self.regions@[q] == mid.regions@[q]);
            assert(self.regions@[ri] is Some);
            assert(region_tag(newr) == region_tag(oldr));
            assert(region_wf(newr));
            assert(slot_present(newr, off));
            assert(forall|o: int|
                0 <= o < REGION_SIZE && o != off ==> slot_present(newr, o) == slot_present(
                    oldr,
                    o,
                ));
            assert(slot_value(newr, off) == value);
            assert(forall|o: int|
                0 <= o < REGION_SIZE && o != off ==> slot_value(newr, o) == slot_value(oldr, o));
        }
        self.update_header_for_set(index);
        proof {
            let ri = region_of(index as int);
            assert forall|r: int| 0 <= r < VEC_NUM_REGIONS implies self.header.regmap@[r]
                == self.spec_regmap_entry(r) by {
                assert(mid.header.regmap@[r] == mid.spec_regmap_entry(r));
            }
            assert forall|r: int|
                0 <= r < self.regions@.len() && self.regions@[r] is Some implies region_wf(
                #[trigger] self.regions@[r]->Some_0,
            ) && region_tag(self.regions@[r]->Some_0) == self.spec_type() by {
                if r != ri {
                    assert(self.regions@[r] == mid.regions@[r]);
                }
            }
            assert forall|j: int|
                0 <= j < VEC_CAPACITY && j != index implies self.spec_present(j) == old(
                self,
            ).spec_present(j) && (old(self).spec_present(j) ==> self.spec_value_at(j) == old(
                self,
            ).spec_value_at(j)) by {
                lemma_index_split(j);
                lemma_index_distinct(index as int, j);
            }
        }
    }

    /// Sets the value at `index`, parsing `type_str` case-insensitively into
    /// one of the three scalar types. The first successful call locks the
    /// vector's type; later calls naming a different type are refused. On
    /// success the value is written to its lazily allocated region, the
    /// presence bit is set, and the header's counter and bounds are updated.
    /// On any error the vector is left exactly as it was. Callers keep the
    /// 32-bit write counter below its maximum for calls that will succeed;
    /// the counter grows only on success, once per call, so failing calls
    /// are always allowed.
    pub fn set(&mut self, index: usize, type_str: &str, value: VecValue) -> (r: Result<
        (),
        VectorError,
    >)
        requires
            old(self).wf(),
            old(self).spec_set_error(index as int, type_str@, value) is None
                ==> old(self).header.count < 0xffff_ffffu32,
        ensures
            final(self).wf(),
            (match r {
                Ok(_) => old(self).spec_set_error(index as int, type_str@, value) is None
                    && spec_set_updated(*old(self), *final(self), index as int, value),
                Err(e) => old(self).spec_set_error(index as int, type_str@, value) == Some(e)
                    && *final(self) == *old(self),
            }),
    {
        let tag = match Self::type_from_str(type_str) {
            Some(t) => t,
            None => {
                return Err(VectorError::InvalidType);
            },
        };
        if value_kind(&value) != tag {
            return Err(VectorError::InvalidType);
        }
        let typed = (self.header.type_field & VECTOR_MAGIC) == VECTOR_MAGIC;
        if typed {
            let current = tag_of_field(self.header.type_field);
            if current != tag {
                return Err(VectorError::TypeMismatch);
            }
        }
        if index >= VEC_CAPACITY {
            return Err(VectorError::IndexOutOfRange);
        }
        if !typed {
            self.header.type_field = VECTOR_MAGIC | (tag as u16);
            proof {
                let t = tag;
                assert(t < 3 ==> ((VECTOR_MAGIC | (t as u16)) & VECTOR_MAGIC) == VECTOR_MAGIC && ((
                VECTOR_MAGIC | (t as u16)) & 0xffu16) == t as u16) by (bit_vector);
                assert forall|q: int| 0 <= q < VEC_NUM_REGIONS implies self.header.regmap@[q]
                    == self.spec_regmap_entry(q) by {
                    assert(old(self).header.regmap@[q] == old(self).spec_regmap_entry(q));
                }
            }
        }
        self.set_value(index, value);
        Ok(())
    }

    /// The write counter: how many successful `set` calls the vector has
    /// taken, overwrites included.
    pub fn count(&self) -> (r: u32)
        ensures
            r == self.header.count,
    {
        self.header.count
    }

    /// The smallest index ever written, or 0 before the first write.
    pub fn first_index(&self) -> (r: u16)
        ensures
            r == self.header.first,
    {
        self.header.first
    }

    /// The largest index ever written, or 0 before the first write.
    pub fn last_index(&self) -> (r: u16)
        ensures
            r == self.header.last,
    {
        self.header.last
    }

    /// The locked type tag, or `None` while the vector is untyped.
    pub fn vector_type(&self) -> (r: Option<u8>)
        ensures
            r == (if self.spec_is_typed() {
                Some(self.spec_type())
            } else {
                None::<u8>
            }),
    {
        if (self.header.type_field & VECTOR_MAGIC) == VECTOR_MAGIC {
            Some(tag_of_field(self.header.type_field))
        } else {
            None
        }
    }

    /// How many region slots the collection holds, allocated or not.
    pub fn region_count(&self) -> (r: usize)
        ensures
            r == self.regions@.len(),
    {
        self.regions.len()
    }

    /// Whether a getter for type `tag` can reach a slot at index `i`: the
    /// vector is locked to that type and the owning region is allocated.
    pub open spec fn spec_readable(self, i: int, tag: u8) -> bool {
        &&& self.spec_is_typed()
        &&& self.spec_type() == tag
        &&& region_of(i) < self.regions@.len()
        &&& self.regions@[region_of(i)] is Some
    }

    /// Reads the decimal value at `index`, as its scaled fixed-point integer:
    /// `RegionNotInitialized` where no region is allocated there or the
    /// vector is not a decimal vector, `NoValueAtIndex` where the presence
    /// bit is clear, otherwise the decoded slot.
    pub fn get_decimal(&self, index: usize) -> (r: Result<i64, VectorError>)
        requires
            self.wf(),
        ensures
            r is Ok <==> self.spec_readable(index as int, VEC_TYPE_DECIMAL) && self.spec_present(
                index as int,
            ),
            r is Ok ==> self.spec_value_at(index as int) == VecValue::Decimal(r->Ok_0),
            (r is Err && r->Err_0 == VectorError::RegionNotInitialized) <==> !self.spec_readable(
                index as int,
                VEC_TYPE_DECIMAL,
            ),
            (r is Err && r->Err_0 == VectorError::NoValueAtIndex) <==> (self.spec_readable(
                index as int,
                VEC_TYPE_DECIMAL,
            ) && !self.spec_present(index as int)),
    {
        let (region_index, offset) = self.get_region_info(index);
        if region_index >= self.regions.len() {
            return Err(VectorError::RegionNotInitialized);
        }
        proof {
            lemma_region_in_range(index as int, self.regions@.len() as int);
        }
        match &self.regions[region_index] {
            Some(VectorRegion::Decimal(d)) => {
                if is_bit_set(&d.bitmap, offset) {
                    Ok(decode_fixed_point(&d.data[offset]))
                } else {
                    Err(VectorError::NoValueAtIndex)
                }
            },
            _ => Err(VectorError::RegionNotInitialized),
        }
    }

    /// Reads the integer value at `index`, mirroring `get_decimal`'s
    /// contract: the same region and presence checks, a direct slot read.
    pub fn get_integer(&self, index: usize) -> (r: Result<i64, VectorError>)
        requires
            self.wf(),
        ensures
            r is Ok <==> self.spec_readable(index as int, VEC_TYPE_INT) && self.spec_present(
                index as int,
            ),
            r is Ok ==> self.spec_value_at(index as int) == VecValue::Integer(r->Ok_0),
            (r is Err && r->Err_0 == VectorError::RegionNotInitialized) <==> !self.spec_readable(
                index as int,
                VEC_TYPE_INT,
            ),
            (r is Err && r->Err_0 == VectorError::NoValueAtIndex) <==> (self.spec_readable(
                index as int,
                VEC_TYPE_INT,
            ) && !self.spec_present(index as int)),
    {
        let (region_index, offset) = self.get_region_info(index);
        if region_index >= self.regions.len() {
            return Err(VectorError::RegionNotInitialized);
        }
        proof {
            lemma_region_in_range(index as int, self.regions@.len() as int);
        }
        match &self.regions[region_index] {
            Some(VectorRegion::Integer(d)) => {
                if is_bit_set(&d.bitmap, offset) {
                    Ok(d.data[offset])
                } else {
                    Err(VectorError::NoValueAtIndex)
                }
            },
            _ => Err(VectorError::RegionNotInitialized),
        }
    }

    /// Reads the double value at `index` as the bits of an IEEE-754 value,
    /// mirroring `get_decimal`'s contract.
    pub fn get_double(&self, index: usize) -> (r: Result<u64, VectorError>)
        requires
            self.wf(),
        ensures
            r is Ok <==> self.spec_readable(index as int, VEC_TYPE_DOUBLE) && self.spec_present(
                index as int,
            ),
            r is Ok ==> self.spec_value_at(index as int) == VecValue::Double(r->Ok_0),
            (r is Err && r->Err_0 == VectorError::RegionNotInitialized) <==> !self.spec_readable(
                index as int,
                VEC_TYPE_DOUBLE,
            ),
            (r is Err && r->Err_0 == VectorError::NoValueAtIndex) <==> (self.spec_readable(
                index as int,
                VEC_TYPE_DOUBLE,
            ) && !self.spec_present(index as int)),
    {
        let (region_index, offset) = self.get_region_info(index);
        if region_index >= self.regions.len() {
            return Err(VectorError::RegionNotInitialized);
        }
        proof {
            lemma_region_in_range(index as int, self.regions@.len() as int);
        }
        match &self.regions[region_index] {
            Some(VectorRegion::Double(d)) => {
                if is_bit_set(&d.bitmap, offset) {
                    Ok(d.data[offset])
                } else {
                    Err(VectorError::NoValueAtIndex)
                }
            },
            _ => Err(VectorError::RegionNotInitialized),
        }
    }
}

/// An index whose region number is below a bound of at most 64 regions is
/// itself addressable.
proof fn lemma_region_in_range(i: int, len: int)
    requires
        0 <= i,
        len <= VEC_NUM_REGIONS,
        region_of(i) < len,
    ensures
        i < VEC_CAPACITY,
        0 <= offset_of(i) < REGION_SIZE,
{
    vstd::arithmetic::div_mod::lemma_fundamental_div_mod(i, REGION_SIZE as int);
    vstd::arithmetic::div_mod::lemma_mod_bound(i, REGION_SIZE as int);
    vstd::arithmetic::div_mod::lemma_div_pos_is_pos(i, REGION_SIZE as int);
}

/// Law: once a vector is typed, a `set` that names a different type must be
/// refused with `TypeMismatch` — and `set`'s contract then leaves the vector
/// exactly as it was.
pub proof fn lemma_type_lock_in(v: Vector, index: int, name: Seq<char>, value: VecValue)
    requires
        v.spec_is_typed(),
        spec_type_from_name(name) is Some,
        spec_value_kind(value) == spec_type_from_name(name)->Some_0,
        spec_type_from_name(name)->Some_0 != v.spec_type(),
    ensures
        v.spec_set_error(index, name, value) == Some(VectorError::TypeMismatch),
{
}

/// Law: two successful writes at distinct indices leave both values in
/// place, count the two calls, and move `first`/`last` exactly to the
/// minimum and maximum of the indices ever written: on a fresh vector the
/// two indices alone, otherwise taking the earlier bounds in.
pub proof fn lemma_independent_writes(
    v0: Vector,
    v1: Vector,
    v2: Vector,
    i: int,
    j: int,
    x: VecValue,
    y: VecValue,
)
    requires
        0 <= i < VEC_CAPACITY,
        0 <= j < VEC_CAPACITY,
        i != j,
        spec_set_updated(v0, v1, i, x),
        spec_set_updated(v1, v2, j, y),
    ensures
        v2.spec_present(i) && v2.spec_value_at(i) == x,
        v2.spec_present(j) && v2.spec_value_at(j) == y,
        v2.header.count == v0.header.count + 2,
        v0.header.count == 0 ==> v2.header.first as int == vstd::math::min(i, j),
        v0.header.count > 0 ==> v2.header.first as int == vstd::math::min(
            v0.header.first as int,
            vstd::math::min(i, j),
        ),
        v2.header.last as int == vstd::math::max(v0.header.last as int, vstd::math::max(i, j)),
{
}

} // verus!
