//! File flags and processing flags: small sets of named bits.
use vstd::prelude::*;

verus! {

/// Which game files a run processes: maps, the ten other data files, the
/// system file, and scripts (or `plugins.js` for MV/MZ games).
///
/// The view is the set of flags as bits: bit 0 for maps, bits 1 to 10 for
/// the other files in the order actors, armors, classes, common events,
/// enemies, items, skills, states, troops, weapons, bit 11 for the system
/// file and bit 12 for scripts.
#[derive(Debug, Clone, Copy, PartialEq, Eq, Structural)]
pub struct FileFlags {
    bits: u16,
}

impl View for FileFlags {
    type V = u16;

    closed spec fn view(&self) -> u16 {
        self.bits
    }
}

impl FileFlags {
    #[verifier::type_invariant]
    spec fn inv(self) -> bool {
        self.bits <= 8191
    }

    /// `Mapxxx` files.
    pub fn map() -> (r: FileFlags)
        ensures
            r@ == 1,
    {
        FileFlags { bits: 1 }
    }

    /// The `Actors` file.
    pub fn actors() -> (r: FileFlags)
        ensures
            r@ == 2,
    {
        FileFlags { bits: 2 }
    }

    /// The `Armors` file.
    pub fn armors() -> (r: FileFlags)
        ensures
            r@ == 4,
    {
        FileFlags { bits: 4 }
    }

    /// The `Classes` file.
    pub fn classes() -> (r: FileFlags)
        ensures
            r@ == 8,
    {
        FileFlags { bits: 8 }
    }

    /// The `CommonEvents` file.
    pub fn common_events() -> (r: FileFlags)
        ensures
            r@ == 16,
    {
        FileFlags { bits: 16 }
    }

    /// The `Enemies` file.
    pub fn enemies() -> (r: FileFlags)
        ensures
            r@ == 32,
    {
        FileFlags { bits: 32 }
    }

    /// The `Items` file.
    pub fn items() -> (r: FileFlags)
        ensures
            r@ == 64,
    {
        FileFlags { bits: 64 }
    }

    /// The `Skills` file.
    pub fn skills() -> (r: FileFlags)
        ensures
            r@ == 128,
    {
        FileFlags { bits: 128 }
    }

    /// The `States` file.
    pub fn states() -> (r: FileFlags)
        ensures
            r@ == 256,
    {
        FileFlags { bits: 256 }
    }

    /// The `Troops` file.
    pub fn troops() -> (r: FileFlags)
        ensures
            r@ == 512,
    {
        FileFlags { bits: 512 }
    }

    /// The `Weapons` file.
    pub fn weapons() -> (r: FileFlags)
        ensures
            r@ == 1024,
    {
        FileFlags { bits: 1024 }
    }

    /// The `System` file.
    pub fn system() -> (r: FileFlags)
        ensures
            r@ == 2048,
    {
        FileFlags { bits: 2048 }
    }

    /// The `Scripts` file, or `plugins.js`.
    pub fn scripts() -> (r: FileFlags)
        ensures
            r@ == 4096,
    {
        FileFlags { bits: 4096 }
    }

    /// No flag.
    pub fn empty() -> (r: FileFlags)
        ensures
            r@ == 0,
    {
        FileFlags { bits: 0 }
    }

    /// Every flag.
    pub fn all() -> (r: FileFlags)
        ensures
            r@ == 8191,
    {
        FileFlags { bits: 8191 }
    }

    /// The raw bits; never more than those of all flags.
    pub fn bits(self) -> (r: u16)
        ensures
            r == self@,
            r & 8191 == r,
    {
        proof {
            use_type_invariant(self);
            let b = self.bits;
            assert(b <= 8191 ==> b & 8191 == b) by (bit_vector);
        }
        self.bits
    }

    /// The flags of `bits`, or nothing when `bits` holds a bit of no flag.
    pub fn from_bits(bits: u16) -> (r: Option<FileFlags>)
        ensures
            bits & 8191 == bits ==> r is Some && r->0@ == bits,
            bits & 8191 != bits ==> r is None,
    {
        if bits & 8191 == bits {
            proof {
                assert(bits & 8191 == bits ==> bits <= 8191) by (bit_vector);
            }
            Some(FileFlags { bits })
        } else {
            None
        }
    }

    /// The flags of `bits`, dropping the bits of no flag.
    pub fn from_bits_truncate(bits: u16) -> (r: FileFlags)
        ensures
            r@ == bits & 8191,
    {
        proof {
            assert(bits & 8191 <= 8191) by (bit_vector);
        }
        FileFlags { bits: bits & 8191 }
    }

    /// No flag is set.
    pub fn is_empty(self) -> (r: bool)
        ensures
            r == (self@ == 0),
    {
        self.bits == 0
    }

    /// Every flag is set.
    pub fn is_all(self) -> (r: bool)
        ensures
            r == (self@ == 8191),
    {
        self.bits == 8191
    }

    /// Every flag of `other` is set in `self`.
    pub fn contains(self, other: FileFlags) -> (r: bool)
        ensures
            r == (self@ & other@ == other@),
    {
        self.bits & other.bits == other.bits
    }

    /// Some flag of `other` is set in `self`.
    pub fn intersects(self, other: FileFlags) -> (r: bool)
        ensures
            r == (self@ & other@ != 0),
    {
        self.bits & other.bits != 0
    }

    /// The flags set in either.
    pub fn union(self, other: FileFlags) -> (r: FileFlags)
        ensures
            r@ == self@ | other@,
    {
        proof {
            use_type_invariant(self);
            use_type_invariant(other);
            let a = self.bits;
            let b = other.bits;
            assert(a <= 8191 && b <= 8191 ==> a | b <= 8191) by (bit_vector);
        }
        FileFlags { bits: self.bits | other.bits }
    }

    /// The flags set in both.
    pub fn intersection(self, other: FileFlags) -> (r: FileFlags)
        ensures
            r@ == self@ & other@,
    {
        proof {
            use_type_invariant(self);
            let a = self.bits;
            let b = other.bits;
            assert(a <= 8191 ==> a & b <= 8191) by (bit_vector);
        }
        FileFlags { bits: self.bits & other.bits }
    }

    /// The flags set in `self` and not in `other`.
    pub fn difference(self, other: FileFlags) -> (r: FileFlags)
        ensures
            r@ == self@ & !other@,
    {
        proof {
            use_type_invariant(self);
            let a = self.bits;
            let b = other.bits;
            assert(a <= 8191 ==> a & !b <= 8191) by (bit_vector);
        }
        FileFlags { bits: self.bits & !other.bits }
    }

    /// Sets the flags of `other`.
    pub fn insert(&mut self, other: FileFlags)
        ensures
            final(self)@ == old(self)@ | other@,
    {
        *self = self.union(other);
    }

    /// Clears the flags of `other`.
    pub fn remove(&mut self, other: FileFlags)
        ensures
            final(self)@ == old(self)@ & !other@,
    {
        *self = self.difference(other);
    }

    /// The ten data files other than maps, system and scripts: actors,
    /// armors, classes, common events, enemies, items, skills, states, troops
    /// and weapons.
    pub fn other() -> (r: FileFlags)
        ensures
            r@ == 2046,
    {
        FileFlags { bits: 2046 }
    }

    /// The default: every file.
    pub fn default_flags() -> (r: FileFlags)
        ensures
            r@ == 8191,
    {
        FileFlags::all()
    }
}

/// How text is processed: romanizing, trimming, ignore files, and skipping
/// obsolete entries.
///
/// The view is the set of flags as bits: bit 0 romanize, bit 1 trim, bit 2
/// ignore, bit 3 create-ignore, bit 4 disable custom processing, bit 5 skip
/// obsolete.
#[derive(Debug, Clone, Copy, PartialEq, Eq, Structural)]
pub struct BaseFlags {
    bits: u8,
}

impl View for BaseFlags {
    type V = u8;

    closed spec fn view(&self) -> u8 {
        self.bits
    }
}

impl BaseFlags {
    #[verifier::type_invariant]
    spec fn inv(self) -> bool {
        self.bits <= 63
    }

    /// Turn Unicode and CJK punctuation into its ASCII equivalents. Must be set on
    /// write or purge if it was set on read.
    pub fn romanize() -> (r: BaseFlags)
        ensures
            r@ == 1,
    {
        BaseFlags { bits: 1 }
    }

    /// Trim leading and trailing whitespace from all text. Must be set on write or
    /// purge if it was set on read.
    pub fn trim() -> (r: BaseFlags)
        ensures
            r@ == 2,
    {
        BaseFlags { bits: 2 }
    }

    /// Use the entries of the ignore file; only read in append mode uses it.
    pub fn ignore() -> (r: BaseFlags)
        ensures
            r@ == 4,
    {
        BaseFlags { bits: 4 }
    }

    /// Create the ignore file from purged entries; only purge uses it.
    pub fn create_ignore() -> (r: BaseFlags)
        ensures
            r@ == 8,
    {
        BaseFlags { bits: 8 }
    }

    /// No effect; there for convenience.
    pub fn disable_custom_processing() -> (r: BaseFlags)
        ensures
            r@ == 16,
    {
        BaseFlags { bits: 16 }
    }

    /// Skip entries that are no longer in the game files, on reads in append mode.
    pub fn skip_obsolete() -> (r: BaseFlags)
        ensures
            r@ == 32,
    {
        BaseFlags { bits: 32 }
    }

    /// No flag.
    pub fn empty() -> (r: BaseFlags)
        ensures
            r@ == 0,
    {
        BaseFlags { bits: 0 }
    }

    /// Every flag.
    pub fn all() -> (r: BaseFlags)
        ensures
            r@ == 63,
    {
        BaseFlags { bits: 63 }
    }

    /// The raw bits; never more than those of all flags.
    pub fn bits(self) -> (r: u8)
        ensures
            r == self@,
            r & 63 == r,
    {
        proof {
            use_type_invariant(self);
            let b = self.bits;
            assert(b <= 63 ==> b & 63 == b) by (bit_vector);
        }
        self.bits
    }

    /// The flags of `bits`, or nothing when `bits` holds a bit of no flag.
    pub fn from_bits(bits: u8) -> (r: Option<BaseFlags>)
        ensures
            bits & 63 == bits ==> r is Some && r->0@ == bits,
            bits & 63 != bits ==> r is None,
    {
        if bits & 63 == bits {
            proof {
                assert(bits & 63 == bits ==> bits <= 63) by (bit_vector);
            }
            Some(BaseFlags { bits })
        } else {
            None
        }
    }

    /// The flags of `bits`, dropping the bits of no flag.
    pub fn from_bits_truncate(bits: u8) -> (r: BaseFlags)
        ensures
            r@ == bits & 63,
    {
        proof {
            assert(bits & 63 <= 63) by (bit_vector);
        }
        BaseFlags { bits: bits & 63 }
    }

    /// No flag is set.
    pub fn is_empty(self) -> (r: bool)
        ensures
            r == (self@ == 0),
    {
        self.bits == 0
    }

    /// Every flag is set.
    pub fn is_all(self) -> (r: bool)
        ensures
            r == (self@ == 63),
    {
        self.bits == 63
    }

    /// Every flag of `other` is set in `self`.
    pub fn contains(self, other: BaseFlags) -> (r: bool)
        ensures
            r == (self@ & other@ == other@),
    {
        self.bits & other.bits == other.bits
    }

    /// Some flag of `other` is set in `self`.
    pub fn intersects(self, other: BaseFlags) -> (r: bool)
        ensures
            r == (self@ & other@ != 0),
    {
        self.bits & other.bits != 0
    }

    /// The flags set in either.
    pub fn union(self, other: BaseFlags) -> (r: BaseFlags)
        ensures
            r@ == self@ | other@,
    {
        proof {
            use_type_invariant(self);
            use_type_invariant(other);
            let a = self.bits;
            let b = other.bits;
            assert(a <= 63 && b <= 63 ==> a | b <= 63) by (bit_vector);
        }
        BaseFlags { bits: self.bits | other.bits }
    }

    /// The flags set in both.
    pub fn intersection(self, other: BaseFlags) -> (r: BaseFlags)
        ensures
            r@ == self@ & other@,
    {
        proof {
            use_type_invariant(self);
            let a = self.bits;
            let b = other.bits;
            assert(a <= 63 ==> a & b <= 63) by (bit_vector);
        }
        BaseFlags { bits: self.bits & other.bits }
    }

    /// The flags set in `self` and not in `other`.
    pub fn difference(self, other: BaseFlags) -> (r: BaseFlags)
        ensures
            r@ == self@ & !other@,
    {
        proof {
            use_type_invariant(self);
            let a = self.bits;
            let b = other.bits;
            assert(a <= 63 ==> a & !b <= 63) by (bit_vector);
        }
        BaseFlags { bits: self.bits & !other.bits }
    }

    /// Sets the flags of `other`.
    pub fn insert(&mut self, other: BaseFlags)
        ensures
            final(self)@ == old(self)@ | other@,
    {
        *self = self.union(other);
    }

    /// Clears the flags of `other`.
    pub fn remove(&mut self, other: BaseFlags)
        ensures
            final(self)@ == old(self)@ & !other@,
    {
        *self = self.difference(other);
    }

    /// The default: no flag.
    pub fn default_flags() -> (r: BaseFlags)
        ensures
            r@ == 0,
    {
        BaseFlags::empty()
    }
}

} // verus!

verus! {

impl Default for FileFlags {
    fn default() -> (r: FileFlags)
        ensures
            r@ == 8191,
    {
        FileFlags::all()
    }
}

impl Default for BaseFlags {
    fn default() -> (r: BaseFlags)
        ensures
            r@ == 0,
    {
        BaseFlags::empty()
    }
}

impl From<FileFlags> for u16 {
    fn from(value: FileFlags) -> (r: u16) {
        value.bits()
    }
}

impl vstd::std_specs::convert::FromSpecImpl<FileFlags> for u16 {
    open spec fn obeys_from_spec() -> bool {
        true
    }

    open spec fn from_spec(v: FileFlags) -> u16 {
        v@
    }
}

impl TryFrom<u16> for FileFlags {
    type Error = String;

    fn try_from(value: u16) -> (r: Result<FileFlags, String>) {
        Ok(FileFlags::from_bits_truncate(value))
    }
}

impl vstd::std_specs::convert::TryFromSpecImpl<u16> for FileFlags {
    open spec fn obeys_try_from_spec() -> bool {
        true
    }

    closed spec fn try_from_spec(v: u16) -> Result<FileFlags, String> {
        Ok(FileFlags { bits: v & 8191 })
    }
}

/// The names of the fields of a set of flags.
pub trait FieldNames {
    const FIELDS: [&'static str; 13];
}

/// The lowercase names of the file flags, in the order of their bits.
pub const FILE_FLAG_FIELDS: [&'static str; 13] = [
    "map",
    "actors",
    "armors",
    "classes",
    "commonevents",
    "enemies",
    "items",
    "skills",
    "states",
    "troops",
    "weapons",
    "system",
    "scripts",
];

impl FieldNames for FileFlags {
    const FIELDS: [&'static str; 13] = FILE_FLAG_FIELDS;
}

} // verus!

verus! {

/// Maps, the other files, the system file and scripts are four disjoint
/// groups of file flags that together make up all of them.
pub proof fn law_file_flag_groups()
    ensures
        1u16 | 2046u16 | 2048u16 | 4096u16 == 8191u16,
        1u16 & 2046u16 == 0,
        (1u16 | 2046u16) & 2048u16 == 0,
        (1u16 | 2046u16 | 2048u16) & 4096u16 == 0,
{
    assert(1u16 | 2046u16 | 2048u16 | 4096u16 == 8191u16) by (bit_vector);
    assert(1u16 & 2046u16 == 0 && (1u16 | 2046u16) & 2048u16 == 0 && (1u16 | 2046u16 | 2048u16)
        & 4096u16 == 0) by (bit_vector);
}

/// After inserting flags, the set contains them and everything it held
/// before; after removing flags, it shares none with them.
pub proof fn law_file_flags_insert_remove(a: u16, b: u16)
    ensures
        (a | b) & b == b,
        (a | b) & a == a,
        (a & !b) & b == 0,
{
    assert((a | b) & b == b && (a | b) & a == a && (a & !b) & b == 0) by (bit_vector);
}

/// Truncated bits are the bits of a set of flags, and truncating them
/// again keeps them as they are.
pub proof fn law_file_flags_truncate(b: u16)
    ensures
        (b & 8191) & 8191 == b & 8191,
        (b & 8191) <= 8191,
{
    assert((b & 8191) & 8191 == b & 8191 && (b & 8191) <= 8191) by (bit_vector);
}

} // verus!
