use vstd::prelude::*;

use crate::value::SingleFlags;

verus! {

// What a record cannot learn from its own bytes is handed to its decoder by
// the table that encloses it, as one of these.

/// The parameter of a record that needs nothing beyond its own bytes.
#[derive(Clone, Copy, Debug, PartialEq, Eq, Structural)]
pub struct Standalone;

/// The position that a record's offsets are relative to.
#[derive(Clone, Copy, Debug, PartialEq, Eq, Structural)]
pub struct Origin {
    pub position: u64,
}

/// The number of attachment classes, which sizes each record's anchor array.
#[derive(Clone, Copy, Debug, PartialEq, Eq, Structural)]
pub struct ClassCount {
    pub class_count: u16,
}

/// The position that anchor offsets are relative to, and the number of
/// attachment classes.
#[derive(Clone, Copy, Debug, PartialEq, Eq, Structural)]
pub struct Anchors {
    pub position: u64,
    pub class_count: u16,
}

/// The position that device offsets are relative to, and the flags of a
/// value record.
#[derive(Clone, Copy, Debug, PartialEq, Eq, Structural)]
pub struct Values {
    pub position: u64,
    pub flags: SingleFlags,
}

/// The position that device offsets are relative to, and the flags of the
/// two value records of a pair.
#[derive(Clone, Copy, Debug, PartialEq, Eq, Structural)]
pub struct Pairs {
    pub position: u64,
    pub value1_flags: SingleFlags,
    pub value2_flags: SingleFlags,
}

/// What [`Pairs`] holds, and the number of second-glyph classes.
#[derive(Clone, Copy, Debug, PartialEq, Eq, Structural)]
pub struct ClassPairs {
    pub position: u64,
    pub class2_count: u16,
    pub value1_flags: SingleFlags,
    pub value2_flags: SingleFlags,
}

impl Pairs {
    /// The parameter of the first value record of a pair.
    pub open spec fn first(self) -> Values {
        Values { position: self.position, flags: self.value1_flags }
    }

    /// The parameter of the second value record of a pair.
    pub open spec fn second(self) -> Values {
        Values { position: self.position, flags: self.value2_flags }
    }
}

impl ClassPairs {
    /// The parameter of each pair of the class-2 array.
    pub open spec fn pairs(self) -> Pairs {
        Pairs {
            position: self.position,
            value1_flags: self.value1_flags,
            value2_flags: self.value2_flags,
        }
    }
}

} // verus!
