//! Decoding of the OpenType glyph-positioning records and of the layout
//! records that positioning, substitution and definition tables share.
//!
//! Every decoder reads from a [`Cursor`] over the font's bytes and is given,
//! as a parameter, what its record cannot learn from its own bytes: the
//! position its offsets are relative to, a class count, or value-record
//! flags. Each one's contract states, over the bytes, which error it meets
//! first, or what it returns and where it leaves the cursor.

pub mod anchor;
pub mod attachment;
pub mod context;
pub mod cursor;
pub mod decode;
pub mod device;
pub mod error;
pub mod rule;
pub mod script;
pub mod value;

pub use anchor::{Anchor, Anchor1, Anchor2, Anchor3};
pub use attachment::{Base, Bases, Component, Ligature, Ligatures, Mark1, Mark1s, Mark2, Mark2s, Passage};
pub use context::{Anchors, ClassCount, ClassPairs, Origin, Pairs, Standalone, Values};
pub use cursor::Cursor;
pub use decode::{resolve_all, resolve_each, with_jump, Decode};
pub use device::Device;
pub use error::{DecodeError, Flaw, Table};
pub use rule::{
    ChainClassRule, ChainClassRules, ChainRule, ChainRules, ClassRule, ClassRules, Positioning,
    Rule, RuleSet, Rules,
};
pub use script::{Header, LanguageHeader, LanguageRecord, Record, Scripts, Tag};
pub use value::{GlyphID, Pair1, Pair1s, Pair2, Pair2s, Single, SingleFlags};
