//! Entity identifiers. Each is a UUID held as its 128-bit value, so identity
//! is plain integer equality; the `uuid` crate makes fresh ones and spells them.

use vstd::prelude::*;

use crate::text::{hex_digits};

verus! {

/// The hyphenated lowercase spelling of a UUID: 32 hexadecimal digits, most
/// significant first, in groups of 8, 4, 4, 4 and 12.
pub open spec fn uuid_chars(value: u128) -> Seq<char> {
    let all = hex_digits(value as nat, 32);
    all.subrange(0, 8) + seq!['-'] + all.subrange(8, 12) + seq!['-'] + all.subrange(12, 16)
        + seq!['-'] + all.subrange(16, 20) + seq!['-'] + all.subrange(20, 32)
}

/// `uuid::Uuid::from_u128(value).to_string()`: the crate documents `Display`
/// as the hyphenated lowercase form, which is what `uuid_chars` spells out.
#[verifier::external_body]
pub(crate) fn uuid_text(value: u128) -> (text: String)
    ensures
        text@ == uuid_chars(value),
{
    uuid::Uuid::from_u128(value).to_string()
}

/// `uuid::Uuid::new_v4()`: random, so nothing is promised of the value
/// beyond what every version 4 UUID carries: its version nibble, 4, and its
/// RFC 4122 variant bits, `10`.
#[verifier::external_body]
pub(crate) fn random_uuid() -> (value: u128)
    ensures
        (value >> 76u128) & 0xfu128 == 4,
        (value >> 62u128) & 0x3u128 == 2,
{
    uuid::Uuid::new_v4().as_u128()
}

/// Identifies one entity of its kind, stably across edits and saves.
#[derive(Clone, Copy, Debug, PartialEq, Eq, Structural, Hash, PartialOrd, Ord)]
pub struct ProjectId(pub u128);

impl ProjectId {
    /// A fresh random identifier.
    pub fn new() -> (id: Self)
        ensures
            (id.0 >> 76u128) & 0xfu128 == 4,
            (id.0 >> 62u128) & 0x3u128 == 2,
    {
        ProjectId(random_uuid())
    }

    pub fn from_u128(value: u128) -> (id: Self)
        ensures
            id.0 == value,
    {
        ProjectId(value)
    }

    pub fn as_u128(self) -> (value: u128)
        ensures
            value == self.0,
    {
        self.0
    }

    /// The identifier as the project file and diagnostics spell it.
    pub fn text(self) -> (text: String)
        ensures
            text@ == uuid_chars(self.0),
    {
        uuid_text(self.0)
    }
}

/// Identifies one entity of its kind, stably across edits and saves.
#[derive(Clone, Copy, Debug, PartialEq, Eq, Structural, Hash, PartialOrd, Ord)]
pub struct AssetId(pub u128);

impl AssetId {
    /// A fresh random identifier.
    pub fn new() -> (id: Self)
        ensures
            (id.0 >> 76u128) & 0xfu128 == 4,
            (id.0 >> 62u128) & 0x3u128 == 2,
    {
        AssetId(random_uuid())
    }

    pub fn from_u128(value: u128) -> (id: Self)
        ensures
            id.0 == value,
    {
        AssetId(value)
    }

    pub fn as_u128(self) -> (value: u128)
        ensures
            value == self.0,
    {
        self.0
    }

    /// The identifier as the project file and diagnostics spell it.
    pub fn text(self) -> (text: String)
        ensures
            text@ == uuid_chars(self.0),
    {
        uuid_text(self.0)
    }
}

/// Identifies one entity of its kind, stably across edits and saves.
#[derive(Clone, Copy, Debug, PartialEq, Eq, Structural, Hash, PartialOrd, Ord)]
pub struct TrackId(pub u128);

impl TrackId {
    /// A fresh random identifier.
    pub fn new() -> (id: Self)
        ensures
            (id.0 >> 76u128) & 0xfu128 == 4,
            (id.0 >> 62u128) & 0x3u128 == 2,
    {
        TrackId(random_uuid())
    }

    pub fn from_u128(value: u128) -> (id: Self)
        ensures
            id.0 == value,
    {
        TrackId(value)
    }

    pub fn as_u128(self) -> (value: u128)
        ensures
            value == self.0,
    {
        self.0
    }

    /// The identifier as the project file and diagnostics spell it.
    pub fn text(self) -> (text: String)
        ensures
            text@ == uuid_chars(self.0),
    {
        uuid_text(self.0)
    }
}

/// Identifies one entity of its kind, stably across edits and saves.
#[derive(Clone, Copy, Debug, PartialEq, Eq, Structural, Hash, PartialOrd, Ord)]
pub struct LayerId(pub u128);

impl LayerId {
    /// A fresh random identifier.
    pub fn new() -> (id: Self)
        ensures
            (id.0 >> 76u128) & 0xfu128 == 4,
            (id.0 >> 62u128) & 0x3u128 == 2,
    {
        LayerId(random_uuid())
    }

    pub fn from_u128(value: u128) -> (id: Self)
        ensures
            id.0 == value,
    {
        LayerId(value)
    }

    pub fn as_u128(self) -> (value: u128)
        ensures
            value == self.0,
    {
        self.0
    }

    /// The identifier as the project file and diagnostics spell it.
    pub fn text(self) -> (text: String)
        ensures
            text@ == uuid_chars(self.0),
    {
        uuid_text(self.0)
    }
}

/// Identifies one entity of its kind, stably across edits and saves.
#[derive(Clone, Copy, Debug, PartialEq, Eq, Structural, Hash, PartialOrd, Ord)]
pub struct ClipId(pub u128);

impl ClipId {
    /// A fresh random identifier.
    pub fn new() -> (id: Self)
        ensures
            (id.0 >> 76u128) & 0xfu128 == 4,
            (id.0 >> 62u128) & 0x3u128 == 2,
    {
        ClipId(random_uuid())
    }

    pub fn from_u128(value: u128) -> (id: Self)
        ensures
            id.0 == value,
    {
        ClipId(value)
    }

    pub fn as_u128(self) -> (value: u128)
        ensures
            value == self.0,
    {
        self.0
    }

    /// The identifier as the project file and diagnostics spell it.
    pub fn text(self) -> (text: String)
        ensures
            text@ == uuid_chars(self.0),
    {
        uuid_text(self.0)
    }
}

/// Identifies one entity of its kind, stably across edits and saves.
#[derive(Clone, Copy, Debug, PartialEq, Eq, Structural, Hash, PartialOrd, Ord)]
pub struct BusId(pub u128);

impl BusId {
    /// A fresh random identifier.
    pub fn new() -> (id: Self)
        ensures
            (id.0 >> 76u128) & 0xfu128 == 4,
            (id.0 >> 62u128) & 0x3u128 == 2,
    {
        BusId(random_uuid())
    }

    pub fn from_u128(value: u128) -> (id: Self)
        ensures
            id.0 == value,
    {
        BusId(value)
    }

    pub fn as_u128(self) -> (value: u128)
        ensures
            value == self.0,
    {
        self.0
    }

    /// The identifier as the project file and diagnostics spell it.
    pub fn text(self) -> (text: String)
        ensures
            text@ == uuid_chars(self.0),
    {
        uuid_text(self.0)
    }
}

/// Identifies one entity of its kind, stably across edits and saves.
#[derive(Clone, Copy, Debug, PartialEq, Eq, Structural, Hash, PartialOrd, Ord)]
pub struct MarkerId(pub u128);

impl MarkerId {
    /// A fresh random identifier.
    pub fn new() -> (id: Self)
        ensures
            (id.0 >> 76u128) & 0xfu128 == 4,
            (id.0 >> 62u128) & 0x3u128 == 2,
    {
        MarkerId(random_uuid())
    }

    pub fn from_u128(value: u128) -> (id: Self)
        ensures
            id.0 == value,
    {
        MarkerId(value)
    }

    pub fn as_u128(self) -> (value: u128)
        ensures
            value == self.0,
    {
        self.0
    }

    /// The identifier as the project file and diagnostics spell it.
    pub fn text(self) -> (text: String)
        ensures
            text@ == uuid_chars(self.0),
    {
        uuid_text(self.0)
    }
}

/// Identifies one entity of its kind, stably across edits and saves.
#[derive(Clone, Copy, Debug, PartialEq, Eq, Structural, Hash, PartialOrd, Ord)]
pub struct AutomationId(pub u128);

impl AutomationId {
    /// A fresh random identifier.
    pub fn new() -> (id: Self)
        ensures
            (id.0 >> 76u128) & 0xfu128 == 4,
            (id.0 >> 62u128) & 0x3u128 == 2,
    {
        AutomationId(random_uuid())
    }

    pub fn from_u128(value: u128) -> (id: Self)
        ensures
            id.0 == value,
    {
        AutomationId(value)
    }

    pub fn as_u128(self) -> (value: u128)
        ensures
            value == self.0,
    {
        self.0
    }

    /// The identifier as the project file and diagnostics spell it.
    pub fn text(self) -> (text: String)
        ensures
            text@ == uuid_chars(self.0),
    {
        uuid_text(self.0)
    }
}

/// Identifies one entity of its kind, stably across edits and saves.
#[derive(Clone, Copy, Debug, PartialEq, Eq, Structural, Hash, PartialOrd, Ord)]
pub struct EffectId(pub u128);

impl EffectId {
    /// A fresh random identifier.
    pub fn new() -> (id: Self)
        ensures
            (id.0 >> 76u128) & 0xfu128 == 4,
            (id.0 >> 62u128) & 0x3u128 == 2,
    {
        EffectId(random_uuid())
    }

    pub fn from_u128(value: u128) -> (id: Self)
        ensures
            id.0 == value,
    {
        EffectId(value)
    }

    pub fn as_u128(self) -> (value: u128)
        ensures
            value == self.0,
    {
        self.0
    }

    /// The identifier as the project file and diagnostics spell it.
    pub fn text(self) -> (text: String)
        ensures
            text@ == uuid_chars(self.0),
    {
        uuid_text(self.0)
    }
}

/// Identifies one entity of its kind, stably across edits and saves.
#[derive(Clone, Copy, Debug, PartialEq, Eq, Structural, Hash, PartialOrd, Ord)]
pub struct PatternId(pub u128);

impl PatternId {
    /// A fresh random identifier.
    pub fn new() -> (id: Self)
        ensures
            (id.0 >> 76u128) & 0xfu128 == 4,
            (id.0 >> 62u128) & 0x3u128 == 2,
    {
        PatternId(random_uuid())
    }

    pub fn from_u128(value: u128) -> (id: Self)
        ensures
            id.0 == value,
    {
        PatternId(value)
    }

    pub fn as_u128(self) -> (value: u128)
        ensures
            value == self.0,
    {
        self.0
    }

    /// The identifier as the project file and diagnostics spell it.
    pub fn text(self) -> (text: String)
        ensures
            text@ == uuid_chars(self.0),
    {
        uuid_text(self.0)
    }
}

} // verus!
