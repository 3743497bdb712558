//! `PersistedConfig`: the record persisted across runs — the two bounds and
//! the locale flag — with its fixed three-byte binary layout. Reading and
//! writing the file belong to the embedding shell; this module owns the
//! layout and the fall-back-to-defaults policy for malformed bytes.

use vstd::prelude::*;

use crate::range::RangeInt;

verus! {

/// The record persisted across runs: last-used bounds and locale choice.
#[derive(Clone, Copy, Debug, PartialEq, Eq, Structural)]
pub struct PersistedConfig {
    /// Last-used start bound.
    pub start: RangeInt,
    /// Last-used end bound.
    pub end: RangeInt,
    /// Whether the Chinese locale was selected.
    pub locale_is_chinese: bool,
}

impl PersistedConfig {
    /// The record's invariant: both bounds are valid.
    pub open spec fn wf(&self) -> bool {
        self.start.wf() && self.end.wf()
    }
}

/// The default record, used whenever no valid persisted record exists.
pub open spec fn spec_default_config() -> PersistedConfig {
    PersistedConfig {
        start: RangeInt::spec_from(1),
        end: RangeInt::spec_from(1),
        locale_is_chinese: false,
    }
}

/// The fixed binary layout: one byte per bound, then one boolean byte.
pub open spec fn spec_encode(c: PersistedConfig) -> Seq<u8> {
    seq![c.start@, c.end@, if c.locale_is_chinese { 1u8 } else { 0u8 }]
}

/// Whether a byte string is a valid encoded record: exactly three bytes,
/// both bound bytes nonzero, and a canonical boolean byte.
pub open spec fn spec_decode_ok(b: Seq<u8>) -> bool {
    b.len() == 3 && b[0] >= 1 && b[1] >= 1 && b[2] <= 1
}

/// The record a valid byte string encodes.
pub open spec fn spec_decode(b: Seq<u8>) -> PersistedConfig
    recommends
        spec_decode_ok(b),
{
    PersistedConfig {
        start: RangeInt::spec_from(b[0]),
        end: RangeInt::spec_from(b[1]),
        locale_is_chinese: b[2] == 1,
    }
}

impl PersistedConfig {
    /// Serializes the record into its three-byte layout.
    pub fn encode(&self) -> (r: Vec<u8>)
        requires
            self.wf(),
        ensures
            r@ == spec_encode(*self),
    {
        let mut out: Vec<u8> = Vec::new();
        out.push(self.start.get());
        out.push(self.end.get());
        out.push(if self.locale_is_chinese { 1 } else { 0 });
        proof {
            assert(out@ =~= spec_encode(*self));
        }
        out
    }

    /// Deserializes a record; returns `None` exactly on byte strings that
    /// no valid record encodes to.
    pub fn decode(bytes: &[u8]) -> (r: Option<PersistedConfig>)
        ensures
            r is Some <==> spec_decode_ok(bytes@),
            r matches Some(c) ==> c == spec_decode(bytes@) && c.wf(),
    {
        if bytes.len() != 3 {
            return None;
        }
        let b0 = bytes[0];
        let b1 = bytes[1];
        let b2 = bytes[2];
        if b0 == 0 || b1 == 0 || b2 > 1 {
            return None;
        }
        Some(
            PersistedConfig {
                start: RangeInt::new(b0),
                end: RangeInt::new(b1),
                locale_is_chinese: b2 == 1,
            },
        )
    }

    /// Deserializes a record, absorbing failure: malformed bytes yield the
    /// default record instead of an error, so a corrupt file never stops
    /// the tool.
    pub fn decode_or_default(bytes: &[u8]) -> (c: PersistedConfig)
        ensures
            c.wf(),
            spec_decode_ok(bytes@) ==> c == spec_decode(bytes@),
            !spec_decode_ok(bytes@) ==> c == spec_default_config(),
    {
        match PersistedConfig::decode(bytes) {
            Some(c) => c,
            None => PersistedConfig::default(),
        }
    }
}

impl Default for PersistedConfig {
    /// The default record: both bounds 1, English locale.
    fn default() -> (c: Self)
        ensures
            c == spec_default_config(),
            c.wf(),
    {
        PersistedConfig { start: RangeInt::new(1), end: RangeInt::new(1), locale_is_chinese: false }
    }
}

/// Encoding a record and decoding the bytes restores the record whole: the
/// layout is lossless, and its output always decodes.
pub proof fn lemma_encode_decode_round_trip(c: PersistedConfig)
    requires
        c.wf(),
    ensures
        spec_decode_ok(spec_encode(c)),
        spec_decode(spec_encode(c)) == c,
{
    crate::range::lemma_spec_from_view(c.start);
    crate::range::lemma_spec_from_view(c.end);
}

} // verus!
