use vstd::prelude::*;

pub use crate::json::{Jv, JsonValue};

verus! {

/// A set of serialization flags, one bit each.
pub type SerializationFlags = u32;

pub const PM_SF_NONE: SerializationFlags = 0b00000000;
pub const PM_SF_STATIC: SerializationFlags = 0b00000001;
pub const PM_SF_DYNAMIC: SerializationFlags = 0b00000010;
pub const PM_SF_DEBUG: SerializationFlags = 0b00000011;

/// What a serialization writes out, chosen by flags.
pub struct SerializationCtx {
    pub flags: SerializationFlags,
}

impl SerializationCtx {
    pub fn new() -> (r: SerializationCtx)
        ensures
            r.flags == PM_SF_NONE,
    {
        SerializationCtx { flags: PM_SF_NONE }
    }

    pub fn new_from_flags(flags: SerializationFlags) -> (r: SerializationCtx)
        ensures
            r.flags == flags,
    {
        SerializationCtx { flags: flags }
    }

    /// Whether every flag set in `flags` is set in this context.
    pub fn has_flag(&self, flags: SerializationFlags) -> (r: bool)
        ensures
            r == (self.flags & flags == flags),
    {
        self.flags & flags == flags
    }
}

/// Every context has the empty flag set, and a context has the debug flags exactly
/// when it has both the static and the dynamic flag.
pub proof fn lemma_flag_sets(f: SerializationFlags)
    ensures
        f & PM_SF_NONE == PM_SF_NONE,
        (f & PM_SF_DEBUG == PM_SF_DEBUG) <==> (f & PM_SF_STATIC == PM_SF_STATIC && f & PM_SF_DYNAMIC
            == PM_SF_DYNAMIC),
{
    assert(f & 0u32 == 0u32) by (bit_vector);
    assert((f & 3u32 == 3u32) <==> (f & 1u32 == 1u32 && f & 2u32 == 2u32)) by (bit_vector);
}

/// A value that writes itself out as JSON.
pub trait Serializable {
    fn serialize(&self, ctx: &mut SerializationCtx) -> JsonValue;
}

/// A value that can be read back from JSON.
pub trait Deserializable: Sized {
    /// The JSON values on which reading does not stop the program.
    spec fn accepts_json(json: Jv) -> bool;

    fn new_from_json(json: &JsonValue, ctx: &mut SerializationCtx) -> Option<Self>
        requires
            Self::accepts_json(json@),
    ;
}

/// What `str::to_lowercase` makes of a string: Unicode lowercasing.
pub uninterp spec fn spec_to_lowercase(s: Seq<char>) -> Seq<char>;

/// ASCII lowercasing of one character.
pub open spec fn ascii_lower(c: char) -> char {
    if 'A' <= c && c <= 'Z' {
        ((c as u32) + 32) as char
    } else {
        c
    }
}

/// ASCII lowercasing of every character of a string.
pub open spec fn ascii_lowercase(s: Seq<char>) -> Seq<char> {
    s.map_values(|c: char| ascii_lower(c))
}

pub open spec fn all_ascii(s: Seq<char>) -> bool {
    forall|i: int| 0 <= i < s.len() ==> (s[i] as u32) < 128
}

/// Calls `str::to_lowercase`. Claims that the result is the Unicode lowercase of
/// the input, and that on an all-ASCII input it maps `A`..`Z` to `a`..`z` and
/// keeps every other character, as the Unicode case tables do for ASCII.
#[verifier::external_body]
pub(crate) fn to_lowercase(s: &str) -> (r: String)
    ensures
        r@ == spec_to_lowercase(s@),
        all_ascii(s@) ==> r@ == ascii_lowercase(s@),
{
    s.to_lowercase()
}

} // verus!
