use vstd::prelude::*;

use crate::json::{json_str, str_eq, Jv, JsonValue};
use crate::serialization::{
    all_ascii, ascii_lowercase, spec_to_lowercase, to_lowercase, Deserializable, Serializable,
    SerializationCtx,
};
use crate::types::Coord;

verus! {

/// What an actuator acts on.
#[derive(Clone, Copy, Debug, PartialEq, Eq, Hash, Structural)]
pub enum ActuatorTag {
    MoveHorizontal,
    MoveVertical,
    Thermo,
    Ph,
}

/// The name an actuator tag is written out with.
pub open spec fn actuator_tag_name(t: ActuatorTag) -> Seq<char> {
    match t {
        ActuatorTag::MoveHorizontal => "MoveHorizontal"@,
        ActuatorTag::MoveVertical => "MoveVertical"@,
        ActuatorTag::Thermo => "Thermo"@,
        ActuatorTag::Ph => "Ph"@,
    }
}

/// The actuator tag a lowercase short name stands for.
pub open spec fn actuator_tag_from_lower(s: Seq<char>) -> Option<ActuatorTag> {
    if s == "hormov"@ {
        Some(ActuatorTag::MoveHorizontal)
    } else if s == "vermov"@ {
        Some(ActuatorTag::MoveVertical)
    } else if s == "thermo"@ {
        Some(ActuatorTag::Thermo)
    } else if s == "ph"@ {
        Some(ActuatorTag::Ph)
    } else {
        None
    }
}

/// The actuator tag a JSON value stands for: a string whose lowercase form is a short name.
pub open spec fn actuator_tag_from_jv(j: Jv) -> Option<ActuatorTag> {
    match j {
        Jv::Str(s) => actuator_tag_from_lower(spec_to_lowercase(s)),
        _ => None,
    }
}

impl ActuatorTag {
    pub fn name(&self) -> (r: &'static str)
        ensures
            r@ == actuator_tag_name(*self),
    {
        match self {
            ActuatorTag::MoveHorizontal => "MoveHorizontal",
            ActuatorTag::MoveVertical => "MoveVertical",
            ActuatorTag::Thermo => "Thermo",
            ActuatorTag::Ph => "Ph",
        }
    }

    /// The tag named by a lowercase short name.
    pub fn from_lowercase_name(s: &str) -> (r: Option<ActuatorTag>)
        ensures
            r == actuator_tag_from_lower(s@),
    {
        if str_eq(s, "hormov") {
            Some(ActuatorTag::MoveHorizontal)
        } else if str_eq(s, "vermov") {
            Some(ActuatorTag::MoveVertical)
        } else if str_eq(s, "thermo") {
            Some(ActuatorTag::Thermo)
        } else if str_eq(s, "ph") {
            Some(ActuatorTag::Ph)
        } else {
            None
        }
    }
}

impl Serializable for ActuatorTag {
    fn serialize(&self, ctx: &mut SerializationCtx) -> (r: JsonValue)
        ensures
            r@ == Jv::Str(actuator_tag_name(*self)),
            *final(ctx) == *old(ctx),
    {
        json_str(self.name())
    }
}

impl Deserializable for ActuatorTag {
    open spec fn accepts_json(json: Jv) -> bool {
        true
    }

    fn new_from_json(json: &JsonValue, ctx: &mut SerializationCtx) -> (r: Option<ActuatorTag>)
        ensures
            r == actuator_tag_from_jv(json@),
            json@ matches Jv::Str(s) ==> (all_ascii(s) ==> r == actuator_tag_from_lower(ascii_lowercase(s))),
            *final(ctx) == *old(ctx),
    {
        match json {
            JsonValue::String(s) => {
                let lower = to_lowercase(s.as_str());
                ActuatorTag::from_lowercase_name(lower.as_str())
            },
            _ => None,
        }
    }
}

/// An actuator of a body: what it acts on, and the cell it sits at.
#[derive(Clone, Copy)]
pub struct Actuator {
    pub tag: ActuatorTag,
    pub index: usize,
    pub coords: Coord,
}

impl Actuator {
    pub fn new(tag: ActuatorTag, index: usize, coords: Coord) -> (r: Actuator)
        ensures
            r == (Actuator { tag, index, coords }),
    {
        Actuator { tag: tag, index: index, coords: coords }
    }
}

} // verus!
