use vstd::prelude::*;

use crate::actuators::{actuator_tag_from_jv, ActuatorTag};
use crate::json::{json_entry, json_object, json_str, jv_as_u64, jv_get, str_eq, Jv, JsonValue};
use crate::sensors::{sensor_tag_from_jv, SensorTag};
use crate::serialization::{Deserializable, Serializable, SerializationCtx};

verus! {

/// A tier-I trait number with this value chains on to tier II.
pub const TIER_ONE_TO_TWO_CHAIN: u8 = 0xFF;

/// A tier-II trait number with this value chains on to tier III.
pub const TIER_TWO_TO_THREE_CHAIN: u8 = 0x0F;

#[derive(Debug, Clone, Copy, PartialEq, Eq, Hash, Structural)]
pub enum TraitTier {
    TierI,
    TierII,
    TierIII,
}

/// The tier a tier number (1, 2 or 3) stands for.
pub open spec fn tier_of(v: u8) -> TraitTier {
    if v == 1 {
        TraitTier::TierI
    } else if v == 2 {
        TraitTier::TierII
    } else {
        TraitTier::TierIII
    }
}

/// The name a tier is written out with.
pub open spec fn tier_name(t: TraitTier) -> Seq<char> {
    match t {
        TraitTier::TierI => "TierI"@,
        TraitTier::TierII => "TierII"@,
        TraitTier::TierIII => "TierIII"@,
    }
}

/// The tier a name stands for.
pub open spec fn tier_from_name(s: Seq<char>) -> Option<TraitTier> {
    if s == "TierI"@ {
        Some(TraitTier::TierI)
    } else if s == "TierII"@ {
        Some(TraitTier::TierII)
    } else if s == "TierIII"@ {
        Some(TraitTier::TierIII)
    } else {
        None
    }
}

/// The tier a JSON value stands for: a string that names a tier.
pub open spec fn tier_from_jv(j: Jv) -> Option<TraitTier> {
    match j {
        Jv::Str(s) => tier_from_name(s),
        _ => None,
    }
}

impl TraitTier {
    /// The tier of a tier number; the numbers are 1, 2 and 3.
    pub fn from_u8(v: u8) -> (r: TraitTier)
        requires
            1 <= v <= 3,
        ensures
            r == tier_of(v),
    {
        if v == 1 {
            TraitTier::TierI
        } else if v == 2 {
            TraitTier::TierII
        } else {
            TraitTier::TierIII
        }
    }

    pub fn name(&self) -> (r: &'static str)
        ensures
            r@ == tier_name(*self),
    {
        match self {
            TraitTier::TierI => "TierI",
            TraitTier::TierII => "TierII",
            TraitTier::TierIII => "TierIII",
        }
    }
}

impl Serializable for TraitTier {
    fn serialize(&self, ctx: &mut SerializationCtx) -> (r: JsonValue)
        ensures
            r@ == Jv::Str(tier_name(*self)),
            *final(ctx) == *old(ctx),
    {
        json_str(self.name())
    }
}

impl Deserializable for TraitTier {
    open spec fn accepts_json(json: Jv) -> bool {
        true
    }

    fn new_from_json(json: &JsonValue, ctx: &mut SerializationCtx) -> (r: Option<TraitTier>)
        ensures
            r == tier_from_jv(json@),
            *final(ctx) == *old(ctx),
    {
        match json {
            JsonValue::String(s) => {
                if str_eq(s.as_str(), "TierI") {
                    Some(TraitTier::TierI)
                } else if str_eq(s.as_str(), "TierII") {
                    Some(TraitTier::TierII)
                } else if str_eq(s.as_str(), "TierIII") {
                    Some(TraitTier::TierIII)
                } else {
                    None
                }
            },
            _ => None,
        }
    }
}

/// Reading back the JSON that a tier is written out as gives the same tier.
pub proof fn lemma_tier_json_roundtrip(t: TraitTier)
    ensures
        tier_from_jv(Jv::Str(tier_name(t))) == Some(t),
{
    reveal_strlit("TierI");
    reveal_strlit("TierII");
    reveal_strlit("TierIII");
    assert("TierI"@.len() == 5);
    assert("TierII"@.len() == 6);
    assert("TierIII"@.len() == 7);
}

/// A trait carried by a cell: its tier, its number within the tier, and what it does.
#[derive(Debug, Clone, Copy)]
pub struct Trait {
    pub trait_tier: TraitTier,
    pub trait_number: u8,
    pub pm_trait: PolyminiTrait,
}

impl Trait {
    pub fn new(tier: TraitTier, trait_num: u8, pm_trait: PolyminiTrait) -> (r: Trait)
        ensures
            r == (Trait { trait_tier: tier, trait_number: trait_num, pm_trait }),
    {
        Trait { trait_tier: tier, trait_number: trait_num, pm_trait: pm_trait }
    }
}

/// The JSON a trait is written out as: its tier and its number.
pub open spec fn trait_jv(t: Trait) -> Jv {
    Jv::Obj(
        seq![("Tier"@, Jv::Str(tier_name(t.trait_tier))), ("TID"@, Jv::U64(t.trait_number as u64))],
    )
}

impl Serializable for Trait {
    fn serialize(&self, ctx: &mut SerializationCtx) -> (r: JsonValue)
        ensures
            r@ == trait_jv(*self),
            *final(ctx) == *old(ctx),
    {
        let mut entries: Vec<(String, JsonValue)> = Vec::new();
        entries.push(json_entry("Tier", self.trait_tier.serialize(ctx)));
        entries.push(json_entry("TID", JsonValue::U64(self.trait_number as u64)));
        let r = json_object(entries);
        assert(r@->Obj_0 =~= trait_jv(*self)->Obj_0);
        r
    }
}

/// The trait number read from the value under "TID": its low byte, 0 when it is no `u64`.
pub open spec fn trait_number_from_jv(j: Jv) -> u8 {
    match jv_as_u64(j) {
        Some(n) => n as u8,
        None => 0,
    }
}

/// The trait a JSON object stands for, where reading it does not stop the program.
pub open spec fn trait_from_jv(j: Jv) -> Option<Trait> {
    if !(j is Obj) {
        None
    } else {
        match (jv_get(j, "Tier"@), jv_get(j, "TID"@)) {
            (Some(tier), Some(num)) => Some(
                Trait {
                    trait_tier: tier_from_jv(tier)->0,
                    trait_number: trait_number_from_jv(num),
                    pm_trait: polymini_trait_from_jv(jv_get(j, "Trait"@)->0),
                },
            ),
            _ => None,
        }
    }
}

impl Deserializable for Trait {
    /// Reading stops the program on an object whose "Tier" names no tier, or that has
    /// a tier and a "TID" but no "Trait".
    open spec fn accepts_json(json: Jv) -> bool {
        json is Obj ==> match jv_get(json, "Tier"@) {
            Some(tier) => tier_from_jv(tier) is Some && (jv_get(json, "TID"@) is Some
                ==> jv_get(json, "Trait"@) is Some),
            None => true,
        }
    }

    fn new_from_json(json: &JsonValue, ctx: &mut SerializationCtx) -> (r: Option<Trait>)
        ensures
            r == trait_from_jv(json@),
            *final(ctx) == *old(ctx),
    {
        if !json.is_object() {
            return None;
        }
        let trait_tier = match json.get("Tier") {
            Some(tier) => match TraitTier::new_from_json(tier, ctx) {
                Some(t) => t,
                None => {
                    assert(false);
                    TraitTier::TierI
                },
            },
            None => {
                return None;
            },
        };
        let trait_number = match json.get("TID") {
            Some(num) => match num.as_u64() {
                Some(n) => n as u8,
                None => 0,
            },
            None => {
                return None;
            },
        };
        let pm_trait = match json.get("Trait") {
            Some(t) => match PolyminiTrait::new_from_json(t, ctx) {
                Some(p) => p,
                None => PolyminiTrait::PolyminiSimpleTrait(TraitTag::Empty),
            },
            None => {
                assert(false);
                PolyminiTrait::PolyminiSimpleTrait(TraitTag::Empty)
            },
        };
        Some(Trait::new(trait_tier, trait_number, pm_trait))
    }
}

#[derive(Debug, Clone, Copy, PartialEq, Eq, Structural)]
pub enum TraitTag {
    Empty,
    SpeedTrait,
}

/// The simple trait a JSON value names: only the exact string "speedtrait".
pub open spec fn trait_tag_from_jv(j: Jv) -> Option<TraitTag> {
    match j {
        Jv::Str(s) => if s == "speedtrait"@ {
            Some(TraitTag::SpeedTrait)
        } else {
            None
        },
        _ => None,
    }
}

impl Deserializable for TraitTag {
    open spec fn accepts_json(json: Jv) -> bool {
        true
    }

    fn new_from_json(json: &JsonValue, ctx: &mut SerializationCtx) -> (r: Option<TraitTag>)
        ensures
            r == trait_tag_from_jv(json@),
            *final(ctx) == *old(ctx),
    {
        match json {
            JsonValue::String(s) => if str_eq(s.as_str(), "speedtrait") {
                Some(TraitTag::SpeedTrait)
            } else {
                None
            },
            _ => None,
        }
    }
}

/// What a trait does: drive an actuator, feed a sensor, or a simple property.
#[derive(Debug, Clone, Copy, PartialEq, Eq, Structural)]
pub enum PolyminiTrait {
    PolyminiActuator(ActuatorTag),
    PolyminiSensor(SensorTag),
    PolyminiSimpleTrait(TraitTag),
}

/// What a JSON value stands for as a trait: an actuator name first, then a sensor
/// name, then a simple trait, and the empty trait when it names none of them.
pub open spec fn polymini_trait_from_jv(j: Jv) -> PolyminiTrait {
    match actuator_tag_from_jv(j) {
        Some(a) => PolyminiTrait::PolyminiActuator(a),
        None => match sensor_tag_from_jv(j) {
            Some(s) => PolyminiTrait::PolyminiSensor(s),
            None => match trait_tag_from_jv(j) {
                Some(t) => PolyminiTrait::PolyminiSimpleTrait(t),
                None => PolyminiTrait::PolyminiSimpleTrait(TraitTag::Empty),
            },
        },
    }
}

impl Deserializable for PolyminiTrait {
    open spec fn accepts_json(json: Jv) -> bool {
        true
    }

    fn new_from_json(json: &JsonValue, ctx: &mut SerializationCtx) -> (r: Option<PolyminiTrait>)
        ensures
            r == Some(polymini_trait_from_jv(json@)),
            *final(ctx) == *old(ctx),
    {
        let actuator = ActuatorTag::new_from_json(json, ctx);
        let sensor = SensorTag::new_from_json(json, ctx);
        let pm_trait = TraitTag::new_from_json(json, ctx);
        match actuator {
            Some(a) => Some(PolyminiTrait::PolyminiActuator(a)),
            None => match sensor {
                Some(s) => Some(PolyminiTrait::PolyminiSensor(s)),
                None => match pm_trait {
                    Some(t) => Some(PolyminiTrait::PolyminiSimpleTrait(t)),
                    None => Some(PolyminiTrait::PolyminiSimpleTrait(TraitTag::Empty)),
                },
            },
        }
    }
}

} // verus!
