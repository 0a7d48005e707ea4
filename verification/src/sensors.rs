use vstd::prelude::*;

use crate::json::{json_str, str_eq, Jv, JsonValue};
use crate::serialization::{
    all_ascii, ascii_lowercase, to_lowercase, Deserializable, Serializable, SerializationCtx,
};

verus! {

/// What a sensor senses.
#[derive(Clone, Copy, Debug, PartialEq, Eq, Hash, Structural)]
pub enum SensorTag {
    // Default sensors, not evolvable: movement
    PositionX,
    PositionY,
    Orientation,
    LastMoveSucceded,
    // Default sensors, not evolvable: time
    TimeGlobal,
    TimeSubStep,
    // Evolvable sensors: food sources
    GSensor,
}

/// The name a sensor tag is written out with.
pub open spec fn sensor_tag_name(t: SensorTag) -> Seq<char> {
    match t {
        SensorTag::PositionX => "PositionX"@,
        SensorTag::PositionY => "PositionY"@,
        SensorTag::Orientation => "Orientation"@,
        SensorTag::LastMoveSucceded => "LastMoveSucceded"@,
        SensorTag::TimeGlobal => "TimeGlobal"@,
        SensorTag::TimeSubStep => "TimeSubStep"@,
        SensorTag::GSensor => "GSensor"@,
    }
}

/// The sensor tag a lowercase name stands for.
pub open spec fn sensor_tag_from_lower(s: Seq<char>) -> Option<SensorTag> {
    if s == "positionx"@ {
        Some(SensorTag::PositionX)
    } else if s == "positiony"@ {
        Some(SensorTag::PositionY)
    } else if s == "orientation"@ {
        Some(SensorTag::Orientation)
    } else if s == "lastmovesucceded"@ {
        Some(SensorTag::LastMoveSucceded)
    } else if s == "gsensor"@ {
        Some(SensorTag::GSensor)
    } else if s == "timeglobal"@ {
        Some(SensorTag::TimeGlobal)
    } else if s == "timesubstep"@ {
        Some(SensorTag::TimeSubStep)
    } else {
        None
    }
}

/// The sensor tag a JSON value stands for: a string whose lowercase form names a tag.
pub open spec fn sensor_tag_from_jv(j: Jv) -> Option<SensorTag> {
    match j {
        Jv::Str(s) => sensor_tag_from_lower(crate::serialization::spec_to_lowercase(s)),
        _ => None,
    }
}

impl SensorTag {
    /// How many inputs the sensor feeds: one for every tag.
    pub fn get_cardinality(&self) -> (r: usize)
        ensures
            r == 1,
    {
        1
    }

    pub fn name(&self) -> (r: &'static str)
        ensures
            r@ == sensor_tag_name(*self),
    {
        match self {
            SensorTag::PositionX => "PositionX",
            SensorTag::PositionY => "PositionY",
            SensorTag::Orientation => "Orientation",
            SensorTag::LastMoveSucceded => "LastMoveSucceded",
            SensorTag::TimeGlobal => "TimeGlobal",
            SensorTag::TimeSubStep => "TimeSubStep",
            SensorTag::GSensor => "GSensor",
        }
    }

    /// The tag named by a lowercase name.
    pub fn from_lowercase_name(s: &str) -> (r: Option<SensorTag>)
        ensures
            r == sensor_tag_from_lower(s@),
    {
        if str_eq(s, "positionx") {
            Some(SensorTag::PositionX)
        } else if str_eq(s, "positiony") {
            Some(SensorTag::PositionY)
        } else if str_eq(s, "orientation") {
            Some(SensorTag::Orientation)
        } else if str_eq(s, "lastmovesucceded") {
            Some(SensorTag::LastMoveSucceded)
        } else if str_eq(s, "gsensor") {
            Some(SensorTag::GSensor)
        } else if str_eq(s, "timeglobal") {
            Some(SensorTag::TimeGlobal)
        } else if str_eq(s, "timesubstep") {
            Some(SensorTag::TimeSubStep)
        } else {
            None
        }
    }
}

impl Serializable for SensorTag {
    fn serialize(&self, ctx: &mut SerializationCtx) -> (r: JsonValue)
        ensures
            r@ == Jv::Str(sensor_tag_name(*self)),
            *final(ctx) == *old(ctx),
    {
        json_str(self.name())
    }
}

impl Deserializable for SensorTag {
    open spec fn accepts_json(json: Jv) -> bool {
        true
    }

    fn new_from_json(json: &JsonValue, ctx: &mut SerializationCtx) -> (r: Option<SensorTag>)
        ensures
            r == sensor_tag_from_jv(json@),
            json@ matches Jv::Str(s) ==> (all_ascii(s) ==> r == sensor_tag_from_lower(ascii_lowercase(s))),
            *final(ctx) == *old(ctx),
    {
        match json {
            JsonValue::String(s) => {
                let lower = to_lowercase(s.as_str());
                SensorTag::from_lowercase_name(lower.as_str())
            },
            _ => None,
        }
    }
}

/// A sensor of a body: what it senses, how many inputs it feeds, and the index of its cell.
#[derive(Clone, Copy)]
pub struct Sensor {
    pub tag: SensorTag,
    pub cardinality: usize,
    pub index: usize,
}

/// The number of inputs a list of sensors feeds.
pub open spec fn total_cardinality(sensors: Seq<Sensor>) -> int
    decreases sensors.len(),
{
    if sensors.len() == 0 {
        0
    } else {
        total_cardinality(sensors.drop_last()) + sensors.last().cardinality
    }
}

impl Sensor {
    pub fn new(tag: SensorTag, index: usize) -> (r: Sensor)
        ensures
            r.tag == tag,
            r.cardinality == 1,
            r.index == index,
    {
        Sensor { tag: tag, cardinality: tag.get_cardinality(), index: index }
    }

    /// The number of inputs the sensors feed, together.
    pub fn get_total_cardinality(sensors: &Vec<Sensor>) -> (r: usize)
        requires
            total_cardinality(sensors@) <= usize::MAX,
        ensures
            r == total_cardinality(sensors@),
    {
        let mut in_len: usize = 0;
        let mut i: usize = 0;
        while i < sensors.len()
            invariant
                i <= sensors@.len(),
                total_cardinality(sensors@) <= usize::MAX,
                in_len == total_cardinality(sensors@.take(i as int)),
            decreases sensors.len() - i,
        {
            assert(sensors@.take(i + 1).drop_last() =~= sensors@.take(i as int));
            proof {
                lemma_total_cardinality_prefix(sensors@, i as int + 1);
            }
            in_len = in_len + sensors[i].cardinality;
            i = i + 1;
        }
        assert(sensors@.take(i as int) =~= sensors@);
        in_len
    }
}

/// A prefix of a sensor list feeds no more inputs than the whole list.
pub proof fn lemma_total_cardinality_prefix(s: Seq<Sensor>, m: int)
    requires
        0 <= m <= s.len(),
    ensures
        total_cardinality(s.take(m)) <= total_cardinality(s),
    decreases s.len() - m,
{
    if m < s.len() {
        assert(s.take(m + 1).drop_last() =~= s.take(m));
        lemma_total_cardinality_prefix(s, m + 1);
    } else {
        assert(s.take(m) =~= s);
    }
}

/// Reading back the JSON that a sensor tag is written out as gives the same tag.
pub proof fn lemma_sensor_tag_json_roundtrip(t: SensorTag)
    ensures
        all_ascii(sensor_tag_name(t)),
        sensor_tag_from_lower(ascii_lowercase(sensor_tag_name(t))) == Some(t),
{
    reveal_strlit("PositionX");
    reveal_strlit("PositionY");
    reveal_strlit("Orientation");
    reveal_strlit("LastMoveSucceded");
    reveal_strlit("TimeGlobal");
    reveal_strlit("TimeSubStep");
    reveal_strlit("GSensor");
    reveal_strlit("positionx");
    reveal_strlit("positiony");
    reveal_strlit("orientation");
    reveal_strlit("lastmovesucceded");
    reveal_strlit("timeglobal");
    reveal_strlit("timesubstep");
    reveal_strlit("gsensor");
    let n = sensor_tag_name(t);
    let l = ascii_lowercase(n);
    match t {
        SensorTag::PositionX => { assert(l =~= "positionx"@); assert(sensor_tag_from_lower(l) == Some(t)); },
        SensorTag::PositionY => { assert(l =~= "positiony"@); assert(l[8] != "positionx"@[8]); assert(sensor_tag_from_lower(l) == Some(t)); },
        SensorTag::Orientation => { assert(l =~= "orientation"@); assert(sensor_tag_from_lower(l) == Some(t)); },
        SensorTag::LastMoveSucceded => { assert(l =~= "lastmovesucceded"@); assert(sensor_tag_from_lower(l) == Some(t)); },
        SensorTag::TimeGlobal => { assert(l =~= "timeglobal"@); assert(sensor_tag_from_lower(l) == Some(t)); },
        SensorTag::TimeSubStep => { assert(l =~= "timesubstep"@); assert(l[0] != "orientation"@[0]); assert(sensor_tag_from_lower(l) == Some(t)); },
        SensorTag::GSensor => { assert(l =~= "gsensor"@); assert(sensor_tag_from_lower(l) == Some(t)); },
    }
}

} // verus!
