use vstd::prelude::*;

use crate::json::{str_eq, Jv, JsonValue};
use crate::serialization::{
    all_ascii, ascii_lowercase, spec_to_lowercase, to_lowercase, Deserializable, Serializable,
    SerializationCtx,
};

verus! {

/// The drives an individual's fitness is scored by.
#[derive(Clone, Copy, Debug, PartialEq, Eq, Hash, Structural)]
pub enum Instinct {
    Basic,
    Herding,
    Hoarding,
    Nomadic,
    Predatory,
}

/// The display name of an instinct.
pub open spec fn instinct_name(i: Instinct) -> Seq<char> {
    match i {
        Instinct::Basic => "Basic"@,
        Instinct::Herding => "Herding"@,
        Instinct::Hoarding => "Hoarding"@,
        Instinct::Nomadic => "Nomadic"@,
        Instinct::Predatory => "Predatory"@,
    }
}

/// The instinct a lowercase name stands for.
pub open spec fn instinct_from_lower(s: Seq<char>) -> Option<Instinct> {
    if s == "basic"@ {
        Some(Instinct::Basic)
    } else if s == "herding"@ {
        Some(Instinct::Herding)
    } else if s == "hoarding"@ {
        Some(Instinct::Hoarding)
    } else if s == "nomadic"@ {
        Some(Instinct::Nomadic)
    } else if s == "predatory"@ {
        Some(Instinct::Predatory)
    } else {
        None
    }
}

/// The instinct a JSON value stands for: a string whose lowercase form names an instinct.
pub open spec fn instinct_from_jv(j: Jv) -> Option<Instinct> {
    match j {
        Jv::Str(s) => instinct_from_lower(spec_to_lowercase(s)),
        _ => None,
    }
}

impl Instinct {
    pub fn name(&self) -> (r: &'static str)
        ensures
            r@ == instinct_name(*self),
    {
        match self {
            Instinct::Basic => "Basic",
            Instinct::Herding => "Herding",
            Instinct::Hoarding => "Hoarding",
            Instinct::Nomadic => "Nomadic",
            Instinct::Predatory => "Predatory",
        }
    }

    /// The instinct named by a lowercase name.
    pub fn from_lowercase_name(s: &str) -> (r: Option<Instinct>)
        ensures
            r == instinct_from_lower(s@),
    {
        if str_eq(s, "basic") {
            Some(Instinct::Basic)
        } else if str_eq(s, "herding") {
            Some(Instinct::Herding)
        } else if str_eq(s, "hoarding") {
            Some(Instinct::Hoarding)
        } else if str_eq(s, "nomadic") {
            Some(Instinct::Nomadic)
        } else if str_eq(s, "predatory") {
            Some(Instinct::Predatory)
        } else {
            None
        }
    }
}

impl Serializable for Instinct {
    /// Written out as the lowercase name.
    fn serialize(&self, ctx: &mut SerializationCtx) -> (r: JsonValue)
        ensures
            r@ == Jv::Str(spec_to_lowercase(instinct_name(*self))),
            r@ == Jv::Str(ascii_lowercase(instinct_name(*self))),
            *final(ctx) == *old(ctx),
    {
        proof {
            lemma_instinct_names_ascii(*self);
        }
        JsonValue::String(to_lowercase(self.name()))
    }
}

impl Deserializable for Instinct {
    open spec fn accepts_json(json: Jv) -> bool {
        true
    }

    fn new_from_json(json: &JsonValue, ctx: &mut SerializationCtx) -> (r: Option<Instinct>)
        ensures
            r == instinct_from_jv(json@),
            json@ matches Jv::Str(s) ==> (all_ascii(s) ==> r == instinct_from_lower(ascii_lowercase(s))),
            *final(ctx) == *old(ctx),
    {
        match json {
            JsonValue::String(s) => {
                let lower = to_lowercase(s.as_str());
                Instinct::from_lowercase_name(lower.as_str())
            },
            _ => None,
        }
    }
}

proof fn lemma_instinct_names_ascii(i: Instinct)
    ensures
        all_ascii(instinct_name(i)),
{
    reveal_strlit("Basic");
    reveal_strlit("Herding");
    reveal_strlit("Hoarding");
    reveal_strlit("Nomadic");
    reveal_strlit("Predatory");
}

/// Reading back the JSON that an instinct is written out as gives the same instinct.
pub proof fn lemma_instinct_json_roundtrip(i: Instinct)
    ensures
        all_ascii(ascii_lowercase(instinct_name(i))),
        instinct_from_lower(ascii_lowercase(ascii_lowercase(instinct_name(i)))) == Some(i),
{
    reveal_strlit("Basic");
    reveal_strlit("Herding");
    reveal_strlit("Hoarding");
    reveal_strlit("Nomadic");
    reveal_strlit("Predatory");
    reveal_strlit("basic");
    reveal_strlit("herding");
    reveal_strlit("hoarding");
    reveal_strlit("nomadic");
    reveal_strlit("predatory");
    let l = ascii_lowercase(instinct_name(i));
    let l2 = ascii_lowercase(l);
    match i {
        Instinct::Basic => { assert(l =~= "basic"@); assert(l2 =~= "basic"@); },
        Instinct::Herding => { assert(l =~= "herding"@); assert(l2 =~= "herding"@); },
        Instinct::Hoarding => {
            assert(l =~= "hoarding"@);
            assert(l2 =~= "hoarding"@);
            assert(l2[1] != "herding"@[1]);
        },
        Instinct::Nomadic => { assert(l =~= "nomadic"@); assert(l2 =~= "nomadic"@); assert(l2[0] != "herding"@[0]); },
        Instinct::Predatory => { assert(l =~= "predatory"@); assert(l2 =~= "predatory"@); },
    }
}

} // verus!
