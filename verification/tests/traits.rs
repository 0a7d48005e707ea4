use polyminis_core::json::JsonValue;
use polyminis_core::serialization::{Deserializable, Serializable, SerializationCtx};
use polyminis_core::traits::TraitTier;

#[test]
fn test_trait_deserialize() {
    let mut s_ctx = SerializationCtx::new();

    let t1 = "TierI";
    let t1_json = JsonValue::String(t1.to_string());
    let t1_p = TraitTier::new_from_json(&t1_json, &mut s_ctx);
    assert_eq!(t1_p.unwrap(), TraitTier::TierI);

    let t2 = "TierII";
    let t2_json = JsonValue::String(t2.to_string());
    let t2_p = TraitTier::new_from_json(&t2_json, &mut s_ctx);
    assert_eq!(t2_p.unwrap(), TraitTier::TierII);

    let t3 = "TierIII";
    let t3_json = JsonValue::String(t3.to_string());
    let t3_p = TraitTier::new_from_json(&t3_json, &mut s_ctx);
    assert_eq!(t3_p.unwrap(), TraitTier::TierIII);
}

#[test]
fn test_trait_serialize_deserialize() {
    let mut s_ctx = SerializationCtx::new();

    let t1 = TraitTier::TierI;
    let t1_json = t1.serialize(&mut s_ctx);
    let t1_p = TraitTier::new_from_json(&t1_json, &mut s_ctx);
    assert_eq!(t1, t1_p.unwrap());

    let t2 = TraitTier::TierII;
    let t2_json = t2.serialize(&mut s_ctx);
    let t2_p = TraitTier::new_from_json(&t2_json, &mut s_ctx);
    assert_eq!(t2, t2_p.unwrap());

    let t3 = TraitTier::TierIII;
    let t3_json = t3.serialize(&mut s_ctx);
    let t3_p = TraitTier::new_from_json(&t3_json, &mut s_ctx);
    assert_eq!(t3, t3_p.unwrap());
}
