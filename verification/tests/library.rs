use polyminis_core::actuators::{Actuator, ActuatorTag};
use polyminis_core::collision::{max_passes, placement_moves_first, placement_push, BodyKind};
use polyminis_core::control::{
    crossover_bias_sources, crossover_hidden_range, crossover_weight_sources, hidden_needs_redraw, plan_mutation,
    resized_bias_sources, resized_weight_sources, WeightSource,
};
use polyminis_core::coord_map::CoordMap;
use polyminis_core::epoch::EpochClock;
use polyminis_core::evaluation::{positions_visited, summarize, EvaluatorKind, FitnessStatistic};
use polyminis_core::instincts::Instinct;
use polyminis_core::json::JsonValue;
use polyminis_core::morphology::{
    morphology_json_readable, translation_table_json_readable, Chromosome, Morphology, TTKey, TranslationTable,
};
use polyminis_core::sensors::{Sensor, SensorTag};
use polyminis_core::serialization::{
    Deserializable, Serializable, SerializationCtx, PM_SF_DEBUG, PM_SF_DYNAMIC, PM_SF_NONE,
    PM_SF_STATIC,
};
use polyminis_core::species::random_seed;
use polyminis_core::stats::Stats;
use polyminis_core::traits::{PolyminiTrait, Trait, TraitTag, TraitTier};
use polyminis_core::types::{DeathContext, DeathReason, Direction};

fn jstr(s: &str) -> JsonValue {
    JsonValue::String(s.to_string())
}

fn speed_table() -> TranslationTable {
    let entries: Vec<(TTKey, PolyminiTrait)> = vec![
        ((TraitTier::TierI, 0x0A), PolyminiTrait::PolyminiSimpleTrait(TraitTag::SpeedTrait)),
        ((TraitTier::TierI, 0x0B), PolyminiTrait::PolyminiSensor(SensorTag::PositionX)),
        ((TraitTier::TierI, 0x0C), PolyminiTrait::PolyminiActuator(ActuatorTag::MoveVertical)),
    ];
    let active: Vec<TTKey> = vec![(TraitTier::TierI, 0x0A), (TraitTier::TierI, 0x0B), (TraitTier::TierI, 0x0C)];
    TranslationTable::new_from(&entries, &active)
}

#[test]
fn sensor_tag_names_read_back() {
    let mut ctx = SerializationCtx::new();
    for t in [
        SensorTag::PositionX,
        SensorTag::PositionY,
        SensorTag::Orientation,
        SensorTag::LastMoveSucceded,
        SensorTag::TimeGlobal,
        SensorTag::TimeSubStep,
        SensorTag::GSensor,
    ] {
        let j = t.serialize(&mut ctx);
        assert_eq!(SensorTag::new_from_json(&j, &mut ctx), Some(t));
    }
}

#[test]
fn sensor_tag_parse_ignores_case() {
    let mut ctx = SerializationCtx::new();
    assert_eq!(SensorTag::new_from_json(&jstr("PositionX"), &mut ctx), Some(SensorTag::PositionX));
    assert_eq!(SensorTag::new_from_json(&jstr("POSITIONY"), &mut ctx), Some(SensorTag::PositionY));
    assert_eq!(SensorTag::new_from_json(&jstr("timesubstep"), &mut ctx), Some(SensorTag::TimeSubStep));
    assert_eq!(SensorTag::new_from_json(&jstr("Position"), &mut ctx), None);
    assert_eq!(SensorTag::new_from_json(&JsonValue::U64(1), &mut ctx), None);
}

#[test]
fn sensors_count_one_input_each() {
    let sensors = vec![Sensor::new(SensorTag::PositionX, 0), Sensor::new(SensorTag::GSensor, 3)];
    assert_eq!(SensorTag::Orientation.get_cardinality(), 1);
    assert_eq!(Sensor::get_total_cardinality(&sensors), 2);
    assert_eq!(Sensor::get_total_cardinality(&vec![]), 0);
    assert_eq!(sensors[1].index, 3);
}

#[test]
fn instinct_names_read_back() {
    let mut ctx = SerializationCtx::new();
    for i in [Instinct::Basic, Instinct::Herding, Instinct::Hoarding, Instinct::Nomadic, Instinct::Predatory] {
        let j = i.serialize(&mut ctx);
        assert_eq!(Instinct::new_from_json(&j, &mut ctx), Some(i));
    }
    match Instinct::Nomadic.serialize(&mut ctx) {
        JsonValue::String(s) => assert_eq!(s, "nomadic"),
        _ => panic!("an instinct is written out as a string"),
    }
    assert_eq!(Instinct::new_from_json(&jstr("HeRdInG"), &mut ctx), Some(Instinct::Herding));
    assert_eq!(Instinct::new_from_json(&jstr("lazy"), &mut ctx), None);
}

#[test]
fn actuator_tags_parse_by_short_name() {
    let mut ctx = SerializationCtx::new();
    assert_eq!(ActuatorTag::new_from_json(&jstr("HorMov"), &mut ctx), Some(ActuatorTag::MoveHorizontal));
    assert_eq!(ActuatorTag::new_from_json(&jstr("vermov"), &mut ctx), Some(ActuatorTag::MoveVertical));
    assert_eq!(ActuatorTag::new_from_json(&jstr("THERMO"), &mut ctx), Some(ActuatorTag::Thermo));
    assert_eq!(ActuatorTag::new_from_json(&jstr("ph"), &mut ctx), Some(ActuatorTag::Ph));
    // The long name an actuator is written out with is not one it is read back from.
    let written = ActuatorTag::MoveHorizontal.serialize(&mut ctx);
    assert_eq!(ActuatorTag::new_from_json(&written, &mut ctx), None);
    let a = Actuator::new(ActuatorTag::Thermo, 2, (1, -1));
    assert_eq!((a.index, a.coords), (2, (1, -1)));
}

#[test]
fn tiers_from_numbers_and_names() {
    assert_eq!(TraitTier::from_u8(1), TraitTier::TierI);
    assert_eq!(TraitTier::from_u8(2), TraitTier::TierII);
    assert_eq!(TraitTier::from_u8(3), TraitTier::TierIII);
    let mut ctx = SerializationCtx::new();
    assert_eq!(TraitTier::new_from_json(&jstr("TierIV"), &mut ctx), None);
    assert_eq!(TraitTier::new_from_json(&jstr("tieri"), &mut ctx), None);
    let t = Trait::new(TraitTier::TierII, 7, PolyminiTrait::PolyminiSimpleTrait(TraitTag::SpeedTrait));
    assert_eq!(t.trait_number, 7);
    assert_eq!(t.trait_tier, TraitTier::TierII);
}

#[test]
fn simple_traits_and_traits_from_json() {
    let mut ctx = SerializationCtx::new();
    assert_eq!(TraitTag::new_from_json(&jstr("speedtrait"), &mut ctx), Some(TraitTag::SpeedTrait));
    assert_eq!(
        PolyminiTrait::new_from_json(&jstr("hormov"), &mut ctx),
        Some(PolyminiTrait::PolyminiActuator(ActuatorTag::MoveHorizontal))
    );
    assert_eq!(
        PolyminiTrait::new_from_json(&jstr("gsensor"), &mut ctx),
        Some(PolyminiTrait::PolyminiSensor(SensorTag::GSensor))
    );
}

#[test]
fn serialization_flags() {
    assert!(SerializationCtx::new().has_flag(PM_SF_NONE));
    assert!(!SerializationCtx::new().has_flag(PM_SF_STATIC));
    let debug = SerializationCtx::new_from_flags(PM_SF_DEBUG);
    assert!(debug.has_flag(PM_SF_STATIC));
    assert!(debug.has_flag(PM_SF_DYNAMIC));
    let stat = SerializationCtx::new_from_flags(PM_SF_STATIC);
    assert!(!stat.has_flag(PM_SF_DEBUG));
}

#[test]
fn directions_and_deaths() {
    let mut ctx = SerializationCtx::new();
    match Direction::HORIZONTAL.serialize(&mut ctx) {
        JsonValue::String(s) => assert_eq!(s, "HORIZONTAL"),
        _ => panic!("a direction is written out as a string"),
    }
    let d = DeathContext::new(DeathReason::Placement, 12);
    assert_eq!(d.step, 12);
    assert_eq!(d.reason, DeathReason::Placement);
}

#[test]
fn coord_map_keeps_last_insert() {
    let mut m = CoordMap::new();
    m.insert((0, 0), 0);
    m.insert((1, 0), 1);
    m.insert((0, 0), 5);
    assert_eq!(m.get((0, 0)), Some(5));
    assert_eq!(m.get((1, 0)), Some(1));
    assert_eq!(m.get((2, 2)), None);
}

#[test]
fn translation_table_only_keeps_active_keys() {
    let entries: Vec<(TTKey, PolyminiTrait)> = vec![
        ((TraitTier::TierI, 1), PolyminiTrait::PolyminiSimpleTrait(TraitTag::SpeedTrait)),
        ((TraitTier::TierII, 2), PolyminiTrait::PolyminiSensor(SensorTag::GSensor)),
    ];
    let active: Vec<TTKey> = vec![(TraitTier::TierII, 2)];
    let tt = TranslationTable::new_from(&entries, &active);
    assert_eq!(tt.get((TraitTier::TierI, 1)), None);
    assert_eq!(tt.get((TraitTier::TierII, 2)), Some(PolyminiTrait::PolyminiSensor(SensorTag::GSensor)));
    assert_eq!(TranslationTable::new().get((TraitTier::TierII, 2)), None);
}

#[test]
fn empty_bodies() {
    let e = Morphology::empty();
    assert_eq!(e.get_dimensions(), (0, 0));
    assert_eq!(e.get_total_cells(), 0);
    let none: Vec<Chromosome> = vec![];
    let m = Morphology::new(&none, &TranslationTable::new());
    assert_eq!(m.get_dimensions(), (1, 1));
    assert_eq!(m.get_total_cells(), 0);
}

#[test]
fn single_cell_body() {
    let m = Morphology::new(&vec![[0, 0, 0, 0]], &TranslationTable::new());
    assert_eq!(m.get_dimensions(), (1, 1));
    assert_eq!(m.get_total_cells(), 1);
    assert_eq!(m.get_corner(), (0, 0));
}

#[test]
fn body_reads_traits_from_table() {
    let tt = speed_table();
    // Tier I chromosomes: the trait number is the third byte's low bits; the
    // second byte's low bits give the neighbours.
    let cs: Vec<Chromosome> = vec![[0, 0x08, 0x0A, 0x00], [0, 0x00, 0x0B, 0x00]];
    let m = Morphology::new(&cs, &tt);
    let speed = m.get_traits_of_type(PolyminiTrait::PolyminiSimpleTrait(TraitTag::SpeedTrait));
    let sensors = m.get_sensor_list();
    let stats = Stats::new(&m);
    assert_eq!(stats.total_cells, m.get_total_cells());
    assert_eq!(stats.speed, speed.len());
    assert_eq!(stats.max_hp, (m.get_total_cells() / 2) as i32);
    assert_eq!(stats.current_hp, stats.max_hp);
    assert_eq!(stats.max_energy, 0);
    assert!(sensors.len() <= m.get_total_cells());
    assert_eq!(m.get_dimensions(), (2, 1));
    assert_eq!((stats.total_cells, stats.speed, stats.max_hp), (2, 1, 1));
    assert_eq!(sensors.len(), 1);
    assert_eq!(sensors[0].tag, SensorTag::PositionX);
    assert_eq!(sensors[0].index, 1);
}

#[test]
fn crossing_a_body_with_itself_keeps_it() {
    let cs: Vec<Chromosome> = vec![[0, 0x09, 0x6A, 0xAD], [0, 0x0B, 0xBE, 0xDA], [0, 0, 0xBE, 0xEF], [0, 0, 0xDB, 0xAD]];
    let tt = TranslationTable::new();
    let m = Morphology::new(&cs, &tt);
    for cp in 0..4 {
        for allele in 0..4 {
            for bit in 0..8 {
                let child = m.crossover(&m, cp, allele, bit, cp, &tt);
                assert_eq!(child.get_chromosomes(), &cs);
                assert_eq!(child.get_dimensions(), m.get_dimensions());
            }
        }
    }
}

#[test]
fn crossover_joins_the_cut_genomes() {
    let a: Vec<Chromosome> = vec![[1, 1, 1, 1], [2, 2, 2, 2], [3, 3, 3, 3]];
    let b: Vec<Chromosome> = vec![[0xF0, 0xF0, 0xF0, 0xF0], [0x0F, 0x0F, 0x0F, 0x0F], [9, 9, 9, 9]];
    let tt = TranslationTable::new();
    let ma = Morphology::new(&a, &tt);
    let mb = Morphology::new(&b, &tt);
    let child = ma.crossover(&mb, 1, 2, 0, 1, &tt);
    // a's chromosomes before the cut, the joined chromosome, then b's after its cut.
    assert_eq!(child.get_chromosomes(), &vec![[1, 1, 1, 1], [2, 2, 0x0F, 0x0F], [9, 9, 9, 9]]);
}

#[test]
fn mutation_changes_only_named_alleles() {
    let cs: Vec<Chromosome> = vec![[1, 2, 3, 4], [5, 6, 7, 8], [9, 10, 11, 12]];
    let tt = TranslationTable::new();
    let mut m = Morphology::new(&cs, &tt);
    m.mutate(&vec![(1, 2, 0xAA), (1, 0, 0xBB)], &tt);
    assert_eq!(m.get_chromosomes(), &vec![[1, 2, 3, 4], [0xBB, 6, 0xAA, 8], [9, 10, 11, 12]]);
}

#[test]
fn random_bodies_take_bytes_in_order() {
    let bytes: Vec<u8> = (0u8..8).collect();
    let m = Morphology::new_random(&TranslationTable::new(), &bytes, 2);
    assert_eq!(m.get_chromosomes(), &vec![[0, 1, 2, 3], [4, 5, 6, 7]]);
}

#[test]
fn evaluator_ids_read_back() {
    for k in [
        EvaluatorKind::OverallMovement,
        EvaluatorKind::DistanceTravelled,
        EvaluatorKind::TargetPosition,
        EvaluatorKind::PositionsVisited,
        EvaluatorKind::Shape,
        EvaluatorKind::Alive,
    ] {
        assert_eq!(EvaluatorKind::from_id(k.id()), Some(k));
    }
    assert_eq!(EvaluatorKind::from_id("Alive"), None);
    assert_eq!(EvaluatorKind::Shape.scored_instinct(), Instinct::Hoarding);
    assert_eq!(EvaluatorKind::TargetPosition.scored_instinct(), Instinct::Basic);
    assert_eq!(EvaluatorKind::PositionsVisited.scored_instinct(), Instinct::Nomadic);
}

#[test]
fn statistics_summary() {
    let stats = vec![
        FitnessStatistic::Moved,
        FitnessStatistic::PositionVisited((1, 1)),
        FitnessStatistic::DistanceTravelled(4),
        FitnessStatistic::FinalPosition(10, 20),
        FitnessStatistic::Moved,
        FitnessStatistic::PositionVisited((1, 1)),
        FitnessStatistic::PositionVisited((2, 1)),
        FitnessStatistic::TotalCells(6),
        FitnessStatistic::Died(3, 100),
        FitnessStatistic::FinalPosition(30, 40),
        FitnessStatistic::NoOp,
        FitnessStatistic::DistanceTravelled(9),
    ];
    let s = summarize(&stats);
    assert_eq!(s.moves, 2);
    assert_eq!(s.distances, vec![4, 9]);
    assert_eq!(s.cell_counts, vec![6]);
    assert_eq!(s.deaths, vec![(3, 100)]);
    assert_eq!(s.final_position, Some((30, 40)));
    assert_eq!(s.positions_visited, 2);
    // Two columns but a single row.
    assert!(!s.visited_both_axes);
}

#[test]
fn positions_in_two_directions() {
    let stats = vec![
        FitnessStatistic::PositionVisited((1, 1)),
        FitnessStatistic::PositionVisited((2, 2)),
        FitnessStatistic::PositionVisited((1, 1)),
    ];
    assert_eq!(positions_visited(&stats), (2, true));
    assert_eq!(positions_visited(&vec![]), (0, false));
    let s = summarize(&vec![FitnessStatistic::ConsumedFoodSource]);
    assert_eq!(s.moves, 0);
    assert_eq!(s.final_position, None);
}

#[test]
fn layout_moves_the_right_body() {
    assert!(placement_moves_first(BodyKind::Polymini, 7, BodyKind::Polymini, 3));
    assert!(!placement_moves_first(BodyKind::Polymini, 3, BodyKind::Polymini, 7));
    assert!(placement_moves_first(BodyKind::Polymini, 1, BodyKind::StaticObject, 9));
    assert!(!placement_moves_first(BodyKind::StaticObject, 9, BodyKind::Polymini, 1));
    assert!(!placement_moves_first(BodyKind::StaticObject, 9, BodyKind::StaticObject, 1));
    assert_eq!(max_passes(true), 500);
    assert_eq!(max_passes(false), 200);
}

#[test]
fn layout_pushes() {
    assert_eq!(placement_push(0, 0), (0, 0));
    assert_eq!(placement_push(1, 0), (0, -1));
    assert_eq!(placement_push(5, 1), (-2, 0));
    assert_eq!(placement_push(8, 3), (0, 2));
    assert_eq!(placement_push(100, 0), (10, 0));
    assert_eq!(placement_push(usize::MAX, usize::MAX), (-10, 0));
}

#[test]
fn brain_shapes() {
    assert_eq!(crossover_hidden_range(5, 3), (2, 3));
    assert_eq!(crossover_hidden_range(1, 4), (1, 2));
    let p = plan_mutation(3, 4, 2, 3, 2, 1, 2);
    assert_eq!(p.hidden, 5);
    assert!(!p.new_input_layer && !p.new_output_layer && p.reshaped);
    let q = plan_mutation(3, 1, 2, 4, 2, -2, 2);
    assert_eq!(q.hidden, 2);
    assert!(q.new_input_layer && !q.new_output_layer && q.reshaped);
    let r = plan_mutation(3, 4, 2, 3, 2, 0, 1);
    assert_eq!(r.hidden, 4);
    assert!(!r.reshaped);
}

#[test]
fn exposure_costs_hit_points() {
    let mut s = Stats::new(&Morphology::empty());
    assert_eq!(s.current_hp, 0);
    s.take_exposure(false, false);
    assert_eq!(s.current_hp, -2);
    s.take_exposure(true, false);
    assert_eq!(s.current_hp, -3);
    s.take_exposure(true, true);
    assert_eq!(s.current_hp, -3);
}

#[test]
fn epoch_runs_and_restarts() {
    let mut c = EpochClock::new_restartable(2, 1);
    let mut taken = 0;
    let mut restarts = 0;
    let mut substeps = vec![];
    while !c.done() {
        let s = c.step();
        substeps.push(s.substep);
        if s.restarted {
            restarts += 1;
        }
        taken += 1;
    }
    // Two runs of two steps of four substeps.
    assert_eq!(taken, 16);
    assert_eq!(restarts, 1);
    assert_eq!(substeps[..9], [0, 1, 2, 3, 0, 1, 2, 3, 0]);
    assert_eq!(c.steps(), 8);
    let fresh = c.advanced();
    assert_eq!(fresh.steps(), 0);
    assert!(!fresh.done());
    assert_eq!((fresh.max_steps(), fresh.restarts(), fresh.substeps()), (2, 1, 4));
    let d = EpochClock::new();
    assert_eq!((d.max_steps(), d.restarts(), d.substeps()), (100, 0, 4));
}

#[test]
fn species_seed_words() {
    assert_eq!(random_seed(0x0123_4567_89AB_CDEF, 12), [0x0123_4567, 0x89AB_CDEF, 12, 3151]);
    assert_eq!(random_seed(0, 0), [0, 0, 0, 3151]);
}

#[test]
fn crossed_weights_come_from_both_parents() {
    // A 2x2 first parent and a 3-weight second parent, crossed into a 3x2 layer.
    let w = crossover_weight_sources(4, 3, 2, 2, 3, 2);
    assert_eq!(w, vec![WeightSource::First(0), WeightSource::First(1), WeightSource::First(2), WeightSource::First(3), WeightSource::Second(0), WeightSource::Second(1)]);
    // A first parent with fewer weights than its shape: the second parent fills in.
    let w = crossover_weight_sources(1, 2, 2, 2, 2, 2);
    assert_eq!(w, vec![WeightSource::First(0), WeightSource::Second(0), WeightSource::Second(1), WeightSource::Drawn]);
    // A wider new layer: the extra output of each input is not in the old layer.
    let w = crossover_weight_sources(4, 0, 2, 2, 2, 3);
    assert_eq!(w, vec![WeightSource::First(0), WeightSource::First(1), WeightSource::Drawn, WeightSource::First(2), WeightSource::First(3), WeightSource::Drawn]);
    assert_eq!(crossover_weight_sources(4, 4, 2, 2, 5, 0), vec![]);
    assert_eq!(crossover_bias_sources(2, 1, 4), vec![WeightSource::First(0), WeightSource::First(1), WeightSource::Second(0), WeightSource::Drawn]);
}

#[test]
fn resized_weights_keep_old_ones() {
    let w = resized_weight_sources(2, 2, 3, 1);
    assert_eq!(w, vec![WeightSource::First(0), WeightSource::First(1), WeightSource::Drawn]);
    let w = resized_weight_sources(1, 2, 2, 3);
    assert_eq!(w, vec![WeightSource::First(0), WeightSource::First(1), WeightSource::Drawn, WeightSource::Drawn, WeightSource::Drawn, WeightSource::Drawn]);
    assert_eq!(resized_bias_sources(2, 4), vec![WeightSource::First(0), WeightSource::First(1), WeightSource::Drawn, WeightSource::Drawn]);
    assert_eq!(resized_bias_sources(3, 1), vec![WeightSource::First(0), WeightSource::First(1), WeightSource::First(2)]);
    assert!(hidden_needs_redraw(1, -1));
    assert!(!hidden_needs_redraw(2, -1));
}

#[test]
fn readable_json() {
    let chromosome = |b: u64| JsonValue::Array((0..4).map(|_| JsonValue::U64(b)).collect());
    let good = JsonValue::Object(vec![("Chromosome".to_string(), JsonValue::Array(vec![chromosome(1), chromosome(2)]))]);
    assert!(morphology_json_readable(&good));
    let m = Morphology::new_from_json(&good, &TranslationTable::new()).unwrap();
    assert_eq!(m.get_chromosomes(), &vec![[1, 1, 1, 1], [2, 2, 2, 2]]);
    let short = JsonValue::Object(vec![(
        "Chromosome".to_string(),
        JsonValue::Array(vec![JsonValue::Array((0..3).map(|_| JsonValue::U64(1)).collect())]),
    )]);
    assert!(!morphology_json_readable(&short));
    assert!(!morphology_json_readable(&JsonValue::Object(vec![])));
    assert!(morphology_json_readable(&JsonValue::Null));
    assert_eq!(Morphology::new_from_json(&JsonValue::Null, &TranslationTable::new()).is_none(), true);

    let key = |t: u64, n: u64| {
        JsonValue::Object(vec![("Tier".to_string(), JsonValue::U64(t)), ("Number".to_string(), JsonValue::U64(n))])
    };
    assert!(translation_table_json_readable(&JsonValue::Array(vec![key(1, 5), key(3, 0)])));
    assert!(!translation_table_json_readable(&JsonValue::Array(vec![key(4, 5)])));
    assert!(translation_table_json_readable(&JsonValue::Null));
    let entries: Vec<(TTKey, PolyminiTrait)> =
        vec![((TraitTier::TierI, 5), PolyminiTrait::PolyminiSimpleTrait(TraitTag::SpeedTrait))];
    let tt = TranslationTable::new_from_json(&JsonValue::Array(vec![key(1, 5)]), &entries).unwrap();
    assert_eq!(tt.get((TraitTier::TierI, 5)), Some(PolyminiTrait::PolyminiSimpleTrait(TraitTag::SpeedTrait)));
}
