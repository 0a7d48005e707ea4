use polyminis_core::json::JsonValue;
use polyminis_core::morphology::{AdjacencyInfo, Chromosome, Morphology, TranslationTable};
use polyminis_core::serialization::{Serializable, SerializationCtx};
use polyminis_core::types::Direction;

use rustc_serialize::json::Json;
use std::collections::BTreeMap;

fn to_json(v: &JsonValue) -> Json {
    match v {
        JsonValue::I64(n) => Json::I64(*n),
        JsonValue::U64(n) => Json::U64(*n),
        JsonValue::F64Bits(b) => Json::F64(f64::from_bits(*b)),
        JsonValue::String(s) => Json::String(s.clone()),
        JsonValue::Boolean(b) => Json::Boolean(*b),
        JsonValue::Array(a) => Json::Array(a.iter().map(to_json).collect()),
        JsonValue::Object(o) => {
            let mut m = BTreeMap::new();
            for (k, e) in o {
                m.insert(k.clone(), to_json(e));
            }
            Json::Object(m)
        }
        JsonValue::Null => Json::Null,
    }
}

/// A small deterministic byte source standing for the random context.
struct Bytes(u64);
impl Bytes {
    fn next(&mut self) -> u8 {
        self.0 = self.0.wrapping_mul(6364136223846793005).wrapping_add(1442695040888963407);
        (self.0 >> 33) as u8
    }
}

fn every_crossover(morph: &Morphology, morph_2: &Morphology) {
    let a = morph.get_chromosomes().len();
    let b = morph_2.get_chromosomes().len();
    for cp1 in 0..a {
        for allele in 0..4 {
            for bit in 0..8 {
                for cp2 in 0..b {
                    let child = morph.crossover(morph_2, cp1, allele, bit, cp2, &TranslationTable::new());
                    assert_eq!(child.get_chromosomes().len(), cp1 + 1 + (b - cp2 - 1));
                }
            }
        }
    }
}

#[test]
fn test_adjacency_vertical() {
    let adj_info = AdjacencyInfo::new(vec![Direction::UP, Direction::DOWN]);
    let neighbours = adj_info.get_neighbours((0, 1));
    assert_eq!(neighbours.len(), 2);
    assert_eq!((neighbours[0].0, neighbours[0].1), (0, 0));
    assert_eq!((neighbours[1].0, neighbours[1].1), (0, 2));
}

#[test]
fn test_adjacency_vertical_2() {
    let adj_info = AdjacencyInfo::new(vec![Direction::UP, Direction::DOWN]);
    let neighbours = adj_info.get_neighbours((0, 0));
    assert_eq!(neighbours.len(), 1);
    assert_eq!((neighbours[0].0, neighbours[0].1), (0, 1));
}

#[test]
fn test_chromosomes_to_morphology() {
    // UP & RIGHT, up will be ignored
    let v1: u8 = 0x09;
    // UP, RIGHT & DOWN, up will be ignored
    let v2: u8 = 0x0B;
    // Expected shape:
    // XXX
    // .X.
    let chromosomes: Vec<Chromosome> = vec![[0, v1, 0x6A, 0xAD], [0, v2, 0xBE, 0xDA], [0, 0, 0xBE, 0xEF], [0, 0, 0xDB, 0xAD]];

    let morph = Morphology::new(&chromosomes, &TranslationTable::new());

    assert_eq!((3, 2), (morph.get_dimensions().0, morph.get_dimensions().1));
    assert_eq!(morph.get_chromosomes()[0][1], v1);
    assert_eq!(morph.get_chromosomes()[1][1], v2);
}

#[test]
fn test_chromosomes_to_morphology_2() {
    // LEFT & RIGHT
    let v1: u8 = 0x0C;
    let chromosomes: Vec<Chromosome> = vec![[0, v1, 0x6A, 0xAD], [0, 0, 0xBE, 0xDA], [0, 0, 0xBE, 0xEF], [0, 0, 0xDB, 0xAD]];

    let morph = Morphology::new(&chromosomes, &TranslationTable::new());
    assert_eq!((3, 1), (morph.get_dimensions().0, morph.get_dimensions().1));
    assert_eq!(morph.get_chromosomes()[0][1], v1);
}

#[test]
fn test_morphology_crossover() {
    let c1: Vec<Chromosome> = vec![[0, 0x0C, 0x6A, 0xAD], [0, 0, 0xBE, 0xDA], [0, 0, 0xBE, 0xEF], [0, 0, 0xDB, 0xAD]];
    let c2: Vec<Chromosome> = vec![[0, 0x0C, 0x6A, 0xAD], [0, 0, 0xBE, 0xDA], [0, 0, 0xBE, 0xEF], [0, 0, 0xDB, 0xAD]];

    let morph = Morphology::new(&c1, &TranslationTable::new());
    let morph_2 = Morphology::new(&c2, &TranslationTable::new());

    // Every cut the random context could draw.
    every_crossover(&morph, &morph_2);
}

#[test]
fn test_morphology_crossover_2() {
    let c1: Vec<Chromosome> = vec![[0, 0x09, 0x6A, 0xAD], [0, 0x0B, 0xFF, 0xFF], [0, 0, 0xFF, 0xFF], [0, 0, 0xFF, 0xFF]];
    let c2: Vec<Chromosome> = vec![[0, 0x0C, 0x00, 0x00], [0, 0, 0x00, 0x00], [0, 0, 0x00, 0x00], [0, 0, 0x00, 0x00]];

    let morph = Morphology::new(&c1, &TranslationTable::new());
    let morph_2 = Morphology::new(&c2, &TranslationTable::new());

    every_crossover(&morph, &morph_2);
}

#[test]
fn test_morphology_mutate() {
    let c1: Vec<Chromosome> = vec![[0, 0x09, 0x6A, 0xAD], [0, 0x0B, 0xFF, 0xFF], [0, 0, 0xFF, 0xFF], [0, 0, 0xFF, 0xFF]];

    let mut morph = Morphology::new(&c1, &TranslationTable::new());
    // Between one and seven point mutations, as the random context draws them.
    let mut bytes = Bytes(5789);
    for _ in 0..20 {
        let count = 1 + (bytes.next() % 7) as usize;
        let mutations: Vec<(usize, usize, u8)> =
            (0..count).map(|_| ((bytes.next() % 4) as usize, (bytes.next() % 4) as usize, bytes.next())).collect();
        morph.mutate(&mutations, &TranslationTable::new());
        assert_eq!(morph.get_chromosomes().len(), 4);
    }
}

#[test]
fn test_morphology_serialization() {
    let mut bytes = Bytes(42);
    let random: Vec<u8> = (0..32).map(|_| bytes.next()).collect();
    let morph = Morphology::new_random(&TranslationTable::new(), &random, 8);
    let json_1 = morph.serialize(&mut SerializationCtx::new());
    let morph_2 = Morphology::new_from_json(&json_1, &TranslationTable::new()).unwrap();
    let json_2 = morph_2.serialize(&mut SerializationCtx::new());

    assert_eq!(to_json(&json_1).to_string(), to_json(&json_2).to_string());
}
