use vstd::prelude::*;

use crate::actuators::{Actuator, ActuatorTag};
use crate::assoc::{
    assoc_find, assoc_insert, assoc_last, assoc_lookup, lemma_assoc_find, lemma_assoc_find_at,
    lemma_assoc_lookup_insert,
};
use crate::coord_map::{index_entries, lemma_rotate_four_times, rotate_entries, CoordMap};
use crate::json::{
    entry_models, json_array, json_entry, json_object, jv_as_u64, jv_get, lemma_entry_models_push,
    lemma_models_push, models, Jv, JsonValue,
};
use crate::placement::{
    all_cardinal, all_within, bbox, lemma_bbox_bounds, lemma_bbox_contains, lemma_place_all,
    lemma_place_all_stopped,
    neighbours, place_all, place_step, push_unvisited, shape_ok, spans_ok, state_within, within,
    PlaceState,
};
use crate::sensors::{total_cardinality, Sensor, SensorTag};
use crate::serialization::{Deserializable, Serializable, SerializationCtx};
use crate::traits::{
    tier_name, tier_of, trait_jv, PolyminiTrait, Trait, TraitTag, TraitTier,
    TIER_ONE_TO_TWO_CHAIN, TIER_TWO_TO_THREE_CHAIN,
};
use crate::types::{Coord, Direction};

verus! {

/// A gene: a control byte, the adjacency byte, and two bytes that select a trait.
pub type Chromosome = [u8; 4];

/// A key of the translation table: a trait tier and a trait number.
pub type TTKey = (TraitTier, u8);

/// The JSON a translation table key is written out as.
pub open spec fn ttkey_jv(k: TTKey) -> Jv {
    Jv::Obj(seq![("Tier"@, Jv::Str(tier_name(k.0))), ("Number"@, Jv::U64(k.1 as u64))])
}

/// The key a JSON object holding a numeric "Tier" and a "Number" stands for.
pub open spec fn ttkey_from_jv(j: Jv) -> TTKey {
    (tier_of(jv_as_u64(jv_get(j, "Tier"@)->0)->0 as u8), jv_as_u64(jv_get(j, "Number"@)->0)->0 as u8)
}

/// A JSON object that a key can be read from: "Tier" is a number whose low byte is
/// 1, 2 or 3, and "Number" is a number.
pub open spec fn ttkey_json_ok(j: Jv) -> bool {
    &&& j is Obj
    &&& jv_get(j, "Tier"@) matches Some(t) && jv_as_u64(t) matches Some(v) && 1 <= (v as u8) <= 3
    &&& jv_get(j, "Number"@) matches Some(n) && jv_as_u64(n) is Some
}

impl Serializable for TTKey {
    fn serialize(&self, ctx: &mut SerializationCtx) -> (r: JsonValue)
        ensures
            r@ == ttkey_jv(*self),
            *final(ctx) == *old(ctx),
    {
        let (t, n) = *self;
        let mut entries: Vec<(String, JsonValue)> = Vec::new();
        entries.push(json_entry("Tier", t.serialize(ctx)));
        entries.push(json_entry("Number", JsonValue::U64(n as u64)));
        let r = json_object(entries);
        assert(r@->Obj_0 =~= ttkey_jv(*self)->Obj_0);
        r
    }
}

impl Deserializable for TTKey {
    /// Reading stops the program on an object without a numeric "Tier" whose low byte
    /// is 1, 2 or 3, or without a numeric "Number".
    open spec fn accepts_json(json: Jv) -> bool {
        json is Obj ==> ttkey_json_ok(json)
    }

    fn new_from_json(json: &JsonValue, ctx: &mut SerializationCtx) -> (r: Option<TTKey>)
        ensures
            json@ is Obj ==> r == Some(ttkey_from_jv(json@)),
            !(json@ is Obj) ==> r is None,
            *final(ctx) == *old(ctx),
    {
        if !json.is_object() {
            return None;
        }
        let tier = match json.get("Tier") {
            Some(t) => match t.as_u64() {
                Some(v) => v as u8,
                None => {
                    assert(false);
                    1
                },
            },
            None => {
                assert(false);
                1
            },
        };
        let num = match json.get("Number") {
            Some(t) => match t.as_u64() {
                Some(v) => v as u8,
                None => {
                    assert(false);
                    0
                },
            },
            None => {
                assert(false);
                0
            },
        };
        Some((TraitTier::from_u8(tier), num))
    }
}

/// The table with the entries of `src` whose keys are active, each key once with the
/// value of its last entry in `src`.
pub open spec fn tt_filtered(src: Seq<(TTKey, PolyminiTrait)>, active: Seq<TTKey>) -> Seq<
    (TTKey, PolyminiTrait),
>
    decreases src.len(),
{
    if src.len() == 0 {
        Seq::empty()
    } else {
        let rest = tt_filtered(src.drop_last(), active);
        let e = src.last();
        if active.contains(e.0) {
            assoc_insert(rest, e.0, e.1)
        } else {
            rest
        }
    }
}

/// The translation table that a JSON array of keys selects from `src`, when `j` is an array.
pub open spec fn tt_from_jv(j: Jv, src: Seq<(TTKey, PolyminiTrait)>) -> Option<
    Seq<(TTKey, PolyminiTrait)>,
> {
    match j {
        Jv::Arr(es) => Some(tt_filtered(src, es.map_values(|e: Jv| ttkey_from_jv(e)))),
        _ => None,
    }
}

/// Maps a trait tier and number to the trait they stand for in a species.
pub struct TranslationTable {
    trait_table: Vec<(TTKey, PolyminiTrait)>,
}

impl View for TranslationTable {
    type V = Seq<(TTKey, PolyminiTrait)>;

    closed spec fn view(&self) -> Seq<(TTKey, PolyminiTrait)> {
        self.trait_table@
    }
}

pub fn ttkey_eq(a: TTKey, b: TTKey) -> (r: bool)
    ensures
        r == (a == b),
{
    a.0 == b.0 && a.1 == b.1
}

fn keys_contain(keys: &Vec<TTKey>, k: TTKey) -> (r: bool)
    ensures
        r == keys@.contains(k),
{
    let mut i: usize = 0;
    while i < keys.len()
        invariant
            i <= keys@.len(),
            forall|j: int| 0 <= j < i ==> keys@[j] != k,
        decreases keys.len() - i,
    {
        if ttkey_eq(keys[i], k) {
            assert(keys@[i as int] == k);
            return true;
        }
        i = i + 1;
    }
    false
}

fn table_find(e: &Vec<(TTKey, PolyminiTrait)>, k: TTKey) -> (r: Option<usize>)
    ensures
        match r {
            Some(i) => assoc_find(e@, k) == i && i < e@.len(),
            None => assoc_find(e@, k) == -1,
        },
{
    let mut i: usize = 0;
    while i < e.len()
        invariant
            i <= e@.len(),
            forall|j: int| 0 <= j < i ==> e@[j].0 != k,
        decreases e.len() - i,
    {
        if ttkey_eq(e[i].0, k) {
            proof {
                lemma_assoc_find_at(e@, k, i as int);
            }
            return Some(i);
        }
        i = i + 1;
    }
    proof {
        lemma_assoc_find(e@, k);
    }
    None
}

impl TranslationTable {
    pub fn new() -> (r: TranslationTable)
        ensures
            r@ == Seq::<(TTKey, PolyminiTrait)>::empty(),
    {
        TranslationTable { trait_table: Vec::new() }
    }

    /// The table with the entries of `trait_table` whose keys are in `active`.
    pub fn new_from(trait_table: &Vec<(TTKey, PolyminiTrait)>, active: &Vec<TTKey>) -> (r:
        TranslationTable)
        ensures
            r@ == tt_filtered(trait_table@, active@),
    {
        let mut filtered: Vec<(TTKey, PolyminiTrait)> = Vec::new();
        let mut i: usize = 0;
        while i < trait_table.len()
            invariant
                i <= trait_table@.len(),
                filtered@ == tt_filtered(trait_table@.take(i as int), active@),
            decreases trait_table.len() - i,
        {
            assert(trait_table@.take(i + 1).drop_last() =~= trait_table@.take(i as int));
            let (k, v) = trait_table[i];
            if keys_contain(active, k) {
                match table_find(&filtered, k) {
                    Some(j) => {
                        filtered.set(j, (k, v));
                    },
                    None => {
                        filtered.push((k, v));
                    },
                }
            }
            i = i + 1;
        }
        assert(trait_table@.take(trait_table@.len() as int) =~= trait_table@);
        TranslationTable { trait_table: filtered }
    }

    /// Reads the active keys from a JSON array and keeps their entries of `trait_table`;
    /// `None` when `json` is no array.
    pub fn new_from_json(json: &JsonValue, trait_table: &Vec<(TTKey, PolyminiTrait)>) -> (r:
        Option<TranslationTable>)
        requires
            json@ matches Jv::Arr(es) ==> forall|i: int|
                0 <= i < es.len() ==> ttkey_json_ok(#[trigger] es[i]),
        ensures
            match tt_from_jv(json@, trait_table@) {
                Some(t) => r matches Some(tt) && tt@ == t,
                None => r is None,
            },
    {
        match json.as_array() {
            Some(arr) => {
                let ghost es = models(arr@);
                let mut active: Vec<TTKey> = Vec::new();
                let mut i: usize = 0;
                while i < arr.len()
                    invariant
                        i <= arr@.len(),
                        es == models(arr@),
                        json@ == Jv::Arr(es),
                        forall|j: int| 0 <= j < es.len() ==> ttkey_json_ok(#[trigger] es[j]),
                        active@ == es.take(i as int).map_values(|e: Jv| ttkey_from_jv(e)),
                    decreases arr.len() - i,
                {
                    assert(es[i as int] == arr@[i as int]@);
                    let k = match TTKey::new_from_json(&arr[i], &mut SerializationCtx::new()) {
                        Some(k) => k,
                        None => {
                            assert(false);
                            (TraitTier::TierI, 0)
                        },
                    };
                    active.push(k);
                    assert(active@ =~= es.take(i + 1).map_values(|e: Jv| ttkey_from_jv(e)));
                    i = i + 1;
                }
                assert(es.take(es.len() as int) =~= es);
                Some(TranslationTable::new_from(trait_table, &active))
            },
            None => None,
        }
    }

    /// The trait selected by a key, when the table holds it.
    pub fn get(&self, k: TTKey) -> (r: Option<PolyminiTrait>)
        ensures
            r == assoc_lookup(self@, k),
    {
        match table_find(&self.trait_table, k) {
            Some(i) => Some(self.trait_table[i].1),
            None => None,
        }
    }

    /// The cell a chromosome grows.
    pub fn create_for_chromosome(&self, chromosome: Chromosome) -> (r: Cell)
        ensures
            r@ == cell_of(self@, chromosome),
    {
        let ap = chromosome[1];
        let c2 = chromosome[2];
        let c3 = chromosome[3];
        let gp1: u16 = (c2 as u16) << 8u16;
        assert(gp1 <= 0xFF00u16) by (bit_vector)
            requires
                gp1 == (c2 as u16) << 8u16,
        ;
        let gp: u16 = gp1 + c3 as u16;
        assert(((gp & 0xFF00u16) >> 8u16) as u8 == c2 && ((gp & 0x00F0u16) >> 4u16) as u8 == c3
            >> 4u8 && (gp & 0x000Fu16) as u8 == c3 & 0x0Fu8) by (bit_vector)
            requires
                gp1 == (c2 as u16) << 8u16,
                gp == gp1 + (c3 as u16),
        ;

        let mut adj_dirs: Vec<Direction> = Vec::new();
        if ap & 1u8 != 0 {
            adj_dirs.push(Direction::UP);
        }
        if ap & 2u8 != 0 {
            adj_dirs.push(Direction::DOWN);
        }
        if ap & 4u8 != 0 {
            adj_dirs.push(Direction::LEFT);
        }
        if ap & 8u8 != 0 {
            adj_dirs.push(Direction::RIGHT);
        }
        assert(adj_dirs@ =~= adjacency_dirs(ap));

        let mut tier: u8 = 1;
        let mut trait_num: u8 = ((gp & 0xFF00u16) >> 8u16) as u8;
        if trait_num == TIER_ONE_TO_TWO_CHAIN {
            tier = tier + 1;
            trait_num = ((gp & 0x00F0u16) >> 4u16) as u8;
            if trait_num == TIER_TWO_TO_THREE_CHAIN {
                tier = tier + 1;
                trait_num = (gp & 0x000Fu16) as u8;
            }
        }
        let trait_tier = TraitTier::from_u8(tier);
        let polymini_trait = match self.get((trait_tier, trait_num)) {
            Some(t) => t,
            None => PolyminiTrait::PolyminiSimpleTrait(TraitTag::Empty),
        };
        Cell::new(AdjacencyInfo::new(adj_dirs), Trait::new(trait_tier, trait_num, polymini_trait))
    }
}

impl Serializable for TranslationTable {
    fn serialize(&self, ctx: &mut SerializationCtx) -> (r: JsonValue)
        ensures
            r@ == Jv::Arr(self@.map_values(|e: (TTKey, PolyminiTrait)| ttkey_jv(e.0))),
            *final(ctx) == *old(ctx),
    {
        let mut arr: Vec<JsonValue> = Vec::new();
        let mut i: usize = 0;
        while i < self.trait_table.len()
            invariant
                i <= self.trait_table@.len(),
                *ctx == *old(ctx),
                models(arr@) =~= self.trait_table@.take(i as int).map_values(
                    |e: (TTKey, PolyminiTrait)| ttkey_jv(e.0),
                ),
            decreases self.trait_table.len() - i,
        {
            let j = self.trait_table[i].0.serialize(ctx);
            proof {
                lemma_models_push(arr@, j);
            }
            arr.push(j);
            i = i + 1;
        }
        assert(self.trait_table@.take(i as int) =~= self.trait_table@);
        json_array(arr)
    }
}

/// The directions whose bits are set in the adjacency byte: bit 0 up, bit 1 down,
/// bit 2 left, bit 3 right, in that order.
pub open spec fn adjacency_dirs(ap: u8) -> Seq<Direction> {
    (if ap & 1u8 != 0 { seq![Direction::UP] } else { Seq::empty() })
    + (if ap & 2u8 != 0 { seq![Direction::DOWN] } else { Seq::empty() })
    + (if ap & 4u8 != 0 { seq![Direction::LEFT] } else { Seq::empty() })
    + (if ap & 8u8 != 0 { seq![Direction::RIGHT] } else { Seq::empty() })
}

/// The tier and number a chromosome selects: its third byte in tier I; where that
/// byte chains on, the high half of the fourth byte in tier II; where that half
/// chains on too, the low half of the fourth byte in tier III.
pub open spec fn trait_key(c: Chromosome) -> TTKey {
    if c[2] != TIER_ONE_TO_TWO_CHAIN {
        (TraitTier::TierI, c[2])
    } else if c[3] >> 4u8 != TIER_TWO_TO_THREE_CHAIN {
        (TraitTier::TierII, c[3] >> 4u8)
    } else {
        (TraitTier::TierIII, c[3] & 0x0Fu8)
    }
}

/// What the table maps a key to, and the empty trait for a key it does not hold.
pub open spec fn translate(tt: Seq<(TTKey, PolyminiTrait)>, k: TTKey) -> PolyminiTrait {
    match assoc_lookup(tt, k) {
        Some(t) => t,
        None => PolyminiTrait::PolyminiSimpleTrait(TraitTag::Empty),
    }
}

/// What a cell is: the directions of its neighbours and its trait.
pub struct CellView {
    pub adj: Seq<Direction>,
    pub pm_trait: Trait,
}

/// The cell a chromosome grows under a translation table.
pub open spec fn cell_of(tt: Seq<(TTKey, PolyminiTrait)>, c: Chromosome) -> CellView {
    CellView {
        adj: adjacency_dirs(c[1]),
        pm_trait: Trait {
            trait_tier: trait_key(c).0,
            trait_number: trait_key(c).1,
            pm_trait: translate(tt, trait_key(c)),
        },
    }
}

/// The directions in which a cell has neighbours.
pub struct AdjacencyInfo {
    pub adj: Vec<Direction>,
}

/// Which trait a chromosome's cell carries: a third byte other than 0xFF is a
/// tier I trait of that number; after 0xFF, the high half of the fourth byte is a
/// tier II trait of that number, unless it is 0xF, in which case the low half of
/// the fourth byte is a tier III trait of that number. The trait is what the table
/// maps that tier and number to.
pub proof fn lemma_cell_trait(tt: Seq<(TTKey, PolyminiTrait)>, c: Chromosome)
    ensures
        c[2] != 255 ==> cell_of(tt, c).pm_trait.trait_tier == TraitTier::TierI
            && cell_of(tt, c).pm_trait.trait_number == c[2],
        c[2] == 255 && c[3] / 16 != 15 ==> cell_of(tt, c).pm_trait.trait_tier == TraitTier::TierII
            && cell_of(tt, c).pm_trait.trait_number == c[3] / 16,
        c[2] == 255 && c[3] / 16 == 15 ==> cell_of(tt, c).pm_trait.trait_tier == TraitTier::TierIII
            && cell_of(tt, c).pm_trait.trait_number == c[3] % 16,
        cell_of(tt, c).pm_trait.pm_trait == translate(
            tt,
            (cell_of(tt, c).pm_trait.trait_tier, cell_of(tt, c).pm_trait.trait_number),
        ),
{
    let b = c[3];
    assert(b >> 4u8 == b / 16 && b & 0x0Fu8 == b % 16) by (bit_vector);
}

/// The neighbours in the listed directions of `coord` stay on the grid.
pub open spec fn neighbours_fit(adj: Seq<Direction>, coord: Coord) -> bool {
    &&& adj.contains(Direction::DOWN) ==> coord.1 < 127
    &&& adj.contains(Direction::LEFT) ==> coord.0 > -128
    &&& adj.contains(Direction::RIGHT) ==> coord.0 < 127
}

impl AdjacencyInfo {
    pub fn new(adjacency_info: Vec<Direction>) -> (r: AdjacencyInfo)
        ensures
            r.adj@ == adjacency_info@,
    {
        AdjacencyInfo { adj: adjacency_info }
    }

    /// The neighbours of `coord`, in the order of the directions.
    pub fn get_neighbours(&self, coord: Coord) -> (r: Vec<Coord>)
        requires
            all_cardinal(self.adj@),
            neighbours_fit(self.adj@, coord),
        ensures
            r@ == neighbours(self.adj@, coord),
    {
        let mut to_ret: Vec<Coord> = Vec::new();
        let mut i: usize = 0;
        while i < self.adj.len()
            invariant
                i <= self.adj@.len(),
                all_cardinal(self.adj@),
                neighbours_fit(self.adj@, coord),
                to_ret@ == neighbours(self.adj@.take(i as int), coord),
            decreases self.adj.len() - i,
        {
            assert(self.adj@.take(i + 1).drop_last() =~= self.adj@.take(i as int));
            assert(self.adj@.take(i + 1).last() == self.adj@[i as int]);
            assert(self.adj@[i as int].is_cardinal());
            match self.adj[i] {
                Direction::UP => {
                    if coord.1 > 0 {
                        to_ret.push((coord.0, coord.1 - 1));
                    }
                },
                Direction::DOWN => {
                    assert(self.adj@.contains(Direction::DOWN));
                    to_ret.push((coord.0, coord.1 + 1));
                },
                Direction::LEFT => {
                    assert(self.adj@.contains(Direction::LEFT));
                    to_ret.push((coord.0 - 1, coord.1));
                },
                Direction::RIGHT => {
                    assert(self.adj@.contains(Direction::RIGHT));
                    to_ret.push((coord.0 + 1, coord.1));
                },
                _ => {},
            }
            i = i + 1;
        }
        assert(self.adj@.take(i as int) =~= self.adj@);
        to_ret
    }
}

/// A cell of the body grid (not a biological cell): where its neighbours are, and its trait.
pub struct Cell {
    pub adjacency_info: AdjacencyInfo,
    pub pm_trait: Trait,
}

impl View for Cell {
    type V = CellView;

    open spec fn view(&self) -> CellView {
        CellView { adj: self.adjacency_info.adj@, pm_trait: self.pm_trait }
    }
}

impl Cell {
    pub fn new(adjacency_info: AdjacencyInfo, pm_trait: Trait) -> (r: Cell)
        ensures
            r@ == (CellView { adj: adjacency_info.adj@, pm_trait }),
    {
        Cell { adjacency_info: adjacency_info, pm_trait: pm_trait }
    }
}

impl Serializable for Cell {
    /// A cell is written out as its trait.
    fn serialize(&self, ctx: &mut SerializationCtx) -> (r: JsonValue)
        ensures
            r@ == trait_jv(self.pm_trait),
            *final(ctx) == *old(ctx),
    {
        self.pm_trait.serialize(ctx)
    }
}


/// What a body representation is: its cells, the cell index at each coordinate for
/// the four quarter turns of the body, its width and height, and the top-left
/// corner of each turn.
pub struct RepresentationView {
    pub cells: Seq<CellView>,
    pub positions: Seq<Seq<(Coord, usize)>>,
    pub dimensions: (u8, u8),
    pub corners: Seq<Coord>,
}

/// A width or height read as an `i8`, as the cast `as i8` does.
pub open spec fn wrap_i8(v: u8) -> int {
    if v < 128 {
        v as int
    } else {
        v - 256
    }
}

/// The top-left corners of the four quarter turns of a body of the given size whose
/// unturned top-left corner is `corner`.
pub open spec fn corners_of(dims: (u8, u8), corner: Coord) -> Seq<Coord> {
    let minx = corner.0;
    let miny = corner.1;
    let maxx = wrap_i8(dims.0) + minx - 1;
    let maxy = wrap_i8(dims.1) + miny - 1;
    seq![(minx, miny), (miny, (-maxx) as i8), ((-maxx) as i8, (-maxy) as i8), ((-maxy) as i8, minx)]
}

/// The representation of cells placed at the coordinates `ps`, in order.
pub open spec fn rep_view(ps: Seq<Coord>, cells: Seq<CellView>, dims: (u8, u8), corner: Coord) -> RepresentationView {
    let e0 = index_entries(ps);
    let e1 = rotate_entries(e0);
    let e2 = rotate_entries(e1);
    let e3 = rotate_entries(e2);
    RepresentationView {
        cells: cells,
        positions: seq![e0, e1, e2, e3],
        dimensions: dims,
        corners: corners_of(dims, corner),
    }
}

/// The cells that chromosomes grow under a translation table.
pub open spec fn cells_of(tt: Seq<(TTKey, PolyminiTrait)>, cs: Seq<Chromosome>) -> Seq<CellView> {
    cs.map_values(|c: Chromosome| cell_of(tt, c))
}

pub open spec fn adjs_of(cells: Seq<CellView>) -> Seq<Seq<Direction>> {
    cells.map_values(|c: CellView| c.adj)
}

/// How many cells a body keeps: no more than there are chromosomes, nor than the
/// placement found room for.
pub open spec fn kept_len(n: int, st: PlaceState) -> int {
    if n < st.positions.len() {
        n
    } else {
        st.positions.len() as int
    }
}

/// The body chromosomes grow: the cells are placed depth first from the head at
/// (0, 0); each cell in turn offers its neighbours, the free ones are placed, and the
/// next cell goes to the last placed coordinate not visited yet. The body keeps as
/// many cells as both lists hold, and is sized by their bounding box.
pub open spec fn representation_of(tt: Seq<(TTKey, PolyminiTrait)>, cs: Seq<Chromosome>) -> RepresentationView {
    let cells = cells_of(tt, cs);
    let st = place_all(adjs_of(cells));
    let l = kept_len(cs.len() as int, st);
    let kept = st.positions.take(l);
    let b = bbox(kept);
    rep_view(kept, cells.take(l), ((b.1 - b.0 + 1) as u8, (b.3 - b.2 + 1) as u8), (b.0 as i8, b.2 as i8))
}

/// How a body is laid out on the grid.
pub struct Representation {
    cells: Vec<Cell>,
    positions: [CoordMap; 4],
    dimensions: (u8, u8),
    corners: [Coord; 4],
}

/// Every coordinate of the unturned layout holds the index of a cell.
pub open spec fn indices_in_range(e: Seq<(Coord, usize)>, n: int) -> bool {
    forall|i: int| 0 <= i < e.len() ==> (#[trigger] e[i]).1 < n
}

impl Representation {
    #[verifier::type_invariant]
    spec fn inv(self) -> bool {
        indices_in_range(self.positions@[0].entries@, self.cells@.len() as int)
    }
}

impl View for Representation {
    type V = RepresentationView;

    closed spec fn view(&self) -> RepresentationView {
        RepresentationView {
            cells: self.cells@.map_values(|c: Cell| c@),
            positions: self.positions@.map_values(|m: CoordMap| m.entries@),
            dimensions: self.dimensions,
            corners: self.corners@,
        }
    }
}

/// The keys of the entries are coordinates of `ps`, and the values indices into `ps`.
proof fn lemma_index_entries_keys(ps: Seq<Coord>)
    ensures
        index_entries(ps).len() <= ps.len(),
        indices_in_range(index_entries(ps), ps.len() as int),
        forall|i: int| 0 <= i < index_entries(ps).len() ==> ps.contains(#[trigger] index_entries(ps)[i].0),
    decreases ps.len(),
{
    if ps.len() > 0 {
        let pre = ps.drop_last();
        lemma_index_entries_keys(pre);
        let e = index_entries(pre);
        lemma_assoc_find(e, ps.last());
        assert forall|i: int| 0 <= i < index_entries(ps).len() implies ps.contains(#[trigger] index_entries(ps)[i].0) by {
            if i < e.len() && index_entries(ps)[i] == e[i] {
                assert(pre.contains(e[i].0));
                let j = choose|j: int| 0 <= j < pre.len() && pre[j] == e[i].0;
                assert(ps[j] == pre[j]);
            } else {
                assert(ps[ps.len() - 1] == ps.last());
            }
        }
    }
}

impl Representation {
    /// Lays out `cells` at the coordinates `positions` (the cell at `positions[i]` is
    /// `cells[i]`; a coordinate listed twice holds its later cell), with the body size
    /// and top-left corner given.
    pub fn new(positions: Vec<Coord>, cells: Vec<Cell>, dimensions: (u8, u8), corner: (i8, i8)) -> (r: Representation)
        requires
            positions@.len() <= cells@.len(),
            corner.1 == 0,
            forall|i: int| 0 <= i < positions@.len() ==> (#[trigger] positions@[i]).0 > -128 && positions@[i].1 > -128,
            wrap_i8(dimensions.0) + corner.0 <= 127,
            wrap_i8(dimensions.0) + corner.0 - 1 >= -127,
            wrap_i8(dimensions.1) + corner.1 <= 127,
            wrap_i8(dimensions.1) + corner.1 - 1 >= -127,
        ensures
            r@ == rep_view(positions@, cells@.map_values(|c: Cell| c@), dimensions, corner),
    {
        let mut p0 = CoordMap::new();
        let mut i: usize = 0;
        while i < positions.len()
            invariant
                i <= positions@.len(),
                p0.entries@ == index_entries(positions@.take(i as int)),
            decreases positions.len() - i,
        {
            assert(positions@.take(i + 1).drop_last() =~= positions@.take(i as int));
            p0.insert(positions[i], i);
            i = i + 1;
        }
        assert(positions@.take(i as int) =~= positions@);
        proof {
            lemma_index_entries_keys(positions@);
        }
        let ghost e0 = p0.entries@;
        assert forall|j: int| 0 <= j < e0.len() implies (#[trigger] e0[j]).0.0 > -128 && e0[j].0.1 > -128 by {
            let k = choose|k: int| 0 <= k < positions@.len() && positions@[k] == e0[j].0;
        }
        let p1 = Representation::rotate(&p0);
        let p2 = Representation::rotate(&p1);
        let p3 = Representation::rotate(&p2);

        let minx = corner.0;
        let miny = corner.1;
        let dx: i8 = if dimensions.0 < 128 { dimensions.0 as i8 } else { (dimensions.0 as i16 - 256) as i8 };
        let dy: i8 = if dimensions.1 < 128 { dimensions.1 as i8 } else { (dimensions.1 as i16 - 256) as i8 };
        assert(dx == wrap_i8(dimensions.0));
        assert(dy == wrap_i8(dimensions.1));
        let maxx: i8 = dx + minx - 1;
        let maxy: i8 = dy + miny - 1;
        let corners: [Coord; 4] = [(minx, miny), (miny, -maxx), (-maxx, -maxy), (-maxy, minx)];
        let r = Representation { cells: cells, positions: [p0, p1, p2, p3], dimensions: dimensions, corners: corners };
        assert(r@.positions =~= rep_view(positions@, cells@.map_values(|c: Cell| c@), dimensions, corner).positions);
        assert(r@.corners =~= corners_of(dimensions, corner));
        r
    }

    /// The map turned a quarter turn: the index at (x, y) moves to (y, -x).
    pub fn rotate(positions: &CoordMap) -> (r: CoordMap)
        requires
            forall|i: int| 0 <= i < positions.entries@.len() ==> (#[trigger] positions.entries@[i]).0.0 > -128,
        ensures
            r.entries@ == rotate_entries(positions.entries@),
    {
        let mut to_ret = CoordMap::new();
        let mut i: usize = 0;
        while i < positions.entries.len()
            invariant
                i <= positions.entries@.len(),
                forall|j: int| 0 <= j < positions.entries@.len() ==> (#[trigger] positions.entries@[j]).0.0 > -128,
                to_ret.entries@ =~= rotate_entries(positions.entries@.take(i as int)),
            decreases positions.entries.len() - i,
        {
            let e = positions.entries[i];
            assert(e == positions.entries@[i as int]);
            assert(e.0.0 > -128);
            let c = e.0;
            let p = e.1;
            to_ret.entries.push(((c.1, -c.0), p));
            assert(positions.entries@.take(i + 1).drop_last() =~= positions.entries@.take(i as int));
            i = i + 1;
        }
        assert(positions.entries@.take(i as int) =~= positions.entries@);
        to_ret
    }
}


/// What a body is: its size, its layout, and the chromosomes it grew from.
pub struct MorphologyView {
    pub dimensions: (u8, u8),
    pub rep: RepresentationView,
    pub chromosomes: Seq<Chromosome>,
}

/// The body that chromosomes grow under a translation table.
pub open spec fn morphology_of(tt: Seq<(TTKey, PolyminiTrait)>, cs: Seq<Chromosome>) -> MorphologyView {
    MorphologyView {
        dimensions: representation_of(tt, cs).dimensions,
        rep: representation_of(tt, cs),
        chromosomes: cs,
    }
}

/// The body of an individual.
pub struct Morphology {
    dimensions: (u8, u8),
    representations: Representation,
    genome: Vec<Chromosome>,
}

impl Morphology {
    #[verifier::type_invariant]
    spec fn inv(self) -> bool {
        self.genome@.len() <= 127
    }
}

impl View for Morphology {
    type V = MorphologyView;

    closed spec fn view(&self) -> MorphologyView {
        MorphologyView {
            dimensions: self.dimensions,
            rep: self.representations@,
            chromosomes: self.genome@,
        }
    }
}

fn coords_contain(s: &Vec<Coord>, c: Coord) -> (r: bool)
    ensures
        r == s@.contains(c),
{
    let mut i: usize = 0;
    while i < s.len()
        invariant
            i <= s@.len(),
            forall|j: int| 0 <= j < i ==> s@[j] != c,
        decreases s.len() - i,
    {
        let e = s[i];
        if e.0 == c.0 && e.1 == c.1 {
            assert(s@[i as int] == c);
            return true;
        }
        i = i + 1;
    }
    false
}

proof fn lemma_cells_cardinal(cells: Seq<CellView>, tt: Seq<(TTKey, PolyminiTrait)>, cs: Seq<Chromosome>)
    requires
        cells == cells_of(tt, cs),
    ensures
        forall|i: int| 0 <= i < adjs_of(cells).len() ==> all_cardinal(#[trigger] adjs_of(cells)[i]),
{
    assert forall|i: int| 0 <= i < adjs_of(cells).len() implies all_cardinal(#[trigger] adjs_of(cells)[i]) by {
        let a = adjs_of(cells)[i];
        assert(a == adjacency_dirs(cs[i][1]));
        assert forall|j: int| 0 <= j < a.len() implies (#[trigger] a[j]).is_cardinal() by {}
    }
}

impl Morphology {
    /// The body of no chromosomes, with no cells and size (0, 0).
    pub fn empty() -> (r: Morphology)
        ensures
            r@ == (MorphologyView {
                dimensions: (0u8, 0u8),
                rep: rep_view(Seq::empty(), Seq::empty(), (0u8, 0u8), (0i8, 0i8)),
                chromosomes: Seq::empty(),
            }),
    {
        let rep = Representation::new(Vec::new(), Vec::new(), (0, 0), (0, 0));
        assert(Seq::<Cell>::empty().map_values(|c: Cell| c@) =~= Seq::<CellView>::empty());
        let r = Morphology { dimensions: (0, 0), representations: rep, genome: Vec::new() };
        assert(r@.chromosomes =~= Seq::<Chromosome>::empty());
        r
    }

    /// The body the chromosomes grow under the translation table.
    pub fn new(chromosomes: &Vec<Chromosome>, translation_table: &TranslationTable) -> (r: Morphology)
        requires
            chromosomes@.len() <= 127,
        ensures
            r@ == morphology_of(translation_table@, chromosomes@),
    {
        let mut genome: Vec<Chromosome> = Vec::new();
        let mut i: usize = 0;
        while i < chromosomes.len()
            invariant
                i <= chromosomes@.len(),
                genome@ == chromosomes@.take(i as int),
            decreases chromosomes.len() - i,
        {
            genome.push(chromosomes[i]);
            assert(genome@ =~= chromosomes@.take(i + 1));
            i = i + 1;
        }
        assert(chromosomes@.take(i as int) =~= chromosomes@);
        let rep = Morphology::create_representation(chromosomes, translation_table);
        Morphology { dimensions: rep.dimensions, representations: rep, genome: genome }
    }

    fn create_representation(chromosomes: &Vec<Chromosome>, translation_table: &TranslationTable) -> (r: Representation)
        requires
            chromosomes@.len() <= 127,
        ensures
            r@ == representation_of(translation_table@, chromosomes@),
    {
        let ghost tt = translation_table@;
        let ghost cs = chromosomes@;
        let ghost cviews = cells_of(tt, cs);
        let ghost adjs = adjs_of(cviews);
        let n = chromosomes.len();
        let mut cells: Vec<Cell> = Vec::new();
        let mut i: usize = 0;
        while i < n
            invariant
                i <= n,
                n == cs.len(),
                cs == chromosomes@,
                tt == translation_table@,
                cviews == cells_of(tt, cs),
                cells@.len() == i,
                forall|j: int| 0 <= j < i ==> (#[trigger] cells@[j])@ == cviews[j],
            decreases n - i,
        {
            cells.push(translation_table.create_for_chromosome(chromosomes[i]));
            i = i + 1;
        }
        proof {
            lemma_cells_cardinal(cviews, tt, cs);
        }

        let mut visited: Vec<Coord> = Vec::new();
        let mut stack: Vec<Coord> = Vec::new();
        let mut positions: Vec<Coord> = Vec::new();
        let mut curr: Coord = (0, 0);
        positions.push(curr);
        assert(positions@ =~= seq![(0i8, 0i8)]);
        assert(adjs.take(0) =~= Seq::<Seq<Direction>>::empty());
        let mut k: usize = 0;
        let mut stopped = false;
        while k < n && !stopped
            invariant
                k <= n <= 127,
                n == cs.len(),
                cells@.len() == n,
                forall|j: int| 0 <= j < n ==> (#[trigger] cells@[j])@ == cviews[j],
                adjs == adjs_of(cviews),
                cviews.len() == n,
                forall|j: int| 0 <= j < adjs.len() ==> all_cardinal(#[trigger] adjs[j]),
                (PlaceState { visited: visited@, stack: stack@, positions: positions@, curr, stopped })
                    == place_all(adjs.take(k as int)),
            decreases n - k,
        {
            let ghost pre = adjs.take(k as int);
            proof {
                assert forall|j: int| 0 <= j < pre.len() implies all_cardinal(#[trigger] pre[j]) by {
                    assert(pre[j] == adjs[j]);
                }
                lemma_place_all(pre);
            }
            let ghost st0 = PlaceState { visited: visited@, stack: stack@, positions: positions@, curr, stopped };
            assert(within(curr, k as int));
            assert(cells@[k as int]@ == cviews[k as int]);
            assert(adjs[k as int] == cells@[k as int].adjacency_info.adj@);
            let coords = cells[k].adjacency_info.get_neighbours(curr);
            let mut j: usize = 0;
            while j < coords.len()
                invariant
                    j <= coords@.len(),
                    (PlaceState { visited: visited@, stack: stack@, positions: positions@, curr, stopped })
                        == push_unvisited(st0, coords@.take(j as int)),
                decreases coords.len() - j,
            {
                assert(coords@.take(j + 1).drop_last() =~= coords@.take(j as int));
                assert(coords@.take(j + 1).last() == coords@[j as int]);
                let c = coords[j];
                if !coords_contain(&visited, c) {
                    visited.push(c);
                    stack.push(c);
                    positions.push(c);
                }
                j = j + 1;
            }
            assert(coords@.take(j as int) =~= coords@);
            assert(adjs.take(k + 1).drop_last() =~= pre);
            assert(adjs.take(k + 1).last() == adjs[k as int]);
            match stack.pop() {
                Some(c) => {
                    curr = c;
                },
                None => {
                    stopped = true;
                },
            }
            assert((PlaceState { visited: visited@, stack: stack@, positions: positions@, curr, stopped }) == place_step(st0, adjs[k as int]));
            k = k + 1;
        }
        proof {
            if stopped {
                lemma_place_all_stopped(adjs, k as int);
            } else {
                assert(adjs.take(k as int) =~= adjs);
            }
            lemma_place_all(adjs);
        }
        let ghost st = place_all(adjs);
        assert(positions@ == st.positions);

        let l = if n < positions.len() { n } else { positions.len() };
        positions.truncate(l);
        cells.truncate(l);
        let ghost kept = st.positions.take(l as int);
        assert(positions@ =~= kept);

        let mut minx: i8 = 0;
        let mut maxx: i8 = 0;
        let mut miny: i8 = 0;
        let mut maxy: i8 = 0;
        let mut p: usize = 0;
        while p < positions.len()
            invariant
                p <= positions@.len(),
                bbox(positions@.take(p as int)) == (minx as int, maxx as int, miny as int, maxy as int),
            decreases positions.len() - p,
        {
            assert(positions@.take(p + 1).drop_last() =~= positions@.take(p as int));
            assert(positions@.take(p + 1).last() == positions@[p as int]);
            let c = positions[p];
            if c.0 < minx {
                minx = c.0;
            }
            if c.1 < miny {
                miny = c.1;
            }
            if c.0 > maxx {
                maxx = c.0;
            }
            if c.1 > maxy {
                maxy = c.1;
            }
            p = p + 1;
        }
        assert(positions@.take(p as int) =~= positions@);
        proof {
            assert(all_within(kept, 127)) by {
                assert forall|q: int| 0 <= q < kept.len() implies within(#[trigger] kept[q], 127) by {
                    assert(kept[q] == st.positions[q]);
                    assert(within(st.positions[q], n as int));
                }
            }
            lemma_bbox_bounds(kept, 127);
            if l > 0 {
                assert(spans_ok(st.positions));
                assert(bbox(st.positions.take(l as int)).1 - bbox(st.positions.take(l as int)).0 < l);
            }
        }
        let w: u8 = (maxx as i16 - minx as i16 + 1) as u8;
        let h: u8 = (maxy as i16 - miny as i16 + 1) as u8;
        let ghost cells_kept = cells@.map_values(|c: Cell| c@);
        assert(cells_kept =~= cviews.take(l as int));
        assert forall|q: int| 0 <= q < positions@.len() implies (#[trigger] positions@[q]).0 > -128 && positions@[q].1 > -128 by {
            assert(within(kept[q], 127));
        }
        Representation::new(positions, cells, (w, h), (minx, miny))
    }

    /// The chromosomes the body grew from.
    pub fn get_chromosomes(&self) -> (r: &Vec<Chromosome>)
        ensures
            r@ == self@.chromosomes,
    {
        &self.genome
    }

    /// The width and height of the body.
    pub fn get_dimensions(&self) -> (r: (u8, u8))
        ensures
            r == self@.dimensions,
    {
        self.dimensions
    }

    /// How many cells the body has.
    pub fn get_total_cells(&self) -> (r: usize)
        ensures
            r == self@.rep.cells.len(),
    {
        self.representations.cells.len()
    }

    /// The top-left corner of the unturned body.
    pub fn get_corner(&self) -> (r: Coord)
        ensures
            r == self@.rep.corners[0],
    {
        self.representations.corners[0]
    }
}


/// The actuators of the cells at the entries, in the order of the entries.
pub open spec fn actuators_of(e: Seq<(Coord, usize)>, cells: Seq<CellView>) -> Seq<Actuator>
    decreases e.len(),
{
    if e.len() == 0 {
        Seq::empty()
    } else {
        let rest = actuators_of(e.drop_last(), cells);
        match cells[e.last().1 as int].pm_trait.pm_trait {
            PolyminiTrait::PolyminiActuator(t) => rest.push(Actuator { tag: t, index: 0, coords: e.last().0 }),
            _ => rest,
        }
    }
}

/// The sensors of the cells, each with the index of its cell, in cell order.
pub open spec fn sensors_of(cells: Seq<CellView>) -> Seq<Sensor>
    decreases cells.len(),
{
    if cells.len() == 0 {
        Seq::empty()
    } else {
        let rest = sensors_of(cells.drop_last());
        match cells.last().pm_trait.pm_trait {
            PolyminiTrait::PolyminiSensor(t) => rest.push(
                Sensor { tag: t, cardinality: 1, index: (cells.len() - 1) as usize },
            ),
            _ => rest,
        }
    }
}

/// `t` once for every cell whose trait is `t`.
pub open spec fn traits_of_type(cells: Seq<CellView>, t: PolyminiTrait) -> Seq<PolyminiTrait>
    decreases cells.len(),
{
    if cells.len() == 0 {
        Seq::empty()
    } else {
        let rest = traits_of_type(cells.drop_last(), t);
        if cells.last().pm_trait.pm_trait == t {
            rest.push(t)
        } else {
            rest
        }
    }
}

impl Morphology {
    /// The actuators of the body, each at the coordinate of its cell.
    pub fn get_actuator_list(&self) -> (r: Vec<Actuator>)
        ensures
            r@ == actuators_of(self@.rep.positions[0], self@.rep.cells),
    {
        proof {
            use_type_invariant(&self.representations);
        }
        let rep = &self.representations;
        let entries = &rep.positions[0].entries;
        let mut actuators: Vec<Actuator> = Vec::new();
        let mut i: usize = 0;
        while i < entries.len()
            invariant
                i <= entries@.len(),
                *entries == rep.positions@[0].entries,
                indices_in_range(entries@, rep.cells@.len() as int),
                actuators@ == actuators_of(entries@.take(i as int), rep@.cells),
            decreases entries.len() - i,
        {
            assert(entries@.take(i + 1).drop_last() =~= entries@.take(i as int));
            assert(entries@.take(i + 1).last() == entries@[i as int]);
            let (k, v) = entries[i];
            assert(entries@[i as int].1 < rep.cells@.len());
            match rep.cells[v].pm_trait.pm_trait {
                PolyminiTrait::PolyminiActuator(t) => {
                    actuators.push(Actuator::new(t, 0, k));
                },
                _ => {},
            }
            i = i + 1;
        }
        assert(entries@.take(i as int) =~= entries@);
        actuators
    }

    /// The sensors of the body, each with the index of its cell.
    pub fn get_sensor_list(&self) -> (r: Vec<Sensor>)
        ensures
            r@ == sensors_of(self@.rep.cells),
    {
        let cells = &self.representations.cells;
        let ghost cv = self@.rep.cells;
        let mut sensors: Vec<Sensor> = Vec::new();
        let mut i: usize = 0;
        while i < cells.len()
            invariant
                i <= cells@.len(),
                cv == cells@.map_values(|c: Cell| c@),
                sensors@ == sensors_of(cv.take(i as int)),
            decreases cells.len() - i,
        {
            assert(cv.take(i + 1).drop_last() =~= cv.take(i as int));
            assert(cv.take(i + 1).last() == cv[i as int]);
            match cells[i].pm_trait.pm_trait {
                PolyminiTrait::PolyminiSensor(t) => {
                    sensors.push(Sensor::new(t, i));
                },
                _ => {},
            }
            i = i + 1;
        }
        assert(cv.take(i as int) =~= cv);
        sensors
    }

    /// The trait `trait_type` once for every cell that carries it.
    pub fn get_traits_of_type(&self, trait_type: PolyminiTrait) -> (r: Vec<PolyminiTrait>)
        ensures
            r@ == traits_of_type(self@.rep.cells, trait_type),
    {
        let cells = &self.representations.cells;
        let ghost cv = self@.rep.cells;
        let mut to_ret: Vec<PolyminiTrait> = Vec::new();
        let mut i: usize = 0;
        while i < cells.len()
            invariant
                i <= cells@.len(),
                cv == cells@.map_values(|c: Cell| c@),
                to_ret@ == traits_of_type(cv.take(i as int), trait_type),
            decreases cells.len() - i,
        {
            assert(cv.take(i + 1).drop_last() =~= cv.take(i as int));
            assert(cv.take(i + 1).last() == cv[i as int]);
            if cells[i].pm_trait.pm_trait == trait_type {
                to_ret.push(cells[i].pm_trait.pm_trait);
            }
            i = i + 1;
        }
        assert(cv.take(i as int) =~= cv);
        to_ret
    }
}


/// The JSON a coordinate is written out as.
pub open spec fn coord_jv(c: Coord) -> Jv {
    Jv::Obj(seq![("x"@, Jv::I64(c.0 as i64)), ("y"@, Jv::I64(c.1 as i64))])
}

/// The JSON of one placed cell: its coordinate and its trait.
pub open spec fn placed_cell_jv(p: (Coord, usize), cells: Seq<CellView>) -> Jv {
    Jv::Obj(seq![("Coord"@, coord_jv(p.0)), ("Trait"@, trait_jv(cells[p.1 as int].pm_trait))])
}

/// The JSON a body layout is written out as: its unturned cells, in entry order.
pub open spec fn body_jv(e: Seq<(Coord, usize)>, cells: Seq<CellView>) -> Jv {
    Jv::Arr(e.map_values(|p: (Coord, usize)| placed_cell_jv(p, cells)))
}

/// The JSON a chromosome is written out as: its four bytes.
pub open spec fn chromosome_jv(c: Chromosome) -> Jv {
    Jv::Arr(seq![Jv::U64(c[0] as u64), Jv::U64(c[1] as u64), Jv::U64(c[2] as u64), Jv::U64(c[3] as u64)])
}

/// The JSON a body is written out as: its layout and the chromosomes it grew from.
pub open spec fn morphology_jv(m: MorphologyView) -> Jv {
    Jv::Obj(
        seq![
            ("Body"@, body_jv(m.rep.positions[0], m.rep.cells)),
            ("Chromosome"@, Jv::Arr(m.chromosomes.map_values(|c: Chromosome| chromosome_jv(c)))),
        ],
    )
}

/// A JSON array of at least four numbers.
pub open spec fn chromosome_json_ok(j: Jv) -> bool {
    &&& j is Arr
    &&& j->Arr_0.len() >= 4
    &&& forall|i: int| 0 <= i < 4 ==> jv_as_u64(#[trigger] j->Arr_0[i]) is Some
}

/// The chromosome read from the low bytes of the first four numbers of an array.
pub open spec fn chromosome_from_jv(j: Jv) -> Chromosome {
    let b = j->Arr_0;
    [
        jv_as_u64(b[0])->0 as u8,
        jv_as_u64(b[1])->0 as u8,
        jv_as_u64(b[2])->0 as u8,
        jv_as_u64(b[3])->0 as u8,
    ]
}

/// An object a body can be read from: its "Chromosome" is an array of at most 127
/// chromosomes.
pub open spec fn morphology_json_ok(j: Jv) -> bool {
    j is Obj ==> {
        &&& jv_get(j, "Chromosome"@) matches Some(Jv::Arr(es))
        &&& es.len() <= 127
        &&& forall|i: int| 0 <= i < es.len() ==> chromosome_json_ok(#[trigger] es[i])
    }
}

/// The chromosomes read from the "Chromosome" array of an object.
pub open spec fn chromosomes_from_jv(j: Jv) -> Seq<Chromosome> {
    jv_get(j, "Chromosome"@)->0->Arr_0.map_values(|e: Jv| chromosome_from_jv(e))
}

fn coord_json(c: Coord) -> (r: JsonValue)
    ensures
        r@ == coord_jv(c),
{
    let mut entries: Vec<(String, JsonValue)> = Vec::new();
    entries.push(json_entry("x", JsonValue::I64(c.0 as i64)));
    entries.push(json_entry("y", JsonValue::I64(c.1 as i64)));
    let r = json_object(entries);
    assert(r@->Obj_0 =~= coord_jv(c)->Obj_0);
    r
}

fn chromosome_json(c: Chromosome) -> (r: JsonValue)
    ensures
        r@ == chromosome_jv(c),
{
    let mut v: Vec<JsonValue> = Vec::new();
    v.push(JsonValue::U64(c[0] as u64));
    v.push(JsonValue::U64(c[1] as u64));
    v.push(JsonValue::U64(c[2] as u64));
    v.push(JsonValue::U64(c[3] as u64));
    let r = json_array(v);
    assert(r@->Arr_0 =~= chromosome_jv(c)->Arr_0);
    r
}

impl Serializable for Representation {
    fn serialize(&self, ctx: &mut SerializationCtx) -> (r: JsonValue)
        ensures
            r@ == body_jv(self@.positions[0], self@.cells),
            *final(ctx) == *old(ctx),
    {
        proof {
            use_type_invariant(self);
        }
        let entries = &self.positions[0].entries;
        let ghost cv = self@.cells;
        let mut arr: Vec<JsonValue> = Vec::new();
        let mut i: usize = 0;
        while i < entries.len()
            invariant
                i <= entries@.len(),
                *entries == self.positions@[0].entries,
                indices_in_range(entries@, self.cells@.len() as int),
                cv == self@.cells,
                *ctx == *old(ctx),
                models(arr@) =~= entries@.take(i as int).map_values(|p: (Coord, usize)| placed_cell_jv(p, cv)),
            decreases entries.len() - i,
        {
            let (k, v) = entries[i];
            assert(entries@[i as int].1 < self.cells@.len());
            let mut obj: Vec<(String, JsonValue)> = Vec::new();
            obj.push(json_entry("Coord", coord_json(k)));
            obj.push(json_entry("Trait", self.cells[v].serialize(ctx)));
            let j = json_object(obj);
            assert(j@->Obj_0 =~= placed_cell_jv(entries@[i as int], cv)->Obj_0);
            proof {
                lemma_models_push(arr@, j);
            }
            arr.push(j);
            i = i + 1;
        }
        assert(entries@.take(i as int) =~= entries@);
        json_array(arr)
    }
}

impl Serializable for Morphology {
    fn serialize(&self, ctx: &mut SerializationCtx) -> (r: JsonValue)
        ensures
            r@ == morphology_jv(self@),
            *final(ctx) == *old(ctx),
    {
        let body = self.representations.serialize(ctx);
        let mut arr: Vec<JsonValue> = Vec::new();
        let mut i: usize = 0;
        while i < self.genome.len()
            invariant
                i <= self.genome@.len(),
                models(arr@) =~= self.genome@.take(i as int).map_values(
                    |c: Chromosome| chromosome_jv(c),
                ),
            decreases self.genome.len() - i,
        {
            let j = chromosome_json(self.genome[i]);
            proof {
                lemma_models_push(arr@, j);
            }
            arr.push(j);
            i = i + 1;
        }
        assert(self.genome@.take(i as int) =~= self.genome@);
        let mut obj: Vec<(String, JsonValue)> = Vec::new();
        obj.push(json_entry("Body", body));
        obj.push(json_entry("Chromosome", json_array(arr)));
        let r = json_object(obj);
        assert(r@->Obj_0 =~= morphology_jv(self@)->Obj_0);
        r
    }
}

fn chromosome_from_json(j: &JsonValue) -> (r: Chromosome)
    requires
        chromosome_json_ok(j@),
    ensures
        r == chromosome_from_jv(j@),
{
    let block = match j.as_array() {
        Some(b) => b,
        None => {
            assert(false);
            return [0u8, 0u8, 0u8, 0u8];
        },
    };
    let ghost bm = models(block@);
    assert(bm == j@->Arr_0);
    assert(bm[0] == block@[0]@);
    assert(bm[1] == block@[1]@);
    assert(bm[2] == block@[2]@);
    assert(bm[3] == block@[3]@);
    assert(jv_as_u64(bm[0]) is Some);
    assert(jv_as_u64(bm[1]) is Some);
    assert(jv_as_u64(bm[2]) is Some);
    assert(jv_as_u64(bm[3]) is Some);
    let b0 = match block[0].as_u64() { Some(v) => v as u8, None => 0 };
    let b1 = match block[1].as_u64() { Some(v) => v as u8, None => 0 };
    let b2 = match block[2].as_u64() { Some(v) => v as u8, None => 0 };
    let b3 = match block[3].as_u64() { Some(v) => v as u8, None => 0 };
    let r = [b0, b1, b2, b3];
    assert(r@ =~= chromosome_from_jv(j@)@);
    r
}

fn chromosome_json_readable(j: &JsonValue) -> (r: bool)
    ensures
        r == chromosome_json_ok(j@),
{
    match j.as_array() {
        Some(block) => {
            let ghost bm = models(block@);
            if block.len() < 4 {
                return false;
            }
            assert(bm[0] == block@[0]@ && bm[1] == block@[1]@ && bm[2] == block@[2]@ && bm[3] == block@[3]@);
            let r = block[0].as_u64().is_some() && block[1].as_u64().is_some() && block[2].as_u64().is_some()
                && block[3].as_u64().is_some();
            proof {
                if !r {
                    let k: int = if jv_as_u64(bm[0]) is None {
                        0
                    } else if jv_as_u64(bm[1]) is None {
                        1
                    } else if jv_as_u64(bm[2]) is None {
                        2
                    } else {
                        3
                    };
                    assert(jv_as_u64(j@->Arr_0[k]) is None);
                }
            }
            r
        },
        None => false,
    }
}

/// Whether a body can be read from this JSON value without stopping the program.
pub fn morphology_json_readable(json: &JsonValue) -> (r: bool)
    ensures
        r == morphology_json_ok(json@),
{
    if !json.is_object() {
        return true;
    }
    let arr = match json.get("Chromosome") {
        Some(c) => match c.as_array() {
            Some(a) => a,
            None => {
                return false;
            },
        },
        None => {
            return false;
        },
    };
    let ghost es = models(arr@);
    if arr.len() > 127 {
        return false;
    }
    let mut i: usize = 0;
    while i < arr.len()
        invariant
            i <= arr@.len(),
            es == models(arr@),
            jv_get(json@, "Chromosome"@) == Some(Jv::Arr(es)),
            json@ is Obj,
            es.len() <= 127,
            forall|q: int| 0 <= q < i ==> chromosome_json_ok(#[trigger] es[q]),
        decreases arr.len() - i,
    {
        assert(es[i as int] == arr@[i as int]@);
        if !chromosome_json_readable(&arr[i]) {
            assert(!chromosome_json_ok(es[i as int]));
            return false;
        }
        i = i + 1;
    }
    true
}

fn ttkey_json_readable(j: &JsonValue) -> (r: bool)
    ensures
        r == ttkey_json_ok(j@),
{
    if !j.is_object() {
        return false;
    }
    let tier_ok = match j.get("Tier") {
        Some(t) => match t.as_u64() {
            Some(v) => 1 <= (v as u8) && (v as u8) <= 3,
            None => false,
        },
        None => false,
    };
    let number_ok = match j.get("Number") {
        Some(n) => n.as_u64().is_some(),
        None => false,
    };
    tier_ok && number_ok
}

/// Whether a translation table can be read from this JSON value without stopping
/// the program: every element of an array is a key.
pub fn translation_table_json_readable(json: &JsonValue) -> (r: bool)
    ensures
        r == (json@ matches Jv::Arr(es) ==> forall|i: int| 0 <= i < es.len() ==> ttkey_json_ok(#[trigger] es[i])),
{
    match json.as_array() {
        Some(arr) => {
            let ghost es = models(arr@);
            let mut i: usize = 0;
            while i < arr.len()
                invariant
                    i <= arr@.len(),
                    es == models(arr@),
                    json@ == Jv::Arr(es),
                    forall|q: int| 0 <= q < i ==> ttkey_json_ok(#[trigger] es[q]),
                decreases arr.len() - i,
            {
                assert(es[i as int] == arr@[i as int]@);
                if !ttkey_json_readable(&arr[i]) {
                    assert(!ttkey_json_ok(es[i as int]));
                    assert(json@->Arr_0 == es);
                    assert(!ttkey_json_ok(json@->Arr_0[i as int]));
                    return false;
                }
                i = i + 1;
            }
            true
        },
        None => true,
    }
}

impl Morphology {
    /// Grows the body from the "Chromosome" array of a JSON object; `None` when
    /// `json` is no object.
    pub fn new_from_json(json: &JsonValue, tt: &TranslationTable) -> (r: Option<Morphology>)
        requires
            morphology_json_ok(json@),
        ensures
            json@ is Obj ==> (r matches Some(m) && m@ == morphology_of(tt@, chromosomes_from_jv(json@))),
            !(json@ is Obj) ==> r is None,
    {
        if !json.is_object() {
            return None;
        }
        let arr = match json.get("Chromosome") {
            Some(c) => match c.as_array() {
                Some(a) => a,
                None => {
                    assert(false);
                    return None;
                },
            },
            None => {
                assert(false);
                return None;
            },
        };
        let ghost es = models(arr@);
        let mut o_chromosome: Vec<Chromosome> = Vec::new();
        let mut i: usize = 0;
        while i < arr.len()
            invariant
                i <= arr@.len(),
                es == models(arr@),
                es == jv_get(json@, "Chromosome"@)->0->Arr_0,
                forall|q: int| 0 <= q < es.len() ==> chromosome_json_ok(#[trigger] es[q]),
                o_chromosome@ =~= es.take(i as int).map_values(|e: Jv| chromosome_from_jv(e)),
            decreases arr.len() - i,
        {
            assert(es[i as int] == arr@[i as int]@);
            let c = chromosome_from_json(&arr[i]);
            o_chromosome.push(c);
            i = i + 1;
        }
        assert(es.take(i as int) =~= es);
        Some(Morphology::new(&o_chromosome, tt))
    }
}

/// Reading back the JSON a body is written out as gives the chromosomes it grew from,
/// so the same translation table grows the same body again.
pub proof fn lemma_morphology_json_roundtrip(m: MorphologyView)
    requires
        m.chromosomes.len() <= 127,
    ensures
        morphology_json_ok(morphology_jv(m)),
        chromosomes_from_jv(morphology_jv(m)) == m.chromosomes,
{
    reveal_strlit("Body");
    reveal_strlit("Chromosome");
    let j = morphology_jv(m);
    assert(j->Obj_0.last().0 == "Chromosome"@);
    let es = m.chromosomes.map_values(|c: Chromosome| chromosome_jv(c));
    assert(jv_get(j, "Chromosome"@) == Some(Jv::Arr(es)));
    assert forall|i: int| 0 <= i < es.len() implies chromosome_json_ok(#[trigger] es[i]) by {
        let b = es[i]->Arr_0;
        assert(b.len() == 4);
        assert forall|q: int| 0 <= q < 4 implies jv_as_u64(#[trigger] b[q]) is Some by {}
    }
    assert forall|i: int| 0 <= i < es.len() implies chromosome_from_jv(#[trigger] es[i]) == m.chromosomes[i] by {
        let c = m.chromosomes[i];
        assert(chromosome_from_jv(es[i])@ =~= c@);
    }
    assert(chromosomes_from_jv(j) =~= m.chromosomes);
}


/// The byte a crossover cut at `bit` makes: the top `bit` bits of `a` and the
/// other low bits of `b`.
pub open spec fn crossover_byte(a: u8, b: u8, bit: u8) -> u8 {
    (a & !(0xFFu8 >> bit)) | (b & (0xFFu8 >> bit))
}

/// The chromosome that links the two parents: the alleles before the cut from `x`,
/// the allele at the cut crossed at the bit, the alleles after it from `y`.
pub open spec fn link_chromosome(x: Chromosome, y: Chromosome, allele: int, bit: u8) -> Chromosome {
    [
        if 0 < allele { x[0] } else if allele == 0 { crossover_byte(x[0], y[0], bit) } else { y[0] },
        if 1 < allele { x[1] } else if allele == 1 { crossover_byte(x[1], y[1], bit) } else { y[1] },
        if 2 < allele { x[2] } else if allele == 2 { crossover_byte(x[2], y[2], bit) } else { y[2] },
        if 3 < allele { x[3] } else if allele == 3 { crossover_byte(x[3], y[3], bit) } else { y[3] },
    ]
}

/// The child genome of a crossover: the chromosomes of `a` before the cut, the link
/// chromosome, and the chromosomes of `b` after the second cut.
pub open spec fn crossover_chromosomes(
    a: Seq<Chromosome>,
    b: Seq<Chromosome>,
    cp1: int,
    allele: int,
    bit: u8,
    cp2: int,
) -> Seq<Chromosome> {
    a.take(cp1) + seq![link_chromosome(a[cp1], b[cp2], allele, bit)] + b.skip(cp2 + 1)
}

/// The chromosome with one allele replaced.
pub open spec fn set_allele(c: Chromosome, allele: int, v: u8) -> Chromosome {
    [
        if allele == 0 { v } else { c[0] },
        if allele == 1 { v } else { c[1] },
        if allele == 2 { v } else { c[2] },
        if allele == 3 { v } else { c[3] },
    ]
}

/// A point mutation: the index of a chromosome, the index of an allele in it, and
/// the allele's new value.
pub type ChromosomeMutation = (usize, usize, u8);

/// The genome after the mutations, applied in order.
pub open spec fn apply_mutations(cs: Seq<Chromosome>, muts: Seq<ChromosomeMutation>) -> Seq<Chromosome>
    decreases muts.len(),
{
    if muts.len() == 0 {
        cs
    } else {
        let pre = apply_mutations(cs, muts.drop_last());
        let m = muts.last();
        pre.update(m.0 as int, set_allele(pre[m.0 as int], m.1 as int, m.2))
    }
}

/// Every mutation names a chromosome of the genome and one of its four alleles.
pub open spec fn mutations_fit(n: int, muts: Seq<ChromosomeMutation>) -> bool {
    forall|i: int| 0 <= i < muts.len() ==> (#[trigger] muts[i]).0 < n && muts[i].1 < 4
}

/// The genome read from random bytes, four bytes to a chromosome, in order.
pub open spec fn chromosomes_from_bytes(bytes: Seq<u8>, n: int) -> Seq<Chromosome> {
    Seq::new(n as nat, |i: int| [bytes[4 * i], bytes[4 * i + 1], bytes[4 * i + 2], bytes[4 * i + 3]])
}

fn crossed_byte(a: u8, b: u8, cross_point_bit: usize) -> (r: u8)
    requires
        cross_point_bit < 8,
    ensures
        r == crossover_byte(a, b, cross_point_bit as u8),
{
    let bit = cross_point_bit as u16;
    let up: u16 = bit + 1;
    let sh: u16 = 8 - bit;
    let s1: u16 = 1u16 << up;
    assert(s1 >= 1) by (bit_vector)
        requires
            up <= 8,
            s1 == 1u16 << up,
    ;
    let mask0: u16 = s1 - 1;
    let mask: u16 = mask0 << sh;
    let s2: u16 = 1u16 << sh;
    assert(s2 >= 1) by (bit_vector)
        requires
            sh <= 8,
            s2 == 1u16 << sh,
    ;
    let mask_2: u16 = s2 - 1;
    let m1 = mask as u8;
    let m2 = mask_2 as u8;
    let bit8 = cross_point_bit as u8;
    assert((m1 & a) + (m2 & b) <= 255 && (m1 & a) + (m2 & b) == (a & !(0xFFu8 >> bit8)) | (b & (
    0xFFu8 >> bit8))) by (bit_vector)
        requires
            bit < 8,
            bit8 == bit,
            up == bit + 1,
            sh + bit == 8,
            s1 == 1u16 << up,
            mask0 + 1 == s1,
            mask == mask0 << sh,
            s2 == 1u16 << sh,
            mask_2 + 1 == s2,
            m1 == mask as u8,
            m2 == mask_2 as u8,
    ;
    (m1 & a) + (m2 & b)
}

impl Morphology {
    /// The child of this body and `other`, cut at the given points: this genome is cut
    /// before chromosome `cross_point_chromosome`, `other`'s after chromosome
    /// `cross_point_chromosome_2`, and the two cut chromosomes are joined at allele
    /// `cross_point_allele`, bit `cross_point_bit`.
    pub fn crossover(
        &self,
        other: &Morphology,
        cross_point_chromosome: usize,
        cross_point_allele: usize,
        cross_point_bit: usize,
        cross_point_chromosome_2: usize,
        translation_table: &TranslationTable,
    ) -> (r: Morphology)
        requires
            cross_point_chromosome < self@.chromosomes.len(),
            cross_point_allele < 4,
            cross_point_bit < 8,
            cross_point_chromosome_2 < other@.chromosomes.len(),
            cross_point_chromosome + other@.chromosomes.len() - cross_point_chromosome_2 <= 127,
        ensures
            r@ == morphology_of(
                translation_table@,
                crossover_chromosomes(
                    self@.chromosomes,
                    other@.chromosomes,
                    cross_point_chromosome as int,
                    cross_point_allele as int,
                    cross_point_bit as u8,
                    cross_point_chromosome_2 as int,
                ),
            ),
    {
        proof {
            use_type_invariant(self);
            use_type_invariant(other);
        }
        let ghost a = self@.chromosomes;
        let ghost b = other@.chromosomes;
        let mut chromosomes: Vec<Chromosome> = Vec::new();
        let mut i: usize = 0;
        while i < cross_point_chromosome
            invariant
                i <= cross_point_chromosome < a.len(),
                a == self.genome@,
                chromosomes@ =~= a.take(i as int),
            decreases cross_point_chromosome - i,
        {
            let c = self.genome[i];
            chromosomes.push([c[0], c[1], c[2], c[3]]);
            assert(chromosomes@.last() =~= c);
            i = i + 1;
        }
        let x = self.genome[cross_point_chromosome];
        let y = other.genome[cross_point_chromosome_2];
        let mut link: Chromosome = [0u8; 4];
        let mut lc: usize = 0;
        while lc < cross_point_allele
            invariant
                lc <= cross_point_allele < 4,
                forall|q: int| 0 <= q < lc ==> link[q] == x[q],
            decreases cross_point_allele - lc,
        {
            link[lc] = x[lc];
            lc = lc + 1;
        }
        let mut lc2: usize = cross_point_allele;
        while lc2 < 4
            invariant
                cross_point_allele <= lc2 <= 4,
                forall|q: int| 0 <= q < cross_point_allele ==> link[q] == x[q],
                forall|q: int| cross_point_allele <= q < lc2 ==> link[q] == y[q],
            decreases 4 - lc2,
        {
            link[lc2] = y[lc2];
            lc2 = lc2 + 1;
        }
        let link_byte = crossed_byte(x[cross_point_allele], y[cross_point_allele], cross_point_bit);
        link[cross_point_allele] = link_byte;
        assert(link@ =~= link_chromosome(x, y, cross_point_allele as int, cross_point_bit as u8)@);
        let ghost lk = link_chromosome(x, y, cross_point_allele as int, cross_point_bit as u8);
        assert(link == lk);
        chromosomes.push(link);

        let mut j: usize = cross_point_chromosome_2 + 1;
        assert(b.subrange(cross_point_chromosome_2 + 1, j as int) =~= Seq::<Chromosome>::empty());
        assert(chromosomes@ =~= a.take(cross_point_chromosome as int) + seq![lk] + b.subrange(cross_point_chromosome_2 + 1, j as int));
        while j < other.genome.len()
            invariant
                cross_point_chromosome_2 + 1 <= j <= b.len(),
                cross_point_bit < 8,
                b == other.genome@,
                x == a[cross_point_chromosome as int],
                y == b[cross_point_chromosome_2 as int],
                chromosomes@ =~= a.take(cross_point_chromosome as int) + seq![
                    link_chromosome(x, y, cross_point_allele as int, cross_point_bit as u8),
                ] + b.subrange(cross_point_chromosome_2 + 1, j as int),
            decreases b.len() - j,
        {
            let c = other.genome[j];
            chromosomes.push([c[0], c[1], c[2], c[3]]);
            assert(chromosomes@.last() =~= c);
            j = j + 1;
        }
        assert(b.subrange(cross_point_chromosome_2 + 1, j as int) =~= b.skip(cross_point_chromosome_2 + 1));
        Morphology::new(&chromosomes, translation_table)
    }

    /// Applies the point mutations in order, then grows the body again from the
    /// mutated genome.
    pub fn mutate(&mut self, mutations: &Vec<ChromosomeMutation>, table: &TranslationTable)
        requires
            mutations_fit(old(self)@.chromosomes.len() as int, mutations@),
        ensures
            final(self)@ == morphology_of(table@, apply_mutations(old(self)@.chromosomes, mutations@)),
    {
        proof {
            use_type_invariant(&*self);
        }
        let ghost cs0 = self.genome@;
        let mut cs: Vec<Chromosome> = Vec::new();
        let mut k: usize = 0;
        while k < self.genome.len()
            invariant
                k <= cs0.len(),
                cs0 == self.genome@,
                cs@ =~= cs0.take(k as int),
            decreases cs0.len() - k,
        {
            cs.push(self.genome[k]);
            k = k + 1;
        }
        assert(cs0.take(k as int) =~= cs0);
        let mut i: usize = 0;
        while i < mutations.len()
            invariant
                i <= mutations@.len(),
                cs0 == old(self)@.chromosomes,
                mutations_fit(cs0.len() as int, mutations@),
                cs@.len() == cs0.len(),
                cs0.len() <= 127,
                cs@ == apply_mutations(cs0, mutations@.take(i as int)),
            decreases mutations.len() - i,
        {
            assert(mutations@.take(i + 1).drop_last() =~= mutations@.take(i as int));
            assert(mutations@.take(i + 1).last() == mutations@[i as int]);
            let m = mutations[i];
            assert(m == mutations@[i as int]);
            let ci = m.0;
            let ai = m.1;
            let v = m.2;
            assert(ci < cs0.len() && ai < 4);
            let mut c = cs[ci];
            let ghost oldc = c;
            c[ai] = v;
            assert(c@ =~= set_allele(oldc, ai as int, v)@);
            assert(c == set_allele(oldc, ai as int, v));
            let ghost pre = cs@;
            cs.set(ci, c);
            assert(pre[ci as int] == oldc);
            assert(cs@ =~= apply_mutations(cs0, mutations@.take(i + 1)));
            i = i + 1;
        }
        assert(mutations@.take(i as int) =~= mutations@);
        let rep = Morphology::create_representation(&cs, table);
        self.dimensions = rep.dimensions;
        self.representations = rep;
        self.genome = cs;
    }

    /// The body of `genome_size` chromosomes read from random bytes, four to a chromosome.
    pub fn new_random(translation_table: &TranslationTable, random_bytes: &Vec<u8>, genome_size: usize) -> (r: Morphology)
        requires
            genome_size <= 127,
            random_bytes@.len() == 4 * genome_size,
        ensures
            r@ == morphology_of(translation_table@, chromosomes_from_bytes(random_bytes@, genome_size as int)),
    {
        let ghost want = chromosomes_from_bytes(random_bytes@, genome_size as int);
        let mut random_chromosomes: Vec<Chromosome> = Vec::new();
        let mut i: usize = 0;
        while i < genome_size
            invariant
                i <= genome_size <= 127,
                random_bytes@.len() == 4 * genome_size,
                want == chromosomes_from_bytes(random_bytes@, genome_size as int),
                random_chromosomes@ =~= want.take(i as int),
            decreases genome_size - i,
        {
            let c = [random_bytes[4 * i], random_bytes[4 * i + 1], random_bytes[4 * i + 2], random_bytes[4 * i + 3]];
            random_chromosomes.push(c);
            assert(c@ =~= want[i as int]@);
            i = i + 1;
        }
        assert(want.take(i as int) =~= want);
        Morphology::new(&random_chromosomes, translation_table)
    }
}

/// What creating individuals of a species draws on: its translation table, the
/// sensors every individual has, and its source of random numbers.
pub struct PolyminiCreationCtx<R> {
    pub trans_table: TranslationTable,
    pub default_sensors: Vec<Sensor>,
    pub random_context: R,
}

impl<R> PolyminiCreationCtx<R> {
    /// A context with an empty translation table and no default sensors.
    pub fn empty(rand_ctx: R) -> (r: PolyminiCreationCtx<R>)
        ensures
            r.trans_table@ == Seq::<(TTKey, PolyminiTrait)>::empty(),
            r.default_sensors@ == Seq::<Sensor>::empty(),
            r.random_context == rand_ctx,
    {
        PolyminiCreationCtx::new_from(TranslationTable::new(), Vec::new(), rand_ctx)
    }

    pub fn new_from(tt: TranslationTable, default_sensors: Vec<Sensor>, rand_ctx: R) -> (r: PolyminiCreationCtx<R>)
        ensures
            r.trans_table == tt,
            r.default_sensors == default_sensors,
            r.random_context == rand_ctx,
    {
        PolyminiCreationCtx { trans_table: tt, default_sensors: default_sensors, random_context: rand_ctx }
    }
}


/// A table built from `src` maps exactly the active keys, each to the value of its
/// last entry in `src`.
pub proof fn lemma_translation_table_active(src: Seq<(TTKey, PolyminiTrait)>, active: Seq<TTKey>, k: TTKey)
    ensures
        assoc_lookup(tt_filtered(src, active), k) == if active.contains(k) {
            assoc_last(src, k)
        } else {
            None
        },
    decreases src.len(),
{
    if src.len() == 0 {
        lemma_assoc_find(Seq::<(TTKey, PolyminiTrait)>::empty(), k);
        if active.contains(k) {
        }
    } else {
        lemma_translation_table_active(src.drop_last(), active, k);
        let e = src.last();
        if active.contains(e.0) {
            lemma_assoc_lookup_insert(tt_filtered(src.drop_last(), active), e.0, e.1, k);
        }
    }
}

/// The facts every grown body has: no cell lies above the head row, so the top-left
/// corner is on row 0; the body keeps at most one cell per chromosome; every cell lies
/// inside the box of the body's size at its corner; and a body of at least one
/// chromosome is at least one and at most as many cells wide and high as it keeps.
pub proof fn lemma_body_shape(tt: Seq<(TTKey, PolyminiTrait)>, cs: Seq<Chromosome>)
    requires
        cs.len() <= 127,
    ensures
        representation_of(tt, cs).corners[0].1 == 0,
        -127 <= representation_of(tt, cs).corners[0].0 <= 0,
        representation_of(tt, cs).cells.len() <= cs.len(),
        forall|i: int|
            0 <= i < representation_of(tt, cs).positions[0].len() ==> {
                let c = #[trigger] representation_of(tt, cs).positions[0][i].0;
                let r = representation_of(tt, cs);
                &&& r.corners[0].0 <= c.0 < r.corners[0].0 + r.dimensions.0
                &&& 0 <= c.1 < r.dimensions.1
            },
        cs.len() >= 1 ==> 1 <= representation_of(tt, cs).dimensions.0 <= representation_of(tt, cs).cells.len(),
        cs.len() >= 1 ==> 1 <= representation_of(tt, cs).dimensions.1 <= representation_of(tt, cs).cells.len(),
{
    let cells = cells_of(tt, cs);
    let adjs = adjs_of(cells);
    lemma_cells_cardinal(cells, tt, cs);
    lemma_place_all(adjs);
    let st = place_all(adjs);
    let l = kept_len(cs.len() as int, st);
    let kept = st.positions.take(l);
    assert forall|q: int| 0 <= q < kept.len() implies within(#[trigger] kept[q], 127) by {
        assert(kept[q] == st.positions[q]);
        assert(within(st.positions[q], cs.len() as int));
    }
    lemma_bbox_bounds(kept, 127);
    let b = bbox(kept);
    if l > 0 {
        assert(spans_ok(st.positions));
        assert(bbox(st.positions.take(l)).1 - bbox(st.positions.take(l)).0 < l);
    }
    lemma_index_entries_keys(kept);
    let r = representation_of(tt, cs);
    assert(r.positions[0] == index_entries(kept));
    assert forall|i: int| 0 <= i < r.positions[0].len() implies {
        let c = #[trigger] r.positions[0][i].0;
        &&& r.corners[0].0 <= c.0 < r.corners[0].0 + r.dimensions.0
        &&& 0 <= c.1 < r.dimensions.1
    } by {
        let c = r.positions[0][i].0;
        assert(kept.contains(c));
        let q = choose|q: int| 0 <= q < kept.len() && kept[q] == c;
        lemma_bbox_contains(kept, q);
    }
}

/// Crossing a genome with itself at the same cut gives the same genome back.
pub proof fn lemma_crossover_with_itself(a: Seq<Chromosome>, cp: int, allele: int, bit: u8)
    requires
        0 <= cp < a.len(),
        0 <= allele < 4,
        bit < 8,
    ensures
        crossover_chromosomes(a, a, cp, allele, bit, cp) == a,
{
    let x = a[cp];
    assert forall|v: u8| #[trigger] crossover_byte(v, v, bit) == v by {
        assert((v & !(0xFFu8 >> bit)) | (v & (0xFFu8 >> bit)) == v) by (bit_vector);
    }
    assert(crossover_byte(x[allele], x[allele], bit) == x[allele]);
    let lk = link_chromosome(x, x, allele, bit);
    assert(lk@ =~= x@);
    assert(lk == x);
    assert(crossover_chromosomes(a, a, cp, allele, bit, cp) =~= a);
}

/// Mutations keep the genome's length, and leave every chromosome they do not name as
/// it was.
pub proof fn lemma_mutations_local(cs: Seq<Chromosome>, muts: Seq<ChromosomeMutation>, i: int)
    requires
        mutations_fit(cs.len() as int, muts),
        0 <= i < cs.len(),
        forall|j: int| 0 <= j < muts.len() ==> (#[trigger] muts[j]).0 != i,
    ensures
        apply_mutations(cs, muts).len() == cs.len(),
        apply_mutations(cs, muts)[i] == cs[i],
    decreases muts.len(),
{
    if muts.len() > 0 {
        let pre = muts.drop_last();
        assert forall|j: int| 0 <= j < pre.len() implies (#[trigger] pre[j]).0 < cs.len() && pre[j].1 < 4 by {
            assert(pre[j] == muts[j]);
        }
        assert forall|j: int| 0 <= j < pre.len() implies (#[trigger] pre[j]).0 != i by {
            assert(pre[j] == muts[j]);
        }
        lemma_mutations_local(cs, pre, i);
        assert(muts.last() == muts[muts.len() - 1]);
    }
}

/// A grown body's layout turned four quarter turns is the unturned layout again.
pub proof fn lemma_body_turns_back(tt: Seq<(TTKey, PolyminiTrait)>, cs: Seq<Chromosome>)
    requires
        cs.len() <= 127,
    ensures
        rotate_entries(representation_of(tt, cs).positions[3]) == representation_of(tt, cs).positions[0],
{
    lemma_body_shape(tt, cs);
    let r = representation_of(tt, cs);
    let e = r.positions[0];
    assert forall|i: int| 0 <= i < e.len() implies (#[trigger] e[i]).0.0 > -128 && e[i].0.1 > -128 by {
        let c = e[i].0;
        assert(r.corners[0].0 <= c.0 < r.corners[0].0 + r.dimensions.0);
    }
    lemma_rotate_four_times(e);
}


/// A body's sensors feed one input each, and there are no more of them than cells.
pub proof fn lemma_sensor_inputs(cells: Seq<CellView>)
    ensures
        total_cardinality(sensors_of(cells)) == sensors_of(cells).len(),
        sensors_of(cells).len() <= cells.len(),
    decreases cells.len(),
{
    if cells.len() > 0 {
        lemma_sensor_inputs(cells.drop_last());
        let rest = sensors_of(cells.drop_last());
        if let PolyminiTrait::PolyminiSensor(t) = cells.last().pm_trait.pm_trait {
            assert(sensors_of(cells).drop_last() =~= rest);
        }
    }
}

} // verus!
