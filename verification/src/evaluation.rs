use vstd::prelude::*;

use crate::instincts::Instinct;
use crate::json::str_eq;

verus! {

/// Something an individual did, or was, during an epoch; fitness is scored from
/// the list of these.
#[derive(Clone, Copy, Debug, PartialEq, Eq, Hash)]
pub enum FitnessStatistic {
    NoOp,
    Moved,
    ConsumedFoodSource,
    PositionVisited((u32, u32)),
    DistanceTravelled(u32),
    TotalCells(usize),
    FinalPosition(u8, u8),
    Died(u32, u32),
}

/// The ways an individual's statistics can be scored (each carries a weight,
/// and the target position one a target as well).
#[derive(Clone, Copy, Debug, PartialEq, Eq, Hash, Structural)]
pub enum EvaluatorKind {
    OverallMovement,
    DistanceTravelled,
    TargetPosition,
    PositionsVisited,
    Shape,
    Alive,
}

/// The identifier an evaluator is written out with.
pub open spec fn evaluator_id(k: EvaluatorKind) -> Seq<char> {
    match k {
        EvaluatorKind::OverallMovement => "overallmovement"@,
        EvaluatorKind::DistanceTravelled => "distancetravelled"@,
        EvaluatorKind::TargetPosition => "targetposition"@,
        EvaluatorKind::PositionsVisited => "positionsvisited"@,
        EvaluatorKind::Shape => "shape"@,
        EvaluatorKind::Alive => "alive"@,
    }
}

/// The evaluator an identifier names, if any.
pub open spec fn evaluator_from_id(s: Seq<char>) -> Option<EvaluatorKind> {
    if s == "overallmovement"@ {
        Some(EvaluatorKind::OverallMovement)
    } else if s == "distancetravelled"@ {
        Some(EvaluatorKind::DistanceTravelled)
    } else if s == "shape"@ {
        Some(EvaluatorKind::Shape)
    } else if s == "positionsvisited"@ {
        Some(EvaluatorKind::PositionsVisited)
    } else if s == "targetposition"@ {
        Some(EvaluatorKind::TargetPosition)
    } else if s == "alive"@ {
        Some(EvaluatorKind::Alive)
    } else {
        None
    }
}

/// The instinct under which an evaluator's score is accumulated.
pub open spec fn scored_instinct(k: EvaluatorKind) -> Instinct {
    match k {
        EvaluatorKind::OverallMovement => Instinct::Nomadic,
        EvaluatorKind::DistanceTravelled => Instinct::Nomadic,
        EvaluatorKind::PositionsVisited => Instinct::Nomadic,
        EvaluatorKind::Shape => Instinct::Hoarding,
        EvaluatorKind::Alive => Instinct::Basic,
        EvaluatorKind::TargetPosition => Instinct::Basic,
    }
}

impl EvaluatorKind {
    pub fn id(&self) -> (r: &'static str)
        ensures
            r@ == evaluator_id(*self),
    {
        match self {
            EvaluatorKind::OverallMovement => "overallmovement",
            EvaluatorKind::DistanceTravelled => "distancetravelled",
            EvaluatorKind::TargetPosition => "targetposition",
            EvaluatorKind::PositionsVisited => "positionsvisited",
            EvaluatorKind::Shape => "shape",
            EvaluatorKind::Alive => "alive",
        }
    }

    pub fn from_id(s: &str) -> (r: Option<EvaluatorKind>)
        ensures
            r == evaluator_from_id(s@),
    {
        if str_eq(s, "overallmovement") {
            Some(EvaluatorKind::OverallMovement)
        } else if str_eq(s, "distancetravelled") {
            Some(EvaluatorKind::DistanceTravelled)
        } else if str_eq(s, "shape") {
            Some(EvaluatorKind::Shape)
        } else if str_eq(s, "positionsvisited") {
            Some(EvaluatorKind::PositionsVisited)
        } else if str_eq(s, "targetposition") {
            Some(EvaluatorKind::TargetPosition)
        } else if str_eq(s, "alive") {
            Some(EvaluatorKind::Alive)
        } else {
            None
        }
    }

    /// The instinct this evaluator's score counts towards.
    pub fn scored_instinct(&self) -> (r: Instinct)
        ensures
            r == scored_instinct(*self),
    {
        match self {
            EvaluatorKind::OverallMovement => Instinct::Nomadic,
            EvaluatorKind::DistanceTravelled => Instinct::Nomadic,
            EvaluatorKind::PositionsVisited => Instinct::Nomadic,
            EvaluatorKind::Shape => Instinct::Hoarding,
            EvaluatorKind::Alive => Instinct::Basic,
            EvaluatorKind::TargetPosition => Instinct::Basic,
        }
    }
}

/// Reading back the identifier an evaluator is written out with gives the same evaluator.
pub proof fn lemma_evaluator_id_roundtrip(k: EvaluatorKind)
    ensures
        evaluator_from_id(evaluator_id(k)) == Some(k),
{
    reveal_strlit("overallmovement");
    reveal_strlit("distancetravelled");
    reveal_strlit("targetposition");
    reveal_strlit("positionsvisited");
    reveal_strlit("shape");
    reveal_strlit("alive");
    let ids = seq![
        "overallmovement"@,
        "distancetravelled"@,
        "shape"@,
        "positionsvisited"@,
        "targetposition"@,
        "alive"@,
    ];
    assert(ids[0].len() == 15 && ids[1].len() == 17 && ids[2].len() == 5);
    assert(ids[3].len() == 16 && ids[4].len() == 14 && ids[5].len() == 5);
    assert(ids[2][0] != ids[5][0]);
}

/// How many times the individual moved.
pub open spec fn moves(s: Seq<FitnessStatistic>) -> nat
    decreases s.len(),
{
    if s.len() == 0 {
        0
    } else {
        moves(s.drop_last()) + if s.last() is Moved { 1nat } else { 0nat }
    }
}

/// The distances travelled, in the order recorded.
pub open spec fn distances(s: Seq<FitnessStatistic>) -> Seq<u32>
    decreases s.len(),
{
    if s.len() == 0 {
        Seq::empty()
    } else {
        let rest = distances(s.drop_last());
        match s.last() {
            FitnessStatistic::DistanceTravelled(d) => rest.push(d),
            _ => rest,
        }
    }
}

/// The cell counts of the body, in the order recorded.
pub open spec fn cell_counts(s: Seq<FitnessStatistic>) -> Seq<usize>
    decreases s.len(),
{
    if s.len() == 0 {
        Seq::empty()
    } else {
        let rest = cell_counts(s.drop_last());
        match s.last() {
            FitnessStatistic::TotalCells(c) => rest.push(c),
            _ => rest,
        }
    }
}

/// The deaths recorded, each as the step of death and the steps there were, in order.
pub open spec fn deaths(s: Seq<FitnessStatistic>) -> Seq<(u32, u32)>
    decreases s.len(),
{
    if s.len() == 0 {
        Seq::empty()
    } else {
        let rest = deaths(s.drop_last());
        match s.last() {
            FitnessStatistic::Died(step, max) => rest.push((step, max)),
            _ => rest,
        }
    }
}

/// The last final position recorded, if any.
pub open spec fn final_position(s: Seq<FitnessStatistic>) -> Option<(u8, u8)>
    decreases s.len(),
{
    if s.len() == 0 {
        None
    } else {
        match s.last() {
            FitnessStatistic::FinalPosition(x, y) => Some((x, y)),
            _ => final_position(s.drop_last()),
        }
    }
}

/// The positions the individual visited.
pub open spec fn visited(s: Seq<FitnessStatistic>) -> Set<(u32, u32)>
    decreases s.len(),
{
    if s.len() == 0 {
        Set::empty()
    } else {
        let rest = visited(s.drop_last());
        match s.last() {
            FitnessStatistic::PositionVisited(p) => rest.insert(p),
            _ => rest,
        }
    }
}

/// The columns of the positions the individual visited.
pub open spec fn visited_columns(s: Seq<FitnessStatistic>) -> Set<u32>
    decreases s.len(),
{
    if s.len() == 0 {
        Set::empty()
    } else {
        let rest = visited_columns(s.drop_last());
        match s.last() {
            FitnessStatistic::PositionVisited(p) => rest.insert(p.0),
            _ => rest,
        }
    }
}

/// The rows of the positions the individual visited.
pub open spec fn visited_rows(s: Seq<FitnessStatistic>) -> Set<u32>
    decreases s.len(),
{
    if s.len() == 0 {
        Set::empty()
    } else {
        let rest = visited_rows(s.drop_last());
        match s.last() {
            FitnessStatistic::PositionVisited(p) => rest.insert(p.1),
            _ => rest,
        }
    }
}

pub proof fn lemma_moves_bound(s: Seq<FitnessStatistic>)
    ensures
        moves(s) <= s.len(),
    decreases s.len(),
{
    if s.len() > 0 {
        lemma_moves_bound(s.drop_last());
    }
}

/// What the evaluators read from an individual's statistics: each kind of
/// statistic, in the order recorded.
pub struct StatisticsSummary {
    /// How many moves were made.
    pub moves: usize,
    /// The distances travelled.
    pub distances: Vec<u32>,
    /// The cell counts of the body.
    pub cell_counts: Vec<usize>,
    /// The deaths, as (step, steps there were).
    pub deaths: Vec<(u32, u32)>,
    /// The last final position, scaled to 0..=255 on each axis.
    pub final_position: Option<(u8, u8)>,
    /// How many distinct positions were visited.
    pub positions_visited: usize,
    /// Whether the visited positions span more than one column and more than one row.
    pub visited_both_axes: bool,
}

fn contains_position(v: &Vec<(u32, u32)>, p: (u32, u32)) -> (r: bool)
    ensures
        r == v@.contains(p),
{
    let mut i: usize = 0;
    while i < v.len()
        invariant
            i <= v.len(),
            forall|j: int| 0 <= j < i ==> v@[j] != p,
        decreases v.len() - i,
    {
        let q = v[i];
        if q.0 == p.0 && q.1 == p.1 {
            return true;
        }
        i = i + 1;
    }
    false
}

fn contains_u32(v: &Vec<u32>, x: u32) -> (r: bool)
    ensures
        r == v@.contains(x),
{
    let mut i: usize = 0;
    while i < v.len()
        invariant
            i <= v.len(),
            forall|j: int| 0 <= j < i ==> v@[j] != x,
        decreases v.len() - i,
    {
        if v[i] == x {
            return true;
        }
        i = i + 1;
    }
    false
}

/// Counts the distinct positions visited, and tells whether they span more than
/// one column and more than one row.
pub fn positions_visited(stats: &Vec<FitnessStatistic>) -> (r: (usize, bool))
    ensures
        r.0 == visited(stats@).len(),
        r.1 == (visited_columns(stats@).len() > 1 && visited_rows(stats@).len() > 1),
{
    let mut seen: Vec<(u32, u32)> = Vec::new();
    let mut xs: Vec<u32> = Vec::new();
    let mut ys: Vec<u32> = Vec::new();
    let mut i: usize = 0;
    while i < stats.len()
        invariant
            i <= stats.len(),
            seen@.no_duplicates(),
            xs@.no_duplicates(),
            ys@.no_duplicates(),
            seen@.to_set() == visited(stats@.take(i as int)),
            xs@.to_set() == visited_columns(stats@.take(i as int)),
            ys@.to_set() == visited_rows(stats@.take(i as int)),
            seen.len() <= i,
            xs.len() <= i,
            ys.len() <= i,
        decreases stats.len() - i,
    {
        let ghost pre = stats@.take(i as int);
        let ghost cur = stats@.take(i as int + 1);
        assert(cur.drop_last() =~= pre);
        assert(cur.last() == stats@[i as int]);
        match stats[i] {
            FitnessStatistic::PositionVisited(p) => {
                if !contains_position(&seen, p) {
                    proof {
                        seen@.lemma_push_to_set_commute(p);
                    }
                    seen.push(p);
                }
                if !contains_u32(&xs, p.0) {
                    proof {
                        xs@.lemma_push_to_set_commute(p.0);
                    }
                    xs.push(p.0);
                }
                if !contains_u32(&ys, p.1) {
                    proof {
                        ys@.lemma_push_to_set_commute(p.1);
                    }
                    ys.push(p.1);
                }
                proof {
                    assert(seen@.to_set() =~= visited(cur));
                    assert(xs@.to_set() =~= visited_columns(cur));
                    assert(ys@.to_set() =~= visited_rows(cur));
                }
            },
            _ => {},
        }
        i = i + 1;
    }
    proof {
        assert(stats@.take(stats.len() as int) =~= stats@);
        seen@.unique_seq_to_set();
        xs@.unique_seq_to_set();
        ys@.unique_seq_to_set();
    }
    (seen.len(), xs.len() > 1 && ys.len() > 1)
}

/// Sorts an individual's statistics by what each evaluator reads.
pub fn summarize(stats: &Vec<FitnessStatistic>) -> (r: StatisticsSummary)
    ensures
        r.moves == moves(stats@),
        r.distances@ == distances(stats@),
        r.cell_counts@ == cell_counts(stats@),
        r.deaths@ == deaths(stats@),
        r.final_position == final_position(stats@),
        r.positions_visited == visited(stats@).len(),
        r.visited_both_axes == (visited_columns(stats@).len() > 1 && visited_rows(stats@).len() > 1),
{
    let mut moved: usize = 0;
    let mut ds: Vec<u32> = Vec::new();
    let mut cs: Vec<usize> = Vec::new();
    let mut dead: Vec<(u32, u32)> = Vec::new();
    let mut fin: Option<(u8, u8)> = None;
    let mut i: usize = 0;
    while i < stats.len()
        invariant
            i <= stats.len(),
            moved == moves(stats@.take(i as int)),
            ds@ == distances(stats@.take(i as int)),
            cs@ == cell_counts(stats@.take(i as int)),
            dead@ == deaths(stats@.take(i as int)),
            fin == final_position(stats@.take(i as int)),
        decreases stats.len() - i,
    {
        let ghost pre = stats@.take(i as int);
        let ghost cur = stats@.take(i as int + 1);
        assert(cur.drop_last() =~= pre);
        assert(cur.last() == stats@[i as int]);
        proof {
            lemma_moves_bound(cur);
        }
        match stats[i] {
            FitnessStatistic::Moved => {
                moved = moved + 1;
            },
            FitnessStatistic::DistanceTravelled(d) => {
                ds.push(d);
            },
            FitnessStatistic::TotalCells(c) => {
                cs.push(c);
            },
            FitnessStatistic::Died(step, max) => {
                dead.push((step, max));
            },
            FitnessStatistic::FinalPosition(x, y) => {
                fin = Some((x, y));
            },
            _ => {},
        }
        i = i + 1;
    }
    assert(stats@.take(stats.len() as int) =~= stats@);
    let (count, both) = positions_visited(stats);
    StatisticsSummary {
        moves: moved,
        distances: ds,
        cell_counts: cs,
        deaths: dead,
        final_position: fin,
        positions_visited: count,
        visited_both_axes: both,
    }
}

} // verus!
