use vstd::prelude::*;

verus! {

/// What a body in the physics world is.
#[derive(Clone, Copy, Debug, PartialEq, Eq, Structural)]
pub enum BodyKind {
    Polymini,
    StaticObject,
}

/// When two bodies overlap while the world is being laid out, the one that is
/// moved away: a creature rather than a static object, and of two creatures the
/// one with the higher id. Of two static objects the second is moved.
pub open spec fn first_is_moved(k1: BodyKind, uid1: usize, k2: BodyKind, uid2: usize) -> bool {
    match k1 {
        BodyKind::Polymini => match k2 {
            BodyKind::Polymini => uid1 > uid2,
            BodyKind::StaticObject => true,
        },
        BodyKind::StaticObject => false,
    }
}

/// Whether the first of two overlapping bodies is the one moved during layout.
pub fn placement_moves_first(k1: BodyKind, uid1: usize, k2: BodyKind, uid2: usize) -> (r: bool)
    ensures
        r == first_is_moved(k1, uid1, k2, uid2),
{
    match k1 {
        BodyKind::Polymini => match k2 {
            BodyKind::Polymini => uid1 > uid2,
            BodyKind::StaticObject => true,
        },
        BodyKind::StaticObject => false,
    }
}

/// Which body of an overlapping pair is moved does not depend on the order the
/// pair is reported in, unless both are static objects (or two creatures share an id).
pub proof fn lemma_moved_body_order_free(k1: BodyKind, uid1: usize, k2: BodyKind, uid2: usize)
    requires
        !(k1 is StaticObject && k2 is StaticObject),
        k1 is Polymini && k2 is Polymini ==> uid1 != uid2,
    ensures
        first_is_moved(k1, uid1, k2, uid2) == !first_is_moved(k2, uid2, k1, uid1),
{
}

/// How many passes over the overlapping pairs are made before giving up: more
/// while the world is being laid out than during a simulation step.
pub open spec fn pass_limit(placement: bool) -> u32 {
    if placement {
        500
    } else {
        200
    }
}

pub fn max_passes(placement: bool) -> (r: u32)
    ensures
        r == pass_limit(placement),
{
    if placement {
        500
    } else {
        200
    }
}

/// How far a body is pushed on a pass of the layout: a quarter of the passes
/// made so far, rounded up, and never more than 10.
pub open spec fn push_length(passes: int) -> int {
    if (passes + 3) / 4 > 10 {
        10
    } else {
        (passes + 3) / 4
    }
}

/// The push a body gets during layout: its length as above, and its direction
/// turning right, up, left, down with the pass and the pair's place in the pass.
pub open spec fn push(passes: int, pair_index: int) -> (int, int) {
    let m = push_length(passes);
    let k = (passes + pair_index) % 4;
    if k == 0 {
        (m, 0)
    } else if k == 1 {
        (0, -m)
    } else if k == 2 {
        (-m, 0)
    } else {
        (0, m)
    }
}

/// The push a body gets on a pass of the layout, as (dx, dy).
pub fn placement_push(passes: usize, pair_index: usize) -> (r: (i32, i32))
    ensures
        r.0 == push(passes as int, pair_index as int).0,
        r.1 == push(passes as int, pair_index as int).1,
{
    let quarter: usize = passes / 4;
    let m: i32 = if quarter >= 10 {
        10
    } else if passes % 4 == 0 {
        quarter as i32
    } else if quarter + 1 >= 10 {
        10
    } else {
        (quarter + 1) as i32
    };
    assert(m == push_length(passes as int));
    let k: usize = (passes % 4 + pair_index % 4) % 4;
    proof {
        vstd::arithmetic::div_mod::lemma_add_mod_noop(passes as int, pair_index as int, 4);
    }
    if k == 0 {
        (m, 0)
    } else if k == 1 {
        (0, -m)
    } else if k == 2 {
        (-m, 0)
    } else {
        (0, m)
    }
}

} // verus!
