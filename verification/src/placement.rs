use vstd::prelude::*;

use crate::types::{Coord, Direction};

verus! {

/// The neighbours a cell at `c` has in the listed directions, in order. Up is only
/// a neighbour below the top row (y > 0), so the body grows downwards from its head.
pub open spec fn neighbours(adj: Seq<Direction>, c: Coord) -> Seq<Coord>
    decreases adj.len(),
{
    if adj.len() == 0 {
        Seq::empty()
    } else {
        let rest = neighbours(adj.drop_last(), c);
        match adj.last() {
            Direction::UP => if c.1 > 0 {
                rest.push((c.0, (c.1 - 1) as i8))
            } else {
                rest
            },
            Direction::DOWN => rest.push((c.0, (c.1 + 1) as i8)),
            Direction::LEFT => rest.push(((c.0 - 1) as i8, c.1)),
            Direction::RIGHT => rest.push(((c.0 + 1) as i8, c.1)),
            _ => rest,
        }
    }
}

pub open spec fn all_cardinal(adj: Seq<Direction>) -> bool {
    forall|i: int| 0 <= i < adj.len() ==> (#[trigger] adj[i]).is_cardinal()
}

/// The state of the depth-first placement of cells on the grid.
pub struct PlaceState {
    /// Coordinates taken by a cell after the first one.
    pub visited: Seq<Coord>,
    /// Coordinates still to be visited.
    pub stack: Seq<Coord>,
    /// The coordinate of every placed cell, in placement order.
    pub positions: Seq<Coord>,
    /// The coordinate whose cell is read next.
    pub curr: Coord,
    /// Whether placement ran out of coordinates to visit.
    pub stopped: bool,
}

/// Places every coordinate of `ns` not taken yet.
pub open spec fn push_unvisited(st: PlaceState, ns: Seq<Coord>) -> PlaceState
    decreases ns.len(),
{
    if ns.len() == 0 {
        st
    } else {
        let s1 = push_unvisited(st, ns.drop_last());
        let c = ns.last();
        if s1.visited.contains(c) {
            s1
        } else {
            PlaceState {
                visited: s1.visited.push(c),
                stack: s1.stack.push(c),
                positions: s1.positions.push(c),
                curr: s1.curr,
                stopped: s1.stopped,
            }
        }
    }
}

/// Reads one cell's adjacency: places its free neighbours, then moves to the most
/// recently placed coordinate still to be visited, or stops when there is none.
pub open spec fn place_step(st: PlaceState, adj: Seq<Direction>) -> PlaceState {
    if st.stopped {
        st
    } else {
        let s1 = push_unvisited(st, neighbours(adj, st.curr));
        if s1.stack.len() == 0 {
            PlaceState {
                visited: s1.visited,
                stack: s1.stack,
                positions: s1.positions,
                curr: s1.curr,
                stopped: true,
            }
        } else {
            PlaceState {
                visited: s1.visited,
                stack: s1.stack.drop_last(),
                positions: s1.positions,
                curr: s1.stack.last(),
                stopped: false,
            }
        }
    }
}

/// The head cell sits at (0, 0).
pub open spec fn place_init() -> PlaceState {
    PlaceState {
        visited: Seq::empty(),
        stack: Seq::empty(),
        positions: seq![(0i8, 0i8)],
        curr: (0i8, 0i8),
        stopped: false,
    }
}

/// The placement after reading the adjacencies of the cells in order.
pub open spec fn place_all(adjs: Seq<Seq<Direction>>) -> PlaceState
    decreases adjs.len(),
{
    if adjs.len() == 0 {
        place_init()
    } else {
        place_step(place_all(adjs.drop_last()), adjs.last())
    }
}

pub open spec fn abs(x: int) -> int {
    if x < 0 {
        -x
    } else {
        x
    }
}

/// `c` is at most `k` steps from the head and not above it.
pub open spec fn within(c: Coord, k: int) -> bool {
    c.1 >= 0 && abs(c.0 as int) + c.1 <= k
}

pub open spec fn all_within(s: Seq<Coord>, k: int) -> bool {
    forall|i: int| 0 <= i < s.len() ==> within(#[trigger] s[i], k)
}

pub open spec fn state_within(st: PlaceState, k: int) -> bool {
    &&& within(st.curr, k)
    &&& all_within(st.stack, k)
    &&& all_within(st.positions, k)
    &&& all_within(st.visited, k)
}

/// Two coordinates one step apart.
pub open spec fn adjacent(a: Coord, b: Coord) -> bool {
    ||| a.0 == b.0 && (a.1 == b.1 + 1 || a.1 == b.1 - 1)
    ||| a.1 == b.1 && (a.0 == b.0 + 1 || a.0 == b.0 - 1)
}

pub proof fn lemma_neighbours(adj: Seq<Direction>, c: Coord, k: int)
    requires
        all_cardinal(adj),
        within(c, k),
        k < 127,
    ensures
        all_within(neighbours(adj, c), k + 1),
        forall|i: int|
            0 <= i < neighbours(adj, c).len() ==> adjacent(#[trigger] neighbours(adj, c)[i], c),
        neighbours(adj, c).len() <= adj.len(),
    decreases adj.len(),
{
    if adj.len() > 0 {
        assert forall|i: int| 0 <= i < adj.len() - 1 implies (#[trigger] adj.drop_last()[i]).is_cardinal() by {
            assert(adj.drop_last()[i] == adj[i]);
        }
        assert(adj.last() == adj[adj.len() - 1]);
        lemma_neighbours(adj.drop_last(), c, k);
    }
}

/// The bounding box (min x, max x, min y, max y) of the coordinates and the head at (0, 0).
pub open spec fn bbox(s: Seq<Coord>) -> (int, int, int, int)
    decreases s.len(),
{
    if s.len() == 0 {
        (0, 0, 0, 0)
    } else {
        let b = bbox(s.drop_last());
        let c = s.last();
        (
            if (c.0 as int) < b.0 { c.0 as int } else { b.0 },
            if (c.0 as int) > b.1 { c.0 as int } else { b.1 },
            if (c.1 as int) < b.2 { c.1 as int } else { b.2 },
            if (c.1 as int) > b.3 { c.1 as int } else { b.3 },
        )
    }
}

pub proof fn lemma_bbox_contains(s: Seq<Coord>, i: int)
    requires
        0 <= i < s.len(),
    ensures
        bbox(s).0 <= s[i].0 <= bbox(s).1,
        bbox(s).2 <= s[i].1 <= bbox(s).3,
    decreases s.len(),
{
    if i < s.len() - 1 {
        assert(s.drop_last()[i] == s[i]);
        lemma_bbox_contains(s.drop_last(), i);
    }
}

pub proof fn lemma_bbox_bounds(s: Seq<Coord>, k: int)
    requires
        all_within(s, k),
        k >= 0,
    ensures
        -k <= bbox(s).0 <= 0,
        0 <= bbox(s).1 <= k,
        bbox(s).2 == 0,
        0 <= bbox(s).3 <= k,
    decreases s.len(),
{
    if s.len() > 0 {
        assert forall|i: int| 0 <= i < s.len() - 1 implies within(#[trigger] s.drop_last()[i], k) by {
            assert(s.drop_last()[i] == s[i]);
        }
        assert(within(s[s.len() - 1], k));
        lemma_bbox_bounds(s.drop_last(), k);
    }
}

/// Every prefix of `m` coordinates spans fewer than `m` columns and fewer than `m` rows.
pub open spec fn spans_ok(ps: Seq<Coord>) -> bool {
    forall|m: int|
        1 <= m <= ps.len() ==> {
            &&& #[trigger] bbox(ps.take(m)).1 - bbox(ps.take(m)).0 < m
            &&& bbox(ps.take(m)).3 - bbox(ps.take(m)).2 < m
        }
}

/// The shape facts that hold of every placement state.
pub open spec fn shape_ok(st: PlaceState) -> bool {
    &&& st.positions.len() >= 1
    &&& st.positions[0] == (0i8, 0i8)
    &&& st.positions.contains(st.curr)
    &&& forall|i: int| 0 <= i < st.stack.len() ==> st.positions.contains(#[trigger] st.stack[i])
    &&& spans_ok(st.positions)
}

proof fn lemma_spans_push(ps: Seq<Coord>, c: Coord, n: Coord)
    requires
        spans_ok(ps),
        ps.len() >= 1,
        ps[0] == (0i8, 0i8),
        ps.contains(c),
        adjacent(n, c),
    ensures
        spans_ok(ps.push(n)),
{
    let q = ps.push(n);
    assert(q.drop_last() =~= ps);
    let j = choose|j: int| 0 <= j < ps.len() && ps[j] == c;
    lemma_bbox_contains(ps, j);
    assert(ps.take(ps.len() as int) =~= ps);
    assert forall|m: int| 1 <= m <= q.len() implies {
        &&& #[trigger] bbox(q.take(m)).1 - bbox(q.take(m)).0 < m
        &&& bbox(q.take(m)).3 - bbox(q.take(m)).2 < m
    } by {
        if m <= ps.len() {
            assert(q.take(m) =~= ps.take(m));
        } else {
            assert(q.take(m) =~= q);
        }
    }
}

proof fn lemma_push_unvisited(st: PlaceState, ns: Seq<Coord>, k: int)
    requires
        shape_ok(st),
        state_within(st, k),
        all_within(ns, k),
        forall|i: int| 0 <= i < ns.len() ==> adjacent(#[trigger] ns[i], st.curr),
    ensures
        shape_ok(push_unvisited(st, ns)),
        state_within(push_unvisited(st, ns), k),
        push_unvisited(st, ns).curr == st.curr,
        push_unvisited(st, ns).stopped == st.stopped,
        push_unvisited(st, ns).stack.len() >= st.stack.len(),
    decreases ns.len(),
{
    if ns.len() > 0 {
        let pre = ns.drop_last();
        assert forall|i: int| 0 <= i < pre.len() implies adjacent(#[trigger] pre[i], st.curr) by {
            assert(pre[i] == ns[i]);
        }
        assert forall|i: int| 0 <= i < pre.len() implies within(#[trigger] pre[i], k) by {
            assert(pre[i] == ns[i]);
        }
        lemma_push_unvisited(st, pre, k);
        let s1 = push_unvisited(st, pre);
        let c = ns.last();
        assert(adjacent(ns[ns.len() - 1], st.curr));
        assert(within(ns[ns.len() - 1], k));
        if !s1.visited.contains(c) {
            let s2 = push_unvisited(st, ns);
            lemma_spans_push(s1.positions, s1.curr, c);
            assert(s2.positions[0] == s1.positions[0]);
            let jc = choose|j: int| 0 <= j < s1.positions.len() && s1.positions[j] == s1.curr;
            assert(s2.positions[jc] == s1.curr);
            assert forall|i: int| 0 <= i < s2.stack.len() implies s2.positions.contains(
                #[trigger] s2.stack[i],
            ) by {
                if i < s1.stack.len() {
                    assert(s2.stack[i] == s1.stack[i]);
                    assert(s1.positions.contains(s1.stack[i]));
                    let j = choose|j: int| 0 <= j < s1.positions.len() && s1.positions[j] == s1.stack[i];
                    assert(s2.positions[j] == s1.positions[j]);
                } else {
                    assert(s2.positions[s2.positions.len() - 1] == c);
                }
            }
            assert forall|i: int| 0 <= i < s2.stack.len() implies within(#[trigger] s2.stack[i], k) by {
                if i < s1.stack.len() {
                    assert(s2.stack[i] == s1.stack[i]);
                }
            }
            assert forall|i: int| 0 <= i < s2.positions.len() implies within(#[trigger] s2.positions[i], k) by {
                if i < s1.positions.len() {
                    assert(s2.positions[i] == s1.positions[i]);
                }
            }
            assert forall|i: int| 0 <= i < s2.visited.len() implies within(#[trigger] s2.visited[i], k) by {
                if i < s1.visited.len() {
                    assert(s2.visited[i] == s1.visited[i]);
                }
            }
        }
    }
}

proof fn lemma_within_mono(st: PlaceState, k: int)
    requires
        state_within(st, k),
    ensures
        state_within(st, k + 1),
{
}

/// What holds of the placement after `adjs.len()` cells: its shape, and that every
/// coordinate is at most `adjs.len()` steps from the head and not above it.
pub proof fn lemma_place_all(adjs: Seq<Seq<Direction>>)
    requires
        adjs.len() <= 127,
        forall|i: int| 0 <= i < adjs.len() ==> all_cardinal(#[trigger] adjs[i]),
    ensures
        shape_ok(place_all(adjs)),
        state_within(place_all(adjs), adjs.len() as int),
    decreases adjs.len(),
{
    if adjs.len() == 0 {
        let st = place_init();
        assert(st.positions[0] == (0i8, 0i8));
        assert(st.positions.contains(st.curr));
        assert forall|m: int| 1 <= m <= st.positions.len() implies {
            &&& #[trigger] bbox(st.positions.take(m)).1 - bbox(st.positions.take(m)).0 < m
            &&& bbox(st.positions.take(m)).3 - bbox(st.positions.take(m)).2 < m
        } by {
            assert(st.positions.take(m) =~= st.positions);
            assert(st.positions.take(m).drop_last() =~= Seq::<Coord>::empty());
            assert(st.positions.take(m).last() == (0i8, 0i8));
            assert(bbox(st.positions.take(m).drop_last()) == (0int, 0int, 0int, 0int));
            assert(bbox(st.positions.take(m)) == (0int, 0int, 0int, 0int));
        }
    } else {
        let pre = adjs.drop_last();
        assert forall|i: int| 0 <= i < pre.len() implies all_cardinal(#[trigger] pre[i]) by {
            assert(pre[i] == adjs[i]);
        }
        lemma_place_all(pre);
        let st = place_all(pre);
        let k = pre.len() as int;
        lemma_within_mono(st, k);
        if !st.stopped {
            let adj = adjs.last();
            assert(all_cardinal(adjs[adjs.len() - 1]));
            lemma_neighbours(adj, st.curr, k);
            let ns = neighbours(adj, st.curr);
            lemma_push_unvisited(st, ns, k + 1);
            let s1 = push_unvisited(st, ns);
            if s1.stack.len() > 0 {
                let s2 = place_step(st, adj);
                assert(s2.curr == s1.stack[s1.stack.len() - 1]);
                assert forall|i: int| 0 <= i < s2.stack.len() implies s2.positions.contains(
                    #[trigger] s2.stack[i],
                ) by {
                    assert(s2.stack[i] == s1.stack[i]);
                }
                assert forall|i: int| 0 <= i < s2.stack.len() implies within(#[trigger] s2.stack[i], k + 1) by {
                    assert(s2.stack[i] == s1.stack[i]);
                }
            }
        }
    }
}

/// Placing a cell's neighbours only appends: the coordinates placed before stay,
/// and the coordinates newly placed are pushed on the stack, in the order placed.
pub proof fn lemma_push_unvisited_appends(st: PlaceState, ns: Seq<Coord>)
    ensures
        push_unvisited(st, ns).positions.len() >= st.positions.len(),
        push_unvisited(st, ns).positions.subrange(0, st.positions.len() as int) == st.positions,
        push_unvisited(st, ns).stack == st.stack + push_unvisited(st, ns).positions.subrange(
            st.positions.len() as int,
            push_unvisited(st, ns).positions.len() as int,
        ),
        push_unvisited(st, ns).curr == st.curr,
        push_unvisited(st, ns).stopped == st.stopped,
    decreases ns.len(),
{
    if ns.len() > 0 {
        lemma_push_unvisited_appends(st, ns.drop_last());
        let s1 = push_unvisited(st, ns.drop_last());
        let s2 = push_unvisited(st, ns);
        let l = st.positions.len() as int;
        if !s1.visited.contains(ns.last()) {
            assert(s2.positions.subrange(0, l) =~= s1.positions.subrange(0, l));
            assert(s2.positions.subrange(l, s2.positions.len() as int) =~= s1.positions.subrange(
                l,
                s1.positions.len() as int,
            ).push(ns.last()));
            assert(s2.stack =~= st.stack + s2.positions.subrange(l, s2.positions.len() as int));
        }
    }
}

/// Placement is depth first. After a cell's free neighbours are placed, the next
/// cell is read at the last coordinate it placed; the others wait on the stack in
/// the order placed, after the coordinates that were waiting before. A cell that
/// places nothing sends the next cell to the coordinate placed most recently of
/// those still waiting; with none waiting, placement stops.
pub proof fn lemma_depth_first(st: PlaceState, adj: Seq<Direction>)
    requires
        !st.stopped,
    ensures
        place_step(st, adj).positions == push_unvisited(st, neighbours(adj, st.curr)).positions,
        push_unvisited(st, neighbours(adj, st.curr)).positions.len() > st.positions.len() ==> {
            &&& !place_step(st, adj).stopped
            &&& place_step(st, adj).curr == place_step(st, adj).positions.last()
            &&& place_step(st, adj).stack == st.stack + place_step(st, adj).positions.subrange(
                st.positions.len() as int,
                place_step(st, adj).positions.len() - 1,
            )
        },
        push_unvisited(st, neighbours(adj, st.curr)).positions.len() == st.positions.len() && st.stack.len()
            > 0 ==> {
            &&& !place_step(st, adj).stopped
            &&& place_step(st, adj).curr == st.stack.last()
            &&& place_step(st, adj).stack == st.stack.drop_last()
        },
        push_unvisited(st, neighbours(adj, st.curr)).positions.len() == st.positions.len() && st.stack.len()
            == 0 ==> place_step(st, adj).stopped,
{
    let ns = neighbours(adj, st.curr);
    lemma_push_unvisited_appends(st, ns);
    let s1 = push_unvisited(st, ns);
    let l = st.positions.len() as int;
    let added = s1.positions.subrange(l, s1.positions.len() as int);
    if s1.positions.len() > st.positions.len() {
        assert(s1.stack.last() == added.last());
        assert(added.last() == s1.positions.last());
        assert(s1.stack.drop_last() =~= st.stack + s1.positions.subrange(l, s1.positions.len() - 1));
    } else {
        assert(added =~= Seq::<Coord>::empty());
        assert(s1.stack =~= st.stack);
    }
}

/// Once placement stops, reading more cells changes nothing.
pub proof fn lemma_place_all_stopped(adjs: Seq<Seq<Direction>>, k: int)
    requires
        0 <= k <= adjs.len(),
        place_all(adjs.take(k)).stopped,
    ensures
        place_all(adjs) == place_all(adjs.take(k)),
    decreases adjs.len() - k,
{
    if k < adjs.len() {
        assert(adjs.take(k + 1).drop_last() =~= adjs.take(k));
        lemma_place_all_stopped(adjs, k + 1);
    } else {
        assert(adjs.take(k) =~= adjs);
    }
}

} // verus!
