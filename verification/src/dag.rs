//! The dependency graph scheduler: from a column selection it derives the
//! dependency relation, rejects selections whose dependencies are absent or
//! cyclic, and linearizes the rest into one deterministic evaluation order
//! that can be consumed sequentially and rewound.
//!
//! Among the many valid topological orders the scheduler always picks the
//! same one: at every step the earliest declared column (input columns
//! first, then helpers, then metrics, each list front to back) whose
//! dependencies have all been placed. Ties therefore break by original
//! declaration order, and the order is reproducible across repeated builds
//! of the same selection.

use vstd::prelude::*;
use vstd::seq_lib::*;
use vstd::set_lib::lemma_len_subset;
use crate::column_metadata::{contains_col, ColumnMetadata};
use crate::mpc_view::MPCView;

verus! {

/// A configuration defect found while building the scheduler; both are
/// fatal and reported at construction time, never silently ignored.
#[derive(Clone, Copy, Debug, PartialEq, Eq, Structural)]
pub enum DagError {
    /// Some declared column depends on a column absent from the selection.
    MissingDependency,
    /// The declared dependencies contain a cycle, so no evaluation order
    /// can satisfy them.
    CycleDetected,
}

/// The node list the scheduler works over: the declared input, helper, and
/// metric columns, concatenated in declaration order.
pub open spec fn view_nodes<T: ColumnMetadata>(view: &MPCView<T>) -> Seq<T> {
    view.input_columns_spec() + view.helper_columns_spec() + view.metrics_spec()
}

/// Whether some declared column has a dependency that is not itself among
/// the declared nodes.
pub open spec fn has_missing_dep<T: ColumnMetadata>(nodes: Seq<T>) -> bool {
    exists|i: int, j: int|
        0 <= i < nodes.len() && 0 <= j < nodes[i].spec_dependencies().len() && !nodes.contains(
            nodes[i].spec_dependencies()[j],
        )
}

/// Whether `c` is a dependency cycle among `nodes`: a nonempty sequence of
/// declared columns in which each depends on the next, wrapping around.
pub open spec fn is_cycle<T: ColumnMetadata>(nodes: Seq<T>, c: Seq<T>) -> bool {
    &&& c.len() > 0
    &&& forall|i: int| 0 <= i < c.len() ==> nodes.contains(#[trigger] c[i])
    &&& forall|i: int|
        0 <= i < c.len() ==> (#[trigger] c[i]).spec_dependencies().contains(
            c[(i + 1) % (c.len() as int)],
        )
}

/// Whether the declared dependencies contain a cycle.
pub open spec fn has_cycle<T: ColumnMetadata>(nodes: Seq<T>) -> bool {
    exists|c: Seq<T>| is_cycle(nodes, c)
}

/// Whether every dependency of `c` has already been placed.
pub open spec fn ready<T: ColumnMetadata>(c: T, placed: Seq<T>) -> bool {
    forall|j: int|
        0 <= j < c.spec_dependencies().len() ==> placed.contains(
            #[trigger] c.spec_dependencies()[j],
        )
}

/// The least index at or after `i` of a declared column that is not yet
/// placed and whose dependencies are all placed; `None` when there is none.
pub open spec fn first_ready_from<T: ColumnMetadata>(
    nodes: Seq<T>,
    placed: Seq<T>,
    i: int,
) -> Option<int>
    decreases nodes.len() - i,
{
    if i < 0 || i >= nodes.len() {
        None
    } else if !placed.contains(nodes[i]) && ready(nodes[i], placed) {
        Some(i)
    } else {
        first_ready_from(nodes, placed, i + 1)
    }
}

/// Runs the greedy scheduling step up to `fuel` times: each step appends
/// the earliest declared column that is ready, and the run stops early when
/// no column is.
pub open spec fn schedule_rec<T: ColumnMetadata>(nodes: Seq<T>, placed: Seq<T>, fuel: nat) -> Seq<
    T,
>
    decreases fuel,
{
    if fuel == 0 {
        placed
    } else {
        match first_ready_from(nodes, placed, 0) {
            None => placed,
            Some(i) => schedule_rec(nodes, placed.push(nodes[i]), (fuel - 1) as nat),
        }
    }
}

/// The scheduler's evaluation order for the declared nodes: greedy,
/// deterministic, and breaking every tie by declaration order. When the
/// dependencies are acyclic and complete it places every declared column;
/// a cycle leaves its members unplaced.
pub open spec fn spec_schedule<T: ColumnMetadata>(nodes: Seq<T>) -> Seq<T> {
    schedule_rec(nodes, Seq::empty(), nodes.len() as nat)
}

/// What remains of the scheduler's order from the cursor on: the value the
/// `k`-th upcoming `next_column` call will return.
pub open spec fn next_result<T: ColumnMetadata>(order: Seq<T>, cursor: int, k: int) -> Option<T> {
    if 0 <= k && 0 <= cursor && cursor + k < order.len() {
        Some(order[cursor + k])
    } else {
        None
    }
}

/// The dependency scheduler: a linearized evaluation order over the
/// declared columns, consumed through an internal cursor.
pub struct Dag<T: ColumnMetadata> {
    sorted_columns: Vec<T>,
    current_index: usize,
}

impl<T: ColumnMetadata> Dag<T> {
    /// The evaluation order, fixed at construction.
    pub closed spec fn order_spec(&self) -> Seq<T> {
        self.sorted_columns@
    }

    /// How many columns have been consumed since the last reset.
    pub closed spec fn cursor_spec(&self) -> int {
        self.current_index as int
    }

    /// The cursor never runs past the end of the order.
    pub closed spec fn wf(&self) -> bool {
        self.current_index <= self.sorted_columns@.len()
    }

    /// Returns the next column in evaluation order and advances the
    /// cursor, or `None` once the order has been fully consumed.
    pub fn next_column(&mut self) -> (r: Option<T>)
        requires
            old(self).wf(),
        ensures
            final(self).wf(),
            final(self).order_spec() == old(self).order_spec(),
            r == next_result(old(self).order_spec(), old(self).cursor_spec(), 0),
            final(self).cursor_spec() == (if old(self).cursor_spec()
                < old(self).order_spec().len() {
                old(self).cursor_spec() + 1
            } else {
                old(self).cursor_spec()
            }),
    {
        if self.current_index < self.sorted_columns.len() {
            let node = self.sorted_columns[self.current_index];
            self.current_index += 1;
            Some(node)
        } else {
            None
        }
    }

    /// Returns, where supported, a set of columns that share one dependency
    /// level and could be evaluated together. The interface is reserved for
    /// a per-level evaluation mode; no grouping is offered yet.
    pub fn next_columns(&mut self) -> (r: Option<Vec<T>>)
        ensures
            *final(self) == *old(self),
            r is None,
    {
        None
    }

    /// Rewinds the cursor to the start of the evaluation order without
    /// rebuilding the graph.
    pub fn reset(&mut self)
        ensures
            final(self).wf(),
            final(self).order_spec() == old(self).order_spec(),
            final(self).cursor_spec() == 0,
    {
        self.current_index = 0;
    }
}

/// Finds the earliest declared column that is not yet placed and whose
/// dependencies are all placed, exactly as `first_ready_from` says.
fn find_first_ready<T: ColumnMetadata>(nodes: &Vec<T>, placed: &Vec<T>) -> (r: Option<usize>)
    ensures
        match r {
            Some(i) => i < nodes@.len() && first_ready_from(nodes@, placed@, 0) == Some(i as int),
            None => first_ready_from(nodes@, placed@, 0) is None,
        },
{
    let n = nodes.len();
    let mut i: usize = 0;
    while i < n
        invariant
            n == nodes@.len(),
            i <= n,
            first_ready_from(nodes@, placed@, 0) == first_ready_from(nodes@, placed@, i as int),
        decreases n - i,
    {
        if !contains_col(placed, &nodes[i]) {
            let deps = nodes[i].dependencies();
            let m = deps.len();
            let mut j: usize = 0;
            let mut all_placed = true;
            while j < m
                invariant
                    m == deps@.len(),
                    deps@ == nodes@[i as int].spec_dependencies(),
                    j <= m,
                    all_placed == (forall|k: int| 0 <= k < j ==> placed@.contains(
                        #[trigger] deps@[k],
                    )),
                decreases m - j,
            {
                if !contains_col(placed, &deps[j]) {
                    all_placed = false;
                    proof {
                        assert(!placed@.contains(deps@[j as int]));
                    }
                    j = m;
                } else {
                    j += 1;
                }
            }
            if all_placed {
                proof {
                    assert(ready(nodes@[i as int], placed@));
                }
                return Some(i);
            }
            proof {
                assert(!ready(nodes@[i as int], placed@));
            }
        }
        i += 1;
    }
    None
}

/// A sequence without duplicates whose elements are all drawn from `u` is
/// no longer than `u`.
proof fn lemma_distinct_le<T>(s: Seq<T>, u: Seq<T>)
    requires
        s.no_duplicates(),
        forall|k: int| 0 <= k < s.len() ==> u.contains(#[trigger] s[k]),
    ensures
        s.len() <= u.len(),
{
    broadcast use vstd::seq_lib::seq_to_set_is_finite;

    s.unique_seq_to_set();
    u.lemma_cardinality_of_set();
    assert forall|x: T| s.to_set().contains(x) implies u.to_set().contains(x) by {
        assert(s.contains(x));
        let k = choose|k: int| 0 <= k < s.len() && s[k] == x;
        assert(u.contains(s[k]));
    }
    lemma_len_subset(s.to_set(), u.to_set());
}

/// The dependency-before-dependent discipline of a partial order: every
/// placed column's dependencies stand strictly before it.
pub open spec fn topo_sorted<T: ColumnMetadata>(s: Seq<T>) -> bool {
    forall|j: int, d: int|
        0 <= j < s.len() && 0 <= d < (#[trigger] s[j]).spec_dependencies().len() ==> s.take(
            j,
        ).contains(#[trigger] s[j].spec_dependencies()[d])
}

/// The greedy run keeps its prefix, places only declared columns, places
/// none twice, and always places a column's dependencies before it.
proof fn lemma_schedule_rec_props<T: ColumnMetadata>(nodes: Seq<T>, placed: Seq<T>, fuel: nat)
    requires
        placed.no_duplicates(),
        forall|k: int| 0 <= k < placed.len() ==> nodes.contains(#[trigger] placed[k]),
        topo_sorted(placed),
    ensures
        ({
            let s = schedule_rec(nodes, placed, fuel);
            &&& s.no_duplicates()
            &&& forall|k: int| 0 <= k < s.len() ==> nodes.contains(#[trigger] s[k])
            &&& topo_sorted(s)
            &&& placed.len() <= s.len()
            &&& s.take(placed.len() as int) == placed
        }),
    decreases fuel,
{
    let s = schedule_rec(nodes, placed, fuel);
    if fuel == 0 {
        assert(s.take(placed.len() as int) =~= placed);
    } else {
        match first_ready_from(nodes, placed, 0) {
            None => {
                assert(s.take(placed.len() as int) =~= placed);
            },
            Some(i) => {
                lemma_first_ready_some(nodes, placed, 0, i);
                let new = placed.push(nodes[i]);
                assert(new.no_duplicates()) by {
                    assert(forall|k: int|
                        0 <= k < placed.len() ==> placed[k] != nodes[i]) by {
                        assert(!placed.contains(nodes[i]));
                    }
                }
                assert(topo_sorted(new)) by {
                    assert forall|j: int, d: int|
                        0 <= j < new.len() && 0 <= d < (#[trigger] new[j]).spec_dependencies().len()
                        implies new.take(j).contains(#[trigger] new[j].spec_dependencies()[d]) by {
                        if j < placed.len() {
                            assert(new[j] == placed[j]);
                            assert(new.take(j) =~= placed.take(j));
                            assert(placed.take(j).contains(placed[j].spec_dependencies()[d]));
                        } else {
                            assert(new[j] == nodes[i]);
                            assert(new.take(j) =~= placed);
                            assert(ready(nodes[i], placed));
                            assert(placed.contains(nodes[i].spec_dependencies()[d]));
                        }
                    }
                }
                lemma_schedule_rec_props(nodes, new, (fuel - 1) as nat);
                assert(s.take(placed.len() as int) =~= s.take(new.len() as int).take(
                    placed.len() as int,
                ));
                assert(new.take(placed.len() as int) =~= placed);
            },
        }
    }
}

/// What a `Some` answer of the ready search means at its found index.
proof fn lemma_first_ready_some<T: ColumnMetadata>(nodes: Seq<T>, placed: Seq<T>, k: int, i: int)
    requires
        first_ready_from(nodes, placed, k) == Some(i),
        0 <= k,
    ensures
        k <= i < nodes.len(),
        !placed.contains(nodes[i]),
        ready(nodes[i], placed),
    decreases nodes.len() - k,
{
    if k < nodes.len() {
        if !placed.contains(nodes[k]) && ready(nodes[k], placed) {
        } else {
            lemma_first_ready_some(nodes, placed, k + 1, i);
        }
    }
}

/// What a `None` answer of the ready search means for every index.
proof fn lemma_first_ready_none<T: ColumnMetadata>(nodes: Seq<T>, placed: Seq<T>, k: int)
    requires
        first_ready_from(nodes, placed, k) is None,
        0 <= k,
    ensures
        forall|i: int|
            k <= i < nodes.len() ==> placed.contains(#[trigger] nodes[i]) || !ready(
                nodes[i],
                placed,
            ),
    decreases nodes.len() - k,
{
    if k < nodes.len() {
        lemma_first_ready_none(nodes, placed, k + 1);
    }
}

/// The scheduler's order is a valid topological order of the declared
/// columns: it never places a column twice, places only declared columns,
/// and places every dependency of a column strictly before the column.
pub proof fn lemma_schedule_topological<T: ColumnMetadata>(nodes: Seq<T>)
    ensures
        spec_schedule(nodes).no_duplicates(),
        forall|k: int|
            0 <= k < spec_schedule(nodes).len() ==> nodes.contains(#[trigger] spec_schedule(
                nodes,
            )[k]),
        topo_sorted(spec_schedule(nodes)),
{
    assert(topo_sorted(Seq::<T>::empty()));
    lemma_schedule_rec_props(nodes, Seq::empty(), nodes.len() as nat);
}

/// No member of a dependency cycle is ever placed by the scheduler: its
/// placement would need a cycle member placed strictly earlier, without
/// end.
proof fn lemma_cycle_not_at<T: ColumnMetadata>(nodes: Seq<T>, c: Seq<T>, p: int)
    requires
        is_cycle(nodes, c),
        0 <= p < spec_schedule(nodes).len(),
    ensures
        forall|j: int| 0 <= j < c.len() ==> spec_schedule(nodes)[p] != c[j],
    decreases p,
{
    let s = spec_schedule(nodes);
    lemma_schedule_topological(nodes);
    assert forall|j: int| 0 <= j < c.len() implies s[p] != c[j] by {
        if s[p] == c[j] {
            let jn = (j + 1) % (c.len() as int);
            assert(c[j].spec_dependencies().contains(c[jn]));
            let d = choose|d: int|
                0 <= d < c[j].spec_dependencies().len() && c[j].spec_dependencies()[d] == c[jn];
            assert(s.take(p).contains(s[p].spec_dependencies()[d]));
            let q = choose|q: int| 0 <= q < p && s.take(p)[q] == c[jn];
            assert(s[q] == c[jn]);
            lemma_cycle_not_at(nodes, c, q);
        }
    }
}

/// A schedule that places every declared column rules out any dependency
/// cycle among them.
proof fn lemma_complete_acyclic<T: ColumnMetadata>(nodes: Seq<T>)
    requires
        forall|i: int|
            0 <= i < nodes.len() ==> spec_schedule(nodes).contains(#[trigger] nodes[i]),
    ensures
        !has_cycle(nodes),
{
    if has_cycle(nodes) {
        let c = choose|c: Seq<T>| is_cycle(nodes, c);
        assert(nodes.contains(c[0]));
        let i = choose|i: int| 0 <= i < nodes.len() && nodes[i] == c[0];
        assert(spec_schedule(nodes).contains(nodes[i]));
        let p = choose|p: int|
            0 <= p < spec_schedule(nodes).len() && spec_schedule(nodes)[p] == c[0];
        lemma_cycle_not_at(nodes, c, p);
    }
}

/// Extends a dependency walk among unplaced columns until it closes into a
/// cycle; the walk cannot grow past the number of declared columns.
proof fn lemma_walk_closes<T: ColumnMetadata>(nodes: Seq<T>, placed: Seq<T>, w: Seq<T>)
    requires
        !has_missing_dep(nodes),
        forall|i: int|
            0 <= i < nodes.len() ==> placed.contains(#[trigger] nodes[i]) || !ready(
                nodes[i],
                placed,
            ),
        w.len() > 0,
        w.no_duplicates(),
        forall|k: int| 0 <= k < w.len() ==> nodes.contains(#[trigger] w[k]),
        forall|k: int| 0 <= k < w.len() ==> !placed.contains(#[trigger] w[k]),
        forall|k: int|
            0 <= k < w.len() - 1 ==> (#[trigger] w[k]).spec_dependencies().contains(w[k + 1]),
    ensures
        has_cycle(nodes),
    decreases nodes.len() - w.len(),
{
    let last = w.last();
    assert(nodes.contains(last));
    let li = choose|li: int| 0 <= li < nodes.len() && nodes[li] == last;
    assert(!placed.contains(nodes[li]));
    assert(!ready(nodes[li], placed));
    let di = choose|di: int|
        0 <= di < nodes[li].spec_dependencies().len() && !placed.contains(
            nodes[li].spec_dependencies()[di],
        );
    let d = nodes[li].spec_dependencies()[di];
    assert(nodes.contains(d)) by {
        assert(!has_missing_dep(nodes));
        assert(!(0 <= li < nodes.len() && 0 <= di < nodes[li].spec_dependencies().len()
            && !nodes.contains(nodes[li].spec_dependencies()[di])));
    }
    if w.contains(d) {
        let m = choose|m: int| 0 <= m < w.len() && w[m] == d;
        let c = w.subrange(m, w.len() as int);
        assert(is_cycle(nodes, c)) by {
            assert(c.len() > 0);
            assert(forall|i: int| 0 <= i < c.len() ==> c[i] == w[m + i]);
            assert forall|i: int| 0 <= i < c.len() implies (#[trigger] c[i]).spec_dependencies()
                .contains(c[(i + 1) % (c.len() as int)]) by {
                if i < c.len() - 1 {
                    assert(c[i] == w[m + i]);
                    assert(c[i + 1] == w[m + i + 1]);
                    vstd::arithmetic::div_mod::lemma_small_mod((i + 1) as nat, c.len());
                    assert((i + 1) % (c.len() as int) == i + 1);
                    assert(w[m + i].spec_dependencies().contains(w[m + i + 1]));
                } else {
                    assert(c[i] == w.last());
                    vstd::arithmetic::div_mod::lemma_mod_self_0(c.len() as int);
                    assert((i + 1) % (c.len() as int) == 0);
                    assert(c[0] == w[m] && w[m] == d);
                    assert(last.spec_dependencies().contains(d));
                }
            }
        }
    } else {
        let w2 = w.push(d);
        assert(w2.no_duplicates()) by {
            assert(forall|k: int| 0 <= k < w.len() ==> w[k] != d) by {
                assert(!w.contains(d));
            }
        }
        assert(forall|k: int| 0 <= k < w2.len() - 1 ==> (#[trigger] w2[k]).spec_dependencies()
            .contains(w2[k + 1])) by {
            assert(forall|k: int|
                0 <= k < w.len() - 1 ==> #[trigger] w2[k] == w[k] && w2[k + 1] == w[k + 1]);
            assert(w2[w.len() - 1] == last);
            assert(w2[w.len() as int] == d);
        }
        lemma_distinct_le(w2, nodes);
        lemma_walk_closes(nodes, placed, w2);
    }
}

/// A run that gets stuck with some declared column unplaced has a
/// dependency cycle among the declared columns.
proof fn lemma_stuck_has_cycle<T: ColumnMetadata>(nodes: Seq<T>, placed: Seq<T>, v: T)
    requires
        !has_missing_dep(nodes),
        first_ready_from(nodes, placed, 0) is None,
        nodes.contains(v),
        !placed.contains(v),
    ensures
        has_cycle(nodes),
{
    lemma_first_ready_none(nodes, placed, 0);
    lemma_walk_closes(nodes, placed, seq![v]);
}

/// Evaluation order is reproducible: two selections declaring the same
/// columns in the same order schedule identically, every time. Together
/// with `from_mpc_view`'s contract — the order a scheduler hands out is
/// exactly `spec_schedule` of its declared nodes — two builds of the same
/// selection consume identical sequences.
pub proof fn lemma_schedule_reproducible<T: ColumnMetadata>(a: &MPCView<T>, b: &MPCView<T>)
    requires
        view_nodes(a) == view_nodes(b),
    ensures
        spec_schedule(view_nodes(a)) == spec_schedule(view_nodes(b)),
{
}

/// A reset scheduler replays the whole order: after `reset` the cursor is
/// at the start and the order is unchanged, so the `k`-th upcoming
/// `next_column` result equals the `k`-th result of the first full
/// consumption.
pub proof fn lemma_reset_replays<T: ColumnMetadata>(built: &Dag<T>, after_reset: &Dag<T>)
    requires
        after_reset.order_spec() == built.order_spec(),
        built.cursor_spec() == 0,
        after_reset.cursor_spec() == 0,
    ensures
        forall|k: int|
            next_result(after_reset.order_spec(), after_reset.cursor_spec(), k) == next_result(
                built.order_spec(),
                built.cursor_spec(),
                k,
            ),
{
}

/// Appends every element of `src` to `dst`, keeping order.
fn append_all<T: ColumnMetadata>(dst: &mut Vec<T>, src: &Vec<T>)
    ensures
        final(dst)@ == old(dst)@ + src@,
{
    let n = src.len();
    let mut i: usize = 0;
    while i < n
        invariant
            n == src@.len(),
            i <= n,
            dst@ == old(dst)@ + src@.take(i as int),
        decreases n - i,
    {
        dst.push(src[i]);
        proof {
            assert(old(dst)@ + src@.take(i + 1) =~= (old(dst)@ + src@.take(i as int)).push(
                src@[i as int],
            ));
        }
        i += 1;
    }
    proof {
        assert(src@.take(n as int) =~= src@);
    }
}

impl<T: ColumnMetadata> Dag<T> {
    /// Builds the scheduler for a column selection: the node set is the
    /// concatenation of the selection's input, helper, and metric columns,
    /// and the edges are each declared column's dependency list. A
    /// dependency absent from the node set and a dependency cycle are both
    /// unrecoverable configuration defects, reported as errors; otherwise
    /// the columns are linearized into the deterministic evaluation order
    /// `spec_schedule` describes, with the cursor at the start.
    pub fn from_mpc_view(mpc_view: MPCView<T>) -> (r: Result<Dag<T>, DagError>)
        ensures
            match r {
                Ok(dag) => {
                    &&& !has_missing_dep(view_nodes(&mpc_view))
                    &&& !has_cycle(view_nodes(&mpc_view))
                    &&& dag.wf()
                    &&& dag.cursor_spec() == 0
                    &&& dag.order_spec() == spec_schedule(view_nodes(&mpc_view))
                    &&& forall|i: int|
                        0 <= i < view_nodes(&mpc_view).len() ==> dag.order_spec().contains(
                            #[trigger] view_nodes(&mpc_view)[i],
                        )
                },
                Err(e) => match e {
                    DagError::MissingDependency => has_missing_dep(view_nodes(&mpc_view)),
                    DagError::CycleDetected => !has_missing_dep(view_nodes(&mpc_view))
                        && has_cycle(view_nodes(&mpc_view)),
                },
            },
    {
        let ghost gnodes = view_nodes(&mpc_view);
        let mut nodes: Vec<T> = Vec::new();
        append_all(&mut nodes, &mpc_view.input_columns);
        append_all(&mut nodes, &mpc_view.helper_columns);
        append_all(&mut nodes, &mpc_view.metrics);
        proof {
            assert(nodes@ =~= gnodes);
        }
        // Every declared dependency must itself be a declared node.
        let n = nodes.len();
        let mut vi: usize = 0;
        while vi < n
            invariant
                n == nodes@.len(),
                nodes@ == gnodes,
                gnodes == view_nodes(&mpc_view),
                vi <= n,
                forall|i: int, j: int|
                    0 <= i < vi && 0 <= j < (#[trigger] gnodes[i]).spec_dependencies().len()
                        ==> gnodes.contains(#[trigger] gnodes[i].spec_dependencies()[j]),
            decreases n - vi,
        {
            let deps = nodes[vi].dependencies();
            let m = deps.len();
            let mut di: usize = 0;
            while di < m
                invariant
                    n == nodes@.len(),
                    nodes@ == gnodes,
                    gnodes == view_nodes(&mpc_view),
                    vi < n,
                    m == deps@.len(),
                    deps@ == gnodes[vi as int].spec_dependencies(),
                    di <= m,
                    forall|j: int|
                        0 <= j < di ==> gnodes.contains(
                            #[trigger] gnodes[vi as int].spec_dependencies()[j],
                        ),
                decreases m - di,
            {
                if !contains_col(&nodes, &deps[di]) {
                    proof {
                        let wi = vi as int;
                        let wj = di as int;
                        assert(0 <= wi < gnodes.len() && 0 <= wj
                            < gnodes[wi].spec_dependencies().len() && !gnodes.contains(
                            gnodes[wi].spec_dependencies()[wj],
                        ));
                        assert(has_missing_dep(gnodes));
                    }
                    return Err(DagError::MissingDependency);
                }
                di += 1;
            }
            vi += 1;
        }
        proof {
            assert(!has_missing_dep(gnodes));
        }
        // Linearize greedily: always the earliest declared ready column.
        let mut out: Vec<T> = Vec::new();
        let ghost fuel0 = gnodes.len() as nat;
        loop
            invariant
                nodes@ == gnodes,
                gnodes == view_nodes(&mpc_view),
                out@.no_duplicates(),
                forall|k: int| 0 <= k < out@.len() ==> gnodes.contains(#[trigger] out@[k]),
                out@.len() <= gnodes.len(),
                spec_schedule(gnodes) == schedule_rec(
                    gnodes,
                    out@,
                    (gnodes.len() - out@.len()) as nat,
                ),
            ensures
                nodes@ == gnodes,
                out@ == spec_schedule(gnodes),
                first_ready_from(gnodes, out@, 0) is None,
            decreases gnodes.len() - out@.len(),
        {
            match find_first_ready(&nodes, &out) {
                Some(i) => {
                    proof {
                        lemma_first_ready_some(gnodes, out@, 0, i as int);
                        let new = out@.push(gnodes[i as int]);
                        assert(new.no_duplicates()) by {
                            assert(forall|k: int| 0 <= k < out@.len() ==> out@[k] != gnodes[
                                i as int]) by {
                                assert(!out@.contains(gnodes[i as int]));
                            }
                        }
                        lemma_distinct_le(new, gnodes);
                        assert(out@.len() < gnodes.len());
                    }
                    out.push(nodes[i]);
                },
                None => {
                    proof {
                        assert(schedule_rec(gnodes, out@, (gnodes.len() - out@.len()) as nat)
                            == out@);
                    }
                    break ;
                },
            }
        }
        // A declared column the greedy run could not place witnesses a cycle.
        let mut ci: usize = 0;
        while ci < n
            invariant
                n == nodes@.len(),
                nodes@ == gnodes,
                gnodes == view_nodes(&mpc_view),
                out@ == spec_schedule(gnodes),
                first_ready_from(gnodes, out@, 0) is None,
                !has_missing_dep(gnodes),
                ci <= n,
                forall|i: int| 0 <= i < ci ==> out@.contains(#[trigger] gnodes[i]),
            decreases n - ci,
        {
            if !contains_col(&out, &nodes[ci]) {
                proof {
                    lemma_stuck_has_cycle(gnodes, out@, gnodes[ci as int]);
                }
                return Err(DagError::CycleDetected);
            }
            ci += 1;
        }
        proof {
            lemma_complete_acyclic(gnodes);
        }
        Ok(Dag { sorted_columns: out, current_index: 0 })
    }
}

} // verus!
