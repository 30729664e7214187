//! One record's worth of column-to-value bindings: a pure typed map from
//! column identifier to secret value, built incrementally as columns are
//! ingested or evaluated.
//!
//! The map holds at most one value per column; an absent entry means "not
//! yet computed" and is distinguished from every stored value by the lookup
//! returning an optional result. No dependency awareness lives here — the
//! scheduler alone decides the order of access.

use vstd::prelude::*;
use crate::column_metadata::ColumnMetadata;
use crate::mpc_metric_dtype::{dtype_view, opt_view, DTypeView, MPCMetricDType};

verus! {

/// The map described by an association list, later entries winning.
pub open spec fn map_of<T>(s: Seq<(T, MPCMetricDType)>) -> Map<T, DTypeView>
    decreases s,
{
    if s.len() == 0 {
        Map::empty()
    } else {
        map_of(s.drop_last()).insert(s.last().0, dtype_view(s.last().1))
    }
}

/// Whether an association list binds each key at most once.
pub open spec fn unique_keys<T>(s: Seq<(T, MPCMetricDType)>) -> bool {
    forall|i: int, j: int| 0 <= i < j < s.len() ==> (#[trigger] s[i]).0 != (#[trigger] s[j]).0
}

/// The keys of `map_of` are exactly the keys of the list.
proof fn lemma_map_of_contains<T>(s: Seq<(T, MPCMetricDType)>, k: T)
    ensures
        map_of(s).contains_key(k) <==> exists|i: int| 0 <= i < s.len() && (#[trigger] s[i]).0 == k,
    decreases s.len(),
{
    if s.len() > 0 {
        lemma_map_of_contains(s.drop_last(), k);
        if s.last().0 == k {
            assert((s[s.len() - 1]).0 == k);
        } else {
            if map_of(s).contains_key(k) {
                let i = choose|i: int|
                    0 <= i < s.drop_last().len() && (#[trigger] s.drop_last()[i]).0 == k;
                assert((s[i]).0 == k);
            }
            if exists|i: int| 0 <= i < s.len() && (#[trigger] s[i]).0 == k {
                let i = choose|i: int| 0 <= i < s.len() && (#[trigger] s[i]).0 == k;
                assert(s.drop_last()[i].0 == k);
            }
        }
    }
}

/// In a uniquely keyed list, `map_of` sends each bound key to the value
/// stored beside it.
proof fn lemma_map_of_at<T>(s: Seq<(T, MPCMetricDType)>, i: int)
    requires
        unique_keys(s),
        0 <= i < s.len(),
    ensures
        map_of(s).contains_key(s[i].0),
        map_of(s)[s[i].0] == dtype_view(s[i].1),
    decreases s.len(),
{
    if i == s.len() - 1 {
    } else {
        assert(unique_keys(s.drop_last()));
        assert(s.drop_last()[i] == s[i]);
        lemma_map_of_at(s.drop_last(), i);
        assert(s[i].0 != s.last().0);
    }
}

/// Replacing the entry at `i` by one with the same key updates the map at
/// that key alone.
proof fn lemma_map_of_update<T>(s: Seq<(T, MPCMetricDType)>, i: int, p: (T, MPCMetricDType))
    requires
        unique_keys(s),
        0 <= i < s.len(),
        s[i].0 == p.0,
    ensures
        map_of(s.update(i, p)) == map_of(s).insert(p.0, dtype_view(p.1)),
    decreases s.len(),
{
    if i == s.len() - 1 {
        assert(s.update(i, p).drop_last() =~= s.drop_last());
        assert(map_of(s.update(i, p)) == map_of(s.drop_last()).insert(p.0, dtype_view(p.1)));
        assert(map_of(s).insert(p.0, dtype_view(p.1)) =~= map_of(s.drop_last()).insert(
            p.0,
            dtype_view(p.1),
        ));
    } else {
        assert(unique_keys(s.drop_last()));
        assert(s.drop_last()[i] == s[i]);
        lemma_map_of_update(s.drop_last(), i, p);
        assert(s.update(i, p).drop_last() =~= s.drop_last().update(i, p));
        assert(s.update(i, p).last() == s.last());
        assert(s[i].0 != s.last().0);
        assert(map_of(s.update(i, p)) == map_of(s.drop_last().update(i, p)).insert(
            s.last().0,
            dtype_view(s.last().1),
        ));
        assert(map_of(s).insert(p.0, dtype_view(p.1)) =~= map_of(s.drop_last()).insert(
            p.0,
            dtype_view(p.1),
        ).insert(s.last().0, dtype_view(s.last().1)));
    }
}

/// The models of a sequence of rows, row by row.
pub open spec fn rows_view<T>(rows: Seq<Row<T>>) -> Seq<Map<T, DTypeView>> {
    Seq::new(rows.len(), |i: int| rows[i]@)
}

/// A mapping from column identifier to typed value for one logical record.
#[derive(Debug, PartialEq)]
pub struct Row<T> {
    cols: Vec<(T, MPCMetricDType)>,
}

impl<T> View for Row<T> {
    type V = Map<T, DTypeView>;

    closed spec fn view(&self) -> Map<T, DTypeView> {
        map_of(self.cols@)
    }
}

impl<T: ColumnMetadata> Row<T> {
    /// Whether the row's internal storage binds each column at most once;
    /// established by `new` and preserved by every method.
    pub closed spec fn wf(&self) -> bool {
        unique_keys(self.cols@)
    }

    /// An empty row: no column has been computed yet.
    pub fn new() -> (r: Row<T>)
        ensures
            r.wf(),
            r@ == Map::<T, DTypeView>::empty(),
    {
        Row { cols: Vec::new() }
    }

    /// Looks up the value stored for `t`, without removing it; `None` means
    /// the column has not been computed for this row.
    pub fn get_data(&self, t: &T) -> (r: Option<&MPCMetricDType>)
        requires
            self.wf(),
        ensures
            match r {
                Some(v) => self@.contains_key(*t) && dtype_view(*v) == self@[*t],
                None => !self@.contains_key(*t),
            },
    {
        let n = self.cols.len();
        let mut i: usize = 0;
        while i < n
            invariant
                n == self.cols@.len(),
                i <= n,
                self.wf(),
                forall|j: int| 0 <= j < i ==> (#[trigger] self.cols@[j]).0 != *t,
            decreases n - i,
        {
            if self.cols[i].0.eq_col(t) {
                proof {
                    lemma_map_of_at(self.cols@, i as int);
                }
                return Some(&self.cols[i].1);
            }
            i += 1;
        }
        proof {
            lemma_map_of_contains(self.cols@, *t);
        }
        None
    }

    /// Stores `v` for column `k`, returning the previously stored value if
    /// one existed; the new value wins.
    pub fn insert(&mut self, k: T, v: MPCMetricDType) -> (r: Option<MPCMetricDType>)
        requires
            old(self).wf(),
        ensures
            final(self).wf(),
            final(self)@ == old(self)@.insert(k, dtype_view(v)),
            opt_view(r) == (if old(self)@.contains_key(k) {
                Some(old(self)@[k])
            } else {
                None
            }),
    {
        let n = self.cols.len();
        let mut i: usize = 0;
        while i < n
            invariant
                self.cols@ == old(self).cols@,
                n == self.cols@.len(),
                i <= n,
                self.wf(),
                forall|j: int| 0 <= j < i ==> (#[trigger] self.cols@[j]).0 != k,
            decreases n - i,
        {
            if self.cols[i].0.eq_col(&k) {
                proof {
                    lemma_map_of_at(self.cols@, i as int);
                }
                let old_pair = self.cols.remove(i);
                self.cols.insert(i, (k, v));
                proof {
                    let ghost s0 = old(self).cols@;
                    assert(self.cols@ =~= s0.update(i as int, (k, v)));
                    lemma_map_of_update(s0, i as int, (k, v));
                    assert forall|a: int, b: int|
                        0 <= a < b < self.cols@.len() implies (#[trigger] self.cols@[a]).0 != (
                    #[trigger] self.cols@[b]).0 by {
                        assert(s0[a].0 != s0[b].0);
                    }
                }
                return Some(old_pair.1);
            }
            i += 1;
        }
        proof {
            lemma_map_of_contains(self.cols@, k);
        }
        self.cols.push((k, v));
        proof {
            let ghost s0 = old(self).cols@;
            assert(self.cols@ =~= s0.push((k, v)));
            assert(self.cols@.drop_last() =~= s0);
            assert(final(self)@ == old(self)@.insert(k, dtype_view(v)));
        }
        None
    }
}

} // verus!
