//! Maps from text to values, kept in the order of their keys.
use vstd::prelude::*;

use crate::text::{chars_of, copy, same, starts_with};

verus! {

// ---------------------------------------------------------------------------
// The order of keys
// ---------------------------------------------------------------------------
/// `a` comes before `b`: the first character in which they differ is smaller in
/// `a`, or `a` is the beginning of a longer `b`.
pub open spec fn before(a: Seq<char>, b: Seq<char>) -> bool
    decreases a.len(),
{
    if b.len() == 0 {
        false
    } else if a.len() == 0 {
        true
    } else if a.first() != b.first() {
        a.first() < b.first()
    } else {
        before(a.drop_first(), b.drop_first())
    }
}

/// No text comes before itself.
pub proof fn lemma_before_irreflexive(a: Seq<char>)
    ensures
        !before(a, a),
    decreases a.len(),
{
    if a.len() > 0 {
        lemma_before_irreflexive(a.drop_first());
    }
}

/// What comes before a text that comes before another comes before that other.
pub proof fn lemma_before_transitive(a: Seq<char>, b: Seq<char>, c: Seq<char>)
    requires
        before(a, b),
        before(b, c),
    ensures
        before(a, c),
    decreases a.len(),
{
    if a.len() > 0 && a.first() == b.first() && b.first() == c.first() {
        lemma_before_transitive(a.drop_first(), b.drop_first(), c.drop_first());
    }
}

/// Where one text stands relative to another.
#[derive(Clone, Copy, Debug, PartialEq, Eq, Structural)]
pub enum Place {
    /// Before it.
    Before,
    /// The same text.
    Same,
    /// After it.
    After,
}

/// Where `a` stands relative to `b`.
pub fn place(a: &str, b: &str) -> (r: Place)
    ensures
        r is Before <==> before(a@, b@),
        r is Same <==> a@ == b@,
        r is After <==> before(b@, a@),
{
    let x = chars_of(a);
    let y = chars_of(b);
    let mut i: usize = 0;
    proof {
        lemma_before_irreflexive(a@);
        assert(a@.skip(0) =~= a@);
        assert(b@.skip(0) =~= b@);
    }
    while i < x.len() && i < y.len()
        invariant
            i <= x@.len(),
            i <= y@.len(),
            x@ == a@,
            y@ == b@,
            before(a@, b@) == before(a@.skip(i as int), b@.skip(i as int)),
            before(b@, a@) == before(b@.skip(i as int), a@.skip(i as int)),
            a@.take(i as int) == b@.take(i as int),
            !before(a@, a@),
        decreases x@.len() - i,
    {
        let ghost ta = a@.skip(i as int);
        let ghost tb = b@.skip(i as int);
        if x[i] != y[i] {
            assert(a@[i as int] != b@[i as int]);
            if x[i] < y[i] {
                return Place::Before;
            } else {
                return Place::After;
            }
        }
        assert(ta.drop_first() =~= a@.skip(i + 1));
        assert(tb.drop_first() =~= b@.skip(i + 1));
        assert(a@.take(i + 1) =~= a@.take(i as int).push(a@[i as int]));
        assert(b@.take(i + 1) =~= b@.take(i as int).push(b@[i as int]));
        i = i + 1;
    }
    if x.len() == y.len() {
        assert(a@.take(i as int) =~= a@);
        assert(b@.take(i as int) =~= b@);
        Place::Same
    } else if x.len() < y.len() {
        Place::Before
    } else {
        Place::After
    }
}

// ---------------------------------------------------------------------------
// The map
// ---------------------------------------------------------------------------
/// Every key comes before the keys behind it.
pub open spec fn ascending<V>(rows: Seq<(Seq<char>, V)>) -> bool {
    forall|i: int, j: int|
        0 <= i < j < rows.len() ==> before((#[trigger] rows[i]).0, (#[trigger] rows[j]).0)
}

/// Row `i` holds the key `k`.
pub open spec fn row_has<V>(rows: Seq<(Seq<char>, V)>, k: Seq<char>, i: int) -> bool {
    0 <= i < rows.len() && rows[i].0 == k
}

/// The map that a row of keys and values stands for.
pub open spec fn map_of<V>(rows: Seq<(Seq<char>, V)>) -> Map<Seq<char>, V> {
    Map::new(
        |k: Seq<char>| exists|i: int| row_has(rows, k, i),
        |k: Seq<char>| rows[choose|i: int| row_has(rows, k, i)].1,
    )
}

proof fn lemma_row_value<V>(rows: Seq<(Seq<char>, V)>, i: int)
    requires
        ascending(rows),
        0 <= i < rows.len(),
    ensures
        map_of(rows).contains_key(rows[i].0),
        map_of(rows)[rows[i].0] == rows[i].1,
{
    let k = rows[i].0;
    assert(row_has(rows, k, i));
    let j = choose|j: int| row_has(rows, k, j);
    lemma_before_irreflexive(k);
    assert(i == j) by {
        if i < j {
            assert(before(rows[i].0, rows[j].0));
        } else if j < i {
            assert(before(rows[j].0, rows[i].0));
        }
    }
}

/// Each row of a map in the order of its keys holds what the map gives for its
/// key.
pub proof fn lemma_rows<V>(rows: Seq<(Seq<char>, V)>)
    requires
        ascending(rows),
    ensures
        forall|i: int|
            #![trigger rows[i]]
            0 <= i < rows.len() ==> map_of(rows).contains_key(rows[i].0) && map_of(rows)[rows[i].0]
                == rows[i].1,
{
    assert forall|i: int|
        #![trigger rows[i]]
        0 <= i < rows.len() implies map_of(rows).contains_key(rows[i].0) && map_of(
        rows,
    )[rows[i].0] == rows[i].1 by {
        lemma_row_value(rows, i);
    }
}

proof fn lemma_without_last<V>(rows: Seq<(Seq<char>, V)>)
    requires
        ascending(rows),
        rows.len() > 0,
    ensures
        ascending(rows.drop_last()),
        map_of(rows.drop_last()) == map_of(rows).remove(rows.last().0),
{
    let rest = rows.drop_last();
    let n = rows.len() - 1;
    assert forall|i: int, j: int| 0 <= i < j < rest.len() implies before(
        (#[trigger] rest[i]).0,
        (#[trigger] rest[j]).0,
    ) by {
        assert(rest[i] == rows[i] && rest[j] == rows[j]);
    }
    lemma_rows(rows);
    lemma_rows(rest);
    let x = map_of(rest);
    let y = map_of(rows).remove(rows.last().0);
    assert forall|k: Seq<char>| #[trigger] x.dom().contains(k) implies y.dom().contains(k) && x[k]
        == y[k] by {
        let i = choose|i: int| row_has(rest, k, i);
        assert(rest[i] == rows[i]);
        assert(before(rows[i].0, rows[n].0));
        lemma_before_irreflexive(k);
    }
    assert forall|k: Seq<char>| #[trigger] y.dom().contains(k) implies x.dom().contains(k) by {
        let i = choose|i: int| row_has(rows, k, i);
        assert(rows[i].0 == k);
        assert(row_has(rest, k, i));
    }
    assert(x =~= y);
}

/// The rows of a map follow from what it holds: there is one way to put them in the
/// order of their keys.
pub proof fn law_rows_follow_from_the_map<V>(a: Seq<(Seq<char>, V)>, b: Seq<(Seq<char>, V)>)
    requires
        ascending(a),
        ascending(b),
        map_of(a) == map_of(b),
    ensures
        a == b,
    decreases a.len(),
{
    lemma_rows(a);
    lemma_rows(b);
    if a.len() == 0 {
        if b.len() > 0 {
            assert(map_of(a).contains_key(b[0].0));
            let i = choose|i: int| row_has(a, b[0].0, i);
            assert(false);
        }
        assert(a =~= b);
    } else {
        let n = a.len() - 1;
        assert(map_of(b).contains_key(a[n].0));
        let j = choose|j: int| row_has(b, a[n].0, j);
        let m = b.len() - 1;
        assert(map_of(a).contains_key(b[m].0));
        let i = choose|i: int| row_has(a, b[m].0, i);
        assert(a[n].0 == b[m].0) by {
            if j < m && i < n {
                assert(before(b[j].0, b[m].0));
                assert(before(a[i].0, a[n].0));
                lemma_before_transitive(a[n].0, b[m].0, a[n].0);
                lemma_before_irreflexive(a[n].0);
            }
        }
        assert(a[n].1 == b[m].1);
        lemma_without_last(a);
        lemma_without_last(b);
        law_rows_follow_from_the_map(a.drop_last(), b.drop_last());
        assert(a =~= a.drop_last().push(a[n]));
        assert(b =~= b.drop_last().push(b[m]));
    }
}

/// Rows whose values are read by `f`.
pub open spec fn read_rows<V, X>(rows: Seq<(Seq<char>, V)>, f: spec_fn(V) -> X) -> Seq<
    (Seq<char>, X),
> {
    rows.map_values(|e: (Seq<char>, V)| (e.0, f(e.1)))
}

/// Rows whose values are read stay in order, and stand for the map whose values are
/// read.
pub proof fn lemma_read_rows<V, X>(rows: Seq<(Seq<char>, V)>, f: spec_fn(V) -> X)
    requires
        ascending(rows),
    ensures
        ascending(read_rows(rows, f)),
        map_of(read_rows(rows, f)) == map_of(rows).map_values(f),
{
    let read = read_rows(rows, f);
    assert forall|i: int, j: int| 0 <= i < j < read.len() implies before(
        (#[trigger] read[i]).0,
        (#[trigger] read[j]).0,
    ) by {
        assert(before(rows[i].0, rows[j].0));
    }
    lemma_same_reading(read, rows, |x: X| x, f);
    assert(map_of(read).map_values(|x: X| x) =~= map_of(read));
}

/// A map from text to values that is walked in the order of its keys.
#[derive(Debug)]
pub struct TextMap<V> {
    entries: Vec<(String, V)>,
}

impl<V> View for TextMap<V> {
    type V = Map<Seq<char>, V>;

    open spec fn view(&self) -> Map<Seq<char>, V> {
        map_of(self.rows())
    }
}

impl<V> TextMap<V> {
    /// The keys and values, in the order of the keys.
    pub closed spec fn rows(&self) -> Seq<(Seq<char>, V)> {
        self.entries@.map_values(|e: (String, V)| (e.0@, e.1))
    }

    #[verifier::type_invariant]
    closed spec fn in_order(self) -> bool {
        ascending(self.rows())
    }

    /// The empty map.
    pub fn new() -> (r: TextMap<V>)
        ensures
            r@ == Map::<Seq<char>, V>::empty(),
            r.rows() == Seq::<(Seq<char>, V)>::empty(),
    {
        let r = TextMap { entries: Vec::new() };
        assert(r.rows() =~= Seq::<(Seq<char>, V)>::empty());
        assert(r@ =~= Map::<Seq<char>, V>::empty());
        r
    }

    /// The number of keys.
    pub fn len(&self) -> (n: usize)
        ensures
            n == self.rows().len(),
            ascending(self.rows()),
    {
        proof {
            use_type_invariant(self);
        }
        self.entries.len()
    }

    /// The key at place `i` of the order.
    pub fn key_at(&self, i: usize) -> (k: &str)
        requires
            i < self.rows().len(),
        ensures
            k@ == self.rows()[i as int].0,
    {
        self.entries[i].0.as_str()
    }

    /// The value at place `i` of the order.
    pub fn value_at(&self, i: usize) -> (v: &V)
        requires
            i < self.rows().len(),
        ensures
            *v == self.rows()[i as int].1,
    {
        &self.entries[i].1
    }

    /// A map with the same keys, and with `values` in the order of the keys.
    pub fn with_values<W>(&self, values: Vec<W>) -> (r: TextMap<W>)
        requires
            values@.len() == self.rows().len(),
        ensures
            ascending(self.rows()),
            ascending(r.rows()),
            r.rows().len() == self.rows().len(),
            forall|i: int|
                0 <= i < r.rows().len() ==> (#[trigger] r.rows()[i]) == (
                    self.rows()[i].0,
                    values@[i],
                ),
    {
        proof {
            use_type_invariant(self);
        }
        let ghost given = values@;
        let mut rest = values;
        let mut entries: Vec<(String, W)> = Vec::new();
        let n: usize = rest.len();
        let mut left: usize = n;
        while left > 0
            invariant
                left <= n,
                n == given.len(),
                n == self.entries@.len(),
                rest@ == given.take(left as int),
                entries@.len() == n - left,
                forall|j: int|
                    0 <= j < n - left ==> (#[trigger] entries@[j]).0@ == self.entries@[left + j].0@
                        && entries@[j].1 == given[left + j],
            decreases left,
        {
            left = left - 1;
            let ghost was = entries@;
            let v = rest.pop();
            assert(rest@ =~= given.take(left as int));
            if let Some(w) = v {
                entries.insert(0, (copy(self.entries[left].0.as_str()), w));
                assert forall|j: int| 0 <= j < n - left implies (#[trigger] entries@[j]).0@
                    == self.entries@[left + j].0@ && entries@[j].1 == given[left + j] by {
                    if j > 0 {
                        assert(entries@[j] == was[j - 1]);
                    }
                }
            }
        }
        let ghost rows = entries@.map_values(|e: (String, W)| (e.0@, e.1));
        proof {
            assert forall|i: int, j: int| 0 <= i < j < rows.len() implies before(
                (#[trigger] rows[i]).0,
                (#[trigger] rows[j]).0,
            ) by {
                assert(entries@[i].0@ == self.entries@[0 + i].0@);
                assert(entries@[j].0@ == self.entries@[0 + j].0@);
                assert(rows[i].0 == self.rows()[i].0 && rows[j].0 == self.rows()[j].0);
            }
        }
        let r = TextMap { entries };
        assert(r.rows() == rows);
        assert forall|i: int| 0 <= i < r.rows().len() implies (#[trigger] r.rows()[i]) == (
            self.rows()[i].0,
            given[i],
        ) by {
            assert(entries@[i].0@ == self.entries@[0 + i].0@ && entries@[i].1 == given[0 + i]);
        }
        r
    }

    /// The place of `k`, or the place that it would take.
    fn slot(&self, k: &str) -> (r: (bool, usize))
        ensures
            r.1 <= self.entries@.len(),
            r.0 ==> r.1 < self.entries@.len() && self.rows()[r.1 as int].0 == k@,
            forall|j: int| 0 <= j < r.1 ==> before((#[trigger] self.rows()[j]).0, k@),
            !r.0 ==> forall|j: int|
                r.1 <= j < self.rows().len() ==> before(k@, (#[trigger] self.rows()[j]).0),
    {
        proof {
            use_type_invariant(self);
        }
        let n: usize = self.entries.len();
        let mut i: usize = 0;
        while i < n
            invariant
                i <= n,
                n == self.entries@.len(),
                n == self.rows().len(),
                ascending(self.rows()),
                forall|j: int| 0 <= j < i ==> before((#[trigger] self.rows()[j]).0, k@),
            decreases n - i,
        {
            let key = self.entries[i].0.as_str();
            assert(key@ == self.rows()[i as int].0);
            match place(key, k) {
                Place::Same => {
                    return (true, i);
                },
                Place::After => {
                    assert forall|j: int| i <= j < self.rows().len() implies before(
                        k@,
                        (#[trigger] self.rows()[j]).0,
                    ) by {
                        if i < j {
                            lemma_before_transitive(
                                k@,
                                self.rows()[i as int].0,
                                self.rows()[j].0,
                            );
                        }
                    }
                    return (false, i);
                },
                Place::Before => {},
            }
            i = i + 1;
        }
        (false, i)
    }

    /// The value of `k`.
    pub fn get(&self, k: &str) -> (r: Option<&V>)
        ensures
            match r {
                Some(v) => self@.contains_key(k@) && self@[k@] == *v,
                None => !self@.contains_key(k@),
            },
    {
        proof {
            use_type_invariant(self);
        }
        let (found, at) = self.slot(k);
        if found {
            proof {
                lemma_row_value(self.rows(), at as int);
            }
            Some(&self.entries[at].1)
        } else {
            proof {
                lemma_absent(self.rows(), k@, at as int);
            }
            None
        }
    }

    /// Whether `k` is a key.
    pub fn contains_key(&self, k: &str) -> (r: bool)
        ensures
            r == self@.contains_key(k@),
    {
        self.get(k).is_some()
    }

    /// Gives `k` the value `v`, and returns the value that it had.
    pub fn insert(&mut self, k: String, v: V) -> (r: Option<V>)
        ensures
            final(self)@ == old(self)@.insert(k@, v),
            ascending(final(self).rows()),
            match r {
                Some(w) => old(self)@.contains_key(k@) && old(self)@[k@] == w,
                None => !old(self)@.contains_key(k@),
            },
    {
        proof {
            use_type_invariant(&*self);
        }
        let ghost was = self.rows();
        let ghost key = k@;
        let (found, at) = self.slot(k.as_str());
        let mut entries: Vec<(String, V)> = Vec::new();
        std::mem::swap(&mut self.entries, &mut entries);
        if found {
            proof {
                lemma_row_value(was, at as int);
            }
            let w = entries.remove(at);
            entries.insert(at, (k, v));
            let ghost now = entries@.map_values(|e: (String, V)| (e.0@, e.1));
            proof {
                assert(now =~= was.update(at as int, (key, v)));
                lemma_update(was, at as int, key, v);
            }
            self.entries = entries;
            assert(self.rows() == now);
            Some(w.1)
        } else {
            proof {
                lemma_absent(was, key, at as int);
            }
            entries.insert(at, (k, v));
            let ghost now = entries@.map_values(|e: (String, V)| (e.0@, e.1));
            proof {
                assert(now =~= was.insert(at as int, (key, v)));
                lemma_insert(was, at as int, key, v);
            }
            self.entries = entries;
            assert(self.rows() == now);
            None
        }
    }

    /// Takes `k` out, and returns the value that it had.
    pub fn remove(&mut self, k: &str) -> (r: Option<V>)
        ensures
            final(self)@ == old(self)@.remove(k@),
            match r {
                Some(w) => old(self)@.contains_key(k@) && old(self)@[k@] == w,
                None => !old(self)@.contains_key(k@),
            },
    {
        proof {
            use_type_invariant(&*self);
        }
        let ghost was = self.rows();
        let (found, at) = self.slot(k);
        if found {
            let mut entries: Vec<(String, V)> = Vec::new();
            std::mem::swap(&mut self.entries, &mut entries);
            proof {
                lemma_row_value(was, at as int);
            }
            let w = entries.remove(at);
            let ghost now = entries@.map_values(|e: (String, V)| (e.0@, e.1));
            proof {
                assert(now =~= was.remove(at as int));
                lemma_remove(was, at as int);
            }
            self.entries = entries;
            assert(self.rows() == now);
            Some(w.1)
        } else {
            proof {
                lemma_absent(was, k@, at as int);
            }
            assert(self@ =~= self@.remove(k@));
            None
        }
    }

    /// Takes every key out that begins with `p`.
    pub fn remove_prefixed(&mut self, p: &str)
        ensures
            final(self)@ == old(self)@.restrict(Set::new(|k: Seq<char>| !p@.is_prefix_of(k))),
            final(self)@ == without_prefix(old(self)@, p@),
    {
        proof {
            use_type_invariant(&*self);
        }
        let ghost was = self.rows();
        let mut entries: Vec<(String, V)> = Vec::new();
        std::mem::swap(&mut self.entries, &mut entries);
        let ghost all = entries@;
        let mut i: usize = 0;
        let ghost mut gone: int = 0;
        while i < entries.len()
            invariant
                i <= entries@.len(),
                0 <= gone,
                gone + entries@.len() == all.len(),
                was == all.map_values(|e: (String, V)| (e.0@, e.1)),
                ascending(was),
                ascending(entries@.map_values(|e: (String, V)| (e.0@, e.1))),
                forall|j: int| i <= j < entries@.len() ==> #[trigger] entries@[j] == all[j + gone],
                forall|j: int| 0 <= j < i ==> kept(all, p@, #[trigger] entries@[j]),
                forall|j: int|
                    0 <= j < i + gone ==> p@.is_prefix_of((#[trigger] all[j]).0@) || present(
                        entries@,
                        i as int,
                        all[j],
                    ),
            decreases entries@.len() - i,
        {
            let ghost cur = entries@;
            let ghost rows = cur.map_values(|e: (String, V)| (e.0@, e.1));
            assert(entries@[i as int] == all[i + gone]);
            if starts_with(entries[i].0.as_str(), p) {
                entries.remove(i);
                let ghost next = entries@;
                assert(next.map_values(|e: (String, V)| (e.0@, e.1)) =~= rows.remove(i as int));
                proof {
                    lemma_remove(rows, i as int);
                    gone = gone + 1;
                    assert forall|j: int| i <= j < next.len() implies #[trigger] next[j] == all[j
                        + gone] by {
                        assert(next[j] == cur[j + 1]);
                    }
                    assert forall|j: int| 0 <= j < i implies kept(all, p@, #[trigger] next[j]) by {
                        assert(next[j] == cur[j]);
                    }
                    assert forall|j: int| 0 <= j < i + gone implies p@.is_prefix_of(
                        (#[trigger] all[j]).0@,
                    ) || present(next, i as int, all[j]) by {
                        if !p@.is_prefix_of(all[j].0@) {
                            assert(present(cur, i as int, all[j]));
                            let m = choose|m: int| 0 <= m < i && cur[m] == all[j];
                            assert(next[m] == all[j]);
                        }
                    }
                }
            } else {
                proof {
                    assert(kept(all, p@, cur[i as int])) by {
                        assert(all[i + gone] == cur[i as int]);
                    }
                    assert forall|j: int| 0 <= j < i + 1 + gone implies p@.is_prefix_of(
                        (#[trigger] all[j]).0@,
                    ) || present(cur, i + 1, all[j]) by {
                        if j < i + gone {
                            if !p@.is_prefix_of(all[j].0@) {
                                let m = choose|m: int| 0 <= m < i && cur[m] == all[j];
                                assert(cur[m] == all[j]);
                            }
                        } else {
                            assert(cur[i as int] == all[j]);
                        }
                    }
                }
                i = i + 1;
            }
        }
        let ghost now = entries@.map_values(|e: (String, V)| (e.0@, e.1));
        proof {
            let want = map_of(was).restrict(Set::new(|k: Seq<char>| !p@.is_prefix_of(k)));
            lemma_rows(was);
            lemma_rows(now);
            assert forall|k: Seq<char>|
                #[trigger] map_of(now).dom().contains(k) implies want.dom().contains(
                k,
            ) && want[k] == map_of(now)[k] by {
                let j = choose|j: int| row_has(now, k, j);
                assert(kept(all, p@, entries@[j]));
                let m = choose|m: int| 0 <= m < all.len() && all[m] == entries@[j];
                assert(was[m] == now[j]);
            }
            assert forall|k: Seq<char>| #[trigger] want.dom().contains(k) implies map_of(
                now,
            ).dom().contains(k) by {
                let j = choose|j: int| row_has(was, k, j);
                assert(was[j].0 == all[j].0@);
                assert(present(entries@, i as int, all[j]));
                let m = choose|m: int| 0 <= m < i && entries@[m] == all[j];
                assert(now[m].0 == k);
                assert(row_has(now, k, m));
            }
            assert(map_of(now) =~= want);
        }
        self.entries = entries;
        assert(self.rows() == now);
    }

    /// Takes every key out.
    pub fn clear(&mut self)
        ensures
            final(self)@ == Map::<Seq<char>, V>::empty(),
    {
        self.entries = Vec::new();
        assert(self.rows() =~= Seq::<(Seq<char>, V)>::empty());
        assert(self@ =~= Map::<Seq<char>, V>::empty());
    }
}

/// `e` is one of `all` and its key does not begin with `p`.
spec fn kept<V>(all: Seq<(String, V)>, p: Seq<char>, e: (String, V)) -> bool {
    &&& exists|m: int| 0 <= m < all.len() && all[m] == e
    &&& !p.is_prefix_of(e.0@)
}

/// `e` is one of the first `n` of `some`.
spec fn present<V>(some: Seq<(String, V)>, n: int, e: (String, V)) -> bool {
    exists|m: int| 0 <= m < n && some[m] == e
}

proof fn lemma_absent<V>(rows: Seq<(Seq<char>, V)>, k: Seq<char>, at: int)
    requires
        0 <= at <= rows.len(),
        forall|j: int| 0 <= j < at ==> before((#[trigger] rows[j]).0, k),
        forall|j: int| at <= j < rows.len() ==> before(k, (#[trigger] rows[j]).0),
    ensures
        !map_of(rows).contains_key(k),
{
    lemma_before_irreflexive(k);
    assert forall|i: int| !row_has(rows, k, i) by {
        if 0 <= i < rows.len() {
            if i < at {
                assert(before(rows[i].0, k));
            } else {
                assert(before(k, rows[i].0));
            }
        }
    }
}

proof fn lemma_update<V>(rows: Seq<(Seq<char>, V)>, at: int, k: Seq<char>, v: V)
    requires
        ascending(rows),
        0 <= at < rows.len(),
        rows[at].0 == k,
    ensures
        ascending(rows.update(at, (k, v))),
        map_of(rows.update(at, (k, v))) == map_of(rows).insert(k, v),
{
    let now = rows.update(at, (k, v));
    assert forall|i: int, j: int| 0 <= i < j < now.len() implies before(
        (#[trigger] now[i]).0,
        (#[trigger] now[j]).0,
    ) by {
        assert(now[i].0 == rows[i].0 && now[j].0 == rows[j].0);
    }
    lemma_same_map(now, map_of(rows).insert(k, v), rows, k);
}

proof fn lemma_insert<V>(rows: Seq<(Seq<char>, V)>, at: int, k: Seq<char>, v: V)
    requires
        ascending(rows),
        0 <= at <= rows.len(),
        forall|j: int| 0 <= j < at ==> before((#[trigger] rows[j]).0, k),
        forall|j: int| at <= j < rows.len() ==> before(k, (#[trigger] rows[j]).0),
    ensures
        ascending(rows.insert(at, (k, v))),
        map_of(rows.insert(at, (k, v))) == map_of(rows).insert(k, v),
{
    let now = rows.insert(at, (k, v));
    assert forall|i: int, j: int| 0 <= i < j < now.len() implies before(
        (#[trigger] now[i]).0,
        (#[trigger] now[j]).0,
    ) by {
        let a = if i < at {
            rows[i].0
        } else if i == at {
            k
        } else {
            rows[i - 1].0
        };
        let b = if j < at {
            rows[j].0
        } else if j == at {
            k
        } else {
            rows[j - 1].0
        };
        assert(now[i].0 == a && now[j].0 == b);
    }
    lemma_rows(rows);
    lemma_rows(now);
    let want = map_of(rows).insert(k, v);
    assert forall|x: Seq<char>| map_of(now).contains_key(x) implies want.contains_key(x)
        && map_of(now)[x] == want[x] by {
        let i = choose|i: int| row_has(now, x, i);
        assert(now[i].0 == x);
        if i < at {
            assert(now[i] == rows[i]);
            lemma_before_irreflexive(k);
        } else if i > at {
            assert(now[i] == rows[i - 1]);
            lemma_before_irreflexive(k);
        }
    }
    assert forall|x: Seq<char>| want.contains_key(x) implies map_of(now).contains_key(x) by {
        if x == k {
            assert(row_has(now, x, at));
        } else {
            let i = choose|i: int| row_has(rows, x, i);
            if i < at {
                assert(row_has(now, x, i));
            } else {
                assert(row_has(now, x, i + 1));
            }
        }
    }
    assert(map_of(now) =~= want);
}

proof fn lemma_remove<V>(rows: Seq<(Seq<char>, V)>, at: int)
    requires
        ascending(rows),
        0 <= at < rows.len(),
    ensures
        ascending(rows.remove(at)),
        map_of(rows.remove(at)) == map_of(rows).remove(rows[at].0),
{
    let now = rows.remove(at);
    let k = rows[at].0;
    assert forall|i: int, j: int| 0 <= i < j < now.len() implies before(
        (#[trigger] now[i]).0,
        (#[trigger] now[j]).0,
    ) by {
        let a = if i < at {
            i
        } else {
            i + 1
        };
        let b = if j < at {
            j
        } else {
            j + 1
        };
        assert(now[i] == rows[a] && now[j] == rows[b]);
    }
    lemma_rows(rows);
    lemma_rows(now);
    lemma_before_irreflexive(k);
    let want = map_of(rows).remove(k);
    assert forall|x: Seq<char>| map_of(now).contains_key(x) implies want.contains_key(x)
        && map_of(now)[x] == want[x] by {
        let i = choose|i: int| row_has(now, x, i);
        assert(now[i].0 == x);
        if i < at {
            assert(now[i] == rows[i]);
            assert(before(rows[i].0, rows[at].0));
        } else {
            assert(now[i] == rows[i + 1]);
            assert(before(rows[at].0, rows[i + 1].0));
        }
    }
    assert forall|x: Seq<char>| want.contains_key(x) implies map_of(now).contains_key(x) by {
        let i = choose|i: int| row_has(rows, x, i);
        if i < at {
            assert(row_has(now, x, i));
        } else {
            assert(row_has(now, x, i - 1));
        }
    }
    assert(map_of(now) =~= want);
}

proof fn lemma_same_map<V>(
    now: Seq<(Seq<char>, V)>,
    want: Map<Seq<char>, V>,
    rows: Seq<(Seq<char>, V)>,
    k: Seq<char>,
)
    requires
        ascending(rows),
        ascending(now),
        now.len() == rows.len(),
        exists|at: int, v: V|
            0 <= at < rows.len() && rows[at].0 == k && now == rows.update(at, (k, v)) && want
                == map_of(rows).insert(k, v),
    ensures
        map_of(now) == want,
{
    let (at, v) = choose|at: int, v: V|
        0 <= at < rows.len() && rows[at].0 == k && now == rows.update(at, (k, v)) && want == map_of(
            rows,
        ).insert(k, v);
    lemma_rows(rows);
    lemma_rows(now);
    assert forall|x: Seq<char>| map_of(now).contains_key(x) implies want.contains_key(x)
        && map_of(now)[x] == want[x] by {
        let i = choose|i: int| row_has(now, x, i);
        assert(now[i].0 == x);
        assert(rows[i].0 == x);
        lemma_row_value(now, i);
        lemma_row_value(rows, i);
        if i != at {
            assert(x != k) by {
                lemma_before_irreflexive(k);
                if i < at {
                    assert(before(rows[i].0, rows[at].0));
                } else {
                    assert(before(rows[at].0, rows[i].0));
                }
            }
        }
    }
    assert forall|x: Seq<char>| want.contains_key(x) implies map_of(now).contains_key(x) by {
        if x == k {
            assert(row_has(now, x, at));
        } else {
            let i = choose|i: int| row_has(rows, x, i);
            assert(row_has(now, x, i));
        }
    }
    assert(map_of(now) =~= want);
}

// ---------------------------------------------------------------------------
// Maps from text to text
// ---------------------------------------------------------------------------
/// A map from text to text, read as characters.
pub open spec fn text_map(m: TextMap<String>) -> Map<Seq<char>, Seq<char>> {
    m@.map_values(|s: String| s@)
}

/// The rows of a map from text to text, read as characters.
pub open spec fn text_rows(m: TextMap<String>) -> Seq<(Seq<char>, Seq<char>)> {
    m.rows().map_values(|e: (Seq<char>, String)| (e.0, e.1@))
}

/// Maps with the same keys and values that are read the same are read the same.
pub proof fn lemma_same_reading<V, W, X>(
    a: Seq<(Seq<char>, V)>,
    b: Seq<(Seq<char>, W)>,
    f: spec_fn(V) -> X,
    g: spec_fn(W) -> X,
)
    requires
        ascending(a),
        ascending(b),
        a.len() == b.len(),
        forall|i: int|
            0 <= i < a.len() ==> (#[trigger] a[i]).0 == b[i].0 && f(a[i].1) == g(b[i].1),
    ensures
        map_of(a).map_values(f) == map_of(b).map_values(g),
{
    lemma_rows(a);
    lemma_rows(b);
    let x = map_of(a).map_values(f);
    let y = map_of(b).map_values(g);
    assert forall|k: Seq<char>| #[trigger] x.dom().contains(k) implies y.dom().contains(k) && x[k]
        == y[k] by {
        let i = choose|i: int| row_has(a, k, i);
        assert(a[i].0 == k);
        assert(b[i].0 == k);
    }
    assert forall|k: Seq<char>| #[trigger] y.dom().contains(k) implies x.dom().contains(k) by {
        let i = choose|i: int| row_has(b, k, i);
        assert(b[i].0 == k);
        assert(a[i].0 == k);
        assert(row_has(a, k, i));
    }
    assert(x =~= y);
}

impl Clone for TextMap<String> {
    fn clone(&self) -> (r: TextMap<String>)
        ensures
            text_rows(r) == text_rows(*self),
            text_map(r) == text_map(*self),
    {
        let mut values: Vec<String> = Vec::new();
        let n: usize = self.entries.len();
        let mut i: usize = 0;
        while i < n
            invariant
                n == self.entries@.len(),
                i <= n,
                values@.len() == i,
                forall|j: int| 0 <= j < i ==> (#[trigger] values@[j])@ == self.entries@[j].1@,
            decreases n - i,
        {
            values.push(copy(self.entries[i].1.as_str()));
            i = i + 1;
        }
        let r = self.with_values(values);
        proof {
            assert(text_rows(r) =~= text_rows(*self));
            assert forall|j: int| 0 <= j < r.rows().len() implies (#[trigger] r.rows()[j]).0
                == self.rows()[j].0 && r.rows()[j].1@ == self.rows()[j].1@ by {
                assert(text_rows(r)[j] == text_rows(*self)[j]);
            }
            lemma_same_reading(r.rows(), self.rows(), |s: String| s@, |s: String| s@);
        }
        r
    }
}

impl TextMap<String> {
    /// Whether two maps hold the same keys with the same values.
    pub fn same_as(&self, other: &TextMap<String>) -> (r: bool)
        ensures
            r == (text_rows(*self) == text_rows(*other)),
    {
        let n: usize = self.entries.len();
        if n != other.entries.len() {
            assert(text_rows(*self).len() != text_rows(*other).len());
            return false;
        }
        let mut i: usize = 0;
        while i < n
            invariant
                n == self.entries@.len(),
                n == other.entries@.len(),
                i <= n,
                forall|j: int| 0 <= j < i ==> #[trigger] text_rows(*self)[j] == text_rows(*other)[j],
            decreases n - i,
        {
            if !same(self.entries[i].0.as_str(), other.entries[i].0.as_str()) || !same(
                self.entries[i].1.as_str(),
                other.entries[i].1.as_str(),
            ) {
                assert(text_rows(*self)[i as int] != text_rows(*other)[i as int]);
                return false;
            }
            i = i + 1;
        }
        assert(text_rows(*self) =~= text_rows(*other));
        true
    }
}

/// Giving a key a value, read as characters.
pub proof fn lemma_text_map_insert(m: Map<Seq<char>, String>, k: Seq<char>, v: String)
    ensures
        m.insert(k, v).map_values(|s: String| s@) == m.map_values(|s: String| s@).insert(k, v@),
{
    assert(m.insert(k, v).map_values(|s: String| s@) =~= m.map_values(|s: String| s@).insert(
        k,
        v@,
    ));
}

// ---------------------------------------------------------------------------
// Sets
// ---------------------------------------------------------------------------
/// There are as many keys as rows.
proof fn lemma_as_many_keys<V>(rows: Seq<(Seq<char>, V)>)
    requires
        ascending(rows),
    ensures
        map_of(rows).dom().finite(),
        map_of(rows).dom().len() == rows.len(),
{
    let keys = rows.map_values(|e: (Seq<char>, V)| e.0);
    assert forall|i: int, j: int|
        0 <= i < keys.len() && 0 <= j < keys.len() && i != j implies keys[i] != keys[j] by {
        lemma_before_irreflexive(keys[i]);
        if i < j {
            assert(before(rows[i].0, rows[j].0));
        } else {
            assert(before(rows[j].0, rows[i].0));
        }
    }
    keys.unique_seq_to_set();
    vstd::seq_lib::seq_to_set_is_finite(keys);
    assert forall|k: Seq<char>| #[trigger] keys.to_set().contains(k) <==> map_of(
        rows,
    ).dom().contains(k) by {
        if keys.contains(k) {
            let i = choose|i: int| 0 <= i < keys.len() && keys[i] == k;
            assert(row_has(rows, k, i));
        }
        if map_of(rows).dom().contains(k) {
            let i = choose|i: int| row_has(rows, k, i);
            assert(keys[i] == k);
        }
    }
    assert(keys.to_set() =~= map_of(rows).dom());
}

/// Different texts.
#[derive(Debug)]
pub struct TextSet {
    texts: TextMap<()>,
}

impl View for TextSet {
    type V = Set<Seq<char>>;

    closed spec fn view(&self) -> Set<Seq<char>> {
        self.texts@.dom()
    }
}

impl TextSet {
    /// No texts.
    pub fn new() -> (r: TextSet)
        ensures
            r@ == Set::<Seq<char>>::empty(),
    {
        let r = TextSet { texts: TextMap::new() };
        assert(r@ =~= Set::<Seq<char>>::empty());
        r
    }

    /// Adds a text, and tells whether it is a new one.
    pub fn insert(&mut self, text: String) -> (r: bool)
        ensures
            final(self)@ == old(self)@.insert(text@),
            r == !old(self)@.contains(text@),
    {
        let ghost t = text@;
        let ghost was = self.texts@;
        let had = self.texts.insert(text, ());
        assert(was.insert(t, ()).dom() =~= was.dom().insert(t));
        had.is_none()
    }

    /// Whether the text is one of them.
    pub fn contains(&self, text: &str) -> (r: bool)
        ensures
            r == self@.contains(text@),
    {
        self.texts.contains_key(text)
    }

    /// How many there are.
    pub fn len(&self) -> (n: usize)
        ensures
            self@.finite(),
            n == self@.len(),
    {
        let n: usize = self.texts.len();
        proof {
            lemma_as_many_keys(self.texts.rows());
        }
        n
    }
}

impl Clone for TextSet {
    fn clone(&self) -> (r: TextSet)
        ensures
            r@ == self@,
    {
        let n: usize = self.texts.len();
        let mut units: Vec<()> = Vec::new();
        let mut i: usize = 0;
        while i < n
            invariant
                n == self.texts.rows().len(),
                i <= n,
                units@.len() == i,
            decreases n - i,
        {
            units.push(());
            i = i + 1;
        }
        let r = TextSet { texts: self.texts.with_values(units) };
        assert(r.texts.rows() =~= self.texts.rows());
        r
    }
}

/// Texts are in order as their first different characters are, and a text comes before
/// every longer one that begins with it.
pub proof fn law_order_is_that_of_the_first_difference(
    p: Seq<char>,
    c: char,
    x: Seq<char>,
    d: char,
    y: Seq<char>,
)
    ensures
        c < d ==> before(p + seq![c] + x, p + seq![d] + y),
        c > d ==> !before(p + seq![c] + x, p + seq![d] + y),
        before(p, p + seq![c] + x),
        !before(p + seq![c] + x, p),
    decreases p.len(),
{
    let a = p + seq![c] + x;
    let b = p + seq![d] + y;
    if p.len() > 0 {
        let q = p.drop_first();
        law_order_is_that_of_the_first_difference(q, c, x, d, y);
        assert(a.drop_first() =~= q + seq![c] + x);
        assert(b.drop_first() =~= q + seq![d] + y);
        assert(a.first() == p.first() && b.first() == p.first());
    } else {
        assert(a.first() == c && b.first() == d);
    }
}

/// `m` without the keys that begin with `p`.
pub open spec fn without_prefix<V>(m: Map<Seq<char>, V>, p: Seq<char>) -> Map<Seq<char>, V> {
    m.restrict(Set::new(|k: Seq<char>| !p.is_prefix_of(k)))
}

/// Every key that begins with the text is gone, and every other one stays with what it
/// held.
pub proof fn law_only_keys_with_the_prefix_go<V>(
    m: Map<Seq<char>, V>,
    p: Seq<char>,
    rest: Seq<char>,
    k: Seq<char>,
)
    ensures
        !without_prefix(m, p).contains_key(p + rest),
        !p.is_prefix_of(k) ==> (without_prefix(m, p).contains_key(k) <==> m.contains_key(k)),
        !p.is_prefix_of(k) && m.contains_key(k) ==> without_prefix(m, p)[k] == m[k],
{
    assert((p + rest).take(p.len() as int) =~= p);
    assert(p.is_prefix_of(p + rest));
}

} // verus!
