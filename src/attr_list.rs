//! A list of rendered attributes, kept sorted by name with each name at most
//! once, so that a menu line lists its attributes in a reproducible order.
use vstd::prelude::*;
use crate::text::{
    chars_of, compare_keys, key_lt, lemma_key_lt_strict, lemma_key_lt_total, push_char, push_quoted,
    push_str, quoted,
};

verus! {

/// A name and a value, as character sequences.
pub type Entry = (Seq<char>, Seq<char>);

/// Names strictly increase along `s`.
pub open spec fn strictly_sorted(s: Seq<Entry>) -> bool {
    forall|i: int, j: int| 0 <= i < j < s.len() ==> key_lt(#[trigger] s[i].0, #[trigger] s[j].0)
}

/// No name occurs twice in `s`.
pub open spec fn distinct_names(s: Seq<Entry>) -> bool {
    forall|i: int, j: int| 0 <= i < s.len() && 0 <= j < s.len() && i != j ==> #[trigger] s[i].0 != #[trigger] s[j].0
}

/// Some entry of `s` has the name `k`.
pub open spec fn has_name(s: Seq<Entry>, k: Seq<char>) -> bool {
    exists|i: int| 0 <= i < s.len() && #[trigger] s[i].0 == k
}

/// The map from names to values that `s` lists.
pub open spec fn to_map(s: Seq<Entry>) -> Map<Seq<char>, Seq<char>> {
    Map::new(
        |k: Seq<char>| has_name(s, k),
        |k: Seq<char>| s[choose|i: int| 0 <= i < s.len() && #[trigger] s[i].0 == k].1,
    )
}

/// The entries of `m` in increasing order of their names.
pub open spec fn sorted_entries(m: Map<Seq<char>, Seq<char>>) -> Seq<Entry> {
    choose|s: Seq<Entry>| strictly_sorted(s) && to_map(s) == m
}

/// One attribute as it stands on a menu line: ` name=value`, the value quoted
/// when it holds a space.
pub open spec fn attr_text(e: Entry) -> Seq<char> {
    seq![' '] + e.0 + seq!['='] + quoted(e.1)
}

/// The attributes of `s`, in order.
pub open spec fn attrs_text(s: Seq<Entry>) -> Seq<char>
    decreases s.len(),
{
    if s.len() == 0 {
        seq![]
    } else {
        attrs_text(s.drop_last()) + attr_text(s.last())
    }
}

pub proof fn lemma_sorted_distinct(s: Seq<Entry>)
    requires
        strictly_sorted(s),
    ensures
        distinct_names(s),
{
    assert forall|i: int, j: int| 0 <= i < s.len() && 0 <= j < s.len() && i != j implies #[trigger] s[i].0
        != #[trigger] s[j].0 by {
        lemma_key_lt_strict(s[i].0, s[j].0, s[j].0);
        lemma_key_lt_strict(s[j].0, s[i].0, s[i].0);
    }
}

pub proof fn lemma_to_map_value(s: Seq<Entry>, i: int)
    requires
        distinct_names(s),
        0 <= i < s.len(),
    ensures
        to_map(s).contains_key(s[i].0),
        to_map(s)[s[i].0] == s[i].1,
{
    assert(has_name(s, s[i].0));
}

pub proof fn lemma_to_map_drop_first(s: Seq<Entry>)
    requires
        distinct_names(s),
        s.len() > 0,
    ensures
        to_map(s.drop_first()) == to_map(s).remove(s[0].0),
{
    let t = s.drop_first();
    assert(distinct_names(t)) by {
        assert forall|i: int, j: int| 0 <= i < t.len() && 0 <= j < t.len() && i != j implies #[trigger] t[i].0
            != #[trigger] t[j].0 by {
            assert(t[i] == s[i + 1] && t[j] == s[j + 1]);
        }
    }
    assert forall|k: Seq<char>| #[trigger] to_map(t).contains_key(k) <==> to_map(s).remove(s[0].0).contains_key(k) by {
        if has_name(t, k) {
            let i = choose|i: int| 0 <= i < t.len() && #[trigger] t[i].0 == k;
            assert(s[i + 1].0 == k);
            assert(has_name(s, k));
        }
        if has_name(s, k) && k != s[0].0 {
            let i = choose|i: int| 0 <= i < s.len() && #[trigger] s[i].0 == k;
            assert(t[i - 1].0 == k);
        }
    }
    assert forall|k: Seq<char>| #[trigger] to_map(t).contains_key(k) implies to_map(t)[k] == to_map(s)[k] by {
        let i = choose|i: int| 0 <= i < t.len() && #[trigger] t[i].0 == k;
        lemma_to_map_value(t, i);
        lemma_to_map_value(s, i + 1);
        assert(s[i + 1] == t[i]);
    }
    assert(to_map(t) =~= to_map(s).remove(s[0].0));
}

/// Two sorted lists that list the same map are the same list.
pub proof fn lemma_sorted_unique(s1: Seq<Entry>, s2: Seq<Entry>)
    requires
        strictly_sorted(s1),
        strictly_sorted(s2),
        to_map(s1) == to_map(s2),
    ensures
        s1 == s2,
    decreases s1.len(),
{
    lemma_sorted_distinct(s1);
    lemma_sorted_distinct(s2);
    if s1.len() == 0 {
        if s2.len() > 0 {
            lemma_to_map_value(s2, 0);
        }
        assert(s1 =~= s2);
    } else {
        lemma_to_map_value(s1, 0);
        if s2.len() == 0 {
            assert(!has_name(s2, s1[0].0));
        }
        lemma_to_map_value(s2, 0);
        let k1 = s1[0].0;
        let k2 = s2[0].0;
        let j = choose|i: int| 0 <= i < s1.len() && #[trigger] s1[i].0 == k2;
        let j2 = choose|i: int| 0 <= i < s2.len() && #[trigger] s2[i].0 == k1;
        if j > 0 && j2 > 0 {
            assert(key_lt(k1, k2));
            assert(key_lt(k2, k1));
            lemma_key_lt_strict(k1, k2, k1);
        }
        assert(k1 == k2);
        assert(s1[0] == s2[0]);
        lemma_to_map_drop_first(s1);
        lemma_to_map_drop_first(s2);
        let t1 = s1.drop_first();
        let t2 = s2.drop_first();
        assert(strictly_sorted(t1)) by {
            assert forall|i: int, j: int| 0 <= i < j < t1.len() implies key_lt(#[trigger] t1[i].0, #[trigger] t1[j].0) by {
                assert(t1[i] == s1[i + 1] && t1[j] == s1[j + 1]);
            }
        }
        assert(strictly_sorted(t2)) by {
            assert forall|i: int, j: int| 0 <= i < j < t2.len() implies key_lt(#[trigger] t2[i].0, #[trigger] t2[j].0) by {
                assert(t2[i] == s2[i + 1] && t2[j] == s2[j + 1]);
            }
        }
        lemma_sorted_unique(t1, t2);
        assert(s1 =~= s2) by {
            assert(s1 == seq![s1[0]] + t1);
            assert(s2 == seq![s2[0]] + t2);
        }
    }
}

/// A sorted list is the list `sorted_entries` gives for its own map.
pub proof fn lemma_sorted_entries(s: Seq<Entry>)
    requires
        strictly_sorted(s),
    ensures
        sorted_entries(to_map(s)) == s,
{
    let t = sorted_entries(to_map(s));
    assert(strictly_sorted(s) && to_map(s) == to_map(s));
    lemma_sorted_unique(t, s);
}

/// A finite nonempty set of names has a least one.
pub proof fn lemma_least_name(keys: Set<Seq<char>>) -> (k: Seq<char>)
    requires
        keys.finite(),
        keys.len() > 0,
    ensures
        keys.contains(k),
        forall|j: Seq<char>| #[trigger] keys.contains(j) && j != k ==> key_lt(k, j),
    decreases keys.len(),
{
    let x = keys.choose();
    let rest = keys.remove(x);
    if rest.len() == 0 {
        assert forall|j: Seq<char>| #[trigger] keys.contains(j) && j != x implies key_lt(x, j) by {
            assert(rest.contains(j));
        }
        x
    } else {
        let y = lemma_least_name(rest);
        if key_lt(x, y) {
            assert forall|j: Seq<char>| #[trigger] keys.contains(j) && j != x implies key_lt(x, j) by {
                if j != y {
                    assert(rest.contains(j));
                    lemma_key_lt_strict(x, y, j);
                }
            }
            x
        } else {
            lemma_key_lt_total(x, y);
            y
        }
    }
}

/// Every map with finitely many names is listed by some sorted list.
pub proof fn lemma_sorted_exists(m: Map<Seq<char>, Seq<char>>)
    requires
        m.dom().finite(),
    ensures
        exists|s: Seq<Entry>| strictly_sorted(s) && to_map(s) == m,
    decreases m.dom().len(),
{
    if m.dom().len() == 0 {
        let s = Seq::<Entry>::empty();
        assert(m.dom() =~= Set::<Seq<char>>::empty()) by {
            if exists|q: Seq<char>| m.dom().contains(q) {
                let q = choose|q: Seq<char>| m.dom().contains(q);
                assert(m.dom().remove(q).len() < m.dom().len());
            }
        }
        assert(to_map(s) =~= m);
    } else {
        let k = lemma_least_name(m.dom());
        let m2 = m.remove(k);
        lemma_sorted_exists(m2);
        let t = choose|t: Seq<Entry>| strictly_sorted(t) && to_map(t) == m2;
        let s = seq![(k, m[k])] + t;
        assert(forall|i: int| 0 <= i < t.len() ==> s[i + 1] == #[trigger] t[i]);
        assert forall|i: int| 0 <= i < t.len() implies m2.contains_key(#[trigger] t[i].0) by {
            assert(has_name(t, t[i].0));
        }
        assert(strictly_sorted(s)) by {
            assert forall|i: int, j: int| 0 <= i < j < s.len() implies key_lt(#[trigger] s[i].0, #[trigger] s[j].0) by {
                if i == 0 {
                    assert(s[j] == t[j - 1]);
                    assert(m2.contains_key(t[j - 1].0));
                } else {
                    assert(s[i] == t[i - 1] && s[j] == t[j - 1]);
                }
            }
        }
        lemma_sorted_distinct(s);
        lemma_sorted_distinct(t);
        assert forall|q: Seq<char>| #[trigger] to_map(s).contains_key(q) <==> m.contains_key(q) by {
            if has_name(s, q) {
                let i = choose|i: int| 0 <= i < s.len() && #[trigger] s[i].0 == q;
                if i > 0 {
                    assert(t[i - 1].0 == q);
                    assert(m2.contains_key(q));
                }
            }
            if m.contains_key(q) {
                if q == k {
                    assert(s[0].0 == q);
                } else {
                    assert(m2.contains_key(q));
                    assert(has_name(t, q));
                    let i = choose|i: int| 0 <= i < t.len() && #[trigger] t[i].0 == q;
                    assert(s[i + 1].0 == q);
                }
            }
        }
        assert forall|q: Seq<char>| #[trigger] to_map(s).contains_key(q) implies to_map(s)[q] == m[q] by {
            let i = choose|i: int| 0 <= i < s.len() && #[trigger] s[i].0 == q;
            lemma_to_map_value(s, i);
            if i > 0 {
                lemma_to_map_value(t, i - 1);
                assert(s[i] == t[i - 1]);
            }
        }
        assert(to_map(s) =~= m);
    }
}

/// Attributes of one menu line, sorted by name, each name at most once.
pub struct AttrList {
    pub entries: Vec<(String, String)>,
}

impl View for AttrList {
    type V = Seq<Entry>;

    open spec fn view(&self) -> Seq<Entry> {
        self.entries@.map_values(|e: (String, String)| (e.0@, e.1@))
    }
}

impl AttrList {
    /// The list keeps its names strictly increasing.
    pub open spec fn wf(&self) -> bool {
        strictly_sorted(self@)
    }

    /// An empty list.
    pub fn new() -> (r: AttrList)
        ensures
            r@ == Seq::<Entry>::empty(),
            r.wf(),
    {
        AttrList { entries: Vec::new() }
    }

    /// The number of attributes.
    pub fn len(&self) -> (r: usize)
        ensures
            r == self@.len(),
    {
        self.entries.len()
    }

    /// Sets the attribute `k` to `v`, replacing any earlier value of `k`.
    pub fn insert(&mut self, k: String, v: String)
        requires
            old(self).wf(),
        ensures
            final(self).wf(),
            to_map(final(self)@) == to_map(old(self)@).insert(k@, v@),
    {
        let ghost s = self@;
        let kc = chars_of(k.as_str());
        assert(kc@ == k@);
        let n = self.entries.len();
        let mut p: usize = 0;
        let mut c: i8 = -1;
        while p < n && c < 0
            invariant
                n == self.entries.len(),
                self@ == s,
                kc@ == k@,
                p <= n,
                forall|j: int| 0 <= j < p ==> key_lt(#[trigger] s[j].0, k@),
                c < 0 ==> forall|j: int| 0 <= j < p ==> key_lt(#[trigger] s[j].0, k@),
                c >= 0 ==> p < n && (c == 0 <==> s[p as int].0 == k@) && (c > 0 ==> key_lt(k@, s[p as int].0)),
            decreases n - p + (if c < 0 { 1int } else { 0int }),
        {
            let name = chars_of(self.entries[p].0.as_str());
            assert(name@ == s[p as int].0);
            c = compare_keys(&name, &kc);
            if c < 0 {
                p = p + 1;
            } else if c > 0 {
                proof {
                    lemma_key_lt_strict(k@, name@, name@);
                }
            }
        }
        proof {
            lemma_sorted_distinct(s);
        }
        if c == 0 {
            self.entries.set(p, (k, v));
            let ghost t = self@;
            proof {
                assert(t =~= s.update(p as int, (k@, v@)));
                assert(strictly_sorted(t)) by {
                    assert forall|i: int, j: int| 0 <= i < j < t.len() implies key_lt(#[trigger] t[i].0, #[trigger] t[j].0) by {
                        assert(t[i].0 == s[i].0 && t[j].0 == s[j].0);
                    }
                }
                lemma_sorted_distinct(t);
                assert forall|q: Seq<char>| #[trigger] to_map(t).contains_key(q) <==> to_map(s).insert(k@, v@).contains_key(q) by {
                    if has_name(s, q) {
                        let i = choose|i: int| 0 <= i < s.len() && #[trigger] s[i].0 == q;
                        assert(t[i].0 == q);
                    }
                    if has_name(t, q) {
                        let i = choose|i: int| 0 <= i < t.len() && #[trigger] t[i].0 == q;
                        assert(s[i].0 == q);
                    }
                }
                assert forall|q: Seq<char>| #[trigger] to_map(t).contains_key(q) implies to_map(t)[q] == to_map(s).insert(k@, v@)[q] by {
                    let i = choose|i: int| 0 <= i < t.len() && #[trigger] t[i].0 == q;
                    lemma_to_map_value(t, i);
                    if i != p {
                        lemma_to_map_value(s, i);
                    }
                }
                assert(to_map(t) =~= to_map(s).insert(k@, v@));
            }
        } else {
            self.entries.insert(p, (k, v));
            let ghost t = self@;
            proof {
                assert(t =~= s.insert(p as int, (k@, v@)));
                assert(strictly_sorted(t)) by {
                    assert forall|i: int, j: int| 0 <= i < j < t.len() implies key_lt(#[trigger] t[i].0, #[trigger] t[j].0) by {
                        if j < p {
                            assert(t[i] == s[i] && t[j] == s[j]);
                        } else if j == p {
                            assert(t[i] == s[i]);
                        } else if i == p {
                            assert(t[j] == s[j - 1]);
                            if j - 1 > p {
                                assert(key_lt(s[p as int].0, s[j - 1].0));
                                lemma_key_lt_strict(k@, s[p as int].0, s[j - 1].0);
                            }
                        } else if i < p {
                            assert(t[i] == s[i] && t[j] == s[j - 1]);
                            assert(key_lt(s[i].0, k@));
                            assert(key_lt(k@, s[p as int].0));
                            lemma_key_lt_strict(s[i].0, k@, s[p as int].0);
                            if j - 1 > p {
                                assert(key_lt(s[p as int].0, s[j - 1].0));
                                lemma_key_lt_strict(s[i].0, s[p as int].0, s[j - 1].0);
                            }
                        } else {
                            assert(t[i] == s[i - 1] && t[j] == s[j - 1]);
                        }
                    }
                }
                lemma_sorted_distinct(t);
                assert(!has_name(s, k@)) by {
                    if has_name(s, k@) {
                        let i = choose|i: int| 0 <= i < s.len() && #[trigger] s[i].0 == k@;
                        if i < p {
                            lemma_key_lt_strict(k@, k@, k@);
                        } else {
                            if i > p {
                                lemma_key_lt_strict(k@, s[p as int].0, s[i].0);
                            }
                            lemma_key_lt_strict(k@, k@, k@);
                        }
                    }
                }
                assert forall|q: Seq<char>| #[trigger] to_map(t).contains_key(q) <==> to_map(s).insert(k@, v@).contains_key(q) by {
                    if has_name(s, q) {
                        let i = choose|i: int| 0 <= i < s.len() && #[trigger] s[i].0 == q;
                        if i < p {
                            assert(t[i].0 == q);
                        } else {
                            assert(t[i + 1].0 == q);
                        }
                    }
                    if q == k@ {
                        assert(t[p as int].0 == q);
                    }
                    if has_name(t, q) {
                        let i = choose|i: int| 0 <= i < t.len() && #[trigger] t[i].0 == q;
                        if i < p {
                            assert(s[i].0 == q);
                        } else if i > p {
                            assert(s[i - 1].0 == q);
                        }
                    }
                }
                assert forall|q: Seq<char>| #[trigger] to_map(t).contains_key(q) implies to_map(t)[q] == to_map(s).insert(k@, v@)[q] by {
                    let i = choose|i: int| 0 <= i < t.len() && #[trigger] t[i].0 == q;
                    lemma_to_map_value(t, i);
                    if i < p {
                        lemma_to_map_value(s, i);
                    } else if i > p {
                        lemma_to_map_value(s, i - 1);
                    }
                }
                assert(to_map(t) =~= to_map(s).insert(k@, v@));
            }
        }
    }

    /// Appends ` name=value` for each attribute, in order.
    pub fn push_to(&self, out: &mut String)
        ensures
            final(out)@ == old(out)@ + attrs_text(self@),
    {
        let n = self.entries.len();
        let mut i: usize = 0;
        while i < n
            invariant
                n == self.entries.len(),
                i <= n,
                out@ == old(out)@ + attrs_text(self@.take(i as int)),
            decreases n - i,
        {
            let ghost before = out@;
            push_char(out, ' ');
            push_str(out, self.entries[i].0.as_str());
            push_char(out, '=');
            push_quoted(out, self.entries[i].1.as_str());
            proof {
                let e = self@[i as int];
                assert(self@.take(i + 1).drop_last() == self@.take(i as int));
                assert(self@.take(i + 1).last() == e);
                assert(out@ == before + attr_text(e));
            }
            i = i + 1;
        }
        assert(self@.take(n as int) == self@);
    }
}

} // verus!
