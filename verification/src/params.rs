//! An ordered map from parameter names to values: names are kept in the
//! byte order of their UTF-8 text, each at most once, as the signing rules
//! need them listed.

use vstd::prelude::*;
use vstd::utf8::*;
use crate::text::{
    bytes_lt, lemma_bytes_lt_asymmetric, lemma_bytes_lt_irreflexive, lemma_bytes_lt_total,
    lemma_bytes_lt_transitive, lemma_utf8_injective, str_eq, str_lt,
};

verus! {

/// The order of parameter names: byte order of their UTF-8 encodings (the
/// order of `str`).
pub open spec fn key_lt(a: Seq<char>, b: Seq<char>) -> bool {
    bytes_lt(encode_utf8(a), encode_utf8(b))
}

/// Entries listed in strictly increasing order of their names.
pub open spec fn sorted_pairs(s: Seq<(Seq<char>, Seq<char>)>) -> bool {
    forall|i: int, j: int| 0 <= i < j < s.len() ==> key_lt(#[trigger] s[i].0, #[trigger] s[j].0)
}

/// Whether some entry of `s` has the name `k`.
pub open spec fn has_key(s: Seq<(Seq<char>, Seq<char>)>, k: Seq<char>) -> bool {
    exists|i: int| 0 <= i < s.len() && #[trigger] s[i].0 == k
}

/// The map from names to values that a list of entries stands for.
pub open spec fn pairs_map(s: Seq<(Seq<char>, Seq<char>)>) -> Map<Seq<char>, Seq<char>> {
    Map::new(
        |k: Seq<char>| has_key(s, k),
        |k: Seq<char>| s[choose|i: int| 0 <= i < s.len() && #[trigger] s[i].0 == k].1,
    )
}

/// `key_lt` is a strict total order.
pub proof fn lemma_key_lt_order(a: Seq<char>, b: Seq<char>, c: Seq<char>)
    ensures
        !key_lt(a, a),
        !(key_lt(a, b) && key_lt(b, a)),
        a == b || key_lt(a, b) || key_lt(b, a),
        key_lt(a, b) && key_lt(b, c) ==> key_lt(a, c),
{
    lemma_bytes_lt_irreflexive(encode_utf8(a));
    lemma_bytes_lt_asymmetric(encode_utf8(a), encode_utf8(b));
    lemma_bytes_lt_total(encode_utf8(a), encode_utf8(b));
    lemma_utf8_injective(a, b);
    if key_lt(a, b) && key_lt(b, c) {
        lemma_bytes_lt_transitive(encode_utf8(a), encode_utf8(b), encode_utf8(c));
    }
}

/// In a sorted list each name occurs once, and the map gives its value.
pub proof fn lemma_pairs_map_index(s: Seq<(Seq<char>, Seq<char>)>, i: int)
    requires
        sorted_pairs(s),
        0 <= i < s.len(),
    ensures
        pairs_map(s).contains_key(s[i].0),
        pairs_map(s)[s[i].0] == s[i].1,
        forall|j: int| 0 <= j < s.len() && s[j].0 == s[i].0 ==> j == i,
{
    assert forall|j: int| 0 <= j < s.len() && s[j].0 == s[i].0 implies j == i by {
        lemma_key_lt_order(s[i].0, s[i].0, s[i].0);
        if j < i {
            assert(key_lt(s[j].0, s[i].0));
        } else if j > i {
            assert(key_lt(s[i].0, s[j].0));
        }
    }
    assert(has_key(s, s[i].0));
    let c = choose|j: int| 0 <= j < s.len() && #[trigger] s[j].0 == s[i].0;
    assert(c == i);
}

/// The empty list stands for the empty map.
pub proof fn lemma_pairs_map_empty(s: Seq<(Seq<char>, Seq<char>)>)
    requires
        s.len() == 0,
    ensures
        pairs_map(s) == Map::<Seq<char>, Seq<char>>::empty(),
{
    assert(pairs_map(s) =~= Map::<Seq<char>, Seq<char>>::empty());
}

/// Dropping the first entry of a sorted list removes its name from the map.
proof fn lemma_pairs_map_drop_first(s: Seq<(Seq<char>, Seq<char>)>)
    requires
        sorted_pairs(s),
        s.len() > 0,
    ensures
        sorted_pairs(s.drop_first()),
        pairs_map(s.drop_first()) == pairs_map(s).remove(s[0].0),
{
    let t = s.drop_first();
    assert forall|i: int, j: int| 0 <= i < j < t.len() implies key_lt(#[trigger] t[i].0, #[trigger] t[j].0) by {
        assert(t[i] == s[i + 1] && t[j] == s[j + 1]);
    }
    assert forall|k: Seq<char>| #[trigger] pairs_map(t).contains_key(k) == pairs_map(s).remove(s[0].0).contains_key(k) by {
        if has_key(t, k) {
            let i = choose|i: int| 0 <= i < t.len() && #[trigger] t[i].0 == k;
            assert(s[i + 1].0 == k);
            lemma_pairs_map_index(s, i + 1);
        }
        if has_key(s, k) && k != s[0].0 {
            let i = choose|i: int| 0 <= i < s.len() && #[trigger] s[i].0 == k;
            assert(i != 0);
            assert(t[i - 1].0 == k);
        }
    }
    assert forall|k: Seq<char>| #[trigger] pairs_map(t).contains_key(k) implies pairs_map(t)[k] == pairs_map(s)[k] by {
        let i = choose|i: int| 0 <= i < t.len() && #[trigger] t[i].0 == k;
        lemma_pairs_map_index(t, i);
        lemma_pairs_map_index(s, i + 1);
    }
    assert(pairs_map(t) =~= pairs_map(s).remove(s[0].0));
}

/// A sorted list of entries is determined by the map it stands for: two
/// sorted lists with the same map are the same list. So the order in which
/// parameters were inserted never shows in the canonical listing.
pub proof fn lemma_sorted_pairs_unique(s1: Seq<(Seq<char>, Seq<char>)>, s2: Seq<(Seq<char>, Seq<char>)>)
    requires
        sorted_pairs(s1),
        sorted_pairs(s2),
        pairs_map(s1) == pairs_map(s2),
    ensures
        s1 == s2,
    decreases s1.len(),
{
    if s1.len() == 0 {
        if s2.len() > 0 {
            lemma_pairs_map_index(s2, 0);
        }
        assert(s1 =~= s2);
    } else {
        lemma_pairs_map_index(s1, 0);
        let k0 = s1[0].0;
        assert(has_key(s2, k0));
        let j = choose|j: int| 0 <= j < s2.len() && #[trigger] s2[j].0 == k0;
        if j > 0 {
            lemma_pairs_map_index(s2, 0);
            let m = s2[0].0;
            assert(has_key(s1, m));
            let i = choose|i: int| 0 <= i < s1.len() && #[trigger] s1[i].0 == m;
            assert(key_lt(s2[0].0, s2[j].0));
            lemma_key_lt_order(m, k0, m);
            if i > 0 {
                assert(key_lt(s1[0].0, s1[i].0));
            }
        }
        assert(j == 0);
        lemma_pairs_map_index(s2, 0);
        assert(s1[0] == s2[0]);
        lemma_pairs_map_drop_first(s1);
        lemma_pairs_map_drop_first(s2);
        lemma_sorted_pairs_unique(s1.drop_first(), s2.drop_first());
        assert(s1 =~= seq![s1[0]] + s1.drop_first());
        assert(s2 =~= seq![s2[0]] + s2.drop_first());
    }
}

/// The sorted listing of a finite map of parameters.
pub open spec fn sorted_listing(m: Map<Seq<char>, Seq<char>>) -> Seq<(Seq<char>, Seq<char>)> {
    choose|s: Seq<(Seq<char>, Seq<char>)>| sorted_pairs(s) && pairs_map(s) == m
}

/// A sorted list is the sorted listing of its own map.
pub proof fn lemma_sorted_listing(s: Seq<(Seq<char>, Seq<char>)>)
    requires
        sorted_pairs(s),
    ensures
        sorted_listing(pairs_map(s)) == s,
{
    let t = sorted_listing(pairs_map(s));
    assert(sorted_pairs(s) && pairs_map(s) == pairs_map(s));
    lemma_sorted_pairs_unique(t, s);
}

/// `name=value` with both sides encoded by `enc`.
pub open spec fn pair_text(p: (Seq<char>, Seq<char>), enc: spec_fn(Seq<char>) -> Seq<char>) -> Seq<char> {
    enc(p.0) + seq!['='] + enc(p.1)
}

/// The entries as `name=value` pairs joined by `&`, in list order.
pub open spec fn query_text(s: Seq<(Seq<char>, Seq<char>)>, enc: spec_fn(Seq<char>) -> Seq<char>) -> Seq<char>
    decreases s.len(),
{
    if s.len() == 0 {
        seq![]
    } else if s.len() == 1 {
        pair_text(s[0], enc)
    } else {
        query_text(s.drop_last(), enc) + seq!['&'] + pair_text(s.last(), enc)
    }
}

/// Request parameters: names mapped to values, listed in name order.
#[derive(Debug)]
pub struct ParamMap {
    entries: Vec<(String, String)>,
}

impl View for ParamMap {
    type V = Seq<(Seq<char>, Seq<char>)>;

    /// The entries, in name order.
    closed spec fn view(&self) -> Seq<(Seq<char>, Seq<char>)> {
        self.entries@.map_values(|e: (String, String)| (e.0@, e.1@))
    }
}

impl ParamMap {
    /// The entries are in strictly increasing name order.
    pub open spec fn wf(&self) -> bool {
        sorted_pairs(self@)
    }

    /// The map from names to values.
    pub open spec fn as_map(&self) -> Map<Seq<char>, Seq<char>> {
        pairs_map(self@)
    }

    /// An empty parameter map.
    pub fn new() -> (r: Self)
        ensures
            r.wf(),
            r@ == Seq::<(Seq<char>, Seq<char>)>::empty(),
            r.as_map() == Map::<Seq<char>, Seq<char>>::empty(),
    {
        let r = ParamMap { entries: Vec::new() };
        assert(r@ =~= Seq::<(Seq<char>, Seq<char>)>::empty());
        proof {
            lemma_pairs_map_empty(r@);
        }
        r
    }

    /// The number of entries.
    pub fn len(&self) -> (r: usize)
        ensures
            r == self@.len(),
    {
        self.entries.len()
    }

    /// The name and value of the entry at position `i` in name order.
    pub fn entry(&self, i: usize) -> (r: (&str, &str))
        requires
            i < self@.len(),
        ensures
            r.0@ == self@[i as int].0,
            r.1@ == self@[i as int].1,
    {
        let e = &self.entries[i];
        (e.0.as_str(), e.1.as_str())
    }

    /// The value of the entry named `key`, if any.
    pub fn get(&self, key: &str) -> (r: Option<&str>)
        requires
            self.wf(),
        ensures
            r is Some <==> self.as_map().contains_key(key@),
            r matches Some(v) ==> v@ == self.as_map()[key@],
    {
        let n = self.entries.len();
        let mut i: usize = 0;
        while i < n
            invariant
                n == self@.len(),
                i <= n,
                self.wf(),
                forall|j: int| 0 <= j < i ==> self@[j].0 != key@,
            decreases n - i,
        {
            if str_eq(self.entries[i].0.as_str(), key) {
                proof {
                    lemma_pairs_map_index(self@, i as int);
                }
                return Some(self.entries[i].1.as_str());
            }
            i = i + 1;
        }
        assert(!has_key(self@, key@));
        None
    }

    /// Sets the value of `key` to `value`, replacing an earlier value.
    pub fn insert(&mut self, key: String, value: String)
        requires
            old(self).wf(),
        ensures
            final(self).wf(),
            final(self).as_map() == old(self).as_map().insert(key@, value@),
    {
        let ghost s = self@;
        let n = self.entries.len();
        let mut i: usize = 0;
        while i < n && str_lt(self.entries[i].0.as_str(), key.as_str())
            invariant
                n == s.len(),
                self@ == s,
                i <= n,
                forall|j: int| 0 <= j < i ==> key_lt(#[trigger] s[j].0, key@),
            decreases n - i,
        {
            i = i + 1;
        }
        let ghost k = key@;
        let ghost v = value@;
        if i < n && str_eq(self.entries[i].0.as_str(), key.as_str()) {
            self.entries.set(i, (key, value));
            proof {
                let t = self@;
                assert(t =~= s.update(i as int, (k, v)));
                assert forall|a: int, b: int| 0 <= a < b < t.len() implies key_lt(#[trigger] t[a].0, #[trigger] t[b].0) by {
                    assert(t[a].0 == s[a].0 && t[b].0 == s[b].0);
                }
                assert forall|kk: Seq<char>| #[trigger] pairs_map(t).contains_key(kk) == pairs_map(s).insert(k, v).contains_key(kk) by {
                    if has_key(t, kk) {
                        let j = choose|j: int| 0 <= j < t.len() && #[trigger] t[j].0 == kk;
                        assert(s[j].0 == kk);
                        lemma_pairs_map_index(s, j);
                    }
                    if has_key(s, kk) {
                        let j = choose|j: int| 0 <= j < s.len() && #[trigger] s[j].0 == kk;
                        assert(t[j].0 == kk);
                    }
                    if kk == k {
                        assert(t[i as int].0 == kk);
                    }
                }
                assert forall|kk: Seq<char>| #[trigger] pairs_map(t).contains_key(kk) implies pairs_map(t)[kk] == pairs_map(s).insert(k, v)[kk] by {
                    let j = choose|j: int| 0 <= j < t.len() && #[trigger] t[j].0 == kk;
                    lemma_pairs_map_index(t, j);
                    if j != i {
                        assert(t[i as int].0 == k);
                        assert(t[j] == s[j]);
                        lemma_pairs_map_index(s, j);
                    }
                }
                assert(pairs_map(t) =~= pairs_map(s).insert(k, v));
            }
        } else {
            self.entries.insert(i, (key, value));
            proof {
                let t = self@;
                assert(t =~= s.insert(i as int, (k, v)));
                if i < n {
                    lemma_key_lt_order(s[i as int].0, k, k);
                    assert(key_lt(k, s[i as int].0));
                }
                assert forall|a: int, b: int| 0 <= a < b < t.len() implies key_lt(#[trigger] t[a].0, #[trigger] t[b].0) by {
                    if b < i {
                    } else if b == i {
                    } else if a < i {
                        lemma_key_lt_order(t[a].0, k, s[i as int].0);
                        lemma_key_lt_order(t[a].0, s[i as int].0, t[b].0);
                        if b - 1 > i {
                            assert(key_lt(s[i as int].0, s[b - 1].0));
                        }
                    } else if a == i {
                        lemma_key_lt_order(k, s[i as int].0, t[b].0);
                        if b - 1 > i {
                            assert(key_lt(s[i as int].0, s[b - 1].0));
                        }
                    } else {
                        assert(t[a] == s[a - 1] && t[b] == s[b - 1]);
                    }
                }
                assert forall|kk: Seq<char>| #[trigger] pairs_map(t).contains_key(kk) == pairs_map(s).insert(k, v).contains_key(kk) by {
                    if has_key(t, kk) {
                        let j = choose|j: int| 0 <= j < t.len() && #[trigger] t[j].0 == kk;
                        if j < i {
                            assert(s[j].0 == kk);
                        } else if j > i {
                            assert(s[j - 1].0 == kk);
                        }
                    }
                    if has_key(s, kk) {
                        let j = choose|j: int| 0 <= j < s.len() && #[trigger] s[j].0 == kk;
                        if j < i {
                            assert(t[j].0 == kk);
                        } else {
                            assert(t[j + 1].0 == kk);
                        }
                    }
                    if kk == k {
                        assert(t[i as int].0 == kk);
                    }
                }
                assert forall|kk: Seq<char>| #[trigger] pairs_map(t).contains_key(kk) implies pairs_map(t)[kk] == pairs_map(s).insert(k, v)[kk] by {
                    let j = choose|j: int| 0 <= j < t.len() && #[trigger] t[j].0 == kk;
                    lemma_pairs_map_index(t, j);
                    if j < i {
                        lemma_pairs_map_index(s, j);
                        lemma_key_lt_order(kk, k, kk);
                    } else if j > i {
                        lemma_pairs_map_index(s, j - 1);
                        lemma_pairs_map_index(t, i as int);
                    }
                }
                assert(pairs_map(t) =~= pairs_map(s).insert(k, v));
            }
        }
    }
}

} // verus!
