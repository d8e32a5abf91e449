//! Route table: client-facing model alias → ordered fallback legs.
use std::collections::HashSet;

use vstd::prelude::*;

use crate::text::{compare_text, text_eq, text_lt, TextOrder};

verus! {

/// One provider/model pair of a fallback chain.
#[derive(Debug, Clone, PartialEq, Eq)]
pub struct ChainLeg {
    pub provider: String,
    pub model: String,
}

/// A leg as plain text.
pub struct LegView {
    pub provider: Seq<char>,
    pub model: Seq<char>,
}

impl View for ChainLeg {
    type V = LegView;

    open spec fn view(&self) -> LegView {
        LegView { provider: self.provider@, model: self.model@ }
    }
}

impl DeepView for ChainLeg {
    type V = LegView;

    open spec fn deep_view(&self) -> LegView {
        self@
    }
}

impl ChainLeg {
    /// A copy of the leg.
    pub fn duplicate(&self) -> (r: ChainLeg)
        ensures
            r@ == self@,
    {
        ChainLeg { provider: self.provider.clone(), model: self.model.clone() }
    }
}

/// One alias and its legs.
#[derive(Debug)]
struct Route {
    alias: String,
    legs: Vec<ChainLeg>,
}

/// Model aliases with their ordered fallback legs, kept sorted by alias.
#[derive(Debug)]
pub struct RouteTable {
    routes: Vec<Route>,
}

/// A sequence of texts in strictly increasing order (so without repeats).
pub open spec fn strictly_sorted(s: Seq<Seq<char>>) -> bool {
    forall|i: int, j: int| 0 <= i < j < s.len() ==> text_lt(#[trigger] s[i], #[trigger] s[j])
}

/// Every provider named by some leg of some alias.
pub open spec fn providers_of(m: Map<Seq<char>, Seq<LegView>>) -> Set<Seq<char>> {
    Set::new(
        |p: Seq<char>|
            exists|k: Seq<char>, j: int|
                #![trigger m[k][j]]
                m.contains_key(k) && 0 <= j < m[k].len() && m[k][j].provider == p,
    )
}

/// What a set of strings holds, by the characters of each string.
pub uninterp spec fn text_set(s: HashSet<String>) -> Set<Seq<char>>;

/// `HashSet::new`: an empty set.
#[verifier::external_body]
fn text_set_new() -> (r: HashSet<String>)
    ensures
        text_set(r) == Set::<Seq<char>>::empty(),
{
    HashSet::new()
}

/// `HashSet::insert`: afterwards the set holds the string (once, since
/// equal strings are one element).
#[verifier::external_body]
fn text_set_insert(s: &mut HashSet<String>, v: String)
    ensures
        text_set(*final(s)) == text_set(*old(s)).insert(v@),
{
    s.insert(v);
}

/// The table that collecting `(alias, legs)` pairs builds: a later pair for
/// an alias replaces an earlier one.
pub open spec fn collect_routes(entries: Seq<(Seq<char>, Seq<LegView>)>) -> Map<
    Seq<char>,
    Seq<LegView>,
>
    decreases entries.len(),
{
    if entries.len() == 0 {
        Map::empty()
    } else {
        collect_routes(entries.drop_last()).insert(entries.last().0, entries.last().1)
    }
}

/// Collecting pairs keeps exactly the aliases that some pair names.
pub proof fn law_collected_aliases(entries: Seq<(Seq<char>, Seq<LegView>)>, k: Seq<char>)
    ensures
        collect_routes(entries).contains_key(k) <==> exists|i: int|
            0 <= i < entries.len() && (#[trigger] entries[i]).0 == k,
    decreases entries.len(),
{
    if entries.len() > 0 {
        let init = entries.drop_last();
        law_collected_aliases(init, k);
        if exists|i: int| 0 <= i < init.len() && (#[trigger] init[i]).0 == k {
            let i = choose|i: int| 0 <= i < init.len() && (#[trigger] init[i]).0 == k;
            assert(entries[i] == init[i]);
        }
        if exists|i: int| 0 <= i < entries.len() && (#[trigger] entries[i]).0 == k {
            let i = choose|i: int| 0 <= i < entries.len() && (#[trigger] entries[i]).0 == k;
            if i < entries.len() - 1 {
                assert(init[i] == entries[i]);
            }
        }
    }
}

/// An alias gets the legs of the last pair that names it.
pub proof fn law_collected_legs(entries: Seq<(Seq<char>, Seq<LegView>)>, i: int)
    requires
        0 <= i < entries.len(),
        forall|j: int| i < j < entries.len() ==> (#[trigger] entries[j]).0 != entries[i].0,
    ensures
        collect_routes(entries).contains_key(entries[i].0),
        collect_routes(entries)[entries[i].0] == entries[i].1,
    decreases entries.len(),
{
    if i < entries.len() - 1 {
        let init = entries.drop_last();
        assert(init[i] == entries[i]);
        assert forall|j: int| i < j < init.len() implies (#[trigger] init[j]).0 != init[i].0 by {
            assert(init[j] == entries[j]);
        }
        law_collected_legs(init, i);
        assert(entries.last() == entries[entries.len() - 1]);
    }
}

/// The text of `(alias, legs)` pairs.
pub open spec fn entries_view(entries: Seq<(String, Vec<ChainLeg>)>) -> Seq<
    (Seq<char>, Seq<LegView>),
> {
    entries.map_values(|e: (String, Vec<ChainLeg>)| (e.0@, e.1.deep_view()))
}

impl View for RouteTable {
    type V = Map<Seq<char>, Seq<LegView>>;

    /// Alias → legs.
    closed spec fn view(&self) -> Map<Seq<char>, Seq<LegView>> {
        Map::new(
            |k: Seq<char>| exists|i: int| 0 <= i < self.routes@.len() && self.routes@[i].alias@ == k,
            |k: Seq<char>| self.legs_at(k),
        )
    }
}

impl RouteTable {
    /// The aliases in table order.
    pub closed spec fn keys(&self) -> Seq<Seq<char>> {
        self.routes@.map_values(|r: Route| r.alias@)
    }

    /// The table is sorted by alias, strictly.
    pub closed spec fn wf(&self) -> bool {
        strictly_sorted(self.keys())
    }

    /// The legs stored for an alias (meaningful where the alias is present).
    closed spec fn legs_at(&self, k: Seq<char>) -> Seq<LegView> {
        self.routes@[self.position_of(k)].legs.deep_view()
    }

    /// The position of an alias (meaningful where the alias is present).
    closed spec fn position_of(&self, k: Seq<char>) -> int {
        choose|i: int| 0 <= i < self.routes@.len() && self.routes@[i].alias@ == k
    }


    proof fn lemma_lookup(&self, i: int)
        requires
            self.wf(),
            0 <= i < self.routes@.len(),
        ensures
            self@.contains_key(self.routes@[i].alias@),
            self@[self.routes@[i].alias@] == self.routes@[i].legs.deep_view(),
    {
        let k = self.routes@[i].alias@;
        assert(self.keys()[i] == k);
        assert(0 <= i < self.routes@.len() && self.routes@[i].alias@ == k);
        assert(self@.dom().contains(k));
        let j = self.position_of(k);
        assert(0 <= j < self.routes@.len() && self.routes@[j].alias@ == k);
        assert(self.keys()[j] == k);
        if j != i {
            if j < i {
                assert(text_lt(self.keys()[j], self.keys()[i]));
            } else {
                assert(text_lt(self.keys()[i], self.keys()[j]));
            }
            crate::text::lemma_text_lt_irreflexive(k);
        }
        assert(self.legs_at(k) == self.routes@[i].legs.deep_view());
    }

    /// An empty table.
    pub fn new() -> (r: RouteTable)
        ensures
            r.wf(),
            r@ == Map::<Seq<char>, Seq<LegView>>::empty(),
    {
        let r = RouteTable { routes: Vec::new() };
        assert(r@ =~= Map::<Seq<char>, Seq<LegView>>::empty());
        r
    }

    /// Sets the legs of an alias, replacing any it had.
    pub fn insert(&mut self, alias: String, legs: Vec<ChainLeg>)
        requires
            old(self).wf(),
        ensures
            final(self).wf(),
            final(self)@ == old(self)@.insert(alias@, legs.deep_view()),
    {
        let n = self.routes.len();
        let mut p: usize = 0;
        while p < n
            invariant
                n == self.routes@.len(),
                p <= n,
                forall|j: int| 0 <= j < p ==> text_lt(#[trigger] self.keys()[j], alias@),
            ensures
                p <= n,
                forall|j: int| 0 <= j < p ==> text_lt(#[trigger] self.keys()[j], alias@),
                p < n ==> !text_lt(self.keys()[p as int], alias@),
            decreases n - p,
        {
            match compare_text(self.routes[p].alias.as_str(), alias.as_str()) {
                TextOrder::Less => {
                    assert(self.keys()[p as int] == self.routes@[p as int].alias@);
                    p = p + 1;
                },
                _ => {
                    assert(self.keys()[p as int] == self.routes@[p as int].alias@);
                    break;
                },
            }
        }
        let ghost old_table = *self;
        let ghost dv = legs.deep_view();
        if p < n && text_eq(self.routes[p].alias.as_str(), alias.as_str()) {
            self.routes.set(p, Route { alias, legs });
            proof {
                assert(old_table.keys()[p as int] == old_table.routes@[p as int].alias@);
                assert(self.keys() =~= old_table.keys());
                let ghost target = old_table@.insert(alias@, dv);
                assert forall|k: Seq<char>|
                    #![trigger self@.contains_key(k)]
                    #![trigger target.contains_key(k)]
                    (self@.contains_key(k) <==> target.contains_key(k)) && (
                    self@.contains_key(k) ==> self@[k] == target[k]) by {
                    if self@.contains_key(k) {
                        let i = choose|i: int| 0 <= i < self.routes@.len() && self.routes@[i].alias@ == k;
                        self.lemma_lookup(i);
                        if i != p {
                            assert(old_table.routes@[i] == self.routes@[i]);
                            old_table.lemma_lookup(i);
                        }
                    }
                    if target.contains_key(k) {
                        if k == alias@ {
                            self.lemma_lookup(p as int);
                        } else {
                            let i = choose|i: int| 0 <= i < old_table.routes@.len() && old_table.routes@[i].alias@ == k;
                            assert(i != p);
                            assert(self.routes@[i] == old_table.routes@[i]);
                            self.lemma_lookup(i);
                        }
                    }
                }
                assert(self@ =~= target);
            }
        } else {
            proof {
                if p < n {
                    assert(old_table.keys()[p as int] == old_table.routes@[p as int].alias@);
                    assert(old_table.keys()[p as int] != alias@);
                    crate::text::lemma_text_lt_total(old_table.keys()[p as int], alias@);
                    assert(text_lt(alias@, old_table.keys()[p as int]));
                }
            }
            self.routes.insert(p, Route { alias, legs });
            proof {
                let ghost k_old = old_table.keys();
                assert(self.keys() =~= k_old.insert(p as int, alias@));
                assert forall|i: int, j: int| 0 <= i < j < self.keys().len() implies text_lt(
                    #[trigger] self.keys()[i],
                    #[trigger] self.keys()[j],
                ) by {
                    if j < p {
                        assert(self.keys()[i] == k_old[i]);
                        assert(self.keys()[j] == k_old[j]);
                    } else if j == p {
                        assert(self.keys()[i] == k_old[i]);
                    } else if i == p {
                        assert(self.keys()[j] == k_old[j - 1]);
                        if j - 1 > p {
                            crate::text::lemma_text_lt_transitive(alias@, k_old[p as int], k_old[j - 1]);
                        }
                    } else if i < p {
                        assert(self.keys()[i] == k_old[i]);
                        assert(self.keys()[j] == k_old[j - 1]);
                    } else {
                        assert(self.keys()[i] == k_old[i - 1]);
                        assert(self.keys()[j] == k_old[j - 1]);
                    }
                }
                let ghost target = old_table@.insert(alias@, dv);
                assert forall|k: Seq<char>|
                    #![trigger self@.contains_key(k)]
                    #![trigger target.contains_key(k)]
                    (self@.contains_key(k) <==> target.contains_key(k)) && (
                    self@.contains_key(k) ==> self@[k] == target[k]) by {
                    if self@.contains_key(k) {
                        let i = choose|i: int| 0 <= i < self.routes@.len() && self.routes@[i].alias@ == k;
                        self.lemma_lookup(i);
                        if i < p {
                            assert(old_table.routes@[i] == self.routes@[i]);
                            old_table.lemma_lookup(i);
                        } else if i > p {
                            assert(old_table.routes@[i - 1] == self.routes@[i]);
                            old_table.lemma_lookup(i - 1);
                        }
                    }
                    if target.contains_key(k) {
                        if k == alias@ {
                            self.lemma_lookup(p as int);
                        } else {
                            let i = choose|i: int| 0 <= i < old_table.routes@.len() && old_table.routes@[i].alias@ == k;
                            if i < p {
                                assert(self.routes@[i] == old_table.routes@[i]);
                                self.lemma_lookup(i);
                            } else {
                                assert(self.routes@[i + 1] == old_table.routes@[i]);
                                self.lemma_lookup(i + 1);
                            }
                        }
                    }
                }
                assert(self@ =~= target);
            }
        }
    }

    /// Builds a table from `(alias, legs)` pairs; a later pair for an alias
    /// replaces an earlier one.
    pub fn from_routes(entries: Vec<(String, Vec<ChainLeg>)>) -> (r: RouteTable)
        ensures
            r.wf(),
            r@ == collect_routes(entries_view(entries@)),
    {
        let ghost all = entries@;
        let mut rest = entries;
        let mut table = RouteTable::new();
        let ghost mut done: int = 0;
        proof {
            assert(entries_view(all).take(0) =~= Seq::<(Seq<char>, Seq<LegView>)>::empty());
            assert(rest@ =~= all.skip(0));
        }
        while rest.len() > 0
            invariant
                table.wf(),
                0 <= done <= all.len(),
                rest@ == all.skip(done),
                table@ == collect_routes(entries_view(all).take(done)),
            decreases rest@.len(),
        {
            let (alias, legs) = rest.remove(0);
            proof {
                assert(all[done] == (alias, legs));
            }
            table.insert(alias, legs);
            proof {
                let ev = entries_view(all);
                assert(ev.take(done + 1).drop_last() =~= ev.take(done));
                assert(ev.take(done + 1).last() == ev[done]);
                assert(rest@ =~= all.skip(done + 1));
                done = done + 1;
            }
        }
        proof {
            assert(done == all.len());
            assert(entries_view(all).take(done) =~= entries_view(all));
        }
        table
    }

    /// Ordered legs for a model alias, or `None` if the alias is unknown.
    pub fn legs(&self, model: &str) -> (r: Option<&[ChainLeg]>)
        requires
            self.wf(),
        ensures
            r is Some <==> self@.contains_key(model@),
            r matches Some(s) ==> s.deep_view() == self@[model@],
    {
        let n = self.routes.len();
        let mut i: usize = 0;
        while i < n
            invariant
                n == self.routes@.len(),
                i <= n,
                self.wf(),
                forall|j: int| 0 <= j < i ==> self.routes@[j].alias@ != model@,
            decreases n - i,
        {
            if text_eq(self.routes[i].alias.as_str(), model) {
                proof {
                    self.lemma_lookup(i as int);
                }
                let s = self.routes[i].legs.as_slice();
                proof {
                    assert(s.deep_view() =~= self.routes@[i as int].legs.deep_view());
                }
                return Some(s);
            }
            i = i + 1;
        }
        None
    }

    /// All registered aliases, sorted.
    pub fn aliases(&self) -> (r: Vec<String>)
        requires
            self.wf(),
        ensures
            strictly_sorted(r.deep_view()),
            r.deep_view().to_set() == self@.dom(),
    {
        let n = self.routes.len();
        let mut out: Vec<String> = Vec::new();
        let mut i: usize = 0;
        while i < n
            invariant
                n == self.routes@.len(),
                i <= n,
                out@.len() == i,
                out.deep_view() == self.keys().take(i as int),
            decreases n - i,
        {
            let a = self.routes[i].alias.clone();
            let ghost prev = out@;
            out.push(a);
            proof {
                assert(self.keys()[i as int] == self.routes@[i as int].alias@);
                assert(out@ == prev.push(a));
                assert forall|j: int| 0 <= j < i + 1 implies #[trigger] out.deep_view()[j] == self.keys().take(i + 1)[j] by {
                    if j < i {
                        assert(out@[j] == prev[j]);
                        assert(self.keys().take(i as int)[j] == self.keys()[j]);
                    }
                }
                assert(out.deep_view() =~= self.keys().take(i + 1));
            }
            i = i + 1;
        }
        proof {
            assert(self.keys().take(n as int) =~= self.keys());
            assert forall|k: Seq<char>| out.deep_view().to_set().contains(k) <==> self@.dom().contains(k) by {
                if out.deep_view().to_set().contains(k) {
                    let j = choose|j: int| 0 <= j < self.keys().len() && self.keys()[j] == k;
                    assert(self.routes@[j].alias@ == k);
                }
                if self@.dom().contains(k) {
                    let j = choose|j: int| 0 <= j < self.routes@.len() && self.routes@[j].alias@ == k;
                    assert(self.keys()[j] == k);
                    assert(out.deep_view()[j] == k);
                }
            }
            assert(out.deep_view().to_set() =~= self@.dom());
        }
        out
    }

    /// Providers named by the legs of the first `i` routes and the first `j`
    /// legs of route `i`.
    closed spec fn providers_before(&self, i: int, j: int) -> Set<Seq<char>> {
        Set::new(
            |p: Seq<char>|
                exists|r: int, l: int|
                    #![trigger self.routes@[r].legs@[l]]
                    0 <= r <= i && r < self.routes@.len() && 0 <= l < self.routes@[r].legs@.len()
                        && (r < i || l < j) && self.routes@[r].legs@[l].provider@ == p,
        )
    }

    /// Provider ids referenced by any leg.
    pub fn referenced_providers(&self) -> (r: HashSet<String>)
        requires
            self.wf(),
        ensures
            text_set(r) == providers_of(self@),
    {
        let mut out = text_set_new();
        let n = self.routes.len();
        let mut i: usize = 0;
        proof {
            assert(text_set(out) =~= self.providers_before(0, 0));
        }
        while i < n
            invariant
                n == self.routes@.len(),
                i <= n,
                text_set(out) == self.providers_before(i as int, 0),
            decreases n - i,
        {
            let legs = &self.routes[i].legs;
            let m = legs.len();
            let mut j: usize = 0;
            while j < m
                invariant
                    n == self.routes@.len(),
                    i < n,
                    legs == self.routes@[i as int].legs,
                    m == legs@.len(),
                    j <= m,
                    text_set(out) == self.providers_before(i as int, j as int),
                decreases m - j,
            {
                let p = legs[j].provider.clone();
                let ghost pv = p@;
                text_set_insert(&mut out, p);
                proof {
                    assert(text_set(out) =~= self.providers_before(i as int, j + 1)) by {
                        assert(self.routes@[i as int].legs@[j as int].provider@ == pv);
                        assert forall|q: Seq<char>| self.providers_before(i as int, j + 1).contains(q) implies text_set(out).contains(q) by {
                            let (r, l) = choose|r: int, l: int|
                                #![trigger self.routes@[r].legs@[l]]
                                0 <= r <= i && r < self.routes@.len() && 0 <= l < self.routes@[r].legs@.len()
                                    && (r < i || l < j + 1) && self.routes@[r].legs@[l].provider@ == q;
                            if !(r == i && l == j) {
                                assert(self.providers_before(i as int, j as int).contains(q));
                            }
                        }
                    }
                }
                j = j + 1;
            }
            proof {
                assert(text_set(out) =~= self.providers_before(i + 1, 0)) by {
                    assert forall|q: Seq<char>| self.providers_before(i as int, m as int).contains(q) <==> self.providers_before(i + 1, 0).contains(q) by {
                        if self.providers_before(i + 1, 0).contains(q) {
                            let (r, l) = choose|r: int, l: int|
                                #![trigger self.routes@[r].legs@[l]]
                                0 <= r <= i + 1 && r < self.routes@.len() && 0 <= l < self.routes@[r].legs@.len()
                                    && (r < i + 1 || l < 0) && self.routes@[r].legs@[l].provider@ == q;
                            assert(self.providers_before(i as int, m as int).contains(q));
                        }
                    }
                }
            }
            i = i + 1;
        }
        proof {
            assert forall|q: Seq<char>| text_set(out).contains(q) <==> providers_of(self@).contains(q) by {
                if text_set(out).contains(q) {
                    let (r, l) = choose|r: int, l: int|
                        #![trigger self.routes@[r].legs@[l]]
                        0 <= r <= n && r < self.routes@.len() && 0 <= l < self.routes@[r].legs@.len()
                            && (r < n || l < 0) && self.routes@[r].legs@[l].provider@ == q;
                    self.lemma_lookup(r);
                    let k = self.routes@[r].alias@;
                    assert(self@[k][l] == self.routes@[r].legs@[l]@);
                    assert(self@.contains_key(k) && 0 <= l < self@[k].len() && self@[k][l].provider == q);
                }
                if providers_of(self@).contains(q) {
                    let (k, l) = choose|k: Seq<char>, l: int|
                        #![trigger self@[k][l]]
                        self@.contains_key(k) && 0 <= l < self@[k].len() && self@[k][l].provider == q;
                    let r = self.position_of(k);
                    assert(0 <= r < self.routes@.len() && self.routes@[r].alias@ == k);
                    self.lemma_lookup(r);
                    assert(self.routes@[r].legs@[l].provider@ == q);
                }
            }
            assert(text_set(out) =~= providers_of(self@));
        }
        out
    }
}

} // verus!
