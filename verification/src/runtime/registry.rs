//! Pattern registry: resolves the names that aggregator specifications use
//! to completion conditions, aggregation strategies and group stores.
//! Registering a name again replaces the earlier entry.
use vstd::prelude::*;
use crate::patterns::aggregator::{Completion, CompletionView, Strategy};
use crate::text::{concat2, owned, text_eq};

verus! {

/// Registry name of the built-in text-concatenation strategy.
pub const STRATEGY_CONCAT_TEXT: &'static str = "allora.concat_text";

/// Registry name of the built-in JSON-array strategy.
pub const STRATEGY_JSON_ARRAY: &'static str = "allora.json_array";

/// Registry name of the built-in signal strategy.
pub const STRATEGY_EMIT_SIGNAL: &'static str = "allora.emit_signal";

/// Registry name of the text-concatenation strategy.
pub open spec fn strategy_concat_text() -> Seq<char> {
    "allora.concat_text"@
}

/// Registry name of the JSON-array strategy.
pub open spec fn strategy_json_array() -> Seq<char> {
    "allora.json_array"@
}

/// Registry name of the signal strategy.
pub open spec fn strategy_emit_signal() -> Seq<char> {
    "allora.emit_signal"@
}

/// Value of the first entry named `name`.
pub open spec fn lookup<V>(entries: Seq<(Seq<char>, V)>, name: Seq<char>) -> Option<V>
    decreases entries.len(),
{
    if entries.len() == 0 {
        None
    } else if entries[0].0 == name {
        Some(entries[0].1)
    } else {
        lookup(entries.drop_first(), name)
    }
}

/// Names of the entries, in order.
pub open spec fn names_of<V>(entries: Seq<(Seq<char>, V)>) -> Seq<Seq<char>> {
    entries.map_values(|e: (Seq<char>, V)| e.0)
}

/// `entries` after registering `name` → `v`: an entry of that name is
/// replaced in place, otherwise one is appended.
pub open spec fn registered<V>(entries: Seq<(Seq<char>, V)>, name: Seq<char>, v: V) -> Seq<
    (Seq<char>, V),
>
    decreases entries.len(),
{
    if entries.len() == 0 {
        seq![(name, v)]
    } else if entries[0].0 == name {
        seq![(name, v)] + entries.drop_first()
    } else {
        seq![entries[0]] + registered(entries.drop_first(), name, v)
    }
}

/// Names of the registry, comma-joined.
pub open spec fn joined(names: Seq<Seq<char>>) -> Seq<char>
    decreases names.len(),
{
    if names.len() == 0 {
        Seq::empty()
    } else if names.len() == 1 {
        names[0]
    } else {
        joined(names.drop_last()) + ", "@ + names.last()
    }
}

/// Looking up a name just registered finds what was registered; other
/// names are unaffected.
pub proof fn law_register_then_lookup<V>(
    entries: Seq<(Seq<char>, V)>,
    name: Seq<char>,
    v: V,
    other: Seq<char>,
)
    ensures
        lookup(registered(entries, name, v), name) == Some(v),
        other != name ==> lookup(registered(entries, name, v), other) == lookup(entries, other),
    decreases entries.len(),
{
    if entries.len() > 0 && entries[0].0 != name {
        law_register_then_lookup(entries.drop_first(), name, v, other);
        let r = registered(entries, name, v);
        assert(r.drop_first() =~= registered(entries.drop_first(), name, v));
        assert(r[0] == entries[0]);
        if other != name {
            assert(lookup(r, other) == lookup(entries, other));
        }
    } else if entries.len() > 0 {
        let r = registered(entries, name, v);
        assert(r.drop_first() =~= entries.drop_first());
        assert(r[0] == (name, v));
        if other != name {
            assert(lookup(r, other) == lookup(r.drop_first(), other));
            assert(lookup(entries, other) == lookup(entries.drop_first(), other));
        }
    } else {
        let r = registered(entries, name, v);
        assert(r.drop_first() =~= Seq::<(Seq<char>, V)>::empty());
        assert(r[0] == (name, v));
        if other != name {
            assert(lookup(r, other) == lookup(r.drop_first(), other));
        }
    }
}

pub struct PatternRegistryView {
    pub completions: Seq<(Seq<char>, CompletionView)>,
    pub strategies: Seq<(Seq<char>, Strategy)>,
    pub stores: Seq<(Seq<char>, ())>,
}

/// Resolver from names to completions, strategies and stores.
#[derive(Debug)]
pub struct PatternRegistry {
    completions: Vec<(String, Completion)>,
    strategies: Vec<(String, Strategy)>,
    stores: Vec<(String, ())>,
}

impl View for PatternRegistry {
    type V = PatternRegistryView;

    closed spec fn view(&self) -> PatternRegistryView {
        PatternRegistryView {
            completions: self.completions@.map_values(|e: (String, Completion)| (e.0@, e.1@)),
            strategies: self.strategies@.map_values(|e: (String, Strategy)| (e.0@, e.1)),
            stores: self.stores@.map_values(|e: (String, ())| (e.0@, ())),
        }
    }
}

/// Copy of a completion condition.
pub fn copy_completion(c: &Completion) -> (r: Completion)
    ensures
        r@ == c@,
{
    match c {
        Completion::BySize(n) => Completion::BySize(*n),
        Completion::ByTimeout(ms) => Completion::ByTimeout(*ms),
        Completion::ByWeight { header, threshold } => Completion::ByWeight {
            header: owned(header.as_str()),
            threshold: *threshold,
        },
    }
}

fn find_name<V>(entries: &Vec<(String, V)>, name: &str) -> (r: Option<usize>)
    ensures
        match r {
            Some(i) => i < entries.len() && entries@[i as int].0@ == name@ && forall|k: int|
                0 <= k < i ==> (#[trigger] entries@[k]).0@ != name@,
            None => forall|k: int| 0 <= k < entries.len() ==> (#[trigger] entries@[k]).0@ != name@,
        },
{
    let mut i: usize = 0;
    while i < entries.len()
        invariant
            i <= entries.len(),
            forall|k: int| 0 <= k < i ==> (#[trigger] entries@[k]).0@ != name@,
        decreases entries.len() - i,
    {
        if text_eq(entries[i].0.as_str(), name) {
            return Some(i);
        }
        i = i + 1;
    }
    None
}

proof fn lemma_lookup_at<V>(entries: Seq<(Seq<char>, V)>, name: Seq<char>, i: int)
    requires
        0 <= i < entries.len(),
        entries[i].0 == name,
        forall|k: int| 0 <= k < i ==> (#[trigger] entries[k]).0 != name,
    ensures
        lookup(entries, name) == Some(entries[i].1),
    decreases i,
{
    if i > 0 {
        assert forall|k: int| 0 <= k < i - 1 implies (#[trigger] entries.drop_first()[k]).0 != name by {
            assert(entries.drop_first()[k] == entries[k + 1]);
        }
        assert(entries[0].0 != name);
        lemma_lookup_at(entries.drop_first(), name, i - 1);
    }
}

proof fn lemma_lookup_none<V>(entries: Seq<(Seq<char>, V)>, name: Seq<char>)
    requires
        forall|k: int| 0 <= k < entries.len() ==> (#[trigger] entries[k]).0 != name,
    ensures
        lookup(entries, name) is None,
    decreases entries.len(),
{
    if entries.len() > 0 {
        assert forall|k: int| 0 <= k < entries.len() - 1 implies (#[trigger] entries.drop_first()[k]).0
            != name by {
            assert(entries.drop_first()[k] == entries[k + 1]);
        }
        assert(entries[0].0 != name);
        lemma_lookup_none(entries.drop_first(), name);
    }
}

proof fn lemma_registered_at<V>(entries: Seq<(Seq<char>, V)>, name: Seq<char>, v: V, i: int)
    requires
        0 <= i < entries.len(),
        entries[i].0 == name,
        forall|k: int| 0 <= k < i ==> (#[trigger] entries[k]).0 != name,
    ensures
        registered(entries, name, v) == entries.update(i, (name, v)),
    decreases i,
{
    if i > 0 {
        assert forall|k: int| 0 <= k < i - 1 implies (#[trigger] entries.drop_first()[k]).0 != name by {
            assert(entries.drop_first()[k] == entries[k + 1]);
        }
        assert(entries[0].0 != name);
        lemma_registered_at(entries.drop_first(), name, v, i - 1);
        assert(registered(entries, name, v) =~= entries.update(i, (name, v)));
    } else {
        assert(registered(entries, name, v) =~= entries.update(i, (name, v)));
    }
}

proof fn lemma_registered_new<V>(entries: Seq<(Seq<char>, V)>, name: Seq<char>, v: V)
    requires
        forall|k: int| 0 <= k < entries.len() ==> (#[trigger] entries[k]).0 != name,
    ensures
        registered(entries, name, v) == entries.push((name, v)),
    decreases entries.len(),
{
    if entries.len() > 0 {
        assert forall|k: int| 0 <= k < entries.len() - 1 implies (#[trigger] entries.drop_first()[k]).0
            != name by {
            assert(entries.drop_first()[k] == entries[k + 1]);
        }
        assert(entries[0].0 != name);
        lemma_registered_new(entries.drop_first(), name, v);
        assert(registered(entries, name, v) =~= entries.push((name, v)));
    } else {
        assert(registered(entries, name, v) =~= entries.push((name, v)));
    }
}

fn join_names<V>(entries: &Vec<(String, V)>) -> (r: String)
    ensures
        r@ == joined(entries@.map_values(|e: (String, V)| e.0@)),
{
    let ghost nv = entries@.map_values(|e: (String, V)| e.0@);
    let mut out = owned("");
    proof {
        reveal_strlit("");
        assert(nv.subrange(0, 0) =~= Seq::<Seq<char>>::empty());
    }
    let mut i: usize = 0;
    while i < entries.len()
        invariant
            i <= entries.len(),
            nv == entries@.map_values(|e: (String, V)| e.0@),
            out@ == joined(nv.subrange(0, i as int)),
        decreases entries.len() - i,
    {
        proof {
            let s = nv.subrange(0, i + 1);
            assert(s.drop_last() =~= nv.subrange(0, i as int));
            assert(s.last() == entries@[i as int].0@);
        }
        if i == 0 {
            out = owned(entries[i].0.as_str());
            assert(nv.subrange(0, 1) =~= seq![entries@[0].0@]);
        } else {
            let with_sep = concat2(out.as_str(), ", ");
            out = concat2(with_sep.as_str(), entries[i].0.as_str());
        }
        i = i + 1;
    }
    assert(nv.subrange(0, entries.len() as int) =~= nv);
    out
}

impl PatternRegistry {
    /// Nothing registered.
    pub fn new() -> (r: PatternRegistry)
        ensures
            r@.completions.len() == 0 && r@.strategies.len() == 0 && r@.stores.len() == 0,
    {
        PatternRegistry { completions: Vec::new(), strategies: Vec::new(), stores: Vec::new() }
    }

    /// The three built-in strategies, under `allora.concat_text`,
    /// `allora.json_array` and `allora.emit_signal`; no completions or
    /// stores.
    pub fn with_defaults() -> (r: PatternRegistry)
        ensures
            r@.completions.len() == 0,
            r@.stores.len() == 0,
            r@.strategies == registered(
                registered(
                    registered(Seq::empty(), strategy_concat_text(), Strategy::ConcatText),
                    strategy_json_array(),
                    Strategy::JsonArray,
                ),
                strategy_emit_signal(),
                Strategy::EmitSignal,
            ),
    {
        let mut r = PatternRegistry::new();
        assert(r@.strategies =~= Seq::<(Seq<char>, Strategy)>::empty());
        r.register_strategy("allora.concat_text", Strategy::ConcatText);
        r.register_strategy("allora.json_array", Strategy::JsonArray);
        r.register_strategy("allora.emit_signal", Strategy::EmitSignal);
        r
    }

    /// Register (or replace) a completion condition.
    pub fn register_completion(&mut self, name: &str, c: Completion)
        ensures
            final(self)@ == (PatternRegistryView {
                completions: registered(old(self)@.completions, name@, c@),
                ..old(self)@
            }),
    {
        let ghost old_v = self@.completions;
        match find_name(&self.completions, name) {
            Some(i) => {
                proof {
                    assert forall|k: int| 0 <= k < i implies (#[trigger] old_v[k]).0 != name@ by {
                        assert(old_v[k].0 == self.completions@[k].0@);
                    }
                    lemma_registered_at(old_v, name@, c@, i as int);
                }
                self.completions.set(i, (owned(name), c));
                assert(self@.completions =~= old_v.update(i as int, (name@, c@)));
            },
            None => {
                proof {
                    assert forall|k: int| 0 <= k < old_v.len() implies (#[trigger] old_v[k]).0 != name@ by {
                        assert(old_v[k].0 == self.completions@[k].0@);
                    }
                    lemma_registered_new(old_v, name@, c@);
                }
                self.completions.push((owned(name), c));
                assert(self@.completions =~= old_v.push((name@, c@)));
            },
        }
    }

    /// Register (or replace) an aggregation strategy.
    pub fn register_strategy(&mut self, name: &str, s: Strategy)
        ensures
            final(self)@ == (PatternRegistryView {
                strategies: registered(old(self)@.strategies, name@, s),
                ..old(self)@
            }),
    {
        let ghost old_v = self@.strategies;
        match find_name(&self.strategies, name) {
            Some(i) => {
                proof {
                    assert forall|k: int| 0 <= k < i implies (#[trigger] old_v[k]).0 != name@ by {
                        assert(old_v[k].0 == self.strategies@[k].0@);
                    }
                    lemma_registered_at(old_v, name@, s, i as int);
                }
                self.strategies.set(i, (owned(name), s));
                assert(self@.strategies =~= old_v.update(i as int, (name@, s)));
            },
            None => {
                proof {
                    assert forall|k: int| 0 <= k < old_v.len() implies (#[trigger] old_v[k]).0 != name@ by {
                        assert(old_v[k].0 == self.strategies@[k].0@);
                    }
                    lemma_registered_new(old_v, name@, s);
                }
                self.strategies.push((owned(name), s));
                assert(self@.strategies =~= old_v.push((name@, s)));
            },
        }
    }

    /// Register (or replace) a group store name; each aggregator using it
    /// gets its own in-memory store.
    pub fn register_store(&mut self, name: &str)
        ensures
            final(self)@ == (PatternRegistryView {
                stores: registered(old(self)@.stores, name@, ()),
                ..old(self)@
            }),
    {
        let ghost old_v = self@.stores;
        match find_name(&self.stores, name) {
            Some(i) => {
                proof {
                    assert forall|k: int| 0 <= k < i implies (#[trigger] old_v[k]).0 != name@ by {
                        assert(old_v[k].0 == self.stores@[k].0@);
                    }
                    lemma_registered_at(old_v, name@, (), i as int);
                }
                self.stores.set(i, (owned(name), ()));
                assert(self@.stores =~= old_v.update(i as int, (name@, ())));
            },
            None => {
                proof {
                    assert forall|k: int| 0 <= k < old_v.len() implies (#[trigger] old_v[k]).0 != name@ by {
                        assert(old_v[k].0 == self.stores@[k].0@);
                    }
                    lemma_registered_new(old_v, name@, ());
                }
                self.stores.push((owned(name), ()));
                assert(self@.stores =~= old_v.push((name@, ())));
            },
        }
    }

    /// The completion registered under `name`.
    pub fn completion(&self, name: &str) -> (r: Option<Completion>)
        ensures
            match lookup(self@.completions, name@) {
                Some(c) => r matches Some(x) && x@ == c,
                None => r is None,
            },
    {
        let ghost v = self@.completions;
        match find_name(&self.completions, name) {
            Some(i) => {
                proof {
                    assert forall|k: int| 0 <= k < i implies (#[trigger] v[k]).0 != name@ by {
                        assert(v[k].0 == self.completions@[k].0@);
                    }
                    lemma_lookup_at(v, name@, i as int);
                }
                Some(copy_completion(&self.completions[i].1))
            },
            None => {
                proof {
                    assert forall|k: int| 0 <= k < v.len() implies (#[trigger] v[k]).0 != name@ by {
                        assert(v[k].0 == self.completions@[k].0@);
                    }
                    lemma_lookup_none(v, name@);
                }
                None
            },
        }
    }

    /// The strategy registered under `name`.
    pub fn strategy(&self, name: &str) -> (r: Option<Strategy>)
        ensures
            r == lookup(self@.strategies, name@),
    {
        let ghost v = self@.strategies;
        match find_name(&self.strategies, name) {
            Some(i) => {
                proof {
                    assert forall|k: int| 0 <= k < i implies (#[trigger] v[k]).0 != name@ by {
                        assert(v[k].0 == self.strategies@[k].0@);
                    }
                    lemma_lookup_at(v, name@, i as int);
                }
                Some(self.strategies[i].1)
            },
            None => {
                proof {
                    assert forall|k: int| 0 <= k < v.len() implies (#[trigger] v[k]).0 != name@ by {
                        assert(v[k].0 == self.strategies@[k].0@);
                    }
                    lemma_lookup_none(v, name@);
                }
                None
            },
        }
    }

    /// Whether a store is registered under `name`.
    pub fn store(&self, name: &str) -> (r: bool)
        ensures
            r == lookup(self@.stores, name@) is Some,
    {
        let ghost v = self@.stores;
        match find_name(&self.stores, name) {
            Some(i) => {
                proof {
                    assert forall|k: int| 0 <= k < i implies (#[trigger] v[k]).0 != name@ by {
                        assert(v[k].0 == self.stores@[k].0@);
                    }
                    lemma_lookup_at(v, name@, i as int);
                }
                true
            },
            None => {
                proof {
                    assert forall|k: int| 0 <= k < v.len() implies (#[trigger] v[k]).0 != name@ by {
                        assert(v[k].0 == self.stores@[k].0@);
                    }
                    lemma_lookup_none(v, name@);
                }
                false
            },
        }
    }

    /// Registered completion names, in registration order.
    pub fn completion_names(&self) -> (r: Vec<String>)
        ensures
            r@.map_values(|s: String| s@) == names_of(self@.completions),
    {
        let mut out: Vec<String> = Vec::new();
        let mut i: usize = 0;
        while i < self.completions.len()
            invariant
                i <= self.completions.len(),
                out.len() == i,
                forall|k: int| 0 <= k < i ==> (#[trigger] out@[k])@ == self.completions@[k].0@,
            decreases self.completions.len() - i,
        {
            out.push(owned(self.completions[i].0.as_str()));
            i = i + 1;
        }
        assert(out@.map_values(|s: String| s@) =~= names_of(self@.completions));
        out
    }

    /// Registered strategy names, in registration order.
    pub fn strategy_names(&self) -> (r: Vec<String>)
        ensures
            r@.map_values(|s: String| s@) == names_of(self@.strategies),
    {
        let mut out: Vec<String> = Vec::new();
        let mut i: usize = 0;
        while i < self.strategies.len()
            invariant
                i <= self.strategies.len(),
                out.len() == i,
                forall|k: int| 0 <= k < i ==> (#[trigger] out@[k])@ == self.strategies@[k].0@,
            decreases self.strategies.len() - i,
        {
            out.push(owned(self.strategies[i].0.as_str()));
            i = i + 1;
        }
        assert(out@.map_values(|s: String| s@) =~= names_of(self@.strategies));
        out
    }

    /// Registered store names, in registration order.
    pub fn store_names(&self) -> (r: Vec<String>)
        ensures
            r@.map_values(|s: String| s@) == names_of(self@.stores),
    {
        let mut out: Vec<String> = Vec::new();
        let mut i: usize = 0;
        while i < self.stores.len()
            invariant
                i <= self.stores.len(),
                out.len() == i,
                forall|k: int| 0 <= k < i ==> (#[trigger] out@[k])@ == self.stores@[k].0@,
            decreases self.stores.len() - i,
        {
            out.push(owned(self.stores[i].0.as_str()));
            i = i + 1;
        }
        assert(out@.map_values(|s: String| s@) =~= names_of(self@.stores));
        out
    }

    /// Completion names joined with `, `.
    pub fn completion_names_joined(&self) -> (r: String)
        ensures
            r@ == joined(names_of(self@.completions)),
    {
        let r = join_names(&self.completions);
        assert(self.completions@.map_values(|e: (String, Completion)| e.0@) =~= names_of(
            self@.completions,
        ));
        r
    }

    /// Strategy names joined with `, `.
    pub fn strategy_names_joined(&self) -> (r: String)
        ensures
            r@ == joined(names_of(self@.strategies)),
    {
        let r = join_names(&self.strategies);
        assert(self.strategies@.map_values(|e: (String, Strategy)| e.0@) =~= names_of(
            self@.strategies,
        ));
        r
    }

    /// Store names joined with `, `.
    pub fn store_names_joined(&self) -> (r: String)
        ensures
            r@ == joined(names_of(self@.stores)),
    {
        let r = join_names(&self.stores);
        assert(self.stores@.map_values(|e: (String, ())| e.0@) =~= names_of(self@.stores));
        r
    }
}

} // verus!
