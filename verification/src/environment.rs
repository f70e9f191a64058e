//! The environment that a command is started with: whether the inherited
//! variables are dropped, and which variables are set on top.

use vstd::prelude::*;

verus! {

/// A variable's name and its value.
pub type Binding = (Seq<char>, Seq<char>);

/// The variables that a process sees, by name.
pub type Variables = Map<Seq<char>, Seq<char>>;

/// The variables that result when `overrides` are set on top of `base`, one
/// after the other.
pub open spec fn applied(base: Variables, overrides: Seq<Binding>) -> Variables
    decreases overrides.len(),
{
    if overrides.len() == 0 {
        base
    } else {
        applied(base, overrides.drop_last()).insert(overrides.last().0, overrides.last().1)
    }
}

/// The value that `overrides` leave `key` with: that of the last of them
/// that sets `key`, if any does.
pub open spec fn last_write(overrides: Seq<Binding>, key: Seq<char>) -> Option<Seq<char>>
    decreases overrides.len(),
{
    if overrides.len() == 0 {
        None
    } else if overrides.last().0 == key {
        Some(overrides.last().1)
    } else {
        last_write(overrides.drop_last(), key)
    }
}

/// No two of the bindings set the same variable.
pub open spec fn distinct_keys(bindings: Seq<Binding>) -> bool {
    forall|i: int, j: int|
        0 <= i < j < bindings.len() ==> (#[trigger] bindings[i]).0 != (#[trigger] bindings[j]).0
}

/// Two lists of overrides leave every variable with the same value.
pub open spec fn same_effect(first: Seq<Binding>, second: Seq<Binding>) -> bool {
    forall|key: Seq<char>| #[trigger] last_write(first, key) == last_write(second, key)
}

/// The bindings that a vector of owned pairs stands for.
pub open spec fn bindings_of(pairs: Seq<(String, String)>) -> Seq<Binding> {
    Seq::new(pairs.len(), |i: int| (pairs[i].0@, pairs[i].1@))
}

/// What an [`Environment`] stands for.
pub ghost struct EnvironmentView {
    /// Whether the inherited variables are dropped.
    pub clear: bool,
    /// The variables to set, in the order in which they were recorded.
    pub overrides: Seq<Binding>,
}

impl EnvironmentView {
    /// The variables that a command sees when it is started from a process
    /// whose own variables are `inherited`.
    pub open spec fn variables(self, inherited: Variables) -> Variables {
        applied(
            if self.clear {
                Map::empty()
            } else {
                inherited
            },
            self.overrides,
        )
    }
}

/// The environment settings of a root: recorded now, applied when a command
/// is described.
#[derive(Debug)]
pub struct Environment {
    clear: bool,
    overrides: Vec<(String, String)>,
}

impl View for Environment {
    type V = EnvironmentView;

    closed spec fn view(&self) -> EnvironmentView {
        EnvironmentView { clear: self.clear, overrides: bindings_of(self.overrides@) }
    }
}

impl Environment {
    /// Settings that keep the inherited variables and set none.
    pub fn new() -> (environment: Environment)
        ensures
            environment@ == (EnvironmentView { clear: false, overrides: Seq::empty() }),
    {
        let environment = Environment { clear: false, overrides: Vec::new() };
        assert(bindings_of(environment.overrides@) =~= Seq::empty());
        environment
    }

    /// Records that `key` is to be set to `value`. Of several values
    /// recorded for one key the last one counts.
    pub fn set(&mut self, key: &str, value: &str)
        ensures
            final(self)@.clear == old(self)@.clear,
            final(self)@.overrides == old(self)@.overrides.push((key@, value@)),
    {
        self.overrides.push((key.to_owned(), value.to_owned()));
        assert(bindings_of(self.overrides@) =~= bindings_of(old(self).overrides@).push(
            (key@, value@),
        ));
    }

    /// Decides whether the inherited variables are dropped. The last
    /// decision counts.
    pub fn set_clear(&mut self, clear: bool)
        ensures
            final(self)@.clear == clear,
            final(self)@.overrides == old(self)@.overrides,
    {
        self.clear = clear;
    }

    /// Whether the inherited variables are dropped.
    pub fn clears(&self) -> (clear: bool)
        ensures
            clear == self@.clear,
    {
        self.clear
    }

    /// How many overrides were recorded.
    pub fn len(&self) -> (n: usize)
        ensures
            n == self@.overrides.len(),
    {
        self.overrides.len()
    }

    /// The recorded overrides, in the order in which they were recorded.
    pub fn overrides(&self) -> (pairs: &Vec<(String, String)>)
        ensures
            bindings_of(pairs@) == self@.overrides,
    {
        &self.overrides
    }

    /// The value that the overrides leave `key` with, if any of them sets
    /// it.
    pub fn get(&self, key: &str) -> (value: Option<String>)
        ensures
            match value {
                Some(found) => last_write(self@.overrides, key@) == Some(found@),
                None => last_write(self@.overrides, key@).is_none(),
            },
    {
        let wanted = key.to_owned();
        let ghost all = bindings_of(self.overrides@);
        let mut i: usize = self.overrides.len();
        assert(all.take(i as int) =~= all);
        while i > 0
            invariant
                i <= self.overrides.len(),
                all == bindings_of(self.overrides@),
                wanted@ == key@,
                last_write(all, key@) == last_write(all.take(i as int), key@),
            decreases i,
        {
            i -= 1;
            assert(all.take(i + 1).drop_last() =~= all.take(i as int));
            assert(all.take(i + 1).last() == all[i as int]);
            if self.overrides[i].0 == wanted {
                return Some(self.overrides[i].1.clone());
            }
        }
        None
    }

    /// The overrides with every variable set once, to the value that was
    /// recorded for it last.
    pub fn resolved(&self) -> (pairs: Vec<(String, String)>)
        ensures
            distinct_keys(bindings_of(pairs@)),
            same_effect(bindings_of(pairs@), self@.overrides),
    {
        let ghost all = bindings_of(self.overrides@);
        let mut pairs: Vec<(String, String)> = Vec::new();
        let mut i: usize = 0;
        assert(bindings_of(pairs@) =~= all.take(0));
        while i < self.overrides.len()
            invariant
                i <= self.overrides.len(),
                all == bindings_of(self.overrides@),
                distinct_keys(bindings_of(pairs@)),
                same_effect(bindings_of(pairs@), all.take(i as int)),
            decreases self.overrides.len() - i,
        {
            let key = self.overrides[i].0.clone();
            let value = self.overrides[i].1.clone();
            let ghost before = bindings_of(pairs@);
            let ghost binding = (key@, value@);
            assert(all.take(i + 1).drop_last() =~= all.take(i as int));
            assert(all.take(i + 1).last() == binding);
            match position_of(&pairs, &key) {
                Some(at) => {
                    pairs.set(at, (key, value));
                    assert(bindings_of(pairs@) =~= before.update(at as int, binding));
                    proof {
                        lemma_update_keeps_distinct(before, at as int, binding.1);
                        assert forall|other: Seq<char>| #[trigger]
                            last_write(bindings_of(pairs@), other) == last_write(
                                all.take(i + 1),
                                other,
                            ) by {
                            lemma_last_write_update(before, at as int, binding.1, other);
                            assert(last_write(before, other) == last_write(
                                all.take(i as int),
                                other,
                            ));
                        }
                    }
                },
                None => {
                    pairs.push((key, value));
                    assert(bindings_of(pairs@) =~= before.push(binding));
                    proof {
                        assert(bindings_of(pairs@).drop_last() =~= before);
                        assert forall|other: Seq<char>| #[trigger]
                            last_write(bindings_of(pairs@), other) == last_write(
                                all.take(i + 1),
                                other,
                            ) by {
                            assert(last_write(before, other) == last_write(
                                all.take(i as int),
                                other,
                            ));
                        }
                    }
                },
            }
            i += 1;
        }
        assert(all.take(i as int) =~= all);
        pairs
    }

    /// A copy of these settings.
    pub fn duplicate(&self) -> (copy: Environment)
        ensures
            copy@ == self@,
    {
        let mut overrides: Vec<(String, String)> = Vec::new();
        let mut i: usize = 0;
        while i < self.overrides.len()
            invariant
                i <= self.overrides.len(),
                overrides@.len() == i,
                bindings_of(overrides@) == bindings_of(self.overrides@).take(i as int),
            decreases self.overrides.len() - i,
        {
            let ghost before = overrides@;
            overrides.push((self.overrides[i].0.clone(), self.overrides[i].1.clone()));
            assert forall|j: int| 0 <= j < i + 1 implies bindings_of(overrides@)[j] == bindings_of(
                self.overrides@,
            )[j] by {
                if j < i {
                    assert(overrides@[j] == before[j]);
                    assert(bindings_of(before)[j] == bindings_of(self.overrides@).take(i as int)[j]);
                }
            }
            assert(bindings_of(overrides@) =~= bindings_of(self.overrides@).take(i + 1));
            i += 1;
        }
        assert(bindings_of(self.overrides@).take(i as int) =~= bindings_of(self.overrides@));
        Environment { clear: self.clear, overrides }
    }
}

/// The place in `pairs` of a binding for `key`, if there is one.
fn position_of(pairs: &Vec<(String, String)>, key: &String) -> (at: Option<usize>)
    ensures
        match at {
            Some(index) => index < pairs@.len() && pairs@[index as int].0@ == key@,
            None => forall|j: int| 0 <= j < pairs@.len() ==> (#[trigger] bindings_of(pairs@)[j]).0
                != key@,
        },
{
    let mut j: usize = 0;
    while j < pairs.len()
        invariant
            j <= pairs@.len(),
            forall|k: int| 0 <= k < j ==> (#[trigger] bindings_of(pairs@)[k]).0 != key@,
        decreases pairs@.len() - j,
    {
        if pairs[j].0 == *key {
            return Some(j);
        }
        j += 1;
    }
    None
}

/// Giving a new value to a variable that is bound once keeps every variable
/// bound once.
proof fn lemma_update_keeps_distinct(bindings: Seq<Binding>, at: int, value: Seq<char>)
    requires
        distinct_keys(bindings),
        0 <= at < bindings.len(),
    ensures
        distinct_keys(bindings.update(at, (bindings[at].0, value))),
{
    let updated = bindings.update(at, (bindings[at].0, value));
    assert forall|i: int, j: int| 0 <= i < j < updated.len() implies (#[trigger] updated[i]).0 != (
    #[trigger] updated[j]).0 by {
        assert(updated[i].0 == bindings[i].0);
        assert(updated[j].0 == bindings[j].0);
    }
}

/// Where every variable is bound once, giving one of them a new value
/// changes what that variable is left with and nothing else.
proof fn lemma_last_write_update(bindings: Seq<Binding>, at: int, value: Seq<char>, key: Seq<char>)
    requires
        distinct_keys(bindings),
        0 <= at < bindings.len(),
    ensures
        last_write(bindings.update(at, (bindings[at].0, value)), key) == if key == bindings[at].0 {
            Some(value)
        } else {
            last_write(bindings, key)
        },
    decreases bindings.len(),
{
    let updated = bindings.update(at, (bindings[at].0, value));
    if at == bindings.len() - 1 {
        assert(updated.drop_last() =~= bindings.drop_last());
    } else {
        let shorter = bindings.drop_last();
        assert(updated.drop_last() =~= shorter.update(at, (shorter[at].0, value)));
        assert(updated.last() == bindings.last());
        assert(bindings[at].0 != bindings[bindings.len() - 1].0);
        assert(distinct_keys(shorter)) by {
            assert forall|i: int, j: int| 0 <= i < j < shorter.len() implies (
            #[trigger] shorter[i]).0 != (#[trigger] shorter[j]).0 by {
                assert(shorter[i] == bindings[i]);
                assert(shorter[j] == bindings[j]);
            }
        }
        lemma_last_write_update(shorter, at, value, key);
    }
}

/// What a variable holds after the overrides: the value of the last
/// override that sets it, and what it held before where none does.
pub proof fn lemma_applied_last_write(base: Variables, overrides: Seq<Binding>, key: Seq<char>)
    ensures
        applied(base, overrides).contains_key(key) == (last_write(overrides, key).is_some()
            || base.contains_key(key)),
        last_write(overrides, key) matches Some(value) ==> applied(base, overrides)[key] == value,
        last_write(overrides, key).is_none() ==> applied(base, overrides)[key] == base[key],
    decreases overrides.len(),
{
    if overrides.len() > 0 {
        lemma_applied_last_write(base, overrides.drop_last(), key);
    }
}

/// Overrides that leave every variable with the same value give the same
/// variables, whatever they are applied to.
pub proof fn lemma_same_effect(base: Variables, first: Seq<Binding>, second: Seq<Binding>)
    requires
        same_effect(first, second),
    ensures
        applied(base, first) == applied(base, second),
{
    let left = applied(base, first);
    let right = applied(base, second);
    assert forall|key: Seq<char>| #[trigger] left.dom().contains(key) == right.dom().contains(
        key,
    ) by {
        lemma_applied_last_write(base, first, key);
        lemma_applied_last_write(base, second, key);
        assert(last_write(first, key) == last_write(second, key));
    }
    assert forall|key: Seq<char>| left.dom().contains(key) implies #[trigger] left[key]
        == right[key] by {
        lemma_applied_last_write(base, first, key);
        lemma_applied_last_write(base, second, key);
        assert(last_write(first, key) == last_write(second, key));
    }
    assert(applied(base, first) =~= applied(base, second));
}

/// The last value recorded for a variable is the one that a command sees:
/// an override holds against what was inherited, against every earlier
/// override of the same variable, and until a later one replaces it.
pub proof fn lemma_last_value_wins(
    environment: EnvironmentView,
    inherited: Variables,
    at: int,
)
    requires
        0 <= at < environment.overrides.len(),
        forall|later: int|
            at < later < environment.overrides.len() ==> (#[trigger] environment.overrides[later]).0
                != environment.overrides[at].0,
    ensures
        environment.variables(inherited).contains_key(environment.overrides[at].0),
        environment.variables(inherited)[environment.overrides[at].0]
            == environment.overrides[at].1,
{
    let base = if environment.clear {
        Map::empty()
    } else {
        inherited
    };
    lemma_last_write_found(environment.overrides, at);
    lemma_applied_last_write(base, environment.overrides, environment.overrides[at].0);
}

/// The override at place `at` decides its variable where no later one sets it.
proof fn lemma_last_write_found(overrides: Seq<Binding>, at: int)
    requires
        0 <= at < overrides.len(),
        forall|later: int|
            at < later < overrides.len() ==> (#[trigger] overrides[later]).0 != overrides[at].0,
    ensures
        last_write(overrides, overrides[at].0) == Some(overrides[at].1),
    decreases overrides.len(),
{
    if at < overrides.len() - 1 {
        let shorter = overrides.drop_last();
        assert(overrides[overrides.len() - 1].0 != overrides[at].0);
        assert forall|later: int| at < later < shorter.len() implies (#[trigger] shorter[later]).0
            != shorter[at].0 by {
            assert(shorter[later] == overrides[later]);
        }
        lemma_last_write_found(shorter, at);
    }
}

/// A command that drops the inherited variables sees the overrides and
/// nothing else, whatever it is started from.
pub proof fn lemma_cleared_sees_overrides_only(
    environment: EnvironmentView,
    inherited: Variables,
    key: Seq<char>,
)
    requires
        environment.clear,
    ensures
        environment.variables(inherited) == applied(Map::empty(), environment.overrides),
        environment.variables(inherited).contains_key(key) == last_write(
            environment.overrides,
            key,
        ).is_some(),
{
    lemma_applied_last_write(Map::empty(), environment.overrides, key);
}

} // verus!
