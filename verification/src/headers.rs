//! The headers of a request: at most one value for a name, names told apart
//! without regard to the case of their ASCII letters.

use vstd::prelude::*;
use vstd::string::*;
use crate::text::{chars_of, lower, same_name};

verus! {

/// No two entries have the same name, the case of ASCII letters aside.
pub open spec fn distinct_names(entries: Seq<(Seq<char>, Seq<char>)>) -> bool {
    forall|i: int, j: int|
        0 <= i < j < entries.len() ==> lower(#[trigger] entries[i].0) != lower(
            #[trigger] entries[j].0,
        )
}

/// Whether the entry at `i` has `name`, itself in lower case.
pub open spec fn named(entries: Seq<(Seq<char>, Seq<char>)>, i: int, name: Seq<char>) -> bool {
    0 <= i < entries.len() && lower(entries[i].0) == name
}

/// The entries as a mapping from each name, in lower case, to its value.
pub open spec fn fields(entries: Seq<(Seq<char>, Seq<char>)>) -> Map<Seq<char>, Seq<char>> {
    Map::new(
        |name: Seq<char>| exists|i: int| named(entries, i, name),
        |name: Seq<char>| entries[choose|i: int| named(entries, i, name)].1,
    )
}

/// Each entry is found in `fields` under its name.
pub proof fn lemma_fields_hold(entries: Seq<(Seq<char>, Seq<char>)>, i: int)
    requires
        distinct_names(entries),
        0 <= i < entries.len(),
    ensures
        fields(entries).contains_key(lower(entries[i].0)),
        fields(entries)[lower(entries[i].0)] == entries[i].1,
{
    let name = lower(entries[i].0);
    assert(named(entries, i, name));
    let found = choose|k: int| named(entries, k, name);
    if found < i {
        assert(lower(entries[found].0) != lower(entries[i].0));
    } else if i < found {
        assert(lower(entries[i].0) != lower(entries[found].0));
    }
}

/// Putting an entry where the entry of its name stands, or at the end where
/// there is none, keeps the names distinct and sets the field of that name.
pub proof fn lemma_put(
    before: Seq<(Seq<char>, Seq<char>)>,
    at: int,
    name: Seq<char>,
    value: Seq<char>,
)
    requires
        distinct_names(before),
        0 <= at <= before.len(),
        at < before.len() ==> named(before, at, lower(name)),
        at == before.len() ==> forall|i: int| !named(before, i, lower(name)),
    ensures
        ({
            let after = if at < before.len() {
                before.update(at, (name, value))
            } else {
                before.push((name, value))
            };
            distinct_names(after) && fields(after) == fields(before).insert(lower(name), value)
        }),
{
    let after = if at < before.len() {
        before.update(at, (name, value))
    } else {
        before.push((name, value))
    };
    let key = lower(name);
    assert forall|i: int, j: int| 0 <= i < j < after.len() implies lower(#[trigger] after[i].0)
        != lower(#[trigger] after[j].0) by {
        if i != at && j != at {
            assert(lower(before[i].0) != lower(before[j].0));
        } else if at < before.len() {
            assert(lower(before[i].0) != lower(before[j].0));
        } else {
            assert(!named(before, i, key));
        }
    }
    assert forall|n: Seq<char>|
        fields(after).contains_key(n) == #[trigger] fields(before).insert(key, value).contains_key(
            n,
        ) by {
        if n == key {
            assert(named(after, at, n));
        } else if fields(before).contains_key(n) {
            let i = choose|i: int| named(before, i, n);
            assert(named(after, i, n));
        } else if fields(after).contains_key(n) {
            let i = choose|i: int| named(after, i, n);
            assert(named(before, i, n));
        }
    }
    assert forall|n: Seq<char>| #[trigger] fields(after).contains_key(n) implies fields(after)[n]
        == fields(before).insert(key, value)[n] by {
        let i = choose|i: int| named(after, i, n);
        lemma_fields_hold(after, i);
        if n != key {
            assert(named(before, i, n));
            lemma_fields_hold(before, i);
        } else {
            lemma_fields_hold(after, at);
        }
    }
    assert(fields(after) =~= fields(before).insert(key, value));
}

/// Taking out the entry of a name keeps the names distinct and removes the
/// field of that name.
pub proof fn lemma_take_out(before: Seq<(Seq<char>, Seq<char>)>, at: int, name: Seq<char>)
    requires
        distinct_names(before),
        0 <= at <= before.len(),
        at < before.len() ==> named(before, at, lower(name)),
        at == before.len() ==> forall|i: int| !named(before, i, lower(name)),
    ensures
        ({
            let after = if at < before.len() {
                before.remove(at)
            } else {
                before
            };
            distinct_names(after) && fields(after) == fields(before).remove(lower(name))
        }),
{
    let after = if at < before.len() {
        before.remove(at)
    } else {
        before
    };
    let key = lower(name);
    let back = |i: int|
        if i < at {
            i
        } else {
            i + 1
        };
    if at < before.len() {
        assert forall|i: int| 0 <= i < after.len() implies #[trigger] after[i] == before[back(i)] by {}
        assert forall|i: int, j: int| 0 <= i < j < after.len() implies lower(
            #[trigger] after[i].0,
        ) != lower(#[trigger] after[j].0) by {
            assert(after[i] == before[back(i)]);
            assert(after[j] == before[back(j)]);
            assert(lower(before[back(i)].0) != lower(before[back(j)].0));
        }
    }
    assert forall|n: Seq<char>|
        fields(after).contains_key(n) == #[trigger] fields(before).remove(key).contains_key(
            n,
        ) by {
        if fields(after).contains_key(n) {
            let i = choose|i: int| named(after, i, n);
            if at < before.len() {
                assert(after[i] == before[back(i)]);
                assert(named(before, back(i), n));
                if n == key {
                    lemma_fields_hold(before, at);
                    assert(lower(before[back(i)].0) != lower(before[at].0)) by {
                        if back(i) < at {
                        } else {
                            assert(lower(before[at].0) != lower(before[back(i)].0));
                        }
                    }
                }
            } else {
                assert(named(before, i, n));
            }
        } else if n != key && fields(before).contains_key(n) {
            let i = choose|i: int| named(before, i, n);
            if at < before.len() {
                let to = if i < at {
                    i
                } else {
                    i - 1
                };
                assert(after[to] == before[back(to)]);
                assert(named(after, to, n));
            } else {
                assert(named(after, i, n));
            }
        }
    }
    assert forall|n: Seq<char>| #[trigger] fields(after).contains_key(n) implies fields(after)[n]
        == fields(before).remove(key)[n] by {
        let i = choose|i: int| named(after, i, n);
        lemma_fields_hold(after, i);
        if at < before.len() {
            assert(after[i] == before[back(i)]);
            lemma_fields_hold(before, back(i));
        }
    }
    assert(fields(after) =~= fields(before).remove(key));
}

/// The headers of a request.
#[derive(Debug)]
pub struct Headers {
    entries: Vec<(String, String)>,
}

impl View for Headers {
    type V = Map<Seq<char>, Seq<char>>;

    closed spec fn view(&self) -> Map<Seq<char>, Seq<char>> {
        fields(self.entries.deep_view())
    }
}

impl Clone for Headers {
    fn clone(&self) -> (copy: Headers)
        ensures
            copy@ == self@,
    {
        proof {
            use_type_invariant(self);
        }
        let mut entries: Vec<(String, String)> = Vec::new();
        let mut i: usize = 0;
        while i < self.entries.len()
            invariant
                i <= self.entries.len(),
                entries.deep_view() == self.entries.deep_view().take(i as int),
            decreases self.entries.len() - i,
        {
            let ghost copied = entries.deep_view();
            let name = self.entries[i].0.clone();
            let value = self.entries[i].1.clone();
            entries.push((name, value));
            assert(entries.deep_view() =~= copied.push((name@, value@)));
            assert(self.entries.deep_view()[i as int] == (name@, value@));
            assert(entries.deep_view() =~= self.entries.deep_view().take(i + 1));
            i += 1;
        }
        assert(entries.deep_view() =~= self.entries.deep_view());
        Headers { entries }
    }
}

impl Headers {
    #[verifier::type_invariant]
    spec fn well_formed(&self) -> bool {
        distinct_names(self.entries.deep_view())
    }

    /// No headers.
    pub fn new() -> (headers: Headers)
        ensures
            headers@ == Map::<Seq<char>, Seq<char>>::empty(),
    {
        let headers = Headers { entries: Vec::new() };
        assert(headers@ =~= Map::<Seq<char>, Seq<char>>::empty());
        headers
    }

    /// The index of the entry of this name, or the number of entries where
    /// there is none.
    fn position(&self, name: &Vec<char>) -> (at: usize)
        ensures
            at <= self.entries.len(),
            at < self.entries.len() ==> named(self.entries.deep_view(), at as int, lower(name@)),
            at == self.entries.len() ==> forall|i: int|
                !named(self.entries.deep_view(), i, lower(name@)),
    {
        let mut at: usize = 0;
        while at < self.entries.len()
            invariant
                at <= self.entries.len(),
                forall|i: int| 0 <= i < at ==> !named(self.entries.deep_view(), i, lower(name@)),
            decreases self.entries.len() - at,
        {
            let own = chars_of(self.entries[at].0.as_str());
            if same_name(&own, name) {
                return at;
            }
            at += 1;
        }
        at
    }

    /// Sets the header `name` to `value`, in place of the value it had.
    pub fn insert(&mut self, name: &str, value: &str)
        ensures
            final(self)@ == old(self)@.insert(lower(name@), value@),
    {
        proof {
            use_type_invariant(&*self);
        }
        let wanted = chars_of(name);
        let at = self.position(&wanted);
        let ghost before = self.entries.deep_view();
        let entry = (String::from_str(name), String::from_str(value));
        let mut entries: Vec<(String, String)> = Vec::new();
        core::mem::swap(&mut entries, &mut self.entries);
        if at < entries.len() {
            entries.set(at, entry);
        } else {
            entries.push(entry);
        }
        proof {
            assert(entries.deep_view() =~= if at < before.len() {
                before.update(at as int, (name@, value@))
            } else {
                before.push((name@, value@))
            });
            lemma_put(before, at as int, name@, value@);
        }
        self.entries = entries;
    }

    /// Takes the header `name` away.
    pub fn remove(&mut self, name: &str)
        ensures
            final(self)@ == old(self)@.remove(lower(name@)),
    {
        proof {
            use_type_invariant(&*self);
        }
        let wanted = chars_of(name);
        let at = self.position(&wanted);
        let ghost before = self.entries.deep_view();
        let mut entries: Vec<(String, String)> = Vec::new();
        core::mem::swap(&mut entries, &mut self.entries);
        if at < entries.len() {
            entries.remove(at);
        }
        proof {
            assert(entries.deep_view() =~= if at < before.len() {
                before.remove(at as int)
            } else {
                before
            });
            lemma_take_out(before, at as int, name@);
        }
        self.entries = entries;
    }

    /// The value of the header `name`, where it is set.
    pub fn get(&self, name: &str) -> (value: Option<&str>)
        ensures
            value is Some <==> self@.contains_key(lower(name@)),
            value matches Some(text) ==> text@ == self@[lower(name@)],
    {
        proof {
            use_type_invariant(self);
        }
        let wanted = chars_of(name);
        let at = self.position(&wanted);
        if at < self.entries.len() {
            proof {
                lemma_fields_hold(self.entries.deep_view(), at as int);
            }
            Some(self.entries[at].1.as_str())
        } else {
            None
        }
    }

    /// Whether the header `name` is set.
    pub fn contains(&self, name: &str) -> (held: bool)
        ensures
            held == self@.contains_key(lower(name@)),
    {
        self.get(name).is_some()
    }

    /// The headers one by one, each with its name as it was written when the
    /// header was last set.
    pub fn entries(&self) -> (list: &Vec<(String, String)>)
        ensures
            distinct_names(list.deep_view()),
            fields(list.deep_view()) == self@,
    {
        proof {
            use_type_invariant(self);
        }
        &self.entries
    }
}

} // verus!
