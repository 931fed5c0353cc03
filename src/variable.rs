//! Variables: custom criteria that tell apart runs of one category or level,
//! and the filters built from them.

use vstd::prelude::*;
use crate::keyed::{
    entries_map,
    keys_unique,
    lemma_entries_map_domain,
    lemma_entries_map_push,
    lemma_entries_map_update,
    lemma_entries_map_value,
};

verus! {

/// The description of one possible value of a variable.
#[derive(Debug, Clone)]
pub struct ValueData {
    pub label: String,
    pub rules: Option<String>,
}

impl ValueData {
    /// A copy of this description.
    pub fn duplicate(&self) -> (r: ValueData)
        ensures
            r == *self,
    {
        ValueData {
            label: self.label.clone(),
            rules: match &self.rules {
                Some(x) => Some(x.clone()),
                None => None,
            },
        }
    }
}

/// A possible value of a variable.
#[derive(Debug)]
pub struct Value {
    id: String,
    inner: ValueData,
}

impl Value {
    /// The value's API ID.
    pub closed spec fn id_spec(&self) -> Seq<char> {
        self.id@
    }

    /// The value's description.
    pub closed spec fn data_spec(&self) -> ValueData {
        self.inner
    }

    /// Returns the value's API ID.
    pub fn id(&self) -> (r: &str)
        ensures
            r@ == self.id_spec(),
    {
        self.id.as_str()
    }

    /// Returns the label, or human-readable name, of the value.
    pub fn label(&self) -> (r: &str)
        ensures
            r@ == self.data_spec().label@,
    {
        self.inner.label.as_str()
    }

    /// If this is a subcategory, returns the subcategory's rules.
    pub fn rules(&self) -> (r: Option<&str>)
        ensures
            r matches Some(x) ==> self.data_spec().rules matches Some(y) && x@ == y@,
            r is None ==> self.data_spec().rules is None,
    {
        match &self.inner.rules {
            Some(x) => Some(x.as_str()),
            None => None,
        }
    }
}

/// The data of a variable: its ID, its name, its possible values by ID, and
/// the ID of its default value, if it has one.
#[derive(Debug, Clone)]
pub struct VariableData {
    id: String,
    name: String,
    values: Vec<(String, ValueData)>,
    default: Option<String>,
}

impl VariableData {
    /// The variable's API ID.
    pub closed spec fn id_spec(&self) -> Seq<char> {
        self.id@
    }

    /// The variable's name.
    pub closed spec fn name_spec(&self) -> Seq<char> {
        self.name@
    }

    /// The possible values, as (ID, description) pairs.
    pub closed spec fn values_spec(&self) -> Seq<(String, ValueData)> {
        self.values@
    }

    /// The ID of the default value.
    pub closed spec fn default_spec(&self) -> Option<String> {
        self.default
    }

    /// A variable with the given parts.
    pub fn new(id: String, name: String, values: Vec<(String, ValueData)>, default: Option<String>) -> (r:
        VariableData)
        ensures
            r.id_spec() == id@,
            r.name_spec() == name@,
            r.values_spec() == values@,
            r.default_spec() == default,
    {
        VariableData { id, name, values, default }
    }

    /// Returns this variable's API ID.
    pub fn id(&self) -> (r: &str)
        ensures
            r@ == self.id_spec(),
    {
        self.id.as_str()
    }

    /// Returns this variable's name.
    pub fn name(&self) -> (r: &str)
        ensures
            r@ == self.name_spec(),
    {
        self.name.as_str()
    }

    /// Returns the list of possible values this variable can be.
    pub fn values(&self) -> (r: Vec<Value>)
        ensures
            r@.len() == self.values_spec().len(),
            forall|i: int|
                0 <= i < r@.len() ==> #[trigger] r@[i].id_spec() == self.values_spec()[i].0@
                    && r@[i].data_spec() == self.values_spec()[i].1,
    {
        let mut r: Vec<Value> = Vec::new();
        let mut i: usize = 0;
        while i < self.values.len()
            invariant
                i <= self.values@.len(),
                r@.len() == i,
                forall|j: int|
                    0 <= j < i ==> #[trigger] r@[j].id_spec() == self.values@[j].0@
                        && r@[j].data_spec() == self.values@[j].1,
            decreases self.values@.len() - i,
        {
            r.push(Value { id: self.values[i].0.clone(), inner: self.values[i].1.duplicate() });
            i += 1;
        }
        r
    }

    /// Returns the default value of this variable: none when no default is
    /// set, or when the default names none of the listed values.
    pub fn default_value(&self) -> (r: Option<Value>)
        ensures
            self.default_spec() is None ==> r is None,
            self.default_spec() matches Some(d) ==> (r is Some <==> exists|i: int|
                0 <= i < self.values_spec().len() && self.values_spec()[i].0@ == d@),
            r matches Some(v) ==> (self.default_spec() matches Some(d) && v.id_spec() == d@ && exists|i: int|
                0 <= i < self.values_spec().len() && self.values_spec()[i].0@ == d@
                    && v.data_spec() == self.values_spec()[i].1),
    {
        match &self.default {
            None => None,
            Some(d) => {
                let mut i: usize = 0;
                while i < self.values.len()
                    invariant
                        self.default == Some(*d),
                        i <= self.values@.len(),
                        forall|j: int| 0 <= j < i ==> self.values@[j].0@ != d@,
                    decreases self.values@.len() - i,
                {
                    if self.values[i].0 == *d {
                        let v = Value { id: d.clone(), inner: self.values[i].1.duplicate() };
                        proof {
                            assert(self.values_spec()[i as int].0@ == d@ && v.data_spec()
                                == self.values_spec()[i as int].1);
                        }
                        return Some(v);
                    }
                    i += 1;
                }
                None
            },
        }
    }
}

/// The query parameters that a list of (variable ID, value ID) pairs gives: one
/// `var-<variable ID>` parameter per variable, a later pair winning.
pub open spec fn filter_map(pairs: Seq<(String, String)>) -> Map<Seq<char>, Seq<char>>
    decreases pairs.len(),
{
    if pairs.len() == 0 {
        Map::empty()
    } else {
        filter_map(pairs.drop_last()).insert("var-"@ + pairs.last().0@, pairs.last().1@)
    }
}

/// The view of stored parameters as text.
pub open spec fn text_map(m: Map<Seq<char>, String>) -> Map<Seq<char>, Seq<char>> {
    m.map_values(|v: String| v@)
}

/// Filters a leaderboard by variable/value pairs.
#[derive(Debug, Clone)]
pub struct Filter {
    params: Vec<(String, String)>,
}

impl Filter {
    /// The query parameters, by name.
    pub closed spec fn view(&self) -> Map<Seq<char>, Seq<char>> {
        text_map(entries_map(self.params@))
    }

    /// The internal invariant: one value per parameter.
    pub closed spec fn wf(&self) -> bool {
        keys_unique(self.params@)
    }

    /// A filter that selects everything.
    pub fn new() -> (r: Filter)
        ensures
            r.wf(),
            r@ == Map::<Seq<char>, Seq<char>>::empty(),
    {
        let r = Filter { params: Vec::new() };
        proof {
            assert(r@ =~= Map::<Seq<char>, Seq<char>>::empty());
        }
        r
    }

    /// A filter from (variable ID, value ID) pairs.
    pub fn from_pairs(pairs: &Vec<(String, String)>) -> (r: Filter)
        ensures
            r.wf(),
            r@ == filter_map(pairs@),
    {
        let mut r = Filter::new();
        let mut i: usize = 0;
        while i < pairs.len()
            invariant
                i <= pairs@.len(),
                r.wf(),
                r@ == filter_map(pairs@.take(i as int)),
            decreases pairs@.len() - i,
        {
            let mut key = String::from_str("var-");
            key.append(pairs[i].0.as_str());
            let value = pairs[i].1.clone();
            proof {
                assert(pairs@.take(i + 1).drop_last() =~= pairs@.take(i as int));
            }
            r.put(key, value);
            i += 1;
        }
        proof {
            assert(pairs@.take(pairs@.len() as int) =~= pairs@);
        }
        r
    }

    /// Sets parameter `key` to `value`.
    fn put(&mut self, key: String, value: String)
        requires
            old(self).wf(),
        ensures
            final(self).wf(),
            final(self)@ == old(self)@.insert(key@, value@),
    {
        let ghost old_map = entries_map(self.params@);
        let mut i: usize = 0;
        while i < self.params.len()
            invariant
                self.params@ == old(self).params@,
                keys_unique(self.params@),
                i <= self.params@.len(),
                forall|j: int| 0 <= j < i ==> self.params@[j].0@ != key@,
            decreases self.params@.len() - i,
        {
            if self.params[i].0 == key {
                proof {
                    lemma_entries_map_update(self.params@, i as int, (key, value));
                }
                self.params.set(i, (key, value));
                proof {
                    assert(self@ =~= old(self)@.insert(key@, value@));
                }
                return;
            }
            i += 1;
        }
        proof {
            lemma_entries_map_domain(self.params@, key@);
            lemma_entries_map_push(self.params@, (key, value));
        }
        self.params.push((key, value));
        proof {
            assert(self@ =~= old(self)@.insert(key@, value@));
        }
    }

    /// The query parameters as (name, value) pairs, one per name.
    pub fn query_pairs(&self) -> (r: Vec<(String, String)>)
        requires
            self.wf(),
        ensures
            keys_unique(r@),
            text_map(entries_map(r@)) == self@,
    {
        let mut r: Vec<(String, String)> = Vec::new();
        let mut i: usize = 0;
        while i < self.params.len()
            invariant
                i <= self.params@.len(),
                r@ == self.params@.take(i as int),
            decreases self.params@.len() - i,
        {
            r.push((self.params[i].0.clone(), self.params[i].1.clone()));
            i += 1;
            proof {
                assert(r@ =~= self.params@.take(i as int));
            }
        }
        proof {
            assert(r@ =~= self.params@);
        }
        r
    }
}

} // verus!
