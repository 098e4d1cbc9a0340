//! The names that a C source declares, with the C3 name chosen for each.

use vstd::prelude::*;
use crate::naming::{
    c3_constant_name, c3_constant_name_text, c3_type_name, c3_type_name_text,
    c3_variable_name, c3_variable_name_text,
};
use crate::text::{chars_of, text_eq};

verus! {

broadcast use vstd::string::group_string_axioms;

/// The value that the first entry with key `k` holds, if any.
pub open spec fn lookup(entries: Seq<(Vec<char>, Vec<char>)>, k: Seq<char>) -> Option<Seq<char>>
    decreases entries.len(),
{
    if entries.len() == 0 {
        None
    } else {
        match lookup(entries.drop_last(), k) {
            Some(v) => Some(v),
            None => if entries.last().0@ == k {
                Some(entries.last().1@)
            } else {
                None
            },
        }
    }
}

/// Whether some entry is `k`.
pub open spec fn holds(entries: Seq<Vec<char>>, k: Seq<char>) -> bool {
    exists|i: int| 0 <= i < entries.len() && entries[i]@ == k
}

/// A finite map from names to names.
pub struct NameMap {
    entries: Vec<(Vec<char>, Vec<char>)>,
}

impl View for NameMap {
    type V = Map<Seq<char>, Seq<char>>;

    closed spec fn view(&self) -> Map<Seq<char>, Seq<char>> {
        Map::new(
            |k: Seq<char>| lookup(self.entries@, k) is Some,
            |k: Seq<char>| lookup(self.entries@, k)->0,
        )
    }
}

/// Where no entry has the key `k`, `k` is not mapped.
proof fn lemma_lookup_none(entries: Seq<(Vec<char>, Vec<char>)>, k: Seq<char>)
    requires
        lookup(entries, k) is None,
    ensures
        forall|i: int| 0 <= i < entries.len() ==> entries[i].0@ != k,
    decreases entries.len(),
{
    if entries.len() > 0 {
        lemma_lookup_none(entries.drop_last(), k);
        assert forall|i: int| 0 <= i < entries.len() implies entries[i].0@ != k by {
            if i < entries.len() - 1 {
                assert(entries.drop_last()[i] == entries[i]);
            }
        }
    }
}

impl NameMap {
    /// No two entries have the same key.
    #[verifier::type_invariant]
    closed spec fn keys_distinct(self) -> bool {
        forall|i: int, j: int|
            0 <= i < j < self.entries@.len() ==> self.entries@[i].0@ != self.entries@[j].0@
    }

    /// The empty map.
    pub fn new() -> (m: NameMap)
        ensures
            m@ == Map::<Seq<char>, Seq<char>>::empty(),
    {
        let m = NameMap { entries: Vec::new() };
        assert(m@ =~= Map::<Seq<char>, Seq<char>>::empty());
        m
    }

    /// The name that `key` maps to, if any.
    pub fn get(&self, key: &Vec<char>) -> (r: Option<&Vec<char>>)
        ensures
            match r {
                Some(v) => self@.contains_key(key@) && self@[key@] == v@,
                None => !self@.contains_key(key@),
            },
    {
        let mut found: Option<usize> = None;
        let mut i: usize = 0;
        while i < self.entries.len()
            invariant
                i <= self.entries.len(),
                match found {
                    Some(j) => j < i && lookup(self.entries@.take(i as int), key@) == Some(
                        self.entries@[j as int].1@,
                    ),
                    None => lookup(self.entries@.take(i as int), key@) is None,
                },
            decreases self.entries.len() - i,
        {
            assert(self.entries@.take(i + 1).drop_last() == self.entries@.take(i as int));
            if found.is_none() && text_eq(&self.entries[i].0, key) {
                found = Some(i);
            }
            i = i + 1;
        }
        assert(self.entries@.take(self.entries@.len() as int) == self.entries@);
        match found {
            Some(j) => Some(&self.entries[j].1),
            None => None,
        }
    }

    /// Whether `key` is mapped.
    pub fn contains_key(&self, key: &Vec<char>) -> (r: bool)
        ensures
            r == self@.contains_key(key@),
    {
        self.get(key).is_some()
    }

    /// Maps `key` to `value`, where `key` is not mapped yet.
    pub fn insert_new(&mut self, key: Vec<char>, value: Vec<char>)
        requires
            !old(self)@.contains_key(key@),
        ensures
            final(self)@ == old(self)@.insert(key@, value@),
    {
        proof {
            use_type_invariant(&*self);
            lemma_lookup_none(self.entries@, key@);
        }
        let ghost before = self.entries@;
        let ghost k = key@;
        let ghost v = value@;
        let mut entries: Vec<(Vec<char>, Vec<char>)> = Vec::new();
        std::mem::swap(&mut entries, &mut self.entries);
        entries.push((key, value));
        self.entries = entries;
        assert(self.entries@.drop_last() == before);
        assert(self@ =~= old(self)@.insert(k, v));
    }
}

/// A finite set of names.
pub struct NameSet {
    entries: Vec<Vec<char>>,
}

impl View for NameSet {
    type V = Set<Seq<char>>;

    closed spec fn view(&self) -> Set<Seq<char>> {
        Set::new(|k: Seq<char>| holds(self.entries@, k))
    }
}

impl NameSet {
    /// No name is held twice.
    #[verifier::type_invariant]
    closed spec fn entries_distinct(self) -> bool {
        forall|i: int, j: int| 0 <= i < j < self.entries@.len() ==> self.entries@[i]@ != self.entries@[j]@
    }

    /// The empty set.
    pub fn new() -> (s: NameSet)
        ensures
            s@ == Set::<Seq<char>>::empty(),
    {
        let s = NameSet { entries: Vec::new() };
        assert(s@ =~= Set::<Seq<char>>::empty());
        s
    }

    /// Whether `key` is in the set.
    pub fn contains(&self, key: &Vec<char>) -> (r: bool)
        ensures
            r == self@.contains(key@),
    {
        let mut i: usize = 0;
        while i < self.entries.len()
            invariant
                i <= self.entries.len(),
                forall|j: int| 0 <= j < i ==> self.entries@[j]@ != key@,
            decreases self.entries.len() - i,
        {
            if text_eq(&self.entries[i], key) {
                assert(holds(self.entries@, key@));
                return true;
            }
            i = i + 1;
        }
        false
    }

    /// Adds `key` to the set.
    pub fn insert(&mut self, key: Vec<char>)
        ensures
            final(self)@ == old(self)@.insert(key@),
    {
        if !self.contains(&key) {
            proof {
                use_type_invariant(&*self);
            }
            let ghost before = self.entries@;
            let ghost k = key@;
            let mut entries: Vec<Vec<char>> = Vec::new();
            std::mem::swap(&mut entries, &mut self.entries);
            entries.push(key);
            self.entries = entries;
            assert forall|x: Seq<char>| holds(self.entries@, x) <==> holds(before, x) || x == k by {
                if holds(before, x) {
                    let i = choose|i: int| 0 <= i < before.len() && before[i]@ == x;
                    assert(self.entries@[i] == before[i]);
                }
                if holds(self.entries@, x) && x != k {
                    let i = choose|i: int| 0 <= i < self.entries@.len() && self.entries@[i]@ == x;
                    assert(before[i] == self.entries@[i]);
                }
                if x == k {
                    assert(self.entries@[before.len() as int]@ == k);
                }
            }
            assert(self@ =~= old(self)@.insert(k));
        } else {
            assert(old(self)@ =~= old(self)@.insert(key@));
        }
    }
}

/// `m` with `key` mapped to `value`, unless `key` is mapped already.
pub open spec fn register(m: Map<Seq<char>, Seq<char>>, key: Seq<char>, value: Seq<char>) -> Map<
    Seq<char>,
    Seq<char>,
> {
    if m.contains_key(key) {
        m
    } else {
        m.insert(key, value)
    }
}

/// The names declared in a C source: its types, functions, variables and
/// constants, each with its C3 name, and the variables that are arrays.
pub struct SymbolTable {
    pub types: NameMap,
    pub functions: NameMap,
    pub variables: NameMap,
    pub constants: NameMap,
    pub arrays: NameSet,
}

impl SymbolTable {
    /// A table with no names.
    pub fn new() -> (t: SymbolTable)
        ensures
            t.types@ == Map::<Seq<char>, Seq<char>>::empty(),
            t.functions@ == Map::<Seq<char>, Seq<char>>::empty(),
            t.variables@ == Map::<Seq<char>, Seq<char>>::empty(),
            t.constants@ == Map::<Seq<char>, Seq<char>>::empty(),
            t.arrays@ == Set::<Seq<char>>::empty(),
    {
        SymbolTable {
            types: NameMap::new(),
            functions: NameMap::new(),
            variables: NameMap::new(),
            constants: NameMap::new(),
            arrays: NameSet::new(),
        }
    }

    /// Records a type name with its C3 name, unless it is recorded already.
    pub fn register_type(&mut self, c_name: &str)
        ensures
            final(self).types@ == register(old(self).types@, c_name@, c3_type_name(c_name@)),
            final(self).functions@ == old(self).functions@,
            final(self).variables@ == old(self).variables@,
            final(self).constants@ == old(self).constants@,
            final(self).arrays@ == old(self).arrays@,
    {
        let key = chars_of(c_name);
        if !self.types.contains_key(&key) {
            let value = c3_type_name_text(&key);
            self.types.insert_new(key, value);
        }
    }

    /// Records a function name with its C3 name, unless it is recorded already.
    pub fn register_function(&mut self, c_name: &str)
        ensures
            final(self).functions@ == register(
                old(self).functions@,
                c_name@,
                c3_variable_name(c_name@),
            ),
            final(self).types@ == old(self).types@,
            final(self).variables@ == old(self).variables@,
            final(self).constants@ == old(self).constants@,
            final(self).arrays@ == old(self).arrays@,
    {
        let key = chars_of(c_name);
        if !self.functions.contains_key(&key) {
            let value = c3_variable_name_text(&key);
            self.functions.insert_new(key, value);
        }
    }

    /// Records a variable or parameter name with its C3 name, unless it is
    /// recorded already.
    pub fn register_variable(&mut self, c_name: &str)
        ensures
            final(self).variables@ == register(
                old(self).variables@,
                c_name@,
                c3_variable_name(c_name@),
            ),
            final(self).types@ == old(self).types@,
            final(self).functions@ == old(self).functions@,
            final(self).constants@ == old(self).constants@,
            final(self).arrays@ == old(self).arrays@,
    {
        let key = chars_of(c_name);
        if !self.variables.contains_key(&key) {
            let value = c3_variable_name_text(&key);
            self.variables.insert_new(key, value);
        }
    }

    /// Records a constant name with its C3 name, unless it is recorded already.
    pub fn register_constant(&mut self, c_name: &str)
        ensures
            final(self).constants@ == register(
                old(self).constants@,
                c_name@,
                c3_constant_name(c_name@),
            ),
            final(self).types@ == old(self).types@,
            final(self).functions@ == old(self).functions@,
            final(self).variables@ == old(self).variables@,
            final(self).arrays@ == old(self).arrays@,
    {
        let key = chars_of(c_name);
        if !self.constants.contains_key(&key) {
            let value = c3_constant_name_text(&key);
            self.constants.insert_new(key, value);
        }
    }
}

} // verus!

verus! {

/// The names of a symbol table, as mathematical maps and a set.
#[verifier::ext_equal]
pub struct Names {
    pub types: Map<Seq<char>, Seq<char>>,
    pub functions: Map<Seq<char>, Seq<char>>,
    pub variables: Map<Seq<char>, Seq<char>>,
    pub constants: Map<Seq<char>, Seq<char>>,
    pub arrays: Set<Seq<char>>,
}

impl SymbolTable {
    pub open spec fn names(&self) -> Names {
        Names {
            types: self.types@,
            functions: self.functions@,
            variables: self.variables@,
            constants: self.constants@,
            arrays: self.arrays@,
        }
    }
}

/// Registering a name that is registered already changes nothing; a name is
/// registered with the C3 name it was first registered with; other names keep
/// what they had.
pub proof fn register_keeps_first_name(
    m: Map<Seq<char>, Seq<char>>,
    key: Seq<char>,
    value: Seq<char>,
    later: Seq<char>,
)
    ensures
        register(register(m, key, value), key, later) == register(m, key, value),
        register(m, key, value).contains_key(key),
        register(m, key, value)[key] == if m.contains_key(key) {
            m[key]
        } else {
            value
        },
        forall|other: Seq<char>|
            other != key ==> (register(m, key, value).contains_key(other) == m.contains_key(other)
                && register(m, key, value)[other] == m[other]),
{
}

} // verus!
