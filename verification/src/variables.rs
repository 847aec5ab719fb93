//! The variable table: named sets of subtag values that the patterns of a
//! rule refer to.

use vstd::hash_map::StringHashMap;
use vstd::hash_set::StringHashSet;
use vstd::prelude::*;

verus! {

/// A variable table as a mathematical value: from the name of a variable,
/// without its `$`, to the set of the values it stands for.
pub type VariableMap = Map<Seq<char>, Set<Seq<char>>>;

/// The set of the members of a sequence of texts.
pub open spec fn text_set(values: Seq<Seq<char>>) -> Set<Seq<char>> {
    Set::new(|v: Seq<char>| values.contains(v))
}

/// The variable table.
pub struct Variables {
    sets: StringHashMap<StringHashSet>,
}

impl View for Variables {
    type V = VariableMap;

    closed spec fn view(&self) -> VariableMap {
        Map::new(
            |name: Seq<char>| self.sets@.contains_key(name),
            |name: Seq<char>| self.sets@[name]@,
        )
    }
}

impl Variables {
    /// The table without any variable.
    pub fn new() -> (table: Variables)
        ensures
            table@ == VariableMap::empty(),
    {
        Variables { sets: StringHashMap::new() }
    }

    /// Gives the variable `name` the given values. An earlier definition
    /// of the same name is replaced.
    pub fn define(&mut self, name: String, values: &Vec<String>)
        ensures
            final(self)@ == old(self)@.insert(name@, text_set(crate::text::texts(values@))),
    {
        let mut set = StringHashSet::new();
        for i in 0..values.len()
            invariant
                set@ == text_set(crate::text::texts(values@.take(i as int))),
        {
            proof {
                let shorter = crate::text::texts(values@.take(i as int));
                let longer = crate::text::texts(values@.take(i + 1));
                assert(longer =~= shorter.push(values@[i as int]@));
                assert forall|v: Seq<char>| longer.contains(v) <==> shorter.contains(v) || v
                    == values@[i as int]@ by {
                    if shorter.contains(v) {
                        let k = choose|k: int| 0 <= k < shorter.len() && shorter[k] == v;
                        assert(longer[k] == v);
                    }
                    if v == values@[i as int]@ {
                        assert(longer[i as int] == v);
                    }
                }
            }
            set.insert(values[i].clone());
        }
        assert(values@.take(values.len() as int) =~= values@);
        self.sets.insert(name, set);
    }

    /// Whether the table defines the variable `name`.
    pub fn defines(&self, name: &str) -> (defined: bool)
        ensures
            defined == self@.contains_key(name@),
    {
        self.sets.contains_key(name)
    }

    /// Whether `value` is one of the values of the variable `name`.
    pub fn holds(&self, name: &str, value: &str) -> (member: bool)
        requires
            self@.contains_key(name@),
        ensures
            member == self@[name@].contains(value@),
    {
        match self.sets.get(name) {
            Some(set) => set.contains(value),
            None => false,
        }
    }
}

} // verus!
