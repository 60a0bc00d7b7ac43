//! The variable context an expression is evaluated against: a mapping from
//! variable name to string value, owned by the caller and read-only to the
//! evaluator. Lookups are exact, case-sensitive string matches; inserting a
//! name again replaces its value.

use vstd::prelude::*;

use crate::text::str_eq;

verus! {

/// A mapping from variable name to string value. Its model is the
/// mathematical map in which the latest insertion of a name wins.
pub struct VariableContext {
    entries: Vec<(String, String)>,
}

/// The map described by an entry sequence: each entry inserted in order,
/// so a later entry for the same name replaces an earlier one.
spec fn entries_map(s: Seq<(String, String)>) -> Map<Seq<char>, Seq<char>>
    decreases s.len(),
{
    if s.len() == 0 {
        Map::empty()
    } else {
        entries_map(s.drop_last()).insert(s.last().0@, s.last().1@)
    }
}

impl View for VariableContext {
    type V = Map<Seq<char>, Seq<char>>;

    closed spec fn view(&self) -> Map<Seq<char>, Seq<char>> {
        entries_map(self.entries@)
    }
}

impl VariableContext {
    /// An empty context: no variable has a value.
    pub fn new() -> (c: VariableContext)
        ensures
            c@ == Map::<Seq<char>, Seq<char>>::empty(),
    {
        let c = VariableContext { entries: Vec::new() };
        proof {
            assert(c.entries@.len() == 0);
        }
        c
    }

    /// Gives `name` the value `value`, replacing any earlier value.
    pub fn insert(&mut self, name: &str, value: &str)
        ensures
            final(self)@ == old(self)@.insert(name@, value@),
    {
        self.entries.push((name.to_owned(), value.to_owned()));
        proof {
            assert(self.entries@.drop_last() =~= old(self).entries@);
        }
    }

    /// The value of `name`, if the context holds one.
    pub fn get(&self, name: &str) -> (r: Option<&String>)
        ensures
            r is Some <==> self@.contains_key(name@),
            r matches Some(v) ==> v@ == self@[name@],
    {
        let ghost s = self.entries@;
        let ghost k = name@;
        let mut i: usize = self.entries.len();
        proof {
            assert(s.take(s.len() as int) =~= s);
        }
        while i > 0
            invariant
                0 <= i <= s.len(),
                s == self.entries@,
                k == name@,
                entries_map(s).contains_key(k) == entries_map(s.take(i as int)).contains_key(k),
                entries_map(s).contains_key(k) ==> entries_map(s)[k] == entries_map(
                    s.take(i as int),
                )[k],
            decreases i,
        {
            i = i - 1;
            proof {
                assert(s.take(i + 1).drop_last() =~= s.take(i as int));
                assert(s.take(i + 1).last() == s[i as int]);
            }
            if str_eq(self.entries[i].0.as_str(), name) {
                return Some(&self.entries[i].1);
            }
        }
        proof {
            assert(s.take(0) =~= Seq::<(String, String)>::empty());
        }
        None
    }
}

} // verus!
