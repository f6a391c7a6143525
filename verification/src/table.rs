//! Values kept under names.

use vstd::prelude::*;

use crate::interface::find_named;
use crate::interface::labels;
use crate::interface::lemma_name_index;
use crate::interface::name_index;
use crate::interface::Named;

verus! {

/// A value with the name that it is kept under.
#[derive(Debug, PartialEq)]
pub struct Kept<T> {
    pub name: String,
    pub value: T,
}

impl<T> Named for Kept<T> {
    open spec fn named(&self) -> Seq<char> {
        self.name@
    }

    fn label(&self) -> &str {
        self.name.as_str()
    }
}

/// Values kept under names; under one name the first counts.
#[derive(Debug, PartialEq)]
pub struct Table<T> {
    pub items: Vec<Kept<T>>,
}

impl<T> Table<T> {
    /// The value under a name, if there is one.
    pub open spec fn at(self, name: Seq<char>) -> Option<T> {
        let i = name_index(labels(self.items@), name);
        if 0 <= i < self.items@.len() {
            Some(self.items@[i].value)
        } else {
            None
        }
    }

    /// A table that keeps nothing.
    pub fn new() -> (r: Table<T>)
        ensures
            r.items@.len() == 0,
            forall|name: Seq<char>| #[trigger] r.at(name) is None,
    {
        Table { items: Vec::new() }
    }

    /// Looks a name up.
    pub fn get(&self, name: &str) -> (r: Option<&T>)
        ensures
            match r {
                Some(v) => self.at(name@) == Some(*v),
                None => self.at(name@) is None,
            },
    {
        match find_named(&self.items, name) {
            Some(i) => Some(&self.items[i].value),
            None => None,
        }
    }

    /// Keeps a value under a name, in place of the one that is there.
    pub fn insert(&mut self, name: String, value: T)
        ensures
            final(self).at(name@) == Some(value),
            forall|other: Seq<char>| other != name@ ==> #[trigger] final(self).at(other) == old(
                self,
            ).at(other),
    {
        let ghost before = *self;
        let place = find_named(&self.items, name.as_str());
        match place {
            Some(i) => self.items.set(i, Kept { name, value }),
            None => self.items.push(Kept { name, value }),
        }
        proof {
            let ghost was = labels(before.items@);
            let ghost now = labels(self.items@);
            lemma_name_index(was, name@, 0);
            lemma_name_index(now, name@, 0);
            if place is Some {
                assert(now =~= was);
            } else {
                assert(now =~= was.push(name@));
                assert(now[was.len() as int] == name@);
                let k = name_index(now, name@);
                assert(k < was.len() ==> now[k] == was[k]);
            }
            assert forall|other: Seq<char>| other != name@ implies #[trigger] self.at(other)
                == before.at(other) by {
                lemma_name_index(was, other, 0);
                lemma_name_index(now, other, 0);
                let a = name_index(was, other);
                let b = name_index(now, other);
                if place is None {
                    assert(a < was.len() ==> now[a] == was[a]);
                    assert(b < was.len() ==> now[b] == was[b]);
                    assert(b < now.len() ==> b != was.len());
                    if a < was.len() && b < was.len() {
                        assert(a == b);
                    }
                }
            }
        }
    }
}

} // verus!
