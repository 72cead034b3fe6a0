use vstd::prelude::*;

use crate::parser_traits::Package;

verus! {

/// Something that holds named members.
pub trait Container<T> {
    /// Whether the container is in order.
    spec fn wf(&self) -> bool;

    /// The members by their names.
    spec fn inner(&self) -> Map<Seq<char>, T>;

    /// The member named `s`, if there is one.
    fn get_inner(&self, s: &String) -> (r: Option<&T>)
        requires
            self.wf(),
        ensures
            match r {
                Some(member) => self.inner().contains_key(s@) && self.inner()[s@] == *member,
                None => !self.inner().contains_key(s@),
            },
    ;
}

/// Members by their names; no name is held twice.
#[derive(Debug)]
pub struct Table<T> {
    entries: Vec<(String, T)>,
}

impl<T> Table<T> {
    /// The names in the order in which they were put in.
    pub closed spec fn names(&self) -> Seq<Seq<char>> {
        Seq::new(self.entries@.len(), |i: int| self.entries@[i].0@)
    }

    /// No name is held twice.
    pub closed spec fn wf(&self) -> bool {
        forall|i: int, j: int|
            0 <= i < j < self.entries@.len() ==> self.entries@[i].0@ != self.entries@[j].0@
    }

    /// Where the member named `name` is held.
    spec fn place(&self, name: Seq<char>) -> int {
        choose|i: int| 0 <= i < self.entries@.len() && self.entries@[i].0@ == name
    }

    /// The members by their names.
    pub closed spec fn members(&self) -> Map<Seq<char>, T> {
        Map::new(
            |name: Seq<char>|
                exists|i: int| 0 <= i < self.entries@.len() && self.entries@[i].0@ == name,
            |name: Seq<char>| self.entries@[self.place(name)].1,
        )
    }

    /// In a table that is in order, the member held at `i` is the one that
    /// its name stands for.
    proof fn lemma_held(&self, i: int)
        requires
            self.wf(),
            0 <= i < self.entries@.len(),
        ensures
            self.members().contains_key(self.entries@[i].0@),
            self.members()[self.entries@[i].0@] == self.entries@[i].1,
    {
        let name = self.entries@[i].0@;
        let j = self.place(name);
        assert(0 <= j < self.entries@.len() && self.entries@[j].0@ == name);
        if i < j {
        } else if j < i {
        }
    }

    /// A table without members.
    pub fn new() -> (r: Self)
        ensures
            r.wf(),
            r.members() == Map::<Seq<char>, T>::empty(),
    {
        let r = Table { entries: Vec::new() };
        assert(r.members() =~= Map::<Seq<char>, T>::empty());
        r
    }

    /// The number of members.
    pub fn len(&self) -> (n: usize)
        ensures
            n == self.names().len(),
    {
        self.entries.len()
    }

    fn find(&self, name: &String) -> (r: Option<usize>)
        ensures
            match r {
                Some(i) => i < self.entries@.len() && self.entries@[i as int].0@ == name@,
                None => forall|k: int|
                    0 <= k < self.entries@.len() ==> self.entries@[k].0@ != name@,
            },
    {
        let mut i: usize = 0;
        while i < self.entries.len()
            invariant
                i <= self.entries.len(),
                forall|k: int| 0 <= k < i ==> self.entries@[k].0@ != name@,
            decreases self.entries.len() - i,
        {
            if self.entries[i].0 == *name {
                return Some(i);
            }
            i += 1;
        }
        None
    }

    /// The member named `name`, if there is one.
    pub fn get(&self, name: &String) -> (r: Option<&T>)
        requires
            self.wf(),
        ensures
            match r {
                Some(member) => self.members().contains_key(name@) && self.members()[name@]
                    == *member,
                None => !self.members().contains_key(name@),
            },
    {
        match self.find(name) {
            Some(i) => {
                proof {
                    self.lemma_held(i as int);
                }
                Some(&self.entries[i].1)
            },
            None => None,
        }
    }

    /// Puts `member` in under `name`, in place of the member that had the
    /// name before, if there was one.
    pub fn insert(&mut self, name: String, member: T)
        requires
            old(self).wf(),
        ensures
            final(self).wf(),
            final(self).members() == old(self).members().insert(name@, member),
    {
        let ghost before = *self;
        match self.find(&name) {
            Some(i) => {
                self.entries.set(i, (name, member));
                proof {
                    assert(self.wf());
                    assert forall|k: Seq<char>|
                        self.members().contains_key(k) == before.members().insert(
                            name@,
                            member,
                        ).contains_key(k) by {
                        if before.members().insert(name@, member).contains_key(k) {
                            if k == name@ {
                                assert(self.entries@[i as int].0@ == k);
                            } else {
                                let j = before.place(k);
                                assert(self.entries@[j].0@ == k);
                            }
                        }
                        if self.members().contains_key(k) {
                            let j = self.place(k);
                            assert(before.entries@[j].0@ == k);
                        }
                    }
                    assert forall|k: Seq<char>| self.members().contains_key(k) implies #[trigger]
                        self.members()[k] == before.members().insert(name@, member)[k] by {
                        let j = self.place(k);
                        self.lemma_held(j);
                        if k != name@ {
                            before.lemma_held(j);
                        }
                    }
                    assert(self.members() =~= before.members().insert(name@, member));
                }
            },
            None => {
                self.entries.push((name, member));
                proof {
                    let last = before.entries@.len() as int;
                    assert(self.wf());
                    assert forall|k: Seq<char>|
                        self.members().contains_key(k) == before.members().insert(
                            name@,
                            member,
                        ).contains_key(k) by {
                        if before.members().insert(name@, member).contains_key(k) {
                            if k == name@ {
                                assert(self.entries@[last].0@ == k);
                            } else {
                                let j = before.place(k);
                                assert(self.entries@[j].0@ == k);
                            }
                        }
                        if self.members().contains_key(k) {
                            let j = self.place(k);
                            if j < last {
                                assert(before.entries@[j].0@ == k);
                            }
                        }
                    }
                    assert forall|k: Seq<char>| self.members().contains_key(k) implies #[trigger]
                        self.members()[k] == before.members().insert(name@, member)[k] by {
                        let j = self.place(k);
                        self.lemma_held(j);
                        if j < last {
                            before.lemma_held(j);
                        }
                    }
                    assert(self.members() =~= before.members().insert(name@, member));
                }
            },
        }
    }
}

impl<T> Container<T> for Table<T> {
    open spec fn wf(&self) -> bool {
        Table::wf(self)
    }

    open spec fn inner(&self) -> Map<Seq<char>, T> {
        self.members()
    }

    fn get_inner(&self, s: &String) -> (r: Option<&T>) {
        self.get(s)
    }
}

/// A whole program: its packages by their names.
#[derive(Debug)]
pub struct Program {
    pub packages: Table<Package>,
}

impl Program {
    /// A program without packages.
    pub fn new() -> (r: Program)
        ensures
            r.wf(),
            r.inner() == Map::<Seq<char>, Package>::empty(),
    {
        Program { packages: Table::new() }
    }
}

impl Container<Package> for Program {
    open spec fn wf(&self) -> bool {
        self.packages.wf()
    }

    open spec fn inner(&self) -> Map<Seq<char>, Package> {
        self.packages.members()
    }

    fn get_inner(&self, s: &String) -> (r: Option<&Package>) {
        self.packages.get(s)
    }
}

} // verus!
