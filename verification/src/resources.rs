use vstd::prelude::*;
use vstd::std_specs::cmp::PartialEqSpecImpl;

use crate::text::{joined, lemma_joined_step};

verus! {

/// A path of name segments that identifies a package, a file or a
/// declaration inside a program tree, such as `std::operators::Add::add`.
///
/// A location is never changed in place: [`ResourceLoc::with`] hands out a
/// longer one and leaves the receiver as it was.
#[derive(Debug, Eq, Hash)]
pub struct ResourceLoc {
    pub loc: Vec<String>,
}

impl View for ResourceLoc {
    type V = Seq<Seq<char>>;

    /// The segments, outermost first, each as its text.
    open spec fn view(&self) -> Seq<Seq<char>> {
        self.loc.deep_view()
    }
}

impl ResourceLoc {
    /// The empty location: the root above every package.
    pub fn new() -> (r: ResourceLoc)
        ensures
            r@ == Seq::<Seq<char>>::empty(),
    {
        let r = ResourceLoc { loc: Vec::new() };
        assert(r@ =~= Seq::<Seq<char>>::empty());
        r
    }

    /// The location one level below `self`, named `other`.
    pub fn with(&self, other: String) -> (r: ResourceLoc)
        ensures
            r@ == self@.push(other@),
    {
        let mut segments: Vec<String> = Vec::new();
        let mut i: usize = 0;
        while i < self.loc.len()
            invariant
                i <= self.loc.len(),
                segments.len() == i,
                forall|k: int| 0 <= k < i ==> segments@[k]@ == self.loc@[k]@,
            decreases self.loc.len() - i,
        {
            segments.push(self.loc[i].clone());
            i += 1;
        }
        segments.push(other);
        let r = ResourceLoc { loc: segments };
        assert(r@ =~= self@.push(other@));
        r
    }

    /// The number of segments.
    pub fn len(&self) -> (n: usize)
        ensures
            n == self@.len(),
    {
        self.loc.len()
    }

    /// The segments joined by `::`, the way a location is written in source
    /// text and in diagnostics.
    pub fn to_string(&self) -> (s: String)
        ensures
            s@ == joined(self@, "::"@),
    {
        let mut s = String::new();
        let mut i: usize = 0;
        while i < self.loc.len()
            invariant
                i <= self.loc.len(),
                s@ == joined(self@.take(i as int), "::"@),
            decreases self.loc.len() - i,
        {
            proof {
                lemma_joined_step(self@, "::"@, i as int);
            }
            if i > 0 {
                s.append("::");
            } else {
                assert(s@ + self.loc@[0]@ =~= self.loc@[0]@);
            }
            s.append(self.loc[i].as_str());
            i += 1;
        }
        assert(self@.take(self.loc.len() as int) =~= self@);
        s
    }
}

impl PartialEq for ResourceLoc {
    /// Two locations are equal when they hold the same segments in the same
    /// order.
    fn eq(&self, other: &Self) -> (r: bool) {
        if self.loc.len() != other.loc.len() {
            assert(self@.len() != other@.len());
            return false;
        }
        let mut i: usize = 0;
        while i < self.loc.len()
            invariant
                i <= self.loc.len(),
                self.loc.len() == other.loc.len(),
                forall|k: int| 0 <= k < i ==> self.loc@[k]@ == other.loc@[k]@,
            decreases self.loc.len() - i,
        {
            if self.loc[i] != other.loc[i] {
                assert(self@[i as int] != other@[i as int]);
                return false;
            }
            i += 1;
        }
        assert(self@ =~= other@);
        true
    }
}

impl PartialEqSpecImpl for ResourceLoc {
    open spec fn obeys_eq_spec() -> bool {
        true
    }

    open spec fn eq_spec(&self, other: &Self) -> bool {
        self@ == other@
    }
}

} // verus!
