//! The gene filter: an immutable set of gene identifiers, one per line of a
//! newline-delimited list. Supplying a list always activates filtering, even
//! when the list is empty.

use vstd::prelude::*;

use crate::bytes::{bytes_eq, lines_of, split_lines};

verus! {

/// An immutable allow-list of gene identifiers.
pub struct GeneSet {
    genes: Vec<Vec<u8>>,
}

impl View for GeneSet {
    type V = Set<Seq<u8>>;

    closed spec fn view(&self) -> Set<Seq<u8>> {
        self.genes.deep_view().to_set()
    }
}

impl GeneSet {
    /// Builds the set from the bytes of a newline-delimited list: every line
    /// becomes one member verbatim. An empty file yields an empty set.
    pub fn from_bytes(content: &Vec<u8>) -> (s: GeneSet)
        ensures
            s@ == lines_of(content@).to_set(),
    {
        let genes = split_lines(content);
        GeneSet { genes }
    }

    /// Whether `g` is a member.
    pub fn contains(&self, g: &Vec<u8>) -> (r: bool)
        ensures
            r == self@.contains(g@),
    {
        let ghost dv = self.genes.deep_view();
        let mut i: usize = 0;
        while i < self.genes.len()
            invariant
                i <= self.genes.len(),
                self.genes.deep_view() == dv,
                forall|j: int| 0 <= j < i ==> dv[j] != g@,
            decreases self.genes.len() - i,
        {
            proof {
                assert(dv[i as int] =~= self.genes@[i as int]@);
            }
            if bytes_eq(&self.genes[i], g) {
                proof {
                    assert(dv.contains(g@));
                }
                return true;
            }
            i = i + 1;
        }
        proof {
            assert(!dv.contains(g@));
        }
        false
    }
}

} // verus!
