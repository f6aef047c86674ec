//! Generic runtime state of composed enemies: dying and broken parts.

use super::model::strings_view;
use crate::keyed::contains_string;
use vstd::prelude::*;

verus! {

/// A composed enemy in its death animation, since `started_ns` on the stage clock.
#[derive(Clone, Copy, Debug)]
pub struct Dying {
    pub started_ns: u64,
}

/// The semantic part ids of a composed enemy that have been broken.
#[derive(Debug)]
pub struct BrokenParts {
    parts: Vec<String>,
}

impl View for BrokenParts {
    type V = Set<Seq<char>>;

    closed spec fn view(&self) -> Set<Seq<char>> {
        strings_view(self.parts@).to_set()
    }
}

impl BrokenParts {
    #[verifier::type_invariant]
    spec fn no_repeats(&self) -> bool {
        strings_view(self.parts@).no_duplicates()
    }

    /// An empty tracker.
    pub fn new() -> (r: BrokenParts)
        ensures
            r@ == Set::<Seq<char>>::empty(),
    {
        let r = BrokenParts { parts: Vec::new() };
        proof {
            assert(strings_view(r.parts@) =~= Seq::<Seq<char>>::empty());
            assert(strings_view(r.parts@).to_set() =~= Set::<Seq<char>>::empty());
        }
        r
    }

    /// Whether `part_id` has been broken.
    pub fn is_broken(&self, part_id: &str) -> (r: bool)
        ensures
            r == self@.contains(part_id@),
    {
        let key = part_id.to_owned();
        let r = contains_string(&self.parts, &key);
        proof {
            if r {
                let i = choose|i: int| 0 <= i < self.parts@.len() && (#[trigger] self.parts@[i])@ == key@;
                assert(strings_view(self.parts@)[i] == key@);
            } else {
                assert forall|i: int| 0 <= i < strings_view(self.parts@).len() implies strings_view(
                    self.parts@,
                )[i] != part_id@ by {
                    assert(strings_view(self.parts@)[i] == self.parts@[i]@);
                }
            }
        }
        r
    }

    /// Marks `part_id` as broken.
    pub fn mark_broken(&mut self, part_id: String)
        ensures
            final(self)@ == old(self)@.insert(part_id@),
    {
        proof {
            use_type_invariant(&*self);
        }
        let present = contains_string(&self.parts, &part_id);
        proof {
            if present {
                let i = choose|i: int| 0 <= i < self.parts@.len() && (#[trigger] self.parts@[i])@ == part_id@;
                assert(strings_view(self.parts@)[i] == part_id@);
                assert(self@.insert(part_id@) =~= self@);
            }
        }
        if !present {
            let ghost before = strings_view(self.parts@);
            let mut parts: Vec<String> = Vec::new();
            std::mem::swap(&mut parts, &mut self.parts);
            parts.push(part_id);
            proof {
                assert(strings_view(parts@) =~= before.push(parts@[parts@.len() - 1]@));
                assert forall|i: int| 0 <= i < before.len() implies before[i] != parts@[parts@.len() - 1]@ by {
                    assert(before[i] == old(self).parts@[i]@);
                }
                before.lemma_push_to_set_commute(parts@[parts@.len() - 1]@);
                assert(strings_view(parts@).to_set() =~= before.to_set().insert(parts@[parts@.len() - 1]@));
            }
            self.parts = parts;
        }
    }

    /// All broken part ids.
    pub fn broken_parts(&self) -> (r: &Vec<String>)
        ensures
            strings_view(r@).to_set() == self@,
            strings_view(r@).no_duplicates(),
    {
        proof {
            use_type_invariant(self);
        }
        &self.parts
    }

    /// Number of broken parts.
    pub fn count(&self) -> (r: usize)
        ensures
            r == self@.len(),
    {
        proof {
            use_type_invariant(self);
            strings_view(self.parts@).unique_seq_to_set();
        }
        self.parts.len()
    }
}

} // verus!
