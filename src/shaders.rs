use vstd::prelude::*;

use crate::keyed::{lemma_pairs_map_dom, lemma_pairs_map_last, pairs_map};

verus! {

/// Uniform names as text, with their locations.
pub open spec fn uniform_views(s: Seq<(String, i32)>) -> Seq<(Seq<char>, i32)> {
    s.map_values(|p: (String, i32)| (p.0@, p.1))
}

/// A location that designates a uniform of the program; the program does
/// not use a uniform whose lookup gave a negative location, and writes to
/// it are skipped.
pub open spec fn is_resolved(location: i32) -> bool {
    location >= 0
}

/// A linked shader program and the locations of the uniforms it was asked
/// to resolve.
pub struct Program {
    /// Handle of the linked program.
    pub id: u32,
    /// Each requested uniform name with the location found for it.
    pub fragment_uniforms: Vec<(String, i32)>,
}

impl View for Program {
    type V = Map<Seq<char>, i32>;

    open spec fn view(&self) -> Map<Seq<char>, i32> {
        pairs_map(uniform_views(self.fragment_uniforms@))
    }
}

impl Program {
    /// Records, for the linked program `id`, the location found for each
    /// requested uniform name (`locations` in the same order).
    pub fn new(id: u32, fragment_uniforms: &Vec<String>, locations: &Vec<i32>) -> (r: Program)
        requires
            fragment_uniforms@.len() == locations@.len(),
        ensures
            r.id == id,
            r.fragment_uniforms@.len() == fragment_uniforms@.len(),
            forall|j: int|
                0 <= j < fragment_uniforms@.len() ==> #[trigger] r.fragment_uniforms@[j] == (
                    fragment_uniforms@[j],
                    locations@[j],
                ),
    {
        let mut table: Vec<(String, i32)> = Vec::new();
        let mut i: usize = 0;
        while i < fragment_uniforms.len()
            invariant
                i <= fragment_uniforms@.len(),
                fragment_uniforms@.len() == locations@.len(),
                table@.len() == i,
                forall|j: int|
                    0 <= j < i ==> #[trigger] table@[j] == (fragment_uniforms@[j], locations@[j]),
            decreases fragment_uniforms@.len() - i,
        {
            table.push((fragment_uniforms[i].clone(), locations[i]));
            i = i + 1;
        }
        Program { id, fragment_uniforms: table }
    }

    /// The location recorded for `name`, if it was requested.
    pub fn get_fragment_uniform(&self, name: &str) -> (r: Option<i32>)
        ensures
            match r {
                Some(l) => self@.contains_key(name@) && self@[name@] == l,
                None => !self@.contains_key(name@),
            },
    {
        let wanted = name.to_owned();
        let ghost views = uniform_views(self.fragment_uniforms@);
        let mut i: usize = self.fragment_uniforms.len();
        while i > 0
            invariant
                i <= self.fragment_uniforms@.len(),
                views == uniform_views(self.fragment_uniforms@),
                wanted@ == name@,
                forall|j: int|
                    i <= j < self.fragment_uniforms@.len() ==> self.fragment_uniforms@[j].0@ != name@,
            decreases i,
        {
            i = i - 1;
            if self.fragment_uniforms[i].0 == wanted {
                proof {
                    lemma_pairs_map_last(views, i as int);
                }
                return Some(self.fragment_uniforms[i].1);
            }
        }
        proof {
            lemma_pairs_map_dom(views, name@);
        }
        None
    }
}

} // verus!
