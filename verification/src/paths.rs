//! The path index: an ordered, append-only mapping from placement index to
//! an optional source identifier.

use vstd::prelude::*;

verus! {

/// The spec-level value of an optional source identifier.
pub open spec fn opt_path_view(p: Option<String>) -> Option<Seq<char>> {
    match p {
        Some(s) => Some(s@),
        None => None,
    }
}

/// The spec-level value of a sequence of optional source identifiers.
pub open spec fn paths_view(s: Seq<Option<String>>) -> Seq<Option<Seq<char>>> {
    s.map_values(|p: Option<String>| opt_path_view(p))
}

/// Maps each placement index of an atlas to the identifier of the source the
/// sub-image came from, or `None` for a sub-image with no durable source.
///
/// Its length always equals the number of layout entries it accompanies.
pub struct TextureAtlasPaths {
    pub path_indices: Vec<Option<String>>,
}

impl View for TextureAtlasPaths {
    type V = Seq<Option<Seq<char>>>;

    /// The ordered sequence of optional source identifiers.
    open spec fn view(&self) -> Seq<Option<Seq<char>>> {
        paths_view(self.path_indices@)
    }
}

impl TextureAtlasPaths {
    pub fn new() -> (r: TextureAtlasPaths)
        ensures
            r@ == Seq::<Option<Seq<char>>>::empty(),
    {
        let r = TextureAtlasPaths { path_indices: Vec::new() };
        proof {
            assert(r@ =~= Seq::<Option<Seq<char>>>::empty());
        }
        r
    }

    /// Appends the identifier for the next placement index.
    pub fn add(&mut self, path: Option<String>)
        ensures
            final (self)@ == old(self)@.push(opt_path_view(path)),
            final (self).path_indices@ == old(self).path_indices@.push(path),
    {
        self.path_indices.push(path);
        proof {
            assert(self@ =~= old(self)@.push(opt_path_view(path)));
        }
    }
}

impl Default for TextureAtlasPaths {
    fn default() -> (r: TextureAtlasPaths)
        ensures
            r@ == Seq::<Option<Seq<char>>>::empty(),
    {
        TextureAtlasPaths::new()
    }
}

} // verus!
