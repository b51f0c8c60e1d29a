use std::rc::Rc;
use vstd::prelude::*;

use super::GenLayer;

verus! {

/// A layer meant to turn a map of biome ids into heights; it holds its
/// parent and produces no window yet.
#[derive(Clone)]
pub struct GenBiomesHeightmap<S> {
    parent: Rc<S>,
}

impl<S: GenLayer<u32>> GenBiomesHeightmap<S> {
    pub closed spec fn spec_parent(&self) -> S {
        *self.parent
    }

    pub fn new(parent: Rc<S>) -> (r: Rc<GenBiomesHeightmap<S>>)
        ensures
            r.spec_parent() == *parent,
    {
        Rc::new(GenBiomesHeightmap { parent: parent })
    }
}

} // verus!
