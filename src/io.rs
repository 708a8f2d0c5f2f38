use vstd::prelude::*;

use crate::gremlin::AnimationProperties;

verus! {

/// A command for the background decoder: decode an animation, or stop.
pub enum LoaderTask {
    Load(AnimationProperties),
    Die,
}

} // verus!
