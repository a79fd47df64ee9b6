//! The decision core of the upward Dockerfile search. The filesystem walk
//! itself happens outside the library; each step hands in what it observed
//! and receives the one move to make next.
use vstd::prelude::*;

verus! {

/// The next move of the upward search.
#[derive(Debug, Clone, Copy, PartialEq, Eq, Structural)]
pub enum LocateStep {
    /// A Dockerfile sits in the current directory: the search ends here.
    Found,
    /// The search has reached the home directory or the filesystem root
    /// without finding one: stop, then check the home directory fallback.
    Stop,
    /// Move to the parent directory and look again.
    Ascend,
}

/// The search policy: take a Dockerfile where it is found, never climb past
/// the home directory or the root.
pub open spec fn spec_locate_step(dockerfile_here: bool, at_home: bool, at_root: bool)
    -> LocateStep {
    if dockerfile_here {
        LocateStep::Found
    } else if at_home || at_root {
        LocateStep::Stop
    } else {
        LocateStep::Ascend
    }
}

/// Locates a Dockerfile by searching upward from the working directory.
pub struct DockerfileLocator;

impl DockerfileLocator {
    /// One step of the search, from what the caller observed about the
    /// current directory.
    pub fn next_step(dockerfile_here: bool, at_home: bool, at_root: bool) -> (r: LocateStep)
        ensures
            r == spec_locate_step(dockerfile_here, at_home, at_root),
    {
        if dockerfile_here {
            LocateStep::Found
        } else if at_home || at_root {
            LocateStep::Stop
        } else {
            LocateStep::Ascend
        }
    }
}

} // verus!
