//! Configured fold of the standard heights into the bed. `G` is the type of a
//! gain.

use crate::text::{same_ignoring_case, same_text_ignoring_case};
use vstd::prelude::*;

verus! {

/// A bed channel that a height is folded into, and its gain.
#[derive(Debug)]
pub struct FoldRoute<G> {
    pub target: String,
    pub gain_db: G,
}

/// A height, and where it is folded.
#[derive(Debug)]
pub struct FoldSource<G> {
    pub source: String,
    pub routes: Vec<FoldRoute<G>>,
}

/// Fallback fold for a frame whose own fold could not be read.
#[derive(Debug)]
pub struct DtsFoldConfig<G> {
    pub sources: Vec<FoldSource<G>>,
    /// Estimate the fold of a waveform that the stream states none for. Off,
    /// such a waveform stays in the bed and is muted.
    pub estimate_unknown: bool,
}

/// The setting that a configuration without a word on estimation has.
pub fn default_true() -> (setting: bool)
    ensures
        setting,
{
    true
}

/// The first source from `index` on with this name, in letters of any case.
pub open spec fn source_place<G>(
    sources: Seq<FoldSource<G>>,
    name: Seq<char>,
    index: int,
) -> Option<int>
    decreases sources.len() - index,
{
    if index >= sources.len() {
        None
    } else if same_ignoring_case(sources[index].source@, name) {
        Some(index)
    } else {
        source_place(sources, name, index + 1)
    }
}

/// The first route from `index` on with this target, in letters of any case.
pub open spec fn route_place<G>(routes: Seq<FoldRoute<G>>, name: Seq<char>, index: int) -> Option<
    int,
>
    decreases routes.len() - index,
{
    if index >= routes.len() {
        None
    } else if same_ignoring_case(routes[index].target@, name) {
        Some(index)
    } else {
        route_place(routes, name, index + 1)
    }
}

/// The gain that `source` is folded into `target` with.
pub open spec fn configured_gain<G>(
    config: DtsFoldConfig<G>,
    target: Seq<char>,
    source: Seq<char>,
) -> Option<G> {
    match source_place(config.sources@, source, 0) {
        None => None,
        Some(place) => {
            let routes = config.sources@[place].routes@;
            match route_place(routes, target, 0) {
                None => None,
                Some(route) => Some(routes[route].gain_db),
            }
        },
    }
}

impl<G> DtsFoldConfig<G> {
    /// The gain, in decibels, that `source` is folded into `target` with;
    /// `None` where it is not folded there.
    pub fn gain_db(&self, target: &str, source: &str) -> (gain: Option<&G>)
        ensures
            match gain {
                Some(found) => configured_gain(*self, target@, source@) == Some(*found),
                None => configured_gain(*self, target@, source@) is None,
            },
    {
        let mut place: usize = 0;
        while place < self.sources.len()
            invariant
                place <= self.sources@.len(),
                source_place(self.sources@, source@, 0) == source_place(
                    self.sources@,
                    source@,
                    place as int,
                ),
            decreases self.sources.len() - place,
        {
            if same_text_ignoring_case(self.sources[place].source.as_str(), source) {
                let routes: &Vec<FoldRoute<G>> = &self.sources[place].routes;
                let mut route: usize = 0;
                while route < routes.len()
                    invariant
                        route <= routes@.len(),
                        place < self.sources@.len(),
                        *routes == self.sources@[place as int].routes,
                        source_place(self.sources@, source@, 0) == Some(place as int),
                        route_place(routes@, target@, 0) == route_place(
                            routes@,
                            target@,
                            route as int,
                        ),
                    decreases routes.len() - route,
                {
                    if same_text_ignoring_case(routes[route].target.as_str(), target) {
                        return Some(&routes[route].gain_db);
                    }
                    route = route + 1;
                }
                return None;
            }
            place = place + 1;
        }
        None
    }
}

} // verus!
