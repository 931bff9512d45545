//! Running a list of rules, one after another, over a state.
use vstd::prelude::*;

verus! {

/// Applies `step` for each rule in order; the flag says whether any step
/// reported a change.
pub open spec fn run_steps<S, R>(s: S, rules: Seq<R>, step: spec_fn(S, R) -> (S, bool)) -> (S, bool)
    decreases rules.len(),
{
    if rules.len() == 0 {
        (s, false)
    } else {
        let (g, c) = run_steps(s, rules.drop_last(), step);
        let (h, d) = step(g, rules.last());
        (h, c || d)
    }
}

} // verus!
