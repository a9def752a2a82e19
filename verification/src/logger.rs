//! The verified face of the logger interface.
//!
//! A logger is anything that can print, ask and crash; those actions touch
//! the console and the process and live with the unverified shell around
//! this crate. What is verified here is the one piece of pure text the
//! interface owes every implementation: the exact prompt shown when a
//! logger asks the user a question.

use vstd::prelude::*;

use crate::colour::Colours;
use crate::colour::colour_tag;
use crate::colour::tag_text;

verus! {

/// The prompt a logger shows when asking the user a question: the
/// cyan-tagged origin, the question in cyan, and a blue `: ` before the
/// colour reset under which the user types the answer.
pub open spec fn ask_text(origin: Seq<char>, prompt: Seq<char>) -> Seq<char> {
    tag_text(Colours::CYAN@, origin) + Colours::CYAN@ + prompt + Colours::BLUE@ + ": "@
        + Colours::NORMAL@
}

/// Builds the prompt a logger shows when asking the user a question.
pub fn ask_prompt(origin: &str, prompt: &str) -> (r: String)
    ensures
        r@ == ask_text(origin@, prompt@),
{
    let mut r = colour_tag(Colours::CYAN, origin);
    r.append(Colours::CYAN);
    r.append(prompt);
    r.append(Colours::BLUE);
    r.append(": ");
    r.append(Colours::NORMAL);
    proof {
        assert(r@ =~= ask_text(origin@, prompt@));
    }
    r
}

} // verus!
