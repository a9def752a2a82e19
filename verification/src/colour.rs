//! Colouring of terminal text through escape sequences.

pub mod colours;

use vstd::prelude::*;

pub use colours::Colours;

verus! {

/// The coloured `[origin] ` tag that every formatted log line starts
/// with: a blue opening bracket, the origin in the given colour, and a
/// blue closing bracket followed by a space.
pub open spec fn tag_text(colour: Seq<char>, origin: Seq<char>) -> Seq<char> {
    Colours::BLUE@ + "["@ + colour + origin + Colours::BLUE@ + "] "@
}

/// Builds the coloured `[origin] ` tag for a log line.
pub fn colour_tag(colour: &str, origin: &str) -> (r: String)
    ensures
        r@ == tag_text(colour@, origin@),
{
    let mut r = String::new();
    r.append(Colours::BLUE);
    r.append("[");
    r.append(colour);
    r.append(origin);
    r.append(Colours::BLUE);
    r.append("] ");
    proof {
        assert(r@ =~= tag_text(colour@, origin@));
    }
    r
}

} // verus!
