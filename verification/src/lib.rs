//! A hue cycler for a terminal color theme: parse a named palette from flat
//! text, advance every color's hue by a fixed step, write the palette back
//! out, and pace the loop to a constant period.  The subprocess that carries
//! the palette to the terminal lives outside this library.

pub mod color;
pub mod decode;
pub mod laws;
pub mod pacing;
pub mod rotate;
pub mod scan;
pub mod theme;

use vstd::prelude::*;

verus! {

} // verus!
