//! The program's arguments: the path of the MIDI file to play. Parsing the
//! command line happens outside the library; this is the value it hands in.

use vstd::prelude::*;

verus! {

/// The arguments playback needs.
pub struct Args {
    pub path_to_midi: String,
}

} // verus!
