//! Sentence records driven through the recording pipeline.

use vstd::prelude::*;

verus! {

/// One sentence of the corpus. Created by sentence-list import; the recorder
/// marks it recorded and fills in the audio file path when its utterance has
/// been written successfully.
#[derive(Clone, PartialEq, Eq, Debug)]
pub struct Sentence {
    pub id: usize,
    pub text: String,
    pub recorded: bool,
    pub audio_file_path: Option<String>,
}

} // verus!
