//! Local filesystem source: the folders scanned for audio files.

use vstd::prelude::*;

verus! {

/// Scans one or more local folders for playable audio tracks.
#[derive(Debug, Clone)]
pub struct LocalSource {
    paths: Vec<String>,
}

impl LocalSource {
    /// The folders this source scans, as configured (`~` not yet expanded).
    pub closed spec fn folders(&self) -> Seq<Seq<char>> {
        self.paths@.map_values(|p: String| p@)
    }

    /// Creates a source that scans the given paths.
    pub fn new(paths: Vec<String>) -> (s: Self)
        ensures
            s.folders() == paths@.map_values(|p: String| p@),
    {
        LocalSource { paths }
    }

    /// The folders this source scans.
    pub fn paths(&self) -> (r: &Vec<String>)
        ensures
            r@.map_values(|p: String| p@) == self.folders(),
    {
        &self.paths
    }
}

} // verus!
