//! YouTube / YouTube Music source backed by yt-dlp: its settings and the commands it runs.

use vstd::prelude::*;
use vstd::string::StringExecFns;

verus! {

/// Searches YouTube / YouTube Music and resolves streams through yt-dlp.
#[derive(Debug, Clone)]
pub struct YoutubeSource {
    /// Preferred quality (`best`, `320k`, `256k`, `128k`).
    quality: String,
    /// Directory where resolved streams are cached.
    cache_dir: String,
}

impl YoutubeSource {
    /// The configured quality.
    pub closed spec fn quality_of(&self) -> Seq<char> {
        self.quality@
    }

    /// The configured cache directory.
    pub closed spec fn cache_dir_of(&self) -> Seq<char> {
        self.cache_dir@
    }

    /// Creates a source with the given quality and cache directory.
    pub fn new(quality: &str, cache_dir: String) -> (s: Self)
        ensures
            s.quality_of() == quality@,
            s.cache_dir_of() == cache_dir@,
    {
        YoutubeSource { quality: quality.to_string(), cache_dir }
    }

    /// The configured quality.
    pub fn quality(&self) -> (r: &str)
        ensures
            r@ == self.quality_of(),
    {
        self.quality.as_str()
    }

    /// The yt-dlp arguments of a search: a flat listing of the first 25 YouTube
    /// results for `query`, printed as JSON.
    pub fn search_args(&self, query: &str) -> (r: Vec<String>)
        ensures
            r@.map_values(|a: String| a@) == seq!["--flat-playlist"@, "-J"@, "ytsearch25:"@ + query@],
    {
        let mut q = String::from_str("ytsearch25:");
        q.append(query);
        let r = vec![String::from_str("--flat-playlist"), String::from_str("-J"), q];
        assert(r@.map_values(|a: String| a@) =~= seq!["--flat-playlist"@, "-J"@, "ytsearch25:"@ + query@]);
        r
    }

    /// The directory where resolved streams are cached.
    pub fn cache_dir(&self) -> (r: &str)
        ensures
            r@ == self.cache_dir_of(),
    {
        self.cache_dir.as_str()
    }
}

} // verus!
