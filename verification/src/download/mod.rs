//! Stream downloads for remote sources (YouTube, SoundCloud).
//!
//! A worker accepts [`DownloadRequest`]s and runs `yt-dlp` for each, at most
//! [`MAX_CONCURRENT_DOWNLOADS`] at a time; this module holds its scheduling
//! decisions, the command line it runs, and the reading of `yt-dlp` output.

use vstd::prelude::*;
use vstd::string::StringExecFns;

use crate::library::Track;
use crate::sources::{format_selector, format_selector_of};
use crate::text::{chars_of, float_text, is_float_text, string_of, sub_chars, trim, trim_chars};

verus! {

/// Maximum number of simultaneous yt-dlp processes.
pub const MAX_CONCURRENT_DOWNLOADS: usize = 3;

/// A request to download a remote track into a directory.
#[derive(Debug, Clone, PartialEq, Eq)]
pub struct DownloadRequest {
    /// The remote track (must carry a `url`).
    pub track: Track,
    /// Directory the audio file is saved into.
    pub destination_dir: String,
    /// Preferred quality (`best`, `320k`, `256k`, `128k`).
    pub quality: String,
}

/// A line of yt-dlp output that matters to the downloader.
#[derive(Debug, PartialEq)]
pub enum DownloadLine {
    /// A progress report: the percentage as yt-dlp printed it, text that
    /// reads as an `f32`; the caller reads it and clamps it to 0-100.
    Progress(String),
    /// The path of the downloaded file.
    FilePath(String),
}

/// `s` without every trailing `c`.
pub open spec fn trim_end_char(s: Seq<char>, c: char) -> Seq<char>
    decreases s.len(),
{
    if s.len() > 0 && s.last() == c {
        trim_end_char(s.drop_last(), c)
    } else {
        s
    }
}

/// What a line of yt-dlp output says: after trimming, a `download:` line
/// carries a progress figure (trailing `%` and white space removed) when that
/// figure reads as a number, and says nothing otherwise; a `filepath:` line
/// carries a non-empty path; anything else is noise.
pub open spec fn download_line_of(line: Seq<char>) -> Option<(bool, Seq<char>)> {
    let t = trim(line);
    let d = "download:"@;
    let f = "filepath:"@;
    if t.len() >= d.len() && t.take(d.len() as int) == d {
        let figure = trim(trim_end_char(t.skip(d.len() as int), '%'));
        if float_text(figure) {
            Some((true, figure))
        } else {
            None
        }
    } else if t.len() >= f.len() && t.take(f.len() as int) == f && trim(t.skip(f.len() as int)).len()
        > 0 {
        Some((false, trim(t.skip(f.len() as int))))
    } else {
        None
    }
}

/// Whether `t` starts with the characters of `prefix`.
fn starts_with(t: &[char], prefix: &str) -> (r: bool)
    ensures
        r == (t@.len() >= prefix@.len() && t@.take(prefix@.len() as int) == prefix@),
{
    let p = chars_of(prefix);
    if t.len() < p.len() {
        return false;
    }
    let mut i: usize = 0;
    while i < p.len()
        invariant
            i <= p@.len(),
            p@ == prefix@,
            p@.len() <= t@.len(),
            forall|k: int| 0 <= k < i ==> t@[k] == p@[k],
        decreases p@.len() - i,
    {
        if t[i] != p[i] {
            assert(t@.take(p@.len() as int)[i as int] != p@[i as int]);
            return false;
        }
        i = i + 1;
    }
    assert(t@.take(p@.len() as int) =~= p@);
    true
}

/// `s` without its trailing `c` characters.
fn trim_end_chars(s: &[char], c: char) -> (r: Vec<char>)
    ensures
        r@ == trim_end_char(s@, c),
{
    let mut j: usize = s.len();
    assert(s@.take(j as int) =~= s@);
    while j > 0 && s[j - 1] == c
        invariant
            j <= s@.len(),
            trim_end_char(s@, c) == trim_end_char(s@.take(j as int), c),
        decreases j,
    {
        assert(s@.take(j as int).drop_last() =~= s@.take(j - 1));
        j = j - 1;
    }
    let r = sub_chars(s, 0, j);
    assert(r@ =~= s@.take(j as int));
    r
}

/// Parses a single line of yt-dlp output into a typed download line.
pub fn parse_download_line(line: &str) -> (r: Option<DownloadLine>)
    ensures
        match download_line_of(line@) {
            Some((true, text)) => r matches Some(DownloadLine::Progress(p)) && p@ == text,
            Some((false, path)) => r matches Some(DownloadLine::FilePath(p)) && p@ == path,
            None => r is None,
        },
{
    let cs = chars_of(line);
    let t = trim_chars(&cs);
    let n = t.len();
    proof {
        reveal_strlit("download:");
        reveal_strlit("filepath:");
    }
    if starts_with(&t, "download:") {
        let rest = sub_chars(&t, 9, n);
        assert(rest@ =~= t@.skip(9));
        let figure = trim_chars(&trim_end_chars(&rest, '%'));
        if is_float_text(&figure) {
            return Some(DownloadLine::Progress(string_of(&figure)));
        }
        return None;
    }
    if starts_with(&t, "filepath:") {
        let rest = sub_chars(&t, 9, n);
        assert(rest@ =~= t@.skip(9));
        let path = trim_chars(&rest);
        if path.len() > 0 {
            return Some(DownloadLine::FilePath(string_of(&path)));
        }
    }
    None
}

/// The arguments yt-dlp runs with to download `url` in `format` into
/// `output_template`, reporting progress and the final path line by line.
pub open spec fn download_args_of(format: Seq<char>, output_template: Seq<char>, url: Seq<char>) -> Seq<Seq<char>> {
    seq![
        "--no-playlist"@,
        "-f"@,
        format,
        "-o"@,
        output_template,
        "--progress"@,
        "--newline"@,
        "--progress-template"@,
        "download:%(progress._percent_str)s"@,
        "--print"@,
        "after_download:filepath:%(filepath)s"@,
        url,
    ]
}

/// The yt-dlp arguments for a download into `output_template`; `None` when
/// the track has no remote URL.
pub fn download_args(request: &DownloadRequest, output_template: &str) -> (r: Option<Vec<String>>)
    ensures
        match request.track.url {
            Some(url) => r matches Some(v) && v@.map_values(|s: String| s@) == download_args_of(
                format_selector_of(request.quality@),
                output_template@,
                url@,
            ),
            None => r is None,
        },
{
    let url = match &request.track.url {
        Some(u) => u,
        None => return None,
    };
    let format = format_selector(request.quality.as_str());
    let v = vec![
        String::from_str("--no-playlist"),
        String::from_str("-f"),
        format,
        String::from_str("-o"),
        output_template.to_string(),
        String::from_str("--progress"),
        String::from_str("--newline"),
        String::from_str("--progress-template"),
        String::from_str("download:%(progress._percent_str)s"),
        String::from_str("--print"),
        String::from_str("after_download:filepath:%(filepath)s"),
        url.clone(),
    ];
    assert(v@.map_values(|s: String| s@) =~= download_args_of(
        format_selector_of(request.quality@),
        output_template@,
        url@,
    ));
    Some(v)
}

/// The download worker's scheduling state: how many downloads run, the
/// requests waiting in arrival order, and the running ids that can still be
/// cancelled.
pub struct DownloadScheduler {
    active: usize,
    waiting: std::collections::VecDeque<(u64, DownloadRequest)>,
    cancellable: Vec<u64>,
}

/// The scheduler's state: the number of running downloads, the requests
/// waiting in arrival order with their ids, and the ids that a cancel
/// reaches.
pub ghost struct SchedulerState {
    pub active: nat,
    pub waiting: Seq<(u64, DownloadRequest)>,
    pub cancellable: Seq<u64>,
}

impl View for DownloadScheduler {
    type V = SchedulerState;

    closed spec fn view(&self) -> SchedulerState {
        SchedulerState {
            active: self.active as nat,
            waiting: self.waiting@,
            cancellable: self.cancellable@,
        }
    }
}

/// The scheduler's invariant: never more than the allowed number of
/// downloads at once, nothing waits while a slot is free, and each id a
/// cancel reaches is held once (as the keys of a map).
pub open spec fn scheduler_wf(s: SchedulerState) -> bool {
    &&& s.active <= MAX_CONCURRENT_DOWNLOADS
    &&& (s.waiting.len() > 0 ==> s.active == MAX_CONCURRENT_DOWNLOADS)
    &&& s.cancellable.no_duplicates()
}

/// The cancellable ids after `id` starts: it is added unless already there.
pub open spec fn with_id(ids: Seq<u64>, id: u64) -> Seq<u64> {
    if ids.contains(id) {
        ids
    } else {
        ids.push(id)
    }
}

/// Whether `ids` holds `id`.
fn holds(ids: &Vec<u64>, id: u64) -> (r: bool)
    ensures
        r == ids@.contains(id),
{
    let mut k: usize = 0;
    while k < ids.len()
        invariant
            k <= ids@.len(),
            forall|j: int| 0 <= j < k ==> ids@[j] != id,
        decreases ids@.len() - k,
    {
        if ids[k] == id {
            assert(ids@[k as int] == id);
            return true;
        }
        k = k + 1;
    }
    false
}

impl DownloadScheduler {
    /// Nothing running, nothing waiting.
    pub fn new() -> (s: Self)
        ensures
            s@ == (SchedulerState {
                active: 0,
                waiting: Seq::empty(),
                cancellable: Seq::empty(),
            }),
            scheduler_wf(s@),
    {
        DownloadScheduler {
            active: 0,
            waiting: std::collections::VecDeque::new(),
            cancellable: Vec::new(),
        }
    }

    /// Makes `id` cancellable, once.
    fn add_cancellable(&mut self, id: u64)
        requires
            old(self)@.cancellable.no_duplicates(),
        ensures
            final(self)@ == (SchedulerState {
                cancellable: with_id(old(self)@.cancellable, id),
                ..old(self)@
            }),
            final(self)@.cancellable.no_duplicates(),
    {
        if !holds(&self.cancellable, id) {
            self.cancellable.push(id);
        }
    }

    /// A request arrives: it starts at once (returned, and cancellable from
    /// then on) when a slot is free, and waits at the back otherwise.
    pub fn enqueue(&mut self, id: u64, request: DownloadRequest) -> (r: Option<(u64, DownloadRequest)>)
        requires
            scheduler_wf(old(self)@),
        ensures
            scheduler_wf(final(self)@),
            old(self)@.active < MAX_CONCURRENT_DOWNLOADS ==> {
                &&& r == Some((id, request))
                &&& final(self)@ == (SchedulerState {
                    active: old(self)@.active + 1,
                    cancellable: with_id(old(self)@.cancellable, id),
                    ..old(self)@
                })
            },
            old(self)@.active >= MAX_CONCURRENT_DOWNLOADS ==> {
                &&& r is None
                &&& final(self)@ == (SchedulerState {
                    waiting: old(self)@.waiting.push((id, request)),
                    ..old(self)@
                })
            },
    {
        if self.active < MAX_CONCURRENT_DOWNLOADS {
            self.active = self.active + 1;
            self.add_cancellable(id);
            Some((id, request))
        } else {
            self.waiting.push_back((id, request));
            None
        }
    }

    /// A running download ended: its slot goes to the request that waited
    /// longest, which is returned (and cancellable from then on).
    pub fn finished(&mut self) -> (r: Option<(u64, DownloadRequest)>)
        requires
            scheduler_wf(old(self)@),
            old(self)@.active > 0,
        ensures
            scheduler_wf(final(self)@),
            old(self)@.waiting.len() == 0 ==> r is None && final(self)@ == (SchedulerState {
                active: (old(self)@.active - 1) as nat,
                ..old(self)@
            }),
            old(self)@.waiting.len() > 0 ==> {
                &&& r == Some(old(self)@.waiting[0])
                &&& final(self)@ == (SchedulerState {
                    waiting: old(self)@.waiting.drop_first(),
                    cancellable: with_id(old(self)@.cancellable, old(self)@.waiting[0].0),
                    ..old(self)@
                })
            },
    {
        self.active = self.active - 1;
        match self.waiting.pop_front() {
            Some((id, request)) => {
                self.active = self.active + 1;
                self.add_cancellable(id);
                Some((id, request))
            },
            None => None,
        }
    }

    /// A cancel request: reaches a started download once (`true`: signal
    /// it); a waiting or unknown id is not affected.
    pub fn cancel(&mut self, id: u64) -> (r: bool)
        requires
            scheduler_wf(old(self)@),
        ensures
            scheduler_wf(final(self)@),
            r == old(self)@.cancellable.contains(id),
            final(self)@.active == old(self)@.active,
            final(self)@.waiting == old(self)@.waiting,
            r ==> exists|k: int| 0 <= k < old(self)@.cancellable.len() && old(self)@.cancellable[k]
                == id && final(self)@.cancellable == old(self)@.cancellable.remove(k),
            !r ==> final(self)@.cancellable == old(self)@.cancellable,
            !final(self)@.cancellable.contains(id),
    {
        let mut k: usize = 0;
        while k < self.cancellable.len()
            invariant
                k <= self.cancellable@.len(),
                scheduler_wf(old(self)@),
                self.active == old(self).active,
                self.waiting@ == old(self).waiting@,
                self.cancellable@ == old(self).cancellable@,
                forall|j: int| 0 <= j < k ==> self.cancellable@[j] != id,
            decreases self.cancellable@.len() - k,
        {
            if self.cancellable[k] == id {
                let ghost before = self.cancellable@;
                self.cancellable.remove(k);
                assert(before[k as int] == id);
                proof {
                    assert forall|a: int, b: int|
                        0 <= a < b < self.cancellable@.len() implies self.cancellable@[a]
                        != self.cancellable@[b] by {
                        let a0 = if a < k { a } else { a + 1 };
                        let b0 = if b < k { b } else { b + 1 };
                        assert(self.cancellable@[a] == before[a0]);
                        assert(self.cancellable@[b] == before[b0]);
                    }
                    assert forall|j: int| 0 <= j < self.cancellable@.len() implies self.cancellable@[j]
                        != id by {
                        let j0 = if j < k { j } else { j + 1 };
                        assert(self.cancellable@[j] == before[j0]);
                        assert(j0 != k);
                    }
                }
                return true;
            }
            k = k + 1;
        }
        assert(!self.cancellable@.contains(id));
        false
    }
}

/// No more downloads run at once than the limit, whatever the scheduler
/// went through.
pub proof fn law_concurrency_limit(s: SchedulerState)
    requires
        scheduler_wf(s),
    ensures
        s.active <= 3,
{
}

} // verus!
