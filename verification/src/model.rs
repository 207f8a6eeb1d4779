use crate::text::string_views;
use std::time::Duration;
use std::time::Instant;
use vstd::prelude::*;

verus! {

/// `std::time::Instant`, carried through as an opaque point in time.
#[verifier::external_type_specification]
#[verifier::external_body]
pub struct ExInstant(Instant);

/// Calls `Instant::now`. What it returns depends on the clock, so nothing is stated.
#[verifier::external_body]
pub(crate) fn instant_now() -> Instant {
    Instant::now()
}

/// The time from `earlier` to `later`, or zero where `later` is not after `earlier`.
pub uninterp spec fn duration_between(later: Instant, earlier: Instant) -> Duration;

/// A duration's whole milliseconds.
pub uninterp spec fn whole_millis(d: Duration) -> u128;

/// Calls `Instant::saturating_duration_since`: the time from `earlier` to `later`, which
/// depends on the two instants alone.
#[verifier::external_body]
pub(crate) fn saturating_duration_since(later: &Instant, earlier: &Instant) -> (res: Duration)
    ensures
        res == duration_between(*later, *earlier),
{
    later.saturating_duration_since(*earlier)
}

/// Calls `Duration::as_millis`: the duration's whole milliseconds.
#[verifier::external_body]
pub(crate) fn duration_as_millis(d: &Duration) -> (res: u128)
    ensures
        res == whole_millis(*d),
{
    d.as_millis()
}

/// Red, green and blue of a theme color.
pub type Rgb = (u8, u8, u8);

/// Spotify's green, the theme when no album art gives one.
pub open spec fn spotify_green() -> Rgb {
    (30u8, 215u8, 96u8)
}

/// Spotify's green, the theme when no album art gives one.
pub fn default_theme() -> (c: Rgb)
    ensures
        c == spotify_green(),
{
    (30, 215, 96)
}

/// One snapshot of what the player reports.
#[derive(Debug)]
pub struct NowPlaying {
    pub title: String,
    pub artists: Vec<String>,
    pub album: String,
    pub progress_ms: u64,
    pub duration_ms: u64,
    pub is_playing: bool,
    pub album_art_url: Option<String>,
    /// When the server returned this snapshot (used to advance the progress locally).
    pub fetched_at: Instant,
    pub theme_color: Rgb,
}

/// The mathematical content of a `NowPlaying`.
pub struct NowPlayingView {
    pub title: Seq<char>,
    pub artists: Seq<Seq<char>>,
    pub album: Seq<char>,
    pub progress_ms: u64,
    pub duration_ms: u64,
    pub is_playing: bool,
    pub album_art_url: Option<Seq<char>>,
    pub fetched_at: Instant,
    pub theme_color: Rgb,
}

/// The view of an optional string.
pub open spec fn opt_view(s: Option<String>) -> Option<Seq<char>> {
    match s {
        Some(t) => Some(t@),
        None => None,
    }
}

impl View for NowPlaying {
    type V = NowPlayingView;

    open spec fn view(&self) -> NowPlayingView {
        NowPlayingView {
            title: self.title@,
            artists: string_views(self.artists@),
            album: self.album@,
            progress_ms: self.progress_ms,
            duration_ms: self.duration_ms,
            is_playing: self.is_playing,
            album_art_url: opt_view(self.album_art_url),
            fetched_at: self.fetched_at,
            theme_color: self.theme_color,
        }
    }
}

/// The snapshot that stands in for a track when there is none to show.
pub open spec fn placeholder_view(title: Seq<char>, theme: Rgb, at: Instant) -> NowPlayingView {
    NowPlayingView {
        title,
        artists: seq![],
        album: seq![],
        progress_ms: 0,
        duration_ms: 0,
        is_playing: false,
        album_art_url: None,
        fetched_at: at,
        theme_color: theme,
    }
}

/// `a + b`, or `u64::MAX` where that overflows.
pub open spec fn saturating_add(a: u64, b: u64) -> u64 {
    if a + b > u64::MAX {
        u64::MAX
    } else {
        (a + b) as u64
    }
}

/// The smaller of two numbers.
pub open spec fn min_u64(a: u64, b: u64) -> u64 {
    if a <= b {
        a
    } else {
        b
    }
}

/// The estimated position when `elapsed_ms` milliseconds have passed since the snapshot:
/// unchanged while paused; otherwise advanced by the elapsed time (taken modulo 2^64, as a
/// cast to `u64` does), saturating, and capped at the track's length.
pub open spec fn progress_at(now: NowPlayingView, elapsed_ms: u128) -> u64 {
    if !now.is_playing {
        now.progress_ms
    } else {
        min_u64(saturating_add(now.progress_ms, elapsed_ms as u64), now.duration_ms)
    }
}

/// Copies an optional string.
pub fn clone_opt_string(s: &Option<String>) -> (res: Option<String>)
    ensures
        opt_view(res) == opt_view(*s),
{
    match s {
        Some(t) => Some(t.clone()),
        None => None,
    }
}

/// Copies a vector of strings.
pub fn clone_strings(v: &Vec<String>) -> (res: Vec<String>)
    ensures
        string_views(res@) == string_views(v@),
{
    let mut out: Vec<String> = Vec::new();
    let mut i: usize = 0;
    while i < v.len()
        invariant
            i <= v.len(),
            out.len() == i,
            forall|j: int| 0 <= j < i ==> (#[trigger] out@[j])@ == v@[j]@,
        decreases v.len() - i,
    {
        out.push(v[i].clone());
        i = i + 1;
    }
    assert(string_views(out@) =~= string_views(v@));
    out
}

impl Clone for NowPlaying {
    fn clone(&self) -> (res: Self)
        ensures
            res@ == self@,
    {
        NowPlaying {
            title: self.title.clone(),
            artists: clone_strings(&self.artists),
            album: self.album.clone(),
            progress_ms: self.progress_ms,
            duration_ms: self.duration_ms,
            is_playing: self.is_playing,
            album_art_url: clone_opt_string(&self.album_art_url),
            fetched_at: self.fetched_at,
            theme_color: self.theme_color,
        }
    }
}

impl NowPlaying {
    /// The snapshot sent when nothing is playing or no data is at hand.
    pub fn placeholder(title: String, theme_color: Rgb, fetched_at: Instant) -> (res: Self)
        ensures
            res@ == placeholder_view(title@, theme_color, fetched_at),
    {
        let res = NowPlaying {
            title,
            artists: Vec::new(),
            album: String::new(),
            progress_ms: 0,
            duration_ms: 0,
            is_playing: false,
            album_art_url: None,
            fetched_at,
            theme_color,
        };
        assert(string_views(res.artists@) =~= seq![]);
        res
    }

    /// The position estimated after `elapsed_ms` milliseconds since the snapshot was taken.
    pub fn progress_after(&self, elapsed_ms: u128) -> (res: u64)
        ensures
            res == progress_at(self@, elapsed_ms),
    {
        if !self.is_playing {
            return self.progress_ms;
        }
        let since: u64 = elapsed_ms as u64;
        let advanced = self.progress_ms.saturating_add(since);
        if advanced <= self.duration_ms {
            advanced
        } else {
            self.duration_ms
        }
    }

    /// The position now, advanced locally from the snapshot while playing.
    pub fn elapsed_progress(&self) -> (res: u64)
        ensures
            exists|now: Instant|
                res == progress_at(self@, whole_millis(duration_between(now, self.fetched_at))),
            !self.is_playing ==> res == self.progress_ms,
            self.is_playing ==> res <= self.duration_ms,
            self.is_playing && self.progress_ms <= self.duration_ms ==> self.progress_ms <= res,
    {
        let now = instant_now();
        let since = saturating_duration_since(&now, &self.fetched_at);
        let millis = duration_as_millis(&since);
        self.progress_after(millis)
    }
}

/// A playback command sent from the interface to a control worker.
#[derive(Debug, Clone, Copy, PartialEq, Eq, Structural)]
pub enum ControlCommand {
    PlayPause,
    Next,
    Prev,
    Quit,
}

/// Paused, the estimate never moves: it is the snapshot's position whatever time has passed.
pub proof fn lemma_paused_progress_is_frozen(now: NowPlayingView, elapsed_ms: u128)
    requires
        !now.is_playing,
    ensures
        progress_at(now, elapsed_ms) == now.progress_ms,
{
}

/// Playing, the estimate never passes the end of the track.
pub proof fn lemma_playing_progress_within_track(now: NowPlayingView, elapsed_ms: u128)
    requires
        now.is_playing,
    ensures
        progress_at(now, elapsed_ms) <= now.duration_ms,
{
}

/// Playing, the estimate is never behind the snapshot's position, where that position
/// lies within the track.
pub proof fn lemma_progress_not_behind_snapshot(now: NowPlayingView, elapsed_ms: u128)
    requires
        now.is_playing,
        now.progress_ms <= now.duration_ms,
    ensures
        now.progress_ms <= progress_at(now, elapsed_ms),
{
}

/// The estimate moves forward as time passes: a later reading is never behind an earlier one
/// (for elapsed times that fit in 64 bits).
pub proof fn lemma_progress_is_monotone(now: NowPlayingView, earlier_ms: u128, later_ms: u128)
    requires
        earlier_ms <= later_ms,
        later_ms <= u64::MAX,
    ensures
        progress_at(now, earlier_ms) <= progress_at(now, later_ms),
{
    assert(earlier_ms as u64 == earlier_ms);
    assert(later_ms as u64 == later_ms);
}

} // verus!
