use crate::model::{
    clone_opt_string, default_theme, opt_view, placeholder_view, spotify_green, NowPlaying, NowPlayingView, Rgb,
};
use crate::text::same_text;
use std::time::Instant;
use vstd::prelude::*;
use vstd::string::*;

verus! {

/// What the poller remembers between ticks: the album art it last saw and the theme
/// color that art gave.
pub struct PollerState {
    pub last_art_url: Option<String>,
    pub current_theme: Rgb,
}

pub struct PollerView {
    pub last_art_url: Option<Seq<char>>,
    pub current_theme: Rgb,
}

impl View for PollerState {
    type V = PollerView;

    open spec fn view(&self) -> PollerView {
        PollerView { last_art_url: opt_view(self.last_art_url), current_theme: self.current_theme }
    }
}

/// What happened on one tick of the poller, or after a color lookup it asked for.
pub enum PollEvent {
    /// No access token was available at the given instant.
    NoToken(Instant),
    /// The player reported a snapshot, received at the given instant.
    Fetched(NowPlaying, Instant),
    /// Fetching failed with the given message, at the given instant.
    FetchFailed(String, Instant),
    /// The color lookup for a pending snapshot finished, with a color or without one.
    ColorFetched(NowPlaying, Option<Rgb>),
}

pub enum PollEventView {
    NoToken(Instant),
    Fetched(NowPlayingView, Instant),
    FetchFailed(Seq<char>, Instant),
    ColorFetched(NowPlayingView, Option<Rgb>),
}

impl View for PollEvent {
    type V = PollEventView;

    open spec fn view(&self) -> PollEventView {
        match self {
            PollEvent::NoToken(at) => PollEventView::NoToken(*at),
            PollEvent::Fetched(t, at) => PollEventView::Fetched(t@, *at),
            PollEvent::FetchFailed(m, at) => PollEventView::FetchFailed(m@, *at),
            PollEvent::ColorFetched(t, c) => PollEventView::ColorFetched(t@, *c),
        }
    }
}

/// What the poller asks its driver to do next.
pub enum PollAction {
    /// Send this snapshot to the interface.
    Deliver(NowPlaying),
    /// Look up the dominant color of the image at this address, then report it with
    /// `PollEvent::ColorFetched` together with the pending snapshot.
    FetchColor(String, NowPlaying),
}

pub enum PollActionView {
    Deliver(NowPlayingView),
    FetchColor(Seq<char>, NowPlayingView),
}

impl View for PollAction {
    type V = PollActionView;

    open spec fn view(&self) -> PollActionView {
        match self {
            PollAction::Deliver(t) => PollActionView::Deliver(t@),
            PollAction::FetchColor(u, t) => PollActionView::FetchColor(u@, t@),
        }
    }
}

/// The state a poller starts in: no art seen yet, Spotify's green.
pub open spec fn initial_poller() -> PollerView {
    PollerView { last_art_url: None, current_theme: spotify_green() }
}

/// One decision of the poller: the next state and the action, from the state and the event.
pub open spec fn poll_step(s: PollerView, e: PollEventView) -> (PollerView, PollActionView) {
    match e {
        PollEventView::NoToken(at) => (
            s,
            PollActionView::Deliver(placeholder_view("Not authenticated"@, s.current_theme, at)),
        ),
        PollEventView::FetchFailed(msg, at) => (
            s,
            PollActionView::Deliver(placeholder_view("Error: "@ + msg, s.current_theme, at)),
        ),
        PollEventView::Fetched(t, at) => {
            let stamped = NowPlayingView { fetched_at: at, ..t };
            if t.album_art_url == s.last_art_url {
                (s, PollActionView::Deliver(NowPlayingView { theme_color: s.current_theme, ..stamped }))
            } else {
                match t.album_art_url {
                    Some(url) => (s, PollActionView::FetchColor(url, stamped)),
                    None => (
                        PollerView { last_art_url: None, current_theme: spotify_green() },
                        PollActionView::Deliver(NowPlayingView { theme_color: spotify_green(), ..stamped }),
                    ),
                }
            }
        },
        PollEventView::ColorFetched(t, color) => {
            let theme = match color {
                Some(c) => c,
                None => s.current_theme,
            };
            (
                PollerView { last_art_url: t.album_art_url, current_theme: theme },
                PollActionView::Deliver(NowPlayingView { theme_color: theme, ..t }),
            )
        },
    }
}

/// Whether two optional strings hold the same text.
fn same_opt_text(a: &Option<String>, b: &Option<String>) -> (res: bool)
    ensures
        res == (opt_view(*a) == opt_view(*b)),
{
    match (a, b) {
        (Some(x), Some(y)) => same_text(x.as_str(), y.as_str()),
        (None, None) => true,
        _ => false,
    }
}

impl PollerState {
    /// A poller that has seen no art yet, themed in Spotify's green.
    pub fn new() -> (s: Self)
        ensures
            s@ == initial_poller(),
    {
        PollerState { last_art_url: None, current_theme: default_theme() }
    }

    /// Decides what to do with one event, and updates the remembered art and theme.
    pub fn step(&mut self, event: PollEvent) -> (action: PollAction)
        ensures
            (final(self)@, action@) == poll_step(old(self)@, event@),
    {
        match event {
            PollEvent::NoToken(at) => {
                let title = String::from_str("Not authenticated");
                PollAction::Deliver(NowPlaying::placeholder(title, self.current_theme, at))
            },
            PollEvent::FetchFailed(msg, at) => {
                let title = String::from_str("Error: ").concat(msg.as_str());
                PollAction::Deliver(NowPlaying::placeholder(title, self.current_theme, at))
            },
            PollEvent::Fetched(track, at) => {
                let mut now = track;
                now.fetched_at = at;
                if same_opt_text(&now.album_art_url, &self.last_art_url) {
                    now.theme_color = self.current_theme;
                    PollAction::Deliver(now)
                } else {
                    match clone_opt_string(&now.album_art_url) {
                        Some(url) => PollAction::FetchColor(url, now),
                        None => {
                            self.current_theme = default_theme();
                            self.last_art_url = None;
                            now.theme_color = self.current_theme;
                            PollAction::Deliver(now)
                        },
                    }
                }
            },
            PollEvent::ColorFetched(track, color) => {
                let mut now = track;
                if let Some(c) = color {
                    self.current_theme = c;
                }
                self.last_art_url = clone_opt_string(&now.album_art_url);
                now.theme_color = self.current_theme;
                PollAction::Deliver(now)
            },
        }
    }
}

/// Every snapshot the poller delivers carries the theme it holds after that step.
pub proof fn lemma_delivered_theme_is_current(s: PollerView, e: PollEventView)
    ensures
        poll_step(s, e).1 matches PollActionView::Deliver(t) ==> t.theme_color
            == poll_step(s, e).0.current_theme,
{
}

/// A snapshot whose album art is the one last seen changes nothing: no color is looked
/// up and the theme stays.
pub proof fn lemma_same_art_keeps_theme(s: PollerView, t: NowPlayingView, at: Instant)
    requires
        t.album_art_url == s.last_art_url,
    ensures
        poll_step(s, PollEventView::Fetched(t, at)).0 == s,
        poll_step(s, PollEventView::Fetched(t, at)).1 matches PollActionView::Deliver(d)
            && d.theme_color == s.current_theme,
{
}

/// A new track without album art falls back to Spotify's green.
pub proof fn lemma_no_art_is_green(s: PollerView, t: NowPlayingView, at: Instant)
    requires
        t.album_art_url is None,
        s.last_art_url is Some,
    ensures
        poll_step(s, PollEventView::Fetched(t, at)).0.current_theme == spotify_green(),
        poll_step(s, PollEventView::Fetched(t, at)).1 matches PollActionView::Deliver(d)
            && d.theme_color == spotify_green(),
{
}

/// The color of an album's art is looked up once: after the lookup that a new address
/// asks for has been reported, a later snapshot with the same art is delivered directly,
/// in the theme that the lookup settled.
pub proof fn lemma_color_looked_up_once(
    s: PollerView,
    t: NowPlayingView,
    at: Instant,
    color: Option<Rgb>,
    later: NowPlayingView,
    later_at: Instant,
)
    requires
        t.album_art_url is Some,
        t.album_art_url != s.last_art_url,
        later.album_art_url == t.album_art_url,
    ensures
        ({
            let (s1, a1) = poll_step(s, PollEventView::Fetched(t, at));
            a1 matches PollActionView::FetchColor(url, pending) && {
                let (s2, a2) = poll_step(s1, PollEventView::ColorFetched(pending, color));
                let (s3, a3) = poll_step(s2, PollEventView::Fetched(later, later_at));
                &&& s2.last_art_url == Some(url)
                &&& s3 == s2
                &&& a3 matches PollActionView::Deliver(d) && d.theme_color == s2.current_theme
            }
        }),
{
}

/// Whether two snapshots describe the same playback: the same title, artists, album,
/// position, length, play state and album art.
pub open spec fn same_playback(a: NowPlayingView, b: NowPlayingView) -> bool {
    &&& a.title == b.title
    &&& a.artists == b.artists
    &&& a.album == b.album
    &&& a.progress_ms == b.progress_ms
    &&& a.duration_ms == b.duration_ms
    &&& a.is_playing == b.is_playing
    &&& a.album_art_url == b.album_art_url
}

/// A fetched snapshot is passed on as the player reported it: whether it is delivered at
/// once or held for a color lookup, its title, artists, album, position, length, play
/// state and art are the reported ones, and it is stamped with the time of receipt. A
/// snapshot delivered at once wears the poller's theme; one held for a lookup is held
/// under its own art's address.
pub proof fn lemma_fetched_snapshot_passes_through(s: PollerView, t: NowPlayingView, at: Instant)
    ensures
        match poll_step(s, PollEventView::Fetched(t, at)).1 {
            PollActionView::Deliver(d) => {
                &&& same_playback(d, t)
                &&& d.fetched_at == at
                &&& d.theme_color == poll_step(s, PollEventView::Fetched(t, at)).0.current_theme
            },
            PollActionView::FetchColor(url, p) => {
                &&& same_playback(p, t)
                &&& p.fetched_at == at
                &&& t.album_art_url == Some(url)
                &&& poll_step(s, PollEventView::Fetched(t, at)).0 == s
            },
        },
{
}

/// After a color lookup the pending snapshot is delivered unchanged but for its theme:
/// the color found, or the theme held before where none was found.
pub proof fn lemma_looked_up_snapshot_keeps_playback(
    s: PollerView,
    pending: NowPlayingView,
    color: Option<Rgb>,
)
    ensures
        poll_step(s, PollEventView::ColorFetched(pending, color)).1 matches PollActionView::Deliver(
            d,
        ) && same_playback(d, pending) && d.fetched_at == pending.fetched_at && d.theme_color == (
        match color {
            Some(c) => c,
            None => s.current_theme,
        }),
{
}

} // verus!
