use spotify_tui::app::App;
use spotify_tui::auth::{build_auth_url, extract_code, redirect_uri_text, token_form};
use spotify_tui::json::Json;
use spotify_tui::model::{default_theme, ControlCommand, NowPlaying};
use spotify_tui::poller::{PollAction, PollEvent, PollerState};
use spotify_tui::spotify::{dominant_color, nothing_playing, parse_now_playing, response_has_track};
use spotify_tui::text::{fmt_ms, join_strings, same_text};
use spotify_tui::ui::{
    artist_line, handle_input, ideal_bar_count, play_icon, progress_label, theme_of, Key,
};
use std::time::{Duration, Instant};

const GREEN: (u8, u8, u8) = (30, 215, 96);

fn track(title: &str, art: Option<&str>, playing: bool, progress: u64, duration: u64) -> NowPlaying {
    NowPlaying {
        title: title.to_string(),
        artists: vec!["A".to_string(), "B".to_string()],
        album: "Album".to_string(),
        progress_ms: progress,
        duration_ms: duration,
        is_playing: playing,
        album_art_url: art.map(|s| s.to_string()),
        fetched_at: Instant::now(),
        theme_color: (1, 2, 3),
    }
}

fn s(text: &str) -> Json {
    Json::Str(text.to_string())
}

fn obj(members: Vec<(&str, Json)>) -> Json {
    Json::Object(members.into_iter().map(|(k, v)| (k.to_string(), v)).collect())
}

// ---------------------------------------------------------------- App

#[test]
fn app_new_starts_with_placeholder_and_ten_silent_bars() {
    let app = App::new();
    assert_eq!(app.track, "Nothing playing");
    assert_eq!(app.bars, vec![0u64; 10]);
}

// ---------------------------------------------------------------- progress

#[test]
fn paused_progress_is_the_snapshot() {
    let mut t = track("x", None, false, 42_000, 200_000);
    t.fetched_at = Instant::now() - Duration::from_secs(30);
    assert_eq!(t.elapsed_progress(), 42_000);
    assert_eq!(t.progress_after(999_999), 42_000);
}

#[test]
fn playing_progress_advances_with_time() {
    let mut t = track("x", None, true, 1_000, 600_000);
    t.fetched_at = Instant::now() - Duration::from_secs(5);
    let p = t.elapsed_progress();
    assert!(p >= 6_000);
    assert!(p <= 600_000);
}

#[test]
fn progress_after_is_exact() {
    let t = track("x", None, true, 1_000, 10_000);
    assert_eq!(t.progress_after(0), 1_000);
    assert_eq!(t.progress_after(2_500), 3_500);
    assert_eq!(t.progress_after(9_000), 10_000);
    assert_eq!(t.progress_after(50_000), 10_000);
}

#[test]
fn progress_after_saturates() {
    let t = track("x", None, true, u64::MAX - 5, u64::MAX);
    assert_eq!(t.progress_after(100), u64::MAX);
}

#[test]
fn progress_is_monotone_on_samples() {
    let t = track("x", None, true, 3_000, 180_000);
    let mut last = 0;
    for ms in [0u128, 1, 10, 1_000, 100_000, 177_000, 177_001, 500_000] {
        let p = t.progress_after(ms);
        assert!(p >= last);
        last = p;
    }
}

#[test]
fn playing_progress_never_passes_the_end() {
    let t = track("x", None, true, 250_000, 200_000);
    assert_eq!(t.progress_after(0), 200_000);
}

#[test]
fn clone_keeps_every_field() {
    let t = track("Song", Some("http://art"), true, 5, 9);
    let c = t.clone();
    assert_eq!(c.title, "Song");
    assert_eq!(c.artists, vec!["A".to_string(), "B".to_string()]);
    assert_eq!(c.album_art_url.as_deref(), Some("http://art"));
    assert_eq!((c.progress_ms, c.duration_ms, c.is_playing), (5, 9, true));
    assert_eq!(c.theme_color, (1, 2, 3));
    assert_eq!(c.fetched_at, t.fetched_at);
}

// ---------------------------------------------------------------- formatting

#[test]
fn fmt_ms_exact_values() {
    assert_eq!(fmt_ms(0), "00:00");
    assert_eq!(fmt_ms(999), "00:00");
    assert_eq!(fmt_ms(125_000), "02:05");
    assert_eq!(fmt_ms(59_999), "00:59");
    assert_eq!(fmt_ms(600_000), "10:00");
    assert_eq!(fmt_ms(6_000_000), "100:00");
    assert_eq!(fmt_ms(u64::MAX), format!("{:02}:{:02}", u64::MAX / 1000 / 60, u64::MAX / 1000 % 60));
}

#[test]
fn progress_label_joins_two_clocks() {
    assert_eq!(progress_label(61_000, 215_000), "01:01 / 03:35");
}

#[test]
fn join_strings_matches_std_join() {
    let parts = vec!["a".to_string(), "bc".to_string(), "".to_string(), "d".to_string()];
    assert_eq!(join_strings(&parts, ", "), parts.join(", "));
    assert_eq!(join_strings(&vec![], "-"), "");
    assert_eq!(join_strings(&vec!["solo".to_string()], "-"), "solo");
}

#[test]
fn artist_line_uses_commas() {
    assert_eq!(artist_line(&vec!["Daft Punk".to_string(), "Pharrell".to_string()]), "Daft Punk, Pharrell");
}

#[test]
fn same_text_compares_characters() {
    assert!(same_text("héllo", "héllo"));
    assert!(!same_text("hello", "hellO"));
    assert!(!same_text("hell", "hello"));
}

#[test]
fn play_icon_by_state() {
    assert_eq!(play_icon(true), "▶  ");
    assert_eq!(play_icon(false), "⏸  ");
}

// ---------------------------------------------------------------- interface rules

#[test]
fn q_quits_and_sends_quit() {
    let mut sel = Some(1);
    let out = handle_input(Key::Char('q'), &mut sel, 4);
    assert!(out.quit);
    assert_eq!(out.command, Some(ControlCommand::Quit));
    assert_eq!(sel, Some(1));
}

#[test]
fn playback_keys_send_commands() {
    let mut sel = None;
    assert_eq!(handle_input(Key::Char(' '), &mut sel, 0).command, Some(ControlCommand::PlayPause));
    assert_eq!(handle_input(Key::Char('n'), &mut sel, 0).command, Some(ControlCommand::Next));
    assert_eq!(handle_input(Key::Char('p'), &mut sel, 0).command, Some(ControlCommand::Prev));
    let other = handle_input(Key::Char('x'), &mut sel, 0);
    assert_eq!(other.command, None);
    assert!(!other.quit);
    assert_eq!(handle_input(Key::Other, &mut sel, 0).command, None);
    assert_eq!(sel, None);
}

#[test]
fn down_moves_and_wraps() {
    let mut sel = None;
    handle_input(Key::Down, &mut sel, 3);
    assert_eq!(sel, Some(0));
    handle_input(Key::Down, &mut sel, 3);
    assert_eq!(sel, Some(1));
    handle_input(Key::Down, &mut sel, 3);
    assert_eq!(sel, Some(2));
    handle_input(Key::Down, &mut sel, 3);
    assert_eq!(sel, Some(0));
}

#[test]
fn up_moves_and_wraps() {
    let mut sel = None;
    handle_input(Key::Up, &mut sel, 3);
    assert_eq!(sel, Some(0));
    handle_input(Key::Up, &mut sel, 3);
    assert_eq!(sel, Some(2));
    handle_input(Key::Up, &mut sel, 3);
    assert_eq!(sel, Some(1));
}

#[test]
fn up_undoes_down_on_every_row() {
    for len in 1..6usize {
        for i in 0..len {
            let mut sel = Some(i);
            handle_input(Key::Down, &mut sel, len);
            handle_input(Key::Up, &mut sel, len);
            assert_eq!(sel, Some(i));
            handle_input(Key::Up, &mut sel, len);
            handle_input(Key::Down, &mut sel, len);
            assert_eq!(sel, Some(i));
        }
    }
}

#[test]
fn empty_queue_selects_the_top() {
    let mut sel = Some(0);
    handle_input(Key::Down, &mut sel, 0);
    assert_eq!(sel, Some(0));
    handle_input(Key::Up, &mut sel, 0);
    assert_eq!(sel, Some(0));
}

#[test]
fn bar_count_from_width() {
    assert_eq!(ideal_bar_count(0), 0);
    assert_eq!(ideal_bar_count(3), 0);
    assert_eq!(ideal_bar_count(6), 0);
    assert_eq!(ideal_bar_count(7), 1);
    assert_eq!(ideal_bar_count(100), 32);
    assert_eq!(ideal_bar_count(u16::MAX), (u16::MAX as usize - 4) / 3);
}

#[test]
fn theme_of_current_or_green() {
    assert_eq!(theme_of(&None), GREEN);
    assert_eq!(theme_of(&Some(track("x", None, true, 0, 0))), (1, 2, 3));
    assert_eq!(default_theme(), GREEN);
}

// ---------------------------------------------------------------- authorization

#[test]
fn auth_url_is_exact() {
    assert_eq!(
        build_auth_url("my-client"),
        "https://accounts.spotify.com/authorize?response_type=code&client_id=my-client\
         &scope=user-read-playback-state%20user-read-currently-playing\
         &redirect_uri=http%3A%2F%2Flocalhost%3A8888%2Fcallback"
    );
}

#[test]
fn token_form_fields() {
    let form = token_form("id", "secret", "the-code");
    let expected: Vec<(String, String)> = [
        ("grant_type", "authorization_code"),
        ("code", "the-code"),
        ("redirect_uri", "http://localhost:8888/callback"),
        ("client_id", "id"),
        ("client_secret", "secret"),
    ]
    .iter()
    .map(|(a, b)| (a.to_string(), b.to_string()))
    .collect();
    assert_eq!(form, expected);
    assert_eq!(redirect_uri_text(), "http://localhost:8888/callback");
}

#[test]
fn extract_code_from_callback() {
    assert_eq!(extract_code("/callback?code=AQBx-12_z&state=abc").as_deref(), Some("AQBx-12_z"));
    assert_eq!(extract_code("/callback?code=AQBx").as_deref(), Some("AQBx"));
    assert_eq!(extract_code("/callback?state=1&code=").as_deref(), Some(""));
}

#[test]
fn extract_code_absent() {
    assert_eq!(extract_code("/callback?error=access_denied"), None);
    assert_eq!(extract_code(""), None);
    assert_eq!(extract_code("code"), None);
}

#[test]
fn extract_code_follows_split_semantics() {
    // the text between the first and the second `code=`, then up to the first `&`
    assert_eq!(extract_code("/x?code=abccode=def").as_deref(), Some("abc"));
    assert_eq!(extract_code("/x?code=a&b&code=c").as_deref(), Some("a"));
    assert_eq!(extract_code("/x?mycode=zz").as_deref(), Some("zz"));
}

#[test]
fn extract_code_round_trip() {
    for code in ["", "a", "AQD-_.~9", "ünïcode"] {
        for more in ["", "&state=1", "&"] {
            let url = format!("/callback?code={}{}", code, more);
            assert_eq!(extract_code(&url).as_deref(), Some(code));
        }
    }
}

// ---------------------------------------------------------------- the player's response

#[test]
fn status_204_means_nothing_playing() {
    assert!(!response_has_track(204));
    assert!(response_has_track(200));
    assert!(response_has_track(401));
    let at = Instant::now();
    let t = nothing_playing(at);
    assert_eq!(t.title, "No track playing");
    assert!(t.artists.is_empty());
    assert_eq!(t.album, "");
    assert_eq!((t.progress_ms, t.duration_ms, t.is_playing), (0, 0, false));
    assert_eq!(t.album_art_url, None);
    assert_eq!(t.theme_color, GREEN);
    assert_eq!(t.fetched_at, at);
}

#[test]
fn parse_full_response() {
    let json = obj(vec![
        ("is_playing", Json::Bool(true)),
        ("progress_ms", Json::PosInt(12_345)),
        (
            "item",
            obj(vec![
                ("name", s("Get Lucky")),
                (
                    "artists",
                    Json::Array(vec![
                        obj(vec![("name", s("Daft Punk"))]),
                        obj(vec![("id", s("no name"))]),
                        obj(vec![("name", Json::PosInt(3))]),
                        obj(vec![("name", s("Pharrell Williams"))]),
                    ]),
                ),
                ("duration_ms", Json::PosInt(369_000)),
                (
                    "album",
                    obj(vec![
                        ("name", s("Random Access Memories")),
                        (
                            "images",
                            Json::Array(vec![
                                obj(vec![("url", s("https://i.scdn.co/image/big"))]),
                                obj(vec![("url", s("https://i.scdn.co/image/small"))]),
                            ]),
                        ),
                    ]),
                ),
            ]),
        ),
    ]);
    let at = Instant::now();
    let t = parse_now_playing(&json, at);
    assert_eq!(t.title, "Get Lucky");
    assert_eq!(t.artists, vec!["Daft Punk".to_string(), "Pharrell Williams".to_string()]);
    assert_eq!(t.album, "Random Access Memories");
    assert_eq!(t.progress_ms, 12_345);
    assert_eq!(t.duration_ms, 369_000);
    assert!(t.is_playing);
    assert_eq!(t.album_art_url.as_deref(), Some("https://i.scdn.co/image/big"));
    assert_eq!(t.fetched_at, at);
    assert_eq!(t.theme_color, GREEN);
}

#[test]
fn parse_defaults_when_fields_are_missing() {
    let t = parse_now_playing(&obj(vec![]), Instant::now());
    assert_eq!(t.title, "Unknown");
    assert!(t.artists.is_empty());
    assert_eq!(t.album, "Unknown");
    assert_eq!((t.progress_ms, t.duration_ms, t.is_playing), (0, 0, false));
    assert_eq!(t.album_art_url, None);
    let t = parse_now_playing(&Json::Null, Instant::now());
    assert_eq!(t.title, "Unknown");
}

#[test]
fn parse_defaults_when_fields_have_other_types() {
    let json = obj(vec![
        ("is_playing", s("yes")),
        ("progress_ms", Json::NegInt(-5)),
        ("item", obj(vec![("duration_ms", Json::Float), ("album", obj(vec![("images", Json::Array(vec![]))]))])),
    ]);
    let t = parse_now_playing(&json, Instant::now());
    assert!(!t.is_playing);
    assert_eq!(t.progress_ms, 0);
    assert_eq!(t.duration_ms, 0);
    assert_eq!(t.album_art_url, None);
}

// ---------------------------------------------------------------- album art color

#[test]
fn undecodable_bytes_give_no_color() {
    assert_eq!(dominant_color(b"not an image"), None);
    assert_eq!(dominant_color(&[]), None);
}

#[test]
fn uniform_image_gives_its_color() {
    let img = image::RgbImage::from_pixel(4, 3, image::Rgb([10, 20, 30]));
    let mut bytes: Vec<u8> = Vec::new();
    image::DynamicImage::ImageRgb8(img)
        .write_to(&mut std::io::Cursor::new(&mut bytes), image::ImageFormat::Png)
        .unwrap();
    assert_eq!(dominant_color(&bytes), Some((10, 20, 30)));
}

// ---------------------------------------------------------------- poller

fn delivered(a: PollAction) -> NowPlaying {
    match a {
        PollAction::Deliver(t) => t,
        PollAction::FetchColor(..) => panic!("expected a delivery"),
    }
}

#[test]
fn poller_without_token_sends_not_authenticated() {
    let mut p = PollerState::new();
    assert_eq!(p.current_theme, GREEN);
    assert_eq!(p.last_art_url, None);
    let at = Instant::now();
    let t = delivered(p.step(PollEvent::NoToken(at)));
    assert_eq!(t.title, "Not authenticated");
    assert_eq!(t.theme_color, GREEN);
    assert_eq!(t.fetched_at, at);
    assert!(!t.is_playing);
}

#[test]
fn poller_error_title() {
    let mut p = PollerState { last_art_url: None, current_theme: (9, 9, 9) };
    let t = delivered(p.step(PollEvent::FetchFailed("Spotify fetch error: timeout".to_string(), Instant::now())));
    assert_eq!(t.title, "Error: Spotify fetch error: timeout");
    assert_eq!(t.theme_color, (9, 9, 9));
}

#[test]
fn poller_looks_up_color_once_per_art() {
    let mut p = PollerState::new();
    let at = Instant::now();
    let first = p.step(PollEvent::Fetched(track("one", Some("http://a"), true, 0, 10), at));
    let pending = match first {
        PollAction::FetchColor(url, t) => {
            assert_eq!(url, "http://a");
            assert_eq!(t.fetched_at, at);
            t
        }
        PollAction::Deliver(_) => panic!("expected a color lookup"),
    };
    let t = delivered(p.step(PollEvent::ColorFetched(pending, Some((200, 100, 50)))));
    assert_eq!(t.theme_color, (200, 100, 50));
    assert_eq!(p.current_theme, (200, 100, 50));
    assert_eq!(p.last_art_url.as_deref(), Some("http://a"));
    // same art again: delivered at once in the settled theme
    let t = delivered(p.step(PollEvent::Fetched(track("one", Some("http://a"), true, 5, 10), Instant::now())));
    assert_eq!(t.theme_color, (200, 100, 50));
}

#[test]
fn poller_keeps_theme_when_lookup_fails() {
    let mut p = PollerState { last_art_url: None, current_theme: (7, 7, 7) };
    let pending = match p.step(PollEvent::Fetched(track("one", Some("http://b"), true, 0, 10), Instant::now())) {
        PollAction::FetchColor(_, t) => t,
        PollAction::Deliver(_) => panic!("expected a color lookup"),
    };
    let t = delivered(p.step(PollEvent::ColorFetched(pending, None)));
    assert_eq!(t.theme_color, (7, 7, 7));
    assert_eq!(p.last_art_url.as_deref(), Some("http://b"));
}

#[test]
fn poller_falls_back_to_green_without_art() {
    let mut p = PollerState { last_art_url: Some("http://a".to_string()), current_theme: (1, 1, 1) };
    let t = delivered(p.step(PollEvent::Fetched(track("two", None, false, 0, 10), Instant::now())));
    assert_eq!(t.theme_color, GREEN);
    assert_eq!(p.current_theme, GREEN);
    assert_eq!(p.last_art_url, None);
}

fn png_bytes(img: image::DynamicImage) -> Vec<u8> {
    let mut bytes: Vec<u8> = Vec::new();
    img.write_to(&mut std::io::Cursor::new(&mut bytes), image::ImageFormat::Png).unwrap();
    bytes
}

#[test]
fn sixteen_bit_image_within_limit_gives_its_color() {
    let img = image::ImageBuffer::<image::Rgb<u16>, Vec<u16>>::from_pixel(256, 256, image::Rgb([65535, 0, 65535]));
    let bytes = png_bytes(image::DynamicImage::ImageRgb16(img));
    assert_eq!(dominant_color(&bytes), Some((255, 0, 255)));
}

#[test]
fn sixteen_bit_image_beyond_limit_gives_no_color() {
    let img = image::ImageBuffer::<image::Rgb<u16>, Vec<u16>>::from_pixel(300, 300, image::Rgb([65535, 65535, 65535]));
    let bytes = png_bytes(image::DynamicImage::ImageRgb16(img));
    assert_eq!(dominant_color(&bytes), None);
}

#[test]
fn large_eight_bit_cover_gives_its_color() {
    let img = image::RgbImage::from_pixel(640, 640, image::Rgb([200, 100, 50]));
    let bytes = png_bytes(image::DynamicImage::ImageRgb8(img));
    assert_eq!(dominant_color(&bytes), Some((200, 100, 50)));
}

#[test]
fn clock_reads_back_as_whole_seconds() {
    for ms in [0u64, 999, 61_000, 3_599_999, 6_000_000, 123_456_789] {
        let t = fmt_ms(ms);
        let (m, s) = t.split_once(':').unwrap();
        assert_eq!(s.len(), 2);
        assert!(m.len() >= 2);
        let m: u64 = m.parse().unwrap();
        let s: u64 = s.parse().unwrap();
        assert!(s < 60);
        assert_eq!(m * 60 + s, ms / 1000);
    }
}

#[test]
fn login_url_agrees_with_token_request() {
    let url = build_auth_url("client-42");
    let form = token_form("client-42", "secret", "code");
    let query = url.split_once('?').unwrap().1;
    let params: Vec<(&str, &str)> = query.split('&').map(|p| p.split_once('=').unwrap()).collect();
    let get = |name: &str| params.iter().find(|(k, _)| *k == name).unwrap().1;
    assert_eq!(get("client_id"), form[3].1);
    assert_eq!(urlencoding::decode(get("redirect_uri")).unwrap(), form[2].1);
    assert_eq!(
        urlencoding::decode(get("scope")).unwrap(),
        "user-read-playback-state user-read-currently-playing"
    );
}
