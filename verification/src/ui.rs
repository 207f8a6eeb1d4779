use crate::model::{default_theme, spotify_green, ControlCommand, NowPlaying, Rgb};
pub use crate::text::fmt_ms;
use crate::text::{clock_text, join_strings, joined, string_views};
use vstd::prelude::*;
use vstd::string::*;

verus! {

/// A key press, as far as the interface tells keys apart.
#[derive(Debug, Clone, Copy, PartialEq, Eq, Structural)]
pub enum Key {
    Char(char),
    Up,
    Down,
    Other,
}

/// What a key press asks of the interface's driver.
#[derive(Debug, Clone, Copy, PartialEq, Eq, Structural)]
pub struct InputOutcome {
    /// The command to hand to the control worker, if any.
    pub command: Option<ControlCommand>,
    /// Whether the interface should stop.
    pub quit: bool,
}

/// `n - 1`, or `0` for `n == 0`.
pub open spec fn last_index(n: usize) -> usize {
    if n == 0 {
        0
    } else {
        (n - 1) as usize
    }
}

/// The queue row selected after moving down: the next one, wrapping to the top after
/// the last; the top when nothing was selected.
pub open spec fn selection_down(sel: Option<usize>, len: usize) -> usize {
    match sel {
        Some(i) => if i >= last_index(len) {
            0
        } else {
            (i + 1) as usize
        },
        None => 0,
    }
}

/// The queue row selected after moving up: the previous one, wrapping to the last from
/// the top; the top when nothing was selected.
pub open spec fn selection_up(sel: Option<usize>, len: usize) -> usize {
    match sel {
        Some(i) => if i == 0 {
            last_index(len)
        } else {
            (i - 1) as usize
        },
        None => 0,
    }
}

/// The effect of a key press: the new selection, the command to send, and whether to stop.
pub open spec fn key_effect(key: Key, sel: Option<usize>, len: usize) -> (Option<usize>, InputOutcome) {
    match key {
        Key::Char('q') => (sel, InputOutcome { command: Some(ControlCommand::Quit), quit: true }),
        Key::Down => (Some(selection_down(sel, len)), InputOutcome { command: None, quit: false }),
        Key::Up => (Some(selection_up(sel, len)), InputOutcome { command: None, quit: false }),
        Key::Char(' ') => (sel, InputOutcome { command: Some(ControlCommand::PlayPause), quit: false }),
        Key::Char('n') => (sel, InputOutcome { command: Some(ControlCommand::Next), quit: false }),
        Key::Char('p') => (sel, InputOutcome { command: Some(ControlCommand::Prev), quit: false }),
        _ => (sel, InputOutcome { command: None, quit: false }),
    }
}

fn move_down(sel: Option<usize>, len: usize) -> (res: usize)
    ensures
        res == selection_down(sel, len),
{
    match sel {
        Some(i) => {
            if i >= len.saturating_sub(1) {
                0
            } else {
                i + 1
            }
        },
        None => 0,
    }
}

fn move_up(sel: Option<usize>, len: usize) -> (res: usize)
    ensures
        res == selection_up(sel, len),
{
    match sel {
        Some(i) => {
            if i == 0 {
                len.saturating_sub(1)
            } else {
                i - 1
            }
        },
        None => 0,
    }
}

/// Handles one key press: `q` quits, space, `n` and `p` send play/pause, next and previous,
/// and the arrow keys move the queue selection, wrapping at both ends.
pub fn handle_input(key: Key, selected: &mut Option<usize>, queue_len: usize) -> (out: InputOutcome)
    ensures
        (*final(selected), out) == key_effect(key, *old(selected), queue_len),
{
    match key {
        Key::Char('q') => InputOutcome { command: Some(ControlCommand::Quit), quit: true },
        Key::Down => {
            *selected = Some(move_down(*selected, queue_len));
            InputOutcome { command: None, quit: false }
        },
        Key::Up => {
            *selected = Some(move_up(*selected, queue_len));
            InputOutcome { command: None, quit: false }
        },
        Key::Char(' ') => InputOutcome { command: Some(ControlCommand::PlayPause), quit: false },
        Key::Char('n') => InputOutcome { command: Some(ControlCommand::Next), quit: false },
        Key::Char('p') => InputOutcome { command: Some(ControlCommand::Prev), quit: false },
        _ => InputOutcome { command: None, quit: false },
    }
}

/// What each key does, independently of how the effect is computed: only `q` stops the
/// interface; only space, `n`, `p` and `q` send a command (play/pause, next, previous,
/// quit); the arrow keys send nothing and move the selection to a row; every other key
/// leaves the selection as it was.
pub proof fn lemma_key_roles(key: Key, sel: Option<usize>, len: usize)
    ensures
        ({
            let (new_sel, out) = key_effect(key, sel, len);
            &&& out.quit <==> key == Key::Char('q')
            &&& (key == Key::Up || key == Key::Down) ==> out == (InputOutcome {
                command: None,
                quit: false,
            }) && new_sel is Some
            &&& (key != Key::Up && key != Key::Down) ==> new_sel == sel
            &&& key == Key::Char(' ') ==> out.command == Some(ControlCommand::PlayPause)
            &&& key == Key::Char('n') ==> out.command == Some(ControlCommand::Next)
            &&& key == Key::Char('p') ==> out.command == Some(ControlCommand::Prev)
            &&& key == Key::Char('q') ==> out.command == Some(ControlCommand::Quit)
            &&& out.command is Some ==> (key == Key::Char(' ') || key == Key::Char('n') || key
                == Key::Char('p') || key == Key::Char('q'))
        }),
{
}

/// Moving up undoes moving down, for any selected row of the queue.
pub proof fn lemma_up_undoes_down(i: usize, len: usize)
    requires
        i < len,
    ensures
        selection_up(Some(selection_down(Some(i), len)), len) == i,
{
}

/// Moving down undoes moving up, for any selected row of the queue.
pub proof fn lemma_down_undoes_up(i: usize, len: usize)
    requires
        i < len,
    ensures
        selection_down(Some(selection_up(Some(i), len)), len) == i,
{
}

/// On a queue that is not empty, moving keeps the selection on one of its rows.
pub proof fn lemma_selection_stays_in_queue(sel: Option<usize>, len: usize)
    requires
        len > 0,
        sel matches Some(i) ==> i < len,
    ensures
        selection_down(sel, len) < len,
        selection_up(sel, len) < len,
{
}

/// The number of visualizer bars, each two columns wide with a gap of one, that fit in a
/// terminal of this width once the borders and margins (four columns) are taken off.
pub open spec fn bar_count(width: u16) -> nat {
    (if width >= 4 {
        width - 4
    } else {
        0
    }) as nat / 3
}

/// The number of visualizer bars for a terminal of this width.
pub fn ideal_bar_count(width: u16) -> (n: usize)
    ensures
        n == bar_count(width),
        width >= 4 ==> 3 * n <= width - 4 < 3 * n + 3,
        width < 4 ==> n == 0,
{
    let available = width.saturating_sub(4);
    (available / 3) as usize
}

/// The label of the progress gauge: the position and the length, each as `mm:ss`.
pub open spec fn progress_text(elapsed_ms: u64, duration_ms: u64) -> Seq<char> {
    clock_text(elapsed_ms as nat) + " / "@ + clock_text(duration_ms as nat)
}

/// The label of the progress gauge.
pub fn progress_label(elapsed_ms: u64, duration_ms: u64) -> (res: String)
    ensures
        res@ == progress_text(elapsed_ms, duration_ms),
{
    let label = fmt_ms(elapsed_ms).concat(" / ");
    label.concat(fmt_ms(duration_ms).as_str())
}

/// The icon in front of the title: a play sign while playing, a pause sign otherwise.
pub fn play_icon(is_playing: bool) -> (icon: &'static str)
    ensures
        is_playing ==> icon@ == "\u{25b6}  "@,
        !is_playing ==> icon@ == "\u{23f8}  "@,
{
    if is_playing {
        "\u{25b6}  "
    } else {
        "\u{23f8}  "
    }
}

/// The artists of a track, separated by commas.
pub fn artist_line(artists: &Vec<String>) -> (res: String)
    ensures
        res@ == joined(string_views(artists@), ", "@),
{
    join_strings(artists, ", ")
}

/// The theme of the interface: that of the current snapshot, or Spotify's green.
pub fn theme_of(current: &Option<NowPlaying>) -> (c: Rgb)
    ensures
        c == match current {
            Some(now) => now.theme_color,
            None => spotify_green(),
        },
{
    match current {
        Some(now) => now.theme_color,
        None => default_theme(),
    }
}

} // verus!
