use vstd::prelude::*;
use vstd::string::*;

verus! {

/// The state that the simple polling loop prints from.
pub struct App {
    pub track: String,
    pub bars: Vec<u64>,
}

/// The title shown before anything has been fetched.
pub open spec fn initial_track_title() -> Seq<char> {
    "Nothing playing"@
}

/// The number of visualizer bars that a fresh `App` holds.
pub open spec fn initial_bar_count() -> nat {
    10
}

impl App {
    /// A fresh state: the placeholder title and ten silent bars.
    pub fn new() -> (app: Self)
        ensures
            app.track@ == initial_track_title(),
            app.bars@ == Seq::new(initial_bar_count(), |i: int| 0u64),
    {
        let bars = vec![0u64; 10];
        assert(bars@ =~= Seq::new(initial_bar_count(), |i: int| 0u64));
        App { track: String::from_str("Nothing playing"), bars }
    }
}

} // verus!
