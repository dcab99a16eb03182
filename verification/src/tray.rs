//! What the tray shows and what a click means.
//!
//! Platform-free, like the rest of the Core: the tray is a function of one
//! value, and the Shell only draws the answer and reports clicks.

use vstd::prelude::*;

verus! {

/// Whether Footman is watching the keyboard.
///
/// Named for what the user cares about rather than for the hook: a paused
/// Footman and a broken one both leave the keyboard entirely normal, and the
/// difference between them is whose decision that was.
#[derive(Debug, Clone, Copy, PartialEq, Eq, Structural)]
pub enum Duty {
    /// The hook is installed and Hyper works.
    Active,
    /// The user asked Footman to stand down. The hook is uninstalled, not
    /// merely ignoring events.
    Paused,
    /// Footman could not install the hook. Never silently dead.
    Broken,
}

/// A menu entry the user chose. Left-clicking the icon is `Settings`.
#[derive(Debug, Clone, Copy, PartialEq, Eq, Structural)]
pub enum Click {
    Settings,
    PauseOrResume,
    Quit,
}

/// What the Shell should do about it.
#[derive(Debug, Clone, Copy, PartialEq, Eq, Structural)]
pub enum TrayEffect {
    OpenSettings,
    Pause,
    Resume,
    Quit,
}

/// The label of the one menu entry whose meaning changes with state.
pub open spec fn pause_label(d: Duty) -> Seq<char> {
    match d {
        Duty::Active => "Pause Footman"@,
        Duty::Paused => "Resume Footman"@,
        Duty::Broken => "Try again"@,
    }
}

pub open spec fn tooltip(d: Duty) -> Seq<char> {
    match d {
        Duty::Active => "Footman — watching for Hyper"@,
        Duty::Paused => "Footman — paused, your keyboard is untouched"@,
        Duty::Broken => "Footman — could not watch the keyboard"@,
    }
}

/// What a click means in a state. The pause entry of a broken Footman is a
/// manual retry: a menu item that does nothing in the one state where the
/// user most wants to act would be worse than no entry at all.
pub open spec fn resolve(d: Duty, click: Click) -> TrayEffect {
    match click {
        Click::Settings => TrayEffect::OpenSettings,
        Click::Quit => TrayEffect::Quit,
        Click::PauseOrResume => match d {
            Duty::Active => TrayEffect::Pause,
            _ => TrayEffect::Resume,
        },
    }
}

/// The mark, one character per cell of an 8×8 grid.
pub open spec fn mark_row(r: int) -> Seq<char> {
    if r == 0 || r == 1 {
        seq!['.', '#', '#', '#', '#', '#', '#', '.']
    } else if r == 3 || r == 4 {
        seq!['.', '#', '#', '#', '#', '#', '.', '.']
    } else if r == 2 || r == 5 || r == 6 {
        seq!['.', '#', '#', '.', '.', '.', '.', '.']
    } else {
        seq!['.', '.', '.', '.', '.', '.', '.', '.']
    }
}

/// Whether the cell of the mark at row `r`, column `c` is inked.
pub open spec fn marked(r: int, c: int) -> bool {
    mark_row(r)[c] == '#'
}

/// The colour the mark is drawn in: dim when paused, because it is the same
/// Footman standing down, and red when broken, because that is the only state
/// the user has to do something about.
pub open spec fn ink(d: Duty) -> Seq<u8> {
    match d {
        Duty::Active => seq![232u8, 232u8, 232u8],
        Duty::Paused => seq![122u8, 122u8, 122u8],
        Duty::Broken => seq![229u8, 72u8, 77u8],
    }
}

/// Byte `channel` of the pixel at column `x`, row `y` of the 32×32 RGBA icon:
/// the mark scaled up four times, in the state's ink, on a transparent ground.
pub open spec fn icon_byte(d: Duty, x: int, y: int, channel: int) -> u8 {
    if marked(y / 4, x / 4) {
        if channel == 3 {
            255
        } else {
            ink(d)[channel]
        }
    } else {
        0
    }
}

impl Duty {
    pub fn pause_label(self) -> (label: &'static str)
        ensures
            label@ == pause_label(self),
    {
        match self {
            Duty::Active => "Pause Footman",
            Duty::Paused => "Resume Footman",
            Duty::Broken => "Try again",
        }
    }

    pub fn tooltip(self) -> (tip: &'static str)
        ensures
            tip@ == tooltip(self),
    {
        match self {
            Duty::Active => "Footman — watching for Hyper",
            Duty::Paused => "Footman — paused, your keyboard is untouched",
            Duty::Broken => "Footman — could not watch the keyboard",
        }
    }

    pub fn resolve(self, click: Click) -> (effect: TrayEffect)
        ensures
            effect == resolve(self, click),
    {
        match click {
            Click::Settings => TrayEffect::OpenSettings,
            Click::Quit => TrayEffect::Quit,
            Click::PauseOrResume => match self {
                Duty::Active => TrayEffect::Pause,
                Duty::Paused | Duty::Broken => TrayEffect::Resume,
            },
        }
    }

    /// The icon as 32×32 RGBA, row by row.
    ///
    /// Drawn in code rather than shipped as a file: three states need three
    /// images, and a mark this simple is less trouble to draw than to keep in
    /// step with itself.
    pub fn icon(self) -> (rgba: Vec<u8>)
        ensures
            rgba@.len() == 4096,
            forall|y: int, x: int, channel: int|
                0 <= y < 32 && 0 <= x < 32 && 0 <= channel < 4 ==> #[trigger] rgba@[y * 128 + x
                    * 4 + channel] == icon_byte(self, x, y, channel),
    {
        let colour: [u8; 3] = match self {
            Duty::Active => [232, 232, 232],
            Duty::Paused => [122, 122, 122],
            Duty::Broken => [229, 72, 77],
        };
        assert(colour@ =~= ink(self));
        let mut rgba: Vec<u8> = Vec::new();
        let mut y: usize = 0;
        while y < 32
            invariant
                y <= 32,
                colour@ == ink(self),
                rgba@.len() == y * 128,
                forall|yy: int, x: int, channel: int|
                    0 <= yy < y && 0 <= x < 32 && 0 <= channel < 4 ==> #[trigger] rgba@[yy * 128
                        + x * 4 + channel] == icon_byte(self, x, yy, channel),
            decreases 32 - y,
        {
            let row = mark_cells(y / 4);
            let mut x: usize = 0;
            while x < 32
                invariant
                    y < 32,
                    x <= 32,
                    colour@ == ink(self),
                    row@ == mark_row((y / 4) as int),
                    rgba@.len() == y * 128 + x * 4,
                    forall|yy: int, xx: int, channel: int|
                        0 <= yy < y && 0 <= xx < 32 && 0 <= channel < 4 ==> #[trigger] rgba@[yy
                            * 128 + xx * 4 + channel] == icon_byte(self, xx, yy, channel),
                    forall|xx: int, channel: int|
                        0 <= xx < x && 0 <= channel < 4 ==> #[trigger] rgba@[y * 128 + xx * 4
                            + channel] == icon_byte(self, xx, y as int, channel),
                decreases 32 - x,
            {
                let ghost before = rgba@;
                if row[x / 4] == '#' {
                    rgba.push(colour[0]);
                    rgba.push(colour[1]);
                    rgba.push(colour[2]);
                    rgba.push(255);
                } else {
                    rgba.push(0);
                    rgba.push(0);
                    rgba.push(0);
                    rgba.push(0);
                }
                proof {
                    let base = y * 128 + x * 4;
                    assert forall|yy: int, xx: int, channel: int|
                        0 <= yy < y && 0 <= xx < 32 && 0 <= channel < 4 implies #[trigger] rgba@[yy
                        * 128 + xx * 4 + channel] == icon_byte(self, xx, yy, channel) by {
                        assert(yy * 128 + xx * 4 + channel < base) by (nonlinear_arith)
                            requires
                                0 <= yy < y,
                                0 <= xx < 32,
                                0 <= channel < 4,
                                base == y * 128 + x * 4,
                        ;
                        assert(rgba@[yy * 128 + xx * 4 + channel] == before[yy * 128 + xx * 4
                            + channel]);
                    }
                    assert forall|xx: int, channel: int|
                        0 <= xx < x + 1 && 0 <= channel < 4 implies #[trigger] rgba@[y * 128 + xx
                        * 4 + channel] == icon_byte(self, xx, y as int, channel) by {
                        if xx < x {
                            assert(rgba@[y * 128 + xx * 4 + channel] == before[y * 128 + xx * 4
                                + channel]);
                        }
                    }
                }
                x = x + 1;
            }
            y = y + 1;
        }
        rgba
    }
}

/// One row of the mark.
fn mark_cells(r: usize) -> (cells: [char; 8])
    requires
        r < 8,
    ensures
        cells@ == mark_row(r as int),
{
    let cells = if r == 0 || r == 1 {
        ['.', '#', '#', '#', '#', '#', '#', '.']
    } else if r == 3 || r == 4 {
        ['.', '#', '#', '#', '#', '#', '.', '.']
    } else if r == 2 || r == 5 || r == 6 {
        ['.', '#', '#', '.', '.', '.', '.', '.']
    } else {
        ['.', '.', '.', '.', '.', '.', '.', '.']
    };
    assert(cells@ =~= mark_row(r as int));
    cells
}

/// A user glancing at the tray reads the icon, not the tooltip: the three
/// states never draw the same picture, and none of them is invisible.
pub proof fn lemma_every_state_looks_different(a: Duty, b: Duty)
    requires
        a != b,
    ensures
        icon_byte(a, 4, 0, 0) != icon_byte(b, 4, 0, 0) || icon_byte(a, 4, 0, 1) != icon_byte(
            b,
            4,
            0,
            1,
        ),
        icon_byte(a, 4, 0, 3) == 255,
{
    assert(marked(0, 1));
}

/// Every state says something different, and says something: no two states
/// share a tooltip or a pause label, and none of them is empty.
pub proof fn lemma_every_state_says_something_different(a: Duty, b: Duty)
    ensures
        tooltip(a).len() > 0,
        pause_label(a).len() > 0,
        a != b ==> tooltip(a) != tooltip(b) && pause_label(a) != pause_label(b),
{
    reveal_strlit("Pause Footman");
    reveal_strlit("Resume Footman");
    reveal_strlit("Try again");
    reveal_strlit("Footman — watching for Hyper");
    reveal_strlit("Footman — paused, your keyboard is untouched");
    reveal_strlit("Footman — could not watch the keyboard");
}

/// Settings and Quit mean the same thing in every state; only the pause entry
/// changes meaning, and it resumes from every state but the working one.
pub proof fn lemma_only_the_pause_entry_changes_meaning(a: Duty, b: Duty)
    ensures
        resolve(a, Click::Settings) == resolve(b, Click::Settings),
        resolve(a, Click::Quit) == resolve(b, Click::Quit),
        resolve(a, Click::PauseOrResume) == TrayEffect::Pause <==> a == Duty::Active,
{
}

} // verus!
