//! The screen as a buffer of tiles, and the components that write to it.

use vstd::prelude::*;

use crate::input::InputType;
use crate::ui::screen::Screen;
use crate::ui::tile::StyledTile;

pub mod chatbox;
pub mod screen;
pub mod tile;
pub mod video;

verus! {

/// Milliseconds from one refresh of the screen to the next.
pub const FRAME_DURATION_MS: u64 = 30;

/// Something that changes with the user's input.
pub trait Updatable {
    /// Whether the thing is in a state to take input.
    spec fn ready(&self) -> bool;

    /// Takes in one input.
    fn update(&mut self, input: InputType)
        requires
            old(self).ready(),
        ensures
            final(self).ready(),
    ;
}

/// The lines that a buffer of tiles is printed as: the tiles in rows of
/// `width`, each tile as it is styled. The last line holds what is left. A
/// width of zero gives no lines.
pub open spec fn printed_lines(tiles: Seq<crate::ui::tile::Tile>, width: int) -> Seq<
    Seq<StyledTile>,
> {
    if width <= 0 {
        Seq::empty()
    } else {
        Seq::new(
            ((tiles.len() + width - 1) / width) as nat,
            |row: int|
                Seq::new(
                    (if (row + 1) * width <= tiles.len() {
                        width
                    } else {
                        tiles.len() - row * width
                    }) as nat,
                    |column: int| tiles[row * width + column].styled_spec(),
                ),
        )
    }
}

/// The characters of each line with their styles.
pub open spec fn line_tiles(lines: Seq<Vec<StyledTile>>) -> Seq<Seq<StyledTile>> {
    Seq::new(lines.len(), |i: int| lines[i]@)
}

/// Something that can be printed to a terminal, line by line.
pub trait Printable {
    /// The lines to print.
    spec fn printed(&self) -> Seq<Seq<StyledTile>>;

    /// Computes the lines to print, from the top of the terminal down.
    fn print(&self) -> (lines: Vec<Vec<StyledTile>>)
        ensures
            line_tiles(lines@) == self.printed(),
    ;
}

/// The user interface: one screen.
pub struct Ui {
    screen: Screen,
}

impl Ui {
    /// The screen of the interface.
    pub closed spec fn view_screen(&self) -> Screen {
        self.screen
    }

    /// An interface for a terminal of the given size, or `None` if the
    /// terminal is too small for the screen's components.
    pub fn new(columns: usize, rows: usize) -> (ui: Option<Self>)
        ensures
            ui is Some <==> Screen::has_room(columns, rows),
            ui matches Some(made) ==> made.view_screen().wf(),
    {
        match Screen::new(columns, rows) {
            Some(screen) => Some(Ui { screen }),
            None => None,
        }
    }

    /// The screen of the interface.
    pub fn screen(&self) -> (screen: &Screen)
        ensures
            *screen == self.view_screen(),
    {
        &self.screen
    }

}

impl Printable for Ui {
    open spec fn printed(&self) -> Seq<Seq<StyledTile>> {
        self.view_screen().printed()
    }

    fn print(&self) -> (lines: Vec<Vec<StyledTile>>) {
        self.screen.print()
    }
}

impl Updatable for Ui {
    open spec fn ready(&self) -> bool {
        self.view_screen().wf()
    }

    /// Hands one input to the screen, which takes it in and redraws the
    /// component that it concerns; see `Screen::updated`.
    fn update(&mut self, input: InputType)
        ensures
            old(self).view_screen().updated(input, final(self).view_screen()),
    {
        self.screen.update(input);
    }
}

} // verus!
