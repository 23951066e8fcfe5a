//! The chat box on the screen: the messages sent so far, and below them
//! the message being typed.

use vstd::prelude::*;

use crate::input::InputType;
use crate::text::{line_views, pop_char, push_char, wrap, wrapped_lines};
use crate::ui::screen::{
    fits, in_region, lemma_region_index, lemma_tile_in_buffer, tile_column, tile_index, tile_row,
    ScreenComponent, ScreenOrigin,
};
use crate::ui::tile::{Tile, UPPER_HALF_BLOCK};
use crate::ui::Updatable;

verus! {

/// Rows from the bottom of the box to the first row of the message being
/// typed.
pub const TYPING_ROWS: usize = 3;

/// The chat box of the screen.
pub struct Chatbox {
    sent_messages: Vec<String>,
    buffered_message: String,
    display_width: usize,
    display_height: usize,
    origin: ScreenOrigin,
}

/// The messages sent once an input has been taken in: sending adds the
/// message being typed.
pub open spec fn updated_sent(sent: Seq<Seq<char>>, buffered: Seq<char>, input: InputType) -> Seq<
    Seq<char>,
> {
    if input == InputType::Send {
        sent.push(buffered)
    } else {
        sent
    }
}

/// The message being typed once an input has been taken in: a character is
/// added, Backspace takes the last one back, and sending empties it.
pub open spec fn updated_buffered(buffered: Seq<char>, input: InputType) -> Seq<char> {
    match input {
        InputType::Normal { character } => buffered.push(character),
        InputType::Backspace => if buffered.len() > 0 {
            buffered.drop_last()
        } else {
            buffered
        },
        InputType::Send => Seq::empty(),
        _ => buffered,
    }
}

/// The rows of text that the given messages take when each is wrapped to
/// the given width, one message below the other.
pub open spec fn message_rows(messages: Seq<Seq<char>>, width: usize) -> Seq<Seq<char>>
    decreases messages.len(),
{
    if messages.len() == 0 {
        Seq::empty()
    } else {
        message_rows(messages.drop_last(), width) + wrapped_lines(messages.last(), width)
    }
}

/// Whether the rows of text, with their first row in row `first` of the
/// box, have a character for the tile in column `column` and row `row`.
pub open spec fn covers(rows: Seq<Seq<char>>, first: int, column: int, row: int) -> bool {
    0 <= row - first < rows.len() && 0 <= column < rows[row - first].len()
}

/// The character that the chat box shows in column `column` and row `row`:
/// that of the message being typed where it has one, else that of the
/// messages sent where they have one, else the glyph of a picture cell.
pub open spec fn chat_content(
    sent: Seq<Seq<char>>,
    typed: Seq<Seq<char>>,
    height: int,
    column: int,
    row: int,
) -> char {
    if height >= TYPING_ROWS && covers(typed, height - TYPING_ROWS, column, row) {
        typed[row - (height - TYPING_ROWS)][column]
    } else if covers(sent, 0, column, row) {
        sent[row][column]
    } else {
        UPPER_HALF_BLOCK
    }
}

/// The tile with another character.
pub open spec fn with_content(tile: Tile, content: char) -> Tile {
    Tile {
        content,
        top_brightness: tile.top_brightness,
        bottom_brightness: tile.bottom_brightness,
    }
}

/// Whether `after` is `before` with the rows of text written into the
/// box, their first row in row `first`: a tile of the box for which the
/// rows have a character shows it, every other tile is as before. Text
/// that does not fit the box is cut off.
pub open spec fn shows_rows(
    before: Seq<Tile>,
    after: Seq<Tile>,
    origin: ScreenOrigin,
    width: int,
    height: int,
    rows: Seq<Seq<char>>,
    first: int,
) -> bool {
    &&& after.len() == before.len()
    &&& forall|index: int|
        0 <= index < before.len() ==> #[trigger] after[index] == if in_region(
            origin,
            width,
            height,
            index,
        ) && covers(rows, first, tile_column(origin, index), tile_row(origin, index)) {
            with_content(
                before[index],
                rows[tile_row(origin, index) - first][tile_column(origin, index)],
            )
        } else {
            before[index]
        }
}

/// Writes one character into the tile in column `column` and row `row` of
/// a box.
fn put(
    screen_buffer: &mut Vec<Tile>,
    origin: ScreenOrigin,
    width: usize,
    height: usize,
    column: usize,
    row: usize,
    content: char,
)
    requires
        fits(origin, width as int, height as int, old(screen_buffer)@.len() as int),
        column < width,
        row < height,
    ensures
        final(screen_buffer)@ == old(screen_buffer)@.update(
            tile_index(origin, column as int, row as int),
            with_content(old(screen_buffer)@[tile_index(origin, column as int, row as int)], content),
        ),
{
    proof {
        lemma_tile_in_buffer(
            origin,
            width as int,
            height as int,
            screen_buffer@.len() as int,
            column as int,
            row as int,
        );
    }
    let total: usize = screen_buffer.len();
    assert(tile_index(origin, column as int, row as int) < total);
    assert(origin.stride >= 1 && origin.y + row <= (origin.y + row) * origin.stride) by (nonlinear_arith)
        requires
            origin.x + width <= origin.stride,
            column < width,
            0 <= origin.y + row,
    ;
    let index: usize = (origin.y + row) * origin.stride + origin.x + column;
    let mut tile = screen_buffer[index];
    tile.content = content;
    screen_buffer.set(index, tile);
}

/// Writes rows of text into a box, the first row of the text into row
/// `first` of the box. What does not fit the box is cut off.
pub fn write_rows(
    screen_buffer: &mut Vec<Tile>,
    origin: ScreenOrigin,
    width: usize,
    height: usize,
    rows: &Vec<String>,
    first: usize,
)
    requires
        fits(origin, width as int, height as int, old(screen_buffer)@.len() as int),
    ensures
        shows_rows(
            old(screen_buffer)@,
            final(screen_buffer)@,
            origin,
            width as int,
            height as int,
            line_views(rows@),
            first as int,
        ),
{
    let ghost before = screen_buffer@;
    let ghost text = line_views(rows@);
    let mut line: usize = 0;
    while line < rows.len() && line < height && first < height - line
        invariant
            line <= rows@.len(),
            text == line_views(rows@),
            fits(origin, width as int, height as int, before.len() as int),
            shows_rows(
                before,
                screen_buffer@,
                origin,
                width as int,
                height as int,
                text.take(line as int),
                first as int,
            ),
        decreases rows@.len() - line,
    {
        let row: usize = first + line;
        let characters = rows[line].as_str();
        let length: usize = characters.unicode_len();
        let ghost start = screen_buffer@;
        let mut column: usize = 0;
        while column < length && column < width
            invariant
                column <= length,
                row == first + line,
                row < height,
                line < rows@.len(),
                text == line_views(rows@),
                characters@ == text[line as int],
                length == characters@.len(),
                screen_buffer@.len() == before.len(),
                fits(origin, width as int, height as int, before.len() as int),
                shows_rows(
                    before,
                    start,
                    origin,
                    width as int,
                    height as int,
                    text.take(line as int),
                    first as int,
                ),
                forall|index: int|
                    0 <= index < before.len() ==> #[trigger] screen_buffer@[index] == if in_region(
                        origin,
                        width as int,
                        height as int,
                        index,
                    ) && tile_row(origin, index) == row && tile_column(origin, index) < column {
                        with_content(before[index], characters@[tile_column(origin, index)])
                    } else {
                        start[index]
                    },
            decreases length - column,
        {
            let content = characters.get_char(column);
            let ghost earlier = screen_buffer@;
            proof {
                lemma_tile_in_buffer(
                    origin,
                    width as int,
                    height as int,
                    before.len() as int,
                    column as int,
                    row as int,
                );
            }
            put(screen_buffer, origin, width, height, column, row, content);
            proof {
                let target = tile_index(origin, column as int, row as int);
                assert(start[target] == before[target]);
                assert(earlier[target] == start[target]);
                assert forall|index: int| 0 <= index < before.len() implies #[trigger] screen_buffer@[index]
                    == if in_region(origin, width as int, height as int, index) && tile_row(
                    origin,
                    index,
                ) == row && tile_column(origin, index) < column + 1 {
                    with_content(before[index], characters@[tile_column(origin, index)])
                } else {
                    start[index]
                } by {
                    if index != target {
                        if in_region(origin, width as int, height as int, index) && tile_row(
                            origin,
                            index,
                        ) == row && tile_column(origin, index) == column {
                            lemma_region_index(origin, width as int, height as int, index);
                        }
                    }
                }
            }
            column = column + 1;
        }
        proof {
            let shown = text.take(line + 1);
            assert(shown.len() == line + 1);
            assert(shown[line as int] == text[line as int]);
            assert forall|index: int| 0 <= index < before.len() implies #[trigger] screen_buffer@[index]
                == if in_region(origin, width as int, height as int, index) && covers(
                shown,
                first as int,
                tile_column(origin, index),
                tile_row(origin, index),
            ) {
                with_content(
                    before[index],
                    shown[tile_row(origin, index) - first][tile_column(origin, index)],
                )
            } else {
                before[index]
            } by {
                let c = tile_column(origin, index);
                let r = tile_row(origin, index);
                if in_region(origin, width as int, height as int, index) && r - first < line && r
                    >= first {
                    assert(text.take(line as int)[r - first] == shown[r - first]);
                }
            }
        }
        line = line + 1;
    }
    proof {
        assert forall|index: int| 0 <= index < before.len() implies #[trigger] screen_buffer@[index]
            == if in_region(origin, width as int, height as int, index) && covers(
            text,
            first as int,
            tile_column(origin, index),
            tile_row(origin, index),
        ) {
            with_content(
                before[index],
                text[tile_row(origin, index) - first][tile_column(origin, index)],
            )
        } else {
            before[index]
        } by {
            let r = tile_row(origin, index);
            if in_region(origin, width as int, height as int, index) && 0 <= r - first < line {
                assert(text.take(line as int)[r - first] == text[r - first]);
            }
        }
    }
}

impl Chatbox {
    /// The messages sent so far, oldest first.
    pub closed spec fn sent(&self) -> Seq<Seq<char>> {
        line_views(self.sent_messages@)
    }

    /// The message being typed.
    pub closed spec fn buffered(&self) -> Seq<char> {
        self.buffered_message@
    }

    /// The messages sent so far, oldest first.
    pub fn sent_messages(&self) -> (messages: &Vec<String>)
        ensures
            line_views(messages@) == self.sent(),
    {
        &self.sent_messages
    }

    /// The message being typed.
    pub fn buffered_message(&self) -> (message: &str)
        ensures
            message@ == self.buffered(),
    {
        self.buffered_message.as_str()
    }

    /// Makes every tile of the box a picture cell again.
    pub fn clear_screen(&self, screen_buffer: &mut Vec<Tile>)
        requires
            fits(
                self.origin(),
                self.size().0 as int,
                self.size().1 as int,
                old(screen_buffer)@.len() as int,
            ),
        ensures
            final(screen_buffer)@.len() == old(screen_buffer)@.len(),
            forall|index: int|
                0 <= index < old(screen_buffer)@.len() ==> #[trigger] final(screen_buffer)@[index]
                    == if in_region(
                    self.origin(),
                    self.size().0 as int,
                    self.size().1 as int,
                    index,
                ) {
                    with_content(old(screen_buffer)@[index], UPPER_HALF_BLOCK)
                } else {
                    old(screen_buffer)@[index]
                },
    {
        let ghost before = screen_buffer@;
        let origin = self.origin;
        let width: usize = self.display_width;
        let height: usize = self.display_height;
        let mut row: usize = 0;
        while row < height
            invariant
                row <= height,
                origin == self.origin(),
                width == self.size().0,
                height == self.size().1,
                screen_buffer@.len() == before.len(),
                fits(origin, width as int, height as int, before.len() as int),
                forall|index: int|
                    0 <= index < before.len() ==> #[trigger] screen_buffer@[index] == if in_region(
                        origin,
                        width as int,
                        row as int,
                        index,
                    ) {
                        with_content(before[index], UPPER_HALF_BLOCK)
                    } else {
                        before[index]
                    },
            decreases height - row,
        {
            let mut column: usize = 0;
            while column < width
                invariant
                    column <= width,
                    row < height,
                    origin == self.origin(),
                    width == self.size().0,
                    height == self.size().1,
                    screen_buffer@.len() == before.len(),
                    fits(origin, width as int, height as int, before.len() as int),
                    forall|index: int|
                        0 <= index < before.len() ==> #[trigger] screen_buffer@[index]
                            == if in_region(origin, width as int, row as int, index) || (in_region(
                            origin,
                            width as int,
                            height as int,
                            index,
                        ) && tile_row(origin, index) == row && tile_column(origin, index)
                            < column) {
                            with_content(before[index], UPPER_HALF_BLOCK)
                        } else {
                            before[index]
                        },
                decreases width - column,
            {
                let ghost earlier = screen_buffer@;
                proof {
                    lemma_tile_in_buffer(
                        origin,
                        width as int,
                        height as int,
                        before.len() as int,
                        column as int,
                        row as int,
                    );
                }
                put(screen_buffer, origin, width, height, column, row, UPPER_HALF_BLOCK);
                proof {
                    let target = tile_index(origin, column as int, row as int);
                    assert(earlier[target] == before[target]);
                    assert forall|index: int| 0 <= index < before.len() implies #[trigger] screen_buffer@[index]
                        == if in_region(origin, width as int, row as int, index) || (in_region(
                        origin,
                        width as int,
                        height as int,
                        index,
                    ) && tile_row(origin, index) == row && tile_column(origin, index) < column
                        + 1) {
                        with_content(before[index], UPPER_HALF_BLOCK)
                    } else {
                        before[index]
                    } by {
                        if index != target {
                            if in_region(origin, width as int, height as int, index) && tile_row(
                                origin,
                                index,
                            ) == row && tile_column(origin, index) == column {
                                lemma_region_index(origin, width as int, height as int, index);
                            }
                        }
                    }
                }
                column = column + 1;
            }
            row = row + 1;
        }
    }

    /// The rows of text of the messages sent so far, each message wrapped
    /// to the width of the box.
    pub fn sent_rows(&self) -> (rows: Vec<String>)
        ensures
            line_views(rows@) == message_rows(self.sent(), self.size().0),
    {
        let mut rows: Vec<String> = Vec::new();
        let ghost sent = self.sent();
        let mut index: usize = 0;
        assert(sent.take(0) =~= Seq::<Seq<char>>::empty());
        assert(line_views(rows@) =~= message_rows(sent.take(0), self.display_width));
        while index < self.sent_messages.len()
            invariant
                index <= self.sent_messages@.len(),
                sent == self.sent(),
                sent.len() == self.sent_messages@.len(),
                self.display_width == self.size().0,
                line_views(rows@) == message_rows(sent.take(index as int), self.display_width),
            decreases self.sent_messages@.len() - index,
        {
            let mut wrapped = wrap(self.sent_messages[index].as_str(), self.display_width);
            let ghost before = line_views(rows@);
            let ghost added = line_views(wrapped@);
            assert(sent.take(index + 1).drop_last() =~= sent.take(index as int));
            assert(sent.take(index + 1).last() == sent[index as int]);
            rows.append(&mut wrapped);
            assert(line_views(rows@) =~= before + added);
            index = index + 1;
        }
        assert(sent.take(sent.len() as int) =~= sent);
        rows
    }

    /// Writes the messages sent so far into the box, from its first row
    /// on, each message wrapped to the width of the box.
    pub fn write_sent_messages_to_screen(&self, screen_buffer: &mut Vec<Tile>)
        requires
            fits(
                self.origin(),
                self.size().0 as int,
                self.size().1 as int,
                old(screen_buffer)@.len() as int,
            ),
        ensures
            shows_rows(
                old(screen_buffer)@,
                final(screen_buffer)@,
                self.origin(),
                self.size().0 as int,
                self.size().1 as int,
                message_rows(self.sent(), self.size().0),
                0,
            ),
    {
        let rows = self.sent_rows();
        write_rows(screen_buffer, self.origin, self.display_width, self.display_height, &rows, 0);
    }

    /// Writes the message being typed into the box, wrapped to its width,
    /// from the third row from the bottom on. A box of fewer than three
    /// rows shows none of it.
    pub fn write_buffered_message_to_screen(&self, screen_buffer: &mut Vec<Tile>)
        requires
            fits(
                self.origin(),
                self.size().0 as int,
                self.size().1 as int,
                old(screen_buffer)@.len() as int,
            ),
        ensures
            self.size().1 >= TYPING_ROWS ==> shows_rows(
                old(screen_buffer)@,
                final(screen_buffer)@,
                self.origin(),
                self.size().0 as int,
                self.size().1 as int,
                wrapped_lines(self.buffered(), self.size().0),
                self.size().1 - TYPING_ROWS,
            ),
            self.size().1 < TYPING_ROWS ==> final(screen_buffer)@ == old(screen_buffer)@,
    {
        if self.display_height < TYPING_ROWS {
            return ;
        }
        let wrapped = wrap(self.buffered_message.as_str(), self.display_width);
        write_rows(
            screen_buffer,
            self.origin,
            self.display_width,
            self.display_height,
            &wrapped,
            self.display_height - TYPING_ROWS,
        );
    }
}

impl ScreenComponent for Chatbox {
    open spec fn wf(&self) -> bool {
        true
    }

    closed spec fn origin(&self) -> ScreenOrigin {
        self.origin
    }

    closed spec fn size(&self) -> (usize, usize) {
        (self.display_width, self.display_height)
    }

    /// An empty chat box of the given size at the given origin.
    fn new(display_width: usize, display_height: usize, origin: ScreenOrigin) -> (made: Self)
        ensures
            made.size() == (display_width, display_height),
            made.sent() == Seq::<Seq<char>>::empty(),
            made.buffered() == Seq::<char>::empty(),
    {
        let made = Chatbox {
            sent_messages: Vec::new(),
            buffered_message: String::new(),
            display_width,
            display_height,
            origin,
        };
        assert(made.sent() =~= Seq::<Seq<char>>::empty());
        made
    }

    /// Draws the box: clears it, then writes the messages sent and, over
    /// them, the message being typed. The brightness of the tiles stays as
    /// it is.
    fn write_to_screen(&self, screen_buffer: &mut Vec<Tile>)
        ensures
            forall|index: int|
                0 <= index < old(screen_buffer)@.len() && in_region(
                    self.origin(),
                    self.size().0 as int,
                    self.size().1 as int,
                    index,
                ) ==> #[trigger] final(screen_buffer)@[index] == with_content(
                    old(screen_buffer)@[index],
                    chat_content(
                        message_rows(self.sent(), self.size().0),
                        wrapped_lines(self.buffered(), self.size().0),
                        self.size().1 as int,
                        tile_column(self.origin(), index),
                        tile_row(self.origin(), index),
                    ),
                ),
    {
        self.clear_screen(screen_buffer);
        let ghost cleared = screen_buffer@;
        self.write_sent_messages_to_screen(screen_buffer);
        let ghost written = screen_buffer@;
        self.write_buffered_message_to_screen(screen_buffer);
        proof {
            let sent = message_rows(self.sent(), self.size().0);
            let typed = wrapped_lines(self.buffered(), self.size().0);
            let width = self.size().0 as int;
            let height = self.size().1 as int;
            assert forall|index: int|
                0 <= index < old(screen_buffer)@.len() && in_region(
                    self.origin(),
                    width,
                    height,
                    index,
                ) implies #[trigger] screen_buffer@[index] == with_content(
                old(screen_buffer)@[index],
                chat_content(
                    sent,
                    typed,
                    height,
                    tile_column(self.origin(), index),
                    tile_row(self.origin(), index),
                ),
            ) by {
                let column = tile_column(self.origin(), index);
                let row = tile_row(self.origin(), index);
                assert(cleared[index] == with_content(old(screen_buffer)@[index], UPPER_HALF_BLOCK));
                assert(written[index] == if covers(sent, 0, column, row) {
                    with_content(cleared[index], sent[row][column])
                } else {
                    cleared[index]
                });
                assert(screen_buffer@[index] == if height >= TYPING_ROWS && covers(
                    typed,
                    height - TYPING_ROWS,
                    column,
                    row,
                ) {
                    with_content(written[index], typed[row - (height - TYPING_ROWS)][column])
                } else {
                    written[index]
                });
            }
            assert forall|index: int|
                0 <= index < old(screen_buffer)@.len() && !in_region(
                    self.origin(),
                    width,
                    height,
                    index,
                ) implies #[trigger] screen_buffer@[index] == old(screen_buffer)@[index] by {
                assert(cleared[index] == old(screen_buffer)@[index]);
                assert(written[index] == cleared[index]);
            }
        }
    }
}

impl Updatable for Chatbox {
    open spec fn ready(&self) -> bool {
        true
    }

    /// Takes in one input: a character is added to the message being
    /// typed, Backspace takes the last one back, and sending moves the
    /// message to those sent.
    fn update(&mut self, input: InputType)
        ensures
            final(self).origin() == old(self).origin(),
            final(self).size() == old(self).size(),
            final(self).sent() == updated_sent(old(self).sent(), old(self).buffered(), input),
            final(self).buffered() == updated_buffered(old(self).buffered(), input),
    {
        match input {
            InputType::Normal { character } => {
                push_char(&mut self.buffered_message, character);
            },
            InputType::Backspace => {
                let _ = pop_char(&mut self.buffered_message);
            },
            InputType::Send => {
                let ghost before = self.sent();
                let message = self.buffered_message.clone();
                self.sent_messages.push(message);
                self.buffered_message = String::new();
                assert(self.sent() =~= before.push(message@));
            },
            _ => {},
        }
    }
}

} // verus!
