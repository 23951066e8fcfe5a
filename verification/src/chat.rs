//! The chat box: the lines received so far and the line being typed.

use std::collections::VecDeque;
use vstd::prelude::*;

use crate::layout::Drawable;
use crate::text::{line_views, push_char, wrap, wrapped_lines};

pub mod command;
pub mod error;

verus! {

/// Cells between the border of the chat box and its text, on the left and
/// on the right.
pub const PADDING: u16 = 1;

/// The character of the line between the received lines and the line
/// being typed.
pub const DIVIDER: char = '\u{2500}';

/// The character that clears a cell.
pub const SPACE: char = ' ';

/// The mark in front of the line being typed.
pub const TYPING_INDICATOR: char = '>';

/// The chat box: a bordered panel with the lines received so far above the
/// line being typed.
pub struct Chatbox {
    x: u16,
    y: u16,
    width: u16,
    height: u16,
    lines_buffer: VecDeque<String>,
    pub(crate) typing_buffer: String,
}

/// The last `limit` of the given lines, or all of them if there are fewer.
pub open spec fn last_lines(lines: Seq<Seq<char>>, limit: int) -> Seq<Seq<char>> {
    if lines.len() > limit {
        lines.subrange(lines.len() - limit, lines.len() as int)
    } else {
        lines
    }
}

/// The characters in a line of a box of the given width: what is left
/// after the border and the padding on both sides.
pub open spec fn text_columns(width: u16) -> usize {
    if width >= 4 {
        (width - 4) as usize
    } else {
        0
    }
}

impl Chatbox {
    /// Left edge, top edge, width and height of the box, border included.
    pub closed spec fn bounds_spec(&self) -> (u16, u16, u16, u16) {
        (self.x, self.y, self.width, self.height)
    }

    /// The lines received so far, oldest first.
    pub closed spec fn lines(&self) -> Seq<Seq<char>> {
        line_views(self.lines_buffer@)
    }

    /// The line being typed.
    pub closed spec fn typing(&self) -> Seq<char> {
        self.typing_buffer@
    }

    /// An empty chat box at `(x, y)` of the given size.
    pub fn new(x: u16, y: u16, width: u16, height: u16) -> (chatbox: Self)
        ensures
            chatbox.bounds_spec() == (x, y, width, height),
            chatbox.lines() == Seq::<Seq<char>>::empty(),
            chatbox.typing() == Seq::<char>::empty(),
    {
        let capacity: usize = if height >= 2 {
            (height - 2) as usize
        } else {
            0
        };
        let lines_buffer: VecDeque<String> = VecDeque::with_capacity(capacity);
        let typing_buffer = String::new();
        let chatbox = Chatbox { x, y, width, height, lines_buffer, typing_buffer };
        assert(chatbox.lines() =~= Seq::<Seq<char>>::empty());
        chatbox
    }

    /// The characters that fit in one line of the box.
    pub fn line_width(&self) -> (columns: usize)
        ensures
            columns == text_columns(self.bounds_spec().2),
    {
        if self.width >= 2 * (PADDING + 1) {
            (self.width - 2 * (PADDING + 1)) as usize
        } else {
            0
        }
    }

    /// The line being typed.
    pub fn typing_buffer(&self) -> (line: &str)
        ensures
            line@ == self.typing(),
    {
        self.typing_buffer.as_str()
    }

    /// The number of lines kept.
    pub fn line_count(&self) -> (count: usize)
        ensures
            count == self.lines().len(),
    {
        self.lines_buffer.len()
    }

    /// The kept line with the given number, oldest first.
    pub fn line(&self, index: usize) -> (line: &str)
        requires
            index < self.lines().len(),
        ensures
            line@ == self.lines()[index as int],
    {
        self.lines_buffer[index].as_str()
    }

    /// Takes in a received message: wraps it to the width of the box, adds
    /// its lines below those kept, and keeps the last lines, as many as the
    /// box is high.
    pub fn receive_message(&mut self, message: String)
        ensures
            final(self).bounds_spec() == old(self).bounds_spec(),
            final(self).typing() == old(self).typing(),
            final(self).lines() == last_lines(
                old(self).lines() + wrapped_lines(
                    message@,
                    text_columns(old(self).bounds_spec().2),
                ),
                old(self).bounds_spec().3 as int,
            ),
    {
        let wrapped = wrap(message.as_str(), self.line_width());
        self.push_lines(&wrapped);
    }

    /// Adds lines below those kept, and keeps the last lines, as many as
    /// the box is high.
    pub fn push_lines(&mut self, wrapped: &Vec<String>)
        ensures
            final(self).bounds_spec() == old(self).bounds_spec(),
            final(self).typing() == old(self).typing(),
            final(self).lines() == last_lines(
                old(self).lines() + line_views(wrapped@),
                old(self).bounds_spec().3 as int,
            ),
    {
        let ghost added = line_views(wrapped@);
        let ghost kept = self.lines();
        let mut index: usize = 0;
        while index < wrapped.len()
            invariant
                index <= wrapped@.len(),
                added == line_views(wrapped@),
                self.lines() == kept + added.take(index as int),
                self.bounds_spec() == old(self).bounds_spec(),
                self.typing() == old(self).typing(),
            decreases wrapped@.len() - index,
        {
            let line = wrapped[index].clone();
            assert(line@ == added[index as int]);
            let ghost before = self.lines_buffer@;
            self.lines_buffer.push_back(line);
            assert(self.lines_buffer@ == before.push(line));
            assert(self.lines() =~= line_views(before).push(line@));
            assert(self.lines() =~= kept + added.take(index + 1));
            index = index + 1;
        }
        assert(added.take(wrapped@.len() as int) =~= added);
        let ghost all = kept + added;
        let limit: usize = self.height as usize;
        while self.lines_buffer.len() > limit
            invariant
                limit == self.bounds_spec().3,
                self.lines().len() <= all.len(),
                self.lines() == all.subrange(all.len() - self.lines().len(), all.len() as int),
                all.len() > limit ==> self.lines().len() >= limit,
                all.len() <= limit ==> self.lines().len() == all.len(),
                self.bounds_spec() == old(self).bounds_spec(),
                self.typing() == old(self).typing(),
            decreases self.lines().len(),
        {
            let ghost before = self.lines();
            let ghost buffer = self.lines_buffer@;
            let _ = self.lines_buffer.pop_front();
            assert(self.lines_buffer@ == buffer.subrange(1, buffer.len() as int));
            assert(self.lines() =~= before.drop_first());
            assert(self.lines() =~= all.subrange(
                all.len() - self.lines().len(),
                all.len() as int,
            ));
        }
        assert(self.lines() =~= last_lines(all, limit as int));
    }
}

impl Drawable for Chatbox {
    open spec fn bounds(&self) -> (u16, u16, u16, u16) {
        self.bounds_spec()
    }

    fn x(&self) -> (x: u16) {
        self.x
    }

    fn y(&self) -> (y: u16) {
        self.y
    }

    fn width(&self) -> (width: u16) {
        self.width
    }

    fn height(&self) -> (height: u16) {
        self.height
    }
}

/// A piece of text at a place on the screen.
#[derive(Debug, Clone, PartialEq, Eq)]
pub struct TextAt {
    pub column: u16,
    pub row: u16,
    pub text: String,
}

/// Column, row and characters of each piece of text.
pub open spec fn placements(list: Seq<TextAt>) -> Seq<(u16, u16, Seq<char>)> {
    Seq::new(list.len(), |i: int| (list[i].column, list[i].row, list[i].text@))
}

/// The given character, `count` times.
pub open spec fn repeated(character: char, count: int) -> Seq<char> {
    Seq::new(count as nat, |i: int| character)
}

/// The smaller of two numbers.
pub open spec fn at_most(value: int, limit: int) -> int {
    if value < limit {
        value
    } else {
        limit
    }
}

/// What the line being typed looks like before it is wrapped: the typing
/// indicator, a space, and the line.
pub open spec fn typing_text(typing: Seq<char>) -> Seq<char> {
    seq![TYPING_INDICATOR, SPACE] + typing
}

/// What is drawn inside a chat box, in drawing order. First every row
/// inside the border is blanked. The last rows hold the line being typed,
/// wrapped; above it lies the divider; above the divider the newest of the
/// received lines, as many as there are rows left. Of a typed text with
/// more lines than fit below the first row and the divider, the last lines
/// are drawn. A box of fewer than four columns or three rows shows nothing.
pub open spec fn draw_list(
    bounds: (u16, u16, u16, u16),
    history: Seq<Seq<char>>,
    typing: Seq<Seq<char>>,
) -> Seq<(u16, u16, Seq<char>)> {
    let (x, y, width, height) = bounds;
    if width < 4 || height < 3 {
        Seq::empty()
    } else {
        let columns = width - 4;
        let left = (x + 2) as u16;
        let shown = at_most(typing.len() as int, height - 3);
        let kept = at_most(history.len() as int, height - 3 - shown);
        Seq::new(
            (height - 2) as nat,
            |i: int| (left, (y + 1 + i) as u16, repeated(SPACE, columns)),
        ) + Seq::new(
            shown as nat,
            |i: int| (left, (y + height - 1 - shown + i) as u16, typing[typing.len() - shown + i]),
        ) + seq![(left, (y + height - 2 - shown) as u16, repeated(DIVIDER, columns))] + Seq::new(
            kept as nat,
            |i: int| (left, (y + 1 + i) as u16, history[history.len() - kept + i]),
        )
    }
}

/// A string of `count` times the given character.
fn repeat(character: char, count: usize) -> (text: String)
    ensures
        text@ == repeated(character, count as int),
{
    let mut text = String::new();
    let mut done: usize = 0;
    while done < count
        invariant
            done <= count,
            text@ == repeated(character, done as int),
        decreases count - done,
    {
        push_char(&mut text, character);
        done = done + 1;
        assert(text@ =~= repeated(character, done as int));
    }
    text
}

impl Chatbox {
    /// Computes what is to be drawn inside the border of the box; see
    /// `draw_list`. The box must lie within the screen's coordinates.
    pub fn draw(&self) -> (list: Vec<TextAt>)
        requires
            self.bounds_spec().0 + self.bounds_spec().2 <= 0x1_0000,
            self.bounds_spec().1 + self.bounds_spec().3 <= 0x1_0000,
        ensures
            placements(list@) == draw_list(
                self.bounds_spec(),
                self.lines(),
                wrapped_lines(typing_text(self.typing()), text_columns(self.bounds_spec().2)),
            ),
    {
        let typing_buffer = String::from_str("> ").concat(self.typing_buffer.as_str());
        proof {
            reveal_strlit("> ");
            assert(typing_buffer@ =~= typing_text(self.typing()));
        }
        let typing_lines = wrap(typing_buffer.as_str(), self.line_width());
        self.draw_lines(&typing_lines)
    }

    /// Computes what is to be drawn inside the border of the box, given the
    /// lines that the text being typed wraps into; see `draw_list`. The box
    /// must lie within the screen's coordinates.
    pub fn draw_lines(&self, typing_lines: &Vec<String>) -> (list: Vec<TextAt>)
        requires
            self.bounds_spec().0 + self.bounds_spec().2 <= 0x1_0000,
            self.bounds_spec().1 + self.bounds_spec().3 <= 0x1_0000,
        ensures
            placements(list@) == draw_list(
                self.bounds_spec(),
                self.lines(),
                line_views(typing_lines@),
            ),
    {
        let mut list: Vec<TextAt> = Vec::new();
        if self.width < 4 || self.height < 3 {
            assert(placements(list@) =~= Seq::empty());
            return list;
        }
        let columns: usize = self.line_width();
        let left: u16 = self.x + PADDING + 1;
        let ghost typing = line_views(typing_lines@);
        let ghost history = self.lines();
        let ghost wanted = draw_list(self.bounds_spec(), history, typing);
        let room: usize = (self.height - 3) as usize;
        let shown: usize = if typing_lines.len() < room {
            typing_lines.len()
        } else {
            room
        };
        let available: usize = room - shown;
        let kept: usize = if self.lines_buffer.len() < available {
            self.lines_buffer.len()
        } else {
            available
        };
        let interior: u16 = self.height - 2;

        let mut i: u16 = 0;
        while i < interior
            invariant
                i <= interior,
                interior == self.height - 2,
                self.height >= 3,
                self.y + self.height <= 0x1_0000,
                left == self.x + 2,
                columns == self.width - 4,
                list@.len() == i,
                forall|k: int|
                    0 <= k < i ==> #[trigger] placements(list@)[k] == (
                        left,
                        (self.y + 1 + k) as u16,
                        repeated(SPACE, columns as int),
                    ),
            decreases interior - i,
        {
            let ghost before = placements(list@);
            list.push(TextAt { column: left, row: self.y + 1 + i, text: repeat(SPACE, columns) });
            assert forall|k: int| 0 <= k < i + 1 implies #[trigger] placements(list@)[k] == (
                left,
                (self.y + 1 + k) as u16,
                repeated(SPACE, columns as int),
            ) by {
                if k < i {
                    assert(placements(list@)[k] == before[k]);
                }
            }
            i = i + 1;
        }
        let ghost blanks = placements(list@);
        let first_typing: u16 = self.y + (self.height - 1 - (shown as u16));
        let typing_count: usize = typing_lines.len();
        let skipped: usize = typing_count - shown;
        let mut j: usize = 0;
        while j < shown
            invariant
                j <= shown,
                shown <= room,
                room == self.height - 3,
                self.height >= 3,
                self.y + self.height <= 0x1_0000,
                first_typing == self.y + self.height - 1 - shown,
                typing_count == typing_lines@.len(),
                skipped + shown == typing_count,
                typing == line_views(typing_lines@),
                list@.len() == interior + j,
                placements(list@).take(interior as int) == blanks,
                forall|k: int|
                    0 <= k < j ==> #[trigger] placements(list@)[interior + k] == (
                        left,
                        (first_typing + k) as u16,
                        typing[skipped + k],
                    ),
            decreases shown - j,
        {
            let ghost before = placements(list@);
            let text = typing_lines[skipped + j].clone();
            list.push(TextAt { column: left, row: first_typing + (j as u16), text });
            assert(placements(list@).take(interior as int) =~= before.take(interior as int));
            assert forall|k: int| 0 <= k < j + 1 implies #[trigger] placements(list@)[interior + k] == (
                left,
                (first_typing + k) as u16,
                typing[skipped + k],
            ) by {
                if k < j {
                    assert(placements(list@)[interior + k] == before[interior + k]);
                }
            }
            j = j + 1;
        }
        let ghost typed = placements(list@);
        list.push(
            TextAt { column: left, row: first_typing - 1, text: repeat(DIVIDER, columns) },
        );
        let ghost divided = placements(list@);
        assert(divided.take(interior + shown) =~= typed);
        let history_count: usize = self.lines_buffer.len();
        let dropped: usize = history_count - kept;
        let mut k: usize = 0;
        while k < kept
            invariant
                k <= kept,
                kept <= available,
                available == room - shown,
                shown <= room,
                room == self.height - 3,
                self.height >= 3,
                self.y + self.height <= 0x1_0000,
                history_count == self.lines_buffer@.len(),
                dropped + kept == history_count,
                history == self.lines(),
                history.len() == self.lines_buffer@.len(),
                list@.len() == interior + shown + 1 + k,
                placements(list@).take(interior + shown + 1) == divided,
                forall|n: int|
                    0 <= n < k ==> #[trigger] placements(list@)[interior + shown + 1 + n] == (
                        left,
                        (self.y + 1 + n) as u16,
                        history[dropped + n],
                    ),
            decreases kept - k,
        {
            let ghost before = placements(list@);
            let text = self.lines_buffer[dropped + k].clone();
            list.push(TextAt { column: left, row: self.y + 1 + (k as u16), text });
            assert(placements(list@).take(interior + shown + 1) =~= before.take(
                interior + shown + 1,
            ));
            assert forall|n: int| 0 <= n < k + 1 implies #[trigger] placements(list@)[interior
                + shown + 1 + n] == (left, (self.y + 1 + n) as u16, history[dropped + n]) by {
                if n < k {
                    assert(placements(list@)[interior + shown + 1 + n] == before[interior + shown
                        + 1 + n]);
                }
            }
            k = k + 1;
        }
        proof {
            let got = placements(list@);
            assert(got.len() == wanted.len());
            assert forall|n: int| 0 <= n < got.len() implies got[n] == wanted[n] by {
                if n < interior {
                    assert(got[n] == got.take(interior + shown + 1)[n]);
                    assert(divided[n] == divided.take(interior + shown)[n]);
                    assert(typed[n] == typed.take(interior as int)[n]);
                } else if n < interior + shown {
                    assert(got[n] == got.take(interior + shown + 1)[n]);
                    assert(divided[n] == divided.take(interior + shown)[n]);
                    assert(typed[n] == typed[interior + (n - interior)]);
                } else if n == interior + shown {
                    assert(got[n] == got.take(interior + shown + 1)[n]);
                } else {
                    assert(got[n] == got[interior + shown + 1 + (n - interior - shown - 1)]);
                }
            }
            assert(got =~= wanted);
        }
        list
    }
}

} // verus!
