use crate::text::editable_text::{split_lines, EditableText, TextCursor, TEXT_LIMIT, height_of};
use crate::text::block::{block_items, item_views, line_block_of, Area, ItemView, StringBlockItem};
use crate::text::line::width_of;
use vstd::prelude::*;

verus! {

/// Where the view of a text starts: a line, a row within the wrapped text,
/// and a column (for one-line texts).
#[derive(Debug, Clone, Copy, PartialEq, Eq, Structural)]
pub struct ViewPosition {
    pub line: usize,
    pub gline: usize,
    pub char: usize,
}

/// A text widget: an editable text and the part of it in view.
#[derive(Debug)]
pub struct Text {
    pub text: EditableText,
    pub view_pos: ViewPosition,
    pub show_cursor: bool,
    pub one_line: bool,
}

/// An area that can be drawn in: some width, and coordinates that stay on
/// the screen.
pub open spec fn drawable(area: Area) -> bool {
    area.width > 0 && area.x + area.width <= 0xffff && area.y + 2 * area.height <= 0xffff
}

/// The items that draw a text widget in `area` from where its view stands.
pub open spec fn text_layout(t: Text, area: Area) -> Seq<ItemView> {
    if !drawable(area) {
        seq![]
    } else if t.one_line {
        line_block_of(
            t.text.text()[t.text.cursor.line as int],
            area,
            t.view_pos.char as nat,
            area.width as nat,
            t.text.cursor.char as nat,
            t.show_cursor,
        )
    } else {
        block_items(
            t.text,
            area,
            if t.view_pos.line <= t.text.text().len() { t.view_pos.line as nat } else { t.text.text().len() },
            t.view_pos.gline as nat,
            t.show_cursor,
        )
    }
}

impl Text {
    pub fn new(text: &str) -> (r: Text)
        requires
            text@.len() + 1 <= TEXT_LIMIT,
        ensures
            r.text.wf(),
            r.text.text() == split_lines(text@),
            r.text.cursor == (TextCursor { line: 0, char: 0 }),
            r.view_pos == (ViewPosition { line: 0, gline: 0, char: 0 }),
            !r.show_cursor,
            !r.one_line,
    {
        Text {
            text: EditableText::new(text),
            view_pos: ViewPosition { line: 0, gline: 0, char: 0 },
            show_cursor: false,
            one_line: false,
        }
    }

    pub fn set_text(&mut self, text: &str)
        requires
            text@.len() + 1 <= TEXT_LIMIT,
        ensures
            final(self).text.wf(),
            final(self).text.text() == split_lines(text@),
            final(self).view_pos == old(self).view_pos,
            final(self).show_cursor == old(self).show_cursor,
            final(self).one_line == old(self).one_line,
    {
        self.text.set_text(text);
    }

    /// Rows the text takes at `width` columns.
    pub fn height(&self, width: u16) -> (r: usize)
        requires
            self.text.wf(),
            width > 0,
        ensures
            r == height_of(self.text.lines_widths@, width as nat),
    {
        self.text.height(width)
    }

    /// Moves the view so that the cursor is in an area of `width` by `height`:
    /// by columns for a one-line text, by wrapped rows otherwise.
    pub fn fix_view_pos(&mut self, width: u16, height: u16, one_line: bool)
        requires
            old(self).text.wf(),
            width > 0,
        ensures
            final(self).text == old(self).text,
            final(self).show_cursor == old(self).show_cursor,
            final(self).one_line == old(self).one_line,
            final(self).view_pos.line == old(self).view_pos.line,
            one_line ==> final(self).view_pos.gline == old(self).view_pos.gline && final(self).view_pos.char == {
                let c = old(self).text.cursor.char;
                let v = old(self).view_pos.char;
                if v > c {
                    c
                } else if v + width < c {
                    (c - width) as usize
                } else {
                    v
                }
            },
            !one_line ==> final(self).view_pos.char == old(self).view_pos.char && final(self).view_pos.gline == {
                let g = ((width_of(old(self).text.current().take(old(self).text.cursor.char as int)) + width - 1) / (width as int)) as usize;
                let v = old(self).view_pos.gline;
                if v > g {
                    g
                } else if v + height < g {
                    (g - height) as usize
                } else {
                    v
                }
            },
    {
        if one_line {
            let c = self.text.cursor.char;
            if self.view_pos.char > c {
                self.view_pos.char = c;
            } else if c - self.view_pos.char > width as usize {
                self.view_pos.char = c - width as usize;
            }
        } else {
            let cursor_gline = self.text.cursor_graphic_line(width);
            if self.view_pos.gline > cursor_gline {
                self.view_pos.gline = cursor_gline;
            } else if cursor_gline - self.view_pos.gline > height as usize {
                self.view_pos.gline = cursor_gline - height as usize;
            }
        }
    }

    /// Follows the cursor with the view, then lays the text out in `area`:
    /// on one row from the view's column for a one-line text, else from the
    /// view's line and row. An area without width, or reaching past the
    /// screen's coordinates, shows nothing.
    pub fn layout(&mut self, area: Area) -> (r: Vec<StringBlockItem>)
        requires
            old(self).text.wf(),
        ensures
            final(self).text == old(self).text,
            final(self).one_line == old(self).one_line,
            final(self).show_cursor == old(self).show_cursor,
            final(self).view_pos.line == old(self).view_pos.line,
            item_views(r@) == text_layout(*final(self), area),
    {
        if area.width == 0 || area.x as u32 + area.width as u32 > 0xffff || area.y as u32 + 2 * area.height as u32 > 0xffff {
            let r = Vec::new();
            assert(item_views(r@) =~= Seq::<ItemView>::empty());
            return r;
        }
        let one_line = self.one_line;
        self.fix_view_pos(area.width, area.height, one_line);
        if one_line {
            self.text.to_line_block(area, self.text.cursor.line, self.view_pos.char, area.width, self.show_cursor)
        } else {
            let line_i = if self.view_pos.line <= self.text.lines.len() { self.view_pos.line } else { self.text.lines.len() };
            self.text.to_block(area, line_i, self.view_pos.gline, self.show_cursor)
        }
    }
}

} // verus!
