use crate::event::push_char;
use crate::text::editable_text::{lemma_size_elem, EditableText, TextCursor};
use crate::text::line::{block_of, char_w, char_width, cursor_block_of, strings_view, CharPosition};
use vstd::prelude::*;
use vstd::math::min;
use vstd::string::StrSliceExecFns;

verus! {

/// How a piece of text is drawn: plainly, or as the cursor.
#[derive(Debug, Clone, Copy, PartialEq, Eq, Structural)]
pub enum BlockStyle {
    Simple,
    Cursor,
}

/// A piece of text to draw at a position of the screen.
#[derive(Debug)]
pub struct StringBlockItem {
    pub x: u16,
    pub y: u16,
    pub s: String,
    pub style: BlockStyle,
}

/// A rectangle of the screen.
#[derive(Debug, Clone, Copy, PartialEq, Eq, Structural)]
pub struct Area {
    pub x: u16,
    pub y: u16,
    pub width: u16,
    pub height: u16,
}

pub struct ItemView {
    pub x: int,
    pub y: int,
    pub s: Seq<char>,
    pub style: BlockStyle,
}

impl View for StringBlockItem {
    type V = ItemView;

    open spec fn view(&self) -> ItemView {
        ItemView { x: self.x as int, y: self.y as int, s: self.s@, style: self.style }
    }
}

pub open spec fn item_views(v: Seq<StringBlockItem>) -> Seq<ItemView> {
    v.map_values(|i: StringBlockItem| i@)
}

/// Laying out one line: the characters kept, the columns they take, the cursor
/// item if met, and whether a character did not fit.
pub struct LineLayout {
    pub s: Seq<char>,
    pub w: nat,
    pub cursor: Option<ItemView>,
    pub full: bool,
}

/// Characters `cs` laid out from column `x` of row `y`, until one would pass
/// `width` columns; the one at index `at` is the cursor when `show` holds.
pub open spec fn line_layout(cs: Seq<char>, x: int, y: int, width: nat, at: nat, show: bool) -> LineLayout
    decreases cs.len(),
{
    if cs.len() == 0 {
        LineLayout { s: seq![], w: 0, cursor: None, full: false }
    } else {
        let p = line_layout(cs.drop_last(), x, y, width, at, show);
        let c = cs.last();
        if p.full || p.w + char_w(c) > width {
            LineLayout { full: true, ..p }
        } else {
            LineLayout {
                s: p.s.push(c),
                w: p.w + char_w(c),
                cursor: if show && cs.len() - 1 == at {
                    Some(ItemView { x: x + p.w, y, s: seq![c], style: BlockStyle::Cursor })
                } else {
                    p.cursor
                },
                full: false,
            }
        }
    }
}

/// The items that draw line `line_i` of a one-line text from its character
/// `pos` on, in at most `width` columns (and `area.width` characters): the
/// text, then the cursor if it is shown on a character or after the end.
pub open spec fn line_block_of(
    line: Seq<char>,
    area: Area,
    pos: nat,
    width: nat,
    cursor_char: nat,
    show: bool,
) -> Seq<ItemView> {
    let cs = line.skip(pos as int).take(if pos <= line.len() { min(area.width as int, line.len() - pos) } else { 0 });
    let l = line_layout(cs, area.x as int, area.y as int, width, cursor_char, show);
    let text = ItemView { x: area.x as int, y: area.y as int, s: l.s, style: BlockStyle::Simple };
    let cursor = if cursor_char == line.len() && l.w < width {
        Some(ItemView { x: area.x + l.w, y: area.y as int, s: seq![' '], style: BlockStyle::Cursor })
    } else {
        l.cursor
    };
    match cursor {
        Some(c) => seq![text, c],
        None => seq![text],
    }
}

impl EditableText {
    /// Lays out line `line_i` on one row of `area`, from character `pos`.
    pub fn to_line_block(&self, area: Area, line_i: usize, pos: usize, width: u16, show_cursor: bool) -> (r: Vec<StringBlockItem>)
        requires
            self.wf(),
            line_i < self.text().len(),
            area.x + width <= u16::MAX,
        ensures
            item_views(r@) == line_block_of(self.text()[line_i as int], area, pos as nat, width as nat, self.cursor.char as nat, show_cursor),
    {
        proof {
            reveal_strlit(" ");
        }
        let line = self.lines[line_i].as_str();
        let n = line.unicode_len();
        let ghost whole = line@;
        let count: usize = if pos <= n {
            if (area.width as usize) < n - pos { area.width as usize } else { n - pos }
        } else {
            0
        };
        let ghost cs = whole.skip(pos as int).take(count as int);
        let mut line_string = String::new();
        let mut line_width: usize = 0;
        let mut cursor_block: Option<StringBlockItem> = None;
        let mut full = false;
        let mut i: usize = 0;
        assert(cs.take(0) =~= Seq::<char>::empty());
        while i < count
            invariant
                n == whole.len(),
                line@ == whole,
                count <= n,
                pos <= n || count == 0,
                count > 0 ==> pos + count <= n,
                cs == whole.skip(pos as int).take(count as int),
                i <= count,
                area.x + width <= u16::MAX,
                ({
                    let l = line_layout(cs.take(i as int), area.x as int, area.y as int, width as nat, self.cursor.char as nat, show_cursor);
                    &&& line_string@ == l.s
                    &&& line_width == l.w
                    &&& full == l.full
                    &&& match cursor_block {
                        Some(b) => l.cursor == Some(b@),
                        None => l.cursor is None,
                    }
                }),
                line_width <= width,
            decreases count - i,
        {
            assert(cs.take(i + 1).drop_last() =~= cs.take(i as int));
            let c = line.get_char(pos + i);
            assert(cs.take(i + 1).last() == c);
            let c_w = char_width(c);
            if full || line_width + c_w > width as usize {
                full = true;
            } else {
                push_char(&mut line_string, c);
                if show_cursor && i == self.cursor.char {
                    let mut s = String::new();
                    push_char(&mut s, c);
                    cursor_block = Some(StringBlockItem { x: area.x + line_width as u16, y: area.y, s, style: BlockStyle::Cursor });
                }
                line_width = line_width + c_w;
            }
            i = i + 1;
        }
        assert(cs.take(count as int) =~= cs);
        let mut ret: Vec<StringBlockItem> = Vec::new();
        let text = StringBlockItem { x: area.x, y: area.y, s: line_string, style: BlockStyle::Simple };
        ret.push(text);
        if self.cursor.char == n && line_width < width as usize {
            let mut s = String::new();
            push_char(&mut s, ' ');
            cursor_block = Some(StringBlockItem { x: area.x + line_width as u16, y: area.y, s, style: BlockStyle::Cursor });
        }
        match cursor_block {
            Some(b) => {
                ret.push(b);
                assert(item_views(ret@) =~= seq![text@, b@]);
            },
            None => {
                assert(item_views(ret@) =~= seq![text@]);
            },
        }
        ret
    }
}

/// Where the lines in view end, from line `k` on, having taken `acc` rows:
/// each line counts its width divided by the area's width, and the line that
/// brings the count to `height` is the last.
pub open spec fn area_end(ws: Seq<usize>, k: int, acc: nat, width: nat, height: nat) -> int
    decreases ws.len() - k,
{
    if k < 0 || k >= ws.len() {
        if k < 0 { 0 } else { ws.len() as int }
    } else {
        let acc2 = acc + ws[k] as nat / width;
        if acc2 >= height {
            k + 1
        } else {
            area_end(ws, k + 1, acc2, width, height)
        }
    }
}

/// Laying out lines: the items so far, the rows taken, the cursor item, and
/// whether the area is full.
pub struct BlockLayout {
    pub items: Seq<ItemView>,
    pub height: nat,
    pub cursor: Option<ItemView>,
    pub full: bool,
}

/// Graphic lines, one row each, until the area is full.
pub open spec fn glines_layout(st: BlockLayout, glines: Seq<Seq<char>>, area: Area) -> BlockLayout
    decreases glines.len(),
{
    if glines.len() == 0 {
        st
    } else {
        let p = glines_layout(st, glines.drop_last(), area);
        if p.full {
            p
        } else {
            BlockLayout {
                items: p.items.push(ItemView { x: area.x as int, y: area.y + p.height, s: glines.last(), style: BlockStyle::Simple }),
                height: p.height + 1,
                cursor: p.cursor,
                full: p.height + 1 >= area.height,
            }
        }
    }
}

/// The rows after the first `n` (none when there are not that many).
pub open spec fn skip_rows(list: Seq<Seq<char>>, n: nat) -> Seq<Seq<char>> {
    if n <= list.len() {
        list.skip(n as int)
    } else {
        seq![]
    }
}

/// One text line, the `i`-th in view: wrapped at the area's width (with the
/// cursor when it is the cursor's line), its first `gline_i` rows skipped when
/// it is the first line in view.
pub open spec fn line_step(st: BlockLayout, i: int, line: Seq<char>, area: Area, gline_i: nat, show: bool, cursor: TextCursor) -> BlockLayout {
    if st.full {
        st
    } else {
        let (list, cur) = if show && i == cursor.line {
            cursor_block_of(line, area.width as nat, cursor.char as nat)
        } else {
            (block_of(line, area.width as nat), None::<CharPosition>)
        };
        let cursor2 = match cur {
            Some(c) => if c.line < area.height {
                Some(ItemView { x: area.x + c.char, y: area.y + st.height + c.line, s: seq![c.c], style: BlockStyle::Cursor })
            } else {
                st.cursor
            },
            None => st.cursor,
        };
        let st1 = BlockLayout { cursor: cursor2, ..st };
        let st2 = if list.len() == 0 {
            BlockLayout { height: st1.height + 1, ..st1 }
        } else {
            glines_layout(st1, skip_rows(list, if i == 0 { gline_i } else { 0 }), area)
        };
        BlockLayout { full: st2.height >= area.height, ..st2 }
    }
}

pub open spec fn lines_layout(lines: Seq<Seq<char>>, area: Area, gline_i: nat, show: bool, cursor: TextCursor) -> BlockLayout
    decreases lines.len(),
{
    if lines.len() == 0 {
        BlockLayout { items: seq![], height: 0, cursor: None, full: false }
    } else {
        line_step(lines_layout(lines.drop_last(), area, gline_i, show, cursor), lines.len() - 1, lines.last(), area, gline_i, show, cursor)
    }
}

/// The items that draw the text in `area`, from line `line_i` and its row
/// `gline_i` on: the rows of text, then the cursor if shown. An empty text
/// shows only the cursor, as a blank.
pub open spec fn block_items(t: EditableText, area: Area, line_i: nat, gline_i: nat, show: bool) -> Seq<ItemView> {
    if t.text().len() == 1 && t.text()[0].len() == 0 {
        if show {
            seq![ItemView { x: area.x as int, y: area.y as int, s: seq![' '], style: BlockStyle::Cursor }]
        } else {
            seq![]
        }
    } else {
        let end = area_end(t.lines_widths@, line_i as int, 0, area.width as nat, area.height as nat);
        let l = lines_layout(t.text().subrange(line_i as int, end), area, gline_i, show, t.cursor);
        match l.cursor {
            Some(c) => l.items.push(c),
            None => l.items,
        }
    }
}

proof fn lemma_area_end_bounds(ws: Seq<usize>, k: int, acc: nat, width: nat, height: nat)
    requires
        0 <= k <= ws.len(),
        width > 0,
    ensures
        k <= area_end(ws, k, acc, width, height) <= ws.len(),
    decreases ws.len() - k,
{
    if k < ws.len() {
        let acc2 = acc + ws[k] as nat / width;
        if acc2 < height {
            lemma_area_end_bounds(ws, k + 1, acc2, width, height);
        }
    }
}

impl EditableText {
    /// Where the lines in view end, from line `line_i`, in an area of
    /// `width` by `height`.
    fn lines_from_area(&self, width: u16, height: u16, line_i: usize) -> (r: usize)
        requires
            self.wf(),
            width > 0,
            line_i <= self.lines@.len(),
        ensures
            r == area_end(self.lines_widths@, line_i as int, 0, width as nat, height as nat),
            line_i <= r <= self.lines@.len(),
    {
        let ghost ws = self.lines_widths@;
        proof {
            lemma_area_end_bounds(ws, line_i as int, 0, width as nat, height as nat);
        }
        let mut acc: usize = 0;
        let mut k = line_i;
        while k < self.lines_widths.len()
            invariant
                self.wf(),
                ws == self.lines_widths@,
                width > 0,
                line_i <= k <= ws.len(),
                acc <= u16::MAX,
                area_end(ws, line_i as int, 0, width as nat, height as nat) == area_end(ws, k as int, acc as nat, width as nat, height as nat),
            decreases ws.len() - k,
        {
            proof {
                lemma_size_elem(self.text(), k as int);
            }
            acc = acc + self.lines_widths[k] / width as usize;
            if acc >= height as usize {
                return k + 1;
            }
            k = k + 1;
        }
        k
    }
}

pub open spec fn opt_item_view(o: Option<StringBlockItem>) -> Option<ItemView> {
    match o {
        Some(i) => Some(i@),
        None => None,
    }
}

pub open spec fn layout_of(items: Seq<StringBlockItem>, height: usize, cursor: Option<StringBlockItem>, full: bool) -> BlockLayout {
    BlockLayout { items: item_views(items), height: height as nat, cursor: opt_item_view(cursor), full }
}

/// While the area is not full, its rows so far are within it (or the one row
/// of an area without rows).
pub open spec fn rows_fit(height: usize, full: bool, area: Area) -> bool {
    &&& height <= area.height || height <= 1
    &&& !full ==> (height < area.height || height == 0)
}

fn one_char(c: char) -> (r: String)
    ensures
        r@ == seq![c],
{
    let mut s = String::new();
    push_char(&mut s, c);
    assert(s@ =~= seq![c]);
    s
}

fn push_glines(
    items: &mut Vec<StringBlockItem>,
    height: &mut usize,
    full: &mut bool,
    cursor: &Option<StringBlockItem>,
    glines: Vec<String>,
    skip: usize,
    area: Area,
)
    requires
        !*old(full),
        rows_fit(*old(height), *old(full), area),
        area.y + area.height <= u16::MAX,
    ensures
        layout_of(final(items)@, *final(height), *cursor, *final(full)) == glines_layout(
            layout_of(old(items)@, *old(height), *cursor, *old(full)),
            skip_rows(strings_view(glines@), skip as nat),
            area,
        ),
        rows_fit(*final(height), *final(full), area),
{
    let ghost st0 = layout_of(items@, *height, *cursor, *full);
    let ghost rows = skip_rows(strings_view(glines@), skip as nat);
    if skip > glines.len() {
        assert(rows =~= Seq::<Seq<char>>::empty());
        return;
    }
    assert(rows.take(0) =~= Seq::<Seq<char>>::empty());
    let mut j = skip;
    while j < glines.len()
        invariant
            skip <= j <= glines@.len(),
            rows == strings_view(glines@).skip(skip as int),
            layout_of(items@, *height, *cursor, *full) == glines_layout(st0, rows.take(j - skip), area),
            rows_fit(*height, *full, area),
            area.y + area.height <= u16::MAX,
        decreases glines@.len() - j,
    {
        assert(rows.take(j - skip + 1).drop_last() =~= rows.take(j - skip));
        assert(rows.take(j - skip + 1).last() == glines@[j as int]@);
        if !*full {
            let item = StringBlockItem { x: area.x, y: area.y + *height as u16, s: glines[j].clone(), style: BlockStyle::Simple };
            let ghost before = items@;
            items.push(item);
            assert(item_views(items@) =~= item_views(before).push(item@));
            *height = *height + 1;
            *full = *height >= area.height as usize;
        }
        j = j + 1;
    }
    assert(rows.take(j - skip) =~= rows);
}

impl EditableText {
    /// Lays out the text in `area`, from line `line_i` and its row `gline_i`.
    pub fn to_block(&self, area: Area, line_i: usize, gline_i: usize, show_cursor: bool) -> (r: Vec<StringBlockItem>)
        requires
            self.wf(),
            area.width > 0,
            line_i <= self.lines@.len(),
            area.x + area.width <= u16::MAX,
            area.y + 2 * area.height <= u16::MAX,
        ensures
            item_views(r@) == block_items(*self, area, line_i as nat, gline_i as nat, show_cursor),
    {
        let mut items: Vec<StringBlockItem> = Vec::new();
        if self.is_empty() {
            if show_cursor {
                let item = StringBlockItem { x: area.x, y: area.y, s: one_char(' '), style: BlockStyle::Cursor };
                items.push(item);
                assert(item_views(items@) =~= seq![item@]);
            } else {
                assert(item_views(items@) =~= Seq::<ItemView>::empty());
            }
            return items;
        }
        let end = self.lines_from_area(area.width, area.height, line_i);
        let ghost lines = self.text().subrange(line_i as int, end as int);
        let mut height: usize = 0;
        let mut cursor_block: Option<StringBlockItem> = None;
        let mut full = false;
        let mut i: usize = 0;
        assert(lines.take(0) =~= Seq::<Seq<char>>::empty());
        assert(item_views(items@) =~= Seq::<ItemView>::empty());
        while i < end - line_i
            invariant
                self.wf(),
                line_i <= end <= self.lines@.len(),
                lines == self.text().subrange(line_i as int, end as int),
                i <= end - line_i,
                layout_of(items@, height, cursor_block, full) == lines_layout(lines.take(i as int), area, gline_i as nat, show_cursor, self.cursor),
                rows_fit(height, full, area),
                area.width > 0,
                area.x + area.width <= u16::MAX,
                area.y + 2 * area.height <= u16::MAX,
            decreases end - line_i - i,
        {
            assert(lines.take(i + 1).drop_last() =~= lines.take(i as int));
            assert(lines.take(i + 1).last() == self.text()[line_i + i]);
            if !full {
                let line = &self.lines[line_i + i];
                let ghost lv = line@;
                let (list, cur) = if show_cursor && i == self.cursor.line {
                    line.to_cursor_block(area.width, self.cursor.char)
                } else {
                    (line.to_block(area.width), None)
                };
                match cur {
                    Some(c) => {
                        if c.line < area.height as usize {
                            proof {
                                if (self.cursor.char as nat) < lv.len() {
                                    let t = lv.take(self.cursor.char + 1);
                                    assert(t.drop_last() =~= lv.take(self.cursor.char as int));
                                    assert(t.last() == lv[self.cursor.char as int]);
                                }
                            }
                            let item = StringBlockItem {
                                x: area.x + c.char as u16,
                                y: area.y + height as u16 + c.line as u16,
                                s: one_char(c.c),
                                style: BlockStyle::Cursor,
                            };
                            cursor_block = Some(item);
                        }
                    },
                    None => {},
                }
                if list.len() == 0 {
                    height = height + 1;
                } else {
                    let skip = if i == 0 { gline_i } else { 0 };
                    push_glines(&mut items, &mut height, &mut full, &cursor_block, list, skip, area);
                }
                full = height >= area.height as usize;
            }
            i = i + 1;
        }
        assert(lines.take(i as int) =~= lines);
        match cursor_block {
            Some(b) => {
                let ghost before = items@;
                items.push(b);
                assert(item_views(items@) =~= item_views(before).push(b@));
            },
            None => {},
        }
        items
    }
}

} // verus!
