use crate::event::push_char;
use crate::text::line::{lemma_width_push, width_of, Line};
use vstd::prelude::*;
use vstd::math::min;
use vstd::string::StrSliceExecFns;

verus! {

/// Bound on the size of a text (characters plus lines), so that its widths and
/// heights fit in `usize`.
pub const TEXT_LIMIT: usize = usize::MAX / 8;

#[derive(Debug, Clone, Copy, PartialEq, Eq, Structural)]
pub struct TextCursor {
    pub line: usize,
    pub char: usize,
}

/// A text being edited: its lines, the width of each, and a cursor.
#[derive(Debug)]
pub struct EditableText {
    pub lines: Vec<Line>,
    pub lines_widths: Vec<usize>,
    pub cursor: TextCursor,
    pub allow_cursor_over_limit: bool,
}

/// Characters plus line count.
pub open spec fn text_size(t: Seq<Seq<char>>) -> nat
    decreases t.len(),
{
    if t.len() == 0 {
        0
    } else {
        text_size(t.drop_last()) + t.last().len() + 1
    }
}

/// The lines of a text: cut at each `'\n'`.
pub open spec fn split_lines(s: Seq<char>) -> Seq<Seq<char>>
    decreases s.len(),
{
    if s.len() == 0 {
        seq![Seq::<char>::empty()]
    } else {
        let p = split_lines(s.drop_last());
        if s.last() == '\n' {
            p.push(Seq::<char>::empty())
        } else {
            p.update(p.len() - 1, p.last().push(s.last()))
        }
    }
}

/// Lines joined with `'\n'` between them.
pub open spec fn join_lines(t: Seq<Seq<char>>) -> Seq<char>
    decreases t.len(),
{
    if t.len() == 0 {
        Seq::empty()
    } else if t.len() == 1 {
        t[0]
    } else {
        join_lines(t.drop_last()) + seq!['\n'] + t.last()
    }
}

/// Line heights at `width` columns (at least one each), summed.
pub open spec fn height_of(ws: Seq<usize>, width: nat) -> nat
    decreases ws.len(),
{
    if ws.len() == 0 {
        0
    } else {
        let h = (ws.last() + width - 1) as nat / width;
        height_of(ws.drop_last(), width) + if h < 1 { 1 } else { h }
    }
}

pub proof fn lemma_split_lines(s: Seq<char>)
    ensures
        split_lines(s).len() >= 1,
        text_size(split_lines(s)) == s.len() + 1,
    decreases s.len(),
{
    if s.len() == 0 {
        assert(seq![Seq::<char>::empty()].drop_last() =~= Seq::<Seq<char>>::empty());
        assert(text_size(Seq::<Seq<char>>::empty()) == 0);
    } else {
        let p = split_lines(s.drop_last());
        lemma_split_lines(s.drop_last());
        if s.last() != '\n' {
            lemma_size_update(p, p.len() - 1, p.last().push(s.last()));
            assert(split_lines(s) == p.update(p.len() - 1, p.last().push(s.last())));
            assert(text_size(split_lines(s)) == s.len() + 1);
        } else {
            assert(p.push(Seq::<char>::empty()).drop_last() =~= p);
            assert(split_lines(s) == p.push(Seq::<char>::empty()));
            assert(text_size(p.push(Seq::<char>::empty())) == text_size(p) + 1);
            assert(text_size(split_lines(s)) == s.len() + 1);
        }
    }
}

/// Splitting a text into lines and joining them back gives the text.
pub proof fn lemma_join_split(s: Seq<char>)
    ensures
        join_lines(split_lines(s)) == s,
    decreases s.len(),
{
    if s.len() > 0 {
        let p = split_lines(s.drop_last());
        lemma_join_split(s.drop_last());
        lemma_split_lines(s.drop_last());
        if s.last() == '\n' {
            assert(p.push(Seq::<char>::empty()).drop_last() =~= p);
            assert(s =~= s.drop_last() + seq!['\n'] + Seq::<char>::empty());
        } else {
            let q = p.update(p.len() - 1, p.last().push(s.last()));
            if p.len() == 1 {
                assert(s =~= s.drop_last().push(s.last()));
            } else {
                assert(q.drop_last() =~= p.drop_last());
                assert(join_lines(p) == join_lines(p.drop_last()) + seq!['\n'] + p.last());
                assert(q.last() == p.last().push(s.last()));
                assert(s =~= s.drop_last().push(s.last()));
                assert(s.drop_last() == join_lines(p));
                assert(s =~= join_lines(p.drop_last()) + seq!['\n'] + p.last().push(s.last()));
            }
        }
    }
}

pub proof fn lemma_size_update(t: Seq<Seq<char>>, i: int, x: Seq<char>)
    requires
        0 <= i < t.len(),
    ensures
        text_size(t.update(i, x)) + t[i].len() == text_size(t) + x.len(),
    decreases t.len(),
{
    if i < t.len() - 1 {
        assert(t.update(i, x).drop_last() =~= t.drop_last().update(i, x));
        lemma_size_update(t.drop_last(), i, x);
    } else {
        assert(t.update(i, x).drop_last() =~= t.drop_last());
    }
}

pub proof fn lemma_size_insert(t: Seq<Seq<char>>, i: int, x: Seq<char>)
    requires
        0 <= i <= t.len(),
    ensures
        text_size(t.insert(i, x)) == text_size(t) + x.len() + 1,
    decreases t.len(),
{
    if i < t.len() {
        assert(t.insert(i, x).drop_last() =~= t.drop_last().insert(i, x));
        lemma_size_insert(t.drop_last(), i, x);
    } else {
        assert(t.insert(i, x).drop_last() =~= t);
    }
}

pub proof fn lemma_size_remove(t: Seq<Seq<char>>, i: int)
    requires
        0 <= i < t.len(),
    ensures
        text_size(t.remove(i)) + t[i].len() + 1 == text_size(t),
    decreases t.len(),
{
    if i < t.len() - 1 {
        assert(t.remove(i).drop_last() =~= t.drop_last().remove(i));
        lemma_size_remove(t.drop_last(), i);
    } else {
        assert(t.remove(i) =~= t.drop_last());
    }
}

pub proof fn lemma_size_elem(t: Seq<Seq<char>>, i: int)
    requires
        0 <= i < t.len(),
    ensures
        t[i].len() + 1 <= text_size(t),
    decreases t.len(),
{
    if i < t.len() - 1 {
        lemma_size_elem(t.drop_last(), i);
    }
}

pub proof fn lemma_size_len(t: Seq<Seq<char>>)
    ensures
        t.len() <= text_size(t),
    decreases t.len(),
{
    if t.len() > 0 {
        lemma_size_len(t.drop_last());
    }
}

pub proof fn lemma_size_prefix(t: Seq<Seq<char>>, i: int)
    requires
        0 <= i <= t.len(),
    ensures
        text_size(t.take(i)) <= text_size(t),
    decreases t.len(),
{
    if i < t.len() {
        assert(t.drop_last().take(i) =~= t.take(i));
        lemma_size_prefix(t.drop_last(), i);
    } else {
        assert(t.take(i) =~= t);
    }
}

impl EditableText {
    pub open spec fn text(&self) -> Seq<Seq<char>> {
        self.lines@.map_values(|l: Line| l@)
    }

    pub open spec fn wf(&self) -> bool {
        &&& self.lines@.len() >= 1
        &&& self.lines_widths@.len() == self.lines@.len()
        &&& forall|i: int|
            0 <= i < self.lines@.len() ==> #[trigger] self.lines_widths@[i] == width_of(self.text()[i])
                && self.lines_widths@[i] <= 3 * self.text()[i].len()
        &&& self.cursor.line < self.lines@.len()
        &&& self.cursor.char <= self.text()[self.cursor.line as int].len()
        &&& text_size(self.text()) <= TEXT_LIMIT
    }

    /// The characters of the line the cursor is on.
    pub open spec fn current(&self) -> Seq<char> {
        self.text()[self.cursor.line as int]
    }
}

pub open spec fn lines_view(v: Seq<Line>) -> Seq<Seq<char>> {
    v.map_values(|l: Line| l@)
}

pub open spec fn widths_fit(lines: Seq<Seq<char>>, widths: Seq<usize>) -> bool {
    &&& widths.len() == lines.len()
    &&& forall|i: int|
        0 <= i < lines.len() ==> #[trigger] widths[i] == width_of(lines[i]) && widths[i] <= 3 * lines[i].len()
}

/// The lines of `text` and their widths.
fn build_lines(text: &str) -> (r: (Vec<Line>, Vec<usize>))
    requires
        text@.len() + 1 <= TEXT_LIMIT,
    ensures
        lines_view(r.0@) == split_lines(text@),
        widths_fit(lines_view(r.0@), r.1@),
{
    let n = text.unicode_len();
    let mut lines: Vec<Line> = Vec::new();
    let mut widths: Vec<usize> = Vec::new();
    let mut cur = String::new();
    let mut cur_w: usize = 0;
    let mut i: usize = 0;
    assert(text@.take(0) =~= Seq::<char>::empty());
    assert(lines_view(lines@).push(cur@) =~= seq![Seq::<char>::empty()]);
    while i < n
        invariant
            n == text@.len(),
            n + 1 <= TEXT_LIMIT,
            i <= n,
            split_lines(text@.take(i as int)) == lines_view(lines@).push(cur@),
            widths_fit(lines_view(lines@), widths@),
            cur_w == width_of(cur@),
            cur_w <= 3 * cur@.len(),
            cur@.len() <= i,
        decreases n - i,
    {
        let c = text.get_char(i);
        assert(text@.take(i + 1).drop_last() =~= text@.take(i as int));
        if c == '\n' {
            let ghost lv = lines_view(lines@);
            widths.push(cur_w);
            lines.push(Line { line: cur });
            assert(lines_view(lines@) =~= lv.push(cur@));
            cur = String::new();
            cur_w = 0;
            assert(lines_view(lines@).push(cur@) =~= lv.push(lines@.last()@).push(Seq::<char>::empty()));
        } else {
            proof { lemma_width_push(cur@, c); }
            let ghost old_cur = cur@;
            push_char(&mut cur, c);
            cur_w = cur_w + crate::text::line::char_width(c);
            assert(lines_view(lines@).push(cur@) =~= lines_view(lines@).push(old_cur).update(lines@.len() as int, old_cur.push(c)));
        }
        i = i + 1;
    }
    assert(text@.take(n as int) =~= text@);
    let ghost lv = lines_view(lines@);
    widths.push(cur_w);
    lines.push(Line { line: cur });
    assert(lines_view(lines@) =~= lv.push(cur@));
    (lines, widths)
}

impl EditableText {
    pub fn new(text: &str) -> (r: EditableText)
        requires
            text@.len() + 1 <= TEXT_LIMIT,
        ensures
            r.wf(),
            r.text() == split_lines(text@),
            r.cursor == (TextCursor { line: 0, char: 0 }),
            !r.allow_cursor_over_limit,
    {
        let (lines, lines_widths) = build_lines(text);
        proof { lemma_split_lines(text@); }
        EditableText { lines, lines_widths, cursor: TextCursor { line: 0, char: 0 }, allow_cursor_over_limit: false }
    }

    /// Replaces the text; the cursor is brought back inside it if needed.
    pub fn set_text(&mut self, text: &str)
        requires
            text@.len() + 1 <= TEXT_LIMIT,
        ensures
            final(self).wf(),
            final(self).text() == split_lines(text@),
            final(self).cursor.line == if old(self).cursor.line < final(self).text().len() {
                old(self).cursor.line as int
            } else {
                final(self).text().len() - 1
            },
            final(self).cursor.char == if old(self).cursor.char <= final(self).current().len() {
                old(self).cursor.char as int
            } else {
                final(self).current().len() as int
            },
            final(self).allow_cursor_over_limit == old(self).allow_cursor_over_limit,
    {
        let (lines, lines_widths) = build_lines(text);
        proof { lemma_split_lines(text@); }
        self.lines = lines;
        self.lines_widths = lines_widths;
        if self.cursor.line >= self.lines.len() {
            self.cursor.line = self.lines.len() - 1;
        }
        let count = self.lines[self.cursor.line].char_count();
        if self.cursor.char > count {
            self.cursor.char = count;
        }
    }

    pub fn reset(&mut self)
        ensures
            final(self).wf(),
            final(self).text() == seq![Seq::<char>::empty()],
            final(self).cursor == (TextCursor { line: 0, char: 0 }),
            final(self).allow_cursor_over_limit == old(self).allow_cursor_over_limit,
    {
        let mut lines: Vec<Line> = Vec::new();
        lines.push(Line::new(""));
        let mut lines_widths: Vec<usize> = Vec::new();
        lines_widths.push(0);
        self.lines = lines;
        self.lines_widths = lines_widths;
        self.cursor = TextCursor { line: 0, char: 0 };
        proof {
            reveal_strlit("");
            assert(self.lines@[0]@ == Seq::<char>::empty());
            assert(self.text() =~= seq![Seq::<char>::empty()]);
            assert(self.text().drop_last() =~= Seq::<Seq<char>>::empty());
            assert(text_size(Seq::<Seq<char>>::empty()) == 0);
        }
    }

    /// Takes the text out (its lines joined with `'\n'`) and leaves it empty.
    pub fn consume(&mut self) -> (r: String)
        ensures
            r@ == join_lines(old(self).text()),
            final(self).wf(),
            final(self).text() == seq![Seq::<char>::empty()],
            final(self).cursor == (TextCursor { line: 0, char: 0 }),
            final(self).allow_cursor_over_limit == old(self).allow_cursor_over_limit,
    {
        let ghost t = self.text();
        let mut r = String::new();
        let mut i: usize = 0;
        assert(t.take(0) =~= Seq::<Seq<char>>::empty());
        while i < self.lines.len()
            invariant
                t == self.text(),
                i <= t.len(),
                r@ == join_lines(t.take(i as int)),
            decreases t.len() - i,
        {
            if i > 0 {
                r.append("\n");
            }
            r.append(self.lines[i].as_str());
            proof {
                reveal_strlit("\n");
                assert(t.take(i + 1).drop_last() =~= t.take(i as int));
                if i == 0 {
                    assert(t.take(1) =~= seq![t[0]]);
                }
            }
            i = i + 1;
        }
        assert(t.take(i as int) =~= t);
        self.reset();
        r
    }

    pub fn is_empty(&self) -> (r: bool)
        ensures
            r == (self.text().len() == 1 && self.text()[0].len() == 0),
    {
        self.lines.len() == 1 && self.lines[0].is_empty()
    }

    /// Rows that the text takes at `width` columns: each line at least one.
    pub fn height(&self, width: u16) -> (r: usize)
        requires
            self.wf(),
            width > 0,
        ensures
            r == height_of(self.lines_widths@, width as nat),
    {
        let ghost ws = self.lines_widths@;
        let ghost t = self.text();
        let mut h: usize = 0;
        let mut i: usize = 0;
        assert(ws.take(0) =~= Seq::<usize>::empty());
        assert(t.take(0) =~= Seq::<Seq<char>>::empty());
        while i < self.lines_widths.len()
            invariant
                self.wf(),
                width > 0,
                ws == self.lines_widths@,
                t == self.text(),
                i <= ws.len(),
                h == height_of(ws.take(i as int), width as nat),
                h <= 3 * text_size(t.take(i as int)),
            decreases ws.len() - i,
        {
            let l_w = self.lines_widths[i];
            proof {
                assert(ws.take(i + 1).drop_last() =~= ws.take(i as int));
                assert(t.take(i + 1).drop_last() =~= t.take(i as int));
                lemma_size_prefix(t, i + 1);
                let w = l_w as int;
                let d = width as int;
                assert((w + d - 1) / d <= w + 1) by (nonlinear_arith)
                    requires w >= 0, d >= 1;
            }
            let g = (l_w + width as usize - 1) / width as usize;
            h = h + if g < 1 { 1 } else { g };
            i = i + 1;
        }
        assert(ws.take(i as int) =~= ws);
        h
    }
}

/// The text after breaking the line at the cursor.
pub open spec fn broken_at(t: Seq<Seq<char>>, cur: TextCursor) -> Seq<Seq<char>> {
    let line = t[cur.line as int];
    t.update(cur.line as int, line.take(cur.char as int)).insert(cur.line + 1, line.skip(cur.char as int))
}

fn chars_between(s: &str, from: usize, to: usize) -> (r: String)
    requires
        from <= to <= s@.len(),
    ensures
        r@ == s@.subrange(from as int, to as int),
{
    s.substring_char(from, to).to_owned()
}

impl EditableText {
    /// Recomputes the width of line `i`.
    pub fn update_line_width(&mut self, i: usize)
        requires
            i < old(self).lines@.len(),
            old(self).lines_widths@.len() == old(self).lines@.len(),
            4 * old(self).text()[i as int].len() <= usize::MAX,
        ensures
            final(self).lines == old(self).lines,
            final(self).lines_widths@ == old(self).lines_widths@.update(i as int, width_of(old(self).text()[i as int]) as usize),
            width_of(old(self).text()[i as int]) <= 3 * old(self).text()[i as int].len(),
            final(self).cursor == old(self).cursor,
            final(self).allow_cursor_over_limit == old(self).allow_cursor_over_limit,
    {
        let w = self.lines[i].width();
        self.lines_widths.set(i, w);
    }

    /// Removes line `i` and its width, and returns the line.
    pub fn remove_line(&mut self, i: usize) -> (r: String)
        requires
            i < old(self).lines@.len(),
            old(self).lines_widths@.len() == old(self).lines@.len(),
        ensures
            r@ == old(self).text()[i as int],
            final(self).text() == old(self).text().remove(i as int),
            final(self).lines_widths@ == old(self).lines_widths@.remove(i as int),
            final(self).cursor == old(self).cursor,
            final(self).allow_cursor_over_limit == old(self).allow_cursor_over_limit,
    {
        self.lines_widths.remove(i);
        let l = self.lines.remove(i);
        assert(self.text() =~= old(self).text().remove(i as int));
        l.line
    }

    /// Sets line `l` to `x` and its width.
    fn set_line(&mut self, l: usize, x: String)
        requires
            l < old(self).lines@.len(),
            widths_fit(old(self).text(), old(self).lines_widths@),
            4 * x@.len() <= usize::MAX,
        ensures
            final(self).text() == old(self).text().update(l as int, x@),
            widths_fit(final(self).text(), final(self).lines_widths@),
            final(self).cursor == old(self).cursor,
            final(self).allow_cursor_over_limit == old(self).allow_cursor_over_limit,
    {
        let line = Line { line: x };
        let w = line.width();
        self.lines.set(l, line);
        self.lines_widths.set(l, w);
        assert(self.text() =~= old(self).text().update(l as int, line@));
    }

    /// Inserts `x` as line `at`, with its width.
    fn insert_line(&mut self, at: usize, x: String)
        requires
            at <= old(self).lines@.len(),
            widths_fit(old(self).text(), old(self).lines_widths@),
            4 * x@.len() <= usize::MAX,
        ensures
            final(self).text() == old(self).text().insert(at as int, x@),
            widths_fit(final(self).text(), final(self).lines_widths@),
            final(self).cursor == old(self).cursor,
            final(self).allow_cursor_over_limit == old(self).allow_cursor_over_limit,
    {
        let line = Line { line: x };
        let w = line.width();
        self.lines.insert(at, line);
        self.lines_widths.insert(at, w);
        assert(self.text() =~= old(self).text().insert(at as int, line@));
    }

    /// Breaks the line at the cursor, which goes to the start of the new line.
    pub fn line_feed(&mut self)
        requires
            old(self).wf(),
            text_size(old(self).text()) + 1 <= TEXT_LIMIT,
        ensures
            final(self).wf(),
            final(self).text() == broken_at(old(self).text(), old(self).cursor),
            final(self).cursor == (TextCursor { line: (old(self).cursor.line + 1) as usize, char: 0 }),
            final(self).allow_cursor_over_limit == old(self).allow_cursor_over_limit,
    {
        let l_i = self.cursor.line;
        let c_i = self.cursor.char;
        let ghost t = self.text();
        let n = self.lines[l_i].char_count();
        proof {
            lemma_size_elem(t, l_i as int);
            lemma_size_len(t);
        }
        let head = chars_between(self.lines[l_i].as_str(), 0, c_i);
        let tail = chars_between(self.lines[l_i].as_str(), c_i, n);
        assert(head@ =~= t[l_i as int].take(c_i as int));
        assert(tail@ =~= t[l_i as int].skip(c_i as int));
        self.set_line(l_i, head);
        self.insert_line(l_i + 1, tail);
        self.cursor.line = l_i + 1;
        self.cursor.char = 0;
        proof {
            lemma_size_update(t, l_i as int, head@);
            lemma_size_insert(t.update(l_i as int, head@), l_i + 1, tail@);
        }
    }
}

/// The last column the cursor may reach on a line of `count` characters:
/// the end of the line when allowed, else its last character.
pub open spec fn limit_of(count: nat, over: bool) -> nat {
    if !over && count > 0 {
        (count - 1) as nat
    } else {
        count
    }
}

fn with_char(s: &str, at: usize, c: char, replace: bool) -> (r: String)
    requires
        at <= s@.len(),
        replace ==> at < s@.len(),
    ensures
        replace ==> r@ == s@.update(at as int, c),
        !replace ==> r@ == s@.insert(at as int, c),
{
    let n = s.unicode_len();
    let mut r = chars_between(s, 0, at);
    push_char(&mut r, c);
    let from = if replace { at + 1 } else { at };
    let tail = chars_between(s, from, n);
    r.append(tail.as_str());
    assert(replace ==> r@ =~= s@.update(at as int, c));
    assert(!replace ==> r@ =~= s@.insert(at as int, c));
    r
}

impl EditableText {
    /// Types `c` at the cursor, which moves past it; a line feed breaks the line.
    pub fn insert(&mut self, c: char)
        requires
            old(self).wf(),
            text_size(old(self).text()) + 1 <= TEXT_LIMIT,
        ensures
            final(self).wf(),
            final(self).allow_cursor_over_limit == old(self).allow_cursor_over_limit,
            c == '\n' ==> final(self).text() == broken_at(old(self).text(), old(self).cursor)
                && final(self).cursor == (TextCursor { line: (old(self).cursor.line + 1) as usize, char: 0 }),
            c != '\n' ==> final(self).text() == old(self).text().update(
                old(self).cursor.line as int,
                old(self).current().insert(old(self).cursor.char as int, c),
            ) && final(self).cursor == (TextCursor { line: old(self).cursor.line, char: (old(self).cursor.char + 1) as usize }),
    {
        if c == '\n' {
            self.line_feed();
        } else {
            let l_i = self.cursor.line;
            let ghost t = self.text();
            proof { lemma_size_elem(t, l_i as int); }
            let x = with_char(self.lines[l_i].as_str(), self.cursor.char, c, false);
            self.set_line(l_i, x);
            self.cursor.char = self.cursor.char + 1;
            proof { lemma_size_update(t, l_i as int, x@); }
        }
    }

    /// Types `c` over the character at the cursor (after the last character it
    /// is appended), and the cursor moves past it; a line feed breaks the line.
    pub fn replace(&mut self, c: char)
        requires
            old(self).wf(),
            text_size(old(self).text()) + 1 <= TEXT_LIMIT,
        ensures
            final(self).wf(),
            final(self).allow_cursor_over_limit == old(self).allow_cursor_over_limit,
            c == '\n' ==> final(self).text() == broken_at(old(self).text(), old(self).cursor)
                && final(self).cursor == (TextCursor { line: (old(self).cursor.line + 1) as usize, char: 0 }),
            c != '\n' ==> final(self).text() == old(self).text().update(
                old(self).cursor.line as int,
                if old(self).cursor.char == old(self).current().len() {
                    old(self).current().push(c)
                } else {
                    old(self).current().update(old(self).cursor.char as int, c)
                },
            ) && final(self).cursor == (TextCursor { line: old(self).cursor.line, char: (old(self).cursor.char + 1) as usize }),
    {
        if c == '\n' {
            self.line_feed();
        } else {
            let l_i = self.cursor.line;
            let c_i = self.cursor.char;
            let ghost t = self.text();
            proof { lemma_size_elem(t, l_i as int); }
            let n = self.lines[l_i].char_count();
            let x = if c_i == n {
                let r = with_char(self.lines[l_i].as_str(), c_i, c, false);
                assert(r@ =~= t[l_i as int].push(c));
                r
            } else {
                with_char(self.lines[l_i].as_str(), c_i, c, true)
            };
            self.set_line(l_i, x);
            self.cursor.char = c_i + 1;
            proof { lemma_size_update(t, l_i as int, x@); }
        }
    }

    /// Deletes the character before the cursor; at the start of a line, joins
    /// the line to the previous one.
    pub fn backspace(&mut self)
        requires
            old(self).wf(),
        ensures
            final(self).wf(),
            final(self).allow_cursor_over_limit == old(self).allow_cursor_over_limit,
            old(self).cursor.char == 0 && old(self).cursor.line == 0 ==> final(self).text() == old(self).text()
                && final(self).cursor == old(self).cursor,
            old(self).cursor.char == 0 && old(self).cursor.line > 0 ==> {
                let l = old(self).cursor.line as int;
                let t = old(self).text();
                &&& final(self).text() == t.update(l - 1, t[l - 1] + t[l]).remove(l)
                &&& final(self).cursor == (TextCursor { line: (l - 1) as usize, char: t[l - 1].len() as usize })
            },
            old(self).cursor.char > 0 ==> final(self).text() == old(self).text().update(
                old(self).cursor.line as int,
                old(self).current().remove(old(self).cursor.char - 1),
            ) && final(self).cursor == (TextCursor { line: old(self).cursor.line, char: (old(self).cursor.char - 1) as usize }),
    {
        let l_i = self.cursor.line;
        let c_i = self.cursor.char;
        let ghost t = self.text();
        if c_i == 0 {
            if l_i > 0 {
                let prev_l_i = l_i - 1;
                proof {
                    lemma_size_elem(t, l_i as int);
                    lemma_size_elem(t, prev_l_i as int);
                    lemma_size_remove(t, l_i as int);
                    lemma_size_elem(t.remove(l_i as int), prev_l_i as int);
                }
                let prev_len = self.lines[prev_l_i].char_count();
                let line = self.remove_line(l_i);
                let mut joined = chars_between(self.lines[prev_l_i].as_str(), 0, prev_len);
                assert(joined@ =~= t[prev_l_i as int]);
                joined.append(line.as_str());
                proof {
                    assert(t.remove(l_i as int)[prev_l_i as int] == t[prev_l_i as int]);
                }
                self.set_line(prev_l_i, joined);
                self.cursor.line = prev_l_i;
                self.cursor.char = prev_len;
                proof {
                    lemma_size_update(t.remove(l_i as int), prev_l_i as int, joined@);
                    assert(t.update(prev_l_i as int, joined@).remove(l_i as int) =~= t.remove(l_i as int).update(prev_l_i as int, joined@));
                }
            }
        } else {
            proof { lemma_size_elem(t, l_i as int); }
            let n = self.lines[l_i].char_count();
            let mut x = chars_between(self.lines[l_i].as_str(), 0, c_i - 1);
            let tail = chars_between(self.lines[l_i].as_str(), c_i, n);
            x.append(tail.as_str());
            assert(x@ =~= t[l_i as int].remove(c_i - 1));
            self.set_line(l_i, x);
            self.cursor.char = c_i - 1;
            proof { lemma_size_update(t, l_i as int, x@); }
        }
    }

    /// Deleting forward does nothing.
    pub fn delete(&mut self)
        ensures
            *final(self) == *old(self),
    {
    }

    fn line_limit(&self) -> (r: usize)
        requires
            self.wf(),
        ensures
            r == limit_of(self.current().len(), self.allow_cursor_over_limit),
    {
        let mut line_lim = self.lines[self.cursor.line].char_count();
        if !self.allow_cursor_over_limit && line_lim > 0 {
            line_lim = line_lim - 1;
        }
        line_lim
    }

    fn fix_cursor(&mut self)
        requires
            old(self).wf(),
        ensures
            final(self).wf(),
            final(self).text() == old(self).text(),
            final(self).lines_widths == old(self).lines_widths,
            final(self).allow_cursor_over_limit == old(self).allow_cursor_over_limit,
            final(self).cursor.line == old(self).cursor.line,
            final(self).cursor.char == if old(self).cursor.char > limit_of(old(self).current().len(), old(self).allow_cursor_over_limit) {
                limit_of(old(self).current().len(), old(self).allow_cursor_over_limit)
            } else {
                old(self).cursor.char as nat
            },
    {
        let line_lim = self.line_limit();
        if self.cursor.char > line_lim {
            self.cursor.char = line_lim;
        }
    }

    /// Moves the cursor one line up, within that line's limit.
    pub fn up(&mut self)
        requires
            old(self).wf(),
        ensures
            final(self).wf(),
            final(self).text() == old(self).text(),
            final(self).allow_cursor_over_limit == old(self).allow_cursor_over_limit,
            old(self).cursor.line == 0 ==> final(self).cursor == old(self).cursor,
            old(self).cursor.line > 0 ==> final(self).cursor.line == old(self).cursor.line - 1
                && final(self).cursor.char == min(old(self).cursor.char as int, limit_of(final(self).current().len(), old(self).allow_cursor_over_limit) as int),
    {
        if self.cursor.line != 0 {
            self.cursor.line = self.cursor.line - 1;
            if self.cursor.char > self.lines[self.cursor.line].char_count() {
                self.cursor.char = self.lines[self.cursor.line].char_count();
            }
            self.fix_cursor();
        }
    }

    /// Moves the cursor one line down, within that line's limit.
    pub fn down(&mut self)
        requires
            old(self).wf(),
        ensures
            final(self).wf(),
            final(self).text() == old(self).text(),
            final(self).allow_cursor_over_limit == old(self).allow_cursor_over_limit,
            old(self).cursor.line + 1 == old(self).text().len() ==> final(self).cursor == old(self).cursor,
            old(self).cursor.line + 1 < old(self).text().len() ==> final(self).cursor.line == old(self).cursor.line + 1
                && final(self).cursor.char == min(old(self).cursor.char as int, limit_of(final(self).current().len(), old(self).allow_cursor_over_limit) as int),
    {
        if self.cursor.line < self.lines.len() - 1 {
            self.cursor.line = self.cursor.line + 1;
            if self.cursor.char > self.lines[self.cursor.line].char_count() {
                self.cursor.char = self.lines[self.cursor.line].char_count();
            }
            self.fix_cursor();
        }
    }

    /// Moves the cursor one character right, up to the line's limit.
    pub fn right(&mut self)
        requires
            old(self).wf(),
        ensures
            final(self).wf(),
            final(self).text() == old(self).text(),
            final(self).allow_cursor_over_limit == old(self).allow_cursor_over_limit,
            final(self).cursor.line == old(self).cursor.line,
            final(self).cursor.char == if old(self).cursor.char < limit_of(old(self).current().len(), old(self).allow_cursor_over_limit) {
                old(self).cursor.char + 1
            } else {
                old(self).cursor.char as int
            },
    {
        let line_lim = self.line_limit();
        if self.cursor.char < line_lim {
            self.cursor.char = self.cursor.char + 1;
        }
    }

    /// Moves the cursor one character left, if it can.
    pub fn left(&mut self)
        requires
            old(self).wf(),
        ensures
            final(self).wf(),
            final(self).text() == old(self).text(),
            final(self).allow_cursor_over_limit == old(self).allow_cursor_over_limit,
            final(self).cursor.line == old(self).cursor.line,
            final(self).cursor.char == if old(self).cursor.char > 0 {
                old(self).cursor.char - 1
            } else {
                0
            },
    {
        if self.cursor.char > 0 {
            self.cursor.char = self.cursor.char - 1;
        }
    }

    /// Moves the cursor to the start of its line.
    pub fn home(&mut self)
        requires
            old(self).wf(),
        ensures
            final(self).wf(),
            final(self).text() == old(self).text(),
            final(self).allow_cursor_over_limit == old(self).allow_cursor_over_limit,
            final(self).cursor == (TextCursor { line: old(self).cursor.line, char: 0 }),
    {
        self.cursor.char = 0;
    }

    /// Moves the cursor to its line's limit.
    pub fn end(&mut self)
        requires
            old(self).wf(),
        ensures
            final(self).wf(),
            final(self).text() == old(self).text(),
            final(self).allow_cursor_over_limit == old(self).allow_cursor_over_limit,
            final(self).cursor.line == old(self).cursor.line,
            final(self).cursor.char == limit_of(old(self).current().len(), old(self).allow_cursor_over_limit),
    {
        self.cursor.char = self.line_limit();
    }

    /// The row, within its own line wrapped at `width` columns, that the
    /// cursor is on: the columns before it, divided by `width`, rounded up.
    pub fn cursor_graphic_line(&self, width: u16) -> (r: usize)
        requires
            self.wf(),
            width > 0,
        ensures
            r == (width_of(self.current().take(self.cursor.char as int)) + width - 1) / (width as int),
    {
        proof {
            lemma_size_elem(self.text(), self.cursor.line as int);
        }
        let w = crate::text::line::prefix_width(self.lines[self.cursor.line].as_str(), self.cursor.char);
        (w + width as usize - 1) / width as usize
    }
}

/// A text's length once joined: one less than its size.
pub proof fn lemma_join_len(t: Seq<Seq<char>>)
    requires
        t.len() >= 1,
    ensures
        join_lines(t).len() + 1 == text_size(t),
    decreases t.len(),
{
    if t.len() == 1 {
        assert(t.drop_last() =~= Seq::<Seq<char>>::empty());
        assert(text_size(Seq::<Seq<char>>::empty()) == 0);
    } else {
        lemma_join_len(t.drop_last());
    }
}

impl EditableText {
    /// Characters plus lines.
    pub fn size(&self) -> (r: usize)
        requires
            self.wf(),
        ensures
            r == text_size(self.text()),
    {
        let ghost t = self.text();
        let mut n: usize = 0;
        let mut i: usize = 0;
        assert(t.take(0) =~= Seq::<Seq<char>>::empty());
        while i < self.lines.len()
            invariant
                self.wf(),
                t == self.text(),
                i <= t.len(),
                n == text_size(t.take(i as int)),
            decreases t.len() - i,
        {
            proof {
                assert(t.take(i + 1).drop_last() =~= t.take(i as int));
                lemma_size_prefix(t, i + 1);
            }
            n = n + self.lines[i].char_count() + 1;
            i = i + 1;
        }
        assert(t.take(i as int) =~= t);
        n
    }
}

} // verus!
