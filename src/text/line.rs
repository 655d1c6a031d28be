use crate::event::push_char;
use vstd::prelude::*;
use vstd::std_specs::iter::IteratorSpec;
use vstd::string::StrSliceExecFns;

verus! {

/// The width in columns that `unicode_width` gives a character (`None` for a
/// control character).
pub uninterp spec fn unicode_width_of(c: char) -> Option<usize>;

/// Relies on unicode_width::UnicodeWidthChar::width (0.1.14): the result
/// depends on the character alone; in its source, printable ASCII is one
/// column, other control codes below U+00A0 have no width, and no width
/// exceeds 3.
#[verifier::external_body]
fn unicode_width(c: char) -> (r: Option<usize>)
    ensures
        r == unicode_width_of(c),
        r matches Some(w) ==> w <= 3,
        (' ' <= c && c < '\u{7f}') ==> r == Some(1usize),
        (c < ' ' || ('\u{7f}' <= c && c < '\u{a0}')) ==> r is None,
{
    unicode_width::UnicodeWidthChar::width(c)
}

/// Columns taken by one character: its width, 0 for a control character.
pub open spec fn char_w(c: char) -> nat {
    match unicode_width_of(c) {
        Some(w) => w as nat,
        None => 0,
    }
}

/// Columns taken by a text.
pub open spec fn width_of(s: Seq<char>) -> nat
    decreases s.len(),
{
    if s.len() == 0 {
        0
    } else {
        width_of(s.drop_last()) + char_w(s.last())
    }
}

pub fn char_width(c: char) -> (r: usize)
    ensures
        r == char_w(c),
        r <= 3,
{
    match unicode_width(c) {
        Some(w) => w,
        None => 0,
    }
}

pub proof fn lemma_width_push(a: Seq<char>, c: char)
    ensures
        width_of(a.push(c)) == width_of(a) + char_w(c),
{
    assert(a.push(c).drop_last() =~= a);
}

/// Columns taken by the first `n` characters of `s`, computed character by
/// character (each character's width is then known to be at most three).
pub fn prefix_width(s: &str, n: usize) -> (r: usize)
    requires
        n <= s@.len(),
        4 * s@.len() <= usize::MAX,
    ensures
        r == width_of(s@.take(n as int)),
        r <= 3 * n,
{
    let mut w: usize = 0;
    let mut i: usize = 0;
    while i < n
        invariant
            n <= s@.len(),
            4 * s@.len() <= usize::MAX,
            i <= n,
            w == width_of(s@.take(i as int)),
            w <= 3 * i,
        decreases n - i,
    {
        let c = s.get_char(i);
        proof {
            assert(s@.take(i + 1) =~= s@.take(i as int).push(c));
            lemma_width_push(s@.take(i as int), c);
        }
        w = w + char_width(c);
        i = i + 1;
    }
    w
}

/// A position in a wrapped text: the character there, its graphic line, and
/// its column.
#[derive(Debug, Clone, Copy, PartialEq, Eq, Structural)]
pub struct CharPosition {
    pub c: char,
    pub line: usize,
    pub char: usize,
}

/// One line of text.
#[derive(Debug, Clone)]
pub struct Line {
    pub line: String,
}

impl View for Line {
    type V = Seq<char>;

    open spec fn view(&self) -> Seq<char> {
        self.line@
    }
}

/// The state of wrapping a text into graphic lines: the lines done, the line
/// being filled, and the columns it takes.
pub struct Wrap {
    pub chunks: Seq<Seq<char>>,
    pub chunk: Seq<char>,
    pub w: nat,
}

/// Wrapping, character after character: a character that would overflow
/// `width` columns starts a new graphic line.
pub open spec fn wrap(s: Seq<char>, width: nat) -> Wrap
    decreases s.len(),
{
    if s.len() == 0 {
        Wrap { chunks: seq![], chunk: seq![], w: 0 }
    } else {
        let p = wrap(s.drop_last(), width);
        let c = s.last();
        if p.w + char_w(c) > width {
            Wrap { chunks: p.chunks.push(p.chunk), chunk: seq![c], w: char_w(c) }
        } else {
            Wrap { chunks: p.chunks, chunk: p.chunk.push(c), w: p.w + char_w(c) }
        }
    }
}

/// The graphic lines of a text wrapped at `width` columns; an empty text
/// gives one empty line.
pub open spec fn block_of(s: Seq<char>, width: nat) -> Seq<Seq<char>> {
    let st = wrap(s, width);
    if st.chunk.len() > 0 || st.chunks.len() == 0 {
        st.chunks.push(st.chunk)
    } else {
        st.chunks
    }
}

/// Pieces of text put end to end.
pub open spec fn joined(t: Seq<Seq<char>>) -> Seq<char>
    decreases t.len(),
{
    if t.len() == 0 {
        seq![]
    } else {
        joined(t.drop_last()) + t.last()
    }
}

/// A piece of a wrapped line fits the width, or is a single character (one
/// too wide to fit anywhere).
pub open spec fn fits(piece: Seq<char>, width: nat) -> bool {
    width_of(piece) <= width || piece.len() == 1
}

proof fn lemma_wrap(s: Seq<char>, width: nat)
    ensures
        joined(wrap(s, width).chunks) + wrap(s, width).chunk == s,
        wrap(s, width).w == width_of(wrap(s, width).chunk),
        fits(wrap(s, width).chunk, width),
        forall|k: int| 0 <= k < wrap(s, width).chunks.len() ==> fits(#[trigger] wrap(s, width).chunks[k], width),
    decreases s.len(),
{
    if s.len() == 0 {
        assert(joined(Seq::<Seq<char>>::empty()) + Seq::<char>::empty() =~= s);
        assert(width_of(Seq::<char>::empty()) == 0);
    } else {
        let p = wrap(s.drop_last(), width);
        let c = s.last();
        lemma_wrap(s.drop_last(), width);
        assert(s =~= s.drop_last().push(c));
        if p.w + char_w(c) > width {
            let chunks = p.chunks.push(p.chunk);
            assert(chunks.drop_last() =~= p.chunks);
            assert(joined(chunks) + seq![c] =~= joined(p.chunks) + p.chunk + seq![c]);
            lemma_width_push(Seq::<char>::empty(), c);
            assert(Seq::<char>::empty().push(c) =~= seq![c]);
            assert(width_of(Seq::<char>::empty()) == 0);
            assert forall|k: int| 0 <= k < chunks.len() implies fits(#[trigger] chunks[k], width) by {
                if k < p.chunks.len() {
                    assert(chunks[k] == p.chunks[k]);
                }
            }
        } else {
            lemma_width_push(p.chunk, c);
            assert(joined(p.chunks) + p.chunk.push(c) =~= (joined(p.chunks) + p.chunk).push(c));
        }
    }
}

/// Wrapping a line cuts it into pieces that, put end to end, give the line
/// back; each piece fits the width or is a single character.
pub proof fn lemma_block_of(s: Seq<char>, width: nat)
    ensures
        joined(block_of(s, width)) == s,
        forall|k: int| 0 <= k < block_of(s, width).len() ==> fits(#[trigger] block_of(s, width)[k], width),
{
    let st = wrap(s, width);
    lemma_wrap(s, width);
    if st.chunk.len() > 0 || st.chunks.len() == 0 {
        let b = st.chunks.push(st.chunk);
        assert(b.drop_last() =~= st.chunks);
        assert forall|k: int| 0 <= k < b.len() implies fits(#[trigger] b[k], width) by {
            if k < st.chunks.len() {
                assert(b[k] == st.chunks[k]);
            }
        }
    } else {
        assert(joined(st.chunks) + st.chunk =~= joined(st.chunks));
    }
}

/// Where the cursor at character `pos` shows in the wrapped text: on that
/// character, or past the end when `pos` is not below the length: after the
/// last character, or at the start of an empty line added after a full last
/// line.
pub open spec fn cursor_block_of(s: Seq<char>, width: nat, pos: nat) -> (Seq<Seq<char>>, Option<CharPosition>) {
    if pos < s.len() {
        let p = wrap(s.take(pos as int + 1), width);
        (block_of(s, width), Some(CharPosition { c: s[pos as int], line: p.chunks.len() as usize, char: (p.w - char_w(s[pos as int])) as usize }))
    } else {
        let st = wrap(s, width);
        if st.w >= width {
            let b = block_of(s, width);
            (b.push(seq![]), Some(CharPosition { c: ' ', line: b.len() as usize, char: 0 }))
        } else {
            (block_of(s, width), Some(CharPosition { c: ' ', line: st.chunks.len() as usize, char: st.w as usize }))
        }
    }
}

pub open spec fn strings_view(v: Seq<String>) -> Seq<Seq<char>> {
    v.map_values(|s: String| s@)
}

proof fn lemma_strings_push(v: Seq<String>, s: String)
    ensures
        strings_view(v.push(s)) == strings_view(v).push(s@),
{
    assert(strings_view(v.push(s)) =~= strings_view(v).push(s@));
}

impl Line {
    pub fn new(s: &str) -> (r: Line)
        ensures
            r@ == s@,
    {
        Line { line: s.to_owned() }
    }

    /// Length in bytes.
    pub fn len(&self) -> (r: usize)
        ensures
            r == vstd::utf8::encode_utf8(self@).len() as usize,
    {
        self.line.as_str().len()
    }

    pub fn is_empty(&self) -> (r: bool)
        ensures
            r == (self@.len() == 0),
    {
        self.line.as_str().is_empty()
    }

    pub fn push(&mut self, c: char)
        ensures
            final(self)@ == old(self)@.push(c),
    {
        push_char(&mut self.line, c)
    }

    /// The characters of the line, in order.
    pub fn chars(&self) -> (r: std::str::Chars<'_>)
        ensures
            r.remaining() == self@,
    {
        broadcast use vstd::string::group_string_axioms;

        self.line.as_str().chars()
    }

    pub fn as_str(&self) -> (r: &str)
        ensures
            r@ == self@,
    {
        self.line.as_str()
    }

    /// Number of characters.
    pub fn char_count(&self) -> (r: usize)
        ensures
            r == self@.len(),
    {
        self.line.as_str().unicode_len()
    }

    /// Columns taken by the line.
    pub fn width(&self) -> (r: usize)
        requires
            4 * self@.len() <= usize::MAX,
        ensures
            r == width_of(self@),
            r <= 3 * self@.len(),
    {
        let n = self.line.as_str().unicode_len();
        let r = prefix_width(self.line.as_str(), n);
        assert(self@.take(n as int) =~= self@);
        r
    }

    /// The graphic lines of `line` wrapped at `width` columns.
    pub fn str_to_block(line: &str, width: u16) -> (r: Vec<String>)
        ensures
            strings_view(r@) == block_of(line@, width as nat),
            joined(strings_view(r@)) == line@,
            forall|k: int| 0 <= k < r@.len() ==> fits(#[trigger] strings_view(r@)[k], width as nat),
    {
        proof {
            lemma_block_of(line@, width as nat);
        }
        let n = line.unicode_len();
        let mut chunks: Vec<String> = Vec::new();
        let mut chunk = String::new();
        let mut chunk_w: usize = 0;
        let mut i: usize = 0;
        assert(line@.take(0) =~= Seq::<char>::empty());
        assert(strings_view(chunks@) =~= Seq::<Seq<char>>::empty());
        while i < n
            invariant
                n == line@.len(),
                i <= n,
                chunk_w <= width as nat + 3,
                wrap(line@.take(i as int), width as nat) == (Wrap { chunks: strings_view(chunks@), chunk: chunk@, w: chunk_w as nat }),
            decreases n - i,
        {
            let c = line.get_char(i);
            assert(line@.take(i + 1).drop_last() =~= line@.take(i as int));
            let c_w = char_width(c);
            if chunk_w + c_w > width as usize {
                proof { lemma_strings_push(chunks@, chunk); }
                chunks.push(chunk);
                chunk = String::new();
                push_char(&mut chunk, c);
                assert(chunk@ =~= seq![c]);
                chunk_w = c_w;
            } else {
                push_char(&mut chunk, c);
                chunk_w = chunk_w + c_w;
            }
            i = i + 1;
        }
        assert(line@.take(n as int) =~= line@);
        if chunk.as_str().unicode_len() > 0 || chunks.len() == 0 {
            proof { lemma_strings_push(chunks@, chunk); }
            chunks.push(chunk);
        }
        chunks
    }

    /// The graphic lines of `line` wrapped at `width` columns, and where the
    /// cursor at character `pos` shows.
    pub fn str_to_cursor_block(line: &str, width: u16, pos: usize) -> (r: (Vec<String>, Option<CharPosition>))
        ensures
            (strings_view(r.0@), r.1) == cursor_block_of(line@, width as nat, pos as nat),
    {
        let n = line.unicode_len();
        let mut chunks: Vec<String> = Vec::new();
        let mut chunk = String::new();
        let mut chunk_w: usize = 0;
        let mut block_pos: Option<CharPosition> = None;
        let mut i: usize = 0;
        assert(line@.take(0) =~= Seq::<char>::empty());
        assert(strings_view(chunks@) =~= Seq::<Seq<char>>::empty());
        while i < n
            invariant
                n == line@.len(),
                i <= n,
                chunk_w <= width as nat + 3,
                wrap(line@.take(i as int), width as nat) == (Wrap { chunks: strings_view(chunks@), chunk: chunk@, w: chunk_w as nat }),
                pos < i ==> block_pos == Some(CharPosition {
                    c: line@[pos as int],
                    line: wrap(line@.take(pos as int + 1), width as nat).chunks.len() as usize,
                    char: (wrap(line@.take(pos as int + 1), width as nat).w - char_w(line@[pos as int])) as usize,
                }),
            decreases n - i,
        {
            let c = line.get_char(i);
            assert(line@.take(i + 1).drop_last() =~= line@.take(i as int));
            let c_w = char_width(c);
            if chunk_w + c_w > width as usize {
                proof { lemma_strings_push(chunks@, chunk); }
                chunks.push(chunk);
                chunk = String::new();
                push_char(&mut chunk, c);
                assert(chunk@ =~= seq![c]);
                chunk_w = c_w;
            } else {
                push_char(&mut chunk, c);
                chunk_w = chunk_w + c_w;
            }
            if i == pos {
                block_pos = Some(CharPosition { c, line: chunks.len(), char: chunk_w - c_w });
            }
            i = i + 1;
        }
        assert(line@.take(n as int) =~= line@);
        let full = pos >= n && chunk_w >= width as usize;
        if pos >= n && !full {
            block_pos = Some(CharPosition { c: ' ', line: chunks.len(), char: chunk_w });
        }
        if chunk.as_str().unicode_len() > 0 || chunks.len() == 0 {
            proof { lemma_strings_push(chunks@, chunk); }
            chunks.push(chunk);
        }
        if full {
            block_pos = Some(CharPosition { c: ' ', line: chunks.len(), char: 0 });
            let empty = String::new();
            proof { lemma_strings_push(chunks@, empty); }
            chunks.push(empty);
        }
        (chunks, block_pos)
    }

    pub fn to_block(&self, width: u16) -> (r: Vec<String>)
        ensures
            strings_view(r@) == block_of(self@, width as nat),
    {
        Self::str_to_block(self.line.as_str(), width)
    }

    pub fn to_cursor_block(&self, width: u16, pos: usize) -> (r: (Vec<String>, Option<CharPosition>))
        ensures
            (strings_view(r.0@), r.1) == cursor_block_of(self@, width as nat, pos as nat),
    {
        Self::str_to_cursor_block(self.line.as_str(), width, pos)
    }
}

} // verus!
