use vstd::prelude::*;

verus! {

/// The first row in view: a widget and a row within it.
#[derive(Debug, Clone, Copy, PartialEq, Eq, Structural)]
pub struct Cursor {
    pub widget: usize,
    pub y: usize,
}

/// A vertical list of widgets seen through a view that scrolls by rows. Moves
/// asked for are counted, and applied when the heights of the widgets at the
/// drawing width are known.
#[derive(Debug)]
pub struct Scroll<E> {
    cursor: Cursor,
    widgets: Vec<E>,
    next_move: isize,
}

/// One row up: within the widget, else to the last row of the previous one.
pub open spec fn row_up(c: Cursor, heights: Seq<usize>) -> Cursor {
    if c.y > 0 {
        Cursor { widget: c.widget, y: (c.y - 1) as usize }
    } else if c.widget > 0 {
        let h = heights[c.widget - 1];
        Cursor { widget: (c.widget - 1) as usize, y: if h > 0 { (h - 1) as usize } else { 0 } }
    } else {
        c
    }
}

/// One row down: within the widget, else to the first row of the next one.
pub open spec fn row_down(c: Cursor, heights: Seq<usize>) -> Cursor {
    if c.y + 1 < heights[c.widget as int] {
        Cursor { widget: c.widget, y: (c.y + 1) as usize }
    } else if c.widget + 1 < heights.len() {
        Cursor { widget: (c.widget + 1) as usize, y: 0 }
    } else {
        c
    }
}

/// `n` rows up.
pub open spec fn rows_up(c: Cursor, heights: Seq<usize>, n: nat) -> Cursor
    decreases n,
{
    if n == 0 {
        c
    } else {
        row_up(rows_up(c, heights, (n - 1) as nat), heights)
    }
}

/// `n` rows down.
pub open spec fn rows_down(c: Cursor, heights: Seq<usize>, n: nat) -> Cursor
    decreases n,
{
    if n == 0 {
        c
    } else {
        row_down(rows_down(c, heights, (n - 1) as nat), heights)
    }
}

impl<E> Scroll<E> {
    pub closed spec fn cursor(&self) -> Cursor {
        self.cursor
    }

    pub closed spec fn widgets(&self) -> Seq<E> {
        self.widgets@
    }

    /// Rows to move up (down when negative) at the next drawing.
    pub closed spec fn next_move(&self) -> int {
        self.next_move as int
    }

    pub open spec fn wf(&self) -> bool {
        self.cursor().widget == 0 || self.cursor().widget < self.widgets().len()
    }

    pub fn new(widgets: Vec<E>) -> (r: Scroll<E>)
        ensures
            r.wf(),
            r.widgets() == widgets@,
            r.cursor() == (Cursor { widget: 0, y: 0 }),
            r.next_move() == 0,
    {
        Scroll { cursor: Cursor { widget: 0, y: 0 }, widgets, next_move: 0 }
    }

    pub fn push(&mut self, element: E)
        requires
            old(self).wf(),
        ensures
            final(self).wf(),
            final(self).widgets() == old(self).widgets().push(element),
            final(self).cursor() == old(self).cursor(),
            final(self).next_move() == old(self).next_move(),
    {
        self.widgets.push(element)
    }

    pub fn len(&self) -> (r: usize)
        ensures
            r == self.widgets().len(),
    {
        self.widgets.len()
    }

    pub fn widget(&self, i: usize) -> (r: &E)
        requires
            i < self.widgets().len(),
        ensures
            *r == self.widgets()[i as int],
    {
        &self.widgets[i]
    }

    /// The first row in view.
    pub fn view(&self) -> (r: Cursor)
        ensures
            r == self.cursor(),
    {
        self.cursor
    }

    /// Asks for one row up (no more once the count is at its largest).
    pub fn up(&mut self)
        ensures
            final(self).widgets() == old(self).widgets(),
            final(self).cursor() == old(self).cursor(),
            final(self).next_move() == if old(self).next_move() < isize::MAX {
                old(self).next_move() + 1
            } else {
                old(self).next_move()
            },
    {
        if self.next_move < isize::MAX {
            self.next_move = self.next_move + 1;
        }
    }

    /// Asks for one row down (no more once the count is at its smallest).
    pub fn down(&mut self)
        ensures
            final(self).widgets() == old(self).widgets(),
            final(self).cursor() == old(self).cursor(),
            final(self).next_move() == if old(self).next_move() > isize::MIN {
                old(self).next_move() - 1
            } else {
                old(self).next_move()
            },
    {
        if self.next_move > isize::MIN {
            self.next_move = self.next_move - 1;
        }
    }

    fn up_one(&mut self, heights: &Vec<usize>)
        requires
            old(self).wf(),
            heights@.len() == old(self).widgets().len(),
        ensures
            final(self).wf(),
            final(self).widgets() == old(self).widgets(),
            final(self).next_move() == old(self).next_move(),
            final(self).cursor() == row_up(old(self).cursor(), heights@),
    {
        if self.cursor.y > 0 {
            self.cursor.y = self.cursor.y - 1;
        } else if self.cursor.widget > 0 {
            self.cursor.widget = self.cursor.widget - 1;
            let h = heights[self.cursor.widget];
            self.cursor.y = if h > 0 { h - 1 } else { 0 };
        }
    }

    fn down_one(&mut self, heights: &Vec<usize>)
        requires
            old(self).wf(),
            old(self).widgets().len() > 0,
            heights@.len() == old(self).widgets().len(),
        ensures
            final(self).wf(),
            final(self).widgets() == old(self).widgets(),
            final(self).next_move() == old(self).next_move(),
            final(self).cursor() == row_down(old(self).cursor(), heights@),
    {
        if self.cursor.y < usize::MAX && self.cursor.y + 1 < heights[self.cursor.widget] {
            self.cursor.y = self.cursor.y + 1;
        } else if self.cursor.widget < self.widgets.len() - 1 {
            self.cursor.widget = self.cursor.widget + 1;
            self.cursor.y = 0;
        }
    }

    /// Applies the moves asked for, given the height of each widget at the
    /// drawing width, and clears the count.
    pub fn apply_moves(&mut self, heights: &Vec<usize>)
        requires
            old(self).wf(),
            heights@.len() == old(self).widgets().len(),
        ensures
            final(self).wf(),
            final(self).widgets() == old(self).widgets(),
            final(self).next_move() == 0,
            old(self).widgets().len() == 0 ==> final(self).cursor() == old(self).cursor(),
            old(self).widgets().len() > 0 && old(self).next_move() >= 0 ==> final(self).cursor() == rows_up(
                old(self).cursor(),
                heights@,
                old(self).next_move() as nat,
            ),
            old(self).widgets().len() > 0 && old(self).next_move() < 0 ==> final(self).cursor() == rows_down(
                old(self).cursor(),
                heights@,
                (-old(self).next_move()) as nat,
            ),
    {
        let view_move = self.next_move;
        self.next_move = 0;
        if self.widgets.len() == 0 {
            return;
        }
        let ghost c0 = self.cursor;
        if view_move > 0 {
            let mut k: isize = 0;
            while k < view_move
                invariant
                    self.wf(),
                    self.widgets().len() > 0,
                    heights@.len() == self.widgets().len(),
                    self.widgets() == old(self).widgets(),
                    self.next_move() == 0,
                    0 <= k <= view_move,
                    self.cursor() == rows_up(c0, heights@, k as nat),
                decreases view_move - k,
            {
                self.up_one(heights);
                k = k + 1;
            }
        } else if view_move < 0 {
            let mut k: isize = 0;
            while k > view_move
                invariant
                    self.wf(),
                    self.widgets().len() > 0,
                    heights@.len() == self.widgets().len(),
                    self.widgets() == old(self).widgets(),
                    self.next_move() == 0,
                    view_move <= k <= 0,
                    self.cursor() == rows_down(c0, heights@, (-k) as nat),
                decreases k - view_move,
            {
                self.down_one(heights);
                k = k - 1;
            }
        }
    }
}

} // verus!
