use crate::event::push_char;
use vstd::prelude::*;

verus! {

/// Where a room sits in the tree of rooms: the path of child indices from the
/// root. The root room has the empty path.
#[derive(Debug, Clone, Hash)]
pub struct RoomAddress {
    pub segments: Vec<usize>,
}

impl View for RoomAddress {
    type V = Seq<usize>;

    open spec fn view(&self) -> Seq<usize> {
        self.segments@
    }
}

impl RoomAddress {
    pub fn root() -> (r: RoomAddress)
        ensures
            r@ == Seq::<usize>::empty(),
    {
        RoomAddress { segments: Vec::new() }
    }

    /// The address of child `index` of `parent`.
    pub fn child_of(parent: &RoomAddress, index: usize) -> (r: RoomAddress)
        ensures
            r@ == parent@.push(index),
            r@.len() == parent@.len() + 1,
    {
        let mut segments: Vec<usize> = Vec::new();
        let mut i: usize = 0;
        while i < parent.segments.len()
            invariant
                i <= parent@.len(),
                segments@ == parent@.subrange(0, i as int),
            decreases parent@.len() - i,
        {
            segments.push(parent.segments[i]);
            i = i + 1;
        }
        assert(segments@ == parent@);
        segments.push(index);
        RoomAddress { segments }
    }

    pub fn is_root(&self) -> (r: bool)
        ensures
            r == (self@.len() == 0),
    {
        self.segments.len() == 0
    }

    /// Depth of the room in the tree: 0 for the root.
    pub fn len(&self) -> (r: usize)
        ensures
            r == self@.len(),
    {
        self.segments.len()
    }

    /// Whether `self` is a direct child of `parent`.
    pub fn is_child_of(&self, parent: &RoomAddress) -> (r: bool)
        ensures
            r == (self@.len() == parent@.len() + 1 && self@.subrange(0, parent@.len() as int)
                == parent@),
    {
        if self.segments.len() == 0 || self.segments.len() - 1 != parent.segments.len() {
            return false;
        }
        let mut i: usize = 0;
        while i < parent.segments.len()
            invariant
                self@.len() == parent@.len() + 1,
                i <= parent@.len(),
                forall|k: int| 0 <= k < i ==> self@[k] == parent@[k],
            decreases parent@.len() - i,
        {
            if self.segments[i] != parent.segments[i] {
                assert(self@.subrange(0, parent@.len() as int)[i as int] != parent@[i as int]);
                return false;
            }
            i = i + 1;
        }
        assert(self@.subrange(0, parent@.len() as int) =~= parent@);
        true
    }

    /// The last segment: which child of its parent this room is.
    pub fn last_index(&self) -> (r: Option<usize>)
        ensures
            self@.len() == 0 ==> r is None,
            self@.len() > 0 ==> r == Some(self@.last()),
    {
        if self.segments.len() == 0 {
            None
        } else {
            Some(self.segments[self.segments.len() - 1])
        }
    }

    pub fn copy(&self) -> (r: RoomAddress)
        ensures
            r@ == self@,
    {
        let mut segments: Vec<usize> = Vec::new();
        let mut i: usize = 0;
        while i < self.segments.len()
            invariant
                i <= self@.len(),
                segments@ == self@.subrange(0, i as int),
            decreases self@.len() - i,
        {
            segments.push(self.segments[i]);
            i = i + 1;
        }
        assert(segments@ == self@);
        RoomAddress { segments }
    }
}

/// The decimal digit for `d` (below ten).
pub open spec fn digit_char(d: nat) -> char {
    if d == 0 { '0' } else if d == 1 { '1' } else if d == 2 { '2' } else if d == 3 { '3' } else if d == 4 {
        '4'
    } else if d == 5 { '5' } else if d == 6 { '6' } else if d == 7 { '7' } else if d == 8 { '8' } else { '9' }
}

/// `n` written in decimal.
pub open spec fn decimal(n: nat) -> Seq<char>
    decreases n,
{
    if n < 10 {
        seq![digit_char(n)]
    } else {
        decimal(n / 10).push(digit_char(n % 10))
    }
}

/// An address written as its segments, each after a `/`; the root is `/`.
pub open spec fn address_text(a: Seq<usize>) -> Seq<char> {
    if a.len() == 0 {
        seq!['/']
    } else {
        path_text(a)
    }
}

pub open spec fn path_text(a: Seq<usize>) -> Seq<char>
    decreases a.len(),
{
    if a.len() == 0 {
        seq![]
    } else {
        path_text(a.drop_last()).push('/') + decimal(a.last() as nat)
    }
}

fn digit(d: usize) -> (r: char)
    requires
        d < 10,
    ensures
        r == digit_char(d as nat),
{
    if d == 0 { '0' } else if d == 1 { '1' } else if d == 2 { '2' } else if d == 3 { '3' } else if d == 4 {
        '4'
    } else if d == 5 { '5' } else if d == 6 { '6' } else if d == 7 { '7' } else if d == 8 { '8' } else { '9' }
}

fn push_decimal(s: &mut String, n: usize)
    ensures
        final(s)@ == old(s)@ + decimal(n as nat),
    decreases n,
{
    if n < 10 {
        push_char(s, digit(n));
        assert(final(s)@ =~= old(s)@ + decimal(n as nat));
    } else {
        push_decimal(s, n / 10);
        push_char(s, digit(n % 10));
        assert(final(s)@ =~= old(s)@ + decimal(n as nat));
    }
}

impl RoomAddress {
    /// The address as text, as in `/0/3`.
    pub fn to_text(&self) -> (r: String)
        ensures
            r@ == address_text(self@),
    {
        let mut r = String::new();
        if self.segments.len() == 0 {
            push_char(&mut r, '/');
            assert(r@ =~= seq!['/']);
            return r;
        }
        let mut i: usize = 0;
        assert(self@.take(0) =~= Seq::<usize>::empty());
        while i < self.segments.len()
            invariant
                i <= self@.len(),
                r@ == path_text(self@.take(i as int)),
            decreases self@.len() - i,
        {
            assert(self@.take(i + 1).drop_last() =~= self@.take(i as int));
            push_char(&mut r, '/');
            push_decimal(&mut r, self.segments[i]);
            i = i + 1;
        }
        assert(self@.take(i as int) =~= self@);
        r
    }
}

impl PartialEq for RoomAddress {
    fn eq(&self, other: &RoomAddress) -> (r: bool)
        ensures
            r == (self@ == other@),
    {
        if self.segments.len() != other.segments.len() {
            return false;
        }
        let mut i: usize = 0;
        while i < self.segments.len()
            invariant
                self@.len() == other@.len(),
                i <= self@.len(),
                forall|k: int| 0 <= k < i ==> self@[k] == other@[k],
            decreases self@.len() - i,
        {
            if self.segments[i] != other.segments[i] {
                return false;
            }
            i = i + 1;
        }
        assert(self@ =~= other@);
        true
    }
}

impl vstd::std_specs::cmp::PartialEqSpecImpl for RoomAddress {
    open spec fn obeys_eq_spec() -> bool {
        true
    }

    open spec fn eq_spec(&self, other: &RoomAddress) -> bool {
        self@ == other@
    }
}

impl Eq for RoomAddress {
}

/// Every child address is one segment longer than its parent, and two children
/// of one parent with different indices have different addresses.
pub proof fn lemma_child_of(parent: Seq<usize>, i: usize, j: usize)
    ensures
        parent.push(i).len() == parent.len() + 1,
        i != j ==> parent.push(i) != parent.push(j),
{
    if i != j {
        assert(parent.push(i)[parent.len() as int] != parent.push(j)[parent.len() as int]);
    }
}

} // verus!
