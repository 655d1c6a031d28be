use crate::event::str_to_string;
use crate::room::RoomAddress;
use vstd::prelude::*;

verus! {

/// An open room: its address, its alias, and the sender that reaches the
/// session serving it.
#[derive(Debug)]
pub struct Registered<S> {
    pub address: RoomAddress,
    pub alias: String,
    pub sender: S,
}

/// The registry of every open room, in the order they were opened, and the
/// room the user has selected.
#[derive(Debug)]
pub struct Dispatcher<S> {
    rooms: Vec<Registered<S>>,
    current: usize,
}

/// The index of the entry at `address`.
pub open spec fn position_of(addresses: Seq<Seq<usize>>, address: Seq<usize>) -> Option<int>
    decreases addresses.len(),
{
    if addresses.len() == 0 {
        None
    } else {
        match position_of(addresses.drop_last(), address) {
            Some(i) => Some(i),
            None => if addresses.last() == address {
                Some(addresses.len() - 1)
            } else {
                None
            },
        }
    }
}

pub open spec fn dropped_action() -> Seq<char> {
    "No room is open at this address: the action is dropped"@
}

pub open spec fn address_taken() -> Seq<char> {
    "A room is already open at this address"@
}

impl<S> Dispatcher<S> {
    /// The addresses of the open rooms, in the order they were opened.
    pub closed spec fn addresses(&self) -> Seq<Seq<usize>> {
        self.rooms@.map_values(|r: Registered<S>| r.address@)
    }

    pub closed spec fn aliases(&self) -> Seq<Seq<char>> {
        self.rooms@.map_values(|r: Registered<S>| r.alias@)
    }

    pub closed spec fn senders(&self) -> Seq<S> {
        self.rooms@.map_values(|r: Registered<S>| r.sender)
    }

    /// The index of the selected room.
    pub closed spec fn current(&self) -> nat {
        self.current as nat
    }

    pub open spec fn wf(&self) -> bool {
        &&& self.addresses().len() == self.aliases().len()
        &&& self.addresses().len() == self.senders().len()
        &&& (self.current() == 0 || self.current() < self.addresses().len())
        &&& forall|i: int, j: int|
            0 <= i < j < self.addresses().len() ==> #[trigger] self.addresses()[i] != #[trigger] self.addresses()[j]
    }

    pub fn new() -> (r: Dispatcher<S>)
        ensures
            r.wf(),
            r.addresses() == Seq::<Seq<usize>>::empty(),
            r.current() == 0,
    {
        let r = Dispatcher { rooms: Vec::new(), current: 0 };
        assert(r.addresses() =~= Seq::<Seq<usize>>::empty());
        r
    }

    pub fn len(&self) -> (r: usize)
        ensures
            r == self.addresses().len(),
    {
        self.rooms.len()
    }

    /// Where the room at `address` stands in the registry, if it is open.
    pub fn position(&self, address: &RoomAddress) -> (r: Option<usize>)
        ensures
            match r {
                Some(i) => position_of(self.addresses(), address@) == Some(i as int),
                None => position_of(self.addresses(), address@) is None,
            },
    {
        let mut i: usize = 0;
        while i < self.rooms.len()
            invariant
                i <= self.rooms@.len(),
                position_of(self.addresses().take(i as int), address@) is None,
            decreases self.rooms@.len() - i,
        {
            assert(self.addresses().take(i + 1).drop_last() =~= self.addresses().take(i as int));
            if self.rooms[i].address == *address {
                proof {
                    lemma_position_prefix(self.addresses(), address@, i as int);
                }
                return Some(i);
            }
            i = i + 1;
        }
        assert(self.addresses().take(i as int) =~= self.addresses());
        None
    }

    /// Enters a spawned room, unless a room is already open at its address.
    pub fn register(&mut self, address: RoomAddress, alias: String, sender: S) -> (r: Result<(), String>)
        requires
            old(self).wf(),
        ensures
            final(self).wf(),
            match r {
                Ok(_) => position_of(old(self).addresses(), address@) is None
                    && final(self).addresses() == old(self).addresses().push(address@)
                    && final(self).aliases() == old(self).aliases().push(alias@)
                    && final(self).senders() == old(self).senders().push(sender)
                    && final(self).current() == old(self).current(),
                Err(e) => position_of(old(self).addresses(), address@) is Some && e@ == address_taken()
                    && *final(self) == *old(self),
            },
    {
        proof {
            reveal_strlit("A room is already open at this address");
        }
        match self.position(&address) {
            Some(_) => Err(str_to_string("A room is already open at this address")),
            None => {
                proof {
                    lemma_position_none(self.addresses(), address@);
                }
                let ghost a = address@;
                let ghost l = alias@;
                self.rooms.push(Registered { address, alias, sender });
                assert(final(self).addresses() =~= old(self).addresses().push(a));
                assert(final(self).aliases() =~= old(self).aliases().push(l));
                assert(final(self).senders() =~= old(self).senders().push(sender));
                Ok(())
            },
        }
    }

    /// The sender of the room that an action for `target` goes to; a diagnostic
    /// when no room is open there, in which case the action is dropped.
    pub fn route(&self, target: &RoomAddress) -> (r: Result<&S, String>)
        ensures
            match r {
                Ok(s) => position_of(self.addresses(), target@) matches Some(i) && *s == self.senders()[i],
                Err(e) => position_of(self.addresses(), target@) is None && e@ == dropped_action(),
            },
    {
        proof {
            reveal_strlit("No room is open at this address: the action is dropped");
        }
        match self.position(target) {
            Some(i) => {
                proof {
                    lemma_position_bound(self.addresses(), target@);
                }
                Ok(&self.rooms[i].sender)
            },
            None => Err(str_to_string("No room is open at this address: the action is dropped")),
        }
    }

    /// The alias of the `i`-th room opened.
    pub fn alias(&self, i: usize) -> (r: String)
        requires
            self.wf(),
            i < self.addresses().len(),
        ensures
            r@ == self.aliases()[i as int],
    {
        self.rooms[i].alias.clone()
    }

    /// The address of the selected room.
    pub fn current_address(&self) -> (r: Option<&RoomAddress>)
        requires
            self.wf(),
        ensures
            self.addresses().len() == 0 ==> r is None,
            self.addresses().len() > 0 ==> (r matches Some(a) && a@ == self.addresses()[self.current() as int]),
    {
        if self.rooms.len() == 0 {
            None
        } else {
            Some(&self.rooms[self.current].address)
        }
    }

    /// Selects the next room, if there is one.
    pub fn select_next(&mut self)
        requires
            old(self).wf(),
        ensures
            final(self).wf(),
            final(self).addresses() == old(self).addresses(),
            final(self).current() == if old(self).current() + 1 < old(self).addresses().len() {
                old(self).current() + 1
            } else {
                old(self).current()
            },
    {
        if self.rooms.len() > 0 && self.current < self.rooms.len() - 1 {
            self.current = self.current + 1;
        }
    }

    /// Selects the previous room, if there is one.
    pub fn select_previous(&mut self)
        requires
            old(self).wf(),
        ensures
            final(self).wf(),
            final(self).addresses() == old(self).addresses(),
            final(self).current() == if old(self).current() > 0 {
                (old(self).current() - 1) as nat
            } else {
                0
            },
    {
        if self.current > 0 {
            self.current = self.current - 1;
        }
    }
}

proof fn lemma_position_prefix(addresses: Seq<Seq<usize>>, address: Seq<usize>, i: int)
    requires
        0 <= i < addresses.len(),
        addresses[i] == address,
        position_of(addresses.take(i), address) is None,
    ensures
        position_of(addresses, address) == Some(i),
    decreases addresses.len(),
{
    if addresses.len() == i + 1 {
        assert(addresses.drop_last() =~= addresses.take(i));
    } else {
        assert(addresses.drop_last().take(i) =~= addresses.take(i));
        lemma_position_prefix(addresses.drop_last(), address, i);
    }
}

/// No entry is at `address` when its position is unknown.
pub proof fn lemma_position_none(addresses: Seq<Seq<usize>>, address: Seq<usize>)
    requires
        position_of(addresses, address) is None,
    ensures
        forall|k: int| 0 <= k < addresses.len() ==> addresses[k] != address,
    decreases addresses.len(),
{
    if addresses.len() > 0 {
        lemma_position_none(addresses.drop_last(), address);
        assert forall|k: int| 0 <= k < addresses.len() implies addresses[k] != address by {
            if k < addresses.len() - 1 {
                assert(addresses.drop_last()[k] == addresses[k]);
            }
        }
    }
}

proof fn lemma_position_bound(addresses: Seq<Seq<usize>>, address: Seq<usize>)
    ensures
        (position_of(addresses, address) matches Some(i) ==> 0 <= i < addresses.len() && addresses[i] == address),
    decreases addresses.len(),
{
    if addresses.len() > 0 {
        lemma_position_bound(addresses.drop_last(), address);
    }
}

} // verus!
