//! The managed rooms that exist, by room identifier.
use crate::definition::{DefinitionView, ManagedRoomDefinition};
use crate::text::same_text;
use vstd::prelude::*;

verus! {

/// The definitions by room identifier; of two with the same identifier the later one counts.
spec fn keyed(rooms: Seq<ManagedRoomDefinition>) -> Map<Seq<char>, DefinitionView>
    decreases rooms.len(),
{
    if rooms.len() == 0 {
        Map::empty()
    } else {
        keyed(rooms.drop_last()).insert(rooms.last().room_id@, rooms.last()@)
    }
}

spec fn no_room_twice(rooms: Seq<ManagedRoomDefinition>) -> bool {
    forall|i: int, j: int|
        0 <= i < j < rooms.len() ==> (#[trigger] rooms[i]).room_id@ != (#[trigger] rooms[j]).room_id@
}

/// Every definition stands under its own room identifier.
pub open spec fn keyed_by_room_id(rooms: Map<Seq<char>, DefinitionView>) -> bool {
    forall|id: Seq<char>| #[trigger] rooms.contains_key(id) ==> rooms[id].room_id == id
}

/// The definitions of the managed rooms. At most one stands under each room identifier.
pub struct RoomRegistry {
    rooms: Vec<ManagedRoomDefinition>,
}

impl View for RoomRegistry {
    type V = Map<Seq<char>, DefinitionView>;

    closed spec fn view(&self) -> Map<Seq<char>, DefinitionView> {
        keyed(self.rooms@)
    }
}

proof fn lemma_keyed(rooms: Seq<ManagedRoomDefinition>)
    requires
        no_room_twice(rooms),
    ensures
        keyed_by_room_id(keyed(rooms)),
        forall|i: int|
            0 <= i < rooms.len() ==> keyed(rooms).contains_key((#[trigger] rooms[i]).room_id@)
                && keyed(rooms)[rooms[i].room_id@] == rooms[i]@,
        forall|id: Seq<char>| #[trigger]
            keyed(rooms).contains_key(id) ==> exists|i: int|
                0 <= i < rooms.len() && (#[trigger] rooms[i]).room_id@ == id,
        keyed(rooms).dom().finite(),
        keyed(rooms).dom().len() == rooms.len(),
    decreases rooms.len(),
{
    if rooms.len() > 0 {
        let front = rooms.drop_last();
        lemma_keyed(front);
        let last = rooms[rooms.len() - 1];
        assert(!keyed(front).contains_key(last.room_id@)) by {
            if keyed(front).contains_key(last.room_id@) {
                let i = choose|i: int|
                    0 <= i < front.len() && (#[trigger] front[i]).room_id@ == last.room_id@;
                assert(rooms[i].room_id@ == last.room_id@);
            }
        }
        assert forall|i: int| 0 <= i < rooms.len() implies keyed(rooms).contains_key(
            (#[trigger] rooms[i]).room_id@,
        ) && keyed(rooms)[rooms[i].room_id@] == rooms[i]@ by {
            if i < front.len() {
                assert(front[i] == rooms[i]);
                assert(rooms[i].room_id@ != last.room_id@);
            }
        }
        assert forall|id: Seq<char>| #[trigger] keyed(rooms).contains_key(id) implies exists|i: int|
            0 <= i < rooms.len() && (#[trigger] rooms[i]).room_id@ == id by {
            if id == last.room_id@ {
            } else {
                let i = choose|i: int| 0 <= i < front.len() && (#[trigger] front[i]).room_id@ == id;
                assert(rooms[i].room_id@ == id);
            }
        }
    }
}

/// To take an entry out of the list is to take it out of the map.
proof fn lemma_keyed_remove(rooms: Seq<ManagedRoomDefinition>, at: int)
    requires
        no_room_twice(rooms),
        0 <= at < rooms.len(),
    ensures
        no_room_twice(rooms.remove(at)),
        keyed(rooms.remove(at)) == keyed(rooms).remove(rooms[at].room_id@),
{
    let rest = rooms.remove(at);
    assert forall|i: int, j: int| 0 <= i < j < rest.len() implies (#[trigger] rest[i]).room_id@ != (
    #[trigger] rest[j]).room_id@ by {
        let a = if i < at { i } else { i + 1 };
        let b = if j < at { j } else { j + 1 };
        assert(rest[i] == rooms[a] && rest[j] == rooms[b]);
    }
    lemma_keyed(rooms);
    lemma_keyed(rest);
    let gone = rooms[at].room_id@;
    assert forall|id: Seq<char>| keyed(rest).contains_key(id) <==> keyed(rooms).remove(
        gone,
    ).contains_key(id) by {
        if keyed(rest).contains_key(id) {
            let i = choose|i: int| 0 <= i < rest.len() && (#[trigger] rest[i]).room_id@ == id;
            let a = if i < at { i } else { i + 1 };
            assert(rooms[a] == rest[i]);
            if a < at {
                assert(rooms[a].room_id@ != rooms[at].room_id@);
            } else {
                assert(rooms[at].room_id@ != rooms[a].room_id@);
            }
        }
        if keyed(rooms).contains_key(id) && id != gone {
            let a = choose|a: int| 0 <= a < rooms.len() && (#[trigger] rooms[a]).room_id@ == id;
            let i = if a < at { a } else { a - 1 };
            assert(rest[i] == rooms[a]);
        }
    }
    assert forall|id: Seq<char>| keyed(rest).contains_key(id) implies #[trigger] keyed(rest)[id]
        == keyed(rooms)[id] by {
        let i = choose|i: int| 0 <= i < rest.len() && (#[trigger] rest[i]).room_id@ == id;
        let a = if i < at { i } else { i + 1 };
        assert(rooms[a] == rest[i]);
    }
    assert(keyed(rest) =~= keyed(rooms).remove(gone));
}

impl RoomRegistry {
    #[verifier::type_invariant]
    spec fn well_formed(self) -> bool {
        no_room_twice(self.rooms@)
    }

    /// A registry without rooms.
    pub fn new() -> (r: Self)
        ensures
            r@ == Map::<Seq<char>, DefinitionView>::empty(),
    {
        RoomRegistry { rooms: Vec::new() }
    }

    fn position(rooms: &Vec<ManagedRoomDefinition>, room_id: &str) -> (r: Option<usize>)
        ensures
            match r {
                Some(i) => i < rooms@.len() && rooms@[i as int].room_id@ == room_id@,
                None => forall|i: int|
                    0 <= i < rooms@.len() ==> (#[trigger] rooms@[i]).room_id@ != room_id@,
            },
    {
        let mut i: usize = 0;
        while i < rooms.len()
            invariant
                i <= rooms@.len(),
                forall|j: int| 0 <= j < i ==> (#[trigger] rooms@[j]).room_id@ != room_id@,
            decreases rooms@.len() - i,
        {
            if same_text(rooms[i].room_id.as_str(), room_id) {
                return Some(i);
            }
            i = i + 1;
        }
        None
    }

    /// The definition of the room, if it is managed.
    pub fn get(&self, room_id: &str) -> (r: Option<&ManagedRoomDefinition>)
        ensures
            r is Some <==> self@.contains_key(room_id@),
            r matches Some(d) ==> d@ == self@[room_id@] && d@.room_id == room_id@,
    {
        proof {
            use_type_invariant(self);
            lemma_keyed(self.rooms@);
        }
        match Self::position(&self.rooms, room_id) {
            Some(i) => Some(&self.rooms[i]),
            None => None,
        }
    }

    /// Puts the definition under its room identifier, in the place of one that stood there.
    pub fn insert(&mut self, definition: ManagedRoomDefinition)
        ensures
            final(self)@ == old(self)@.insert(definition@.room_id, definition@),
    {
        proof {
            use_type_invariant(&*self);
        }
        let ghost before = self@;
        self.remove(definition.room_id.as_str());
        proof {
            use_type_invariant(&*self);
        }
        let mut rooms: Vec<ManagedRoomDefinition> = Vec::new();
        std::mem::swap(&mut rooms, &mut self.rooms);
        let ghost rest = rooms@;
        rooms.push(definition);
        proof {
            lemma_keyed(rest);
            assert(rooms@.drop_last() =~= rest);
            assert(!keyed(rest).contains_key(definition.room_id@));
            assert forall|i: int, j: int| 0 <= i < j < rooms@.len() implies (
            #[trigger] rooms@[i]).room_id@ != (#[trigger] rooms@[j]).room_id@ by {
                if j == rest.len() {
                    assert(rest[i] == rooms@[i]);
                } else {
                    assert(rest[i] == rooms@[i] && rest[j] == rooms@[j]);
                }
            }
            assert(keyed(rooms@) =~= before.insert(definition.room_id@, definition@));
        }
        self.rooms = rooms;
    }

    /// Takes the room out of the registry.
    pub fn remove(&mut self, room_id: &str)
        ensures
            final(self)@ == old(self)@.remove(room_id@),
    {
        proof {
            use_type_invariant(&*self);
            lemma_keyed(self.rooms@);
        }
        match Self::position(&self.rooms, room_id) {
            Some(i) => {
                proof {
                    lemma_keyed_remove(self.rooms@, i as int);
                }
                let mut rooms: Vec<ManagedRoomDefinition> = Vec::new();
                std::mem::swap(&mut rooms, &mut self.rooms);
                rooms.remove(i);
                self.rooms = rooms;
            },
            None => {
                assert(self@.remove(room_id@) =~= self@);
            },
        }
    }

    /// All definitions, each once.
    pub fn definitions(&self) -> (r: &Vec<ManagedRoomDefinition>)
        ensures
            r@.len() == self@.dom().len(),
            self@.dom().finite(),
            keyed_by_room_id(self@),
            forall|i: int|
                0 <= i < r@.len() ==> self@.contains_key((#[trigger] r@[i])@.room_id)
                    && self@[r@[i]@.room_id] == r@[i]@,
            forall|id: Seq<char>| #[trigger]
                self@.contains_key(id) ==> exists|i: int|
                    0 <= i < r@.len() && (#[trigger] r@[i])@ == self@[id],
    {
        proof {
            use_type_invariant(self);
            lemma_keyed(self.rooms@);
            assert forall|id: Seq<char>| #[trigger] self@.contains_key(id) implies exists|i: int|
                0 <= i < self.rooms@.len() && (#[trigger] self.rooms@[i])@ == self@[id] by {
                let i = choose|i: int|
                    0 <= i < self.rooms@.len() && (#[trigger] self.rooms@[i]).room_id@ == id;
                assert(self.rooms@[i]@ == self@[id]);
            }
        }
        &self.rooms
    }
}

} // verus!
