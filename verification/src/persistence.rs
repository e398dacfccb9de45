//! What is kept of managed rooms for the next start of the server.
use crate::definition::{DefinitionView, ManagedRoomDefinition};
use vstd::prelude::*;

verus! {

/// The records that can be read, in their order.
pub open spec fn readable(records: Seq<Option<ManagedRoomDefinition>>) -> Seq<DefinitionView>
    decreases records.len(),
{
    if records.len() == 0 {
        Seq::empty()
    } else {
        match records.last() {
            Some(definition) => readable(records.drop_last()).push(definition@),
            None => readable(records.drop_last()),
        }
    }
}

pub open spec fn definition_list(definitions: Seq<ManagedRoomDefinition>) -> Seq<DefinitionView> {
    Seq::new(definitions.len(), |i: int| definitions[i]@)
}

/// The saved definitions. `None` stands for a record that cannot be read; it is passed over.
pub fn load_hosted_room_definitions(records: Vec<Option<ManagedRoomDefinition>>) -> (r: Vec<
    ManagedRoomDefinition,
>)
    ensures
        definition_list(r@) == readable(records@),
{
    let ghost all = records@;
    let mut r: Vec<ManagedRoomDefinition> = Vec::new();
    for record in it: records
        invariant
            it.seq() == all,
            definition_list(r@) == readable(all.take(it.index() as int)),
    {
        let ghost before = r@;
        let ghost seen = all.take(it.index() as int);
        assert(all.take(it.index() + 1) =~= seen.push(record));
        assert(seen.push(record).drop_last() =~= seen);
        match record {
            Some(definition) => {
                r.push(definition);
                assert(definition_list(r@) =~= definition_list(before).push(definition@));
            },
            None => {},
        }
    }
    assert(all.take(all.len() as int) =~= all);
    r
}

/// Whether the definition may be saved: only hosted rooms are restored.
pub fn upsert_hosted_room_definition(definition: &ManagedRoomDefinition) -> (r: Result<(), String>)
    ensures
        r is Ok <==> definition@.is_hosted(),
        r matches Err(e) ==> e@ == "only hosted rooms are restart-persistent"@,
{
    if definition.is_hosted() {
        Ok(())
    } else {
        Err("only hosted rooms are restart-persistent".to_string())
    }
}

/// Each record that can be read is loaded, each that cannot is left out, and the order stays: what
/// is loaded of two lists, one behind the other, is what is loaded of each.
pub proof fn records_are_loaded_one_by_one(
    first: Seq<Option<ManagedRoomDefinition>>,
    rest: Seq<Option<ManagedRoomDefinition>>,
    definition: ManagedRoomDefinition,
)
    ensures
        readable(seq![Some(definition)]) == seq![definition@],
        readable(seq![None::<ManagedRoomDefinition>]).len() == 0,
        readable(first + rest) == readable(first) + readable(rest),
    decreases rest.len(),
{
    reveal_with_fuel(readable, 2);
    assert(seq![Some(definition)].drop_last() =~= Seq::empty());
    assert(seq![None::<ManagedRoomDefinition>].drop_last() =~= Seq::empty());
    assert(readable(seq![Some(definition)]) =~= seq![definition@]);
    if rest.len() == 0 {
        assert(first + rest =~= first);
        assert(readable(first) + readable(rest) =~= readable(first));
    } else {
        records_are_loaded_one_by_one(first, rest.drop_last(), definition);
        assert((first + rest).drop_last() =~= first + rest.drop_last());
        assert((first + rest).last() == rest.last());
        assert(readable(first + rest) =~= readable(first) + readable(rest));
    }
}

} // verus!
