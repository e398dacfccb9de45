//! What holds of the administration interface as a whole.
use crate::admin::{
    authentication_refusal, hosted_created, leads_to_capacity, leads_to_message,
    rooms_with_capacity, ChatMessage, MaxUsersStep, PrecreateRequest,
};
use crate::answer::ApiResponse;
use crate::definition::{ChartView, DefinitionView};
use crate::ids::{distinct_counts_members, distinct_is_ascending_and_complete};
use crate::plan::outcome;
use crate::runtime::{create_decision, create_plan, is_reserved_room, SnapshotView};
use crate::runtime_laws::{
    creation_succeeds_or_leaves_no_trace, orderly, repeated_creation_finds_the_room,
};
use crate::text::{trimmed, trimmed_is_stable};
use vstd::prelude::*;

verus! {

/// A request is let in exactly if a token is configured and the request brings it.
pub proof fn only_the_configured_token_is_let_in(expected: Seq<char>, supplied: Option<Seq<char>>)
    ensures
        authentication_refusal(expected, supplied) is None <==> expected.len() > 0 && supplied
            == Some(expected),
{
}

/// Another capacity keeps the registry orderly.
pub proof fn capacity_change_keeps_the_registry_orderly(
    rooms: Map<Seq<char>, DefinitionView>,
    room_id: Seq<char>,
    n: usize,
)
    requires
        orderly(rooms),
    ensures
        orderly(rooms_with_capacity(rooms, room_id, n)),
{
    let then_rooms = rooms_with_capacity(rooms, room_id, n);
    if then_rooms != rooms {
        let d = rooms[room_id];
        let changed = DefinitionView { max_users: n, ..d };
        assert(d.settled());
        assert(d.normal_form().whitelist == d.whitelist);
        distinct_counts_members(d.whitelist);
        assert(changed.normal_form() =~= changed) by {
            assert(d.normal_form() == d);
            assert(changed.normal_form().chart == d.normal_form().chart);
            assert(changed.normal_form().chart_pool == d.normal_form().chart_pool);
        }
        assert(changed.settled());
    }
}

/// A request for another capacity that is turned down leaves the registry as it is. A reserved
/// room that is not open is the exception: it gets the capacity, though there is no room to tell.
pub proof fn refused_capacity_changes_nothing(
    rooms: Map<Seq<char>, DefinitionView>,
    room_id: Seq<char>,
    snapshot: Option<SnapshotView>,
    n: usize,
    response: ApiResponse,
)
    requires
        leads_to_capacity(MaxUsersStep::Respond { response }, rooms, room_id, snapshot, n),
        !(is_reserved_room(rooms, room_id) && snapshot is None),
    ensures
        rooms_with_capacity(rooms, room_id, n) == rooms,
{
}

/// A reserved room has place for exactly the players that are asked for.
pub proof fn reservation_seats_exactly_its_players(request: PrecreateRequest, now_ms: i64)
    ensures
        request.asks_for(now_ms).max_users == request.allowed_user_ids@.to_set().len(),
        forall|id: i32| #[trigger]
            request.asks_for(now_ms).admits(id) <==> request.allowed_user_ids@.contains(id),
{
    let ids = request.allowed_user_ids@;
    distinct_counts_members(ids);
    distinct_is_ascending_and_complete(ids);
    ids.lemma_cardinality_of_set();
    assert(ids.len() == request.allowed_user_ids.len());
}

/// A reservation that is sent again, at another time, finds the room that the first one made.
pub proof fn repeated_reservation_finds_the_room(
    rooms: Map<Seq<char>, DefinitionView>,
    open: Seq<Seq<char>>,
    max_rooms: Option<usize>,
    request: PrecreateRequest,
    now_ms: i64,
    later_ms: i64,
    drawn: Option<ChartView>,
    answers: spec_fn(int) -> Option<Seq<char>>,
)
    requires
        !rooms.contains_key(request.room_id@),
        request.asks_for(now_ms).refusal() is None,
        outcome(
            create_plan(request.asks_for(now_ms).normal_form(), drawn),
            0,
            rooms,
            answers,
        ).1 is Ok,
    ensures
        create_decision(
            outcome(
                create_plan(request.asks_for(now_ms).normal_form(), drawn),
                0,
                rooms,
                answers,
            ).0,
            open,
            max_rooms,
            request.asks_for(later_ms),
        ) is Existing,
{
    let first = request.asks_for(now_ms);
    let again = request.asks_for(later_ms);
    assert(again.whitelist_ok() == first.whitelist_ok());
    assert(again.host_ok() == first.host_ok());
    assert(again.charts_ok() == first.charts_ok());
    assert(again.refusal() is None);
    assert(first.normal_form().same_configuration(again.normal_form()));
    repeated_creation_finds_the_room(rooms, open, max_rooms, first, again, drawn, answers);
}

/// Once a room has been created, the registry has it for the answer, which says so.
pub proof fn created_room_is_there_for_the_answer(
    rooms: Map<Seq<char>, DefinitionView>,
    n: DefinitionView,
    drawn: Option<ChartView>,
    answers: spec_fn(int) -> Option<Seq<char>>,
)
    requires
        !rooms.contains_key(n.room_id),
        outcome(create_plan(n, drawn), 0, rooms, answers).1 is Ok,
    ensures
        ({
            let then_rooms = outcome(create_plan(n, drawn), 0, rooms, answers).0;
            &&& then_rooms.contains_key(n.room_id)
            &&& hosted_created(then_rooms, n.room_id, true).status == 201
        }),
{
    creation_succeeds_or_leaves_no_trace(rooms, n, drawn, answers);
}

/// What is sent to a room has 1 to 200 characters, and no white space at its ends.
pub proof fn sent_messages_are_short_and_trimmed(
    chat: ChatMessage,
    open: Seq<Seq<char>>,
    room_id: Seq<char>,
    message: Option<Seq<char>>,
)
    requires
        leads_to_message(Ok(chat), open, room_id, message),
    ensures
        1 <= chat.content@.len() <= 200,
        trimmed(chat.content@) == chat.content@,
        open.contains(room_id),
{
    if let Some(text) = message {
        trimmed_is_stable(text);
    }
}

} // verus!
