//! What holds of every definition.
use crate::definition::{
    first_chart, lemma_first_chart, merged_pool, pool_ids, ChartMode, ChartView, DefinitionView,
    ManagedRoomKind, MAX_MANAGED_ROOM_USERS,
};
use crate::ids::{
    ascending, distinct, distinct_counts_members, distinct_ignores_order_and_repetition,
    distinct_is_ascending_and_complete, distinct_keeps_ascending, is_first,
};
use crate::room_id::room_id_ok;
use crate::text::{
    is_white_space, surrounding_white_space_is_trimmed, trimmed, trimmed_is_stable,
};
use vstd::prelude::*;

verus! {

/// A chart that is normalized stays as it is, and is as valid as it was before.
pub proof fn normalized_chart_is_stable(chart: ChartView)
    ensures
        chart.normalized().normalized() == chart.normalized(),
        chart.normalized().valid() == chart.valid(),
{
    trimmed_is_stable(chart.name);
}

/// `first_chart` finds a chart of the pool with the wanted identifier, if the pool has one.
proof fn lemma_first_chart_of(pool: Seq<ChartView>, id: i32) -> (at: int)
    requires
        pool_ids(pool).contains(id),
    ensures
        0 <= at < pool.len(),
        pool[at].id == id,
        first_chart(pool, id) == pool[at],
        is_first(pool_ids(pool), 0, at),
    decreases pool.len(),
{
    let ids = pool_ids(pool);
    if ids[0] == id {
        lemma_first_chart(pool, 0);
        0
    } else {
        let rest = pool.drop_first();
        let k = choose|k: int| 0 <= k < ids.len() && ids[k] == id;
        assert(pool_ids(rest)[k - 1] == id);
        let at = lemma_first_chart_of(rest, id) + 1;
        assert(pool[at] == rest[at - 1]);
        assert forall|j: int| 0 <= j < at implies ids[j] != ids[at] by {
            if j > 0 {
                assert(pool_ids(rest)[j - 1] == ids[j]);
            }
        }
        lemma_first_chart(pool, at);
        at
    }
}

/// `chart` is the first chart of the pool with its identifier, its name trimmed.
pub open spec fn taken_from(pool: Seq<ChartView>, chart: ChartView) -> bool {
    exists|at: int|
        0 <= at < pool.len() && chart == (#[trigger] pool[at]).normalized() && is_first(
            pool_ids(pool),
            0,
            at,
        )
}

/// The merged pool: one chart for each identifier, by ascending identifier, each of them the
/// first chart of the pool with its identifier, its name trimmed.
pub proof fn merged_pool_keeps_the_first_of_each(pool: Seq<ChartView>)
    ensures
        ascending(pool_ids(merged_pool(pool))),
        forall|id: i32| #[trigger]
            pool_ids(merged_pool(pool)).contains(id) <==> pool_ids(pool).contains(id),
        forall|k: int|
            0 <= k < merged_pool(pool).len() ==> taken_from(pool, #[trigger] merged_pool(pool)[k]),
{
    let ids = distinct(pool_ids(pool));
    let merged = merged_pool(pool);
    distinct_is_ascending_and_complete(pool_ids(pool));
    assert forall|k: int| 0 <= k < merged.len() implies taken_from(pool, #[trigger] merged[k]) by {
        assert(ids.contains(ids[k]));
        let at = lemma_first_chart_of(pool, ids[k]);
        assert(merged[k] == pool[at].normalized());
    }
    assert(pool_ids(merged) =~= ids) by {
        assert forall|k: int| 0 <= k < ids.len() implies #[trigger] pool_ids(merged)[k] == ids[k] by {
            assert(ids.contains(ids[k]));
            let at = lemma_first_chart_of(pool, ids[k]);
        }
    }
}

/// Merging a merged pool changes nothing.
pub proof fn merged_pool_is_stable(pool: Seq<ChartView>)
    ensures
        merged_pool(merged_pool(pool)) == merged_pool(pool),
        merged_pool(pool).len() > 0 <==> pool.len() > 0,
{
    let merged = merged_pool(pool);
    merged_pool_keeps_the_first_of_each(pool);
    distinct_keeps_ascending(pool_ids(merged));
    distinct_counts_members(pool_ids(pool));
    assert forall|k: int| 0 <= k < merged.len() implies #[trigger] merged_pool(merged)[k] == merged[k] by {
        assert(taken_from(pool, merged[k]));
        let at = choose|at: int|
            0 <= at < pool.len() && merged[k] == (#[trigger] pool[at]).normalized() && is_first(
                pool_ids(pool),
                0,
                at,
            );
        normalized_chart_is_stable(pool[at]);
        assert(pool_ids(merged)[k] == merged[k].id);
        assert(is_first(pool_ids(merged), 0, k));
        lemma_first_chart(merged, k);
    }
    assert(merged_pool(merged) =~= merged);
}

/// A definition in normal form is accepted again and is stored as it is: a room that was saved
/// comes back the same.
pub proof fn normal_form_is_settled(d: DefinitionView)
    requires
        d.refusal() is None,
    ensures
        d.normal_form().settled(),
{
    let n = d.normal_form();
    distinct_is_ascending_and_complete(d.whitelist);
    distinct_counts_members(d.whitelist);
    distinct_keeps_ascending(n.whitelist);
    distinct_counts_members(n.whitelist);
    assert(n.whitelist_ok()) by {
        assert forall|i: int| 0 <= i < n.whitelist.len() implies 0 < #[trigger] n.whitelist[i] by {
            assert(n.whitelist.contains(n.whitelist[i]));
            assert(d.whitelist.contains(n.whitelist[i]));
        }
    }
    if d.host_id is Some {
        assert(n.whitelist.contains(d.host_id->0) == d.whitelist.contains(d.host_id->0));
    }
    if d.chart is Some {
        normalized_chart_is_stable(d.chart->0);
    }
    merged_pool_is_stable(d.chart_pool);
    merged_pool_keeps_the_first_of_each(d.chart_pool);
    let merged = merged_pool(d.chart_pool);
    assert forall|k: int| 0 <= k < merged.len() implies (#[trigger] merged[k]).valid() by {
        assert(taken_from(d.chart_pool, merged[k]));
        let at = choose|at: int|
            0 <= at < d.chart_pool.len() && merged[k] == (#[trigger] d.chart_pool[at]).normalized() && is_first(
                pool_ids(d.chart_pool),
                0,
                at,
            );
        normalized_chart_is_stable(d.chart_pool[at]);
    }
    assert(n.charts_ok());
    assert(n.normal_pool() =~= n.chart_pool) by {
        if d.is_hosted() && d.chart_mode == ChartMode::PoolRandom && d.chart_pool.len() == 0
            && d.chart is Some {
            let only = d.chart->0.normalized();
            let pool = seq![only];
            assert(pool_ids(pool) =~= seq![only.id]);
            distinct_keeps_ascending(pool_ids(pool));
            assert(is_first(pool_ids(pool), 0, 0));
            lemma_first_chart(pool, 0);
            assert(merged_pool(pool) =~= pool);
        }
    }
    assert(n.normal_form() =~= n);
}

/// What a stored definition looks like.
pub proof fn settled_definitions_are_orderly(d: DefinitionView)
    requires
        d.settled(),
    ensures
        ascending(d.whitelist),
        ascending(pool_ids(d.chart_pool)),
        d.whitelist.len() <= d.max_users <= MAX_MANAGED_ROOM_USERS,
        d.is_hosted() ==> d.expires_at is None && d.max_users >= 2,
        d.is_hosted() && d.chart_mode == ChartMode::PoolRandom ==> d.chart_pool.len() > 0,
        !d.is_hosted() ==> d.whitelist.len() > 0 && d.chart is Some && d.expires_at is Some
            && d.chart_mode == ChartMode::HostSelect && d.chart_pool.len() == 0,
{
    distinct_is_ascending_and_complete(d.whitelist);
    distinct_counts_members(d.whitelist);
    assert(d.normal_form().whitelist == d.whitelist);
    assert(d.normal_form().chart_pool == d.chart_pool);
    assert(d.normal_form().expires_at == d.expires_at);
    assert(d.normal_form().chart_mode == d.chart_mode);
    merged_pool_keeps_the_first_of_each(d.chart_pool);
    merged_pool_is_stable(d.chart_pool);
}

/// The order of a whitelist and repetitions in it matter neither to whether the definition is
/// accepted nor to what it is stored as.
pub proof fn whitelist_order_and_repetition_do_not_matter(a: DefinitionView, b: DefinitionView)
    requires
        b == (DefinitionView { whitelist: b.whitelist, ..a }),
        forall|x: i32| #[trigger] a.whitelist.contains(x) <==> b.whitelist.contains(x),
    ensures
        a.refusal() == b.refusal(),
        a.normal_form() == b.normal_form(),
{
    distinct_ignores_order_and_repetition(a.whitelist, b.whitelist);
    distinct_counts_members(a.whitelist);
    distinct_counts_members(b.whitelist);
    assert(a.whitelist_ok() == b.whitelist_ok()) by {
        if a.whitelist_ok() {
            assert forall|i: int| 0 <= i < b.whitelist.len() implies 0 < #[trigger] b.whitelist[i] by {
                assert(b.whitelist.contains(b.whitelist[i]));
                assert(a.whitelist.contains(b.whitelist[i]));
            }
        }
        if b.whitelist_ok() {
            assert forall|i: int| 0 <= i < a.whitelist.len() implies 0 < #[trigger] a.whitelist[i] by {
                assert(a.whitelist.contains(a.whitelist[i]));
                assert(b.whitelist.contains(a.whitelist[i]));
            }
        }
    }
    if a.host_id is Some {
        assert(a.whitelist.contains(a.host_id->0) == b.whitelist.contains(a.host_id->0));
    }
    assert(a.normal_form() =~= b.normal_form());
}

/// The normal form admits the users that the request admits.
pub proof fn normal_form_admits_the_same_users(d: DefinitionView, user_id: i32)
    ensures
        d.normal_form().admits(user_id) == d.admits(user_id),
{
    distinct_is_ascending_and_complete(d.whitelist);
    distinct_counts_members(d.whitelist);
    assert(distinct(d.whitelist).contains(user_id) == d.whitelist.contains(user_id));
}

/// The host of an accepted definition may enter the room.
pub proof fn host_is_admitted(d: DefinitionView)
    requires
        d.refusal() is None,
        d.host_id is Some,
    ensures
        d.admits(d.host_id->0),
{
}

/// To be the same configuration is an equivalence.
pub proof fn same_configuration_is_an_equivalence(
    a: DefinitionView,
    b: DefinitionView,
    c: DefinitionView,
)
    ensures
        a.same_configuration(a),
        a.same_configuration(b) ==> b.same_configuration(a),
        a.same_configuration(b) && b.same_configuration(c) ==> a.same_configuration(c),
{
}

/// Between two reserved rooms the expiry, and only the expiry, may differ.
pub proof fn reserved_configuration_ignores_only_the_expiry(a: DefinitionView, b: DefinitionView)
    requires
        a.kind == ManagedRoomKind::Reserved,
        b.kind == ManagedRoomKind::Reserved,
    ensures
        a.same_configuration(b) <==> b == (DefinitionView { expires_at: b.expires_at, ..a }),
{
}

// ---- who may enter ----

/// Where there is a whitelist, it decides, in hosted and in reserved rooms alike. Without one a
/// hosted room is open to everybody, and a reserved room to nobody.
pub proof fn whitelist_decides_who_may_enter(d: DefinitionView, user_id: i32)
    ensures
        d.whitelist.len() > 0 ==> (d.admits(user_id) <==> d.whitelist.contains(user_id)),
        d.whitelist.len() == 0 && d.kind == ManagedRoomKind::Hosted ==> d.admits(user_id),
        d.whitelist.len() == 0 && d.kind == ManagedRoomKind::Reserved ==> !d.admits(user_id),
{
}

/// Who may enter depends on the whitelist and on the kind of the room alone.
pub proof fn entry_depends_on_whitelist_and_kind_alone(
    a: DefinitionView,
    b: DefinitionView,
    user_id: i32,
)
    requires
        a.kind == b.kind,
        forall|x: i32| #[trigger] a.whitelist.contains(x) <==> b.whitelist.contains(x),
    ensures
        a.admits(user_id) == b.admits(user_id),
{
    if a.whitelist.len() > 0 {
        assert(a.whitelist.contains(a.whitelist[0]));
        assert(b.whitelist.contains(a.whitelist[0]));
    }
    if b.whitelist.len() > 0 {
        assert(b.whitelist.contains(b.whitelist[0]));
        assert(a.whitelist.contains(b.whitelist[0]));
    }
    assert(a.whitelist.contains(user_id) <==> b.whitelist.contains(user_id));
}

// ---- which definitions are accepted ----

/// A chart is accepted exactly if its identifier is not zero and between 1 and 200 characters of
/// its name are left when the white space around it is cut off.
pub proof fn charts_need_an_identifier_and_a_name(
    id: i32,
    front: Seq<char>,
    name: Seq<char>,
    back: Seq<char>,
)
    requires
        forall|i: int| 0 <= i < front.len() ==> is_white_space(#[trigger] front[i]),
        forall|i: int| 0 <= i < back.len() ==> is_white_space(#[trigger] back[i]),
        name.len() > 0 ==> !is_white_space(name.first()) && !is_white_space(name.last()),
    ensures
        (ChartView { id, name: front + name + back }).valid() <==> id != 0 && name.len() >= 1
            && name.len() <= 200,
        (ChartView { id, name: front + name + back }).normalized() == (ChartView { id, name }),
{
    surrounding_white_space_is_trimmed(front, name, back);
}

/// What a definition must be like to be accepted; everything else is refused.
pub proof fn accepted_definitions_meet_every_demand(d: DefinitionView)
    ensures
        d.refusal() is None ==> {
            &&& room_id_ok(d.room_id)
            &&& d.max_users <= 64
            &&& d.kind == ManagedRoomKind::Hosted ==> d.max_users >= 2
            &&& d.kind == ManagedRoomKind::Reserved ==> d.max_users >= 1
            &&& d.owner_id is Some ==> d.owner_id->0 > 0
            &&& d.whitelist.to_set().len() <= d.max_users
            &&& forall|x: i32| #[trigger] d.whitelist.contains(x) ==> x > 0
            &&& d.host_id is Some ==> d.host_id->0 > 0
            &&& d.host_id is Some && d.whitelist.len() > 0 ==> d.whitelist.contains(d.host_id->0)
            &&& d.chart is Some ==> (d.chart->0).valid()
            &&& forall|c: ChartView| #[trigger] d.chart_pool.contains(c) ==> c.valid()
            &&& d.kind == ManagedRoomKind::Reserved ==> d.whitelist.len() > 0 && d.chart is Some
                && d.expires_at is Some
            &&& d.kind == ManagedRoomKind::Hosted && d.chart_mode == ChartMode::PoolRandom
                ==> d.chart_pool.len() > 0 || d.chart is Some
        },
{
    if d.refusal() is None {
        assert forall|x: i32| #[trigger] d.whitelist.contains(x) implies x > 0 by {
            let i = choose|i: int| 0 <= i < d.whitelist.len() && d.whitelist[i] == x;
            assert(0 < d.whitelist[i]);
        }
        assert forall|c: ChartView| #[trigger] d.chart_pool.contains(c) implies c.valid() by {
            let i = choose|i: int| 0 <= i < d.chart_pool.len() && d.chart_pool[i] == c;
            assert(d.chart_pool[i].valid());
        }
    }
}

/// A definition that meets every demand is accepted. Of a hosted room neither a whitelist, a host,
/// an owner, a chart nor an expiry is demanded.
pub proof fn definitions_that_meet_every_demand_are_accepted(d: DefinitionView)
    requires
        room_id_ok(d.room_id),
        d.max_users <= 64,
        d.kind == ManagedRoomKind::Hosted ==> d.max_users >= 2,
        d.kind == ManagedRoomKind::Reserved ==> d.max_users >= 1,
        d.owner_id is Some ==> d.owner_id->0 > 0,
        d.whitelist.to_set().len() <= d.max_users,
        forall|x: i32| #[trigger] d.whitelist.contains(x) ==> x > 0,
        d.host_id is Some ==> d.host_id->0 > 0,
        d.host_id is Some && d.whitelist.len() > 0 ==> d.whitelist.contains(d.host_id->0),
        d.chart is Some ==> (d.chart->0).valid(),
        forall|c: ChartView| #[trigger] d.chart_pool.contains(c) ==> c.valid(),
        d.kind == ManagedRoomKind::Reserved ==> d.whitelist.len() > 0 && d.chart is Some
            && d.expires_at is Some,
        d.kind == ManagedRoomKind::Hosted && d.chart_mode == ChartMode::PoolRandom
            ==> d.chart_pool.len() > 0 || d.chart is Some,
    ensures
        d.refusal() is None,
{
    assert forall|i: int| 0 <= i < d.whitelist.len() implies 0 < #[trigger] d.whitelist[i] by {
        assert(d.whitelist.contains(d.whitelist[i]));
    }
    assert forall|i: int| 0 <= i < d.chart_pool.len() implies (#[trigger] d.chart_pool[i]).valid() by {
        assert(d.chart_pool.contains(d.chart_pool[i]));
    }
}

/// The message tells the first demand that is not met: identifier, capacity, owner, whitelist,
/// players, host, charts, the chart of a reserved room, its expiry, and the pool to draw from, in
/// this order.
pub proof fn refusals_tell_the_first_demand_that_is_not_met(d: DefinitionView)
    ensures
        ({
            let hosted = d.kind == ManagedRoomKind::Hosted;
            let id = room_id_ok(d.room_id);
            let capacity = d.max_users <= 64 && d.max_users >= if hosted {
                2int
            } else {
                1
            };
            let owner = d.owner_id is None || d.owner_id->0 > 0;
            let users = d.whitelist.to_set().len() <= d.max_users && forall|x: i32| #[trigger]
                d.whitelist.contains(x) ==> x > 0;
            let players = hosted || d.whitelist.len() > 0;
            let host = d.host_id is None || d.host_id->0 > 0 && (d.whitelist.len() == 0
                || d.whitelist.contains(d.host_id->0));
            let charts = (d.chart is None || (d.chart->0).valid()) && forall|c: ChartView| #[trigger]
                d.chart_pool.contains(c) ==> c.valid();
            let chart = hosted || d.chart is Some;
            let expiry = hosted || d.expires_at is Some;
            let pool = !hosted || d.chart_mode == ChartMode::HostSelect || d.chart_pool.len() > 0
                || d.chart is Some;
            let says = |message: Seq<char>| d.refusal() == Some(message);
            &&& !id ==> says("房间 ID 只能包含字母、数字、-、_，且长度为 1 至 20"@)
            &&& id && !capacity && hosted ==> says("房间容量必须在 2 至 64 之间"@)
            &&& id && !capacity && !hosted ==> says("房间容量必须在 1 至 64 之间"@)
            &&& id && capacity && !owner ==> says("网页房间所有者必须是正整数用户 ID"@)
            &&& id && capacity && owner && !users ==> says(
                "白名单只能包含最多 64 个不重复的正整数用户 ID，且不能超过容量"@,
            )
            &&& id && capacity && owner && users && !players ==> says(
                "预约白名单房必须包含至少一名玩家"@,
            )
            &&& id && capacity && owner && users && players && !host ==> says(
                "协议房主必须是正整数；设置白名单时房主必须在白名单中"@,
            )
            &&& id && capacity && owner && users && players && host && !charts ==> says(
                "谱面必须包含非零整数 ID 和 1 至 200 字符的名称"@,
            )
            &&& id && capacity && owner && users && players && host && charts && !chart ==> says(
                "预约白名单房必须指定谱面"@,
            )
            &&& id && capacity && owner && users && players && host && charts && chart && !expiry
                ==> says("预约白名单房必须包含过期时间"@)
            &&& id && capacity && owner && users && players && host && charts && chart && expiry
                && !pool ==> says("POOL_RANDOM 托管房必须配置至少一张本地谱池谱面"@)
        }),
{
    assert((forall|x: i32| #[trigger] d.whitelist.contains(x) ==> x > 0) <==> (forall|i: int|
        0 <= i < d.whitelist.len() ==> 0 < #[trigger] d.whitelist[i])) by {
        if forall|x: i32| #[trigger] d.whitelist.contains(x) ==> x > 0 {
            assert forall|i: int| 0 <= i < d.whitelist.len() implies 0 < #[trigger] d.whitelist[i] by {
                assert(d.whitelist.contains(d.whitelist[i]));
            }
        }
    }
    assert((forall|c: ChartView| #[trigger] d.chart_pool.contains(c) ==> c.valid()) <==> (forall|
        i: int,
    |
        0 <= i < d.chart_pool.len() ==> (#[trigger] d.chart_pool[i]).valid())) by {
        if forall|c: ChartView| #[trigger] d.chart_pool.contains(c) ==> c.valid() {
            assert forall|i: int| 0 <= i < d.chart_pool.len() implies (
            #[trigger] d.chart_pool[i]).valid() by {
                assert(d.chart_pool.contains(d.chart_pool[i]));
            }
        }
    }
}

/// No refusal reads like one of the codes for a taken identifier or a full server.
pub proof fn refusals_are_no_codes(d: DefinitionView)
    requires
        d.refusal() is Some,
    ensures
        d.refusal()->0 != "room-id-occupied"@,
        d.refusal()->0 != "rooms-limit-reached"@,
{
    reveal_strlit("room-id-occupied");
    reveal_strlit("rooms-limit-reached");
    reveal_strlit("房间 ID 只能包含字母、数字、-、_，且长度为 1 至 20");
    reveal_strlit("房间容量必须在 2 至 64 之间");
    reveal_strlit("房间容量必须在 1 至 64 之间");
    reveal_strlit("网页房间所有者必须是正整数用户 ID");
    reveal_strlit("白名单只能包含最多 64 个不重复的正整数用户 ID，且不能超过容量");
    reveal_strlit("预约白名单房必须包含至少一名玩家");
    reveal_strlit("协议房主必须是正整数；设置白名单时房主必须在白名单中");
    reveal_strlit("谱面必须包含非零整数 ID 和 1 至 200 字符的名称");
    reveal_strlit("预约白名单房必须指定谱面");
    reveal_strlit("预约白名单房必须包含过期时间");
    reveal_strlit("POOL_RANDOM 托管房必须配置至少一张本地谱池谱面");
    assert(d.refusal()->0[0] != 'r');
}

// ---- what is stored ----

/// The normal form keeps the identifier, the kind, the owner, the capacity and the host of the
/// request.
pub proof fn normal_form_keeps_who_and_where(d: DefinitionView)
    ensures
        d.normal_form().room_id == d.room_id,
        d.normal_form().kind == d.kind,
        d.normal_form().owner_id == d.owner_id,
        d.normal_form().max_users == d.max_users,
        d.normal_form().host_id == d.host_id,
{
}

/// The normal form lists each user of the request once, by ascending identifier.
pub proof fn normal_form_lists_each_user_once(d: DefinitionView)
    ensures
        forall|i: int, j: int|
            0 <= i < j < d.normal_form().whitelist.len() ==> d.normal_form().whitelist[i]
                < d.normal_form().whitelist[j],
        forall|x: i32| #[trigger]
            d.normal_form().whitelist.contains(x) <==> d.whitelist.contains(x),
{
    distinct_is_ascending_and_complete(d.whitelist);
}

/// The normal form has a chart exactly if the request has one, and then the same but for the white
/// space around its name.
pub proof fn normal_form_keeps_the_chart(d: DefinitionView)
    ensures
        d.normal_form().chart is Some <==> d.chart is Some,
        d.chart is Some ==> (d.normal_form().chart->0).id == (d.chart->0).id && (
        d.normal_form().chart->0).name == trimmed((d.chart->0).name),
{
}

/// A hosted room keeps who picks its charts and loses an expiry; a reserved room keeps its expiry,
/// its host picks, and it has no pool.
pub proof fn normal_form_drops_what_the_kind_does_not_have(d: DefinitionView)
    ensures
        d.kind == ManagedRoomKind::Hosted ==> d.normal_form().chart_mode == d.chart_mode
            && d.normal_form().expires_at is None,
        d.kind == ManagedRoomKind::Reserved ==> d.normal_form().chart_mode == ChartMode::HostSelect
            && d.normal_form().expires_at == d.expires_at && d.normal_form().chart_pool.len() == 0,
{
}

/// A hosted room keeps a chart for each identifier in its pool and no other. A room that draws
/// from an empty pool gets its own chart as the pool.
pub proof fn normal_form_keeps_the_pool(d: DefinitionView)
    requires
        d.kind == ManagedRoomKind::Hosted,
    ensures
        d.chart_pool.len() > 0 ==> forall|id: i32| #[trigger]
            pool_ids(d.normal_form().chart_pool).contains(id) <==> pool_ids(
                d.chart_pool,
            ).contains(id),
        d.chart_pool.len() > 0 ==> ascending(pool_ids(d.normal_form().chart_pool)),
        d.chart_pool.len() > 0 ==> forall|k: int|
            0 <= k < d.normal_form().chart_pool.len() ==> taken_from(
                d.chart_pool,
                #[trigger] d.normal_form().chart_pool[k],
            ),
        d.chart_pool.len() == 0 && d.chart_mode == ChartMode::PoolRandom && d.chart is Some
            ==> d.normal_form().chart_pool == seq![d.normal_form().chart->0],
        d.chart_pool.len() == 0 && (d.chart_mode == ChartMode::HostSelect || d.chart is None)
            ==> d.normal_form().chart_pool.len() == 0,
{
    merged_pool_keeps_the_first_of_each(d.chart_pool);
    merged_pool_is_stable(d.chart_pool);
}

/// The pool keeps, of several charts with one identifier, the one that stands first.
pub proof fn pool_keeps_the_first_chart_of_an_identifier(d: DefinitionView, at: int)
    requires
        d.kind == ManagedRoomKind::Hosted,
        0 <= at < d.chart_pool.len(),
        forall|j: int| 0 <= j < at ==> (#[trigger] d.chart_pool[j]).id != d.chart_pool[at].id,
    ensures
        d.normal_form().chart_pool.contains(
            ChartView { id: d.chart_pool[at].id, name: trimmed(d.chart_pool[at].name) },
        ),
{
    let pool = d.chart_pool;
    let ids = pool_ids(pool);
    merged_pool_keeps_the_first_of_each(pool);
    assert(ids[at] == pool[at].id);
    assert forall|j: int| 0 <= j < at implies #[trigger] ids[j] != ids[at] by {
        assert(pool[j].id != pool[at].id);
    }
    assert(is_first(ids, 0, at));
    distinct_is_ascending_and_complete(ids);
    assert(ids.contains(ids[at]));
    assert(distinct(ids).contains(ids[at]));
    let k = choose|k: int| 0 <= k < distinct(ids).len() && distinct(ids)[k] == ids[at];
    lemma_first_chart(pool, at);
    assert(merged_pool(pool)[k] == pool[at].normalized());
}

/// A hosted room is the same configuration as another definition exactly if nothing differs, and
/// rooms of different kinds never are.
pub proof fn hosted_configuration_ignores_nothing(a: DefinitionView, b: DefinitionView)
    ensures
        a.kind == ManagedRoomKind::Hosted && b.kind == ManagedRoomKind::Hosted ==> (
        a.same_configuration(b) <==> a == b),
        a.kind != b.kind ==> !a.same_configuration(b),
        a.same_configuration(b) ==> a.room_id == b.room_id && a.owner_id == b.owner_id
            && a.max_users == b.max_users && a.whitelist == b.whitelist && a.host_id == b.host_id
            && a.chart == b.chart && a.chart_mode == b.chart_mode && a.chart_pool == b.chart_pool,
{
}

} // verus!
