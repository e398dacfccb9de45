//! Requests that change some members of a hosted room's definition and leave the others.
use crate::answer::{api_error, error_response, ApiResponse, ResponseView};
use crate::definition::{
    chart_list, ChartMode, ChartView, DefinitionView, ManagedChart, ManagedRoomDefinition,
};
use crate::json::{
    as_i32_list, as_i64, as_u64, id_list_option, is_null, is_object, json_i32_list, json_i64,
    json_is_null, json_is_object, json_member, json_u64, member,
};
use vstd::prelude::*;

verus! {

/// What a request says of the chart.
#[derive(Debug)]
pub enum ChartMember {
    /// There is to be none.
    Null,
    Chart { chart: ManagedChart },
    /// It does not describe a chart.
    Unreadable,
}

pub enum ChartMemberView {
    Null,
    Chart { chart: ChartView },
    Unreadable,
}

impl View for ChartMember {
    type V = ChartMemberView;

    open spec fn view(&self) -> ChartMemberView {
        match *self {
            ChartMember::Null => ChartMemberView::Null,
            ChartMember::Chart { chart } => ChartMemberView::Chart { chart: chart@ },
            ChartMember::Unreadable => ChartMemberView::Unreadable,
        }
    }
}

/// The members of a request. The outer `Option` tells whether the member is there, the inner one
/// whether it is of the expected form.
#[derive(Debug)]
pub struct PatchMembers {
    pub max_users: Option<Option<u64>>,
    pub allowed_user_ids: Option<Option<Vec<i32>>>,
    pub host_id: Option<Option<i64>>,
    pub chart: Option<ChartMember>,
    pub chart_mode: Option<Option<ChartMode>>,
    pub chart_pool: Option<Option<Vec<ManagedChart>>>,
}

pub struct MembersView {
    pub max_users: Option<Option<u64>>,
    pub allowed_user_ids: Option<Option<Seq<i32>>>,
    pub host_id: Option<Option<i64>>,
    pub chart: Option<ChartMemberView>,
    pub chart_mode: Option<Option<ChartMode>>,
    pub chart_pool: Option<Option<Seq<ChartView>>>,
}

pub open spec fn charts_option(charts: Option<Vec<ManagedChart>>) -> Option<Seq<ChartView>> {
    match charts {
        Some(list) => Some(chart_list(list@)),
        None => None,
    }
}

impl View for PatchMembers {
    type V = MembersView;

    open spec fn view(&self) -> MembersView {
        MembersView {
            max_users: self.max_users,
            allowed_user_ids: match self.allowed_user_ids {
                Some(ids) => Some(id_list_option(ids)),
                None => None,
            },
            host_id: self.host_id,
            chart: match self.chart {
                Some(chart) => Some(chart@),
                None => None,
            },
            chart_mode: self.chart_mode,
            chart_pool: match self.chart_pool {
                Some(charts) => Some(charts_option(charts)),
                None => None,
            },
        }
    }
}

/// The members of a request that describe charts, each read by itself; `None` where a member is
/// missing or not of the expected form.
#[derive(Debug)]
pub struct ParsedCharts {
    pub chart: Option<ManagedChart>,
    pub chart_mode: Option<ChartMode>,
    pub chart_pool: Option<Vec<ManagedChart>>,
}

/// What the member `chart` says, if the request has it.
pub open spec fn chart_member(body: Seq<char>, chart: Option<ManagedChart>) -> Option<
    ChartMemberView,
> {
    match json_member(body, "chart"@) {
        Some(text) => Some(
            if json_is_null(text) {
                ChartMemberView::Null
            } else {
                match chart {
                    Some(c) => ChartMemberView::Chart { chart: c@ },
                    None => ChartMemberView::Unreadable,
                }
            },
        ),
        None => None,
    }
}

/// The members of the JSON text `body`; `None` where it is not an object.
pub open spec fn members(body: Seq<char>, parsed: ParsedCharts) -> Option<MembersView> {
    if !json_is_object(body) {
        None
    } else {
        Some(
            MembersView {
                max_users: match json_member(body, "maxUsers"@) {
                    Some(text) => Some(json_u64(text)),
                    None => None,
                },
                allowed_user_ids: match json_member(body, "allowedUserIds"@) {
                    Some(text) => Some(json_i32_list(text)),
                    None => None,
                },
                host_id: match json_member(body, "hostId"@) {
                    Some(text) => Some(
                        if json_is_null(text) {
                            None
                        } else {
                            json_i64(text)
                        },
                    ),
                    None => None,
                },
                chart: chart_member(body, parsed.chart),
                chart_mode: match json_member(body, "chartMode"@) {
                    Some(_) => Some(parsed.chart_mode),
                    None => None,
                },
                chart_pool: match json_member(body, "chartPool"@) {
                    Some(_) => Some(charts_option(parsed.chart_pool)),
                    None => None,
                },
            },
        )
    }
}

/// Reads the members of a request.
pub fn read_members(body: &str, parsed: ParsedCharts) -> (r: Option<PatchMembers>)
    ensures
        r is Some <==> members(body@, parsed) is Some,
        r matches Some(m) ==> members(body@, parsed) == Some(m@),
{
    if !is_object(body) {
        return None;
    }
    let max_users: Option<Option<u64>> = match member(body, "maxUsers") {
        Some(text) => Some(as_u64(text.as_str())),
        None => None,
    };
    let allowed_user_ids: Option<Option<Vec<i32>>> = match member(body, "allowedUserIds") {
        Some(text) => Some(as_i32_list(text.as_str())),
        None => None,
    };
    let host_id: Option<Option<i64>> = match member(body, "hostId") {
        Some(text) => Some(
            if is_null(text.as_str()) {
                None
            } else {
                as_i64(text.as_str())
            },
        ),
        None => None,
    };
    let chart: Option<ChartMember> = match member(body, "chart") {
        Some(text) => Some(
            if is_null(text.as_str()) {
                ChartMember::Null
            } else {
                match parsed.chart {
                    Some(chart) => ChartMember::Chart { chart },
                    None => ChartMember::Unreadable,
                }
            },
        ),
        None => None,
    };
    let chart_mode: Option<Option<ChartMode>> = match member(body, "chartMode") {
        Some(_) => Some(parsed.chart_mode),
        None => None,
    };
    let chart_pool: Option<Option<Vec<ManagedChart>>> = match member(body, "chartPool") {
        Some(_) => Some(parsed.chart_pool),
        None => None,
    };
    Some(PatchMembers { max_users, allowed_user_ids, host_id, chart, chart_mode, chart_pool })
}

pub open spec fn bad_request(message: Seq<char>) -> ResponseView {
    error_response(400, "bad-hosted-room-request"@, message)
}

/// Why the members of a request are refused; `None` where they are not.
pub open spec fn members_refusal(members: Option<MembersView>) -> Option<ResponseView> {
    match members {
        None => Some(bad_request("请求体必须是对象"@)),
        Some(m) => if m.chart matches Some(ChartMemberView::Unreadable) {
            Some(bad_request("谱面字段无效"@))
        } else if m.chart_mode matches Some(None) {
            Some(bad_request("选谱模式无效"@))
        } else if m.chart_pool matches Some(None) {
            Some(bad_request("谱池字段无效"@))
        } else {
            None
        },
    }
}

/// The definition with the members of a request in the place of its own. A capacity that cannot
/// be read counts as zero, a list of users as empty, and a host as none.
pub open spec fn patched(d: DefinitionView, m: MembersView) -> DefinitionView {
    DefinitionView {
        max_users: match m.max_users {
            Some(Some(n)) => n as usize,
            Some(None) => 0,
            None => d.max_users,
        },
        whitelist: match m.allowed_user_ids {
            Some(Some(ids)) => ids,
            Some(None) => Seq::empty(),
            None => d.whitelist,
        },
        host_id: match m.host_id {
            Some(Some(id)) => Some(id as i32),
            Some(None) => None,
            None => d.host_id,
        },
        chart: match m.chart {
            Some(ChartMemberView::Chart { chart }) => Some(chart),
            Some(_) => None,
            None => d.chart,
        },
        chart_mode: match m.chart_mode {
            Some(Some(mode)) => mode,
            _ => d.chart_mode,
        },
        chart_pool: match m.chart_pool {
            Some(Some(charts)) => charts,
            _ => d.chart_pool,
        },
        ..d
    }
}

/// Changes a definition as the members of a request say.
pub fn apply_members(
    definition: ManagedRoomDefinition,
    members: Option<PatchMembers>,
) -> (r: Result<ManagedRoomDefinition, ApiResponse>)
    ensures
        ({
            let m = match members {
                Some(m) => Some(m@),
                None => None,
            };
            match members_refusal(m) {
                Some(refusal) => r matches Err(response) && response@ == refusal,
                None => r matches Ok(changed) && changed@ == patched(definition@, m->0),
            }
        }),
{
    let ghost before = definition@;
    let mut definition: ManagedRoomDefinition = definition;
    let members: PatchMembers = match members {
        Some(members) => members,
        None => {
            return Err(api_error(400, "bad-hosted-room-request", "请求体必须是对象"));
        },
    };
    let ghost m = members@;
    if let Some(max_users) = members.max_users {
        definition.max_users = match max_users {
            Some(n) => n as usize,
            None => 0,
        };
    }
    if let Some(ids) = members.allowed_user_ids {
        definition.whitelist = match ids {
            Some(ids) => ids,
            None => Vec::new(),
        };
    }
    if let Some(host_id) = members.host_id {
        definition.host_id = match host_id {
            Some(id) => Some(id as i32),
            None => None,
        };
    }
    if let Some(chart) = members.chart {
        definition.chart = match chart {
            ChartMember::Null => None,
            ChartMember::Chart { chart } => Some(chart),
            ChartMember::Unreadable => {
                return Err(api_error(400, "bad-hosted-room-request", "谱面字段无效"));
            },
        };
    }
    if let Some(chart_mode) = members.chart_mode {
        definition.chart_mode = match chart_mode {
            Some(mode) => mode,
            None => {
                return Err(api_error(400, "bad-hosted-room-request", "选谱模式无效"));
            },
        };
    }
    if let Some(chart_pool) = members.chart_pool {
        definition.chart_pool = match chart_pool {
            Some(charts) => charts,
            None => {
                return Err(api_error(400, "bad-hosted-room-request", "谱池字段无效"));
            },
        };
    }
    assert(definition@ =~= patched(before, m));
    Ok(definition)
}

/// A request with an empty object changes nothing.
pub proof fn patch_without_members_changes_nothing(d: DefinitionView)
    ensures
        patched(
            d,
            (MembersView {
                max_users: None,
                allowed_user_ids: None,
                host_id: None,
                chart: None,
                chart_mode: None,
                chart_pool: None,
            }),
        ) == d,
{
}

/// A request leaves alone which room is meant, who owns it and when it expires.
pub proof fn patch_keeps_the_identity(d: DefinitionView, m: MembersView)
    ensures
        patched(d, m).room_id == d.room_id,
        patched(d, m).kind == d.kind,
        patched(d, m).owner_id == d.owner_id,
        patched(d, m).expires_at == d.expires_at,
{
}

/// Sent twice, a request changes nothing the second time.
pub proof fn patch_is_settled_by_the_first_time(d: DefinitionView, m: MembersView)
    ensures
        patched(patched(d, m), m) == patched(d, m),
{
}

// ---- what the members mean ----

/// The members of a request stand under these names in its JSON object. A member that is missing
/// there is missing, and a text that is no object has no members.
pub proof fn members_stand_under_their_names(body: Seq<char>, parsed: ParsedCharts)
    ensures
        members(body, parsed) is Some <==> json_is_object(body),
        json_is_object(body) ==> {
            let m = members(body, parsed)->0;
            &&& m.max_users is Some <==> json_member(body, "maxUsers"@) is Some
            &&& m.allowed_user_ids is Some <==> json_member(body, "allowedUserIds"@) is Some
            &&& m.host_id is Some <==> json_member(body, "hostId"@) is Some
            &&& m.chart is Some <==> json_member(body, "chart"@) is Some
            &&& m.chart_mode is Some <==> json_member(body, "chartMode"@) is Some
            &&& m.chart_pool is Some <==> json_member(body, "chartPool"@) is Some
        },
{
}

/// A member that is there says what its own text says.
pub proof fn members_say_what_their_text_says(body: Seq<char>, parsed: ParsedCharts)
    requires
        json_is_object(body),
    ensures
        ({
            let m = members(body, parsed)->0;
            let host = json_member(body, "hostId"@);
            let chart = json_member(body, "chart"@);
            &&& m.max_users is Some ==> m.max_users->0 == json_u64(
                json_member(body, "maxUsers"@)->0,
            )
            &&& m.allowed_user_ids is Some ==> m.allowed_user_ids->0 == json_i32_list(
                json_member(body, "allowedUserIds"@)->0,
            )
            &&& host is Some && json_is_null(host->0) ==> m.host_id->0 is None
            &&& host is Some && !json_is_null(host->0) ==> m.host_id->0 == json_i64(host->0)
            &&& chart is Some && json_is_null(chart->0) ==> m.chart->0 is Null
            &&& chart is Some && !json_is_null(chart->0) && parsed.chart is Some ==> m.chart->0 == (
            ChartMemberView::Chart { chart: (parsed.chart->0)@ })
            &&& chart is Some && !json_is_null(chart->0) && parsed.chart is None
                ==> m.chart->0 is Unreadable
            &&& m.chart_mode is Some ==> m.chart_mode->0 == parsed.chart_mode
            &&& m.chart_pool is Some ==> m.chart_pool->0 == charts_option(parsed.chart_pool)
        }),
{
}

/// A request that is no object is refused. An unreadable chart is refused before an unreadable
/// mode, and that before an unreadable pool. No other member is a reason to refuse.
pub proof fn unreadable_charts_are_refused_in_order(m: MembersView)
    ensures
        members_refusal(None) == Some(
            error_response(400, "bad-hosted-room-request"@, "请求体必须是对象"@),
        ),
        m.chart == Some(ChartMemberView::Unreadable) ==> members_refusal(Some(m)) == Some(
            error_response(400, "bad-hosted-room-request"@, "谱面字段无效"@),
        ),
        m.chart != Some(ChartMemberView::Unreadable) && m.chart_mode == Some(None::<ChartMode>)
            ==> members_refusal(Some(m)) == Some(
            error_response(400, "bad-hosted-room-request"@, "选谱模式无效"@),
        ),
        m.chart != Some(ChartMemberView::Unreadable) && m.chart_mode != Some(None::<ChartMode>)
            && m.chart_pool == Some(None::<Seq<ChartView>>) ==> members_refusal(Some(m)) == Some(
            error_response(400, "bad-hosted-room-request"@, "谱池字段无效"@),
        ),
        m.chart != Some(ChartMemberView::Unreadable) && m.chart_mode != Some(None::<ChartMode>)
            && m.chart_pool != Some(None::<Seq<ChartView>>) ==> members_refusal(Some(m)) is None,
{
}

/// Each member of a request takes the place of its own member of the definition, and of no other:
/// a member that the request does not have stays as it is.
pub proof fn each_member_changes_its_own(d: DefinitionView, m: MembersView)
    ensures
        m.max_users is None ==> patched(d, m).max_users == d.max_users,
        m.allowed_user_ids is None ==> patched(d, m).whitelist == d.whitelist,
        m.host_id is None ==> patched(d, m).host_id == d.host_id,
        m.chart is None ==> patched(d, m).chart == d.chart,
        m.chart_mode is None ==> patched(d, m).chart_mode == d.chart_mode,
        m.chart_pool is None ==> patched(d, m).chart_pool == d.chart_pool,
        m.max_users matches Some(Some(n)) ==> (n <= usize::MAX ==> patched(d, m).max_users == n),
        m.max_users == Some(None::<u64>) ==> patched(d, m).max_users == 0,
        m.allowed_user_ids matches Some(Some(ids)) ==> patched(d, m).whitelist == ids,
        m.allowed_user_ids == Some(None::<Seq<i32>>) ==> patched(d, m).whitelist.len() == 0,
        m.host_id matches Some(Some(id)) ==> (i32::MIN <= id <= i32::MAX ==> patched(d, m).host_id
            is Some && patched(d, m).host_id->0 == id),
        m.host_id == Some(None::<i64>) ==> patched(d, m).host_id is None,
        m.chart == Some(ChartMemberView::Null) ==> patched(d, m).chart is None,
        m.chart matches Some(ChartMemberView::Chart { chart }) ==> patched(d, m).chart == Some(
            chart,
        ),
        m.chart_mode matches Some(Some(mode)) ==> patched(d, m).chart_mode == mode,
        m.chart_pool matches Some(Some(pool)) ==> patched(d, m).chart_pool == pool,
{
}

/// A host that does not fit keeps its lower 32 bits: it differs from what was given by a multiple
/// of 2^32.
pub proof fn large_hosts_keep_their_lower_bits(d: DefinitionView, m: MembersView)
    requires
        m.host_id is Some,
        m.host_id->0 is Some,
    ensures
        patched(d, m).host_id is Some,
        (patched(d, m).host_id->0 - (m.host_id->0)->0) % 0x1_0000_0000 == 0,
{
    let id: i64 = (m.host_id->0)->0;
    assert((id as i32 - id) % 0x1_0000_0000 == 0) by (bit_vector);
}

} // verus!
