//! Definitions of managed rooms.
//!
//! `Reserved` is a room booked once for the players on its whitelist. `Hosted` is a room that
//! stays across rounds and while it is empty, and that is restored after a restart.
use crate::ids::{
    distinct, distinct_counts_members, distinct_ids, distinct_is_ascending_and_complete,
    first_positions, has_id, is_first,
};
use crate::room_id::{is_room_id, room_id_ok};
use crate::text::{trim, trimmed};
use vstd::prelude::*;

verus! {

/// The largest capacity of a managed room.
pub const MAX_MANAGED_ROOM_USERS: usize = 64;

/// A chart that a room plays. Charts that are private to a server have negative identifiers.
#[derive(Debug, PartialEq, Eq)]
pub struct ManagedChart {
    pub id: i32,
    pub name: String,
}

/// A chart, its name as characters.
pub struct ChartView {
    pub id: i32,
    pub name: Seq<char>,
}

impl View for ManagedChart {
    type V = ChartView;

    open spec fn view(&self) -> ChartView {
        ChartView { id: self.id, name: self.name@ }
    }
}

impl Clone for ManagedChart {
    fn clone(&self) -> (r: Self)
        ensures
            r == *self,
    {
        ManagedChart { id: self.id, name: self.name.clone() }
    }
}

pub open spec fn chart_message() -> Seq<char> {
    "谱面必须包含非零整数 ID 和 1 至 200 字符的名称"@
}

impl ChartView {
    /// The identifier is not zero, and the name has 1 to 200 characters between the white space
    /// at its ends.
    pub open spec fn valid(self) -> bool {
        &&& self.id != 0
        &&& 1 <= trimmed(self.name).len() <= 200
    }

    /// The chart with its name trimmed.
    pub open spec fn normalized(self) -> ChartView {
        ChartView { id: self.id, name: trimmed(self.name) }
    }
}

impl ManagedChart {
    /// Accepts a chart with a non-zero identifier and a name of 1 to 200 characters.
    pub fn validate(&self) -> (r: Result<(), String>)
        ensures
            r is Ok <==> self@.valid(),
            r matches Err(e) ==> e@ == chart_message(),
    {
        let name: &str = trim(self.name.as_str());
        if self.id == 0 || name.is_empty() || name.unicode_len() > 200 {
            return Err("谱面必须包含非零整数 ID 和 1 至 200 字符的名称".to_string());
        }
        Ok(())
    }

    /// The chart with its name trimmed.
    pub fn normalized(self) -> (r: Self)
        ensures
            r@ == self@.normalized(),
    {
        let name: String = trim(self.name.as_str()).to_string();
        ManagedChart { id: self.id, name }
    }
}

/// Who picks the chart of the next round.
#[derive(Debug, Clone, Copy, PartialEq, Eq, Structural)]
pub enum ChartMode {
    /// The host of the room.
    HostSelect,
    /// Chance, out of the room's own pool.
    PoolRandom,
}

impl Default for ChartMode {
    fn default() -> (r: Self)
        ensures
            r == ChartMode::HostSelect,
    {
        ChartMode::HostSelect
    }
}

#[derive(Debug, Clone, Copy, PartialEq, Eq, Structural)]
pub enum ManagedRoomKind {
    Hosted,
    Reserved,
}

/// What the room is to be: the administrator's request, or, in normal form, the agreed state.
#[derive(Debug, PartialEq, Eq)]
pub struct ManagedRoomDefinition {
    pub room_id: String,
    pub kind: ManagedRoomKind,
    /// The owner in the web administration, who is independent of the host in the protocol.
    pub owner_id: Option<i64>,
    pub max_users: usize,
    pub whitelist: Vec<i32>,
    pub host_id: Option<i32>,
    pub chart: Option<ManagedChart>,
    pub chart_mode: ChartMode,
    pub chart_pool: Vec<ManagedChart>,
    pub expires_at: Option<i64>,
}

/// A definition, its texts and lists as sequences.
#[verifier::ext_equal]
pub struct DefinitionView {
    pub room_id: Seq<char>,
    pub kind: ManagedRoomKind,
    pub owner_id: Option<i64>,
    pub max_users: usize,
    pub whitelist: Seq<i32>,
    pub host_id: Option<i32>,
    pub chart: Option<ChartView>,
    pub chart_mode: ChartMode,
    pub chart_pool: Seq<ChartView>,
    pub expires_at: Option<i64>,
}

pub open spec fn chart_option(chart: Option<ManagedChart>) -> Option<ChartView> {
    match chart {
        Some(c) => Some(c@),
        None => None,
    }
}

pub open spec fn chart_list(charts: Seq<ManagedChart>) -> Seq<ChartView> {
    Seq::new(charts.len(), |i: int| charts[i]@)
}

impl View for ManagedRoomDefinition {
    type V = DefinitionView;

    open spec fn view(&self) -> DefinitionView {
        DefinitionView {
            room_id: self.room_id@,
            kind: self.kind,
            owner_id: self.owner_id,
            max_users: self.max_users,
            whitelist: self.whitelist@,
            host_id: self.host_id,
            chart: chart_option(self.chart),
            chart_mode: self.chart_mode,
            chart_pool: chart_list(self.chart_pool@),
            expires_at: self.expires_at,
        }
    }
}

/// A copy of an optional chart.
pub(crate) fn copy_chart(chart: &Option<ManagedChart>) -> (r: Option<ManagedChart>)
    ensures
        r == *chart,
{
    match chart {
        Some(c) => Some(c.clone()),
        None => None,
    }
}

/// A copy of a list of charts.
pub(crate) fn copy_charts(charts: &Vec<ManagedChart>) -> (r: Vec<ManagedChart>)
    ensures
        r@ == charts@,
{
    let mut r: Vec<ManagedChart> = Vec::new();
    let mut i: usize = 0;
    while i < charts.len()
        invariant
            i <= charts@.len(),
            r@ == charts@.take(i as int),
        decreases charts@.len() - i,
    {
        r.push(charts[i].clone());
        assert(r@ =~= charts@.take(i + 1));
        i = i + 1;
    }
    assert(charts@.take(charts@.len() as int) =~= charts@);
    r
}

/// A copy of a list of identifiers.
pub(crate) fn copy_ids(ids: &Vec<i32>) -> (r: Vec<i32>)
    ensures
        r@ == ids@,
{
    let r: Vec<i32> = ids.clone();
    assert(r@ =~= ids@);
    r
}

impl Clone for ManagedRoomDefinition {
    fn clone(&self) -> (r: Self)
        ensures
            r@ == self@,
    {
        ManagedRoomDefinition {
            room_id: self.room_id.clone(),
            kind: self.kind,
            owner_id: self.owner_id,
            max_users: self.max_users,
            whitelist: copy_ids(&self.whitelist),
            host_id: self.host_id,
            chart: copy_chart(&self.chart),
            chart_mode: self.chart_mode,
            chart_pool: copy_charts(&self.chart_pool),
            expires_at: self.expires_at,
        }
    }
}

pub open spec fn room_id_message() -> Seq<char> {
    "房间 ID 只能包含字母、数字、-、_，且长度为 1 至 20"@
}

/// A hosted room has place for at least two users, a reserved one for at least one.
pub open spec fn minimum_capacity(kind: ManagedRoomKind) -> int {
    match kind {
        ManagedRoomKind::Hosted => 2,
        ManagedRoomKind::Reserved => 1,
    }
}

pub open spec fn capacity_message(kind: ManagedRoomKind) -> Seq<char> {
    match kind {
        ManagedRoomKind::Hosted => "房间容量必须在 2 至 64 之间"@,
        ManagedRoomKind::Reserved => "房间容量必须在 1 至 64 之间"@,
    }
}

pub open spec fn owner_message() -> Seq<char> {
    "网页房间所有者必须是正整数用户 ID"@
}

pub open spec fn whitelist_message() -> Seq<char> {
    "白名单只能包含最多 64 个不重复的正整数用户 ID，且不能超过容量"@
}

pub open spec fn players_message() -> Seq<char> {
    "预约白名单房必须包含至少一名玩家"@
}

pub open spec fn host_message() -> Seq<char> {
    "协议房主必须是正整数；设置白名单时房主必须在白名单中"@
}

pub open spec fn reserved_chart_message() -> Seq<char> {
    "预约白名单房必须指定谱面"@
}

pub open spec fn expiry_message() -> Seq<char> {
    "预约白名单房必须包含过期时间"@
}

pub open spec fn pool_message() -> Seq<char> {
    "POOL_RANDOM 托管房必须配置至少一张本地谱池谱面"@
}

/// The identifiers of the charts in a pool.
pub open spec fn pool_ids(pool: Seq<ChartView>) -> Seq<i32> {
    Seq::new(pool.len(), |i: int| pool[i].id)
}

/// The first chart in the pool with the identifier `id`, where there is one.
pub open spec fn first_chart(pool: Seq<ChartView>, id: i32) -> ChartView
    decreases pool.len(),
{
    if pool.len() <= 1 || pool.first().id == id {
        pool.first()
    } else {
        first_chart(pool.drop_first(), id)
    }
}

/// One chart for each identifier in the pool, the first, with its name trimmed; by ascending
/// identifier.
pub open spec fn merged_pool(pool: Seq<ChartView>) -> Seq<ChartView> {
    let ids = distinct(pool_ids(pool));
    Seq::new(ids.len(), |k: int| first_chart(pool, ids[k]).normalized())
}

impl DefinitionView {
    pub open spec fn is_hosted(self) -> bool {
        self.kind == ManagedRoomKind::Hosted
    }

    pub open spec fn owner_ok(self) -> bool {
        self.owner_id matches Some(owner) ==> owner > 0
    }

    /// At most 64 different users, all positive, and not more than the room has place for.
    pub open spec fn whitelist_ok(self) -> bool {
        &&& self.whitelist.to_set().len() <= MAX_MANAGED_ROOM_USERS
        &&& self.whitelist.to_set().len() <= self.max_users
        &&& forall|i: int| 0 <= i < self.whitelist.len() ==> 0 < #[trigger] self.whitelist[i]
    }

    /// A host is positive, and on the whitelist if there is one.
    pub open spec fn host_ok(self) -> bool {
        self.host_id matches Some(host) ==> host > 0 && (self.whitelist.len() == 0
            || self.whitelist.contains(host))
    }

    pub open spec fn charts_ok(self) -> bool {
        &&& self.chart matches Some(chart) ==> chart.valid()
        &&& forall|i: int| 0 <= i < self.chart_pool.len() ==> (#[trigger] self.chart_pool[i]).valid()
    }

    /// Why the definition is refused; `None` where it is accepted.
    pub open spec fn refusal(self) -> Option<Seq<char>> {
        if !room_id_ok(self.room_id) {
            Some(room_id_message())
        } else if !(minimum_capacity(self.kind) <= self.max_users <= MAX_MANAGED_ROOM_USERS) {
            Some(capacity_message(self.kind))
        } else if !self.owner_ok() {
            Some(owner_message())
        } else if !self.whitelist_ok() {
            Some(whitelist_message())
        } else if !self.is_hosted() && self.whitelist.len() == 0 {
            Some(players_message())
        } else if !self.host_ok() {
            Some(host_message())
        } else if !self.charts_ok() {
            Some(chart_message())
        } else if !self.is_hosted() && self.chart is None {
            Some(reserved_chart_message())
        } else if !self.is_hosted() && self.expires_at is None {
            Some(expiry_message())
        } else if self.is_hosted() && self.chart_mode == ChartMode::PoolRandom
            && self.chart_pool.len() == 0 && self.chart is None {
            Some(pool_message())
        } else {
            None
        }
    }

    /// The chart with its name trimmed, if there is one.
    pub open spec fn normal_chart(self) -> Option<ChartView> {
        match self.chart {
            Some(chart) => Some(chart.normalized()),
            None => None,
        }
    }

    /// A reserved room has no pool. A hosted room that draws from an empty pool draws from its
    /// own chart instead.
    pub open spec fn normal_pool(self) -> Seq<ChartView> {
        if !self.is_hosted() {
            Seq::empty()
        } else if self.chart_mode == ChartMode::PoolRandom && self.chart_pool.len() == 0
            && self.chart is Some {
            seq![self.chart->0.normalized()]
        } else {
            merged_pool(self.chart_pool)
        }
    }

    /// What an accepted definition is stored as.
    pub open spec fn normal_form(self) -> DefinitionView {
        DefinitionView {
            whitelist: distinct(self.whitelist),
            chart: self.normal_chart(),
            chart_mode: if self.is_hosted() {
                self.chart_mode
            } else {
                ChartMode::HostSelect
            },
            chart_pool: self.normal_pool(),
            expires_at: if self.is_hosted() {
                None
            } else {
                self.expires_at
            },
            ..self
        }
    }

    /// Accepted, and stored as it is.
    pub open spec fn settled(self) -> bool {
        &&& self.refusal() is None
        &&& self.normal_form() == self
    }

    /// A hosted room without a whitelist is open to everybody; else the whitelist decides.
    pub open spec fn admits(self, user_id: i32) -> bool {
        ||| self.is_hosted() && self.whitelist.len() == 0
        ||| self.whitelist.contains(user_id)
    }

    /// Two reserved rooms are alike but for the time at which they expire; other definitions are
    /// equal.
    pub open spec fn same_configuration(self, other: DefinitionView) -> bool {
        if !self.is_hosted() && !other.is_hosted() {
            DefinitionView { expires_at: None, ..self } == DefinitionView {
                expires_at: None,
                ..other
            }
        } else {
            self == other
        }
    }
}

pub(crate) proof fn lemma_first_chart(pool: Seq<ChartView>, at: int)
    requires
        is_first(pool_ids(pool), 0, at),
    ensures
        first_chart(pool, pool[at].id) == pool[at],
    decreases pool.len(),
{
    assert(pool_ids(pool)[at] == pool[at].id);
    if at > 0 {
        assert(pool_ids(pool)[0] != pool_ids(pool)[at]);
        let rest = pool.drop_first();
        assert forall|j: int| 0 <= j < at - 1 implies #[trigger] pool_ids(rest)[j] != pool_ids(
            rest,
        )[at - 1] by {
            assert(pool_ids(pool)[j + 1] != pool_ids(pool)[at]);
        }
        lemma_first_chart(rest, at - 1);
    }
}

fn merge_pool(pool: &Vec<ManagedChart>) -> (r: Vec<ManagedChart>)
    ensures
        chart_list(r@) == merged_pool(chart_list(pool@)),
{
    let ghost charts = chart_list(pool@);
    let mut ids: Vec<i32> = Vec::new();
    let mut i: usize = 0;
    while i < pool.len()
        invariant
            i <= pool@.len(),
            charts == chart_list(pool@),
            ids@.len() == i,
            forall|j: int| 0 <= j < i ==> #[trigger] ids@[j] == charts[j].id,
        decreases pool@.len() - i,
    {
        ids.push(pool[i].id);
        i = i + 1;
    }
    assert(ids@ =~= pool_ids(charts));
    let at: Vec<usize> = first_positions(&ids);
    let mut r: Vec<ManagedChart> = Vec::new();
    let mut k: usize = 0;
    while k < at.len()
        invariant
            k <= at@.len(),
            charts == chart_list(pool@),
            ids@ == pool_ids(charts),
            at@.len() == distinct(ids@).len(),
            forall|m: int|
                0 <= m < at@.len() ==> is_first(ids@, 0, #[trigger] at@[m] as int) && ids@[at@[m] as int]
                    == distinct(ids@)[m],
            r@.len() == k,
            forall|m: int| 0 <= m < k ==> (#[trigger] r@[m])@ == merged_pool(charts)[m],
        decreases at@.len() - k,
    {
        proof {
            assert(is_first(ids@, 0, at@[k as int] as int));
            lemma_first_chart(charts, at@[k as int] as int);
        }
        r.push(pool[at[k]].clone().normalized());
        k = k + 1;
    }
    assert(chart_list(r@) =~= merged_pool(charts));
    r
}

fn all_positive(ids: &Vec<i32>) -> (r: bool)
    ensures
        r == forall|i: int| 0 <= i < ids@.len() ==> 0 < #[trigger] ids@[i],
{
    let mut i: usize = 0;
    while i < ids.len()
        invariant
            i <= ids@.len(),
            forall|j: int| 0 <= j < i ==> 0 < #[trigger] ids@[j],
        decreases ids@.len() - i,
    {
        if ids[i] <= 0 {
            return false;
        }
        i = i + 1;
    }
    true
}

fn all_valid(charts: &Vec<ManagedChart>) -> (r: Result<(), String>)
    ensures
        r is Ok <==> forall|i: int|
            0 <= i < charts@.len() ==> (#[trigger] chart_list(charts@)[i]).valid(),
        r matches Err(e) ==> e@ == chart_message(),
{
    let mut i: usize = 0;
    while i < charts.len()
        invariant
            i <= charts@.len(),
            forall|j: int| 0 <= j < i ==> (#[trigger] chart_list(charts@)[j]).valid(),
        decreases charts@.len() - i,
    {
        assert(chart_list(charts@)[i as int] == charts@[i as int]@);
        charts[i].validate()?;
        i = i + 1;
    }
    Ok(())
}

fn same_chart(a: &ManagedChart, b: &ManagedChart) -> (r: bool)
    ensures
        r == (a@ == b@),
{
    a.id == b.id && a.name == b.name
}

/// Whether two optional charts are the same.
pub(crate) fn same_chart_option(a: &Option<ManagedChart>, b: &Option<ManagedChart>) -> (r: bool)
    ensures
        r == (chart_option(*a) == chart_option(*b)),
{
    match (a, b) {
        (Some(x), Some(y)) => same_chart(x, y),
        (None, None) => true,
        _ => false,
    }
}

fn same_charts(a: &Vec<ManagedChart>, b: &Vec<ManagedChart>) -> (r: bool)
    ensures
        r == (chart_list(a@) == chart_list(b@)),
{
    if a.len() != b.len() {
        assert(chart_list(a@).len() != chart_list(b@).len());
        return false;
    }
    let mut i: usize = 0;
    while i < a.len()
        invariant
            i <= a@.len(),
            a@.len() == b@.len(),
            forall|j: int| 0 <= j < i ==> (#[trigger] a@[j])@ == b@[j]@,
        decreases a@.len() - i,
    {
        if !same_chart(&a[i], &b[i]) {
            assert(chart_list(a@)[i as int] != chart_list(b@)[i as int]);
            return false;
        }
        i = i + 1;
    }
    assert(chart_list(a@) =~= chart_list(b@));
    true
}

fn same_ids(a: &Vec<i32>, b: &Vec<i32>) -> (r: bool)
    ensures
        r == (a@ == b@),
{
    if a.len() != b.len() {
        return false;
    }
    let mut i: usize = 0;
    while i < a.len()
        invariant
            i <= a@.len(),
            a@.len() == b@.len(),
            forall|j: int| 0 <= j < i ==> #[trigger] a@[j] == b@[j],
        decreases a@.len() - i,
    {
        if a[i] != b[i] {
            return false;
        }
        i = i + 1;
    }
    assert(a@ =~= b@);
    true
}

impl ManagedRoomDefinition {
    /// Accepts or refuses the definition, and brings an accepted one into normal form: the
    /// whitelist and the pool without repetition and in ascending order, the names of the charts
    /// trimmed, and without the parts that a room of this kind does not have.
    pub fn validate_and_normalize(self) -> (r: Result<Self, String>)
        ensures
            r is Ok <==> self@.refusal() is None,
            r matches Ok(n) ==> n@ == self@.normal_form(),
            r matches Err(e) ==> self@.refusal() == Some(e@),
    {
        if !is_room_id(self.room_id.as_str()) {
            return Err("房间 ID 只能包含字母、数字、-、_，且长度为 1 至 20".to_string());
        }
        let hosted: bool = self.kind == ManagedRoomKind::Hosted;
        let minimum: usize = if hosted {
            2
        } else {
            1
        };
        if self.max_users < minimum || self.max_users > MAX_MANAGED_ROOM_USERS {
            return Err(
                if hosted {
                    "房间容量必须在 2 至 64 之间".to_string()
                } else {
                    "房间容量必须在 1 至 64 之间".to_string()
                },
            );
        }
        if let Some(owner) = self.owner_id {
            if owner <= 0 {
                return Err("网页房间所有者必须是正整数用户 ID".to_string());
            }
        }
        let whitelist: Vec<i32> = distinct_ids(&self.whitelist);
        proof {
            distinct_counts_members(self.whitelist@);
            distinct_is_ascending_and_complete(self.whitelist@);
        }
        if whitelist.len() > MAX_MANAGED_ROOM_USERS || !all_positive(&self.whitelist)
            || whitelist.len() > self.max_users {
            return Err(
                "白名单只能包含最多 64 个不重复的正整数用户 ID，且不能超过容量".to_string(),
            );
        }
        if !hosted && whitelist.is_empty() {
            return Err("预约白名单房必须包含至少一名玩家".to_string());
        }
        if let Some(host) = self.host_id {
            assert(whitelist@.contains(host) == self.whitelist@.contains(host));
            if host <= 0 || (!whitelist.is_empty() && !has_id(&whitelist, host)) {
                return Err("协议房主必须是正整数；设置白名单时房主必须在白名单中".to_string());
            }
        }
        let chart: Option<ManagedChart> = match &self.chart {
            Some(chart) => {
                chart.validate()?;
                Some(chart.clone().normalized())
            },
            None => None,
        };
        all_valid(&self.chart_pool)?;
        if !hosted {
            if chart.is_none() {
                return Err("预约白名单房必须指定谱面".to_string());
            }
            if self.expires_at.is_none() {
                return Err("预约白名单房必须包含过期时间".to_string());
            }
            let r = ManagedRoomDefinition {
                whitelist,
                chart,
                chart_mode: ChartMode::HostSelect,
                chart_pool: Vec::new(),
                ..self
            };
            assert(r@.chart_pool =~= Seq::empty());
            return Ok(r);
        }
        let mut chart_pool: Vec<ManagedChart> = Vec::new();
        if self.chart_mode == ChartMode::PoolRandom && self.chart_pool.is_empty() {
            // A request that names only the chart of this round makes it the first of the pool.
            match &chart {
                Some(chart) => {
                    chart_pool.push(chart.clone());
                },
                None => {
                    return Err("POOL_RANDOM 托管房必须配置至少一张本地谱池谱面".to_string());
                },
            }
        } else {
            chart_pool = merge_pool(&self.chart_pool);
        }
        let r = ManagedRoomDefinition { whitelist, chart, chart_pool, expires_at: None, ..self };
        assert(r@.chart_pool =~= self@.normal_pool());
        Ok(r)
    }

    pub fn is_hosted(&self) -> (r: bool)
        ensures
            r == self@.is_hosted(),
    {
        self.kind == ManagedRoomKind::Hosted
    }

    /// Whether the user may enter the room.
    pub fn contains_user(&self, user_id: i32) -> (r: bool)
        ensures
            r == self@.admits(user_id),
    {
        (self.kind == ManagedRoomKind::Hosted && self.whitelist.is_empty()) || has_id(
            &self.whitelist,
            user_id,
        )
    }

    /// Whether a repeated request asks for the room that is there already.
    pub fn same_configuration(&self, other: &Self) -> (r: bool)
        ensures
            r == self@.same_configuration(other@),
    {
        let both_reserved: bool = self.kind == ManagedRoomKind::Reserved && other.kind
            == ManagedRoomKind::Reserved;
        self.room_id == other.room_id && self.kind == other.kind && self.owner_id == other.owner_id
            && self.max_users == other.max_users && same_ids(&self.whitelist, &other.whitelist)
            && self.host_id == other.host_id && same_chart_option(&self.chart, &other.chart)
            && self.chart_mode == other.chart_mode && same_charts(
            &self.chart_pool,
            &other.chart_pool,
        ) && (both_reserved || self.expires_at == other.expires_at)
    }
}

} // verus!
