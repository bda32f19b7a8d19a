//! The hired mercenaries of all characters: hiring, summoning, dismissal,
//! contracts and loyalty. Storage is the caller's: the operations here
//! keep the state in memory and hand back what is to be written.

use vstd::prelude::*;
use std::collections::HashMap;
use crate::mercenary::data::{
    Mercenary, MercenaryDatabase, MercenaryData, MercenarySkill, MAX_LOYALTY,
    spec_contract_expired, spec_builtin_templates, spec_same_mercenary, spec_loyalty_increased,
};
use crate::text::{owned, with_decimal, concat, spec_decimal};
use crate::clock::utc_now_millis;

verus! {

broadcast use vstd::std_specs::hash::group_hash_axioms;

/// Why a mercenary operation failed.
#[derive(Debug)]
pub enum MercenaryError {
    NotFound(u32),
    AlreadySummoned,
    NotSummoned,
    NotYours,
    ContractExpired,
    Dead,
    Database(String),
}

impl MercenaryError {
    /// The error as a line of text.
    pub fn message(&self) -> (s: String)
        ensures
            match *self {
                MercenaryError::NotFound(id) => s@ == "雇佣兵未找到: "@ + spec_decimal(id as nat),
                MercenaryError::AlreadySummoned => s@ == "玩家已有召唤的雇佣兵"@,
                MercenaryError::NotSummoned => s@ == "雇佣兵未召唤"@,
                MercenaryError::NotYours => s@ == "不是你的雇佣兵"@,
                MercenaryError::ContractExpired => s@ == "合同已到期"@,
                MercenaryError::Dead => s@ == "雇佣兵已死亡"@,
                MercenaryError::Database(m) => s@ == "数据库错误: "@ + m@,
            },
    {
        match self {
            MercenaryError::NotFound(id) => with_decimal("雇佣兵未找到: ", *id as u64),
            MercenaryError::AlreadySummoned => owned("玩家已有召唤的雇佣兵"),
            MercenaryError::NotSummoned => owned("雇佣兵未召唤"),
            MercenaryError::NotYours => owned("不是你的雇佣兵"),
            MercenaryError::ContractExpired => owned("合同已到期"),
            MercenaryError::Dead => owned("雇佣兵已死亡"),
            MercenaryError::Database(m) => concat("数据库错误: ", m.as_str()),
        }
    }
}

/// How long a new contract runs: 48 hours, in milliseconds.
pub const CONTRACT_MS: i64 = 172_800_000;

/// The largest number of seconds from the epoch, either way, that is
/// promised to convert: about 253,000 years, inside chrono's date range
/// (years -262143 to 262142).
pub const TIMESTAMP_SECS_BOUND: i64 = 8_000_000_000_000;

/// Calls `chrono::DateTime::from_timestamp(secs, 0)` and returns the time in
/// milliseconds. Its source shows that a returned time is `secs` seconds
/// after the epoch, and that it returns one for every date between the
/// years -262143 and 262142, which covers `TIMESTAMP_SECS_BOUND` seconds
/// either way; how far past that bound it still succeeds is left unsaid.
#[verifier::external_body]
fn datetime_millis_from_secs(secs: i64) -> (r: Option<i64>)
    ensures
        r matches Some(m) ==> m == secs * 1000,
        -TIMESTAMP_SECS_BOUND <= secs <= TIMESTAMP_SECS_BOUND ==> r is Some,
{
    chrono::DateTime::from_timestamp(secs, 0).map(|d| d.timestamp_millis())
}

/// The largest stored mercenary id as the storage's query reports it
/// (`None` when the query failed, which counts as 0), narrowed to 32 bits.
pub fn stored_max_id(queried: Option<i64>) -> (m: u32)
    ensures
        m == (match queried { Some(v) => v as u32, None => 0u32 }),
{
    match queried {
        Some(v) => v as u32,
        None => 0,
    }
}

/// A stored mercenary as the storage hands it back; a field it could not
/// read is `None`. `contract_end` is in seconds since the epoch.
pub struct MercenaryRow {
    pub mercenary_id: Option<i32>,
    pub owner_id: Option<i32>,
    pub mercenary_class: Option<i32>,
    pub name: Option<String>,
    pub level: Option<i32>,
    pub hp: Option<i32>,
    pub max_hp: Option<i32>,
    pub sp: Option<i32>,
    pub max_sp: Option<i32>,
    pub atk: Option<i32>,
    pub defense: Option<i32>,
    pub magic_defense: Option<i32>,
    pub str: Option<i32>,
    pub agi: Option<i32>,
    pub vit: Option<i32>,
    pub int_: Option<i32>,
    pub dex: Option<i32>,
    pub luk: Option<i32>,
    pub hit: Option<i32>,
    pub flee: Option<i32>,
    pub walk_speed: Option<i32>,
    pub attack_range: Option<i32>,
    pub loyalty: Option<i32>,
    pub contract_end: Option<i64>,
    pub contract_cost: Option<i32>,
    pub alive: Option<i32>,
    /// Skill names and levels.
    pub skills: Vec<(Option<String>, Option<i32>)>,
}

/// A field's value, or `d` when it could not be read.
pub open spec fn spec_or(o: Option<i32>, d: i32) -> i32 {
    match o { Some(v) => v, None => d }
}

fn or(o: Option<i32>, d: i32) -> (v: i32)
    ensures
        v == spec_or(o, d),
{
    match o { Some(v) => v, None => d }
}

/// The mercenary a stored row describes: unread numbers take their
/// defaults (level 1, 1000 HP, 100 SP, 50 attack, stats 1, walking speed
/// 200, range 1, loyalty 100, alive) and are narrowed to their fields' types;
/// stored skills have level cap 5.
pub open spec fn spec_from_row(row: MercenaryRow, m: Mercenary) -> bool {
    &&& m.mercenary_id == spec_or(row.mercenary_id, 0) as u32
    &&& m.owner_id == spec_or(row.owner_id, 0) as u32
    &&& m.mercenary_class == spec_or(row.mercenary_class, 0) as u16
    &&& m.name@ == (match row.name { Some(n) => n@, None => Seq::<char>::empty() })
    &&& m.level == spec_or(row.level, 1) as u16
    &&& m.hp == spec_or(row.hp, 1000) as u32 && m.max_hp == spec_or(row.max_hp, 1000) as u32
    &&& m.sp == spec_or(row.sp, 100) as u32 && m.max_sp == spec_or(row.max_sp, 100) as u32
    &&& m.atk == spec_or(row.atk, 50) as u32
    &&& m.defense == spec_or(row.defense, 0) as u32 && m.magic_defense == spec_or(row.magic_defense, 0) as u32
    &&& m.str == spec_or(row.str, 1) as u16 && m.agi == spec_or(row.agi, 1) as u16 && m.vit == spec_or(row.vit, 1) as u16
    &&& m.int_ == spec_or(row.int_, 1) as u16 && m.dex == spec_or(row.dex, 1) as u16 && m.luk == spec_or(row.luk, 1) as u16
    &&& m.hit == spec_or(row.hit, 0) as i16 && m.flee == spec_or(row.flee, 0) as i16
    &&& m.walk_speed == spec_or(row.walk_speed, 200) as u16 && m.attack_range == spec_or(row.attack_range, 1) as u16
    &&& m.loyalty == spec_or(row.loyalty, 100) as u32
    &&& match row.contract_end {
        Some(ts) => m.contract_end matches Some(e) && (e == ts * 1000 || e == 0)
            && (-TIMESTAMP_SECS_BOUND <= ts <= TIMESTAMP_SECS_BOUND ==> e == ts * 1000),
        None => m.contract_end is None,
    }
    &&& m.contract_cost == spec_or(row.contract_cost, 0) as u32
    &&& m.alive == (spec_or(row.alive, 1) != 0)
    &&& m.skills@.len() == row.skills@.len()
    &&& forall|i: int| 0 <= i < m.skills@.len() ==> {
        &&& (#[trigger] m.skills@[i]).skill_name@ == (match row.skills@[i].0 { Some(n) => n@, None => Seq::<char>::empty() })
        &&& m.skills@[i].max_level == 5
        &&& m.skills@[i].current_level == spec_or(row.skills@[i].1, 0) as u8
    }
}

/// Some mercenary of `ms` has id `k`.
pub open spec fn spec_has_id(ms: Seq<Mercenary>, k: u32) -> bool {
    exists|w: int| 0 <= w < ms.len() && (#[trigger] ms[w]).mercenary_id == k
}

/// No mercenary after position `i` of `ms` has the id of the one at `i`.
pub open spec fn spec_last_with_id(ms: Seq<Mercenary>, i: int) -> bool {
    forall|j: int| i < j < ms.len() ==> (#[trigger] ms[j]).mercenary_id != ms[i].mercenary_id
}

/// Reads the mercenary out of a stored row, as `spec_from_row` describes.
pub fn mercenary_from_row(row: &MercenaryRow) -> (m: Mercenary)
    ensures
        spec_from_row(*row, m),
{
    let mut skills: Vec<MercenarySkill> = Vec::new();
    let mut i: usize = 0;
    while i < row.skills.len()
        invariant
            i <= row.skills@.len(),
            skills@.len() == i,
            forall|j: int| 0 <= j < i ==> {
                &&& (#[trigger] skills@[j]).skill_name@ == (match row.skills@[j].0 { Some(n) => n@, None => Seq::<char>::empty() })
                &&& skills@[j].max_level == 5
                &&& skills@[j].current_level == spec_or(row.skills@[j].1, 0) as u8
            },
        decreases row.skills@.len() - i,
    {
        let name = match &row.skills[i].0 {
            Some(n) => owned(n.as_str()),
            None => String::new(),
        };
        let level = or(row.skills[i].1, 0) as u8;
        skills.push(MercenarySkill { skill_name: name, max_level: 5, current_level: level });
        i = i + 1;
    }
    let contract_end = match row.contract_end {
        Some(ts) => Some(match datetime_millis_from_secs(ts) {
            Some(m) => m,
            None => 0,
        }),
        None => None,
    };
    Mercenary {
        mercenary_id: or(row.mercenary_id, 0) as u32,
        owner_id: or(row.owner_id, 0) as u32,
        mercenary_class: or(row.mercenary_class, 0) as u16,
        name: match &row.name { Some(n) => owned(n.as_str()), None => String::new() },
        level: or(row.level, 1) as u16,
        hp: or(row.hp, 1000) as u32,
        max_hp: or(row.max_hp, 1000) as u32,
        sp: or(row.sp, 100) as u32,
        max_sp: or(row.max_sp, 100) as u32,
        atk: or(row.atk, 50) as u32,
        defense: or(row.defense, 0) as u32,
        magic_defense: or(row.magic_defense, 0) as u32,
        str: or(row.str, 1) as u16,
        agi: or(row.agi, 1) as u16,
        vit: or(row.vit, 1) as u16,
        int_: or(row.int_, 1) as u16,
        dex: or(row.dex, 1) as u16,
        luk: or(row.luk, 1) as u16,
        hit: or(row.hit, 0) as i16,
        flee: or(row.flee, 0) as i16,
        walk_speed: or(row.walk_speed, 200) as u16,
        attack_range: or(row.attack_range, 1) as u16,
        loyalty: or(row.loyalty, 100) as u32,
        contract_end,
        contract_cost: or(row.contract_cost, 0) as u32,
        alive: or(row.alive, 1) != 0,
        skills,
    }
}

/// A new mercenary of template `t` for `owner_id`, numbered `id`, whose
/// contract runs 48 hours from `now`.
pub open spec fn spec_new_mercenary(m: Mercenary, t: MercenaryData, id: u32, owner_id: u32, class_id: u16, now: i64) -> bool {
    &&& m.mercenary_id == id && m.owner_id == owner_id && m.mercenary_class == class_id
    &&& m.name@ == t.name@ && m.level == t.level
    &&& m.hp == t.hp && m.max_hp == t.hp && m.sp == t.sp && m.max_sp == t.sp
    &&& m.atk == t.atk && m.defense == t.defense && m.magic_defense == t.magic_defense
    &&& m.str == t.str && m.agi == t.agi && m.vit == t.vit && m.int_ == t.int_ && m.dex == t.dex && m.luk == t.luk
    &&& m.hit == t.dex as i16 && m.flee == t.agi as i16
    &&& m.walk_speed == t.walk_speed && m.attack_range == t.attack_range
    &&& m.loyalty == 100 && m.contract_end == Some((now + CONTRACT_MS) as i64)
    &&& m.contract_cost == t.contract_cost && m.alive
    &&& m.skills@.len() == t.skills@.len()
    &&& forall|i: int| 0 <= i < m.skills@.len() ==> (#[trigger] m.skills@[i]).skill_name@ == t.skills@[i].0@
        && m.skills@[i].max_level == t.skills@[i].1 && m.skills@[i].current_level == 0
}

/// Character `c`'s summoned mercenary is in memory and its contract has run out at `now`.
pub open spec fn spec_expires(m: MercenaryManager, c: u32, now: i64) -> bool {
    &&& m.spec_summoned().contains_key(c)
    &&& m.spec_mercenaries().contains_key(m.spec_summoned()[c])
    &&& spec_contract_expired(m.spec_mercenaries()[m.spec_summoned()[c]].contract_end, now)
}

/// The stored contract end for a contract ending at `ms` milliseconds:
/// whole seconds, rounded down.
pub open spec fn spec_secs_of(ms: i64) -> int {
    ms as int / 1000
}

/// `row` is what storing `m` writes: every number as a 32-bit signed
/// field, the name, alive as 1 or 0, the contract end in whole seconds
/// (rounded down), and each skill's name and current level.
pub open spec fn spec_row_of(m: Mercenary, row: MercenaryRow) -> bool {
    &&& row.mercenary_id == Some(m.mercenary_id as i32)
    &&& row.owner_id == Some(m.owner_id as i32)
    &&& row.mercenary_class == Some(m.mercenary_class as i32)
    &&& row.name matches Some(n) && n@ == m.name@
    &&& row.level == Some(m.level as i32)
    &&& row.hp == Some(m.hp as i32) && row.max_hp == Some(m.max_hp as i32)
    &&& row.sp == Some(m.sp as i32) && row.max_sp == Some(m.max_sp as i32)
    &&& row.atk == Some(m.atk as i32)
    &&& row.defense == Some(m.defense as i32) && row.magic_defense == Some(m.magic_defense as i32)
    &&& row.str == Some(m.str as i32) && row.agi == Some(m.agi as i32) && row.vit == Some(m.vit as i32)
    &&& row.int_ == Some(m.int_ as i32) && row.dex == Some(m.dex as i32) && row.luk == Some(m.luk as i32)
    &&& row.hit == Some(m.hit as i32) && row.flee == Some(m.flee as i32)
    &&& row.walk_speed == Some(m.walk_speed as i32) && row.attack_range == Some(m.attack_range as i32)
    &&& row.loyalty == Some(m.loyalty as i32)
    &&& row.contract_end == (match m.contract_end { Some(ms) => Some(spec_secs_of(ms) as i64), None => None::<i64> })
    &&& row.contract_cost == Some(m.contract_cost as i32)
    &&& row.alive == Some(if m.alive { 1i32 } else { 0i32 })
    &&& row.skills@.len() == m.skills@.len()
    &&& forall|i: int| 0 <= i < m.skills@.len() ==> {
        &&& (#[trigger] row.skills@[i]).0 matches Some(n) && n@ == m.skills@[i].skill_name@
        &&& row.skills@[i].1 == Some(m.skills@[i].current_level as i32)
    }
}

/// Whole seconds of `ms` milliseconds, rounded down.
fn secs_of(ms: i64) -> (s: i64)
    ensures
        s == spec_secs_of(ms),
{
    if ms >= 0 {
        ms / 1000
    } else {
        let neg: u64 = (-(ms + 1)) as u64;
        let q: u64 = neg / 1000;
        assert(-(q as int) - 1 == ms as int / 1000) by (nonlinear_arith)
            requires neg == -(ms + 1), q == neg / 1000, ms < 0;
        -(q as i64) - 1
    }
}

/// The row that storing `m` writes (see `spec_row_of`).
pub fn mercenary_row(m: &Mercenary) -> (row: MercenaryRow)
    ensures
        spec_row_of(*m, row),
{
    let mut skills: Vec<(Option<String>, Option<i32>)> = Vec::new();
    let mut i: usize = 0;
    while i < m.skills.len()
        invariant
            i <= m.skills@.len(),
            skills@.len() == i,
            forall|j: int| 0 <= j < i ==> {
                &&& (#[trigger] skills@[j]).0 matches Some(n) && n@ == m.skills@[j].skill_name@
                &&& skills@[j].1 == Some(m.skills@[j].current_level as i32)
            },
        decreases m.skills@.len() - i,
    {
        skills.push((Some(owned(m.skills[i].skill_name.as_str())), Some(m.skills[i].current_level as i32)));
        i = i + 1;
    }
    let contract_end = match m.contract_end {
        Some(ms) => Some(secs_of(ms)),
        None => None,
    };
    MercenaryRow {
        mercenary_id: Some(m.mercenary_id as i32),
        owner_id: Some(m.owner_id as i32),
        mercenary_class: Some(m.mercenary_class as i32),
        name: Some(owned(m.name.as_str())),
        level: Some(m.level as i32),
        hp: Some(m.hp as i32),
        max_hp: Some(m.max_hp as i32),
        sp: Some(m.sp as i32),
        max_sp: Some(m.max_sp as i32),
        atk: Some(m.atk as i32),
        defense: Some(m.defense as i32),
        magic_defense: Some(m.magic_defense as i32),
        str: Some(m.str as i32),
        agi: Some(m.agi as i32),
        vit: Some(m.vit as i32),
        int_: Some(m.int_ as i32),
        dex: Some(m.dex as i32),
        luk: Some(m.luk as i32),
        hit: Some(m.hit as i32),
        flee: Some(m.flee as i32),
        walk_speed: Some(m.walk_speed as i32),
        attack_range: Some(m.attack_range as i32),
        loyalty: Some(m.loyalty as i32),
        contract_end,
        contract_cost: Some(m.contract_cost as i32),
        alive: Some(if m.alive { 1 } else { 0 }),
        skills,
    }
}

proof fn lemma_u32_via_i32(x: u32)
    ensures
        (x as i32) as u32 == x,
{
    assert((x as i32) as u32 == x) by (bit_vector);
}

/// Storing a mercenary and reading the row back gives the same mercenary:
/// every number, the name, whether it is alive and each skill's name and
/// current level come back as they were (skills come back with level cap
/// 5), and the contract end comes back rounded down to whole seconds
/// (exactly, for an end in whole seconds within `TIMESTAMP_SECS_BOUND`).
pub proof fn lemma_row_roundtrip(m: Mercenary, row: MercenaryRow, m2: Mercenary)
    requires
        spec_row_of(m, row),
        spec_from_row(row, m2),
    ensures
        m2.mercenary_id == m.mercenary_id && m2.owner_id == m.owner_id && m2.mercenary_class == m.mercenary_class,
        m2.name@ == m.name@,
        m2.level == m.level && m2.hp == m.hp && m2.max_hp == m.max_hp && m2.sp == m.sp && m2.max_sp == m.max_sp,
        m2.atk == m.atk && m2.defense == m.defense && m2.magic_defense == m.magic_defense,
        m2.str == m.str && m2.agi == m.agi && m2.vit == m.vit && m2.int_ == m.int_ && m2.dex == m.dex && m2.luk == m.luk,
        m2.hit == m.hit && m2.flee == m.flee && m2.walk_speed == m.walk_speed && m2.attack_range == m.attack_range,
        m2.loyalty == m.loyalty && m2.contract_cost == m.contract_cost && m2.alive == m.alive,
        m.contract_end is None <==> m2.contract_end is None,
        m.contract_end matches Some(ms) ==> (ms % 1000 == 0 && -TIMESTAMP_SECS_BOUND * 1000 <= ms <= TIMESTAMP_SECS_BOUND * 1000
            ==> m2.contract_end == Some(ms)),
        m2.skills@.len() == m.skills@.len(),
        forall|i: int| 0 <= i < m.skills@.len() ==> (#[trigger] m2.skills@[i]).skill_name@ == m.skills@[i].skill_name@
            && m2.skills@[i].current_level == m.skills@[i].current_level && m2.skills@[i].max_level == 5,
{
    lemma_u32_via_i32(m.mercenary_id);
    lemma_u32_via_i32(m.owner_id);
    lemma_u32_via_i32(m.hp);
    lemma_u32_via_i32(m.max_hp);
    lemma_u32_via_i32(m.sp);
    lemma_u32_via_i32(m.max_sp);
    lemma_u32_via_i32(m.atk);
    lemma_u32_via_i32(m.defense);
    lemma_u32_via_i32(m.magic_defense);
    lemma_u32_via_i32(m.loyalty);
    lemma_u32_via_i32(m.contract_cost);
    assert forall|i: int| 0 <= i < m.skills@.len() implies (#[trigger] m2.skills@[i]).skill_name@ == m.skills@[i].skill_name@
        && m2.skills@[i].current_level == m.skills@[i].current_level && m2.skills@[i].max_level == 5 by {
        let row_skill = row.skills@[i];
        assert(row_skill.1 == Some(m.skills@[i].current_level as i32));
    }
}

/// All mercenaries in memory, who has which one summoned, the templates,
/// and the next id to hand out.
pub struct MercenaryManager {
    mercenaries: HashMap<u32, Mercenary>,
    summoned: HashMap<u32, u32>,
    database: MercenaryDatabase,
    next_id: u32,
}

/// At time `now`, exactly the characters `r` had their mercenary's
/// contract run out, and `summoned` is what stays summoned.
pub open spec fn spec_expired_at(o: MercenaryManager, summoned: Map<u32, u32>, r: Seq<u32>, now: i64) -> bool {
    &&& forall|c: u32| #[trigger] r.contains(c) <==> spec_expires(o, c, now)
    &&& forall|c: u32| #[trigger] summoned.contains_key(c) <==> o.spec_summoned().contains_key(c) && !spec_expires(o, c, now)
}

/// What summoning mercenary `mercenary_id` for `char_id` at time `now`
/// gives: it fails, checking in this order, when the character already has
/// one out, the mercenary is unknown, belongs to someone else, its contract
/// has run out, or it is dead; otherwise the character has it summoned.
/// Nothing else changes.
pub open spec fn spec_summon_outcome(o: MercenaryManager, f: MercenaryManager, char_id: u32, mercenary_id: u32, now: i64,
    r: Result<(), MercenaryError>) -> bool {
    let m = o.spec_mercenaries()[mercenary_id];
    &&& f.spec_mercenaries() == o.spec_mercenaries()
    &&& f.spec_next_id() == o.spec_next_id()
    &&& f.spec_database() == o.spec_database()
    &&& if o.spec_summoned().contains_key(char_id) {
        r == Err::<(), MercenaryError>(MercenaryError::AlreadySummoned)
    } else if !o.spec_mercenaries().contains_key(mercenary_id) {
        r == Err::<(), MercenaryError>(MercenaryError::NotFound(mercenary_id))
    } else if m.owner_id != char_id {
        r == Err::<(), MercenaryError>(MercenaryError::NotYours)
    } else if spec_contract_expired(m.contract_end, now) {
        r == Err::<(), MercenaryError>(MercenaryError::ContractExpired)
    } else if !m.alive {
        r == Err::<(), MercenaryError>(MercenaryError::Dead)
    } else {
        r is Ok
    }
    &&& r is Ok ==> f.spec_summoned() == o.spec_summoned().insert(char_id, mercenary_id)
    &&& r is Err ==> f.spec_summoned() == o.spec_summoned()
}

impl MercenaryManager {
    /// The mercenaries in memory, by id.
    pub closed spec fn spec_mercenaries(&self) -> Map<u32, Mercenary> {
        self.mercenaries@
    }

    /// The summoned mercenary of each character.
    pub closed spec fn spec_summoned(&self) -> Map<u32, u32> {
        self.summoned@
    }

    /// The next id to hand out.
    pub closed spec fn spec_next_id(&self) -> u32 {
        self.next_id
    }

    /// The templates.
    pub closed spec fn spec_database(&self) -> MercenaryDatabase {
        self.database
    }

    /// A manager with the built-in templates whose ids continue after `max_id`.
    pub fn new_hardcoded(max_id: u32) -> (m: Self)
        requires
            max_id < u32::MAX,
        ensures
            m.spec_mercenaries() == Map::<u32, Mercenary>::empty(),
            m.spec_summoned() == Map::<u32, u32>::empty(),
            m.spec_next_id() == max_id + 1,
            spec_builtin_templates(m.spec_database().spec_templates()),
    {
        MercenaryManager::new(max_id, MercenaryDatabase::new_hardcoded())
    }

    /// A manager with the templates `database` whose ids continue after `max_id`.
    pub fn new(max_id: u32, database: MercenaryDatabase) -> (m: Self)
        requires
            max_id < u32::MAX,
        ensures
            m.spec_mercenaries() == Map::<u32, Mercenary>::empty(),
            m.spec_summoned() == Map::<u32, u32>::empty(),
            m.spec_next_id() == max_id + 1,
            m.spec_database() == database,
    {
        MercenaryManager { mercenaries: HashMap::new(), summoned: HashMap::new(), database, next_id: max_id + 1 }
    }

    /// Keeps the mercenaries stored rows describe in memory and hands them back.
    pub fn load_for_character(&mut self, rows: Vec<MercenaryRow>) -> (v: Vec<Mercenary>)
        ensures
            v@.len() == rows@.len(),
            forall|i: int| 0 <= i < v@.len() ==> spec_from_row(rows@[i], #[trigger] v@[i]),
            forall|i: int| 0 <= i < v@.len() ==> final(self).spec_mercenaries().contains_key((#[trigger] v@[i]).mercenary_id),
            forall|i: int| 0 <= i < v@.len() && spec_last_with_id(v@, i) ==>
                spec_same_mercenary(v@[i], #[trigger] final(self).spec_mercenaries()[v@[i].mercenary_id]),
            forall|k: u32| !spec_has_id(v@, k) ==> #[trigger] final(self).spec_mercenaries().get(k) == old(self).spec_mercenaries().get(k),
            final(self).spec_summoned() == old(self).spec_summoned(),
            final(self).spec_next_id() == old(self).spec_next_id(),
    {
        let mut v: Vec<Mercenary> = Vec::new();
        let mut i: usize = 0;
        while i < rows.len()
            invariant
                i <= rows@.len(),
                v@.len() == i,
                forall|j: int| 0 <= j < i ==> spec_from_row(rows@[j], #[trigger] v@[j]),
                forall|j: int| 0 <= j < i ==> self.spec_mercenaries().contains_key((#[trigger] v@[j]).mercenary_id),
                forall|j: int| 0 <= j < i && spec_last_with_id(v@, j) ==>
                    spec_same_mercenary(v@[j], #[trigger] self.spec_mercenaries()[v@[j].mercenary_id]),
                forall|k: u32| !spec_has_id(v@, k) ==> #[trigger] self.spec_mercenaries().get(k) == old(self).spec_mercenaries().get(k),
                self.spec_summoned() == old(self).spec_summoned(),
                self.spec_next_id() == old(self).spec_next_id(),
            decreases rows@.len() - i,
        {
            let m = mercenary_from_row(&rows[i]);
            let copy = m.clone();
            let ghost prev = self.spec_mercenaries();
            self.mercenaries.insert(m.mercenary_id, copy);
            let ghost before = v@;
            v.push(m);
            proof {
                assert(self.spec_mercenaries() == prev.insert(m.mercenary_id, copy));
                assert(v@ == before.push(m));
                assert forall|j: int| 0 <= j < v@.len() && spec_last_with_id(v@, j) implies
                    spec_same_mercenary(v@[j], #[trigger] self.spec_mercenaries()[v@[j].mercenary_id]) by {
                    if j < before.len() {
                        assert forall|jj: int| j < jj < before.len() implies
                            (#[trigger] before[jj]).mercenary_id != before[j].mercenary_id by {
                            assert(v@[jj] == before[jj]);
                        }
                        assert(spec_last_with_id(before, j));
                        assert(v@[v@.len() - 1].mercenary_id != v@[j].mercenary_id);
                    }
                }
                assert forall|k: u32| !spec_has_id(v@, k) implies #[trigger] self.spec_mercenaries().get(k) == old(self).spec_mercenaries().get(k) by {
                    assert(!spec_has_id(before, k)) by {
                        if spec_has_id(before, k) {
                            let w = choose|w: int| 0 <= w < before.len() && before[w].mercenary_id == k;
                            assert(v@[w] == before[w]);
                        }
                    }
                    if k == v@[v@.len() - 1].mercenary_id {
                        assert(spec_has_id(v@, k));
                    }
                    assert(prev.get(k) == old(self).spec_mercenaries().get(k));
                    assert(prev.insert(m.mercenary_id, copy).get(k) == prev.get(k));
                }
            }
            i = i + 1;
        }
        v
    }

    /// Hires a mercenary of template `class_id` for `owner_id` at time `now`:
    /// the next id is taken (even when storing it later fails) and the
    /// contract runs 48 hours. The new mercenary is not yet kept in memory;
    /// once stored, `remember` keeps it.
    pub fn prepare_create_at(&mut self, owner_id: u32, class_id: u16, now: i64) -> (r: Result<Mercenary, MercenaryError>)
        requires
            now + CONTRACT_MS <= i64::MAX,
        ensures
            final(self).spec_mercenaries() == old(self).spec_mercenaries(),
            final(self).spec_summoned() == old(self).spec_summoned(),
            final(self).spec_database() == old(self).spec_database(),
            match r {
                Ok(m) => old(self).spec_database().spec_templates().contains_key(class_id)
                    && spec_new_mercenary(m, old(self).spec_database().spec_templates()[class_id], old(self).spec_next_id(), owner_id, class_id, now)
                    && final(self).spec_next_id() == (if old(self).spec_next_id() == u32::MAX { 0 } else { (old(self).spec_next_id() + 1) as u32 }),
                Err(e) => !old(self).spec_database().spec_templates().contains_key(class_id)
                    && e == MercenaryError::NotFound(class_id as u32)
                    && final(self).spec_next_id() == old(self).spec_next_id(),
            },
    {
        let t = match self.database.get(class_id) {
            Some(t) => t,
            None => return Err(MercenaryError::NotFound(class_id as u32)),
        };
        let mercenary_id = self.next_id;
        self.next_id = if self.next_id == u32::MAX { 0 } else { self.next_id + 1 };
        let mut skills: Vec<MercenarySkill> = Vec::new();
        let mut i: usize = 0;
        while i < t.skills.len()
            invariant
                i <= t.skills@.len(),
                skills@.len() == i,
                forall|j: int| 0 <= j < i ==> (#[trigger] skills@[j]).skill_name@ == t.skills@[j].0@
                    && skills@[j].max_level == t.skills@[j].1 && skills@[j].current_level == 0,
            decreases t.skills@.len() - i,
        {
            skills.push(MercenarySkill { skill_name: t.skills[i].0.clone(), max_level: t.skills[i].1, current_level: 0 });
            i = i + 1;
        }
        Ok(Mercenary {
            mercenary_id,
            owner_id,
            mercenary_class: class_id,
            name: t.name.clone(),
            level: t.level,
            hp: t.hp,
            max_hp: t.hp,
            sp: t.sp,
            max_sp: t.sp,
            atk: t.atk,
            defense: t.defense,
            magic_defense: t.magic_defense,
            str: t.str,
            agi: t.agi,
            vit: t.vit,
            int_: t.int_,
            dex: t.dex,
            luk: t.luk,
            hit: t.dex as i16,
            flee: t.agi as i16,
            walk_speed: t.walk_speed,
            attack_range: t.attack_range,
            loyalty: 100,
            contract_end: Some(now + CONTRACT_MS),
            contract_cost: t.contract_cost,
            alive: true,
            skills,
        })
    }

    /// Hires a mercenary as `prepare_create_at` does, at the current time.
    pub fn prepare_create(&mut self, owner_id: u32, class_id: u16) -> (r: Result<Mercenary, MercenaryError>)
        ensures
            final(self).spec_mercenaries() == old(self).spec_mercenaries(),
            final(self).spec_summoned() == old(self).spec_summoned(),
            final(self).spec_database() == old(self).spec_database(),
            r is Err <==> !old(self).spec_database().spec_templates().contains_key(class_id),
            match r {
                Ok(m) => (exists|now: i64| #[trigger] spec_new_mercenary(m, old(self).spec_database().spec_templates()[class_id],
                        old(self).spec_next_id(), owner_id, class_id, now))
                    && final(self).spec_next_id() == (if old(self).spec_next_id() == u32::MAX { 0 } else { (old(self).spec_next_id() + 1) as u32 }),
                Err(e) => e == MercenaryError::NotFound(class_id as u32) && final(self).spec_next_id() == old(self).spec_next_id(),
            },
    {
        let now = utc_now_millis();
        let now = if now > i64::MAX - CONTRACT_MS { i64::MAX - CONTRACT_MS } else { now };
        self.prepare_create_at(owner_id, class_id, now)
    }

    /// Keeps a mercenary in memory (replacing one with its id).
    pub fn remember(&mut self, mercenary: Mercenary)
        ensures
            final(self).spec_mercenaries() == old(self).spec_mercenaries().insert(mercenary.mercenary_id, mercenary),
            final(self).spec_summoned() == old(self).spec_summoned(),
            final(self).spec_next_id() == old(self).spec_next_id(),
    {
        self.mercenaries.insert(mercenary.mercenary_id, mercenary);
    }

    /// Summons mercenary `mercenary_id` for `char_id` at time `now`. Fails,
    /// checking in this order, when the character already has one out, the
    /// mercenary is unknown, belongs to someone else, its contract has run
    /// out, or it is dead.
    pub fn summon_at(&mut self, char_id: u32, mercenary_id: u32, now: i64) -> (r: Result<(), MercenaryError>)
        ensures
            spec_summon_outcome(*old(self), *final(self), char_id, mercenary_id, now, r),
    {
        if self.summoned.contains_key(&char_id) {
            return Err(MercenaryError::AlreadySummoned);
        }
        let m = match self.mercenaries.get(&mercenary_id) {
            Some(m) => m,
            None => return Err(MercenaryError::NotFound(mercenary_id)),
        };
        if m.owner_id != char_id {
            return Err(MercenaryError::NotYours);
        }
        if m.is_contract_expired_at(now) {
            return Err(MercenaryError::ContractExpired);
        }
        if !m.alive {
            return Err(MercenaryError::Dead);
        }
        self.summoned.insert(char_id, mercenary_id);
        Ok(())
    }

    /// Summons as `summon_at` does, at the current time.
    pub fn summon(&mut self, char_id: u32, mercenary_id: u32) -> (r: Result<(), MercenaryError>)
        ensures
            exists|now: i64| #[trigger] spec_summon_outcome(*old(self), *final(self), char_id, mercenary_id, now, r),
    {
        let now = utc_now_millis();
        self.summon_at(char_id, mercenary_id, now)
    }

    /// Sends a character's summoned mercenary away, handing back its id.
    pub fn dismiss(&mut self, char_id: u32) -> (r: Option<u32>)
        ensures
            final(self).spec_summoned() == old(self).spec_summoned().remove(char_id),
            r == (if old(self).spec_summoned().contains_key(char_id) { Some(old(self).spec_summoned()[char_id]) } else { None }),
            final(self).spec_mercenaries() == old(self).spec_mercenaries(),
    {
        self.summoned.remove(&char_id)
    }

    /// A copy of a character's summoned mercenary.
    pub fn get_summoned(&self, char_id: u32) -> (r: Option<Mercenary>)
        ensures
            (self.spec_summoned().contains_key(char_id) && self.spec_mercenaries().contains_key(self.spec_summoned()[char_id])) <==> r is Some,
            r matches Some(m) ==> spec_same_mercenary(self.spec_mercenaries()[self.spec_summoned()[char_id]], m),
    {
        match self.summoned.get(&char_id) {
            Some(id) => match self.mercenaries.get(id) {
                Some(m) => Some(m.clone()),
                None => None,
            },
            None => None,
        }
    }

    /// A copy of a mercenary.
    pub fn get(&self, mercenary_id: u32) -> (r: Option<Mercenary>)
        ensures
            self.spec_mercenaries().contains_key(mercenary_id) <==> r is Some,
            r matches Some(m) ==> spec_same_mercenary(self.spec_mercenaries()[mercenary_id], m),
    {
        match self.mercenaries.get(&mercenary_id) {
            Some(m) => Some(m.clone()),
            None => None,
        }
    }

    /// Sends away every summoned mercenary whose contract has run out at
    /// `now` and forgets it; hands back the characters and mercenaries
    /// concerned (for the caller to delete from storage).
    pub fn expire_contracts_at(&mut self, now: i64) -> (r: Vec<(u32, u32)>)
        ensures
            forall|c: u32| (exists|i: int| 0 <= i < r@.len() && (#[trigger] r@[i]).0 == c) <==> spec_expires(*old(self), c, now),
            forall|i: int| 0 <= i < r@.len() ==> (#[trigger] r@[i]).1 == old(self).spec_summoned()[r@[i].0],
            forall|c: u32| #[trigger] final(self).spec_summoned().contains_key(c) <==>
                old(self).spec_summoned().contains_key(c) && !spec_expires(*old(self), c, now),
            forall|c: u32| #[trigger] final(self).spec_summoned().contains_key(c) ==> final(self).spec_summoned()[c] == old(self).spec_summoned()[c],
            final(self).spec_next_id() == old(self).spec_next_id(),
    {
        let ghost s0 = self.summoned@;
        let ghost m0 = self.mercenaries@;
        let mut due: Vec<(u32, u32)> = Vec::new();
        for c in it: self.summoned.keys()
            invariant
                self.summoned@ == s0,
                self.mercenaries@ == m0,
                forall|c2: u32| #[trigger] s0.contains_key(c2) ==> exists|j: int| 0 <= j < it.seq().len() && *it.seq()[j] == c2,
                it.seq().no_duplicates(),
                forall|i: int| 0 <= i < due@.len() ==> s0.contains_key((#[trigger] due@[i]).0) && due@[i].1 == s0[due@[i].0]
                    && m0.contains_key(s0[due@[i].0]) && spec_contract_expired(m0[s0[due@[i].0]].contract_end, now),
                forall|c2: u32| #[trigger] s0.contains_key(c2) && m0.contains_key(s0[c2]) && spec_contract_expired(m0[s0[c2]].contract_end, now)
                    && (exists|j: int| 0 <= j < it.index() && *it.seq()[j] == c2) ==>
                    exists|i: int| 0 <= i < due@.len() && due@[i].0 == c2,
        {
            let ghost old_due = due@;
            let ghost cc = *c;
            match self.summoned.get(c) {
                Some(mid) => match self.mercenaries.get(mid) {
                    Some(m) => {
                        if m.is_contract_expired_at(now) {
                            due.push((*c, *mid));
                        }
                    },
                    None => {},
                },
                None => {},
            }
            proof {
                assert(*it.seq()[it.index() as int] == cc);
                assert(due@.len() == old_due.len() || due@ == old_due.push((cc, s0[cc])));
                assert forall|c2: u32| #[trigger] s0.contains_key(c2) && m0.contains_key(s0[c2]) && spec_contract_expired(m0[s0[c2]].contract_end, now)
                    && (exists|j: int| 0 <= j < it.index() + 1 && *it.seq()[j] == c2) implies
                    exists|i: int| 0 <= i < due@.len() && due@[i].0 == c2 by {
                    let j = choose|j: int| 0 <= j < it.index() + 1 && *it.seq()[j] == c2;
                    if j == it.index() {
                        assert(due@[due@.len() - 1].0 == c2);
                    } else {
                        let i = choose|i: int| 0 <= i < old_due.len() && old_due[i].0 == c2;
                        assert(due@[i] == old_due[i]);
                    }
                }
            }
        }
        assert(forall|c2: u32| #[trigger] s0.contains_key(c2) && m0.contains_key(s0[c2]) && spec_contract_expired(m0[s0[c2]].contract_end, now) ==>
            exists|i: int| 0 <= i < due@.len() && due@[i].0 == c2);
        let mut i: usize = 0;
        while i < due.len()
            invariant
                i <= due@.len(),
                forall|k: int| 0 <= k < due@.len() ==> s0.contains_key((#[trigger] due@[k]).0) && due@[k].1 == s0[due@[k].0]
                    && m0.contains_key(s0[due@[k].0]) && spec_contract_expired(m0[s0[due@[k].0]].contract_end, now),
                forall|c2: u32| #[trigger] self.summoned@.contains_key(c2) <==> s0.contains_key(c2)
                    && !(exists|k: int| 0 <= k < i && due@[k].0 == c2),
                forall|c2: u32| #[trigger] self.summoned@.contains_key(c2) ==> self.summoned@[c2] == s0[c2],
                self.next_id == old(self).next_id,
            decreases due@.len() - i,
        {
            let (c, _) = due[i];
            let ghost pre_s = self.summoned@;
            let ghost pre_m = self.mercenaries@;
            match self.summoned.remove(&c) {
                Some(mid) => {
                    self.mercenaries.remove(&mid);
                    proof {
                        assert(self.summoned@ =~= pre_s.remove(c));
                        assert(self.mercenaries@ =~= pre_m.remove(mid));
                    }
                },
                None => {
                    proof {
                        assert(self.summoned@ =~= pre_s);
                    }
                },
            }
            i = i + 1;
        }
        proof {
            assert forall|c2: u32| #[trigger] self.summoned@.contains_key(c2) <==> s0.contains_key(c2)
                && !(m0.contains_key(s0[c2]) && spec_contract_expired(m0[s0[c2]].contract_end, now)) by {
                if s0.contains_key(c2) && m0.contains_key(s0[c2]) && spec_contract_expired(m0[s0[c2]].contract_end, now) {
                    let k = choose|k: int| 0 <= k < due@.len() && due@[k].0 == c2;
                }
                if s0.contains_key(c2) && !(m0.contains_key(s0[c2]) && spec_contract_expired(m0[s0[c2]].contract_end, now)) {
                    if exists|k: int| 0 <= k < due@.len() && due@[k].0 == c2 {
                        let k = choose|k: int| 0 <= k < due@.len() && due@[k].0 == c2;
                    }
                }
            }
        }
        due
    }

    /// Sends away the summoned mercenaries whose contracts have run out, by
    /// the system clock, and hands back the characters concerned.
    pub fn update_contracts(&mut self) -> (r: Vec<u32>)
        ensures
            final(self).spec_next_id() == old(self).spec_next_id(),
            forall|i: int| 0 <= i < r@.len() ==> old(self).spec_summoned().contains_key(#[trigger] r@[i])
                && !final(self).spec_summoned().contains_key(r@[i]),
            exists|now: i64| #[trigger] spec_expired_at(*old(self), final(self).spec_summoned(), r@, now),
            forall|c: u32| #[trigger] final(self).spec_summoned().contains_key(c) ==> final(self).spec_summoned()[c] == old(self).spec_summoned()[c],
    {
        let now = utc_now_millis();
        let pairs = self.expire_contracts_at(now);
        let mut r: Vec<u32> = Vec::new();
        let mut i: usize = 0;
        while i < pairs.len()
            invariant
                i <= pairs@.len(),
                r@.len() == i,
                forall|k: int| 0 <= k < i ==> (#[trigger] r@[k]) == pairs@[k].0,
            decreases pairs@.len() - i,
        {
            r.push(pairs[i].0);
            i = i + 1;
        }
        proof {
            assert forall|c: u32| #[trigger] r@.contains(c) <==> spec_expires(*old(self), c, now) by {
                if r@.contains(c) {
                    let k = choose|k: int| 0 <= k < r@.len() && r@[k] == c;
                    assert(pairs@[k].0 == c);
                }
                if spec_expires(*old(self), c, now) {
                    let k = choose|k: int| 0 <= k < pairs@.len() && (#[trigger] pairs@[k]).0 == c;
                    assert(r@[k] == c);
                }
            }
            assert(spec_expired_at(*old(self), self.spec_summoned(), r@, now));
            assert forall|k: int| 0 <= k < r@.len() implies old(self).spec_summoned().contains_key(#[trigger] r@[k])
                && !self.spec_summoned().contains_key(r@[k]) by {
                assert(pairs@[k].0 == r@[k]);
                assert(exists|i: int| 0 <= i < pairs@.len() && (#[trigger] pairs@[i]).0 == r@[k]);
                assert(spec_expires(*old(self), r@[k], now));
            }
        }
        r
    }

    /// Raises a mercenary's loyalty by `amount`, up to the cap; fails for an
    /// unknown mercenary. The caller stores the new loyalty.
    pub fn increase_loyalty(&mut self, mercenary_id: u32, amount: u32) -> (r: Result<(), MercenaryError>)
        requires
            old(self).spec_mercenaries().contains_key(mercenary_id) ==>
                old(self).spec_mercenaries()[mercenary_id].loyalty + amount <= u32::MAX,
        ensures
            final(self).spec_summoned() == old(self).spec_summoned(),
            final(self).spec_next_id() == old(self).spec_next_id(),
            !old(self).spec_mercenaries().contains_key(mercenary_id) ==>
                r == Err::<(), MercenaryError>(MercenaryError::NotFound(mercenary_id)) && final(self).spec_mercenaries() == old(self).spec_mercenaries(),
            old(self).spec_mercenaries().contains_key(mercenary_id) ==> r is Ok && ({
                let o = old(self).spec_mercenaries()[mercenary_id];
                let f = final(self).spec_mercenaries()[mercenary_id];
                &&& final(self).spec_mercenaries().dom() == old(self).spec_mercenaries().dom()
                &&& forall|k: u32| k != mercenary_id && #[trigger] old(self).spec_mercenaries().contains_key(k) ==>
                    final(self).spec_mercenaries()[k] == old(self).spec_mercenaries()[k]
                &&& f == (Mercenary { loyalty: f.loyalty, ..o })
                &&& f.loyalty == spec_loyalty_increased(o.loyalty, amount)
            }),
    {
        match self.mercenaries.remove(&mercenary_id) {
            Some(m) => {
                let mut m = m;
                m.increase_loyalty(amount);
                self.mercenaries.insert(mercenary_id, m);
                proof {
                    assert(self.mercenaries@.dom() =~= old(self).mercenaries@.dom());
                }
                Ok(())
            },
            None => {
                proof {
                    assert(self.mercenaries@ =~= old(self).mercenaries@);
                }
                Err(MercenaryError::NotFound(mercenary_id))
            },
        }
    }

    /// The templates.
    pub fn database(&self) -> (d: &MercenaryDatabase)
        ensures
            *d == self.spec_database(),
    {
        &self.database
    }
}

/// Summoning a mercenary for a character that had none and then
/// dismissing it leaves who-has-what-summoned as it was, and the dismissal
/// hands back the summoned mercenary.
pub proof fn lemma_summon_then_dismiss(summoned: Map<u32, u32>, char_id: u32, mercenary_id: u32)
    requires
        !summoned.contains_key(char_id),
    ensures
        summoned.insert(char_id, mercenary_id).remove(char_id) == summoned,
        summoned.insert(char_id, mercenary_id).contains_key(char_id),
        summoned.insert(char_id, mercenary_id)[char_id] == mercenary_id,
{
    assert(summoned.insert(char_id, mercenary_id).remove(char_id) =~= summoned);
}

} // verus!
