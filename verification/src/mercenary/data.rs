//! Mercenary templates and hired mercenaries.

use vstd::prelude::*;
use std::collections::HashMap;
use crate::text::owned;
use crate::clock::utc_now_millis;
use crate::mercenary::yaml_loader::MercenaryTemplateYaml;

verus! {

broadcast use vstd::std_specs::hash::group_hash_axioms;

/// The line of a mercenary.
#[derive(Debug, Clone, Copy, PartialEq, Eq, Structural)]
pub enum MercenaryClass {
    Archer,
    Lancer,
    Swordman,
}

/// A skill of a hired mercenary.
#[derive(Debug)]
pub struct MercenarySkill {
    pub skill_name: String,
    pub max_level: u8,
    pub current_level: u8,
}

impl Clone for MercenarySkill {
    fn clone(&self) -> (r: Self)
        ensures
            r.skill_name@ == self.skill_name@ && r.max_level == self.max_level && r.current_level == self.current_level,
    {
        MercenarySkill { skill_name: self.skill_name.clone(), max_level: self.max_level, current_level: self.current_level }
    }
}

/// A hired mercenary. `contract_end` is in milliseconds since the Unix epoch.
#[derive(Debug)]
pub struct Mercenary {
    pub mercenary_id: u32,
    pub owner_id: u32,
    pub mercenary_class: u16,
    pub name: String,
    pub level: u16,
    pub hp: u32,
    pub max_hp: u32,
    pub sp: u32,
    pub max_sp: u32,
    pub atk: u32,
    pub defense: u32,
    pub magic_defense: u32,
    pub str: u16,
    pub agi: u16,
    pub vit: u16,
    /// Intelligence.
    pub int_: u16,
    pub dex: u16,
    pub luk: u16,
    pub hit: i16,
    pub flee: i16,
    pub walk_speed: u16,
    pub attack_range: u16,
    pub loyalty: u32,
    pub contract_end: Option<i64>,
    pub contract_cost: u32,
    pub alive: bool,
    pub skills: Vec<MercenarySkill>,
}

/// `b` is a copy of mercenary `a`.
pub open spec fn spec_same_mercenary(a: Mercenary, b: Mercenary) -> bool {
    &&& b == (Mercenary { name: b.name, skills: b.skills, ..a })
    &&& b.name@ == a.name@
    &&& b.skills@.len() == a.skills@.len()
    &&& forall|i: int| 0 <= i < a.skills@.len() ==> (#[trigger] b.skills@[i]).skill_name@ == a.skills@[i].skill_name@
        && b.skills@[i].max_level == a.skills@[i].max_level && b.skills@[i].current_level == a.skills@[i].current_level
}

impl Clone for Mercenary {
    fn clone(&self) -> (r: Self)
        ensures
            spec_same_mercenary(*self, r),
    {
        let mut skills: Vec<MercenarySkill> = Vec::new();
        let mut i: usize = 0;
        while i < self.skills.len()
            invariant
                i <= self.skills@.len(),
                skills@.len() == i,
                forall|j: int| 0 <= j < i ==> (#[trigger] skills@[j]).skill_name@ == self.skills@[j].skill_name@
                    && skills@[j].max_level == self.skills@[j].max_level && skills@[j].current_level == self.skills@[j].current_level,
            decreases self.skills@.len() - i,
        {
            skills.push(self.skills[i].clone());
            i = i + 1;
        }
        Mercenary {
            mercenary_id: self.mercenary_id,
            owner_id: self.owner_id,
            mercenary_class: self.mercenary_class,
            name: self.name.clone(),
            level: self.level,
            hp: self.hp,
            max_hp: self.max_hp,
            sp: self.sp,
            max_sp: self.max_sp,
            atk: self.atk,
            defense: self.defense,
            magic_defense: self.magic_defense,
            str: self.str,
            agi: self.agi,
            vit: self.vit,
            int_: self.int_,
            dex: self.dex,
            luk: self.luk,
            hit: self.hit,
            flee: self.flee,
            walk_speed: self.walk_speed,
            attack_range: self.attack_range,
            loyalty: self.loyalty,
            contract_end: self.contract_end,
            contract_cost: self.contract_cost,
            alive: self.alive,
            skills,
        }
    }
}

/// The most loyalty a mercenary can have.
pub const MAX_LOYALTY: u32 = 1000;

/// Loyalty `l` raised by `a`, capped at `MAX_LOYALTY`.
pub open spec fn spec_loyalty_increased(l: u32, a: u32) -> int {
    if l + a < MAX_LOYALTY { l + a } else { MAX_LOYALTY as int }
}

/// Loyalty `l` lowered by `a`, stopping at 0.
pub open spec fn spec_loyalty_decreased(l: u32, a: u32) -> int {
    if l >= a { l - a } else { 0 }
}

/// Raising loyalty never goes past the cap nor lowers it below where it
/// was (or the cap); lowering never goes below 0 nor above where it was.
pub proof fn lemma_loyalty_bounds(l: u32, a: u32)
    ensures
        spec_loyalty_increased(l, a) <= MAX_LOYALTY,
        spec_loyalty_increased(l, a) >= (if l < MAX_LOYALTY { l as int } else { MAX_LOYALTY as int }),
        0 <= spec_loyalty_decreased(l, a) <= l,
        l <= MAX_LOYALTY ==> spec_loyalty_decreased(l, a) <= MAX_LOYALTY,
{
}

/// Whether a contract ending at `end` has run out at `now` (milliseconds).
pub open spec fn spec_contract_expired(end: Option<i64>, now: i64) -> bool {
    match end {
        Some(e) => now >= e,
        None => false,
    }
}

/// The whole seconds a contract ending at `end` still runs at `now`.
pub open spec fn spec_contract_remaining_secs(end: Option<i64>, now: i64) -> i64 {
    match end {
        Some(e) => if e > now { ((e - now) / 1000) as i64 } else { 0 },
        None => 0,
    }
}

impl Mercenary {
    /// Whether the contract has run out at `now`.
    pub fn is_contract_expired_at(&self, now: i64) -> (b: bool)
        ensures
            b == spec_contract_expired(self.contract_end, now),
    {
        match self.contract_end {
            Some(end) => now >= end,
            None => false,
        }
    }

    /// Whether the contract has run out, by the system clock.
    pub fn is_contract_expired(&self) -> (b: bool)
        ensures
            self.contract_end is None ==> !b,
            exists|now: i64| b == #[trigger] spec_contract_expired(self.contract_end, now),
    {
        self.is_contract_expired_at(utc_now_millis())
    }

    /// The whole seconds the contract still runs at `now` (0 when it has
    /// run out or there is none).
    pub fn contract_remaining_secs_at(&self, now: i64) -> (s: i64)
        ensures
            s == spec_contract_remaining_secs(self.contract_end, now),
    {
        match self.contract_end {
            Some(end) => {
                if end > now {
                    let diff: i128 = end as i128 - now as i128;
                    (diff / 1000) as i64
                } else {
                    0
                }
            },
            None => 0,
        }
    }

    /// The whole seconds the contract still runs, by the system clock.
    pub fn contract_remaining_secs(&self) -> (s: i64)
        ensures
            s >= 0,
            self.contract_end is None ==> s == 0,
            exists|now: i64| s == #[trigger] spec_contract_remaining_secs(self.contract_end, now),
    {
        self.contract_remaining_secs_at(utc_now_millis())
    }

    /// Takes `damage`; at or below zero HP the mercenary dies.
    pub fn take_damage(&mut self, damage: u32)
        ensures
            damage >= old(self).hp ==> *final(self) == (Mercenary { hp: 0, alive: false, ..*old(self) }),
            damage < old(self).hp ==> *final(self) == (Mercenary { hp: (old(self).hp - damage) as u32, ..*old(self) }),
    {
        if damage >= self.hp {
            self.hp = 0;
            self.alive = false;
        } else {
            self.hp = self.hp - damage;
        }
    }

    /// Raises loyalty by `amount`, up to `MAX_LOYALTY`.
    pub fn increase_loyalty(&mut self, amount: u32)
        requires
            old(self).loyalty + amount <= u32::MAX,
        ensures
            final(self).loyalty == spec_loyalty_increased(old(self).loyalty, amount),
            *final(self) == (Mercenary { loyalty: final(self).loyalty, ..*old(self) }),
    {
        let v = self.loyalty + amount;
        self.loyalty = if v < MAX_LOYALTY { v } else { MAX_LOYALTY };
    }

    /// Lowers loyalty by `amount`, stopping at 0.
    pub fn decrease_loyalty(&mut self, amount: u32)
        ensures
            final(self).loyalty == spec_loyalty_decreased(old(self).loyalty, amount),
            *final(self) == (Mercenary { loyalty: final(self).loyalty, ..*old(self) }),
    {
        self.loyalty = if self.loyalty >= amount { self.loyalty - amount } else { 0 };
    }
}

/// The stats of a mercenary template.
#[derive(Debug, Clone, Copy, PartialEq, Eq, Structural)]
pub struct MercStats {
    pub level: u16,
    pub hp: u32,
    pub sp: u32,
    pub atk: u32,
    pub atk2: u32,
    pub defense: u32,
    pub magic_defense: u32,
    pub str: u16,
    pub agi: u16,
    pub vit: u16,
    pub int_: u16,
    pub dex: u16,
    pub luk: u16,
    pub attack_range: u16,
    pub walk_speed: u16,
    pub contract_cost: u32,
}

/// A mercenary template.
#[derive(Debug)]
pub struct MercenaryData {
    pub class_id: u16,
    pub name: String,
    pub class_type: MercenaryClass,
    pub level: u16,
    pub hp: u32,
    pub sp: u32,
    pub atk: u32,
    pub atk2: u32,
    pub defense: u32,
    pub magic_defense: u32,
    pub str: u16,
    pub agi: u16,
    pub vit: u16,
    pub int_: u16,
    pub dex: u16,
    pub luk: u16,
    pub attack_range: u16,
    pub walk_speed: u16,
    pub contract_cost: u32,
    /// Skill names with their highest level.
    pub skills: Vec<(String, u8)>,
}

impl MercenaryData {
    /// The stats of the template.
    pub open spec fn spec_stats(&self) -> MercStats {
        MercStats {
            level: self.level, hp: self.hp, sp: self.sp, atk: self.atk, atk2: self.atk2,
            defense: self.defense, magic_defense: self.magic_defense, str: self.str, agi: self.agi,
            vit: self.vit, int_: self.int_, dex: self.dex, luk: self.luk,
            attack_range: self.attack_range, walk_speed: self.walk_speed, contract_cost: self.contract_cost,
        }
    }

    /// The skills as names and highest levels.
    pub open spec fn spec_skills(&self) -> Seq<(Seq<char>, u8)> {
        self.skills@.map_values(|s: (String, u8)| (s.0@, s.1))
    }
}

/// The line a template id falls in: 6001..=6019 swordmen, 6020..=6039
/// lancers, any other archers.
pub open spec fn spec_class_for_id(id: u16) -> MercenaryClass {
    if 6001 <= id <= 6019 { MercenaryClass::Swordman }
    else if 6020 <= id <= 6039 { MercenaryClass::Lancer }
    else { MercenaryClass::Archer }
}

/// The line of a template id.
pub fn class_for_id(id: u16) -> (c: MercenaryClass)
    ensures
        c == spec_class_for_id(id),
{
    if 6001 <= id && id <= 6019 {
        MercenaryClass::Swordman
    } else if 6020 <= id && id <= 6039 {
        MercenaryClass::Lancer
    } else {
        MercenaryClass::Archer
    }
}

/// The template a file entry under `id` gives: its line from the id, no contract cost.
pub fn data_from_yaml(id: u16, yt: &MercenaryTemplateYaml) -> (d: MercenaryData)
    ensures
        d.class_id == yt.id && d.name@ == yt.name@ && d.class_type == spec_class_for_id(id),
        d.spec_stats() == (MercStats {
            level: yt.level, hp: yt.hp, sp: yt.sp, atk: yt.attack, atk2: yt.attack2,
            defense: yt.defense, magic_defense: yt.magic_defense, str: yt.str, agi: yt.agi,
            vit: yt.vit, int_: yt.int_, dex: yt.dex, luk: yt.luk,
            attack_range: yt.attack_range, walk_speed: yt.walk_speed, contract_cost: 0,
        }),
        d.spec_skills() == yt.skills@.map_values(|s: crate::mercenary::yaml_loader::MercenarySkillEntry| (s.name@, s.max_level)),
{
    let mut skills: Vec<(String, u8)> = Vec::new();
    let mut i: usize = 0;
    while i < yt.skills.len()
        invariant
            i <= yt.skills@.len(),
            skills@.len() == i,
            forall|j: int| 0 <= j < i ==> (#[trigger] skills@[j]).0@ == yt.skills@[j].name@ && skills@[j].1 == yt.skills@[j].max_level,
        decreases yt.skills@.len() - i,
    {
        skills.push((owned(yt.skills[i].name.as_str()), yt.skills[i].max_level));
        i = i + 1;
    }
    assert(skills@.map_values(|s: (String, u8)| (s.0@, s.1))
        =~= yt.skills@.map_values(|s: crate::mercenary::yaml_loader::MercenarySkillEntry| (s.name@, s.max_level)));
    MercenaryData {
        class_id: yt.id,
        name: owned(yt.name.as_str()),
        class_type: class_for_id(id),
        level: yt.level,
        hp: yt.hp,
        sp: yt.sp,
        atk: yt.attack,
        atk2: yt.attack2,
        defense: yt.defense,
        magic_defense: yt.magic_defense,
        str: yt.str,
        agi: yt.agi,
        vit: yt.vit,
        int_: yt.int_,
        dex: yt.dex,
        luk: yt.luk,
        attack_range: yt.attack_range,
        walk_speed: yt.walk_speed,
        contract_cost: 0,
        skills,
    }
}

/// Template `d` is the built-in one: this id, name, line, stats and skills.
pub open spec fn spec_builtin_merc(d: MercenaryData, class_id: u16, name: Seq<char>, class_type: MercenaryClass,
    st: MercStats, skills: Seq<(Seq<char>, u8)>) -> bool {
    &&& d.class_id == class_id && d.name@ == name && d.class_type == class_type
    &&& d.spec_stats() == st
    &&& d.spec_skills() == skills
}

fn builtin_merc(class_id: u16, name: &str, class_type: MercenaryClass, st: MercStats, skills: Vec<(String, u8)>) -> (d: MercenaryData)
    ensures
        d.class_id == class_id && d.name@ == name@ && d.class_type == class_type,
        d.spec_stats() == st,
        d.skills@ == skills@,
{
    MercenaryData {
        class_id,
        name: owned(name),
        class_type,
        level: st.level,
        hp: st.hp,
        sp: st.sp,
        atk: st.atk,
        atk2: st.atk2,
        defense: st.defense,
        magic_defense: st.magic_defense,
        str: st.str,
        agi: st.agi,
        vit: st.vit,
        int_: st.int_,
        dex: st.dex,
        luk: st.luk,
        attack_range: st.attack_range,
        walk_speed: st.walk_speed,
        contract_cost: st.contract_cost,
        skills,
    }
}

fn skill_list2(a: &str, la: u8, b: &str, lb: u8) -> (v: Vec<(String, u8)>)
    ensures
        v@.map_values(|s: (String, u8)| (s.0@, s.1)) == seq![(a@, la), (b@, lb)],
{
    let mut v: Vec<(String, u8)> = Vec::new();
    v.push((owned(a), la));
    v.push((owned(b), lb));
    assert(v@.map_values(|s: (String, u8)| (s.0@, s.1)) =~= seq![(a@, la), (b@, lb)]);
    v
}

fn skill_list3(a: &str, la: u8, b: &str, lb: u8, c: &str, lc: u8) -> (v: Vec<(String, u8)>)
    ensures
        v@.map_values(|s: (String, u8)| (s.0@, s.1)) == seq![(a@, la), (b@, lb), (c@, lc)],
{
    let mut v: Vec<(String, u8)> = Vec::new();
    v.push((owned(a), la));
    v.push((owned(b), lb));
    v.push((owned(c), lc));
    assert(v@.map_values(|s: (String, u8)| (s.0@, s.1)) =~= seq![(a@, la), (b@, lb), (c@, lc)]);
    v
}

/// The built-in archer Mina (6017).
pub open spec fn spec_mina(d: MercenaryData) -> bool {
    spec_builtin_merc(d, 6017, "Mina"@, MercenaryClass::Archer,
        MercStats { level: 20, hp: 256, sp: 200, atk: 170, atk2: 85, defense: 7, magic_defense: 5, str: 1, agi: 16,
            vit: 5, int_: 1, dex: 28, luk: 8, attack_range: 10, walk_speed: 150, contract_cost: 5000 },
        seq![("MA_DOUBLE"@, 2u8), ("MER_AUTOBERSERK"@, 1u8)])
}

/// The built-in archer Lenaire (6018).
pub open spec fn spec_lenaire(d: MercenaryData) -> bool {
    spec_builtin_merc(d, 6018, "Lenaire"@, MercenaryClass::Archer,
        MercStats { level: 40, hp: 450, sp: 300, atk: 280, atk2: 140, defense: 12, magic_defense: 8, str: 3, agi: 22,
            vit: 8, int_: 3, dex: 40, luk: 12, attack_range: 10, walk_speed: 140, contract_cost: 10000 },
        seq![("MA_DOUBLE"@, 4u8), ("MA_SHOWER"@, 3u8), ("MER_AUTOBERSERK"@, 1u8)])
}

/// The built-in lancer Lance (6019).
pub open spec fn spec_lance(d: MercenaryData) -> bool {
    spec_builtin_merc(d, 6019, "Lance"@, MercenaryClass::Lancer,
        MercStats { level: 20, hp: 400, sp: 100, atk: 150, atk2: 50, defense: 20, magic_defense: 5, str: 15, agi: 8,
            vit: 12, int_: 1, dex: 18, luk: 5, attack_range: 3, walk_speed: 170, contract_cost: 5000 },
        seq![("ML_PIERCE"@, 2u8), ("ML_BRANDISH"@, 1u8)])
}

/// The built-in swordman Rodel (6020).
pub open spec fn spec_rodel(d: MercenaryData) -> bool {
    spec_builtin_merc(d, 6020, "Rodel"@, MercenaryClass::Swordman,
        MercStats { level: 20, hp: 500, sp: 80, atk: 130, atk2: 40, defense: 25, magic_defense: 3, str: 12, agi: 10,
            vit: 18, int_: 1, dex: 14, luk: 5, attack_range: 1, walk_speed: 180, contract_cost: 5000 },
        seq![("MS_BASH"@, 3u8), ("MER_AUTOBERSERK"@, 1u8)])
}

/// The built-in swordman Erend (6021).
pub open spec fn spec_erend(d: MercenaryData) -> bool {
    spec_builtin_merc(d, 6021, "Erend"@, MercenaryClass::Swordman,
        MercStats { level: 40, hp: 800, sp: 120, atk: 220, atk2: 70, defense: 35, magic_defense: 8, str: 20, agi: 14,
            vit: 25, int_: 3, dex: 20, luk: 8, attack_range: 1, walk_speed: 170, contract_cost: 10000 },
        seq![("MS_BASH"@, 5u8), ("MS_MAGNUM"@, 3u8), ("MER_AUTOBERSERK"@, 1u8)])
}

/// `t` holds exactly the built-in templates: Mina, Lenaire, Lance, Rodel
/// and Erend, under their class ids 6017 to 6021.
pub open spec fn spec_builtin_templates(t: Map<u16, MercenaryData>) -> bool {
    &&& t.dom() =~= set![6017u16, 6018u16, 6019u16, 6020u16, 6021u16]
    &&& spec_mina(t[6017])
    &&& spec_lenaire(t[6018])
    &&& spec_lance(t[6019])
    &&& spec_rodel(t[6020])
    &&& spec_erend(t[6021])
}

/// Mercenary templates by class id.
pub struct MercenaryDatabase {
    templates: HashMap<u16, MercenaryData>,
}

impl MercenaryDatabase {
    /// The templates, by class id.
    pub closed spec fn spec_templates(&self) -> Map<u16, MercenaryData> {
        self.templates@
    }

    /// The built-in templates: Mina, Lenaire, Lance, Rodel and Erend.
    pub fn new_hardcoded() -> (db: Self)
        ensures
            spec_builtin_templates(db.spec_templates()),
    {
        let mut templates: HashMap<u16, MercenaryData> = HashMap::new();
        templates.insert(6017, builtin_merc(6017, "Mina", MercenaryClass::Archer,
            MercStats { level: 20, hp: 256, sp: 200, atk: 170, atk2: 85, defense: 7, magic_defense: 5, str: 1, agi: 16,
                vit: 5, int_: 1, dex: 28, luk: 8, attack_range: 10, walk_speed: 150, contract_cost: 5000 },
            skill_list2("MA_DOUBLE", 2, "MER_AUTOBERSERK", 1)));
        templates.insert(6018, builtin_merc(6018, "Lenaire", MercenaryClass::Archer,
            MercStats { level: 40, hp: 450, sp: 300, atk: 280, atk2: 140, defense: 12, magic_defense: 8, str: 3, agi: 22,
                vit: 8, int_: 3, dex: 40, luk: 12, attack_range: 10, walk_speed: 140, contract_cost: 10000 },
            skill_list3("MA_DOUBLE", 4, "MA_SHOWER", 3, "MER_AUTOBERSERK", 1)));
        templates.insert(6019, builtin_merc(6019, "Lance", MercenaryClass::Lancer,
            MercStats { level: 20, hp: 400, sp: 100, atk: 150, atk2: 50, defense: 20, magic_defense: 5, str: 15, agi: 8,
                vit: 12, int_: 1, dex: 18, luk: 5, attack_range: 3, walk_speed: 170, contract_cost: 5000 },
            skill_list2("ML_PIERCE", 2, "ML_BRANDISH", 1)));
        templates.insert(6020, builtin_merc(6020, "Rodel", MercenaryClass::Swordman,
            MercStats { level: 20, hp: 500, sp: 80, atk: 130, atk2: 40, defense: 25, magic_defense: 3, str: 12, agi: 10,
                vit: 18, int_: 1, dex: 14, luk: 5, attack_range: 1, walk_speed: 180, contract_cost: 5000 },
            skill_list2("MS_BASH", 3, "MER_AUTOBERSERK", 1)));
        templates.insert(6021, builtin_merc(6021, "Erend", MercenaryClass::Swordman,
            MercStats { level: 40, hp: 800, sp: 120, atk: 220, atk2: 70, defense: 35, magic_defense: 8, str: 20, agi: 14,
                vit: 25, int_: 3, dex: 20, luk: 8, attack_range: 1, walk_speed: 170, contract_cost: 10000 },
            skill_list3("MS_BASH", 5, "MS_MAGNUM", 3, "MER_AUTOBERSERK", 1)));
        MercenaryDatabase { templates }
    }

    /// The database the server starts with when no template file loads: the built-in one.
    pub fn new() -> (db: Self)
        ensures
            spec_builtin_templates(db.spec_templates()),
    {
        MercenaryDatabase::new_hardcoded()
    }

    /// The database the server starts with, given the templates read from
    /// the template file (`None` when it could not be read): those when there
    /// are any, else the built-in ones.
    pub fn from_loaded_or_builtin(loaded: Option<Vec<(u16, MercenaryData)>>) -> (db: Self)
        ensures
            match loaded {
                Some(entries) => if entries@.len() > 0 {
                    db.spec_templates() == spec_merc_templates_of(entries@)
                } else {
                    spec_builtin_templates(db.spec_templates())
                },
                None => spec_builtin_templates(db.spec_templates()),
            },
    {
        match loaded {
            Some(entries) => {
                if entries.len() > 0 {
                    MercenaryDatabase::from_templates(entries)
                } else {
                    MercenaryDatabase::new_hardcoded()
                }
            },
            None => MercenaryDatabase::new_hardcoded(),
        }
    }

    /// A database of loaded templates, a later entry replacing an earlier one with the same id.
    pub fn from_templates(entries: Vec<(u16, MercenaryData)>) -> (db: Self)
        ensures
            db.spec_templates() == spec_merc_templates_of(entries@),
    {
        let mut templates: HashMap<u16, MercenaryData> = HashMap::new();
        let mut rest = entries;
        let ghost all = rest@;
        let mut i: usize = 0;
        let n = rest.len();
        while i < n
            invariant
                n == all.len(),
                i <= n,
                rest@ == all.subrange(i as int, n as int),
                templates@ == spec_merc_templates_of(all.subrange(0, i as int)),
            decreases n - i,
        {
            let (id, t) = rest.remove(0);
            proof {
                assert(all.subrange(0, i + 1).drop_last() =~= all.subrange(0, i as int));
                assert(rest@ =~= all.subrange(i + 1, n as int));
            }
            templates.insert(id, t);
            i = i + 1;
        }
        proof {
            assert(all.subrange(0, n as int) =~= all);
        }
        MercenaryDatabase { templates }
    }

    /// The template of a class id.
    pub fn get(&self, class_id: u16) -> (r: Option<&MercenaryData>)
        ensures
            match r {
                Some(d) => self.spec_templates().contains_key(class_id) && *d == self.spec_templates()[class_id],
                None => !self.spec_templates().contains_key(class_id),
            },
    {
        self.templates.get(&class_id)
    }

    /// All templates, by class id.
    pub fn get_all(&self) -> (m: &HashMap<u16, MercenaryData>)
        ensures
            m@ == self.spec_templates(),
    {
        &self.templates
    }

    /// How many templates there are.
    pub fn count(&self) -> (n: usize)
        ensures
            n == self.spec_templates().dom().len(),
    {
        self.templates.len()
    }
}

/// The templates a list of `(id, template)` pairs gives, a later pair
/// replacing an earlier one with the same id.
pub open spec fn spec_merc_templates_of(entries: Seq<(u16, MercenaryData)>) -> Map<u16, MercenaryData>
    decreases entries.len(),
{
    if entries.len() == 0 {
        Map::empty()
    } else {
        spec_merc_templates_of(entries.drop_last()).insert(entries.last().0, entries.last().1)
    }
}

impl Default for MercenaryDatabase {
    fn default() -> (db: Self)
        ensures
            db.spec_templates().dom() =~= set![6017u16, 6018u16, 6019u16, 6020u16, 6021u16],
    {
        MercenaryDatabase::new()
    }
}

} // verus!
