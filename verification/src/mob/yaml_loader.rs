//! Reading monster templates from the entries of a `mob_db.yml` file: the
//! names of elements, sizes, races and skill settings, the AI codes and
//! modes, and how an entry becomes a template.

use vstd::prelude::*;
use crate::element::{Element, ElementLevel, MobSize};
use crate::mob::data::{
    MobBehavior, MobBehaviorFlags, MobDrop, MobRace, MobSkill, MobSkillCondition, MobSkillTarget,
    MobTemplate, MobType, spec_default_flags,
};
use crate::strmap::StrMap;
use crate::text::{str_eq, owned, to_lowercase, lowercase_of};

verus! {

/// The element a lower-case name stands for; unknown names are neutral.
pub open spec fn spec_element_named(s: Seq<char>) -> Element {
    if s == "neutral"@ { Element::Neutral }
    else if s == "water"@ { Element::Water }
    else if s == "earth"@ { Element::Earth }
    else if s == "fire"@ { Element::Fire }
    else if s == "wind"@ { Element::Wind }
    else if s == "poison"@ { Element::Poison }
    else if s == "holy"@ { Element::Holy }
    else if s == "dark"@ { Element::Dark }
    else if s == "ghost"@ { Element::Ghost_ }
    else if s == "undead"@ { Element::Undead }
    else { Element::Neutral }
}

/// The element of a lower-case name.
pub fn element_named(s: &str) -> (e: Element)
    ensures
        e == spec_element_named(s@),
{
    if str_eq(s, "neutral") { Element::Neutral }
    else if str_eq(s, "water") { Element::Water }
    else if str_eq(s, "earth") { Element::Earth }
    else if str_eq(s, "fire") { Element::Fire }
    else if str_eq(s, "wind") { Element::Wind }
    else if str_eq(s, "poison") { Element::Poison }
    else if str_eq(s, "holy") { Element::Holy }
    else if str_eq(s, "dark") { Element::Dark }
    else if str_eq(s, "ghost") { Element::Ghost_ }
    else if str_eq(s, "undead") { Element::Undead }
    else { Element::Neutral }
}

/// The element a name stands for, in any case.
pub fn parse_element(s: &str) -> (e: Element)
    ensures
        e == spec_element_named(lowercase_of(s@)),
{
    let lower = to_lowercase(s);
    element_named(lower.as_str())
}

/// The element level of a number; out of 1..=4 it is level 1.
pub open spec fn spec_element_level(level: u8) -> ElementLevel {
    if level == 2 { ElementLevel::Level2 }
    else if level == 3 { ElementLevel::Level3 }
    else if level == 4 { ElementLevel::Level4 }
    else { ElementLevel::Level1 }
}

pub fn parse_element_level(level: u8) -> (l: ElementLevel)
    ensures
        l == spec_element_level(level),
{
    match level {
        1 => ElementLevel::Level1,
        2 => ElementLevel::Level2,
        3 => ElementLevel::Level3,
        4 => ElementLevel::Level4,
        _ => ElementLevel::Level1,
    }
}

/// The size a lower-case name stands for; unknown names are medium.
pub open spec fn spec_size_named(s: Seq<char>) -> MobSize {
    if s == "small"@ { MobSize::Small }
    else if s == "medium"@ { MobSize::Medium }
    else if s == "large"@ { MobSize::Large }
    else { MobSize::Medium }
}

pub fn size_named(s: &str) -> (z: MobSize)
    ensures
        z == spec_size_named(s@),
{
    if str_eq(s, "small") { MobSize::Small }
    else if str_eq(s, "medium") { MobSize::Medium }
    else if str_eq(s, "large") { MobSize::Large }
    else { MobSize::Medium }
}

/// The size a name stands for, in any case.
pub fn parse_size(s: &str) -> (z: MobSize)
    ensures
        z == spec_size_named(lowercase_of(s@)),
{
    let lower = to_lowercase(s);
    size_named(lower.as_str())
}

/// The race a lower-case name stands for; unknown names are formless.
pub open spec fn spec_race_named(s: Seq<char>) -> MobRace {
    if s == "formless"@ { MobRace::Formless }
    else if s == "undead"@ { MobRace::Undead }
    else if s == "brute"@ { MobRace::Brute }
    else if s == "plant"@ { MobRace::Plant }
    else if s == "insect"@ { MobRace::Insect }
    else if s == "fish"@ { MobRace::Fish }
    else if s == "demon"@ { MobRace::Demon }
    else if s == "demihuman"@ || s == "demi_human"@ { MobRace::DemiHuman }
    else if s == "angel"@ { MobRace::Angel }
    else if s == "dragon"@ { MobRace::Dragon }
    else { MobRace::Formless }
}

pub fn race_named(s: &str) -> (r: MobRace)
    ensures
        r == spec_race_named(s@),
{
    if str_eq(s, "formless") { MobRace::Formless }
    else if str_eq(s, "undead") { MobRace::Undead }
    else if str_eq(s, "brute") { MobRace::Brute }
    else if str_eq(s, "plant") { MobRace::Plant }
    else if str_eq(s, "insect") { MobRace::Insect }
    else if str_eq(s, "fish") { MobRace::Fish }
    else if str_eq(s, "demon") { MobRace::Demon }
    else if str_eq(s, "demihuman") || str_eq(s, "demi_human") { MobRace::DemiHuman }
    else if str_eq(s, "angel") { MobRace::Angel }
    else if str_eq(s, "dragon") { MobRace::Dragon }
    else { MobRace::Formless }
}

/// The race a name stands for, in any case.
pub fn parse_race(s: &str) -> (r: MobRace)
    ensures
        r == spec_race_named(lowercase_of(s@)),
{
    let lower = to_lowercase(s);
    race_named(lower.as_str())
}

/// Whether a monster's modes set `key` to `value`.
pub open spec fn spec_mode_is(modes: Option<Map<Seq<char>, bool>>, key: Seq<char>, value: bool) -> bool {
    match modes {
        Some(m) => m.contains_key(key) && m[key] == value,
        None => false,
    }
}

fn mode_is(modes: &Option<StrMap<bool>>, key: &str, value: bool) -> (b: bool)
    ensures
        b == spec_mode_is(match modes { Some(m) => Some(m@), None => None }, key@, value),
{
    match modes {
        Some(m) => match m.get(key) {
            Some(v) => *v == value,
            None => false,
        },
        None => false,
    }
}

/// The modes as a map of names, if present.
pub open spec fn spec_modes(modes: Option<StrMap<bool>>) -> Option<Map<Seq<char>, bool>> {
    match modes { Some(m) => Some(m@), None => None }
}

/// The behaviour of an AI code: "01" aggressive, "03" passive, "04"
/// assisting, "05" passive and assisting; any other code is passive, or
/// immobile when the modes say `CanMove: false`.
pub open spec fn spec_behavior(ai: Seq<char>, modes: Option<Map<Seq<char>, bool>>) -> MobBehavior {
    if ai == "01"@ { MobBehavior::Aggressive }
    else if ai == "03"@ { MobBehavior::Passive }
    else if ai == "04"@ { MobBehavior::Assist }
    else if ai == "05"@ { MobBehavior::PassiveAssist }
    else if spec_mode_is(modes, "CanMove"@, false) { MobBehavior::Immobile }
    else { MobBehavior::Passive }
}

pub fn parse_behavior(ai: &str, modes: &Option<StrMap<bool>>) -> (b: MobBehavior)
    ensures
        b == spec_behavior(ai@, spec_modes(*modes)),
{
    if str_eq(ai, "01") { MobBehavior::Aggressive }
    else if str_eq(ai, "03") { MobBehavior::Passive }
    else if str_eq(ai, "04") { MobBehavior::Assist }
    else if str_eq(ai, "05") { MobBehavior::PassiveAssist }
    else if mode_is(modes, "CanMove", false) { MobBehavior::Immobile }
    else { MobBehavior::Passive }
}

/// The behaviour flags the modes give: each flag keeps its default unless
/// the modes set it the other way.
pub open spec fn spec_flags(modes: Option<Map<Seq<char>, bool>>) -> MobBehaviorFlags {
    MobBehaviorFlags {
        can_move: !spec_mode_is(modes, "CanMove"@, false),
        can_attack: !spec_mode_is(modes, "CanAttack"@, false),
        detector: spec_mode_is(modes, "Detector"@, true),
        boss: spec_mode_is(modes, "Boss"@, true),
        plant: spec_mode_is(modes, "Plant"@, true),
        can_chase: !spec_mode_is(modes, "CanChase"@, false),
    }
}

pub fn parse_modes(modes: &Option<StrMap<bool>>) -> (f: MobBehaviorFlags)
    ensures
        f == spec_flags(spec_modes(*modes)),
{
    let mut flags = MobBehaviorFlags::default();
    if mode_is(modes, "CanMove", false) {
        flags.can_move = false;
    }
    if mode_is(modes, "CanAttack", false) {
        flags.can_attack = false;
    }
    if mode_is(modes, "Detector", true) {
        flags.detector = true;
    }
    if mode_is(modes, "Boss", true) {
        flags.boss = true;
    }
    if mode_is(modes, "Plant", true) {
        flags.plant = true;
    }
    if mode_is(modes, "CanChase", false) {
        flags.can_chase = false;
    }
    flags
}

/// The skill target a lower-case name stands for: "self" or else the enemy.
pub open spec fn spec_skill_target_named(s: Seq<char>) -> MobSkillTarget {
    if s == "self"@ { MobSkillTarget::Self_ } else { MobSkillTarget::Target }
}

pub fn skill_target_named(s: &str) -> (t: MobSkillTarget)
    ensures
        t == spec_skill_target_named(s@),
{
    if str_eq(s, "self") { MobSkillTarget::Self_ } else { MobSkillTarget::Target }
}

/// The skill target a name stands for, in any case.
pub fn parse_skill_target(s: &str) -> (t: MobSkillTarget)
    ensures
        t == spec_skill_target_named(lowercase_of(s@)),
{
    let lower = to_lowercase(s);
    skill_target_named(lower.as_str())
}

/// The skill condition a lower-case name stands for; unknown names mean any.
pub open spec fn spec_skill_condition_named(s: Seq<char>) -> MobSkillCondition {
    if s == "rudeattacked"@ { MobSkillCondition::RudeAttacked }
    else if s == "longrange"@ { MobSkillCondition::LongRange }
    else if s == "hpcertain"@ { MobSkillCondition::HpCertain }
    else { MobSkillCondition::Any }
}

pub fn skill_condition_named(s: &str) -> (c: MobSkillCondition)
    ensures
        c == spec_skill_condition_named(s@),
{
    if str_eq(s, "rudeattacked") { MobSkillCondition::RudeAttacked }
    else if str_eq(s, "longrange") { MobSkillCondition::LongRange }
    else if str_eq(s, "hpcertain") { MobSkillCondition::HpCertain }
    else { MobSkillCondition::Any }
}

/// The skill condition a name stands for, in any case.
pub fn parse_skill_condition(s: &str) -> (c: MobSkillCondition)
    ensures
        c == spec_skill_condition_named(lowercase_of(s@)),
{
    let lower = to_lowercase(s);
    skill_condition_named(lower.as_str())
}

/// The skill level an entry without one gets.
pub fn default_skill_level() -> (l: u8)
    ensures
        l == 1,
{
    1
}

/// The skill target an entry without one gets.
pub fn default_skill_target() -> (s: String)
    ensures
        s@ == "target"@,
{
    owned("target")
}

/// The skill condition an entry without one gets.
pub fn default_skill_condition() -> (s: String)
    ensures
        s@ == "any"@,
{
    owned("any")
}

/// The HP an entry without one gets.
pub fn default_hp() -> (h: u32)
    ensures
        h == 1,
{
    1
}

/// The stat an entry without one gets.
pub fn default_stat() -> (v: u16)
    ensures
        v == 1,
{
    1
}

/// The size an entry without one gets.
pub fn default_size() -> (s: String)
    ensures
        s@ == "Small"@,
{
    owned("Small")
}

/// The element level an entry without one gets.
pub fn default_element_level() -> (l: u8)
    ensures
        l == 1,
{
    1
}

/// The walking speed an entry without one gets.
pub fn default_walk_speed() -> (w: u16)
    ensures
        w == 200,
{
    200
}

/// The id of an item name in `names`, or 0 for an unknown name.
pub open spec fn spec_item_id(names: Map<Seq<char>, u16>, name: Seq<char>) -> u32 {
    if names.contains_key(name) { names[name] as u32 } else { 0 }
}

/// The id of an item, looked up by name in `names` (0 when unknown).
pub fn item_name_to_id(names: &StrMap<u16>, name: &str) -> (id: u32)
    ensures
        id == spec_item_id(names@, name@),
{
    match names.get(name) {
        Some(id) => *id as u32,
        None => 0,
    }
}

/// The id of a skill name in `names`, or 0 for an unknown name.
pub open spec fn spec_skill_id(names: Map<Seq<char>, u16>, name: Seq<char>) -> u16 {
    if names.contains_key(name) { names[name] } else { 0 }
}

/// The id of a skill, looked up by its Aegis name in `names` (0 when unknown).
pub fn skill_name_to_id(names: &StrMap<u16>, name: &str) -> (id: u16)
    ensures
        id == spec_skill_id(names@, name@),
{
    match names.get(name) {
        Some(id) => *id,
        None => 0,
    }
}

/// A skill line of a `mob_db.yml` entry, as read.
pub struct MobSkillYamlEntry {
    /// The skill's Aegis name, such as `SM_BASH`.
    pub id: String,
    pub lv: u8,
    pub rate: u32,
    pub cast_time: u32,
    pub delay: u32,
    pub emotion: u32,
    pub target: String,
    pub condition: String,
    pub condition_value: u32,
}

/// The skill a line gives, its name looked up in `skill_names`.
pub open spec fn spec_converted_skill(e: MobSkillYamlEntry, skill_names: Map<Seq<char>, u16>) -> MobSkill {
    MobSkill {
        skill_id: spec_skill_id(skill_names, e.id@),
        level: e.lv,
        chance: e.rate,
        target: spec_skill_target_named(lowercase_of(e.target@)),
        condition: spec_skill_condition_named(lowercase_of(e.condition@)),
        condition_value: e.condition_value,
        cooldown_ms: e.delay as u64,
    }
}

/// Turns a skill line into a monster skill.
pub fn convert_mob_skill(entry: &MobSkillYamlEntry, skill_names: &StrMap<u16>) -> (s: MobSkill)
    ensures
        s == spec_converted_skill(*entry, skill_names@),
{
    MobSkill {
        skill_id: skill_name_to_id(skill_names, entry.id.as_str()),
        level: entry.lv,
        chance: entry.rate,
        target: parse_skill_target(entry.target.as_str()),
        condition: parse_skill_condition(entry.condition.as_str()),
        condition_value: entry.condition_value,
        cooldown_ms: entry.delay as u64,
    }
}

/// A drop line of a `mob_db.yml` entry: an item name and a rate in
/// hundredths of a percent.
pub struct MobYamlDrop {
    pub item: String,
    pub rate: u32,
}

/// A monster entry of a `mob_db.yml` file, as read (with its defaults filled in).
pub struct MobYamlEntry {
    pub id: u16,
    pub name: String,
    pub level: u16,
    pub hp: u32,
    pub sp: u32,
    pub base_exp: u64,
    pub job_exp: u64,
    pub attack: u16,
    pub attack2: u16,
    pub defense: u16,
    pub magic_defense: u16,
    pub agi: u16,
    pub dex: u16,
    pub luk: u16,
    pub attack_range: u16,
    pub skill_range: u16,
    pub chase_range: u16,
    pub size: String,
    pub race: String,
    pub element: String,
    pub element_level: u8,
    pub walk_speed: u16,
    pub attack_delay: u32,
    pub ai: String,
    pub modes: Option<StrMap<bool>>,
    pub drops: Option<Vec<MobYamlDrop>>,
    pub mvp_drops: Option<Vec<MobYamlDrop>>,
    pub skills: Option<Vec<MobSkillYamlEntry>>,
}

/// The drops a list of drop lines gives, item names looked up in `items`.
pub open spec fn spec_drops_of(drops: Seq<MobYamlDrop>, items: Map<Seq<char>, u16>) -> Seq<MobDrop> {
    Seq::new(drops.len(), |i: int| MobDrop { item_id: spec_item_id(items, drops[i].item@), min_amount: 1, max_amount: 1, chance: drops[i].rate })
}

fn convert_drops(drops: &Option<Vec<MobYamlDrop>>, items: &StrMap<u16>) -> (v: Vec<MobDrop>)
    ensures
        v@ == (match drops { Some(d) => spec_drops_of(d@, items@), None => Seq::empty() }),
{
    let mut v: Vec<MobDrop> = Vec::new();
    match drops {
        Some(d) => {
            let mut i: usize = 0;
            while i < d.len()
                invariant
                    i <= d@.len(),
                    v@ =~= spec_drops_of(d@, items@).subrange(0, i as int),
                decreases d@.len() - i,
            {
                v.push(MobDrop::new(item_name_to_id(items, d[i].item.as_str()), d[i].rate));
                i = i + 1;
            }
            assert(v@ =~= spec_drops_of(d@, items@));
        },
        None => {},
    }
    v
}

fn convert_skills(skills: &Option<Vec<MobSkillYamlEntry>>, skill_names: &StrMap<u16>) -> (v: Vec<MobSkill>)
    ensures
        v@ == (match skills {
            Some(s) => Seq::new(s@.len(), |i: int| spec_converted_skill(s@[i], skill_names@)),
            None => Seq::empty(),
        }),
{
    let mut v: Vec<MobSkill> = Vec::new();
    match skills {
        Some(s) => {
            let mut i: usize = 0;
            while i < s.len()
                invariant
                    i <= s@.len(),
                    v@ =~= Seq::new(i as nat, |j: int| spec_converted_skill(s@[j], skill_names@)),
                decreases s@.len() - i,
            {
                v.push(convert_mob_skill(&s[i], skill_names));
                i = i + 1;
            }
        },
        None => {},
    }
    v
}

/// Division by 3 rounding toward zero.
pub open spec fn spec_div3_toward_zero(v: int) -> int {
    if v >= 0 { v / 3 } else { -((-v) / 3) }
}

/// The critical rate of a luck value: luck read as a signed 16-bit number,
/// divided by 3.
pub open spec fn spec_crit_of(luk: u16) -> i16 {
    spec_div3_toward_zero((luk as i16) as int) as i16
}

fn crit_of(luk: u16) -> (c: i16)
    ensures
        c == spec_crit_of(luk),
{
    let v: i16 = luk as i16;
    if v >= 0 {
        v / 3
    } else {
        let m: i32 = -(v as i32);
        -((m / 3) as i16)
    }
}

/// The template an entry gives. A level of 0 counts as 1; without a skill
/// range the sight range is 12, without a chase range the chase range is
/// 12; AI "01" makes the monster aggro fully; dexterity gives hit, agility
/// flee and a third of luck the critical rate; the attack delay becomes the
/// spawn delay; respawning takes a minute; `Boss` in the modes makes a boss.
pub open spec fn spec_template_of(e: MobYamlEntry, items: Map<Seq<char>, u16>, skill_names: Map<Seq<char>, u16>, t: MobTemplate) -> bool {
    let modes = spec_modes(e.modes);
    &&& t.name@ == e.name@
    &&& t.level == (if e.level == 0 { 1 } else { e.level })
    &&& t.hp == e.hp && t.sp == e.sp && t.atk == e.attack && t.matk == e.attack2
    &&& t.defense == e.defense && t.magic_defense == e.magic_defense
    &&& t.hit == e.dex as i16 && t.flee == e.agi as i16 && t.crit == spec_crit_of(e.luk)
    &&& t.walk_speed == e.walk_speed && t.atk_range == e.attack_range
    &&& t.sight_range == (if e.skill_range > 0 { e.skill_range } else { 12 })
    &&& t.chase_range == (if e.chase_range > 0 { e.chase_range } else { 12 })
    &&& t.aggro_rate == (if e.ai@ == "01"@ { 100i16 } else { 0i16 })
    &&& t.spawn_delay == e.attack_delay && t.respawn_time == 60000
    &&& t.behavior == spec_behavior(e.ai@, modes)
    &&& t.skills@ == (match e.skills {
            Some(s) => Seq::new(s@.len(), |i: int| spec_converted_skill(s@[i], skill_names)),
            None => Seq::empty(),
        })
    &&& t.drops@ == (match e.drops { Some(d) => spec_drops_of(d@, items), None => Seq::empty() })
    &&& t.base_exp == e.base_exp && t.job_exp == e.job_exp && t.zeny is None
    &&& t.element == spec_element_named(lowercase_of(e.element@))
    &&& t.element_level == spec_element_level(e.element_level)
    &&& t.size == spec_size_named(lowercase_of(e.size@))
    &&& t.race == spec_race_named(lowercase_of(e.race@))
    &&& t.mob_type == (if spec_mode_is(modes, "Boss"@, true) { MobType::Boss } else { MobType::Normal })
    &&& t.mvp_drops@ == (match e.mvp_drops { Some(d) => spec_drops_of(d@, items), None => Seq::empty() })
    &&& t.behavior_flags == spec_flags(modes)
}

/// The template of a `mob_db.yml` entry, item and skill names looked up in
/// `items` and `skill_names`.
pub fn template_from_entry(entry: &MobYamlEntry, items: &StrMap<u16>, skill_names: &StrMap<u16>) -> (t: MobTemplate)
    ensures
        spec_template_of(*entry, items@, skill_names@, t),
{
    let boss = mode_is(&entry.modes, "Boss", true);
    MobTemplate {
        name: owned(entry.name.as_str()),
        level: if entry.level == 0 { 1 } else { entry.level },
        hp: entry.hp,
        sp: entry.sp,
        atk: entry.attack,
        matk: entry.attack2,
        defense: entry.defense,
        magic_defense: entry.magic_defense,
        hit: entry.dex as i16,
        flee: entry.agi as i16,
        crit: crit_of(entry.luk),
        walk_speed: entry.walk_speed,
        atk_range: entry.attack_range,
        sight_range: if entry.skill_range > 0 { entry.skill_range } else { 12 },
        chase_range: if entry.chase_range > 0 { entry.chase_range } else { 12 },
        aggro_rate: if str_eq(entry.ai.as_str(), "01") { 100 } else { 0 },
        spawn_delay: entry.attack_delay,
        respawn_time: 60000,
        behavior: parse_behavior(entry.ai.as_str(), &entry.modes),
        skills: convert_skills(&entry.skills, skill_names),
        drops: convert_drops(&entry.drops, items),
        base_exp: entry.base_exp,
        job_exp: entry.job_exp,
        zeny: None,
        element: parse_element(entry.element.as_str()),
        element_level: parse_element_level(entry.element_level),
        size: parse_size(entry.size.as_str()),
        race: parse_race(entry.race.as_str()),
        mob_type: if boss { MobType::Boss } else { MobType::Normal },
        mvp_drops: convert_drops(&entry.mvp_drops, items),
        behavior_flags: parse_modes(&entry.modes),
    }
}

} // verus!
