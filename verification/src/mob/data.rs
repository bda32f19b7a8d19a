//! Monster templates, live monsters, and the chase path each one follows.

use vstd::prelude::*;
use std::collections::HashMap;
use crate::element::{Element, ElementLevel, MobSize};
use crate::text::{owned, with_decimal, spec_decimal};
use crate::clock::{now_millis, new_uuid};

verus! {

broadcast use vstd::std_specs::hash::group_hash_axioms;

/// The walking speed of a monster that does not say otherwise (ms per cell).
pub const DEFAULT_WALK_SPEED: u16 = 150;

/// An item a monster may drop; `chance` is in hundredths of a percent
/// (10000 is certain).
#[derive(Debug, Clone, Copy, PartialEq, Eq, Structural)]
pub struct MobDrop {
    pub item_id: u32,
    pub min_amount: u16,
    pub max_amount: u16,
    pub chance: u32,
}

impl MobDrop {
    /// A drop of exactly one item.
    pub fn new(item_id: u32, chance: u32) -> (d: Self)
        ensures
            d == (MobDrop { item_id, min_amount: 1, max_amount: 1, chance }),
    {
        MobDrop { item_id, min_amount: 1, max_amount: 1, chance }
    }

    /// A drop of between `min` and `max` items.
    pub fn with_amount(item_id: u32, min: u16, max: u16, chance: u32) -> (d: Self)
        ensures
            d == (MobDrop { item_id, min_amount: min, max_amount: max, chance }),
    {
        MobDrop { item_id, min_amount: min, max_amount: max, chance }
    }
}

/// The path a chasing monster follows: the cells still ahead (the start is
/// not among them) and how far along it the monster is.
#[derive(Debug, Clone)]
pub struct MobPathManager {
    pub is_chasing: bool,
    pub target_pos: Option<(u16, u16)>,
    pub cached_path: Vec<(u16, u16)>,
    pub current_step: usize,
    pub path_invalid: bool,
}

/// The manager state after one step along the path, and the cell stepped to.
pub open spec fn spec_advance(m: MobPathManager) -> (MobPathManager, Option<(u16, u16)>) {
    if m.current_step < m.cached_path@.len() {
        (MobPathManager { current_step: (m.current_step + 1) as usize, ..m }, Some(m.cached_path@[m.current_step as int]))
    } else {
        (m, None)
    }
}

/// The cells handed out by `n` steps from state `m`.
pub open spec fn spec_steps(m: MobPathManager, n: nat) -> Seq<Option<(u16, u16)>>
    decreases n,
{
    if n == 0 {
        Seq::empty()
    } else {
        let (m2, r) = spec_advance(m);
        seq![r] + spec_steps(m2, (n - 1) as nat)
    }
}

impl MobPathManager {
    pub fn new() -> (m: Self)
        ensures
            !m.is_chasing,
            m.target_pos is None,
            m.cached_path@.len() == 0,
            m.current_step == 0,
            !m.path_invalid,
    {
        MobPathManager { is_chasing: false, target_pos: None, cached_path: Vec::new(), current_step: 0, path_invalid: false }
    }

    /// Starts chasing towards `target`, with no path yet.
    pub fn start_chase(&mut self, target: (u16, u16))
        ensures
            final(self).is_chasing,
            final(self).target_pos == Some(target),
            final(self).cached_path@.len() == 0,
            final(self).current_step == 0,
            !final(self).path_invalid,
    {
        self.is_chasing = true;
        self.target_pos = Some(target);
        self.cached_path.clear();
        self.current_step = 0;
        self.path_invalid = false;
    }

    /// Stops chasing and forgets the path.
    pub fn stop_chase(&mut self)
        ensures
            !final(self).is_chasing,
            final(self).target_pos is None,
            final(self).cached_path@.len() == 0,
            final(self).current_step == 0,
            !final(self).path_invalid,
    {
        self.is_chasing = false;
        self.target_pos = None;
        self.cached_path.clear();
        self.current_step = 0;
        self.path_invalid = false;
    }

    /// Takes a new path, to be followed from its first cell.
    pub fn set_path(&mut self, path: Vec<(u16, u16)>)
        ensures
            final(self).cached_path@ == path@,
            final(self).current_step == 0,
            !final(self).path_invalid,
            final(self).is_chasing == old(self).is_chasing,
            final(self).target_pos == old(self).target_pos,
    {
        self.cached_path = path;
        self.current_step = 0;
        self.path_invalid = false;
    }

    /// Marks the path as no longer usable.
    pub fn invalidate(&mut self)
        ensures
            final(self).path_invalid,
            final(self).is_chasing == old(self).is_chasing,
            final(self).target_pos == old(self).target_pos,
            final(self).cached_path@ == old(self).cached_path@,
            final(self).current_step == old(self).current_step,
    {
        self.path_invalid = true;
    }

    /// The next cell of the path, if any is left.
    pub fn advance_step(&mut self) -> (r: Option<(u16, u16)>)
        ensures
            (*final(self), r) == spec_advance(*old(self)),
    {
        if self.current_step < self.cached_path.len() {
            let pos = self.cached_path[self.current_step];
            self.current_step = self.current_step + 1;
            Some(pos)
        } else {
            None
        }
    }
}

/// Following a freshly set path hands out its cells in order, and nothing
/// after the last one.
pub proof fn lemma_path_followed_in_order(m: MobPathManager, extra: nat)
    requires
        m.current_step == 0,
        m.cached_path@.len() <= usize::MAX,
    ensures
        spec_steps(m, m.cached_path@.len() + extra)
            == m.cached_path@.map_values(|p: (u16, u16)| Some(p)) + Seq::new(extra, |i: int| None::<(u16, u16)>),
{
    lemma_steps_from(m, m.cached_path@.len() + extra);
    assert(m.cached_path@.subrange(0, m.cached_path@.len() as int) =~= m.cached_path@);
}

proof fn lemma_steps_from(m: MobPathManager, n: nat)
    requires
        m.current_step <= m.cached_path@.len(),
        m.cached_path@.len() <= usize::MAX,
    ensures
        ({
            let left = (m.cached_path@.len() - m.current_step) as nat;
            n >= left ==> spec_steps(m, n) =~= m.cached_path@.subrange(m.current_step as int, m.cached_path@.len() as int)
                .map_values(|p: (u16, u16)| Some(p)) + Seq::new((n - left) as nat, |i: int| None::<(u16, u16)>)
        }),
    decreases n,
{
    let left = (m.cached_path@.len() - m.current_step) as nat;
    if n > 0 {
        let (m2, r) = spec_advance(m);
        lemma_steps_from(m2, (n - 1) as nat);
        if n >= left && left > 0 {
            let tail = m.cached_path@.subrange(m.current_step as int, m.cached_path@.len() as int);
            let tail2 = m2.cached_path@.subrange(m2.current_step as int, m2.cached_path@.len() as int);
            assert(m2.current_step == m.current_step + 1);
            assert(m2.cached_path == m.cached_path);
            assert(tail2 =~= tail.drop_first());
        }
    }
}

impl Default for MobPathManager {
    fn default() -> (m: Self)
        ensures
            !m.is_chasing,
            m.target_pos is None,
            m.cached_path@.len() == 0,
            m.current_step == 0,
            !m.path_invalid,
    {
        MobPathManager::new()
    }
}

/// What a monster may do, read from its `Modes`.
#[derive(Debug, Clone, Copy, PartialEq, Eq, Structural)]
pub struct MobBehaviorFlags {
    pub can_move: bool,
    pub can_attack: bool,
    pub detector: bool,
    pub boss: bool,
    pub plant: bool,
    pub can_chase: bool,
}

/// The flags of a monster with no `Modes`: it moves, attacks and chases.
pub open spec fn spec_default_flags() -> MobBehaviorFlags {
    MobBehaviorFlags { can_move: true, can_attack: true, detector: false, boss: false, plant: false, can_chase: true }
}

impl Default for MobBehaviorFlags {
    fn default() -> (f: Self)
        ensures
            f == spec_default_flags(),
    {
        MobBehaviorFlags { can_move: true, can_attack: true, detector: false, boss: false, plant: false, can_chase: true }
    }
}

/// The race of a monster.
#[derive(Debug, Clone, Copy, PartialEq, Eq, Structural)]
pub enum MobRace {
    Formless,
    Undead,
    Brute,
    Plant,
    Insect,
    Fish,
    Demon,
    DemiHuman,
    Angel,
    Dragon,
}

impl Default for MobRace {
    fn default() -> (r: Self)
        ensures
            r == MobRace::Formless,
    {
        MobRace::Formless
    }
}

/// The rank of a monster.
#[derive(Debug, Clone, Copy, PartialEq, Eq, Structural)]
pub enum MobType {
    Normal,
    Boss,
    Guardian,
    Event,
}

/// How a monster reacts to players.
#[derive(Debug, Clone, Copy, PartialEq, Eq, Structural)]
pub enum MobBehavior {
    /// Fights back only when attacked.
    Passive,
    /// Attacks players that come into sight.
    Aggressive,
    /// Joins fights of nearby monsters.
    Assist,
    /// Joins fights of nearby monsters once attacked itself.
    PassiveAssist,
    /// Runs away when its HP is low.
    FleeWhenLowHp,
    /// Never moves; attacks what comes into range.
    Immobile,
}

/// Whom a monster skill is cast on.
#[derive(Debug, Clone, Copy, PartialEq, Eq, Structural)]
pub enum MobSkillTarget {
    /// The enemy being fought.
    Target,
    /// The monster itself.
    Self_,
}

impl Default for MobSkillTarget {
    fn default() -> (t: Self)
        ensures
            t == MobSkillTarget::Target,
    {
        MobSkillTarget::Target
    }
}

/// When a monster skill may fire.
#[derive(Debug, Clone, Copy, PartialEq, Eq, Structural)]
pub enum MobSkillCondition {
    /// Always.
    Any,
    /// When attacked by several players at once.
    RudeAttacked,
    /// When the target is far away.
    LongRange,
    /// When HP is at or under `condition_value` percent.
    HpCertain,
}

impl Default for MobSkillCondition {
    fn default() -> (c: Self)
        ensures
            c == MobSkillCondition::Any,
    {
        MobSkillCondition::Any
    }
}

/// A skill a monster may use; `chance` is in hundredths of a percent and
/// `cooldown_ms` in milliseconds.
#[derive(Debug, Clone, Copy, PartialEq, Eq, Structural)]
pub struct MobSkill {
    pub skill_id: u16,
    pub level: u8,
    pub chance: u32,
    pub target: MobSkillTarget,
    pub condition: MobSkillCondition,
    pub condition_value: u32,
    pub cooldown_ms: u64,
}

/// Where a monster stands.
#[derive(Debug, Clone, Copy, PartialEq, Eq, Structural)]
pub struct MobPosition {
    pub x: u16,
    pub y: u16,
}

/// What a monster is doing.
#[derive(Debug, Clone, Copy, PartialEq, Eq, Structural)]
pub enum MobAIState {
    Idle,
    Patrol,
    Chase,
    Attack,
    Return,
    /// Running away from an attacker while HP is low.
    Flee,
    Dead,
}

/// The data shared by all monsters of one kind.
#[derive(Debug, Clone)]
pub struct MobTemplate {
    pub name: String,
    pub level: u16,
    pub hp: u32,
    pub sp: u32,
    pub atk: u16,
    pub matk: u16,
    pub defense: u16,
    pub magic_defense: u16,
    pub hit: i16,
    pub flee: i16,
    pub crit: i16,
    pub walk_speed: u16,
    pub atk_range: u16,
    pub sight_range: u16,
    pub chase_range: u16,
    pub aggro_rate: i16,
    pub spawn_delay: u32,
    pub respawn_time: u32,
    pub behavior: MobBehavior,
    pub skills: Vec<MobSkill>,
    pub drops: Vec<MobDrop>,
    pub base_exp: u64,
    pub job_exp: u64,
    pub zeny: Option<u64>,
    pub element: Element,
    pub element_level: ElementLevel,
    pub size: MobSize,
    pub race: MobRace,
    pub mob_type: MobType,
    pub mvp_drops: Vec<MobDrop>,
    pub behavior_flags: MobBehaviorFlags,
}

/// The fields that the built-in templates share: no SP, defence or MVP
/// drops, melee range, the usual sight and chase ranges, passive, element
/// level 1, a normal monster with default flags, one second of spawn delay
/// and a minute to respawn.
pub open spec fn spec_common_template_fields(t: MobTemplate) -> bool {
    &&& t.sp == 0
    &&& t.defense == 0
    &&& t.atk_range == 1
    &&& t.sight_range == 12
    &&& t.chase_range == 20
    &&& t.aggro_rate == 0
    &&& t.spawn_delay == 1000
    &&& t.respawn_time == 60000
    &&& t.behavior == MobBehavior::Passive
    &&& t.element_level == ElementLevel::Level1
    &&& t.mob_type == MobType::Normal
    &&& t.mvp_drops@.len() == 0
    &&& t.behavior_flags == spec_default_flags()
}

/// The template used for a monster id that is not in the database.
pub open spec fn spec_is_default_template(t: MobTemplate, mob_id: u16) -> bool {
    &&& spec_common_template_fields(t)
    &&& t.name@ == "Unknown_"@ + spec_decimal(mob_id as nat)
    &&& t.level == 1 && t.hp == 50 && t.atk == 10 && t.matk == 0 && t.magic_defense == 0
    &&& t.hit == 10 && t.flee == 10 && t.crit == 0 && t.walk_speed == DEFAULT_WALK_SPEED
    &&& t.skills@.len() == 0 && t.drops@.len() == 0
    &&& t.base_exp == 10 && t.job_exp == 5 && t.zeny is None
    &&& t.element == Element::Neutral && t.size == MobSize::Medium && t.race == MobRace::Formless
}

impl MobTemplate {
    /// The stand-in template for monster `mob_id`.
    pub fn default(mob_id: u16) -> (t: Self)
        ensures
            spec_is_default_template(t, mob_id),
    {
        MobTemplate {
            name: with_decimal("Unknown_", mob_id as u64),
            level: 1,
            hp: 50,
            sp: 0,
            atk: 10,
            matk: 0,
            defense: 0,
            magic_defense: 0,
            hit: 10,
            flee: 10,
            crit: 0,
            walk_speed: DEFAULT_WALK_SPEED,
            atk_range: 1,
            sight_range: 12,
            chase_range: 20,
            aggro_rate: 0,
            spawn_delay: 1000,
            respawn_time: 60000,
            behavior: MobBehavior::Passive,
            skills: Vec::new(),
            drops: Vec::new(),
            base_exp: 10,
            job_exp: 5,
            zeny: None,
            element: Element::Neutral,
            element_level: ElementLevel::Level1,
            size: MobSize::Medium,
            race: MobRace::Formless,
            mob_type: MobType::Normal,
            mvp_drops: Vec::new(),
            behavior_flags: MobBehaviorFlags::default(),
        }
    }
}

/// The stats by which the built-in templates differ.
pub struct TemplateStats {
    pub level: u16,
    pub hp: u32,
    pub atk: u16,
    pub matk: u16,
    pub magic_defense: u16,
    pub hit: i16,
    pub flee: i16,
    pub crit: i16,
    pub walk_speed: u16,
    pub base_exp: u64,
    pub job_exp: u64,
    pub zeny: u64,
    pub element: Element,
    pub race: MobRace,
}

/// Template `t` is the built-in one named `name` with stats `st`, skills and drops.
pub open spec fn spec_builtin_template(
    t: MobTemplate,
    name: Seq<char>,
    st: TemplateStats,
    skills: Seq<MobSkill>,
    drops: Seq<MobDrop>,
) -> bool {
    &&& spec_common_template_fields(t)
    &&& t.name@ == name
    &&& t.level == st.level && t.hp == st.hp && t.atk == st.atk && t.matk == st.matk
    &&& t.magic_defense == st.magic_defense && t.hit == st.hit && t.flee == st.flee && t.crit == st.crit
    &&& t.walk_speed == st.walk_speed && t.base_exp == st.base_exp && t.job_exp == st.job_exp
    &&& t.zeny == Some(st.zeny) && t.element == st.element && t.race == st.race
    &&& t.size == MobSize::Small
    &&& t.skills@ == skills && t.drops@ == drops
}

fn builtin_template(name: &str, st: TemplateStats, skills: Vec<MobSkill>, drops: Vec<MobDrop>) -> (t: MobTemplate)
    ensures
        spec_builtin_template(t, name@, st, skills@, drops@),
{
    MobTemplate {
        name: owned(name),
        level: st.level,
        hp: st.hp,
        sp: 0,
        atk: st.atk,
        matk: st.matk,
        defense: 0,
        magic_defense: st.magic_defense,
        hit: st.hit,
        flee: st.flee,
        crit: st.crit,
        walk_speed: st.walk_speed,
        atk_range: 1,
        sight_range: 12,
        chase_range: 20,
        aggro_rate: 0,
        spawn_delay: 1000,
        respawn_time: 60000,
        behavior: MobBehavior::Passive,
        skills,
        drops,
        base_exp: st.base_exp,
        job_exp: st.job_exp,
        zeny: Some(st.zeny),
        element: st.element,
        element_level: ElementLevel::Level1,
        size: MobSize::Small,
        race: st.race,
        mob_type: MobType::Normal,
        mvp_drops: Vec::new(),
        behavior_flags: MobBehaviorFlags::default(),
    }
}

/// The built-in Poring (1001).
pub open spec fn spec_poring(t: MobTemplate) -> bool {
    spec_builtin_template(t, "Poring"@,
        TemplateStats { level: 1, hp: 50, atk: 7, matk: 0, magic_defense: 0, hit: 7, flee: 5, crit: 0,
            walk_speed: DEFAULT_WALK_SPEED, base_exp: 2, job_exp: 1, zeny: 10, element: Element::Water, race: MobRace::Plant },
        Seq::empty(),
        seq![MobDrop { item_id: 909, min_amount: 1, max_amount: 1, chance: 7000 },
            MobDrop { item_id: 1202, min_amount: 1, max_amount: 1, chance: 500 },
            MobDrop { item_id: 938, min_amount: 1, max_amount: 1, chance: 100 }])
}

/// The built-in Lunatic (1002), which heals itself under half HP.
pub open spec fn spec_lunatic(t: MobTemplate) -> bool {
    spec_builtin_template(t, "Lunatic"@,
        TemplateStats { level: 3, hp: 80, atk: 12, matk: 0, magic_defense: 0, hit: 12, flee: 10, crit: 5,
            walk_speed: 200, base_exp: 6, job_exp: 4, zeny: 15, element: Element::Neutral, race: MobRace::Brute },
        seq![MobSkill { skill_id: 28, level: 3, chance: 1000, target: MobSkillTarget::Self_,
            condition: MobSkillCondition::HpCertain, condition_value: 50, cooldown_ms: 10000 }],
        seq![MobDrop { item_id: 910, min_amount: 1, max_amount: 1, chance: 6000 },
            MobDrop { item_id: 938, min_amount: 1, max_amount: 1, chance: 200 }])
}

/// The built-in Blue Poring (1003).
pub open spec fn spec_blue_poring(t: MobTemplate) -> bool {
    spec_builtin_template(t, "Blue Poring"@,
        TemplateStats { level: 2, hp: 60, atk: 8, matk: 5, magic_defense: 5, hit: 8, flee: 7, crit: 0,
            walk_speed: DEFAULT_WALK_SPEED, base_exp: 4, job_exp: 3, zeny: 12, element: Element::Water, race: MobRace::Plant },
        Seq::empty(),
        seq![MobDrop { item_id: 909, min_amount: 1, max_amount: 1, chance: 5000 },
            MobDrop { item_id: 947, min_amount: 1, max_amount: 1, chance: 300 }])
}

/// The built-in Fabre (1312), which may bash its target.
pub open spec fn spec_fabre(t: MobTemplate) -> bool {
    spec_builtin_template(t, "Fabre"@,
        TemplateStats { level: 4, hp: 120, atk: 15, matk: 0, magic_defense: 0, hit: 15, flee: 12, crit: 0,
            walk_speed: DEFAULT_WALK_SPEED, base_exp: 8, job_exp: 5, zeny: 20, element: Element::Earth, race: MobRace::Insect },
        seq![MobSkill { skill_id: 5, level: 3, chance: 500, target: MobSkillTarget::Target,
            condition: MobSkillCondition::Any, condition_value: 0, cooldown_ms: 5000 }],
        seq![MobDrop { item_id: 914, min_amount: 1, max_amount: 1, chance: 5500 },
            MobDrop { item_id: 949, min_amount: 1, max_amount: 1, chance: 400 }])
}

/// The templates a list of `(id, template)` pairs gives, a later pair
/// replacing an earlier one with the same id.
pub open spec fn spec_templates_of(entries: Seq<(u16, MobTemplate)>) -> Map<u16, MobTemplate>
    decreases entries.len(),
{
    if entries.len() == 0 {
        Map::empty()
    } else {
        spec_templates_of(entries.drop_last()).insert(entries.last().0, entries.last().1)
    }
}

/// Monster templates by monster id.
pub struct MobDatabase {
    templates: HashMap<u16, MobTemplate>,
    fallback: MobTemplate,
}

/// `t` holds exactly the built-in templates: Poring, Lunatic, Blue Poring and Fabre.
pub open spec fn spec_builtin_mobs(t: Map<u16, MobTemplate>) -> bool {
    &&& t.dom() =~= set![1001u16, 1002u16, 1003u16, 1312u16]
    &&& spec_poring(t[1001])
    &&& spec_lunatic(t[1002])
    &&& spec_blue_poring(t[1003])
    &&& spec_fabre(t[1312])
}

impl MobDatabase {
    /// The templates, by monster id.
    pub closed spec fn spec_templates(&self) -> Map<u16, MobTemplate> {
        self.templates@
    }

    pub closed spec fn well_formed(&self) -> bool {
        spec_is_default_template(self.fallback, 0)
    }

    /// The database of the built-in templates: Poring, Lunatic, Blue Poring and Fabre.
    pub fn new() -> (db: Self)
        ensures
            db.well_formed(),
            spec_builtin_mobs(db.spec_templates()),
    {
        let mut templates: HashMap<u16, MobTemplate> = HashMap::new();
        let poring = builtin_template("Poring",
            TemplateStats { level: 1, hp: 50, atk: 7, matk: 0, magic_defense: 0, hit: 7, flee: 5, crit: 0,
                walk_speed: DEFAULT_WALK_SPEED, base_exp: 2, job_exp: 1, zeny: 10, element: Element::Water, race: MobRace::Plant },
            Vec::new(),
            vec![MobDrop::new(909, 7000), MobDrop::new(1202, 500), MobDrop::new(938, 100)]);
        templates.insert(1001, poring);
        let lunatic = builtin_template("Lunatic",
            TemplateStats { level: 3, hp: 80, atk: 12, matk: 0, magic_defense: 0, hit: 12, flee: 10, crit: 5,
                walk_speed: 200, base_exp: 6, job_exp: 4, zeny: 15, element: Element::Neutral, race: MobRace::Brute },
            vec![MobSkill { skill_id: 28, level: 3, chance: 1000, target: MobSkillTarget::Self_,
                condition: MobSkillCondition::HpCertain, condition_value: 50, cooldown_ms: 10000 }],
            vec![MobDrop::new(910, 6000), MobDrop::new(938, 200)]);
        assert(lunatic.skills@ =~= seq![MobSkill { skill_id: 28, level: 3, chance: 1000, target: MobSkillTarget::Self_,
            condition: MobSkillCondition::HpCertain, condition_value: 50, cooldown_ms: 10000 }]);
        templates.insert(1002, lunatic);
        let blue = builtin_template("Blue Poring",
            TemplateStats { level: 2, hp: 60, atk: 8, matk: 5, magic_defense: 5, hit: 8, flee: 7, crit: 0,
                walk_speed: DEFAULT_WALK_SPEED, base_exp: 4, job_exp: 3, zeny: 12, element: Element::Water, race: MobRace::Plant },
            Vec::new(),
            vec![MobDrop::new(909, 5000), MobDrop::new(947, 300)]);
        templates.insert(1003, blue);
        let fabre = builtin_template("Fabre",
            TemplateStats { level: 4, hp: 120, atk: 15, matk: 0, magic_defense: 0, hit: 15, flee: 12, crit: 0,
                walk_speed: DEFAULT_WALK_SPEED, base_exp: 8, job_exp: 5, zeny: 20, element: Element::Earth, race: MobRace::Insect },
            vec![MobSkill { skill_id: 5, level: 3, chance: 500, target: MobSkillTarget::Target,
                condition: MobSkillCondition::Any, condition_value: 0, cooldown_ms: 5000 }],
            vec![MobDrop::new(914, 5500), MobDrop::new(949, 400)]);
        assert(fabre.skills@ =~= seq![MobSkill { skill_id: 5, level: 3, chance: 500, target: MobSkillTarget::Target,
            condition: MobSkillCondition::Any, condition_value: 0, cooldown_ms: 5000 }]);
        templates.insert(1312, fabre);
        MobDatabase { templates, fallback: MobTemplate::default(0) }
    }

    /// The database the server starts with, given the templates read from
    /// the monster file (`None` when it could not be read): those, or the
    /// built-in ones.
    pub fn from_loaded_or_builtin(loaded: Option<Vec<(u16, MobTemplate)>>) -> (db: Self)
        ensures
            db.well_formed(),
            match loaded {
                Some(entries) => db.spec_templates() == spec_templates_of(entries@),
                None => spec_builtin_mobs(db.spec_templates()),
            },
    {
        match loaded {
            Some(entries) => MobDatabase::from_templates(entries),
            None => MobDatabase::new(),
        }
    }

    /// A database of loaded templates, a later entry replacing an earlier
    /// one with the same id.
    pub fn from_templates(entries: Vec<(u16, MobTemplate)>) -> (db: Self)
        ensures
            db.well_formed(),
            db.spec_templates() == spec_templates_of(entries@),
    {
        let mut templates: HashMap<u16, MobTemplate> = HashMap::new();
        let mut rest = entries;
        let ghost all = rest@;
        let mut i: usize = 0;
        let n = rest.len();
        while i < n
            invariant
                n == all.len(),
                i <= n,
                rest@ == all.subrange(i as int, n as int),
                templates@ == spec_templates_of(all.subrange(0, i as int)),
            decreases n - i,
        {
            let (id, t) = rest.remove(0);
            proof {
                assert(all.subrange(0, i + 1).drop_last() =~= all.subrange(0, i as int));
                assert(rest@ =~= all.subrange(i + 1, n as int));
            }
            templates.insert(id, t);
            i = i + 1;
        }
        proof {
            assert(all.subrange(0, n as int) =~= all);
        }
        MobDatabase { templates, fallback: MobTemplate::default(0) }
    }

    /// The template of `mob_id`, or the stand-in template of id 0 when the
    /// database has none.
    pub fn get(&self, mob_id: u16) -> (t: &MobTemplate)
        requires
            self.well_formed(),
        ensures
            self.spec_templates().contains_key(mob_id) ==> *t == self.spec_templates()[mob_id],
            !self.spec_templates().contains_key(mob_id) ==> spec_is_default_template(*t, 0),
    {
        match self.templates.get(&mob_id) {
            Some(t) => t,
            None => &self.fallback,
        }
    }

    /// The template of `mob_id`, if the database has one.
    pub fn get_opt(&self, mob_id: u16) -> (r: Option<&MobTemplate>)
        ensures
            match r {
                Some(t) => self.spec_templates().contains_key(mob_id) && *t == self.spec_templates()[mob_id],
                None => !self.spec_templates().contains_key(mob_id),
            },
    {
        self.templates.get(&mob_id)
    }

    /// All ids with their templates, in no particular order.
    pub fn all(&self) -> (v: Vec<(u16, &MobTemplate)>)
        ensures
            v@.len() == self.spec_templates().dom().len(),
            forall|i: int| 0 <= i < v@.len() ==> self.spec_templates().contains_key((#[trigger] v@[i]).0)
                && *v@[i].1 == self.spec_templates()[v@[i].0],
            forall|id: u16| #[trigger] self.spec_templates().contains_key(id) ==> exists|i: int| 0 <= i < v@.len() && v@[i].0 == id,
            forall|i: int, j: int| 0 <= i < j < v@.len() ==> v@[i].0 != v@[j].0,
    {
        let mut v: Vec<(u16, &MobTemplate)> = Vec::new();
        for k in it: self.templates.keys()
            invariant
                v@.len() == it.index(),
                forall|j: int| 0 <= j < it.index() ==> v@[j].0 == *it.seq()[j],
                forall|j: int| 0 <= j < v@.len() ==> self.spec_templates().contains_key((#[trigger] v@[j]).0)
                    && *v@[j].1 == self.spec_templates()[v@[j].0],
                forall|id: u16| #[trigger] self.spec_templates().contains_key(id) && !(exists|j: int| 0 <= j < v@.len() && v@[j].0 == id) ==>
                    exists|j: int| it.index() <= j < it.seq().len() && *it.seq()[j] == id,
                it.seq().no_duplicates(),
                it.seq().len() == self.spec_templates().dom().len(),
                forall|i: int, j: int| 0 <= i < j < v@.len() ==> v@[i].0 != v@[j].0,
        {
            let t = self.templates.get(k).unwrap();
            proof {
                let nv = v@.push((*k, t));
                assert forall|id: u16| #[trigger] self.spec_templates().contains_key(id)
                    && !(exists|j: int| 0 <= j < nv.len() && nv[j].0 == id) implies
                    exists|j: int| it.index() + 1 <= j < it.seq().len() && *it.seq()[j] == id by {
                    if exists|j2: int| 0 <= j2 < v@.len() && v@[j2].0 == id {
                        let j2 = choose|j2: int| 0 <= j2 < v@.len() && v@[j2].0 == id;
                        assert(nv[j2].0 == id);
                    } else {
                        let j = choose|j: int| it.index() <= j < it.seq().len() && *it.seq()[j] == id;
                        if j == it.index() {
                            assert(nv[nv.len() - 1].0 == id);
                        }
                    }
                }
            }
            proof {
                assert forall|j: int| 0 <= j < v@.len() implies v@[j].0 != *k by {
                    assert(it.seq()[j] != it.seq()[it.index() as int]);
                }
            }
            v.push((*k, t));
        }
        v
    }

    /// How many templates the database holds.
    pub fn count(&self) -> (n: usize)
        ensures
            n == self.spec_templates().dom().len(),
    {
        self.templates.len()
    }
}

impl Default for MobDatabase {
    fn default() -> (db: Self)
        ensures
            db.well_formed(),
            db.spec_templates().dom() =~= set![1001u16, 1002u16, 1003u16, 1312u16],
    {
        MobDatabase::new()
    }
}

/// HP as a whole percentage of `max_hp` (0 when `max_hp` is 0).
pub open spec fn spec_hp_percent(hp: u32, max_hp: u32) -> u32 {
    if max_hp == 0 { 0 } else { (hp as int * 100 / max_hp as int) as u32 }
}

/// A monster's HP share is a whole percentage of its maximum, rounded
/// down: 0 to 100 while HP does not exceed the maximum, 100 at full HP, and
/// never smaller for more HP.
pub proof fn lemma_hp_percent_bounds(hp: u32, hp2: u32, max_hp: u32)
    requires
        max_hp > 0,
        hp <= hp2 <= max_hp,
    ensures
        spec_hp_percent(hp, max_hp) <= spec_hp_percent(hp2, max_hp) <= 100,
        spec_hp_percent(max_hp, max_hp) == 100,
        spec_hp_percent(hp, max_hp) * max_hp <= 100 * hp < (spec_hp_percent(hp, max_hp) + 1) * max_hp,
{
    let h = hp as int;
    let h2 = hp2 as int;
    let m = max_hp as int;
    assert(h * 100 / m <= h2 * 100 / m <= 100) by (nonlinear_arith)
        requires 0 <= h <= h2 <= m, m > 0;
    assert(m * 100 / m == 100) by (nonlinear_arith)
        requires m > 0;
    assert((h * 100 / m) * m <= 100 * h < (h * 100 / m + 1) * m) by (nonlinear_arith)
        requires 0 <= h, m > 0;
}

/// A live monster on a map.
#[derive(Debug)]
pub struct Mob {
    pub id: u128,
    /// The id clients see, given when the monster is registered.
    pub entity_id: u32,
    pub mob_id: u16,
    pub name: String,
    pub pos: MobPosition,
    pub map_name: String,
    pub level: u16,
    pub hp: u32,
    pub max_hp: u32,
    pub sp: u32,
    pub max_sp: u32,
    pub atk: u16,
    pub matk: u16,
    pub defense: u16,
    pub magic_defense: u16,
    pub hit: i16,
    pub flee: i16,
    pub crit: i16,
    pub walk_speed: u16,
    pub atk_range: u16,
    pub element: Element,
    pub element_level: ElementLevel,
    pub size: MobSize,
    pub race: MobRace,
    pub mob_type: MobType,
    pub ai_state: MobAIState,
    pub target_id: Option<u128>,
    pub behavior: MobBehavior,
    pub skills: Vec<MobSkill>,
    /// When each skill was last used, in milliseconds.
    pub skill_cooldowns: HashMap<u16, u64>,
    pub sight_range: u16,
    pub chase_range: u16,
    pub aggro_rate: i16,
    pub spawn_delay: u32,
    pub respawn_time: u32,
    pub spawn_x: u16,
    pub spawn_y: u16,
    pub spawn_map: String,
    /// When the monster died, in milliseconds.
    pub death_time: Option<u64>,
    pub drops: Vec<MobDrop>,
    pub base_exp: u64,
    pub job_exp: u64,
    pub zeny: Option<u64>,
    pub drops_processed: bool,
    pub path_manager: MobPathManager,
    /// Damage each player dealt, for picking the MVP.
    pub damage_log: HashMap<u128, u64>,
    /// Damage each player dealt, for the HP bar.
    pub dmglog: HashMap<u128, u32>,
    /// The attacker a fleeing monster runs from.
    pub flee_from: Option<u128>,
}

/// A monster stands at its spawn point in its initial state: full HP and
/// SP, idle, no target, no cooldowns, damage records or flight, a fresh path.
pub open spec fn spec_fresh_at_spawn(m: Mob) -> bool {
    &&& m.hp == m.max_hp
    &&& m.sp == m.max_sp
    &&& m.pos == (MobPosition { x: m.spawn_x, y: m.spawn_y })
    &&& m.ai_state == MobAIState::Idle
    &&& m.target_id is None
    &&& m.death_time is None
    &&& !m.drops_processed
    &&& m.skill_cooldowns@ == Map::<u16, u64>::empty()
    &&& m.dmglog@ == Map::<u128, u32>::empty()
    &&& m.flee_from is None
    &&& !m.path_manager.is_chasing && m.path_manager.target_pos is None
    &&& m.path_manager.cached_path@.len() == 0 && m.path_manager.current_step == 0 && !m.path_manager.path_invalid
}

impl Mob {
    /// A bare monster of kind `mob_id` at `(x, y)` on `map`: level 1, 100 HP,
    /// 10 attack, passive, with a fresh random id.
    pub fn new(mob_id: u16, x: u16, y: u16, map: &str) -> (m: Self)
        ensures
            spec_fresh_at_spawn(m),
            m.damage_log@ == Map::<u128, u64>::empty(),
            m.mob_id == mob_id && m.entity_id == 0,
            m.name@ == "Mob_"@ + spec_decimal(mob_id as nat),
            m.map_name@ == map@ && m.spawn_map@ == map@,
            m.spawn_x == x && m.spawn_y == y,
            m.level == 1 && m.max_hp == 100 && m.max_sp == 0 && m.atk == 10 && m.matk == 0,
            m.defense == 0 && m.magic_defense == 0 && m.hit == 0 && m.flee == 0 && m.crit == 0,
            m.walk_speed == DEFAULT_WALK_SPEED && m.atk_range == 1,
            m.element == Element::Neutral && m.element_level == ElementLevel::Level1,
            m.size == MobSize::Medium && m.race == MobRace::Formless && m.mob_type == MobType::Normal,
            m.behavior == MobBehavior::Passive && m.skills@.len() == 0,
            m.sight_range == 12 && m.chase_range == 20 && m.aggro_rate == 0,
            m.spawn_delay == 0 && m.respawn_time == 60000,
            m.drops@.len() == 0 && m.base_exp == 0 && m.job_exp == 0 && m.zeny is None,
    {
        Mob {
            id: new_uuid(),
            entity_id: 0,
            mob_id,
            name: with_decimal("Mob_", mob_id as u64),
            pos: MobPosition { x, y },
            map_name: owned(map),
            level: 1,
            hp: 100,
            max_hp: 100,
            sp: 0,
            max_sp: 0,
            atk: 10,
            matk: 0,
            defense: 0,
            magic_defense: 0,
            hit: 0,
            flee: 0,
            crit: 0,
            walk_speed: DEFAULT_WALK_SPEED,
            atk_range: 1,
            element: Element::Neutral,
            element_level: ElementLevel::Level1,
            size: MobSize::Medium,
            race: MobRace::Formless,
            mob_type: MobType::Normal,
            ai_state: MobAIState::Idle,
            target_id: None,
            behavior: MobBehavior::Passive,
            skills: Vec::new(),
            skill_cooldowns: HashMap::new(),
            sight_range: 12,
            chase_range: 20,
            aggro_rate: 0,
            spawn_delay: 0,
            respawn_time: 60000,
            spawn_x: x,
            spawn_y: y,
            spawn_map: owned(map),
            death_time: None,
            drops: Vec::new(),
            base_exp: 0,
            job_exp: 0,
            zeny: None,
            drops_processed: false,
            path_manager: MobPathManager::new(),
            damage_log: HashMap::new(),
            dmglog: HashMap::new(),
            flee_from: None,
        }
    }

    /// A monster of kind `mob_id` built from its template in `db` (the
    /// stand-in template when `db` has none), at `(x, y)` on `map`.
    pub fn from_template(db: &MobDatabase, mob_id: u16, x: u16, y: u16, map: &str) -> (m: Self)
        requires
            db.well_formed(),
        ensures
            spec_fresh_at_spawn(m),
            m.damage_log@ == Map::<u128, u64>::empty(),
            m.mob_id == mob_id && m.entity_id == 0,
            m.map_name@ == map@ && m.spawn_map@ == map@,
            m.spawn_x == x && m.spawn_y == y,
            db.spec_templates().contains_key(mob_id) ==> m.copies_template(db.spec_templates()[mob_id]),
            !db.spec_templates().contains_key(mob_id) ==> exists|t: MobTemplate| spec_is_default_template(t, 0) && m.copies_template(t),
    {
        let t = db.get(mob_id);
        let mut skills: Vec<MobSkill> = Vec::new();
        let mut i: usize = 0;
        while i < t.skills.len()
            invariant
                i <= t.skills@.len(),
                skills@ == t.skills@.subrange(0, i as int),
            decreases t.skills@.len() - i,
        {
            skills.push(t.skills[i]);
            i = i + 1;
        }
        let mut drops: Vec<MobDrop> = Vec::new();
        let mut j: usize = 0;
        while j < t.drops.len()
            invariant
                j <= t.drops@.len(),
                drops@ == t.drops@.subrange(0, j as int),
            decreases t.drops@.len() - j,
        {
            drops.push(t.drops[j]);
            j = j + 1;
        }
        proof {
            assert(skills@ =~= t.skills@.subrange(0, t.skills@.len() as int));
            assert(t.skills@.subrange(0, t.skills@.len() as int) =~= t.skills@);
            assert(t.drops@.subrange(0, t.drops@.len() as int) =~= t.drops@);
        }
        Mob {
            id: new_uuid(),
            entity_id: 0,
            mob_id,
            name: owned(t.name.as_str()),
            pos: MobPosition { x, y },
            map_name: owned(map),
            level: t.level,
            hp: t.hp,
            max_hp: t.hp,
            sp: t.sp,
            max_sp: t.sp,
            atk: t.atk,
            matk: t.matk,
            defense: t.defense,
            magic_defense: t.magic_defense,
            hit: t.hit,
            flee: t.flee,
            crit: t.crit,
            walk_speed: t.walk_speed,
            atk_range: t.atk_range,
            element: t.element,
            element_level: t.element_level,
            size: t.size,
            race: t.race,
            mob_type: t.mob_type,
            ai_state: MobAIState::Idle,
            target_id: None,
            behavior: t.behavior,
            skills,
            skill_cooldowns: HashMap::new(),
            sight_range: t.sight_range,
            chase_range: t.chase_range,
            aggro_rate: t.aggro_rate,
            spawn_delay: t.spawn_delay,
            respawn_time: t.respawn_time,
            spawn_x: x,
            spawn_y: y,
            spawn_map: owned(map),
            death_time: None,
            drops,
            base_exp: t.base_exp,
            job_exp: t.job_exp,
            zeny: t.zeny,
            drops_processed: false,
            path_manager: MobPathManager::new(),
            damage_log: HashMap::new(),
            dmglog: HashMap::new(),
            flee_from: None,
        }
    }

    /// The template fields this monster carries.
    pub open spec fn copies_template(self, t: MobTemplate) -> bool {
        &&& self.name@ == t.name@ && self.level == t.level && self.max_hp == t.hp && self.max_sp == t.sp
        &&& self.atk == t.atk && self.matk == t.matk && self.defense == t.defense && self.magic_defense == t.magic_defense
        &&& self.hit == t.hit && self.flee == t.flee && self.crit == t.crit && self.walk_speed == t.walk_speed
        &&& self.atk_range == t.atk_range && self.element == t.element && self.element_level == t.element_level
        &&& self.size == t.size && self.race == t.race && self.mob_type == t.mob_type && self.behavior == t.behavior
        &&& self.skills@ == t.skills@ && self.sight_range == t.sight_range && self.chase_range == t.chase_range
        &&& self.aggro_rate == t.aggro_rate && self.spawn_delay == t.spawn_delay && self.respawn_time == t.respawn_time
        &&& self.drops@ == t.drops@ && self.base_exp == t.base_exp && self.job_exp == t.job_exp && self.zeny == t.zeny
    }

    pub fn get_position(&self) -> (p: (u16, u16))
        ensures
            p == (self.pos.x, self.pos.y),
    {
        (self.pos.x, self.pos.y)
    }

    pub fn move_to(&mut self, x: u16, y: u16)
        ensures
            final(self).pos == (MobPosition { x, y }),
            *final(self) == (Mob { pos: MobPosition { x, y }, ..*old(self) }),
    {
        self.pos = MobPosition { x, y };
    }

    pub fn is_dead(&self) -> (b: bool)
        ensures
            b == (self.hp == 0),
    {
        self.hp == 0
    }

    pub fn get_entity_id(&self) -> (id: u32)
        ensures
            id == self.entity_id,
    {
        self.entity_id
    }

    pub fn set_entity_id(&mut self, id: u32)
        ensures
            *final(self) == (Mob { entity_id: id, ..*old(self) }),
    {
        self.entity_id = id;
    }

    /// HP as a whole percentage of the maximum (0 when the maximum is 0).
    pub fn hp_percent(&self) -> (p: u32)
        ensures
            p == spec_hp_percent(self.hp, self.max_hp),
    {
        if self.max_hp == 0 {
            return 0;
        }
        (self.hp as u64 * 100 / self.max_hp as u64) as u32
    }

    /// Takes `damage`; at or below zero HP the monster dies at the current
    /// time. Returns whether it died.
    pub fn take_damage(&mut self, damage: u32) -> (died: bool)
        ensures
            died == (old(self).hp <= damage),
            died ==> final(self).hp == 0 && final(self).ai_state == MobAIState::Dead && final(self).death_time is Some,
            !died ==> *final(self) == (Mob { hp: (old(self).hp - damage) as u32, ..*old(self) }),
            died ==> *final(self) == (Mob { hp: 0, ai_state: MobAIState::Dead, death_time: final(self).death_time, ..*old(self) }),
    {
        if self.hp <= damage {
            self.hp = 0;
            self.ai_state = MobAIState::Dead;
            self.death_time = Some(now_millis());
            true
        } else {
            self.hp = self.hp - damage;
            false
        }
    }

    /// Adds `damage` to what player `player_id` dealt, for the HP bar.
    pub fn add_damage(&mut self, player_id: u128, damage: u32)
        requires
            old(self).dmglog@.contains_key(player_id) ==> old(self).dmglog@[player_id] + damage <= u32::MAX,
        ensures
            final(self).dmglog@ == old(self).dmglog@.insert(player_id,
                (if old(self).dmglog@.contains_key(player_id) { old(self).dmglog@[player_id] + damage } else { damage as int }) as u32),
            *final(self) == (Mob { dmglog: final(self).dmglog, ..*old(self) }),
    {
        let current: u32 = match self.dmglog.get(&player_id) {
            Some(d) => *d,
            None => 0,
        };
        self.dmglog.insert(player_id, current + damage);
    }

    /// Back at the spawn point with full HP and SP, idle, with no target,
    /// cooldowns, HP-bar damage or flight.
    pub fn respawn(&mut self)
        ensures
            spec_fresh_at_spawn(*final(self)),
            *final(self) == (Mob {
                hp: old(self).max_hp,
                sp: old(self).max_sp,
                pos: MobPosition { x: old(self).spawn_x, y: old(self).spawn_y },
                ai_state: MobAIState::Idle,
                target_id: None,
                death_time: None,
                drops_processed: false,
                path_manager: final(self).path_manager,
                skill_cooldowns: final(self).skill_cooldowns,
                dmglog: final(self).dmglog,
                flee_from: None,
                ..*old(self)
            }),
    {
        self.hp = self.max_hp;
        self.sp = self.max_sp;
        self.pos = MobPosition { x: self.spawn_x, y: self.spawn_y };
        self.ai_state = MobAIState::Idle;
        self.target_id = None;
        self.death_time = None;
        self.drops_processed = false;
        self.path_manager = MobPathManager::new();
        self.skill_cooldowns.clear();
        self.dmglog.clear();
        self.flee_from = None;
    }

    /// Heals `amount` HP, up to the maximum.
    pub fn heal(&mut self, amount: u32)
        requires
            old(self).hp + amount <= u32::MAX,
        ensures
            final(self).hp == (if old(self).hp + amount < old(self).max_hp { old(self).hp + amount } else { old(self).max_hp as int }),
            *final(self) == (Mob { hp: final(self).hp, ..*old(self) }),
    {
        let sum = self.hp + amount;
        self.hp = if sum < self.max_hp { sum } else { self.max_hp };
    }
}

} // verus!
