//! Mercenary templates as a `mercenary_db.yml` file gives them.

use vstd::prelude::*;
use crate::text::{owned, with_decimal, spec_decimal};

verus! {

/// A mercenary template as read from the file.
pub struct MercenaryTemplateYaml {
    pub id: u16,
    pub name: String,
    pub level: u16,
    pub hp: u32,
    pub sp: u32,
    pub attack: u32,
    pub attack2: u32,
    pub defense: u32,
    pub magic_defense: u32,
    pub str: u16,
    pub agi: u16,
    pub vit: u16,
    /// Intelligence.
    pub int_: u16,
    pub dex: u16,
    pub luk: u16,
    pub attack_range: u16,
    pub walk_speed: u16,
    pub skills: Vec<MercenarySkillEntry>,
}

/// A skill of a mercenary template and its highest level.
pub struct MercenarySkillEntry {
    pub name: String,
    pub max_level: u8,
}

/// A skill line of an entry, as read.
pub struct MercSkillYaml {
    pub name: String,
    pub max_level: u8,
}

/// A mercenary entry of the file, as read (with defaults filled in).
pub struct MercDbEntry {
    pub id: u16,
    pub name: Option<String>,
    pub level: u16,
    pub hp: u32,
    pub sp: u32,
    pub attack: u32,
    pub attack2: u32,
    pub defense: u32,
    pub magic_defense: u32,
    pub str: u16,
    pub agi: u16,
    pub vit: u16,
    pub int_: u16,
    pub dex: u16,
    pub luk: u16,
    pub attack_range: u16,
    pub walk_speed: u16,
    pub skills: Vec<MercSkillYaml>,
}

/// The stat an entry without one gets.
pub fn default_one_u16() -> (v: u16)
    ensures
        v == 1,
{
    1
}

/// The walking speed an entry without one gets.
pub fn default_walk_speed() -> (v: u16)
    ensures
        v == 200,
{
    200
}

/// The skill level an entry without one gets.
pub fn default_one_u8() -> (v: u8)
    ensures
        v == 1,
{
    1
}

/// A zero in a field that must be positive stands for 1.
pub open spec fn spec_at_least_one(v: int) -> int {
    if v == 0 { 1 } else { v }
}

impl MercDbEntry {
    /// The template an entry gives: a missing name becomes `Mercenary_<id>`,
    /// a zero level, HP or SP becomes 1.
    pub fn to_template(&self) -> (t: MercenaryTemplateYaml)
        ensures
            t.id == self.id,
            t.name@ == (match self.name { Some(n) => n@, None => "Mercenary_"@ + spec_decimal(self.id as nat) }),
            t.level == spec_at_least_one(self.level as int),
            t.hp == spec_at_least_one(self.hp as int),
            t.sp == spec_at_least_one(self.sp as int),
            t.attack == self.attack && t.attack2 == self.attack2,
            t.defense == self.defense && t.magic_defense == self.magic_defense,
            t.str == self.str && t.agi == self.agi && t.vit == self.vit,
            t.int_ == self.int_ && t.dex == self.dex && t.luk == self.luk,
            t.attack_range == self.attack_range && t.walk_speed == self.walk_speed,
            t.skills@.len() == self.skills@.len(),
            forall|i: int| 0 <= i < t.skills@.len() ==> (#[trigger] t.skills@[i]).name@ == self.skills@[i].name@
                && t.skills@[i].max_level == self.skills@[i].max_level,
    {
        let mut skills: Vec<MercenarySkillEntry> = Vec::new();
        let mut i: usize = 0;
        while i < self.skills.len()
            invariant
                i <= self.skills@.len(),
                skills@.len() == i,
                forall|j: int| 0 <= j < i ==> (#[trigger] skills@[j]).name@ == self.skills@[j].name@
                    && skills@[j].max_level == self.skills@[j].max_level,
            decreases self.skills@.len() - i,
        {
            skills.push(MercenarySkillEntry { name: owned(self.skills[i].name.as_str()), max_level: self.skills[i].max_level });
            i = i + 1;
        }
        let name = match &self.name {
            Some(n) => owned(n.as_str()),
            None => with_decimal("Mercenary_", self.id as u64),
        };
        MercenaryTemplateYaml {
            id: self.id,
            name,
            level: if self.level == 0 { 1 } else { self.level },
            hp: if self.hp == 0 { 1 } else { self.hp },
            sp: if self.sp == 0 { 1 } else { self.sp },
            attack: self.attack,
            attack2: self.attack2,
            defense: self.defense,
            magic_defense: self.magic_defense,
            str: self.str,
            agi: self.agi,
            vit: self.vit,
            int_: self.int_,
            dex: self.dex,
            luk: self.luk,
            attack_range: self.attack_range,
            walk_speed: self.walk_speed,
            skills,
        }
    }
}

} // verus!
