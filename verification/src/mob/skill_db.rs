//! The database of monster skills, grouped by monster.

use vstd::prelude::*;
use std::collections::HashMap;
use crate::mob::data::{MobSkillCondition, MobSkillTarget};

verus! {

broadcast use vstd::std_specs::hash::group_hash_axioms;

/// One skill line of the database; `rate` is in hundredths of a percent,
/// times in milliseconds.
#[derive(Debug, Clone, Copy, PartialEq, Eq, Structural)]
pub struct MobSkillEntry {
    pub mob_id: u16,
    pub skill_id: u16,
    pub level: u8,
    pub rate: u16,
    pub cast_time: u32,
    pub delay: u32,
    pub target: MobSkillTarget,
    pub condition: MobSkillCondition,
    pub condition_value: u32,
}

/// The lines of `all` that belong to monster `mob_id`, in order.
pub open spec fn spec_entries_for(all: Seq<MobSkillEntry>, mob_id: u16) -> Seq<MobSkillEntry>
    decreases all.len(),
{
    if all.len() == 0 {
        Seq::empty()
    } else {
        let rest = spec_entries_for(all.drop_last(), mob_id);
        if all.last().mob_id == mob_id { rest.push(all.last()) } else { rest }
    }
}

proof fn lemma_entries_for_empty_iff(all: Seq<MobSkillEntry>, mob_id: u16)
    ensures
        spec_entries_for(all, mob_id).len() == 0 <==> forall|i: int| 0 <= i < all.len() ==> (#[trigger] all[i]).mob_id != mob_id,
    decreases all.len(),
{
    if all.len() > 0 {
        lemma_entries_for_empty_iff(all.drop_last(), mob_id);
        assert forall|i: int| 0 <= i < all.len() - 1 implies all.drop_last()[i] == #[trigger] all[i] by {}
    }
}

/// Monster skills grouped by monster id.
pub struct MobSkillDatabase {
    entries: HashMap<u16, Vec<MobSkillEntry>>,
    total: usize,
    all: Ghost<Seq<MobSkillEntry>>,
}

impl MobSkillDatabase {
    /// Every line, in the order loaded.
    pub closed spec fn spec_all(&self) -> Seq<MobSkillEntry> {
        self.all@
    }

    /// The monsters that have lines.
    pub closed spec fn spec_mob_ids(&self) -> Set<u16> {
        self.entries@.dom()
    }

    pub closed spec fn well_formed(&self) -> bool {
        &&& self.total == self.all@.len()
        &&& forall|id: u16| #[trigger] self.entries@.contains_key(id) ==> self.entries@[id]@ == spec_entries_for(self.all@, id)
            && spec_entries_for(self.all@, id).len() > 0
        &&& forall|id: u16| !self.entries@.contains_key(id) ==> (#[trigger] spec_entries_for(self.all@, id)).len() == 0
    }

    pub fn new() -> (db: Self)
        ensures
            db.well_formed(),
            db.spec_all().len() == 0,
    {
        MobSkillDatabase { entries: HashMap::new(), total: 0, all: Ghost(Seq::empty()) }
    }

    /// The database of `entries`, grouped by monster in the order given.
    pub fn from_entries(entries: Vec<MobSkillEntry>) -> (db: Self)
        ensures
            db.well_formed(),
            db.spec_all() == entries@,
    {
        let mut db = MobSkillDatabase::new();
        let mut i: usize = 0;
        while i < entries.len()
            invariant
                i <= entries@.len(),
                db.well_formed(),
                db.spec_all() == entries@.subrange(0, i as int),
            decreases entries@.len() - i,
        {
            let e = entries[i];
            db.push(e);
            assert(entries@.subrange(0, i + 1) =~= entries@.subrange(0, i as int).push(e));
            i = i + 1;
        }
        assert(entries@.subrange(0, entries@.len() as int) =~= entries@);
        db
    }

    fn push(&mut self, e: MobSkillEntry)
        requires
            old(self).well_formed(),
            old(self).spec_all().len() < usize::MAX,
        ensures
            final(self).well_formed(),
            final(self).spec_all() == old(self).spec_all().push(e),
    {
        let mut group: Vec<MobSkillEntry> = match self.entries.remove(&e.mob_id) {
            Some(g) => g,
            None => Vec::new(),
        };
        group.push(e);
        self.entries.insert(e.mob_id, group);
        self.total = self.total + 1;
        self.all = Ghost(self.all@.push(e));
        proof {
            let na = self.all@;
            assert(na.drop_last() =~= old(self).all@);
            assert forall|id: u16| #[trigger] self.entries@.contains_key(id) implies self.entries@[id]@ == spec_entries_for(self.all@, id)
                && spec_entries_for(self.all@, id).len() > 0 by {
                if id != e.mob_id {
                    assert(spec_entries_for(na, id) == spec_entries_for(old(self).all@, id));
                    assert(old(self).entries@.contains_key(id));
                } else if !old(self).entries@.contains_key(id) {
                    assert(spec_entries_for(old(self).all@, id).len() == 0);
                    assert(spec_entries_for(old(self).all@, id) =~= Seq::<MobSkillEntry>::empty());
                }
            }
            assert forall|id: u16| !self.entries@.contains_key(id) implies (#[trigger] spec_entries_for(self.all@, id)).len() == 0 by {
                assert(id != e.mob_id);
                assert(!old(self).entries@.contains_key(id));
                assert(spec_entries_for(na, id) == spec_entries_for(old(self).all@, id));
            }
        }
    }

    /// The skill lines of monster `mob_id`, in order (none when it has none).
    pub fn get_skills(&self, mob_id: u16) -> (r: &[MobSkillEntry])
        requires
            self.well_formed(),
        ensures
            r@ == spec_entries_for(self.spec_all(), mob_id),
    {
        match self.entries.get(&mob_id) {
            Some(v) => v.as_slice(),
            None => {
                let empty: &[MobSkillEntry] = &[];
                assert(empty@ =~= spec_entries_for(self.all@, mob_id));
                empty
            },
        }
    }

    /// How many skill lines the database holds.
    pub fn count(&self) -> (n: usize)
        requires
            self.well_formed(),
        ensures
            n == self.spec_all().len(),
    {
        self.total
    }

    /// How many monsters have skill lines.
    pub fn mob_count(&self) -> (n: usize)
        requires
            self.well_formed(),
        ensures
            n == self.spec_mob_ids().len(),
            forall|id: u16| self.spec_mob_ids().contains(id) <==> exists|i: int| 0 <= i < self.spec_all().len()
                && (#[trigger] self.spec_all()[i]).mob_id == id,
    {
        proof {
            assert forall|id: u16| self.spec_mob_ids().contains(id) <==> exists|i: int| 0 <= i < self.spec_all().len()
                && (#[trigger] self.spec_all()[i]).mob_id == id by {
                lemma_entries_for_empty_iff(self.all@, id);
                if self.entries@.contains_key(id) {
                }
            }
        }
        self.entries.len()
    }
}

impl Default for MobSkillDatabase {
    fn default() -> (db: Self)
        ensures
            db.well_formed(),
            db.spec_all().len() == 0,
    {
        MobSkillDatabase::new()
    }
}

} // verus!
