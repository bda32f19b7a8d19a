//! The global variables of NPC scripts: integer and string variables,
//! possibly indexed, of which those whose names begin with `$` are kept
//! across restarts.

use vstd::prelude::*;
use crate::strmap::StrMap;
use crate::text::{owned, concat, starts_with_char, push_decimal, spec_decimal, lemma_decimal_injective};

verus! {

/// A variable's value.
#[derive(Debug, Clone, PartialEq)]
pub enum VarValue {
    Int(i64),
    Str(String),
}

/// A variable with its index, value and whether it awaits saving.
#[derive(Debug, Clone)]
pub struct MapRegEntry {
    pub name: String,
    pub index: u32,
    pub value: VarValue,
    pub dirty: bool,
}

/// The key of variable `name` at `index`: the name alone for index 0,
/// else the name, a colon and the index.
pub open spec fn spec_make_key(name: Seq<char>, index: u32) -> Seq<char> {
    if index == 0 { name } else { name + seq![':'] + spec_decimal(index as nat) }
}

/// Whether a variable (or key) is kept across restarts: its name begins with `$`.
pub open spec fn spec_is_permanent(name: Seq<char>) -> bool {
    name.len() > 0 && name[0] == '$'
}

/// The keys of `m` that are permanent, with their values.
pub open spec fn spec_permanent_part<V>(m: Map<Seq<char>, V>) -> Map<Seq<char>, V> {
    m.restrict(m.dom().filter(|k: Seq<char>| spec_is_permanent(k)))
}

/// `base` with the entries of `saved` that `keep` accepts loaded over it.
pub open spec fn spec_loaded<V>(base: Map<Seq<char>, V>, saved: Map<Seq<char>, V>, keep: spec_fn(V) -> bool) -> Map<Seq<char>, V> {
    Map::new(
        |k: Seq<char>| base.contains_key(k) || (saved.contains_key(k) && keep(saved[k])),
        |k: Seq<char>| if saved.contains_key(k) && keep(saved[k]) { saved[k] } else { base[k] },
    )
}

/// The integer under `key` (0 when unset).
pub open spec fn spec_read_int(ints: Map<Seq<char>, i64>, key: Seq<char>) -> i64 {
    if ints.contains_key(key) { ints[key] } else { 0 }
}

/// The integer variables after setting `key` to `v` (0 unsets it).
pub open spec fn spec_set_int(ints: Map<Seq<char>, i64>, key: Seq<char>, v: i64) -> Map<Seq<char>, i64> {
    if v == 0 { ints.remove(key) } else { ints.insert(key, v) }
}

/// Reading an integer variable back after setting it gives what was set
/// (0 for an unset one); other keys keep their values.
pub proof fn lemma_int_read_after_write(ints: Map<Seq<char>, i64>, key: Seq<char>, other: Seq<char>, v: i64)
    requires
        other != key,
    ensures
        spec_read_int(spec_set_int(ints, key, v), key) == v,
        spec_read_int(spec_set_int(ints, key, v), other) == spec_read_int(ints, other),
{
}

/// Reading a string variable back after setting it to a non-empty text
/// gives that text; setting it empty unsets it; other keys are untouched.
pub proof fn lemma_str_read_after_write(strs: Map<Seq<char>, Seq<char>>, key: Seq<char>, other: Seq<char>, v: Seq<char>)
    requires
        other != key,
    ensures
        v.len() > 0 ==> strs.insert(key, v).contains_key(key) && strs.insert(key, v)[key] == v,
        !strs.remove(key).contains_key(key),
        strs.insert(key, v).contains_key(other) == strs.contains_key(other),
        strs.remove(key).contains_key(other) == strs.contains_key(other),
        strs.contains_key(other) ==> strs.insert(key, v)[other] == strs[other] && strs.remove(key)[other] == strs[other],
{
}

/// Different indices of one variable have different keys.
pub proof fn lemma_keys_of_indices_differ(name: Seq<char>, i: u32, j: u32)
    requires
        i != j,
        i != 0,
        j != 0,
    ensures
        spec_make_key(name, i) != spec_make_key(name, j),
{
    lemma_decimal_injective(i as nat, j as nat);
    let a = spec_make_key(name, i);
    let b = spec_make_key(name, j);
    if a == b {
        let n = name.len() + 1;
        assert(a.subrange(n as int, a.len() as int) =~= spec_decimal(i as nat));
        assert(b.subrange(n as int, b.len() as int) =~= spec_decimal(j as nat));
    }
}

/// Key `k` is among the first `i` of `keys`.
pub open spec fn spec_seen(keys: Seq<String>, i: int, k: Seq<char>) -> bool {
    exists|j: int| 0 <= j < i && (#[trigger] keys[j])@ == k
}

proof fn lemma_seen_step(keys: Seq<String>, i: int)
    requires
        0 <= i < keys.len(),
    ensures
        forall|k: Seq<char>| #[trigger] spec_seen(keys, i + 1, k) <==> (spec_seen(keys, i, k) || k == keys[i]@),
{
    assert forall|k: Seq<char>| #[trigger] spec_seen(keys, i + 1, k) <==> (spec_seen(keys, i, k) || k == keys[i]@) by {
        if spec_seen(keys, i + 1, k) {
            let j = choose|j: int| 0 <= j < i + 1 && (#[trigger] keys[j])@ == k;
            if j < i {
                assert(spec_seen(keys, i, k));
            }
        }
        if k == keys[i]@ {
            assert(keys[i]@ == k);
        }
        if spec_seen(keys, i, k) {
            let j = choose|j: int| 0 <= j < i && (#[trigger] keys[j])@ == k;
            assert(keys[j]@ == k);
        }
    }
}

/// The script variables.
pub struct MapRegStore {
    int_vars: StrMap<i64>,
    str_vars: StrMap<String>,
    dirty: bool,
    autosave_interval: u64,
}

impl MapRegStore {
    /// The integer variables, by key.
    pub closed spec fn spec_ints(&self) -> Map<Seq<char>, i64> {
        self.int_vars@
    }

    /// The string variables, by key.
    pub closed spec fn spec_strs(&self) -> Map<Seq<char>, Seq<char>> {
        self.str_vars@.map_values(|s: String| s@)
    }

    /// Whether there are unsaved changes to permanent variables.
    pub closed spec fn spec_dirty(&self) -> bool {
        self.dirty
    }

    /// Seconds between automatic saves.
    pub closed spec fn spec_autosave_interval(&self) -> u64 {
        self.autosave_interval
    }

    /// An empty store that saves every 5 minutes.
    pub fn new() -> (s: Self)
        ensures
            s.spec_ints() == Map::<Seq<char>, i64>::empty(),
            s.spec_strs() == Map::<Seq<char>, Seq<char>>::empty(),
            !s.spec_dirty(),
            s.spec_autosave_interval() == 300,
    {
        let s = MapRegStore { int_vars: StrMap::new(), str_vars: StrMap::new(), dirty: false, autosave_interval: 300 };
        assert(s.spec_strs() =~= Map::<Seq<char>, Seq<char>>::empty());
        s
    }

    /// The same store, saving every `seconds`.
    pub fn with_autosave_interval(self, seconds: u64) -> (s: Self)
        ensures
            s.spec_ints() == self.spec_ints(),
            s.spec_strs() == self.spec_strs(),
            s.spec_dirty() == self.spec_dirty(),
            s.spec_autosave_interval() == seconds,
    {
        let mut s = self;
        s.autosave_interval = seconds;
        s
    }

    /// The key of variable `name` at `index`.
    pub fn make_key(name: &str, index: u32) -> (k: String)
        ensures
            k@ == spec_make_key(name@, index),
    {
        if index == 0 {
            owned(name)
        } else {
            proof {
                reveal_strlit(":");
            }
            let mut k = concat(name, ":");
            push_decimal(&mut k, index as u64);
            k
        }
    }

    /// Whether a variable is kept across restarts.
    pub fn is_permanent(name: &str) -> (b: bool)
        ensures
            b == spec_is_permanent(name@),
    {
        starts_with_char(name, '$')
    }

    /// The integer variable `name` at `index` (0 when unset).
    pub fn read_int(&self, name: &str, index: u32) -> (v: i64)
        ensures
            v == spec_read_int(self.spec_ints(), spec_make_key(name@, index)),
    {
        let key = Self::make_key(name, index);
        match self.int_vars.get(key.as_str()) {
            Some(v) => *v,
            None => 0,
        }
    }

    /// The string variable `name` at `index` (none when unset).
    pub fn read_str(&self, name: &str, index: u32) -> (v: Option<String>)
        ensures
            match v {
                Some(s) => self.spec_strs().contains_key(spec_make_key(name@, index)) && s@ == self.spec_strs()[spec_make_key(name@, index)],
                None => !self.spec_strs().contains_key(spec_make_key(name@, index)),
            },
    {
        let key = Self::make_key(name, index);
        match self.str_vars.get(key.as_str()) {
            Some(s) => Some(s.clone()),
            None => None,
        }
    }

    /// Sets integer variable `name` at `index`; 0 unsets it. Setting a
    /// permanent variable marks the store as changed.
    pub fn set_int(&mut self, name: &str, index: u32, value: i64)
        ensures
            final(self).spec_ints() == spec_set_int(old(self).spec_ints(), spec_make_key(name@, index), value),
            final(self).spec_strs() == old(self).spec_strs(),
            final(self).spec_dirty() == (old(self).spec_dirty() || spec_is_permanent(name@)),
            final(self).spec_autosave_interval() == old(self).spec_autosave_interval(),
    {
        let key = Self::make_key(name, index);
        let permanent = Self::is_permanent(name);
        if value == 0 {
            self.int_vars.remove(key.as_str());
        } else {
            self.int_vars.insert(key, value);
        }
        if permanent {
            self.dirty = true;
        }
    }

    /// Sets string variable `name` at `index`; none or an empty text unsets
    /// it. Setting a permanent variable marks the store as changed.
    pub fn set_str(&mut self, name: &str, index: u32, value: Option<&str>)
        ensures
            final(self).spec_strs() == (match value {
                Some(s) => if s@.len() > 0 {
                    old(self).spec_strs().insert(spec_make_key(name@, index), s@)
                } else {
                    old(self).spec_strs().remove(spec_make_key(name@, index))
                },
                None => old(self).spec_strs().remove(spec_make_key(name@, index)),
            }),
            final(self).spec_ints() == old(self).spec_ints(),
            final(self).spec_dirty() == (old(self).spec_dirty() || spec_is_permanent(name@)),
            final(self).spec_autosave_interval() == old(self).spec_autosave_interval(),
    {
        let key = Self::make_key(name, index);
        let permanent = Self::is_permanent(name);
        let ghost k = key@;
        match value {
            Some(s) => {
                if s.unicode_len() > 0 {
                    self.str_vars.insert(key, owned(s));
                    proof {
                        assert(self.spec_strs() =~= old(self).spec_strs().insert(k, s@));
                    }
                } else {
                    self.str_vars.remove(key.as_str());
                    proof {
                        assert(self.spec_strs() =~= old(self).spec_strs().remove(k));
                    }
                }
            },
            None => {
                self.str_vars.remove(key.as_str());
                proof {
                    assert(self.spec_strs() =~= old(self).spec_strs().remove(k));
                }
            },
        }
        if permanent {
            self.dirty = true;
        }
    }

    /// Whether there are unsaved changes.
    pub fn is_dirty(&self) -> (b: bool)
        ensures
            b == self.spec_dirty(),
    {
        self.dirty
    }

    /// Marks the store as saved.
    pub fn clear_dirty(&mut self)
        ensures
            !final(self).spec_dirty(),
            final(self).spec_ints() == old(self).spec_ints(),
            final(self).spec_strs() == old(self).spec_strs(),
            final(self).spec_autosave_interval() == old(self).spec_autosave_interval(),
    {
        self.dirty = false;
    }

    /// The integer variables to save: those whose keys are permanent.
    pub fn get_persistent_int_vars(&self) -> (m: StrMap<i64>)
        ensures
            m@ == spec_permanent_part(self.spec_ints()),
    {
        let keys = self.int_vars.key_list();
        let mut m: StrMap<i64> = StrMap::new();
        let mut i: usize = 0;
        while i < keys.len()
            invariant
                i <= keys@.len(),
                forall|j: int| 0 <= j < keys@.len() ==> #[trigger] self.int_vars@.contains_key(keys@[j]@),
                forall|k: Seq<char>| self.int_vars@.contains_key(k) ==> exists|j: int| 0 <= j < keys@.len() && keys@[j]@ == k,
                forall|k: Seq<char>| #[trigger] m@.contains_key(k) ==> self.int_vars@.contains_key(k) && spec_is_permanent(k) && m@[k] == self.int_vars@[k],
                forall|j: int| 0 <= j < i && spec_is_permanent(#[trigger] keys@[j]@) ==> m@.contains_key(keys@[j]@),
            decreases keys@.len() - i,
        {
            let k = &keys[i];
            if Self::is_permanent(k.as_str()) {
                match self.int_vars.get(k.as_str()) {
                    Some(v) => {
                        m.insert(k.clone(), *v);
                    },
                    None => {},
                }
            }
            i = i + 1;
        }
        proof {
            assert forall|k: Seq<char>| #[trigger] m@.contains_key(k) <==> spec_permanent_part(self.int_vars@).contains_key(k) by {
                if spec_permanent_part(self.int_vars@).contains_key(k) {
                    let j = choose|j: int| 0 <= j < keys@.len() && keys@[j]@ == k;
                }
            }
            assert(m@ =~= spec_permanent_part(self.int_vars@));
        }
        m
    }

    /// The string variables to save: those whose keys are permanent.
    pub fn get_persistent_str_vars(&self) -> (m: StrMap<String>)
        ensures
            m@.map_values(|s: String| s@) == spec_permanent_part(self.spec_strs()),
    {
        let keys = self.str_vars.key_list();
        let mut m: StrMap<String> = StrMap::new();
        let mut i: usize = 0;
        while i < keys.len()
            invariant
                i <= keys@.len(),
                forall|j: int| 0 <= j < keys@.len() ==> #[trigger] self.str_vars@.contains_key(keys@[j]@),
                forall|k: Seq<char>| self.str_vars@.contains_key(k) ==> exists|j: int| 0 <= j < keys@.len() && keys@[j]@ == k,
                forall|k: Seq<char>| #[trigger] m@.contains_key(k) ==> self.str_vars@.contains_key(k) && spec_is_permanent(k) && m@[k]@ == self.str_vars@[k]@,
                forall|j: int| 0 <= j < i && spec_is_permanent(#[trigger] keys@[j]@) ==> m@.contains_key(keys@[j]@),
            decreases keys@.len() - i,
        {
            let k = &keys[i];
            if Self::is_permanent(k.as_str()) {
                match self.str_vars.get(k.as_str()) {
                    Some(v) => {
                        m.insert(k.clone(), v.clone());
                    },
                    None => {},
                }
            }
            i = i + 1;
        }
        proof {
            assert forall|k: Seq<char>| m@.contains_key(k) <==> #[trigger] spec_permanent_part(self.spec_strs()).contains_key(k) by {
                if spec_permanent_part(self.spec_strs()).contains_key(k) {
                    let j = choose|j: int| 0 <= j < keys@.len() && keys@[j]@ == k;
                }
            }
            assert(m@.map_values(|s: String| s@) =~= spec_permanent_part(self.spec_strs()));
        }
        m
    }

    /// Loads saved variables over the present ones, skipping zeros and empty
    /// texts, and marks the store as saved.
    pub fn load_from_db(&mut self, int_vars: StrMap<i64>, str_vars: StrMap<String>)
        ensures
            final(self).spec_ints() == spec_loaded(old(self).spec_ints(), int_vars@, |v: i64| v != 0),
            final(self).spec_strs() == spec_loaded(old(self).spec_strs(), str_vars@.map_values(|s: String| s@), |v: Seq<char>| v.len() > 0),
            !final(self).spec_dirty(),
            final(self).spec_autosave_interval() == old(self).spec_autosave_interval(),
    {
        let keys = int_vars.key_list();
        let mut i: usize = 0;
        while i < keys.len()
            invariant
                i <= keys@.len(),
                forall|j: int| 0 <= j < keys@.len() ==> #[trigger] int_vars@.contains_key(keys@[j]@),
                forall|k: Seq<char>| int_vars@.contains_key(k) ==> exists|j: int| 0 <= j < keys@.len() && keys@[j]@ == k,
                self.spec_ints() == spec_loaded(old(self).spec_ints(),
                    int_vars@.restrict(Set::new(|k: Seq<char>| spec_seen(keys@, i as int, k))), |v: i64| v != 0),
                self.str_vars@ == old(self).str_vars@,
                self.autosave_interval == old(self).autosave_interval,
            decreases keys@.len() - i,
        {
            let k = &keys[i];
            let ghost before = self.spec_ints();
            match int_vars.get(k.as_str()) {
                Some(v) => {
                    if *v != 0 {
                        self.int_vars.insert(k.clone(), *v);
                    }
                },
                None => {},
            }
            proof {
                lemma_seen_step(keys@, i as int);
                assert(self.spec_ints() =~= spec_loaded(old(self).spec_ints(),
                    int_vars@.restrict(Set::new(|k2: Seq<char>| spec_seen(keys@, i + 1, k2))), |v: i64| v != 0));
            }
            i = i + 1;
        }
        proof {
            assert forall|k: Seq<char>| int_vars@.contains_key(k) implies #[trigger] spec_seen(keys@, keys@.len() as int, k) by {
                let j = choose|j: int| 0 <= j < keys@.len() && keys@[j]@ == k;
                assert(keys@[j]@ == k);
            }
            assert(int_vars@.restrict(Set::new(|k: Seq<char>| spec_seen(keys@, keys@.len() as int, k))) =~= int_vars@);
        }
        let skeys = str_vars.key_list();
        let mut i: usize = 0;
        let ghost sv = str_vars@.map_values(|s: String| s@);
        while i < skeys.len()
            invariant
                i <= skeys@.len(),
                sv == str_vars@.map_values(|s: String| s@),
                forall|j: int| 0 <= j < skeys@.len() ==> #[trigger] str_vars@.contains_key(skeys@[j]@),
                forall|k: Seq<char>| str_vars@.contains_key(k) ==> exists|j: int| 0 <= j < skeys@.len() && skeys@[j]@ == k,
                self.spec_strs() == spec_loaded(old(self).spec_strs(),
                    sv.restrict(Set::new(|k: Seq<char>| spec_seen(skeys@, i as int, k))), |v: Seq<char>| v.len() > 0),
                self.spec_ints() == spec_loaded(old(self).spec_ints(), int_vars@, |v: i64| v != 0),
                self.autosave_interval == old(self).autosave_interval,
            decreases skeys@.len() - i,
        {
            let k = &skeys[i];
            let ghost before = self.spec_strs();
            match str_vars.get(k.as_str()) {
                Some(v) => {
                    if v.unicode_len() > 0 {
                        let kc = k.clone();
                        let vc = v.clone();
                        assert(vc@ == v@);
                        self.str_vars.insert(kc, vc);
                        assert(self.spec_strs() =~= before.insert(k@, v@));
                        assert(sv[k@] == v@);
                    }
                },
                None => {},
            }
            proof {
                lemma_seen_step(skeys@, i as int);
                assert(self.spec_strs() =~= spec_loaded(old(self).spec_strs(),
                    sv.restrict(Set::new(|k2: Seq<char>| spec_seen(skeys@, i + 1, k2))), |v: Seq<char>| v.len() > 0));
            }
            i = i + 1;
        }
        proof {
            assert forall|k: Seq<char>| sv.contains_key(k) implies #[trigger] spec_seen(skeys@, skeys@.len() as int, k) by {
                let j = choose|j: int| 0 <= j < skeys@.len() && skeys@[j]@ == k;
                assert(skeys@[j]@ == k);
            }
            assert(sv.restrict(Set::new(|k: Seq<char>| spec_seen(skeys@, skeys@.len() as int, k))) =~= sv);
        }
        self.dirty = false;
    }

    /// Forgets every variable and marks the store as saved.
    pub fn clear(&mut self)
        ensures
            final(self).spec_ints() == Map::<Seq<char>, i64>::empty(),
            final(self).spec_strs() == Map::<Seq<char>, Seq<char>>::empty(),
            !final(self).spec_dirty(),
            final(self).spec_autosave_interval() == old(self).spec_autosave_interval(),
    {
        self.int_vars = StrMap::new();
        self.str_vars = StrMap::new();
        self.dirty = false;
        proof {
            assert(self.spec_strs() =~= Map::<Seq<char>, Seq<char>>::empty());
        }
    }

    /// Forgets every variable, then loads the saved ones.
    pub fn reload(&mut self, int_vars: StrMap<i64>, str_vars: StrMap<String>)
        ensures
            final(self).spec_ints() == spec_loaded(Map::<Seq<char>, i64>::empty(), int_vars@, |v: i64| v != 0),
            final(self).spec_strs() == spec_loaded(Map::<Seq<char>, Seq<char>>::empty(), str_vars@.map_values(|s: String| s@), |v: Seq<char>| v.len() > 0),
            !final(self).spec_dirty(),
            final(self).spec_autosave_interval() == old(self).spec_autosave_interval(),
    {
        self.clear();
        self.load_from_db(int_vars, str_vars);
    }

    /// How many integer variables are set.
    pub fn int_count(&self) -> (n: usize)
        ensures
            n == self.spec_ints().len(),
    {
        self.int_vars.len()
    }

    /// How many string variables are set.
    pub fn str_count(&self) -> (n: usize)
        ensures
            n == self.spec_strs().len(),
    {
        proof {
            assert(self.spec_strs().dom() =~= self.str_vars@.dom());
        }
        self.str_vars.len()
    }

    /// Seconds between automatic saves.
    pub fn autosave_interval(&self) -> (s: u64)
        ensures
            s == self.spec_autosave_interval(),
    {
        self.autosave_interval
    }
}

impl Default for MapRegStore {
    fn default() -> (s: Self)
        ensures
            s.spec_ints() == Map::<Seq<char>, i64>::empty(),
            s.spec_strs() == Map::<Seq<char>, Seq<char>>::empty(),
            !s.spec_dirty(),
            s.spec_autosave_interval() == 300,
    {
        MapRegStore::new()
    }
}

} // verus!
