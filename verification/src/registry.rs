//! The registry of item definitions, keyed by their qualified ids.

use vstd::prelude::*;
use crate::item::{ItemDef, ItemDefView};
use crate::text::{ascii_case_eq, eq_ignore_ascii_case, str_eq};

verus! {

/// Bumped when definitions change so that clients know to resync.
pub const REGISTRY_VERSION: u32 = 1;

/// The views of a list of strings.
pub open spec fn string_views(v: Seq<String>) -> Seq<Seq<char>> {
    v.map_values(|s: String| s@)
}

/// The views of a list of item definitions.
pub open spec fn def_views(v: Seq<ItemDef>) -> Seq<ItemDefView> {
    v.map_values(|d: ItemDef| d@)
}

/// `i` is the first registered name equal to `name`.
pub open spec fn first_exact(registered: Seq<Seq<char>>, name: Seq<char>, i: int) -> bool {
    &&& 0 <= i < registered.len()
    &&& registered[i] == name
    &&& forall|j: int| 0 <= j < i ==> registered[j] != name
}

/// `i` is the first registered name equal to `name` when ASCII case is ignored.
pub open spec fn first_case_insensitive(registered: Seq<Seq<char>>, name: Seq<char>, i: int) -> bool {
    &&& 0 <= i < registered.len()
    &&& ascii_case_eq(registered[i], name)
    &&& forall|j: int| 0 <= j < i ==> !ascii_case_eq(registered[j], name)
}

/// Some registered name equals `name` exactly.
pub open spec fn registered_exactly(registered: Seq<Seq<char>>, name: Seq<char>) -> bool {
    exists|i: int| 0 <= i < registered.len() && registered[i] == name
}

/// Some registered name equals `name` when ASCII case is ignored.
pub open spec fn component_known(registered: Seq<Seq<char>>, name: Seq<char>) -> bool {
    exists|i: int| 0 <= i < registered.len() && ascii_case_eq(registered[i], name)
}

/// Every component of `def` names a registered component.
pub open spec fn def_components_known(registered: Seq<Seq<char>>, def: ItemDefView) -> bool {
    forall|c: int| 0 <= c < def.components.len() ==> component_known(registered, #[trigger] def.components[c].0)
}

/// `c` is the first component of `def` that names no registered component.
pub open spec fn first_unknown_component(registered: Seq<Seq<char>>, def: ItemDefView, c: int) -> bool {
    &&& 0 <= c < def.components.len()
    &&& !component_known(registered, def.components[c].0)
    &&& forall|b: int| 0 <= b < c ==> component_known(registered, #[trigger] def.components[b].0)
}

/// `i` is the first definition that has an unknown component.
pub open spec fn first_invalid_def(registered: Seq<Seq<char>>, defs: Seq<ItemDefView>, i: int) -> bool {
    &&& 0 <= i < defs.len()
    &&& !def_components_known(registered, defs[i])
    &&& forall|j: int| 0 <= j < i ==> def_components_known(registered, #[trigger] defs[j])
}

/// The map that results from registering `defs` in order under their
/// qualified ids, a later definition replacing an earlier one with the same id.
pub open spec fn registry_of(defs: Seq<ItemDefView>) -> Map<Seq<char>, ItemDefView>
    decreases defs.len(),
{
    if defs.len() == 0 {
        Map::empty()
    } else {
        registry_of(defs.drop_last()).insert(defs.last().qualified_id(), defs.last())
    }
}

/// Finds a registered component type by name: the first exact match if there
/// is one, else the first match that ignores ASCII case.
pub fn find_registration_by_case(registered: &Vec<String>, name: &str) -> (r: Option<usize>)
    ensures
        match r {
            Some(i) => if registered_exactly(string_views(registered@), name@) {
                first_exact(string_views(registered@), name@, i as int)
            } else {
                first_case_insensitive(string_views(registered@), name@, i as int)
            },
            None => !component_known(string_views(registered@), name@),
        },
{
    let ghost names = string_views(registered@);
    let n = registered.len();
    let mut i: usize = 0;
    while i < n
        invariant
            n == registered@.len(),
            names == string_views(registered@),
            i <= n,
            forall|j: int| 0 <= j < i ==> names[j] != name@,
        decreases n - i,
    {
        if str_eq(registered[i].as_str(), name) {
            assert(first_exact(names, name@, i as int));
            return Some(i);
        }
        i = i + 1;
    }
    assert(!registered_exactly(names, name@));
    let mut i: usize = 0;
    while i < n
        invariant
            n == registered@.len(),
            names == string_views(registered@),
            !registered_exactly(names, name@),
            i <= n,
            forall|j: int| 0 <= j < i ==> !ascii_case_eq(names[j], name@),
        decreases n - i,
    {
        if eq_ignore_ascii_case(registered[i].as_str(), name) {
            assert(first_case_insensitive(names, name@, i as int));
            return Some(i);
        }
        i = i + 1;
    }
    None
}

/// Why a set of item definitions could not be registered.
#[derive(Debug)]
pub enum RegistryError {
    /// The item with this qualified id names a component that is not registered.
    UnknownComponent { item: String, component: String },
}

impl RegistryError {
    /// The error's message.
    pub fn message(&self) -> (r: String)
        ensures
            match self {
                RegistryError::UnknownComponent { item, component } => r@ == "item '"@ + item@
                    + "' references unknown component '"@ + component@ + "'"@,
            },
    {
        match self {
            RegistryError::UnknownComponent { item, component } => {
                let mut m = String::new();
                m.append("item '");
                m.append(item.as_str());
                m.append("' references unknown component '");
                m.append(component.as_str());
                m.append("'");
                m
            },
        }
    }
}

/// The registry of item definitions under their ids. Lookups go by the first
/// entry with an id; the registry keeps each id at most once (`wf`).
#[derive(Debug)]
pub struct GameRegistry {
    pub version: u32,
    pub items: Vec<(String, ItemDef)>,
}

impl GameRegistry {
    /// The id stored at `i`.
    pub open spec fn key_at(&self, i: int) -> Seq<char> {
        self.items@[i].0@
    }

    /// No id occurs twice.
    pub open spec fn wf(&self) -> bool {
        forall|i: int, j: int|
            0 <= i < self.items@.len() && 0 <= j < self.items@.len() && i != j ==> self.key_at(i)
                != self.key_at(j)
    }

    /// Some entry is stored under `id`.
    pub open spec fn has_id(&self, id: Seq<char>) -> bool {
        exists|i: int| 0 <= i < self.items@.len() && self.key_at(i) == id
    }

    /// `i` is the first entry stored under `id`.
    pub open spec fn is_first(&self, id: Seq<char>, i: int) -> bool {
        &&& 0 <= i < self.items@.len()
        &&& self.key_at(i) == id
        &&& forall|j: int| 0 <= j < i ==> self.key_at(j) != id
    }

    /// The position of the first entry stored under `id`.
    pub open spec fn index_of(&self, id: Seq<char>) -> int {
        choose|i: int| self.is_first(id, i)
    }

    /// The first entry under an id is where `index_of` points.
    pub proof fn lemma_index_of(&self, id: Seq<char>, i: int)
        requires
            self.is_first(id, i),
        ensures
            self.has_id(id),
            self.index_of(id) == i,
    {
        let k = self.index_of(id);
        assert(self.is_first(id, k));
        if k < i {
            assert(self.key_at(k) != id);
        }
        if i < k {
            assert(self.key_at(i) != id);
        }
    }

    /// An id that is stored somewhere has a first entry.
    pub proof fn lemma_first_exists(&self, id: Seq<char>, k: int)
        requires
            0 <= k < self.items@.len(),
            self.key_at(k) == id,
        ensures
            self.is_first(id, self.index_of(id)),
        decreases k,
    {
        if exists|j: int| 0 <= j < k && self.key_at(j) == id {
            let j = choose|j: int| 0 <= j < k && self.key_at(j) == id;
            self.lemma_first_exists(id, j);
        } else {
            assert(self.is_first(id, k));
            self.lemma_index_of(id, k);
        }
    }
}

impl View for GameRegistry {
    type V = Map<Seq<char>, ItemDefView>;

    open spec fn view(&self) -> Map<Seq<char>, ItemDefView> {
        Map::new(|id: Seq<char>| self.has_id(id), |id: Seq<char>| self.items@[self.index_of(id)].1@)
    }
}

/// Two registries with the same ids in the same places, and the same
/// definitions at those places, have the same view.
pub proof fn lemma_same_entries_same_view(a: GameRegistry, b: GameRegistry)
    requires
        a.items@.len() == b.items@.len(),
        forall|i: int|
            0 <= i < a.items@.len() ==> #[trigger] a.key_at(i) == b.key_at(i) && a.items@[i].1@
                == b.items@[i].1@,
    ensures
        a@ == b@,
{
    assert forall|id: Seq<char>| a.has_id(id) <==> b.has_id(id) by {
        if a.has_id(id) {
            let j = choose|j: int| 0 <= j < a.items@.len() && a.key_at(j) == id;
            assert(b.key_at(j) == id);
        }
        if b.has_id(id) {
            let j = choose|j: int| 0 <= j < b.items@.len() && b.key_at(j) == id;
            assert(a.key_at(j) == id);
        }
    }
    assert forall|id: Seq<char>| #[trigger] a@.contains_key(id) implies a@[id] == b@[id] by {
        let j = choose|j: int| 0 <= j < a.items@.len() && a.key_at(j) == id;
        a.lemma_first_exists(id, j);
        let f = a.index_of(id);
        assert forall|k: int| 0 <= k < f implies b.key_at(k) != id by {
            assert(a.key_at(k) != id);
        }
        assert(b.is_first(id, f));
        b.lemma_index_of(id, f);
    }
    assert(a@ =~= b@);
}

impl Default for GameRegistry {
    fn default() -> (r: Self)
        ensures
            r.version == 0,
            r.items@.len() == 0,
            r.wf(),
            r@ == Map::<Seq<char>, ItemDefView>::empty(),
    {
        let r = GameRegistry { version: 0, items: Vec::new() };
        assert(r@ =~= Map::<Seq<char>, ItemDefView>::empty());
        r
    }
}

impl Clone for GameRegistry {
    fn clone(&self) -> (r: Self)
        ensures
            r.version == self.version,
            r.items@.len() == self.items@.len(),
            forall|i: int|
                0 <= i < self.items@.len() ==> #[trigger] r.key_at(i) == self.key_at(i)
                    && r.items@[i].1@ == self.items@[i].1@,
            self.wf() ==> r.wf(),
            r@ == self@,
    {
        let mut items: Vec<(String, ItemDef)> = Vec::new();
        let n = self.items.len();
        let mut i: usize = 0;
        while i < n
            invariant
                n == self.items@.len(),
                i <= n,
                items@.len() == i,
                forall|j: int| 0 <= j < i ==> #[trigger] items@[j].0@ == self.items@[j].0@,
                forall|j: int| 0 <= j < i ==> #[trigger] items@[j].1@ == self.items@[j].1@,
            decreases n - i,
        {
            let key = self.items[i].0.clone();
            let def = self.items[i].1.clone();
            let ghost prev = items@;
            items.push((key, def));
            assert(items@ == prev.push(items@[i as int]));
            assert(items@[i as int].0@ == self.items@[i as int].0@);
            assert forall|j: int| 0 <= j < i + 1 implies #[trigger] items@[j].0@ == self.items@[j].0@ by {
                if j < i {
                    assert(prev[j].0@ == self.items@[j].0@);
                }
            }
            i = i + 1;
        }
        let r = GameRegistry { version: self.version, items };
        proof {
            assert forall|a: int| 0 <= a < self.items@.len() implies #[trigger] r.key_at(a)
                == self.key_at(a) && r.items@[a].1@ == self.items@[a].1@ by {}
            if self.wf() {
                assert forall|a: int, b: int|
                    0 <= a < r.items@.len() && 0 <= b < r.items@.len() && a != b implies r.key_at(a)
                    != r.key_at(b) by {
                    assert(r.key_at(a) == self.key_at(a));
                    assert(r.key_at(b) == self.key_at(b));
                }
            }
            lemma_same_entries_same_view(r, *self);
        }
        r
    }
}

impl GameRegistry {
    /// The definition registered under `id`.
    pub fn item(&self, id: &str) -> (r: Option<&ItemDef>)
        ensures
            match r {
                Some(def) => self@.contains_key(id@) && def@ == self@[id@],
                None => !self@.contains_key(id@),
            },
    {
        let n = self.items.len();
        let mut i: usize = 0;
        while i < n
            invariant
                n == self.items@.len(),
                i <= n,
                forall|j: int| 0 <= j < i ==> self.key_at(j) != id@,
            decreases n - i,
        {
            if str_eq(self.items[i].0.as_str(), id) {
                proof {
                    assert(self.is_first(id@, i as int));
                    self.lemma_index_of(id@, i as int);
                }
                return Some(&self.items[i].1);
            }
            i = i + 1;
        }
        None
    }

    /// Registers `def` under `id`, replacing what was registered under it.
    pub fn insert(&mut self, id: String, def: ItemDef)
        ensures
            old(self).wf() ==> final(self).wf(),
            final(self).version == old(self).version,
            final(self)@ == old(self)@.insert(id@, def@),
    {
        let ghost old_reg = *self;
        let ghost key = id@;
        let ghost value = def@;
        let n = self.items.len();
        let mut i: usize = 0;
        while i < n
            invariant
                *self == old_reg,
                old_reg == *old(self),
                key == id@,
                value == def@,
                n == self.items@.len(),
                i <= n,
                forall|j: int| 0 <= j < i ==> self.key_at(j) != key,
            decreases n - i,
        {
            if str_eq(self.items[i].0.as_str(), id.as_str()) {
                self.items.set(i, (id, def));
                proof {
                    let ghost new_reg = *self;
                    assert(old_reg.is_first(key, i as int));
                    assert forall|j: int| 0 <= j < n implies #[trigger] new_reg.key_at(j)
                        == old_reg.key_at(j) by {}
                    assert(new_reg.is_first(key, i as int));
                    new_reg.lemma_index_of(key, i as int);
                    assert forall|k: Seq<char>| #[trigger] new_reg@.contains_key(k)
                        <==> old_reg@.insert(key, value).contains_key(k) by {
                        if new_reg.has_id(k) {
                            let j = choose|j: int| 0 <= j < n && new_reg.key_at(j) == k;
                            assert(old_reg.key_at(j) == k);
                        }
                        if old_reg.has_id(k) {
                            let j = choose|j: int| 0 <= j < n && old_reg.key_at(j) == k;
                            assert(new_reg.key_at(j) == k);
                        }
                    }
                    assert forall|k: Seq<char>| #[trigger] new_reg@.contains_key(k) && k != key
                        implies new_reg@[k] == old_reg@[k] by {
                        let j = choose|j: int| 0 <= j < n && new_reg.key_at(j) == k;
                        new_reg.lemma_first_exists(k, j);
                        let f = new_reg.index_of(k);
                        assert forall|b: int| 0 <= b < f implies old_reg.key_at(b) != k by {
                            assert(new_reg.key_at(b) != k);
                        }
                        assert(old_reg.is_first(k, f));
                        old_reg.lemma_index_of(k, f);
                        assert(f != i);
                    }
                    assert(new_reg@ =~= old_reg@.insert(key, value));
                    if old_reg.wf() {
                        assert forall|a: int, b: int|
                            0 <= a < n && 0 <= b < n && a != b implies new_reg.key_at(a)
                            != new_reg.key_at(b) by {
                            assert(new_reg.key_at(a) == old_reg.key_at(a));
                            assert(new_reg.key_at(b) == old_reg.key_at(b));
                        }
                    }
                }
                return;
            }
            i = i + 1;
        }
        self.items.push((id, def));
        proof {
            let ghost new_reg = *self;
            assert forall|j: int| 0 <= j < n implies #[trigger] new_reg.key_at(j) == old_reg.key_at(j)
                && new_reg.items@[j] == old_reg.items@[j] by {}
            assert(new_reg.key_at(n as int) == key);
            assert(new_reg.is_first(key, n as int));
            new_reg.lemma_index_of(key, n as int);
            assert forall|k: Seq<char>| #[trigger] new_reg@.contains_key(k)
                <==> old_reg@.insert(key, value).contains_key(k) by {
                if new_reg.has_id(k) && k != key {
                    let j = choose|j: int| 0 <= j < n + 1 && new_reg.key_at(j) == k;
                    assert(old_reg.key_at(j) == k);
                }
                if old_reg.has_id(k) {
                    let j = choose|j: int| 0 <= j < n && old_reg.key_at(j) == k;
                    assert(new_reg.key_at(j) == k);
                }
            }
            assert forall|k: Seq<char>| #[trigger] new_reg@.contains_key(k) && k != key implies new_reg@[k]
                == old_reg@[k] by {
                let j = choose|j: int| 0 <= j < n + 1 && new_reg.key_at(j) == k;
                assert(j < n);
                old_reg.lemma_first_exists(k, j);
                let f = old_reg.index_of(k);
                assert forall|b: int| 0 <= b < f implies new_reg.key_at(b) != k by {
                    assert(old_reg.key_at(b) != k);
                }
                assert(new_reg.is_first(k, f));
                new_reg.lemma_index_of(k, f);
            }
            assert(new_reg@ =~= old_reg@.insert(key, value));
            if old_reg.wf() {
                assert forall|a: int, b: int|
                    0 <= a < n + 1 && 0 <= b < n + 1 && a != b implies new_reg.key_at(a)
                    != new_reg.key_at(b) by {
                    if a < n {
                        assert(new_reg.key_at(a) == old_reg.key_at(a));
                    }
                    if b < n {
                        assert(new_reg.key_at(b) == old_reg.key_at(b));
                    }
                }
            }
        }
    }
}

impl GameRegistry {
    /// Registers `defs` in order under their qualified ids, a later definition
    /// replacing an earlier one with the same id, after checking that every
    /// component they name is among the `registered` component types (ignoring
    /// ASCII case). The first definition, in order, that names an unknown
    /// component stops the registration with an error.
    pub fn from_defs(defs: Vec<ItemDef>, registered: &Vec<String>) -> (r: Result<
        GameRegistry,
        RegistryError,
    >)
        ensures
            match r {
                Ok(reg) => {
                    &&& reg.wf()
                    &&& reg.version == REGISTRY_VERSION
                    &&& reg@ == registry_of(def_views(defs@))
                    &&& forall|i: int|
                        0 <= i < defs@.len() ==> def_components_known(
                            string_views(registered@),
                            #[trigger] def_views(defs@)[i],
                        )
                },
                Err(RegistryError::UnknownComponent { item, component }) => exists|i: int, c: int|
                    {
                        &&& first_invalid_def(string_views(registered@), def_views(defs@), i)
                        &&& first_unknown_component(
                            string_views(registered@),
                            def_views(defs@)[i],
                            c,
                        )
                        &&& item@ == def_views(defs@)[i].qualified_id()
                        &&& component@ == #[trigger] def_views(defs@)[i].components[c].0
                    },
            },
    {
        let ghost names = string_views(registered@);
        let ghost dv = def_views(defs@);
        let mut registry = GameRegistry { version: REGISTRY_VERSION, items: Vec::new() };
        assert(registry@ =~= Map::empty());
        assert(dv.take(0) =~= Seq::<ItemDefView>::empty());
        let n = defs.len();
        let mut i: usize = 0;
        while i < n
            invariant
                n == defs@.len(),
                names == string_views(registered@),
                dv == def_views(defs@),
                i <= n,
                registry.wf(),
                registry.version == REGISTRY_VERSION,
                registry@ == registry_of(dv.take(i as int)),
                forall|j: int| 0 <= j < i ==> def_components_known(names, #[trigger] dv[j]),
            decreases n - i,
        {
            let def = &defs[i];
            assert(def@ == dv[i as int]);
            let m = def.components.len();
            let mut c: usize = 0;
            while c < m
                invariant
                    m == def@.components.len(),
                    def@ == dv[i as int],
                    names == string_views(registered@),
                    dv == def_views(defs@),
                    i < n,
                    n == defs@.len(),
                    c <= m,
                    forall|j: int| 0 <= j < i ==> def_components_known(names, #[trigger] dv[j]),
                    forall|b: int| 0 <= b < c ==> component_known(names, #[trigger] def@.components[b].0),
                decreases m - c,
            {
                assert(def.components@[c as int].0@ == def@.components[c as int].0);
                if find_registration_by_case(registered, def.components[c].0.as_str()).is_none() {
                    let item = def.qualified_id();
                    let component = def.components[c].0.clone();
                    assert(first_invalid_def(names, dv, i as int));
                    assert(first_unknown_component(names, dv[i as int], c as int));
                    return Err(RegistryError::UnknownComponent { item, component });
                }
                c = c + 1;
            }
            let d = def.clone();
            let id = d.qualified_id();
            registry.insert(id, d);
            assert(dv.take(i + 1).drop_last() =~= dv.take(i as int));
            i = i + 1;
        }
        assert(dv.take(n as int) =~= dv);
        Ok(registry)
    }
}

/// Registering definitions in order keeps exactly the ids of the definitions,
/// and under each id the last definition that has it.
pub proof fn lemma_registry_holds_last_definition(defs: Seq<ItemDefView>, id: Seq<char>)
    ensures
        registry_of(defs).contains_key(id) <==> exists|i: int|
            0 <= i < defs.len() && #[trigger] defs[i].qualified_id() == id,
        forall|i: int|
            0 <= i < defs.len() && #[trigger] defs[i].qualified_id() == id && (forall|j: int|
                i < j < defs.len() ==> #[trigger] defs[j].qualified_id() != id) ==> registry_of(defs)[id]
                == defs[i],
    decreases defs.len(),
{
    if defs.len() > 0 {
        let init = defs.drop_last();
        lemma_registry_holds_last_definition(init, id);
        let last = (defs.len() - 1) as int;
        if registry_of(defs).contains_key(id) && defs.last().qualified_id() != id {
            let i = choose|i: int| 0 <= i < init.len() && #[trigger] init[i].qualified_id() == id;
            assert(defs[i].qualified_id() == id);
        }
        if exists|i: int| 0 <= i < defs.len() && #[trigger] defs[i].qualified_id() == id {
            let i = choose|i: int| 0 <= i < defs.len() && #[trigger] defs[i].qualified_id() == id;
            if i < last {
                assert(init[i].qualified_id() == id);
            }
        }
        assert forall|i: int|
            0 <= i < defs.len() && #[trigger] defs[i].qualified_id() == id && (forall|j: int|
                i < j < defs.len() ==> #[trigger] defs[j].qualified_id() != id) implies registry_of(defs)[id]
                == defs[i] by {
            if i < last {
                assert(defs[last].qualified_id() != id);
                assert(init[i].qualified_id() == id);
                assert forall|j: int| i < j < init.len() implies #[trigger] init[j].qualified_id() != id by {
                    assert(defs[j].qualified_id() != id);
                }
            }
        }
    }
}

} // verus!
