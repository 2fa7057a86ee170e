//! Item definitions: what an item is called, where it belongs and which
//! components it carries.

use vstd::prelude::*;
use serde_json::Value;
use crate::text::{
    ascii_case_eq, eq_ignore_ascii_case, has_prefix, strip_prefix,
};

verus! {

/// A JSON value is carried through the library without being inspected.
#[verifier::external_type_specification]
#[verifier::external_body]
pub struct ExJsonValue(Value);

/// `<serde_json::Value as Clone>::clone`: `Value` derives `Clone`, which copies
/// the whole tree, so the copy is the same value.
#[verifier::external_body]
pub(crate) fn clone_json_value(v: &Value) -> (r: Value)
    ensures
        r == *v,
{
    v.clone()
}

/// The definition of an item. `components` holds the item's components by
/// name, each name at most once (`ItemDefView::wf`), in the order in which they were read.
#[derive(Debug)]
pub struct ItemDef {
    pub name: String,
    pub namespace: String,
    pub categories: Vec<String>,
    pub icon: Option<String>,
    pub components: Vec<(String, Value)>,
}

/// The mathematical content of an [`ItemDef`].
#[verifier::ext_equal]
pub struct ItemDefView {
    pub name: Seq<char>,
    pub namespace: Seq<char>,
    pub categories: Seq<Seq<char>>,
    pub icon: Option<Seq<char>>,
    pub components: Seq<(Seq<char>, Value)>,
}

pub open spec fn opt_string_view(o: Option<String>) -> Option<Seq<char>> {
    match o {
        Some(s) => Some(s@),
        None => None,
    }
}

impl View for ItemDef {
    type V = ItemDefView;

    open spec fn view(&self) -> ItemDefView {
        ItemDefView {
            name: self.name@,
            namespace: self.namespace@,
            categories: self.categories@.map_values(|c: String| c@),
            icon: opt_string_view(self.icon),
            components: self.components@.map_values(|p: (String, Value)| (p.0@, p.1)),
        }
    }
}

/// The prefix that marks an icon as a sprite resource.
pub open spec fn sprite_prefix() -> Seq<char> {
    seq!['s', 'p', 'r', 'i', 't', 'e', ':']
}

impl ItemDefView {
    /// No component name occurs twice, as in the map of components that a
    /// definition file holds.
    pub open spec fn wf(self) -> bool {
        forall|i: int, j: int|
            0 <= i < self.components.len() && 0 <= j < self.components.len() && i != j
                ==> #[trigger] self.components[i].0 != #[trigger] self.components[j].0
    }

    /// `namespace:name`, the id under which the item is registered.
    pub open spec fn qualified_id(self) -> Seq<char> {
        self.namespace + seq![':'] + self.name
    }

    /// The sprite name of a `sprite:<name>` icon with a non-empty name.
    pub open spec fn sprite_icon(self) -> Option<Seq<char>> {
        match self.icon {
            Some(icon) => if has_prefix(icon, sprite_prefix()) && icon.len() > sprite_prefix().len() {
                Some(icon.skip(sprite_prefix().len() as int))
            } else {
                None
            },
            None => None,
        }
    }

    /// The component at `i` is named `name`, ignoring ASCII case.
    pub open spec fn component_matches(self, i: int, name: Seq<char>) -> bool {
        0 <= i < self.components.len() && ascii_case_eq(self.components[i].0, name)
    }

    /// Some component is named `name`, ignoring ASCII case.
    pub open spec fn has_component(self, name: Seq<char>) -> bool {
        exists|i: int| self.component_matches(i, name)
    }

    /// `i` is the first component named `name`, ignoring ASCII case.
    pub open spec fn first_component(self, i: int, name: Seq<char>) -> bool {
        &&& self.component_matches(i, name)
        &&& forall|j: int| 0 <= j < i ==> !self.component_matches(j, name)
    }
}

/// A copy of a list of strings.
fn clone_strings(v: &Vec<String>) -> (r: Vec<String>)
    ensures
        r@.map_values(|c: String| c@) == v@.map_values(|c: String| c@),
{
    let mut r: Vec<String> = Vec::new();
    let mut i: usize = 0;
    while i < v.len()
        invariant
            i <= v@.len(),
            r@.len() == i,
            forall|j: int| 0 <= j < i ==> #[trigger] r@[j]@ == v@[j]@,
        decreases v@.len() - i,
    {
        r.push(v[i].clone());
        i = i + 1;
    }
    assert(r@.map_values(|c: String| c@) =~= v@.map_values(|c: String| c@));
    r
}

/// A copy of a list of named components.
fn clone_components(v: &Vec<(String, Value)>) -> (r: Vec<(String, Value)>)
    ensures
        r@.map_values(|p: (String, Value)| (p.0@, p.1)) == v@.map_values(
            |p: (String, Value)| (p.0@, p.1),
        ),
{
    let mut r: Vec<(String, Value)> = Vec::new();
    let mut i: usize = 0;
    while i < v.len()
        invariant
            i <= v@.len(),
            r@.len() == i,
            forall|j: int| 0 <= j < i ==> #[trigger] r@[j].0@ == v@[j].0@ && r@[j].1 == v@[j].1,
        decreases v@.len() - i,
    {
        let key = v[i].0.clone();
        let value = clone_json_value(&v[i].1);
        r.push((key, value));
        i = i + 1;
    }
    assert(r@.map_values(|p: (String, Value)| (p.0@, p.1)) =~= v@.map_values(
        |p: (String, Value)| (p.0@, p.1),
    ));
    r
}

impl Clone for ItemDef {
    fn clone(&self) -> (r: Self)
        ensures
            r@ == self@,
            self@.wf() ==> r@.wf(),
    {
        let icon = match &self.icon {
            Some(s) => Some(s.clone()),
            None => None,
        };
        ItemDef {
            name: self.name.clone(),
            namespace: self.namespace.clone(),
            categories: clone_strings(&self.categories),
            icon,
            components: clone_components(&self.components),
        }
    }
}

impl ItemDef {
    /// `namespace:name`.
    pub fn qualified_id(&self) -> (r: String)
        ensures
            r@ == self@.qualified_id(),
    {
        let mut id = self.namespace.clone();
        id.append(":");
        id.append(self.name.as_str());
        proof {
            reveal_strlit(":");
        }
        id
    }

    /// The sprite name when the icon reads `sprite:<name>` with a non-empty
    /// name, e.g. `"sprite:mana_crystal"` gives `Some("mana_crystal")`.
    pub fn sprite_icon(&self) -> (r: Option<&str>)
        ensures
            match r {
                Some(s) => self@.sprite_icon() == Some(s@),
                None => self@.sprite_icon() is None,
            },
    {
        proof {
            reveal_strlit("sprite:");
            assert("sprite:"@ =~= sprite_prefix());
        }
        match &self.icon {
            None => None,
            Some(icon) => {
                match strip_prefix(icon.as_str(), "sprite:") {
                    Some(rest) => {
                        if rest.is_empty() {
                            None
                        } else {
                            Some(rest)
                        }
                    },
                    None => None,
                }
            },
        }
    }

    /// Whether a component of this name is present, ignoring ASCII case.
    pub fn has_component(&self, name: &str) -> (r: bool)
        ensures
            r == self@.has_component(name@),
    {
        let n = self.components.len();
        let mut i: usize = 0;
        while i < n
            invariant
                n == self.components@.len(),
                i <= n,
                forall|j: int| 0 <= j < i ==> !self@.component_matches(j, name@),
            decreases n - i,
        {
            if eq_ignore_ascii_case(self.components[i].0.as_str(), name) {
                assert(self@.component_matches(i as int, name@));
                return true;
            }
            i = i + 1;
        }
        false
    }

    /// The value of the first component of this name, ignoring ASCII case.
    pub fn get_component(&self, name: &str) -> (r: Option<&Value>)
        ensures
            match r {
                Some(v) => exists|i: int|
                    self@.first_component(i, name@) && *v == #[trigger] self@.components[i].1,
                None => !self@.has_component(name@),
            },
    {
        let n = self.components.len();
        let mut i: usize = 0;
        while i < n
            invariant
                n == self.components@.len(),
                i <= n,
                forall|j: int| 0 <= j < i ==> !self@.component_matches(j, name@),
            decreases n - i,
        {
            if eq_ignore_ascii_case(self.components[i].0.as_str(), name) {
                assert(self@.first_component(i as int, name@));
                assert(self.components@[i as int].1 == self@.components[i as int].1);
                return Some(&self.components[i].1);
            }
            i = i + 1;
        }
        None
    }
}

/// A component of some name is present exactly when there is a first one of
/// that name, so that the lookup of a component agrees with the test for it.
pub proof fn lemma_component_lookup_agrees(def: ItemDefView, name: Seq<char>)
    ensures
        def.has_component(name) <==> exists|i: int| def.first_component(i, name),
{
    if def.has_component(name) {
        let k = choose|k: int| def.component_matches(k, name);
        lemma_first_match_below(def, name, k);
    }
}

/// Below a match there is a first match.
proof fn lemma_first_match_below(def: ItemDefView, name: Seq<char>, k: int)
    requires
        def.component_matches(k, name),
    ensures
        exists|i: int| def.first_component(i, name),
    decreases k,
{
    if exists|j: int| 0 <= j < k && def.component_matches(j, name) {
        let j = choose|j: int| 0 <= j < k && def.component_matches(j, name);
        lemma_first_match_below(def, name, j);
    } else {
        assert(def.first_component(k, name));
    }
}

/// A sprite name is what follows `sprite:` in the icon, and it is never empty;
/// there is none when the icon is missing, does not start with `sprite:`, or
/// is `sprite:` alone.
pub proof fn lemma_sprite_icon_reads_after_prefix(def: ItemDefView)
    ensures
        def.sprite_icon() matches Some(name) ==> def.icon == Some(sprite_prefix() + name)
            && name.len() > 0,
        def.icon is None ==> def.sprite_icon() is None,
        def.icon matches Some(icon) ==> (def.sprite_icon() is None <==> (!has_prefix(
            icon,
            sprite_prefix(),
        ) || icon.len() == sprite_prefix().len())),
{
    if let Some(icon) = def.icon {
        if let Some(name) = def.sprite_icon() {
            assert(icon =~= sprite_prefix() + name);
        }
    }
}

} // verus!
