use game::item::ItemDef;
use game::registry::{find_registration_by_case, GameRegistry, RegistryError, REGISTRY_VERSION};
use game::state::GameContext;
use serde_json::Value;

fn def(namespace: &str, name: &str, components: &[&str]) -> ItemDef {
    ItemDef {
        name: name.to_string(),
        namespace: namespace.to_string(),
        categories: vec!["weapon".to_string()],
        icon: None,
        components: components.iter().map(|c| (c.to_string(), Value::Null)).collect(),
    }
}

fn names(v: &[&str]) -> Vec<String> {
    v.iter().map(|s| s.to_string()).collect()
}

#[test]
fn registration_prefers_the_exact_name() {
    let reg = names(&["consumable", "Consumable", "CanStack"]);
    assert_eq!(find_registration_by_case(&reg, "Consumable"), Some(1));
    assert_eq!(find_registration_by_case(&reg, "CONSUMABLE"), Some(0));
    assert_eq!(find_registration_by_case(&reg, "canstack"), Some(2));
    assert_eq!(find_registration_by_case(&reg, "Enchantment"), None);
}

#[test]
fn registry_finds_items_by_qualified_id() {
    let reg = names(&["Consumable"]);
    let r = GameRegistry::from_defs(
        vec![def("apostasy", "Iron Sword", &[]), def("apostasy", "Potion", &["consumable"])],
        &reg,
    )
    .unwrap();
    assert_eq!(r.version, REGISTRY_VERSION);
    assert_eq!(r.version, 1);
    assert_eq!(r.items.len(), 2);
    assert_eq!(r.item("apostasy:Iron Sword").unwrap().name, "Iron Sword");
    assert_eq!(r.item("apostasy:Potion").unwrap().name, "Potion");
    assert!(r.item("apostasy:iron sword").is_none());
    assert!(r.item("Iron Sword").is_none());
}

#[test]
fn later_definitions_replace_earlier_ones() {
    let mut first = def("apostasy", "Iron Sword", &[]);
    first.categories = vec!["misc".to_string()];
    let r = GameRegistry::from_defs(vec![first, def("apostasy", "Iron Sword", &[])], &Vec::new())
        .unwrap();
    assert_eq!(r.items.len(), 1);
    assert_eq!(r.item("apostasy:Iron Sword").unwrap().categories, vec!["weapon".to_string()]);
}

#[test]
fn unknown_components_are_refused() {
    let reg = names(&["Consumable"]);
    let err = GameRegistry::from_defs(
        vec![
            def("apostasy", "Potion", &["Consumable"]),
            def("apostasy", "Ring", &["consumable", "Enchantment", "Glow"]),
            def("apostasy", "Lamp", &["Glow"]),
        ],
        &reg,
    )
    .unwrap_err();
    match &err {
        RegistryError::UnknownComponent { item, component } => {
            assert_eq!(item, "apostasy:Ring");
            assert_eq!(component, "Enchantment");
        }
    }
    assert_eq!(
        err.message(),
        "item 'apostasy:Ring' references unknown component 'Enchantment'"
    );
}

#[test]
fn empty_registry() {
    let r = GameRegistry::from_defs(Vec::new(), &Vec::new()).unwrap();
    assert_eq!(r.version, 1);
    assert!(r.items.is_empty());
    let d = GameRegistry::default();
    assert_eq!(d.version, 0);
    assert!(d.item("apostasy:Iron Sword").is_none());
}

#[test]
fn insert_then_item_reads_back() {
    let mut r = GameRegistry::default();
    r.insert("a:x".to_string(), def("a", "x", &[]));
    r.insert("a:y".to_string(), def("a", "y", &[]));
    r.insert("a:x".to_string(), def("a", "z", &[]));
    assert_eq!(r.items.len(), 2);
    assert_eq!(r.item("a:x").unwrap().name, "z");
    assert_eq!(r.item("a:y").unwrap().name, "y");
}

#[test]
fn game_context_holds_a_registry() {
    let ctx = GameContext::default();
    assert!(ctx.registry.items.is_empty());
}

#[test]
fn lookups_take_the_first_entry_of_an_id() {
    let r = GameRegistry {
        version: 1,
        items: vec![
            ("a:x".to_string(), def("a", "first", &[])),
            ("a:x".to_string(), def("a", "second", &[])),
        ],
    };
    assert_eq!(r.item("a:x").unwrap().name, "first");
    let mut r2 = r.clone();
    r2.insert("a:x".to_string(), def("a", "third", &[]));
    assert_eq!(r2.item("a:x").unwrap().name, "third");
    assert_eq!(r2.items[1].1.name, "second");
    assert_eq!(r.item("a:x").unwrap().name, "first");
}
