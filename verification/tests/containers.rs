use game::container::{Container, ItemPickup};
use game::inventory::{InventoryItem, ItemTab, TextureId};
use game::item::ItemDef;
use serde_json::Value;

fn item(name: &str, category: &str, stacks: bool, count: u32) -> InventoryItem {
    let mut components = Vec::new();
    if stacks {
        components.push(("CanStack".to_string(), Value::Null));
    }
    let mut i = InventoryItem::from_def(ItemDef {
        name: name.to_string(),
        namespace: "apostasy".to_string(),
        categories: vec![category.to_string()],
        icon: None,
        components,
    });
    i.count = count;
    i
}

fn total(c: &Container) -> u64 {
    c.items.iter().map(|i| i.count as u64).sum()
}

#[test]
fn unstackable_items_take_new_slots() {
    let mut c = Container::default();
    c.add_item(&item("Iron Sword", "weapon", false, 1));
    c.add_item(&item("Iron Sword", "weapon", false, 1));
    assert_eq!(c.items.len(), 2);
    assert_eq!(c.items[0].count, 1);
    assert_eq!(c.items[1].count, 1);
}

#[test]
fn stackable_items_join_their_kind() {
    let mut c = Container::default();
    c.add_item(&item("Arrow", "weapon", true, 10));
    c.add_item(&item("Potion", "magic", true, 1));
    c.add_item(&item("Arrow", "weapon", true, 5));
    assert_eq!(c.items.len(), 2);
    assert_eq!(c.items[0].count, 15);
    assert_eq!(c.items[1].count, 1);
    assert_eq!(total(&c), 16);
}

#[test]
fn stacking_needs_the_same_namespace() {
    let mut c = Container::default();
    c.add_item(&item("Arrow", "weapon", true, 1));
    let mut other = item("Arrow", "weapon", true, 2);
    other.def.namespace = "mod".to_string();
    c.add_item(&other);
    assert_eq!(c.items.len(), 2);
    assert_eq!(c.items[0].count, 1);
    assert_eq!(c.items[1].count, 2);
}

#[test]
fn stackable_item_joins_the_first_entry_of_its_kind() {
    let mut c = Container::default();
    c.add_item(&item("Arrow", "weapon", false, 1));
    c.add_item(&item("Arrow", "weapon", false, 1));
    c.add_item(&item("Arrow", "weapon", true, 4));
    assert_eq!(c.items.len(), 2);
    assert_eq!(c.items[0].count, 5);
    assert_eq!(c.items[1].count, 1);
}

#[test]
fn adding_adds_to_the_total_count() {
    let mut c = Container::default();
    let before = total(&c);
    c.add_item(&item("Arrow", "weapon", true, 7));
    assert_eq!(total(&c), before + 7);
    c.add_item(&item("Arrow", "weapon", true, 3));
    assert_eq!(total(&c), before + 10);
    c.add_item(&item("Rock", "misc", false, 2));
    assert_eq!(total(&c), before + 12);
}

#[test]
fn add_new_item_copies_the_item() {
    let mut c = Container::default();
    let mut i = item("Potion", "magic", true, 2);
    i.icon = Some(TextureId::Managed(9));
    c.add_new_item(&i);
    c.add_new_item(&i);
    assert_eq!(c.items.len(), 2);
    assert_eq!(c.items[1].def.name, "Potion");
    assert_eq!(c.items[1].count, 2);
    assert_eq!(c.items[1].icon, Some(TextureId::Managed(9)));
    assert_eq!(c.items[1].def.components, i.def.components);
}

#[test]
fn visible_indices_filter_by_tab() {
    let mut c = Container::default();
    c.add_item(&item("Iron Sword", "sword", false, 1));
    c.add_item(&item("Robe", "clothing", false, 1));
    c.add_item(&item("Axe", "Weapon", false, 1));
    c.add_item(&item("Rock", "stone", false, 1));
    assert_eq!(c.visible_indices(ItemTab::All), vec![0, 1, 2, 3]);
    assert_eq!(c.visible_indices(ItemTab::Weapon), vec![0, 2]);
    assert_eq!(c.visible_indices(ItemTab::Apparel), vec![1]);
    assert_eq!(c.visible_indices(ItemTab::Magic), Vec::<usize>::new());
    assert_eq!(c.visible_indices(ItemTab::Misc), vec![3]);
}

#[test]
fn icons_are_loaded_once() {
    let mut c = Container::default();
    c.add_item(&item("Iron Sword", "sword", false, 1));
    c.add_item(&item("Robe", "clothing", false, 1));
    assert_eq!(c.missing_icons(), vec![0, 1]);
    c.set_icon(1, TextureId::User(4));
    assert_eq!(c.missing_icons(), vec![0]);
    assert_eq!(c.items[1].icon, Some(TextureId::User(4)));
    assert_eq!(c.items[1].def.name, "Robe");
}

#[test]
fn pickups_hold_an_item() {
    let p = ItemPickup { item: item("Iron Sword", "weapon", false, 1) };
    assert_eq!(p.item.def.name, "Iron Sword");
}

#[test]
fn assign_icons_fills_missing_icons_in_order() {
    let mut c = Container::default();
    c.add_item(&item("Iron Sword", "sword", false, 1));
    c.add_item(&item("Robe", "clothing", false, 1));
    c.add_item(&item("Arrow", "weapon", true, 12));
    c.set_icon(1, TextureId::User(4));
    let missing = c.missing_icons();
    assert_eq!(missing, vec![0, 2]);
    c.assign_icons(&vec![TextureId::Managed(10), TextureId::Managed(11)]);
    assert_eq!(c.items[0].icon, Some(TextureId::Managed(10)));
    assert_eq!(c.items[1].icon, Some(TextureId::User(4)));
    assert_eq!(c.items[2].icon, Some(TextureId::Managed(11)));
    assert_eq!(c.items[2].count, 12);
    assert_eq!(c.items[2].def.name, "Arrow");
    assert!(c.missing_icons().is_empty());
    c.assign_icons(&Vec::new());
    assert_eq!(c.items[0].icon, Some(TextureId::Managed(10)));
}

#[test]
fn stackable_kinds_stay_unique() {
    let mut c = Container::default();
    for (name, stacks) in [("Arrow", true), ("Bolt", true), ("Arrow", true), ("Rock", false), ("Bolt", true), ("Rock", false)] {
        c.add_item(&item(name, "weapon", stacks, 1));
    }
    let stackable: Vec<&str> = c
        .items
        .iter()
        .filter(|i| i.def.has_component("canstack"))
        .map(|i| i.def.name.as_str())
        .collect();
    assert_eq!(stackable, vec!["Arrow", "Bolt"]);
    assert_eq!(c.items.len(), 4);
}
