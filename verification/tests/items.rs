use game::inventory::{
    accent, accent_text, icon_path, inventory_window_step, item_color, slot_background, tab_after_clicks,
    IconSource, InventoryItem, ItemTab, Rgb, TextureId,
};
use game::item::ItemDef;
use game::state::GameState;
use serde_json::Value;

fn def(name: &str, categories: &[&str], components: &[&str]) -> ItemDef {
    ItemDef {
        name: name.to_string(),
        namespace: "apostasy".to_string(),
        categories: categories.iter().map(|c| c.to_string()).collect(),
        icon: None,
        components: components
            .iter()
            .map(|c| (c.to_string(), Value::Bool(true)))
            .collect(),
    }
}

#[test]
fn from_category_reads_known_categories() {
    assert_eq!(ItemTab::from_category("weapon"), ItemTab::Weapon);
    assert_eq!(ItemTab::from_category("Weapons"), ItemTab::Weapon);
    assert_eq!(ItemTab::from_category("SWORD"), ItemTab::Weapon);
    assert_eq!(ItemTab::from_category("apparel"), ItemTab::Apparel);
    assert_eq!(ItemTab::from_category("Armour"), ItemTab::Apparel);
    assert_eq!(ItemTab::from_category("clothing"), ItemTab::Apparel);
    assert_eq!(ItemTab::from_category("MAGIC"), ItemTab::Magic);
    assert_eq!(ItemTab::from_category("spell"), ItemTab::Magic);
    assert_eq!(ItemTab::from_category("Scroll"), ItemTab::Magic);
}

#[test]
fn from_category_sends_the_rest_to_misc() {
    assert_eq!(ItemTab::from_category("food"), ItemTab::Misc);
    assert_eq!(ItemTab::from_category(""), ItemTab::Misc);
    assert_eq!(ItemTab::from_category("all"), ItemTab::Misc);
    assert_eq!(ItemTab::from_category("swords"), ItemTab::Misc);
    assert_eq!(ItemTab::from_category("armor"), ItemTab::Misc);
}

#[test]
fn labels_name_the_tabs() {
    assert_eq!(ItemTab::All.label(), "All");
    assert_eq!(ItemTab::Weapon.label(), "Weapon");
    assert_eq!(ItemTab::Apparel.label(), "Apparel");
    assert_eq!(ItemTab::Magic.label(), "Magic");
    assert_eq!(ItemTab::Misc.label(), "Misc");
}

#[test]
fn labels_read_back_as_their_tabs() {
    for tab in ItemTab::ALL {
        if tab != ItemTab::All {
            assert_eq!(ItemTab::from_category(tab.label()), tab);
        }
    }
}

#[test]
fn all_tabs_in_window_order() {
    assert_eq!(
        ItemTab::ALL,
        [ItemTab::All, ItemTab::Weapon, ItemTab::Apparel, ItemTab::Magic, ItemTab::Misc]
    );
}

#[test]
fn qualified_id_joins_namespace_and_name() {
    assert_eq!(def("Iron Sword", &[], &[]).qualified_id(), "apostasy:Iron Sword");
    let mut d = def("", &[], &[]);
    d.namespace = String::new();
    assert_eq!(d.qualified_id(), ":");
}

#[test]
fn sprite_icon_reads_sprite_names() {
    let mut d = def("Crystal", &[], &[]);
    d.icon = Some("sprite:mana_crystal".to_string());
    assert_eq!(d.sprite_icon(), Some("mana_crystal"));
    d.icon = Some("sprite:".to_string());
    assert_eq!(d.sprite_icon(), None);
    d.icon = Some("icons/mana.png".to_string());
    assert_eq!(d.sprite_icon(), None);
    d.icon = Some("Sprite:mana".to_string());
    assert_eq!(d.sprite_icon(), None);
    d.icon = None;
    assert_eq!(d.sprite_icon(), None);
}

#[test]
fn components_are_found_ignoring_case() {
    let mut d = def("Potion", &[], &["Consumable"]);
    d.components.push(("CanStack".to_string(), Value::from(5)));
    assert!(d.has_component("consumable"));
    assert!(d.has_component("CANSTACK"));
    assert!(!d.has_component("enchantment"));
    assert_eq!(d.get_component("canstack"), Some(&Value::from(5)));
    assert_eq!(d.get_component("CONSUMABLE"), Some(&Value::Bool(true)));
    assert_eq!(d.get_component("enchantment"), None);
}

#[test]
fn get_component_takes_the_first_match() {
    let mut d = def("Potion", &[], &[]);
    d.components.push(("uses".to_string(), Value::from(1)));
    d.components.push(("USES".to_string(), Value::from(2)));
    assert_eq!(d.get_component("Uses"), Some(&Value::from(1)));
}

#[test]
fn item_def_clone_keeps_everything() {
    let mut d = def("Potion", &["magic", "misc"], &["CanStack"]);
    d.icon = Some("sprite:potion".to_string());
    let c = d.clone();
    assert_eq!(c.name, d.name);
    assert_eq!(c.namespace, d.namespace);
    assert_eq!(c.categories, d.categories);
    assert_eq!(c.icon, d.icon);
    assert_eq!(c.components, d.components);
}

#[test]
fn from_def_makes_one_item_without_icon() {
    let item = InventoryItem::from_def(def("Iron Sword", &["weapon"], &[]));
    assert_eq!(item.count, 1);
    assert_eq!(item.icon, None);
    assert_eq!(item.display_name(), "Iron Sword");
    assert_eq!(item.def.name, "Iron Sword");
}

#[test]
fn category_comes_from_the_first_category() {
    let item = InventoryItem::from_def(def("Robe", &["Clothing", "magic"], &[]));
    assert_eq!(item.category(), ItemTab::Apparel);
    let item = InventoryItem::from_def(def("Rock", &[], &[]));
    assert_eq!(item.category(), ItemTab::Misc);
    let item = InventoryItem::from_def(def("Tome", &["SPELL"], &[]));
    assert_eq!(item.category(), ItemTab::Magic);
}

#[test]
fn shown_in_follows_the_tab() {
    let item = InventoryItem::from_def(def("Iron Sword", &["sword"], &[]));
    assert!(item.shown_in(ItemTab::All));
    assert!(item.shown_in(ItemTab::Weapon));
    assert!(!item.shown_in(ItemTab::Misc));
}

#[test]
fn colors_of_categories() {
    assert_eq!(item_color(ItemTab::Weapon), Rgb { r: 110, g: 120, b: 140 });
    assert_eq!(item_color(ItemTab::Apparel), Rgb { r: 120, g: 100, b: 90 });
    assert_eq!(item_color(ItemTab::Magic), Rgb { r: 100, g: 90, b: 140 });
    assert_eq!(item_color(ItemTab::Misc), Rgb { r: 110, g: 120, b: 90 });
    assert_eq!(item_color(ItemTab::All), Rgb { r: 120, g: 110, b: 90 });
    assert_eq!(accent(), Rgb { r: 120, g: 90, b: 40 });
    assert_eq!(accent_text(), Rgb { r: 228, g: 186, b: 94 });
    assert_eq!(slot_background(ItemTab::Magic, true), Rgb { r: 60, g: 90, b: 90 });
    assert_eq!(slot_background(ItemTab::Magic, false), Rgb { r: 100, g: 90, b: 140 });
}

#[test]
fn icon_source_prefers_the_sprite() {
    let mut d = def("Crystal", &["magic"], &[]);
    d.icon = Some("sprite:mana_crystal".to_string());
    match InventoryItem::from_def(d).icon_source() {
        IconSource::Sprite { name, fallback } => {
            assert_eq!(name, "mana_crystal");
            assert_eq!(fallback, Rgb { r: 100, g: 90, b: 140 });
        }
        other => panic!("unexpected {:?}", other),
    }
    match InventoryItem::from_def(def("Rock", &[], &[])).icon_source() {
        IconSource::Placeholder(c) => assert_eq!(c, Rgb { r: 110, g: 120, b: 90 }),
        other => panic!("unexpected {:?}", other),
    }
}

#[test]
fn icon_path_points_into_res_icons() {
    assert_eq!(icon_path("/game", "mana_crystal"), "/game/res/icons/mana_crystal.png");
}

#[test]
fn slot_letter_and_badge() {
    let mut item = InventoryItem::from_def(def("Iron Sword", &[], &[]));
    assert_eq!(item.slot_letter(), 'I');
    assert_eq!(item.count_badge(), None);
    item.count = 3;
    assert_eq!(item.count_badge(), Some(3));
    let item = InventoryItem::from_def(def("", &[], &[]));
    assert_eq!(item.slot_letter(), '?');
    let item = InventoryItem::from_def(def("Éclair", &[], &[]));
    assert_eq!(item.slot_letter(), 'É');
}

#[test]
fn inventory_window_toggles_and_hides_in_menu() {
    assert_eq!(inventory_window_step(true, false, GameState::Playing), (true, true));
    assert_eq!(inventory_window_step(true, true, GameState::Playing), (false, false));
    assert_eq!(inventory_window_step(false, true, GameState::Paused), (true, true));
    assert_eq!(inventory_window_step(true, false, GameState::MainMenu), (true, false));
}

#[test]
fn texture_ids_compare_by_kind_and_number() {
    assert_ne!(TextureId::Managed(1), TextureId::User(1));
    assert_eq!(TextureId::User(7), TextureId::User(7));
}

#[test]
fn has_component_agrees_with_get_component() {
    let d = def("Potion", &[], &["Consumable", "canStack"]);
    for name in ["consumable", "CANSTACK", "Canstack", "glow", "", "consumables"] {
        assert_eq!(d.has_component(name), d.get_component(name).is_some());
    }
}

#[test]
fn categories_differing_in_case_share_a_tab() {
    for (a, b) in [("Weapon", "wEAPON"), ("scroll", "SCROLL"), ("Food", "fOOD")] {
        assert_eq!(ItemTab::from_category(a), ItemTab::from_category(b));
    }
}

#[test]
fn the_last_clicked_tab_is_selected() {
    assert_eq!(tab_after_clicks(ItemTab::All, &vec![]), ItemTab::All);
    assert_eq!(tab_after_clicks(ItemTab::All, &vec![ItemTab::Magic]), ItemTab::Magic);
    assert_eq!(
        tab_after_clicks(ItemTab::Misc, &vec![ItemTab::Weapon, ItemTab::Apparel]),
        ItemTab::Apparel
    );
}
