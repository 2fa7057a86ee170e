//! Inventory items, the tabs that sort them and how their slots look.

use vstd::prelude::*;
use crate::item::{ItemDef, ItemDefView};
use crate::state::GameState;
use crate::text::{ascii_case_eq, ascii_lower, str_eq, to_ascii_lowercase};

verus! {

/// The tabs of the inventory window.
#[derive(Debug, Clone, Copy, PartialEq, Eq, Structural)]
pub enum ItemTab {
    All,
    Weapon,
    Apparel,
    Magic,
    Misc,
}

/// The tab for a category whose ASCII lower-case form is `lower`.
pub open spec fn tab_for_category(lower: Seq<char>) -> ItemTab {
    if lower == "weapon"@ || lower == "weapons"@ || lower == "sword"@ {
        ItemTab::Weapon
    } else if lower == "apparel"@ || lower == "armour"@ || lower == "clothing"@ {
        ItemTab::Apparel
    } else if lower == "magic"@ || lower == "spell"@ || lower == "scroll"@ {
        ItemTab::Magic
    } else {
        ItemTab::Misc
    }
}

impl ItemTab {
    /// The tabs in the order in which the window shows them.
    pub const ALL: [ItemTab; 5] = [
        ItemTab::All,
        ItemTab::Weapon,
        ItemTab::Apparel,
        ItemTab::Magic,
        ItemTab::Misc,
    ];

    /// The caption of the tab.
    pub open spec fn caption(self) -> Seq<char> {
        match self {
            ItemTab::All => "All"@,
            ItemTab::Weapon => "Weapon"@,
            ItemTab::Apparel => "Apparel"@,
            ItemTab::Magic => "Magic"@,
            ItemTab::Misc => "Misc"@,
        }
    }

    /// The caption of the tab.
    pub fn label(self) -> (r: &'static str)
        ensures
            r@ == self.caption(),
    {
        match self {
            ItemTab::All => "All",
            ItemTab::Weapon => "Weapon",
            ItemTab::Apparel => "Apparel",
            ItemTab::Magic => "Magic",
            ItemTab::Misc => "Misc",
        }
    }

    /// The tab in which items of a category are shown; the category is read
    /// without regard to ASCII case, and unknown categories go to `Misc`.
    pub fn from_category(category: &str) -> (r: ItemTab)
        ensures
            r == tab_for_category(ascii_lower(category@)),
            r != ItemTab::All,
    {
        let lower = to_ascii_lowercase(category);
        let l = lower.as_str();
        if str_eq(l, "weapon") || str_eq(l, "weapons") || str_eq(l, "sword") {
            ItemTab::Weapon
        } else if str_eq(l, "apparel") || str_eq(l, "armour") || str_eq(l, "clothing") {
            ItemTab::Apparel
        } else if str_eq(l, "magic") || str_eq(l, "spell") || str_eq(l, "scroll") {
            ItemTab::Magic
        } else {
            ItemTab::Misc
        }
    }
}

/// Reading a tab's caption as a category gives the tab back, for every tab but
/// `All`, which is no category.
pub proof fn lemma_caption_is_category(tab: ItemTab)
    requires
        tab != ItemTab::All,
    ensures
        tab_for_category(ascii_lower(tab.caption())) == tab,
{
    reveal_strlit("Weapon");
    reveal_strlit("weapon");
    reveal_strlit("Apparel");
    reveal_strlit("apparel");
    reveal_strlit("Magic");
    reveal_strlit("magic");
    reveal_strlit("Misc");
    reveal_strlit("weapons");
    reveal_strlit("sword");
    reveal_strlit("armour");
    reveal_strlit("clothing");
    reveal_strlit("spell");
    reveal_strlit("scroll");
    let l = ascii_lower(tab.caption());
    match tab {
        ItemTab::Weapon => {
            assert(l =~= "weapon"@);
        },
        ItemTab::Apparel => {
            assert(l =~= "apparel"@);
            assert(l[0] != "weapon"@[0] && l[0] != "weapons"@[0] && l[0] != "sword"@[0]);
        },
        ItemTab::Magic => {
            assert(l =~= "magic"@);
            assert(l[0] != "weapon"@[0] && l[0] != "weapons"@[0] && l[0] != "sword"@[0]);
            assert(l[0] != "apparel"@[0] && l[0] != "armour"@[0] && l[0] != "clothing"@[0]);
        },
        ItemTab::Misc => {
            assert(l.len() == 4);
            assert(l[0] != "weapon"@[0] && l[0] != "weapons"@[0] && l[0] != "sword"@[0]);
            assert(l[0] != "apparel"@[0] && l[0] != "armour"@[0] && l[0] != "clothing"@[0]);
            assert(l[1] != "magic"@[1] && l[0] != "spell"@[0] && l[0] != "scroll"@[0]);
        },
        ItemTab::All => {},
    }
}

/// A texture the renderer knows an icon by.
#[derive(Debug, Clone, Copy, PartialEq, Eq, Structural)]
pub enum TextureId {
    /// A texture that the renderer allocated.
    Managed(u64),
    /// A texture that the user registered.
    User(u64),
}

/// A colour given by its red, green and blue channels.
#[derive(Debug, Clone, Copy, PartialEq, Eq, Structural)]
pub struct Rgb {
    pub r: u8,
    pub g: u8,
    pub b: u8,
}

pub open spec fn rgb(r: u8, g: u8, b: u8) -> Rgb {
    Rgb { r, g, b }
}

/// The frame colour of the inventory window.
pub fn accent() -> (c: Rgb)
    ensures
        c == rgb(120, 90, 40),
{
    Rgb { r: 120, g: 90, b: 40 }
}

/// The colour of highlighted text in the inventory window.
pub fn accent_text() -> (c: Rgb)
    ensures
        c == rgb(228, 186, 94),
{
    Rgb { r: 228, g: 186, b: 94 }
}

/// The colour that marks items of a category.
pub open spec fn category_color(category: ItemTab) -> Rgb {
    match category {
        ItemTab::Weapon => rgb(110, 120, 140),
        ItemTab::Apparel => rgb(120, 100, 90),
        ItemTab::Magic => rgb(100, 90, 140),
        ItemTab::Misc => rgb(110, 120, 90),
        ItemTab::All => rgb(120, 110, 90),
    }
}

/// The colour that marks items of a category.
pub fn item_color(category: ItemTab) -> (c: Rgb)
    ensures
        c == category_color(category),
{
    match category {
        ItemTab::Weapon => Rgb { r: 110, g: 120, b: 140 },
        ItemTab::Apparel => Rgb { r: 120, g: 100, b: 90 },
        ItemTab::Magic => Rgb { r: 100, g: 90, b: 140 },
        ItemTab::Misc => Rgb { r: 110, g: 120, b: 90 },
        ItemTab::All => Rgb { r: 120, g: 110, b: 90 },
    }
}

/// The background of an item's slot: a highlight while the pointer is over it,
/// else the colour of the item's category.
pub fn slot_background(category: ItemTab, hovered: bool) -> (c: Rgb)
    ensures
        c == (if hovered { rgb(60, 90, 90) } else { category_color(category) }),
{
    if hovered {
        Rgb { r: 60, g: 90, b: 90 }
    } else {
        item_color(category)
    }
}

/// An item as the inventory holds it: its definition, how many of it there
/// are and, once loaded, the texture of its icon.
#[derive(Debug)]
pub struct InventoryItem {
    pub def: ItemDef,
    pub count: u32,
    pub icon: Option<TextureId>,
}

/// The mathematical content of an [`InventoryItem`].
#[verifier::ext_equal]
pub struct InventoryItemView {
    pub def: ItemDefView,
    pub count: u32,
    pub icon: Option<TextureId>,
}

impl View for InventoryItem {
    type V = InventoryItemView;

    open spec fn view(&self) -> InventoryItemView {
        InventoryItemView { def: self.def@, count: self.count, icon: self.icon }
    }
}

impl InventoryItemView {
    /// The tab of the item: that of its first category, `Misc` without one.
    pub open spec fn category(self) -> ItemTab {
        if self.def.categories.len() > 0 {
            tab_for_category(ascii_lower(self.def.categories[0]))
        } else {
            ItemTab::Misc
        }
    }

    /// The item is listed under `tab`.
    pub open spec fn shown_in(self, tab: ItemTab) -> bool {
        tab == ItemTab::All || self.category() == tab
    }
}

impl Clone for InventoryItem {
    fn clone(&self) -> (r: Self)
        ensures
            r@ == self@,
    {
        InventoryItem { def: self.def.clone(), count: self.count, icon: self.icon }
    }
}

/// Where the picture of an item's icon comes from.
#[derive(Debug)]
pub enum IconSource {
    /// The sprite of this name, or a square of the fallback colour when it
    /// cannot be loaded.
    Sprite { name: String, fallback: Rgb },
    /// A square of this colour.
    Placeholder(Rgb),
}

/// `dir/res/icons/<sprite>.png`, where a sprite's picture is stored.
pub fn icon_path(dir: &str, sprite: &str) -> (r: String)
    ensures
        r@ == dir@ + "/res/icons/"@ + sprite@ + ".png"@,
{
    let mut p = String::from_str(dir);
    p.append("/res/icons/");
    p.append(sprite);
    p.append(".png");
    p
}

impl InventoryItem {
    /// One item of the given definition, with no icon loaded yet.
    pub fn from_def(def: ItemDef) -> (r: Self)
        ensures
            r.def == def,
            r.count == 1,
            r.icon is None,
    {
        InventoryItem { def, count: 1, icon: None }
    }

    /// The name shown for the item.
    pub fn display_name(&self) -> (r: &str)
        ensures
            r@ == self.def.name@,
    {
        self.def.name.as_str()
    }

    /// The tab of the item: that of its first category, `Misc` without one.
    pub fn category(&self) -> (r: ItemTab)
        ensures
            r == self@.category(),
    {
        if self.def.categories.len() > 0 {
            ItemTab::from_category(self.def.categories[0].as_str())
        } else {
            ItemTab::Misc
        }
    }

    /// Whether the item is listed under `tab`.
    pub fn shown_in(&self, tab: ItemTab) -> (r: bool)
        ensures
            r == self@.shown_in(tab),
    {
        tab == ItemTab::All || self.category() == tab
    }

    /// Where the item's icon comes from: the sprite that its definition names,
    /// else a square in the colour of its category.
    pub fn icon_source(&self) -> (r: IconSource)
        ensures
            match self.def@.sprite_icon() {
                Some(name) => r matches IconSource::Sprite { name: n, fallback } && n@ == name
                    && fallback == category_color(self@.category()),
                None => r == IconSource::Placeholder(category_color(self@.category())),
            },
    {
        let color = item_color(self.category());
        match self.def.sprite_icon() {
            Some(name) => IconSource::Sprite { name: String::from_str(name), fallback: color },
            None => IconSource::Placeholder(color),
        }
    }

    /// The letter drawn in the slot of an item without an icon: the first
    /// character of its name, `'?'` for an empty name.
    pub fn slot_letter(&self) -> (r: char)
        ensures
            r == (if self.def.name@.len() > 0 { self.def.name@[0] } else { '?' }),
    {
        let name = self.def.name.as_str();
        if name.unicode_len() > 0 {
            name.get_char(0)
        } else {
            '?'
        }
    }

    /// The count drawn on the slot: shown only for more than one item.
    pub fn count_badge(&self) -> (r: Option<u32>)
        ensures
            r == (if self.count > 1 { Some(self.count) } else { None::<u32> }),
    {
        if self.count > 1 {
            Some(self.count)
        } else {
            None
        }
    }
}

/// One frame of the inventory window: the toggle key opens or closes it, and
/// it is drawn while it is open and the game is not in the main menu. Returns
/// whether it is open and whether it is drawn.
pub fn inventory_window_step(open: bool, toggle_pressed: bool, state: GameState) -> (r: (bool, bool))
    ensures
        r.0 == (open != toggle_pressed),
        r.1 == (r.0 && state != GameState::MainMenu),
{
    let now_open = if toggle_pressed {
        !open
    } else {
        open
    };
    (now_open, now_open && !state.is_main_menu())
}

/// Categories that differ only in ASCII case go to the same tab.
pub proof fn lemma_category_ignores_case(a: Seq<char>, b: Seq<char>)
    requires
        ascii_case_eq(a, b),
    ensures
        tab_for_category(ascii_lower(a)) == tab_for_category(ascii_lower(b)),
{
}

/// The tab selected after a frame in which the tabs in `clicked` were clicked,
/// in this order: the last one clicked, or the one selected before when none was.
pub fn tab_after_clicks(selected: ItemTab, clicked: &Vec<ItemTab>) -> (r: ItemTab)
    ensures
        r == (if clicked@.len() > 0 { clicked@.last() } else { selected }),
{
    let n = clicked.len();
    if n > 0 {
        clicked[n - 1]
    } else {
        selected
    }
}

/// An item's tab is read from its first category alone: items whose first
/// categories agree, ignoring ASCII case, are in the same tab whatever their
/// other categories are; the tab is the one that category names; and an item
/// without a category is in `Misc`.
pub proof fn lemma_category_reads_first(a: InventoryItemView, b: InventoryItemView)
    ensures
        a.def.categories.len() == 0 ==> a.category() == ItemTab::Misc,
        a.def.categories.len() > 0 ==> a.category() == tab_for_category(
            ascii_lower(a.def.categories[0]),
        ),
        a.def.categories.len() > 0 && b.def.categories.len() > 0 && ascii_lower(
            a.def.categories[0],
        ) == ascii_lower(b.def.categories[0]) ==> a.category() == b.category(),
{
}

/// The `All` tab lists every item; any other tab lists exactly the items of
/// its category, so no item is listed under two tabs besides `All`.
pub proof fn lemma_tab_lists_its_category(item: InventoryItemView, tab: ItemTab, other: ItemTab)
    ensures
        item.shown_in(ItemTab::All),
        tab != ItemTab::All ==> (item.shown_in(tab) <==> item.category() == tab),
        tab != ItemTab::All && other != ItemTab::All && tab != other ==> !(item.shown_in(tab)
            && item.shown_in(other)),
{
}

} // verus!
