//! Item buttons of inventories, equipment, props and merchants: how they
//! are made, which action a click runs, which menu a right click opens,
//! and the item each one shows.
use vstd::prelude::*;

use crate::geometry::Point;
pub use crate::item_text::{add_attack_text_args, add_bonus_text_args, add_prereq_text_args};
use crate::item_text::{
    add_usable_text_args, armor_args, bonuses_shown_by, ArmorTotals,
    attack_args, one, opt_arg, prereq_args, summarize_bonuses, usable_args, ArgsView,
    AttackBuilder, Bonus, ModuleNames, PrereqList, Usable,
};
use crate::text::{u64_to_string, decimal, TextArgs};

verus! {

/// Where the item of a button lies: in a prop, a merchant's stock, a
/// player's (`P`) inventory, or among what a player has equipped.
pub enum ItemButtonKind<P> {
    Prop { index: usize },
    Merchant { id: String },
    Inventory { player: P },
    Equipped { player: P },
}

/// A button showing an item, with the named actions (`C`) it offers and
/// whether its item window is open.
pub struct ItemButton<P, C> {
    pub icon: String,
    pub quantity: u32,
    pub item_index: usize,
    pub kind: ItemButtonKind<P>,
    pub actions: Vec<(String, C)>,
    pub item_window_open: bool,
}

/// The mouse buttons.
#[derive(Clone, Copy, Debug, PartialEq, Eq, Structural)]
pub enum ClickKind {
    Left,
    Right,
    Middle,
}

/// An entry of an item's action menu: selling it, or one of the button's
/// actions, by position.
#[derive(Clone, Copy, Debug, PartialEq, Eq, Structural)]
pub enum MenuEntry {
    Sell,
    Action(usize),
}

/// What releasing the mouse on a button does.
pub enum ReleaseResponse {
    /// Runs this action.
    Run(MenuEntry),
    /// A left click with no action to run.
    Nothing,
    /// Opens a modal menu, closed by a click outside it, with these named
    /// entries.
    Menu(Vec<(String, MenuEntry)>),
    /// Not handled.
    Unhandled,
}

impl<P, C> ItemButton<P, C> {
    fn new(icon: String, quantity: u32, item_index: usize, kind: ItemButtonKind<P>) -> (b: ItemButton<P, C>)
        ensures
            b.icon == icon,
            b.quantity == quantity,
            b.item_index == item_index,
            b.kind == kind,
            b.actions@.len() == 0,
            !b.item_window_open,
    {
        ItemButton { icon, quantity, item_index, kind, actions: Vec::new(), item_window_open: false }
    }

    /// The button of the item at `item_index` of `player`'s inventory.
    pub fn inventory(player: P, icon: String, quantity: u32, item_index: usize) -> (b: ItemButton<P, C>)
        ensures
            b.icon == icon,
            b.quantity == quantity,
            b.item_index == item_index,
            b.kind == (ItemButtonKind::<P>::Inventory { player }),
            b.actions@.len() == 0,
            !b.item_window_open,
    {
        ItemButton::new(icon, quantity, item_index, ItemButtonKind::Inventory { player })
    }

    /// The button of the item at `item_index` of what `player` has
    /// equipped; its quantity is one.
    pub fn equipped(player: P, icon: String, item_index: usize) -> (b: ItemButton<P, C>)
        ensures
            b.icon == icon,
            b.quantity == 1,
            b.item_index == item_index,
            b.kind == (ItemButtonKind::<P>::Equipped { player }),
            b.actions@.len() == 0,
            !b.item_window_open,
    {
        ItemButton::new(icon, 1, item_index, ItemButtonKind::Equipped { player })
    }

    /// The button of the item at `item_index` of the prop at `prop_index`.
    pub fn prop(icon: String, quantity: u32, item_index: usize, prop_index: usize) -> (b: ItemButton<P, C>)
        ensures
            b.icon == icon,
            b.quantity == quantity,
            b.item_index == item_index,
            b.kind == (ItemButtonKind::<P>::Prop { index: prop_index }),
            b.actions@.len() == 0,
            !b.item_window_open,
    {
        ItemButton::new(icon, quantity, item_index, ItemButtonKind::Prop { index: prop_index })
    }

    /// The button of the item at `item_index` of the merchant `merchant_id`.
    pub fn merchant(icon: String, quantity: u32, item_index: usize, merchant_id: &str) -> (b: ItemButton<P, C>)
        ensures
            b.icon == icon,
            b.quantity == quantity,
            b.item_index == item_index,
            b.kind matches ItemButtonKind::Merchant { id } && id@ == merchant_id@,
            b.actions@.len() == 0,
            !b.item_window_open,
    {
        ItemButton::new(icon, quantity, item_index, ItemButtonKind::Merchant { id: merchant_id.to_string() })
    }

    /// Adds an action named `name` after the others.
    pub fn add_action(&mut self, name: &str, cb: C)
        ensures
            final(self).actions@.len() == old(self).actions@.len() + 1,
            forall|i: int| 0 <= i < old(self).actions@.len() ==> #[trigger] final(self).actions@[i] == old(self).actions@[i],
            final(self).actions@.last().0@ == name@,
            final(self).actions@.last().1 == cb,
            final(self).icon == old(self).icon,
            final(self).quantity == old(self).quantity,
            final(self).item_index == old(self).item_index,
            final(self).kind == old(self).kind,
            final(self).item_window_open == old(self).item_window_open,
    {
        self.actions.push((name.to_string(), cb));
    }

    /// Closes the item window; tells whether one was open.
    pub fn remove_item_window(&mut self) -> (was_open: bool)
        ensures
            was_open == old(self).item_window_open,
            !final(self).item_window_open,
            final(self).actions == old(self).actions,
            final(self).kind == old(self).kind,
            final(self).icon == old(self).icon,
            final(self).quantity == old(self).quantity,
            final(self).item_index == old(self).item_index,
    {
        let was_open = self.item_window_open;
        self.item_window_open = false;
        was_open
    }

    /// Whether a click sells the item: it is in an inventory while a
    /// merchant window is open.
    pub fn check_sell_action(&self, merchant_window_open: bool) -> (r: bool)
        ensures
            r == (self.kind is Inventory && merchant_window_open),
    {
        match self.kind {
            ItemButtonKind::Inventory { .. } => merchant_window_open,
            _ => false,
        }
    }

    /// The text arguments of the icon ("icon") and of the quantity label
    /// ("quantity", only for more than one).
    pub fn on_add(&self) -> (r: (TextArgs, TextArgs))
        ensures
            r.0@ == seq![("icon"@, self.icon@)],
            r.1@ == if self.quantity > 1 {
                seq![("quantity"@, decimal(self.quantity as nat))]
            } else {
                Seq::empty()
            },
    {
        let mut qty = TextArgs::new();
        if self.quantity > 1 {
            let text = u64_to_string(self.quantity as u64);
            qty.add_text_arg("quantity", text.as_str());
            proof {
                assert(qty@ =~= seq![("quantity"@, decimal(self.quantity as nat))]);
            }
        }
        let mut icon = TextArgs::new();
        icon.add_text_arg("icon", self.icon.as_str());
        proof {
            assert(icon@ =~= seq![("icon"@, self.icon@)]);
        }
        (icon, qty)
    }
}


/// The entries of the action menu: "Sell" first where the item can be
/// sold, then every action of the button under its name, in order.
pub open spec fn spec_menu_entries<C>(actions: Seq<(String, C)>, sell: bool) -> Seq<(Seq<char>, MenuEntry)> {
    let named = Seq::new(actions.len(), |i: int| (actions[i].0@, MenuEntry::Action(i as usize)));
    if sell {
        seq![("Sell"@, MenuEntry::Sell)] + named
    } else {
        named
    }
}

/// The names and entries of a menu, as plain values.
pub open spec fn menu_view(m: Seq<(String, MenuEntry)>) -> Seq<(Seq<char>, MenuEntry)> {
    Seq::new(m.len(), |i: int| (m[i].0@, m[i].1))
}

impl<P, C> ItemButton<P, C> {
    /// The named entries of the button's action menu.
    pub fn menu_entries(&self, sell: bool) -> (m: Vec<(String, MenuEntry)>)
        ensures
            menu_view(m@) == spec_menu_entries(self.actions@, sell),
    {
        let mut out: Vec<(String, MenuEntry)> = Vec::new();
        if sell {
            proof { reveal_strlit("Sell"); }
            out.push(("Sell".to_string(), MenuEntry::Sell));
        }
        let ghost start = menu_view(out@);
        let n = self.actions.len();
        let mut i: usize = 0;
        while i < n
            invariant
                n == self.actions@.len(),
                i <= n,
                start == (if sell { seq![("Sell"@, MenuEntry::Sell)] } else { Seq::<(Seq<char>, MenuEntry)>::empty() }),
                menu_view(out@) == start + Seq::new(i as nat, |k: int| (self.actions@[k].0@, MenuEntry::Action(k as usize))),
            decreases n - i,
        {
            let ghost before = menu_view(out@);
            out.push((self.actions[i].0.clone(), MenuEntry::Action(i)));
            proof {
                assert(menu_view(out@) =~= before.push((self.actions@[i as int].0@, MenuEntry::Action(i))));
                assert(menu_view(out@) =~= start + Seq::new((i + 1) as nat, |k: int| (self.actions@[k].0@, MenuEntry::Action(k as usize))));
            }
            i = i + 1;
        }
        proof {
            assert(menu_view(out@) =~= spec_menu_entries(self.actions@, sell));
        }
        out
    }

    /// Releasing the mouse closes the item window. A left click runs the
    /// sale where the item can be sold, else the first action, if any. A
    /// right click opens the menu of those entries, where there is one.
    /// Other buttons are not handled.
    pub fn on_mouse_release(&mut self, kind: ClickKind, merchant_window_open: bool) -> (r: ReleaseResponse)
        ensures
            !final(self).item_window_open,
            final(self).actions == old(self).actions,
            final(self).kind == old(self).kind,
            ({
                let sell = old(self).kind is Inventory && merchant_window_open;
                match kind {
                    ClickKind::Left => if sell {
                        r == ReleaseResponse::Run(MenuEntry::Sell)
                    } else if old(self).actions@.len() > 0 {
                        r == ReleaseResponse::Run(MenuEntry::Action(0))
                    } else {
                        r is Nothing
                    },
                    ClickKind::Right => {
                        let entries = spec_menu_entries(old(self).actions@, sell);
                        if entries.len() > 0 {
                            r matches ReleaseResponse::Menu(m) && menu_view(m@) == entries
                        } else {
                            r is Nothing
                        }
                    },
                    ClickKind::Middle => r is Unhandled,
                }
            }),
    {
        self.remove_item_window();
        let sell = self.check_sell_action(merchant_window_open);
        match kind {
            ClickKind::Left => {
                if sell {
                    ReleaseResponse::Run(MenuEntry::Sell)
                } else if self.actions.len() > 0 {
                    ReleaseResponse::Run(MenuEntry::Action(0))
                } else {
                    ReleaseResponse::Nothing
                }
            },
            ClickKind::Right => {
                let entries = self.menu_entries(sell);
                if entries.len() > 0 {
                    ReleaseResponse::Menu(entries)
                } else {
                    ReleaseResponse::Nothing
                }
            },
            ClickKind::Middle => ReleaseResponse::Unhandled,
        }
    }
}

/// The item at `index` of a list of (quantity, item) entries.
pub open spec fn entry_item<T>(items: Seq<(u32, T)>, index: int) -> Option<T> {
    if 0 <= index < items.len() {
        Some(items[index].1)
    } else {
        None
    }
}

/// The position of the first merchant named `id`.
pub open spec fn first_merchant_at<T>(merchants: Seq<(String, Vec<(u32, T)>)>, id: Seq<char>, k: int) -> bool {
    &&& 0 <= k < merchants.len()
    &&& merchants[k].0@ == id
    &&& forall|j: int| 0 <= j < k ==> (#[trigger] merchants[j]).0@ != id
}

/// A copy of the item at `index` of `items`, if there is one.
pub fn item_at<T: Clone>(items: &Vec<(u32, T)>, index: usize) -> (r: Option<T>)
    ensures
        match entry_item(items@, index as int) {
            Some(item) => r matches Some(c) && cloned(item, c),
            None => r is None,
        },
{
    if index < items.len() {
        Some(items[index].1.clone())
    } else {
        None
    }
}

impl<P, C> ItemButton<P, C> {
    /// A copy of the item the button shows: from `player_items` (the
    /// player's inventory) for an inventory or equipment button, from the
    /// prop at its index (`None` where that index holds no prop with
    /// items), or from the first merchant of its id.
    pub fn get_item_state<T: Clone>(&self, player_items: &Vec<(u32, T)>, props: &Vec<Option<Vec<(u32, T)>>>, merchants: &Vec<(String, Vec<(u32, T)>)>) -> (r: Option<T>)
        ensures
            match self.kind {
                ItemButtonKind::Inventory { .. } | ItemButtonKind::Equipped { .. } => match entry_item(player_items@, self.item_index as int) {
                    Some(item) => r matches Some(c) && cloned(item, c),
                    None => r is None,
                },
                ItemButtonKind::Prop { index } => if index < props@.len() && props@[index as int] is Some {
                    match entry_item(props@[index as int]->0@, self.item_index as int) {
                        Some(item) => r matches Some(c) && cloned(item, c),
                        None => r is None,
                    }
                } else {
                    r is None
                },
                ItemButtonKind::Merchant { id } => if exists|k: int| first_merchant_at(merchants@, id@, k) {
                    let k = choose|k: int| first_merchant_at(merchants@, id@, k);
                    match entry_item(merchants@[k].1@, self.item_index as int) {
                        Some(item) => r matches Some(c) && cloned(item, c),
                        None => r is None,
                    }
                } else {
                    r is None
                },
            },
    {
        match &self.kind {
            ItemButtonKind::Inventory { .. } => item_at(player_items, self.item_index),
            ItemButtonKind::Equipped { .. } => item_at(player_items, self.item_index),
            ItemButtonKind::Prop { index } => {
                if *index < props.len() {
                    match &props[*index] {
                        Some(items) => item_at(items, self.item_index),
                        None => None,
                    }
                } else {
                    None
                }
            },
            ItemButtonKind::Merchant { id } => {
                let n = merchants.len();
                let mut k: usize = 0;
                while k < n
                    invariant
                        n == merchants@.len(),
                        k <= n,
                        forall|j: int| 0 <= j < k ==> (#[trigger] merchants@[j]).0@ != id@,
                        self.kind == (ItemButtonKind::<P>::Merchant { id: *id }),
                    decreases n - k,
                {
                    if merchants[k].0 == *id {
                        proof {
                            assert(first_merchant_at(merchants@, id@, k as int));
                            let c = choose|c: int| first_merchant_at(merchants@, id@, c);
                            if c < k {
                                assert(merchants@[c].0@ != id@);
                            }
                            if k < c {
                                assert(merchants@[k as int].0@ != id@);
                            }
                            assert(c == k);
                        }
                        return item_at(&merchants[k].1, self.item_index);
                    }
                    k = k + 1;
                }
                None
            },
        }
    }
}

/// The coins a purchase takes, if it goes ahead: there must be an item at
/// the index (its buy price is `price`) and the buyer must have at least
/// that many coins.
pub fn buy_item(coins: i32, price: Option<i32>) -> (r: Option<i32>)
    requires
        price matches Some(p) ==> p > i32::MIN,
    ensures
        r == match price {
            Some(p) => if coins < p { None } else { Some((-p) as i32) },
            None => None,
        },
{
    match price {
        None => None,
        Some(p) => {
            if coins < p {
                None
            } else {
                Some(-p)
            }
        },
    }
}

/// The coins a sale brings, if it goes ahead: the merchant of the open
/// merchant window must be found, and there must be an item at the index,
/// which the merchant buys for `price`.
pub fn sell_item(merchant_found: bool, price: Option<i32>) -> (r: Option<i32>)
    ensures
        r == if merchant_found { price } else { None },
{
    if merchant_found {
        price
    } else {
        None
    }
}

/// The position of the quick slot that an item goes to: the first of the
/// usable slots that is empty, or else the first one.
pub fn set_quickslot(occupied: &Vec<bool>) -> (slot: usize)
    ensures
        (exists|i: int| 0 <= i < occupied@.len() && !occupied@[i]) ==> {
            &&& slot < occupied@.len()
            &&& !occupied@[slot as int]
            &&& forall|j: int| 0 <= j < slot ==> occupied@[j]
        },
        (forall|i: int| 0 <= i < occupied@.len() ==> occupied@[i]) ==> slot == 0,
{
    let n = occupied.len();
    let mut i: usize = 0;
    while i < n
        invariant
            n == occupied@.len(),
            i <= n,
            forall|j: int| 0 <= j < i ==> occupied@[j],
        decreases n - i,
    {
        if !occupied[i] {
            return i;
        }
        i = i + 1;
    }
    0
}

/// Where a dropped item goes.
#[derive(Clone, Copy, Debug, PartialEq, Eq, Structural)]
pub enum DropTarget {
    /// Into the prop at this index.
    Prop(usize),
    /// Into a container on the ground at this tile.
    Ground(Point),
}

/// Where an item dropped by an entity at `location` goes: into the prop
/// whose window is open, if any, else to the ground where it stands.
pub fn drop_item(prop_window: Option<usize>, location: Point) -> (t: DropTarget)
    ensures
        t == match prop_window {
            Some(i) => DropTarget::Prop(i),
            None => DropTarget::Ground(location),
        },
{
    match prop_window {
        Some(i) => DropTarget::Prop(i),
        None => DropTarget::Ground(location),
    }
}


/// What an item gives when equipped.
pub struct Equippable {
    pub attack: Option<AttackBuilder>,
    pub bonuses: Vec<Bonus>,
}

/// What an item window shows of an item: its name, the display texts of
/// its value and weight, and its prerequisites, use and equipment.
pub struct ItemInfo {
    pub name: String,
    pub value_text: String,
    pub weight_text: String,
    pub prereqs: Option<PrereqList>,
    pub usable: Option<Usable>,
    pub equippable: Option<Equippable>,
}

/// The price argument of a button: the merchant's buy price for a merchant
/// button, the open merchant's sell price for an inventory or equipment
/// button, none for a prop button. A price is `None` where there is no
/// such merchant.
pub open spec fn price_args<P>(kind: ItemButtonKind<P>, buy_price: Option<String>, sell_price: Option<String>) -> ArgsView {
    match kind {
        ItemButtonKind::Merchant { .. } => opt_arg("price"@, buy_price),
        ItemButtonKind::Inventory { .. } => opt_arg("price"@, sell_price),
        ItemButtonKind::Equipped { .. } => opt_arg("price"@, sell_price),
        ItemButtonKind::Prop { .. } => Seq::empty(),
    }
}

/// Unmet requirements are noted only on inventory and merchant buttons:
/// "prof_not_met" first where the player is not proficient, then
/// "prereqs_not_met" where the prerequisites are not met.
pub proof fn lemma_requirement_args<P>(kind: ItemButtonKind<P>, checks: Option<(bool, bool)>)
    ensures
        kind is Equipped || kind is Prop || checks is None
            ==> requirement_args(kind, checks) == Seq::<(Seq<char>, Seq<char>)>::empty(),
        kind is Inventory || kind is Merchant ==> (checks matches Some((proficient, meets)) ==> {
            &&& requirement_args(kind, checks).len() == (if proficient { 0int } else { 1int }) + (if meets { 0int } else { 1int })
            &&& !proficient ==> requirement_args(kind, checks)[0] == ("prof_not_met"@, "true"@)
            &&& !meets ==> requirement_args(kind, checks).last() == ("prereqs_not_met"@, "true"@)
        }),
{
}

/// The price argument of a button is a merchant's asking price on a
/// merchant button, the open merchant's offer on an inventory or equipment
/// button, and missing on a prop button.
pub proof fn lemma_price_args<P>(kind: ItemButtonKind<P>, buy_price: Option<String>, sell_price: Option<String>)
    ensures
        kind is Merchant ==> price_args(kind, buy_price, sell_price) == match buy_price {
            Some(p) => seq![("price"@, p@)],
            None => Seq::empty(),
        },
        kind is Inventory || kind is Equipped ==> price_args(kind, buy_price, sell_price) == match sell_price {
            Some(p) => seq![("price"@, p@)],
            None => Seq::empty(),
        },
        kind is Prop ==> price_args(kind, buy_price, sell_price) == Seq::<(Seq<char>, Seq<char>)>::empty(),
{
    reveal(opt_arg);
}

/// The arguments noting the requirements the player does not meet, for an
/// inventory or merchant button, where `checks` gives whether the player
/// is proficient with the item and meets its prerequisites.
pub open spec fn requirement_args<P>(kind: ItemButtonKind<P>, checks: Option<(bool, bool)>) -> ArgsView {
    if kind is Inventory || kind is Merchant {
        match checks {
            Some((proficient, meets)) => (if !proficient {
                one("prof_not_met"@, "true"@)
            } else {
                Seq::empty()
            }) + (if !meets {
                one("prereqs_not_met"@, "true"@)
            } else {
                Seq::empty()
            }),
            None => Seq::empty(),
        }
    } else {
        Seq::empty()
    }
}

/// The arguments of an item window, in order: unmet requirements, name,
/// value, weight, price, prerequisites, use, attack, bonuses and armor,
/// where `armor` totals the armor of the item's bonuses.
pub open spec fn item_window_args<P>(
    kind: ItemButtonKind<P>,
    item: ItemInfo,
    checks: Option<(bool, bool)>,
    buy_price: Option<String>,
    sell_price: Option<String>,
    names: ModuleNames,
    display_ap: u32,
    armor: ArmorTotals,
) -> ArgsView {
    requirement_args(kind, checks)
        + seq![("name"@, item.name@), ("value"@, item.value_text@), ("weight"@, item.weight_text@)]
        + price_args(kind, buy_price, sell_price)
        + opt_prereq_args(item.prereqs, names)
        + opt_usable_args(item.usable, display_ap)
        + opt_equippable_args(item.equippable, display_ap, armor)
}

/// The arguments of optional prerequisites.
pub open spec fn opt_prereq_args(p: Option<PrereqList>, names: ModuleNames) -> ArgsView {
    match p {
        Some(p) => prereq_args(p, names),
        None => Seq::empty(),
    }
}

/// The arguments of an optional use.
pub open spec fn opt_usable_args(u: Option<Usable>, display_ap: u32) -> ArgsView {
    match u {
        Some(u) => usable_args(u, display_ap),
        None => Seq::empty(),
    }
}

/// The arguments of optional equipment.
pub open spec fn opt_equippable_args(e: Option<Equippable>, display_ap: u32, armor: ArmorTotals) -> ArgsView {
    match e {
        Some(e) => equippable_args(e, display_ap, armor),
        None => Seq::empty(),
    }
}

/// The arguments of an equippable item: its attack, if any, then its
/// bonuses, then the armor they total (`armor`).
pub open spec fn equippable_args(e: Equippable, display_ap: u32, armor: ArmorTotals) -> ArgsView {
    let sum = summarize_bonuses(e.bonuses@, display_ap as int);
    (match e.attack {
        Some(a) => attack_args(a),
        None => Seq::empty(),
    }) + sum.args + (if sum.has_accuracy {
        one("any_accuracy"@, "true"@)
    } else {
        Seq::empty()
    }) + armor_args(armor)
}

/// Whether the window of `item` can be shown with `display_ap` action
/// points as one: a use's cost is divided by it, and the bonuses can be
/// counted and shown.
pub open spec fn item_shown_by(item: ItemInfo, display_ap: u32) -> bool {
    &&& item.usable is Some ==> display_ap > 0
    &&& item.equippable matches Some(e) ==> {
        &&& e.bonuses@.len() < usize::MAX
        &&& bonuses_shown_by(e.bonuses@, display_ap as int)
    }
}

/// Adds the arguments of an equippable item.
fn add_equippable_args(e: &Equippable, display_ap: u32, armor: &ArmorTotals, args: &mut TextArgs)
    requires
        e.bonuses@.len() < usize::MAX,
        bonuses_shown_by(e.bonuses@, display_ap as int),
    ensures
        final(args)@ == old(args)@ + equippable_args(*e, display_ap, *armor),
{
    match &e.attack {
        Some(a) => add_attack_text_args(a, args),
        None => {},
    }
    add_bonus_text_args(&e.bonuses, display_ap, armor, args);
    proof {
        assert(args@ =~= old(args)@ + equippable_args(*e, display_ap, *armor));
    }
}

impl<P, C> ItemButton<P, C> {
    /// Adds the price argument of the button.
    pub fn add_price_text_arg(&self, buy_price: &Option<String>, sell_price: &Option<String>, state: &mut TextArgs)
        ensures
            final(state)@ == old(state)@ + price_args(self.kind, *buy_price, *sell_price),
            self.kind is Merchant ==> final(state)@ == old(state)@ + match *buy_price {
                Some(p) => seq![("price"@, p@)],
                None => Seq::empty(),
            },
            self.kind is Inventory || self.kind is Equipped ==> final(state)@ == old(state)@ + match *sell_price {
                Some(p) => seq![("price"@, p@)],
                None => Seq::empty(),
            },
            self.kind is Prop ==> final(state)@ == old(state)@,
    {
        let ghost s0 = state@;
        match &self.kind {
            ItemButtonKind::Merchant { .. } => {
                match buy_price {
                    Some(p) => state.add_text_arg("price", p.as_str()),
                    None => {},
                }
            },
            ItemButtonKind::Inventory { .. } | ItemButtonKind::Equipped { .. } => {
                match sell_price {
                    Some(p) => state.add_text_arg("price", p.as_str()),
                    None => {},
                }
            },
            ItemButtonKind::Prop { .. } => {},
        }
        proof {
            reveal(opt_arg);
            assert(state@ =~= s0 + price_args(self.kind, *buy_price, *sell_price));
            lemma_price_args(self.kind, *buy_price, *sell_price);
            assert(s0 + Seq::<(Seq<char>, Seq<char>)>::empty() =~= s0);
        }
    }

    /// Opens the item window when the mouse enters the button, unless one
    /// is open or there is no item: gives the window's arguments for
    /// `item`, where `checks` tells whether the player concerned is
    /// proficient with it and meets its prerequisites, and `armor` is what
    /// the armor of its bonuses (`armor_bonuses`) totals.
    pub fn on_mouse_enter(
        &mut self,
        item: Option<&ItemInfo>,
        checks: Option<(bool, bool)>,
        buy_price: &Option<String>,
        sell_price: &Option<String>,
        names: &ModuleNames,
        display_ap: u32,
        armor: &ArmorTotals,
    ) -> (window: Option<TextArgs>)
        requires
            !old(self).item_window_open ==> (item matches Some(it) ==> item_shown_by(*it, display_ap)),
        ensures
            final(self).kind == old(self).kind,
            final(self).actions == old(self).actions,
            final(self).item_index == old(self).item_index,
            if old(self).item_window_open || item is None {
                window is None && final(self).item_window_open == old(self).item_window_open
            } else {
                &&& final(self).item_window_open
                &&& window matches Some(w) && w@ == item_window_args(
                    old(self).kind, *item->0, checks, *buy_price, *sell_price, *names, display_ap, *armor)
            },
    {
        if self.item_window_open {
            return None;
        }
        let item = match item {
            None => return None,
            Some(i) => i,
        };
        let mut args = TextArgs::new();
        let ghost x1 = requirement_args(self.kind, checks);
        let ghost x2 = seq![("name"@, item.name@), ("value"@, item.value_text@), ("weight"@, item.weight_text@)];
        let ghost x3 = price_args(self.kind, *buy_price, *sell_price);
        let ghost x4 = opt_prereq_args(item.prereqs, *names);
        let ghost x5 = opt_usable_args(item.usable, display_ap);
        let ghost x6 = opt_equippable_args(item.equippable, display_ap, *armor);
        match &self.kind {
            ItemButtonKind::Inventory { .. } | ItemButtonKind::Merchant { .. } => {
                match checks {
                    Some((proficient, meets)) => {
                        if !proficient {
                            args.add_text_arg("prof_not_met", "true");
                        }
                        if !meets {
                            args.add_text_arg("prereqs_not_met", "true");
                        }
                    },
                    None => {},
                }
            },
            _ => {},
        }
        proof {
            assert(args@ =~= x1);
        }
        args.add_text_arg("name", item.name.as_str());
        args.add_text_arg("value", item.value_text.as_str());
        args.add_text_arg("weight", item.weight_text.as_str());
        proof {
            assert(args@ =~= x1 + x2);
        }
        self.add_price_text_arg(buy_price, sell_price, &mut args);
        match &item.prereqs {
            Some(p) => add_prereq_text_args(p, names, &mut args),
            None => {},
        }
        proof {
            assert(args@ =~= x1 + x2 + x3 + x4);
        }
        match &item.usable {
            Some(u) => add_usable_text_args(u, display_ap, &mut args),
            None => {},
        }
        proof {
            assert(args@ =~= x1 + x2 + x3 + x4 + x5);
        }
        let ghost s5 = args@;
        match &item.equippable {
            Some(e) => add_equippable_args(e, display_ap, armor, &mut args),
            None => {
                proof {
                    assert(args@ =~= s5 + Seq::<(Seq<char>, Seq<char>)>::empty());
                }
            },
        }
        proof {
            assert(args@ =~= x1 + x2 + x3 + x4 + x5 + x6);
        }
        self.item_window_open = true;
        Some(args)
    }
}


/// A left click runs the first entry of the menu a right click would open,
/// and does nothing exactly where that menu would be empty.
pub proof fn lemma_left_click_is_first_menu_entry<C>(actions: Seq<(String, C)>, sell: bool)
    ensures
        spec_menu_entries(actions, sell).len() == actions.len() + if sell { 1int } else { 0int },
        spec_menu_entries(actions, sell).len() > 0 ==> spec_menu_entries(actions, sell)[0].1 == (if sell {
            MenuEntry::Sell
        } else {
            MenuEntry::Action(0)
        }),
{
}

} // verus!
