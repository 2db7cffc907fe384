use sulis::geometry::Point;
use sulis::item_button::{
    buy_item, drop_item, sell_item, set_quickslot, ClickKind, DropTarget, Equippable, ItemButton, ItemButtonKind, ItemInfo,
    MenuEntry, ReleaseResponse,
};
use sulis::item_text::{
    add_armor_text_args, add_attack_text_args, armor_bonuses, add_bonus_text_args, add_prereq_text_args, add_usable_text_args,
    ArmorKindTotal, ArmorTotals, AttackBonuses, AttackBuilder, AttackKindBuilder, Bonus, BonusKind, Damage, Duration, ModuleNames, PrereqList, ShownInt, Usable,
};
use sulis::text::TextArgs;

fn s(x: &str) -> String {
    x.to_string()
}

fn no_armor() -> ArmorTotals {
    ArmorTotals { is_empty: true, base: 0, kinds: vec![] }
}

fn zero() -> ShownInt {
    ShownInt { value: 0, text: s("0") }
}

fn no_bonuses() -> AttackBonuses {
    AttackBonuses {
        crit_threshold: zero(),
        hit_threshold: zero(),
        graze_threshold: zero(),
        graze_multiplier: None,
        hit_multiplier: None,
        crit_multiplier: None,
        melee_accuracy: zero(),
        ranged_accuracy: zero(),
        spell_accuracy: zero(),
        damage: None,
    }
}

#[test]
fn constructors_set_kind_and_quantity() {
    let b: ItemButton<u8, u8> = ItemButton::equipped(4, s("sword"), 2);
    assert_eq!(b.quantity, 1);
    assert!(matches!(b.kind, ItemButtonKind::Equipped { player: 4 }));
    let m: ItemButton<u8, u8> = ItemButton::merchant(s("gem"), 3, 0, "smith");
    assert!(matches!(&m.kind, ItemButtonKind::Merchant { id } if id == "smith"));
    let p: ItemButton<u8, u8> = ItemButton::prop(s("gem"), 3, 1, 9);
    assert!(matches!(p.kind, ItemButtonKind::Prop { index: 9 }));
    assert!(!p.item_window_open);
}

#[test]
fn quantity_label_only_above_one() {
    let b: ItemButton<u8, u8> = ItemButton::inventory(1, s("potion"), 12, 0);
    let (icon, qty) = b.on_add();
    assert_eq!(icon.get("icon"), Some(s("potion")));
    assert_eq!(qty.get("quantity"), Some(s("12")));
    let one: ItemButton<u8, u8> = ItemButton::inventory(1, s("potion"), 1, 0);
    assert_eq!(one.on_add().1.len(), 0);
}

#[test]
fn left_click_prefers_sale_then_first_action() {
    let mut b: ItemButton<u8, u32> = ItemButton::inventory(1, s("potion"), 1, 0);
    assert!(matches!(b.on_mouse_release(ClickKind::Left, false), ReleaseResponse::Nothing));
    b.add_action("Use", 10);
    b.add_action("Drop", 20);
    assert!(matches!(b.on_mouse_release(ClickKind::Left, false), ReleaseResponse::Run(MenuEntry::Action(0))));
    assert!(matches!(b.on_mouse_release(ClickKind::Left, true), ReleaseResponse::Run(MenuEntry::Sell)));
    assert!(matches!(b.on_mouse_release(ClickKind::Middle, true), ReleaseResponse::Unhandled));
}

#[test]
fn right_click_menu_lists_sale_then_actions() {
    let mut b: ItemButton<u8, u32> = ItemButton::inventory(1, s("potion"), 1, 0);
    assert!(matches!(b.on_mouse_release(ClickKind::Right, false), ReleaseResponse::Nothing));
    b.add_action("Use", 10);
    b.add_action("Drop", 20);
    match b.on_mouse_release(ClickKind::Right, true) {
        ReleaseResponse::Menu(m) => {
            assert_eq!(m, vec![(s("Sell"), MenuEntry::Sell), (s("Use"), MenuEntry::Action(0)), (s("Drop"), MenuEntry::Action(1))]);
        },
        _ => panic!("expected a menu"),
    }
    let mut p: ItemButton<u8, u32> = ItemButton::prop(s("gem"), 1, 0, 0);
    p.add_action("Take", 1);
    match p.on_mouse_release(ClickKind::Right, true) {
        ReleaseResponse::Menu(m) => assert_eq!(m, vec![(s("Take"), MenuEntry::Action(0))]),
        _ => panic!("expected a menu"),
    }
}

#[test]
fn release_closes_item_window() {
    let mut b: ItemButton<u8, u32> = ItemButton::inventory(1, s("potion"), 1, 0);
    b.item_window_open = true;
    b.on_mouse_release(ClickKind::Middle, false);
    assert!(!b.item_window_open);
}

#[test]
fn item_state_lookups() {
    let inv = vec![(1u32, s("sword")), (2u32, s("arrow"))];
    let props = vec![None, Some(vec![(1u32, s("ring"))])];
    let merchants = vec![(s("smith"), vec![(1u32, s("hammer"))]), (s("smith"), vec![(1u32, s("other"))])];
    let b: ItemButton<u8, u8> = ItemButton::inventory(0, s("i"), 1, 1);
    assert_eq!(b.get_item_state(&inv, &props, &merchants), Some(s("arrow")));
    let b: ItemButton<u8, u8> = ItemButton::equipped(0, s("i"), 5);
    assert_eq!(b.get_item_state(&inv, &props, &merchants), None);
    let b: ItemButton<u8, u8> = ItemButton::prop(s("i"), 1, 0, 1);
    assert_eq!(b.get_item_state(&inv, &props, &merchants), Some(s("ring")));
    let b: ItemButton<u8, u8> = ItemButton::prop(s("i"), 1, 0, 0);
    assert_eq!(b.get_item_state(&inv, &props, &merchants), None);
    let b: ItemButton<u8, u8> = ItemButton::prop(s("i"), 1, 0, 7);
    assert_eq!(b.get_item_state(&inv, &props, &merchants), None);
    let b: ItemButton<u8, u8> = ItemButton::merchant(s("i"), 1, 0, "smith");
    assert_eq!(b.get_item_state(&inv, &props, &merchants), Some(s("hammer")));
    let b: ItemButton<u8, u8> = ItemButton::merchant(s("i"), 1, 0, "baker");
    assert_eq!(b.get_item_state(&inv, &props, &merchants), None);
}

#[test]
fn buying_needs_an_item_and_coins() {
    assert_eq!(buy_item(100, Some(40)), Some(-40));
    assert_eq!(buy_item(40, Some(40)), Some(-40));
    assert_eq!(buy_item(39, Some(40)), None);
    assert_eq!(buy_item(100, None), None);
}

#[test]
fn quickslot_first_free_else_first() {
    assert_eq!(set_quickslot(&vec![true, false, false]), 1);
    assert_eq!(set_quickslot(&vec![true, true, true]), 0);
    assert_eq!(set_quickslot(&vec![false, true]), 0);
}

#[test]
fn drop_goes_to_open_prop_or_ground() {
    assert_eq!(drop_item(Some(3), Point::new(1, 2)), DropTarget::Prop(3));
    assert_eq!(drop_item(None, Point::new(1, 2)), DropTarget::Ground(Point::new(1, 2)));
}

#[test]
fn prereq_args_number_levels_by_position() {
    let prereqs = PrereqList {
        attributes: Some(vec![(s("Str"), 12u8)]),
        levels: vec![(s("ghost_class"), 3u32), (s("fighter"), 2u32)],
        total_level: Some(4),
        race: Some(s("elf")),
        abilities: vec![s("missing"), s("cleave")],
    };
    let names = ModuleNames {
        classes: vec![(s("fighter"), s("Fighter"))],
        abilities: vec![(s("cleave"), s("Cleave"))],
    };
    let mut state = TextArgs::new();
    add_prereq_text_args(&prereqs, &names, &mut state);
    assert_eq!(state.get("prereqs"), Some(s("true")));
    assert_eq!(state.get("prereq_Str"), Some(s("12")));
    assert_eq!(state.get("prereq_class_0"), None);
    assert_eq!(state.get("prereq_class_1"), Some(s("Fighter")));
    assert_eq!(state.get("prereq_level_1"), Some(s("2")));
    assert_eq!(state.get("prereq_total_level"), Some(s("4")));
    assert_eq!(state.get("prereq_race"), Some(s("elf")));
    assert_eq!(state.get("prereq_ability_0"), None);
    assert_eq!(state.get("prereq_ability_1"), Some(s("Cleave")));
    assert_eq!(state.len(), 7);
}

#[test]
fn attack_args() {
    let mut b = no_bonuses();
    b.crit_threshold = ShownInt { value: -5, text: s("-5") };
    b.hit_multiplier = Some(s("1.5"));
    b.damage = Some(Damage { min: 1, max: 2, ap: 0, kind: Some(s("Fire")) });
    let attack = AttackBuilder {
        damage: Damage { min: 3, max: 8, ap: 2, kind: None },
        kind: AttackKindBuilder::Melee { reach: s("1.5") },
        bonuses: b,
    };
    let mut state = TextArgs::new();
    add_attack_text_args(&attack, &mut state);
    assert_eq!(state.get("min_damage"), Some(s("3")));
    assert_eq!(state.get("max_damage"), Some(s("8")));
    assert_eq!(state.get("armor_penetration"), Some(s("2")));
    assert_eq!(state.get("damage_kind"), None);
    assert_eq!(state.get("reach"), Some(s("1.5")));
    assert_eq!(state.get("attack_crit_threshold"), Some(s("-5")));
    assert_eq!(state.get("attack_hit_threshold"), None);
    assert_eq!(state.get("attack_hit_multiplier"), Some(s("1.5")));
    assert_eq!(state.get("attack_min_bonus_damage"), Some(s("1")));
    assert_eq!(state.get("attack_bonus_damage_kind"), Some(s("Fire")));
    assert_eq!(state.len(), 9);
}

#[test]
fn usable_args() {
    let u = Usable { ap: 2000, consumable: true, duration: Duration::Rounds(3), short_description: s("Heals") };
    let mut state = TextArgs::new();
    add_usable_text_args(&u, 1000, &mut state);
    assert_eq!(state.get("usable_ap"), Some(s("2")));
    assert_eq!(state.get("consumable"), Some(s("true")));
    assert_eq!(state.get("usable_duration"), Some(s("3")));
    assert_eq!(state.get("usable_description"), Some(s("Heals")));
    let m = Usable { ap: 999, consumable: false, duration: Duration::Mode, short_description: s("") };
    let mut state = TextArgs::new();
    add_usable_text_args(&m, 1000, &mut state);
    assert_eq!(state.get("usable_ap"), Some(s("0")));
    assert_eq!(state.get("consumable"), None);
    assert_eq!(state.get("usable_mode"), Some(s("true")));
}

fn always(kind: BonusKind) -> Bonus {
    Bonus { kind, always: true }
}

#[test]
fn bonus_args_number_damages_and_groups() {
    let bonuses = vec![
        always(BonusKind::Damage(Damage { min: 1, max: 3, ap: 0, kind: None })),
        Bonus { kind: BonusKind::Damage(Damage { min: 9, max: 9, ap: 9, kind: None }), always: false },
        always(BonusKind::Damage(Damage { min: 0, max: 0, ap: 4, kind: Some(s("Acid")) })),
        always(BonusKind::GroupUsesPerEncounter { group: s("Fighter"), amount: s("2") }),
        always(BonusKind::ActionPoints(-1500)),
        always(BonusKind::Armor(3)),
        always(BonusKind::ArmorKind { kind: s("Fire"), amount: 2 }),
        always(BonusKind::RangedAccuracy(5)),
        always(BonusKind::ArmorProficiency(s("Heavy"))),
        always(BonusKind::Hidden),
        always(BonusKind::Attribute { attribute: s("Dex"), amount: -2 }),
    ];
    let mut state = TextArgs::new();
    let armor = armor_bonuses(&bonuses);
    add_bonus_text_args(&bonuses, 1000, &no_armor(), &mut state);
    assert_eq!(state.get("min_bonus_damage_0"), Some(s("1")));
    assert_eq!(state.get("max_bonus_damage_0"), Some(s("3")));
    assert_eq!(state.get("armor_penetration_0"), None);
    assert_eq!(state.get("min_bonus_damage_1"), None);
    assert_eq!(state.get("armor_penetration_1"), Some(s("4")));
    assert_eq!(state.get("bonus_damage_kind_1"), Some(s("Acid")));
    assert_eq!(state.get("ability_group_0"), Some(s("Fighter")));
    assert_eq!(state.get("ability_group_0_uses_per_encounter"), Some(s("2")));
    assert_eq!(state.get("bonus_ap"), Some(s("-1")));
    assert_eq!(state.get("ranged_accuracy"), Some(s("5")));
    assert_eq!(state.get("armor_proficiency_Heavy"), Some(s("true")));
    assert_eq!(state.get("hidden"), Some(s("true")));
    assert_eq!(state.get("Dex"), Some(s("-2")));
    assert_eq!(state.get("any_accuracy"), Some(s("true")));
    assert_eq!(armor.len(), 2);
    assert_eq!(armor[0].kind, None);
    assert_eq!(armor[0].amount, 3);
    assert_eq!(armor[1].kind, Some(s("Fire")));
    assert_eq!(armor[1].amount, 2);
}

#[test]
fn item_window_args_in_order() {
    let item = ItemInfo {
        name: s("Sword"),
        value_text: s("10 coins"),
        weight_text: s("2.5 lbs"),
        prereqs: None,
        usable: None,
        equippable: Some(Equippable {
            attack: Some(AttackBuilder {
                damage: Damage { min: 2, max: 5, ap: 0, kind: Some(s("Slashing")) },
                kind: AttackKindBuilder::Ranged { range: s("8") },
                bonuses: no_bonuses(),
            }),
            bonuses: vec![always(BonusKind::Defense(2))],
        }),
    };
    let names = ModuleNames { classes: vec![], abilities: vec![] };
    let mut b: ItemButton<u8, u8> = ItemButton::merchant(s("sword"), 1, 0, "smith");
    let w = b.on_mouse_enter(Some(&item), Some((false, true)), &Some(s("12 coins")), &Some(s("3 coins")), &names, 1000, &no_armor()).unwrap();
    assert!(b.item_window_open);
    assert_eq!(w.get("prof_not_met"), Some(s("true")));
    assert_eq!(w.get("prereqs_not_met"), None);
    assert_eq!(w.get("name"), Some(s("Sword")));
    assert_eq!(w.get("value"), Some(s("10 coins")));
    assert_eq!(w.get("weight"), Some(s("2.5 lbs")));
    assert_eq!(w.get("price"), Some(s("12 coins")));
    assert_eq!(w.get("range"), Some(s("8")));
    assert_eq!(w.get("damage_kind"), Some(s("Slashing")));
    assert_eq!(w.get("defense"), Some(s("2")));
    assert!(b.on_mouse_enter(Some(&item), None, &None, &None, &names, 1000, &no_armor()).is_none());
    let mut e: ItemButton<u8, u8> = ItemButton::equipped(0, s("sword"), 0);
    let w = e.on_mouse_enter(Some(&item), Some((false, false)), &Some(s("12 coins")), &Some(s("3 coins")), &names, 1000, &no_armor()).unwrap();
    assert_eq!(w.get("price"), Some(s("3 coins")));
    assert_eq!(w.get("prof_not_met"), None);
    let mut none: ItemButton<u8, u8> = ItemButton::prop(s("x"), 1, 0, 0);
    assert!(none.on_mouse_enter(None, None, &None, &None, &names, 1000, &no_armor()).is_none());
    assert!(!none.item_window_open);
}

#[test]
fn armor_args_from_totals() {
    let totals = ArmorTotals {
        is_empty: false,
        base: 4,
        kinds: vec![
            ArmorKindTotal { name: s("slashing"), differs_from_base: false, amount: 4 },
            ArmorKindTotal { name: s("fire"), differs_from_base: true, amount: 7 },
            ArmorKindTotal { name: s("acid"), differs_from_base: true, amount: 0 },
        ],
    };
    let mut state = TextArgs::new();
    add_armor_text_args(&totals, &mut state);
    assert_eq!(state.len(), 4);
    assert_eq!(state.get("any_armor"), Some(s("true")));
    assert_eq!(state.get("armor"), Some(s("4")));
    assert_eq!(state.get("armor_slashing"), None);
    assert_eq!(state.get("armor_fire"), Some(s("7")));
    assert_eq!(state.get("armor_acid"), Some(s("0")));
}

#[test]
fn armor_args_empty_and_zero_base() {
    let totals = ArmorTotals { is_empty: true, base: 0, kinds: vec![] };
    let mut state = TextArgs::new();
    add_armor_text_args(&totals, &mut state);
    assert_eq!(state.len(), 0);
    let kinds_only = ArmorTotals {
        is_empty: false,
        base: 0,
        kinds: vec![ArmorKindTotal { name: s("cold"), differs_from_base: true, amount: 2 }],
    };
    add_armor_text_args(&kinds_only, &mut state);
    assert_eq!(state.get("any_armor"), Some(s("true")));
    assert_eq!(state.get("armor"), None);
    assert_eq!(state.get("armor_cold"), Some(s("2")));
}

#[test]
fn bonus_ap_divides_as_i32() {
    let bonuses = vec![always(BonusKind::ActionPoints(500)), always(BonusKind::AttackCost(-250))];
    let mut state = TextArgs::new();
    add_bonus_text_args(&bonuses, 4294967196, &no_armor(), &mut state);
    assert_eq!(state.get("bonus_ap"), Some(s("-5")));
    assert_eq!(state.get("attack_cost"), Some(s("2")));
    let mut plain = TextArgs::new();
    add_bonus_text_args(&vec![always(BonusKind::Defense(1))], 0, &no_armor(), &mut plain);
    assert_eq!(plain.get("defense"), Some(s("1")));
}

#[test]
fn mouse_enter_with_window_open_changes_nothing() {
    let item = ItemInfo {
        name: s("Potion"),
        value_text: s("1 coin"),
        weight_text: s("0.1 lbs"),
        prereqs: None,
        usable: Some(Usable { ap: 1000, consumable: true, duration: Duration::Instant, short_description: s("Heals") }),
        equippable: None,
    };
    let names = ModuleNames { classes: vec![], abilities: vec![] };
    let mut b: ItemButton<u8, u8> = ItemButton::prop(s("potion"), 1, 0, 0);
    let w = b.on_mouse_enter(Some(&item), None, &None, &None, &names, 500, &no_armor()).unwrap();
    assert_eq!(w.get("usable_ap"), Some(s("2")));
    assert!(b.item_window_open);
    assert!(b.on_mouse_enter(Some(&item), None, &None, &None, &names, 0, &no_armor()).is_none());
    assert!(b.item_window_open);
}

#[test]
fn sell_item_needs_merchant_and_item() {
    assert_eq!(sell_item(true, Some(12)), Some(12));
    assert_eq!(sell_item(true, None), None);
    assert_eq!(sell_item(false, Some(12)), None);
}

#[test]
fn attack_args_show_large_numbers_by_their_text() {
    let mut b = no_bonuses();
    b.crit_threshold = ShownInt { value: 16777217, text: s("16777216") };
    b.spell_accuracy = ShownInt { value: -3, text: s("-3") };
    let attack = AttackBuilder {
        damage: Damage { min: 1, max: 1, ap: 0, kind: None },
        kind: AttackKindBuilder::Ranged { range: s("6") },
        bonuses: b,
    };
    let mut state = TextArgs::new();
    add_attack_text_args(&attack, &mut state);
    assert_eq!(state.get("attack_crit_threshold"), Some(s("16777216")));
    assert_eq!(state.get("attack_spell_accuracy"), Some(s("-3")));
    assert_eq!(state.get("attack_melee_accuracy"), None);
    assert_eq!(state.len(), 5);
}

#[test]
fn bonus_args_end_with_armor_totals() {
    let bonuses = vec![
        always(BonusKind::MeleeAccuracy(2)),
        always(BonusKind::Armor(5)),
        Bonus { kind: BonusKind::ArmorKind { kind: s("Cold"), amount: 9 }, always: false },
    ];
    let armor = armor_bonuses(&bonuses);
    assert_eq!(armor.len(), 1);
    assert_eq!(armor[0].amount, 5);
    let totals = ArmorTotals {
        is_empty: false,
        base: 5,
        kinds: vec![ArmorKindTotal { name: s("cold"), differs_from_base: false, amount: 5 }],
    };
    let mut state = TextArgs::new();
    add_bonus_text_args(&bonuses, 1000, &totals, &mut state);
    assert_eq!(state.len(), 4);
    assert_eq!(state.get("melee_accuracy"), Some(s("2")));
    assert_eq!(state.get("any_accuracy"), Some(s("true")));
    assert_eq!(state.get("any_armor"), Some(s("true")));
    assert_eq!(state.get("armor"), Some(s("5")));
}

#[test]
fn item_window_shows_armor_only_for_equipment() {
    let totals = ArmorTotals { is_empty: false, base: 3, kinds: vec![] };
    let names = ModuleNames { classes: vec![], abilities: vec![] };
    let shield = ItemInfo {
        name: s("Shield"),
        value_text: s("4 coins"),
        weight_text: s("6 lbs"),
        prereqs: None,
        usable: None,
        equippable: Some(Equippable { attack: None, bonuses: vec![always(BonusKind::Armor(3))] }),
    };
    let mut b: ItemButton<u8, u8> = ItemButton::prop(s("shield"), 1, 0, 0);
    let w = b.on_mouse_enter(Some(&shield), None, &None, &None, &names, 1000, &totals).unwrap();
    assert_eq!(w.get("any_armor"), Some(s("true")));
    assert_eq!(w.get("armor"), Some(s("3")));
    let rock = ItemInfo { name: s("Rock"), value_text: s("0"), weight_text: s("1 lbs"), prereqs: None, usable: None, equippable: None };
    let mut r: ItemButton<u8, u8> = ItemButton::prop(s("rock"), 1, 0, 0);
    let w = r.on_mouse_enter(Some(&rock), None, &None, &None, &names, 1000, &totals).unwrap();
    assert_eq!(w.get("any_armor"), None);
    assert_eq!(w.len(), 3);
}
