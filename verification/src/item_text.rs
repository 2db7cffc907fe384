//! The text arguments of an item's window: prerequisites, use, attack and
//! bonuses, from the item's data as plain values.
use vstd::prelude::*;

use vstd::string::*;

use crate::text::{decimal, signed_decimal, TextArgs};

verus! {

/// The prerequisites of an item: attribute minimums (by the attribute's
/// short name), class levels (by class id), a total level, a race (by id)
/// and abilities (by id).
pub struct PrereqList {
    pub attributes: Option<Vec<(String, u8)>>,
    pub levels: Vec<(String, u32)>,
    pub total_level: Option<u32>,
    pub race: Option<String>,
    pub abilities: Vec<String>,
}

/// The display names of a module's classes and abilities, by id.
pub struct ModuleNames {
    pub classes: Vec<(String, String)>,
    pub abilities: Vec<(String, String)>,
}

/// A run of text arguments, as plain values.
pub type ArgsView = Seq<(Seq<char>, Seq<char>)>;

/// The name that the first entry of `table` with the id `id` gives.
pub open spec fn name_of(table: Seq<(String, String)>, id: Seq<char>) -> Option<Seq<char>>
    decreases table.len(),
{
    if table.len() == 0 {
        None
    } else if table[0].0@ == id {
        Some(table[0].1@)
    } else {
        name_of(table.drop_first(), id)
    }
}

/// The name that `table` gives `id`.
pub fn lookup_name(table: &Vec<(String, String)>, id: &String) -> (r: Option<String>)
    ensures
        match name_of(table@, id@) {
            Some(n) => r matches Some(s) && s@ == n,
            None => r is None,
        },
{
    let n = table.len();
    let mut i: usize = 0;
    proof {
        assert(table@.skip(0) == table@);
    }
    while i < n
        invariant
            n == table@.len(),
            i <= n,
            name_of(table@, id@) == name_of(table@.skip(i as int), id@),
        decreases n - i,
    {
        proof {
            assert(table@.skip(i as int).drop_first() == table@.skip(i + 1));
            assert(table@.skip(i as int)[0] == table@[i as int]);
        }
        if table[i].0 == *id {
            return Some(table[i].1.clone());
        }
        i = i + 1;
    }
    None
}

/// One argument per attribute minimum: "prereq_" and the attribute's short
/// name, to the amount.
pub open spec fn attribute_args(attrs: Seq<(String, u8)>) -> ArgsView {
    Seq::new(attrs.len(), |i: int| ("prereq_"@ + attrs[i].0@, decimal(attrs[i].1 as nat)))
}

/// For each class level whose class the module names, "prereq_class_<i>"
/// to the class's name and "prereq_level_<i>" to the level, where `i` is
/// its position among all the levels.
pub open spec fn level_args(levels: Seq<(String, u32)>, classes: Seq<(String, String)>) -> ArgsView
    decreases levels.len(),
{
    if levels.len() == 0 {
        Seq::empty()
    } else {
        let i = (levels.len() - 1) as nat;
        let init = level_args(levels.drop_last(), classes);
        match name_of(classes, levels.last().0@) {
            Some(name) => init + seq![
                ("prereq_class_"@ + decimal(i), name),
                ("prereq_level_"@ + decimal(i), decimal(levels.last().1 as nat)),
            ],
            None => init,
        }
    }
}

/// For each ability that the module names, "prereq_ability_<i>" to the
/// ability's name, where `i` is its position among all the abilities.
pub open spec fn ability_args(abilities: Seq<String>, names: Seq<(String, String)>) -> ArgsView
    decreases abilities.len(),
{
    if abilities.len() == 0 {
        Seq::empty()
    } else {
        let i = (abilities.len() - 1) as nat;
        let init = ability_args(abilities.drop_last(), names);
        match name_of(names, abilities.last()@) {
            Some(name) => init.push(("prereq_ability_"@ + decimal(i), name)),
            None => init,
        }
    }
}

/// The arguments of a prerequisite list: "prereqs", the attributes, the
/// class levels, the total level, the race and the abilities, in that order.
pub open spec fn prereq_args(p: PrereqList, names: ModuleNames) -> ArgsView {
    seq![("prereqs"@, "true"@)]
        + match p.attributes {
            Some(a) => attribute_args(a@),
            None => Seq::empty(),
        }
        + level_args(p.levels@, names.classes@)
        + match p.total_level {
            Some(t) => seq![("prereq_total_level"@, decimal(t as nat))],
            None => Seq::empty(),
        }
        + match p.race {
            Some(r) => seq![("prereq_race"@, r@)],
            None => Seq::empty(),
        }
        + ability_args(p.abilities@, names.abilities@)
}

/// Adds the arguments of a prerequisite list.
pub fn add_prereq_text_args(prereqs: &PrereqList, names: &ModuleNames, state: &mut TextArgs)
    ensures
        final(state)@ == old(state)@ + prereq_args(*prereqs, *names),
{
    state.add_text_arg("prereqs", "true");
    let ghost after_head = state@;
    match &prereqs.attributes {
        Some(attrs) => {
            let n = attrs.len();
            let mut i: usize = 0;
            while i < n
                invariant
                    n == attrs@.len(),
                    i <= n,
                    state@ == after_head + attribute_args(attrs@.take(i as int)),
                decreases n - i,
            {
                let mut key = String::from_str("prereq_");
                key.append(attrs[i].0.as_str());
                state.add_u64(key.as_str(), attrs[i].1 as u64);
                proof {
                    assert(attribute_args(attrs@.take(i + 1)) =~= attribute_args(attrs@.take(i as int)).push(
                        ("prereq_"@ + attrs@[i as int].0@, decimal(attrs@[i as int].1 as nat))));
                }
                i = i + 1;
            }
            proof {
                assert(attrs@.take(n as int) == attrs@);
            }
        },
        None => {
            proof {
                assert(state@ == after_head + Seq::<(Seq<char>, Seq<char>)>::empty());
            }
        },
    }
    let ghost after_attrs = state@;
    let n = prereqs.levels.len();
    let mut i: usize = 0;
    while i < n
        invariant
            n == prereqs.levels@.len(),
            i <= n,
            state@ == after_attrs + level_args(prereqs.levels@.take(i as int), names.classes@),
        decreases n - i,
    {
        proof {
            assert(prereqs.levels@.take(i + 1).drop_last() == prereqs.levels@.take(i as int));
            assert(prereqs.levels@.take(i + 1).last() == prereqs.levels@[i as int]);
        }
        match lookup_name(&names.classes, &prereqs.levels[i].0) {
            Some(class_name) => {
                let k1 = crate::text::numbered("prereq_class_", i as u64);
                state.add_text_arg(k1.as_str(), class_name.as_str());
                let k2 = crate::text::numbered("prereq_level_", i as u64);
                state.add_u64(k2.as_str(), prereqs.levels[i].1 as u64);
            },
            None => {},
        }
        i = i + 1;
    }
    proof {
        assert(prereqs.levels@.take(n as int) == prereqs.levels@);
    }
    let ghost after_levels = state@;
    match prereqs.total_level {
        Some(t) => state.add_u64("prereq_total_level", t as u64),
        None => {},
    }
    match &prereqs.race {
        Some(r) => state.add_text_arg("prereq_race", r.as_str()),
        None => {},
    }
    let ghost after_race = state@;
    let m = prereqs.abilities.len();
    let mut j: usize = 0;
    while j < m
        invariant
            m == prereqs.abilities@.len(),
            j <= m,
            state@ == after_race + ability_args(prereqs.abilities@.take(j as int), names.abilities@),
        decreases m - j,
    {
        proof {
            assert(prereqs.abilities@.take(j + 1).drop_last() == prereqs.abilities@.take(j as int));
            assert(prereqs.abilities@.take(j + 1).last() == prereqs.abilities@[j as int]);
        }
        match lookup_name(&names.abilities, &prereqs.abilities[j]) {
            Some(ability_name) => {
                let k = crate::text::numbered("prereq_ability_", j as u64);
                state.add_text_arg(k.as_str(), ability_name.as_str());
            },
            None => {},
        }
        j = j + 1;
    }
    proof {
        assert(prereqs.abilities@.take(m as int) == prereqs.abilities@);
        assert(state@ =~= old(state)@ + prereq_args(*prereqs, *names));
    }
}


/// An amount of damage. `kind` is the display name of its damage kind.
pub struct Damage {
    pub min: u32,
    pub max: u32,
    pub ap: u32,
    pub kind: Option<String>,
}

/// How an attack reaches its target, with the distance's display text.
pub enum AttackKindBuilder {
    Melee { reach: String },
    Ranged { range: String },
}

/// A whole number of an attack's bonuses, with the text it is shown by
/// (its value as an `f32`).
pub struct ShownInt {
    pub value: i32,
    pub text: String,
}

/// The bonuses of an attack. The thresholds and accuracies are whole
/// numbers with their display text; the multipliers are given by their
/// display text, `None` where they are zero.
pub struct AttackBonuses {
    pub crit_threshold: ShownInt,
    pub hit_threshold: ShownInt,
    pub graze_threshold: ShownInt,
    pub graze_multiplier: Option<String>,
    pub hit_multiplier: Option<String>,
    pub crit_multiplier: Option<String>,
    pub melee_accuracy: ShownInt,
    pub ranged_accuracy: ShownInt,
    pub spell_accuracy: ShownInt,
    pub damage: Option<Damage>,
}

/// An attack of an item.
pub struct AttackBuilder {
    pub damage: Damage,
    pub kind: AttackKindBuilder,
    pub bonuses: AttackBonuses,
}

/// An argument for `value` only where it is present.
#[verifier::opaque]
pub open spec fn opt_arg(name: Seq<char>, value: Option<String>) -> ArgsView {
    match value {
        Some(v) => seq![(name, v@)],
        None => Seq::empty(),
    }
}

/// An argument for `n`, by its text, only where it is not zero.
#[verifier::opaque]
pub open spec fn nonzero_arg(name: Seq<char>, n: ShownInt) -> ArgsView {
    if n.value != 0 {
        seq![(name, n.text@)]
    } else {
        Seq::empty()
    }
}

/// The arguments of an attack's own damage and reach: its damage, armor
/// penetration where there is any, damage kind, and reach or range.
pub open spec fn attack_damage_args(a: AttackBuilder) -> ArgsView {
    seq![("min_damage"@, decimal(a.damage.min as nat)), ("max_damage"@, decimal(a.damage.max as nat))]
        + (if a.damage.ap > 0 {
            seq![("armor_penetration"@, decimal(a.damage.ap as nat))]
        } else {
            Seq::empty()
        })
        + opt_arg("damage_kind"@, a.damage.kind)
        + match a.kind {
            AttackKindBuilder::Melee { reach } => seq![("reach"@, reach@)],
            AttackKindBuilder::Ranged { range } => seq![("range"@, range@)],
        }
}

/// The arguments of an attack's bonuses: those that are not zero, then the
/// bonus damage.
pub open spec fn attack_bonus_args(b: AttackBonuses) -> ArgsView {
    nonzero_arg("attack_crit_threshold"@, b.crit_threshold)
        + nonzero_arg("attack_hit_threshold"@, b.hit_threshold)
        + nonzero_arg("attack_graze_threshold"@, b.graze_threshold)
        + opt_arg("attack_graze_multiplier"@, b.graze_multiplier)
        + opt_arg("attack_hit_multiplier"@, b.hit_multiplier)
        + opt_arg("attack_crit_multiplier"@, b.crit_multiplier)
        + nonzero_arg("attack_melee_accuracy"@, b.melee_accuracy)
        + nonzero_arg("attack_ranged_accuracy"@, b.ranged_accuracy)
        + nonzero_arg("attack_spell_accuracy"@, b.spell_accuracy)
        + bonus_damage_args(b.damage)
}

/// The arguments of an attack's bonus damage, if it has any.
pub open spec fn bonus_damage_args(damage: Option<Damage>) -> ArgsView {
    match damage {
        Some(d) => seq![
            ("attack_min_bonus_damage"@, decimal(d.min as nat)),
            ("attack_max_bonus_damage"@, decimal(d.max as nat)),
        ] + opt_arg("attack_bonus_damage_kind"@, d.kind),
        None => Seq::empty(),
    }
}

/// The arguments of an attack.
pub open spec fn attack_args(a: AttackBuilder) -> ArgsView {
    attack_damage_args(a) + attack_bonus_args(a.bonuses)
}

fn add_if_present(state: &mut TextArgs, name: &str, value: &Option<String>)
    ensures
        final(state)@ == old(state)@ + opt_arg(name@, *value),
{
    match value {
        Some(v) => state.add_text_arg(name, v.as_str()),
        None => {},
    }
    proof {
        reveal(opt_arg);
        assert(state@ =~= old(state)@ + opt_arg(name@, *value));
    }
}

fn add_if_nonzero(state: &mut TextArgs, name: &str, n: &ShownInt)
    ensures
        final(state)@ == old(state)@ + nonzero_arg(name@, *n),
{
    if n.value != 0 {
        state.add_text_arg(name, n.text.as_str());
    }
    proof {
        reveal(nonzero_arg);
        assert(state@ =~= old(state)@ + nonzero_arg(name@, *n));
    }
}

fn add_attack_damage_args(attack: &AttackBuilder, state: &mut TextArgs)
    ensures
        final(state)@ == old(state)@ + attack_damage_args(*attack),
{
    state.add_u64("min_damage", attack.damage.min as u64);
    state.add_u64("max_damage", attack.damage.max as u64);
    if attack.damage.ap > 0 {
        state.add_u64("armor_penetration", attack.damage.ap as u64);
    }
    add_if_present(state, "damage_kind", &attack.damage.kind);
    match &attack.kind {
        AttackKindBuilder::Melee { reach } => state.add_text_arg("reach", reach.as_str()),
        AttackKindBuilder::Ranged { range } => state.add_text_arg("range", range.as_str()),
    }
    proof {
        assert(state@ =~= old(state)@ + attack_damage_args(*attack));
    }
}

fn add_attack_bonus_args(b: &AttackBonuses, state: &mut TextArgs)
    ensures
        final(state)@ == old(state)@ + attack_bonus_args(*b),
{
    let ghost s0 = state@;
    let ghost x1 = nonzero_arg("attack_crit_threshold"@, b.crit_threshold);
    let ghost x2 = nonzero_arg("attack_hit_threshold"@, b.hit_threshold);
    let ghost x3 = nonzero_arg("attack_graze_threshold"@, b.graze_threshold);
    let ghost x4 = opt_arg("attack_graze_multiplier"@, b.graze_multiplier);
    let ghost x5 = opt_arg("attack_hit_multiplier"@, b.hit_multiplier);
    let ghost x6 = opt_arg("attack_crit_multiplier"@, b.crit_multiplier);
    let ghost x7 = nonzero_arg("attack_melee_accuracy"@, b.melee_accuracy);
    let ghost x8 = nonzero_arg("attack_ranged_accuracy"@, b.ranged_accuracy);
    let ghost x9 = nonzero_arg("attack_spell_accuracy"@, b.spell_accuracy);
    add_if_nonzero(state, "attack_crit_threshold", &b.crit_threshold);
    add_if_nonzero(state, "attack_hit_threshold", &b.hit_threshold);
    proof { assert(state@ =~= s0 + (x1 + x2)); }
    add_if_nonzero(state, "attack_graze_threshold", &b.graze_threshold);
    proof { assert(state@ =~= s0 + (x1 + x2 + x3)); }
    add_if_present(state, "attack_graze_multiplier", &b.graze_multiplier);
    proof { assert(state@ =~= s0 + (x1 + x2 + x3 + x4)); }
    add_if_present(state, "attack_hit_multiplier", &b.hit_multiplier);
    proof { assert(state@ =~= s0 + (x1 + x2 + x3 + x4 + x5)); }
    add_if_present(state, "attack_crit_multiplier", &b.crit_multiplier);
    proof { assert(state@ =~= s0 + (x1 + x2 + x3 + x4 + x5 + x6)); }
    add_if_nonzero(state, "attack_melee_accuracy", &b.melee_accuracy);
    proof { assert(state@ =~= s0 + (x1 + x2 + x3 + x4 + x5 + x6 + x7)); }
    add_if_nonzero(state, "attack_ranged_accuracy", &b.ranged_accuracy);
    proof { assert(state@ =~= s0 + (x1 + x2 + x3 + x4 + x5 + x6 + x7 + x8)); }
    add_if_nonzero(state, "attack_spell_accuracy", &b.spell_accuracy);
    proof { assert(state@ =~= s0 + (x1 + x2 + x3 + x4 + x5 + x6 + x7 + x8 + x9)); }
    let ghost s9 = state@;
    match &b.damage {
        Some(d) => {
            state.add_u64("attack_min_bonus_damage", d.min as u64);
            state.add_u64("attack_max_bonus_damage", d.max as u64);
            add_if_present(state, "attack_bonus_damage_kind", &d.kind);
        },
        None => {},
    }
    let ghost x10 = bonus_damage_args(b.damage);
    proof {
        assert(state@ =~= s9 + x10);
        assert(state@ =~= s0 + (x1 + x2 + x3 + x4 + x5 + x6 + x7 + x8 + x9 + x10));
    }
}

/// An attack shows its damage's minimum and maximum as "min_damage" and
/// "max_damage", first; with bonus damage, it shows that damage's minimum
/// and maximum as "attack_min_bonus_damage" and "attack_max_bonus_damage".
pub proof fn lemma_attack_bonus_damage(a: AttackBuilder)
    ensures
        attack_args(a)[0] == ("min_damage"@, decimal(a.damage.min as nat)),
        attack_args(a)[1] == ("max_damage"@, decimal(a.damage.max as nat)),
        a.bonuses.damage matches Some(d) ==> {
            &&& attack_args(a).contains(("attack_min_bonus_damage"@, decimal(d.min as nat)))
            &&& attack_args(a).contains(("attack_max_bonus_damage"@, decimal(d.max as nat)))
        },
{
    match a.bonuses.damage {
        Some(d) => {
            let b = a.bonuses;
            let q = nonzero_arg("attack_crit_threshold"@, b.crit_threshold)
                + nonzero_arg("attack_hit_threshold"@, b.hit_threshold)
                + nonzero_arg("attack_graze_threshold"@, b.graze_threshold)
                + opt_arg("attack_graze_multiplier"@, b.graze_multiplier)
                + opt_arg("attack_hit_multiplier"@, b.hit_multiplier)
                + opt_arg("attack_crit_multiplier"@, b.crit_multiplier)
                + nonzero_arg("attack_melee_accuracy"@, b.melee_accuracy)
                + nonzero_arg("attack_ranged_accuracy"@, b.ranged_accuracy)
                + nonzero_arg("attack_spell_accuracy"@, b.spell_accuracy);
            let p = attack_damage_args(a) + q;
            let bd = bonus_damage_args(b.damage);
            assert(attack_bonus_args(b) == q + bd);
            assert(attack_args(a) =~= p + bd);
            assert(bd[0] == ("attack_min_bonus_damage"@, decimal(d.min as nat)));
            assert(bd[1] == ("attack_max_bonus_damage"@, decimal(d.max as nat)));
            assert(attack_args(a)[p.len() as int] == bd[0]);
            assert(attack_args(a)[p.len() as int + 1] == bd[1]);
        },
        None => {},
    }
    assert(attack_args(a)[0] == attack_damage_args(a)[0]);
    assert(attack_args(a)[1] == attack_damage_args(a)[1]);
}

/// Adds the arguments of an attack.
pub fn add_attack_text_args(attack: &AttackBuilder, state: &mut TextArgs)
    ensures
        final(state)@ == old(state)@ + attack_args(*attack),
        attack.bonuses.damage matches Some(d) ==> {
            &&& final(state)@.contains(("attack_min_bonus_damage"@, decimal(d.min as nat)))
            &&& final(state)@.contains(("attack_max_bonus_damage"@, decimal(d.max as nat)))
        },
{
    add_attack_damage_args(attack, state);
    add_attack_bonus_args(&attack.bonuses, state);
    proof {
        assert(state@ =~= old(state)@ + attack_args(*attack));
        lemma_attack_bonus_damage(*attack);
        let damage = attack.bonuses.damage;
        match damage {
            Some(d) => {
                let x = attack_args(*attack);
                let i = choose|i: int| 0 <= i < x.len() && x[i] == ("attack_min_bonus_damage"@, decimal(d.min as nat));
                let j = choose|j: int| 0 <= j < x.len() && x[j] == ("attack_max_bonus_damage"@, decimal(d.max as nat));
                assert(state@[old(state)@.len() + i] == x[i]);
                assert(state@[old(state)@.len() + j] == x[j]);
            },
            None => {},
        }
    }
}

/// How long a use of an item lasts.
pub enum Duration {
    Rounds(u32),
    Mode,
    Instant,
    Permanent,
}

/// What using an item costs and does.
pub struct Usable {
    pub ap: u32,
    pub consumable: bool,
    pub duration: Duration,
    pub short_description: String,
}

/// The arguments of a usable item: its cost in displayed action points,
/// whether it is consumed, its duration and its description.
pub open spec fn usable_args(u: Usable, display_ap: u32) -> ArgsView {
    seq![("usable_ap"@, decimal((u.ap / display_ap) as nat))]
        + (if u.consumable {
            seq![("consumable"@, "true"@)]
        } else {
            Seq::empty()
        })
        + match u.duration {
            Duration::Rounds(r) => seq![("usable_duration"@, decimal(r as nat))],
            Duration::Mode => seq![("usable_mode"@, "true"@)],
            Duration::Instant => seq![("usable_instant"@, "true"@)],
            Duration::Permanent => seq![("usable_permanent"@, "true"@)],
        }
        + seq![("usable_description"@, u.short_description@)]
}

/// Adds the arguments of a usable item, with `display_ap` action points
/// shown as one.
pub fn add_usable_text_args(usable: &Usable, display_ap: u32, state: &mut TextArgs)
    requires
        display_ap > 0,
    ensures
        final(state)@ == old(state)@ + usable_args(*usable, display_ap),
{
    let ap = usable.ap / display_ap;
    state.add_u64("usable_ap", ap as u64);
    if usable.consumable {
        state.add_text_arg("consumable", "true");
    }
    match usable.duration {
        Duration::Rounds(rounds) => state.add_u64("usable_duration", rounds as u64),
        Duration::Mode => state.add_text_arg("usable_mode", "true"),
        Duration::Instant => state.add_text_arg("usable_instant", "true"),
        Duration::Permanent => state.add_text_arg("usable_permanent", "true"),
    }
    state.add_text_arg("usable_description", usable.short_description.as_str());
    proof {
        assert(state@ =~= old(state)@ + usable_args(*usable, display_ap));
    }
}


/// What a bonus gives. Amounts that are `f32` are given by their display
/// text; attributes and armor and weapon kinds by their names.
#[allow(inconsistent_fields)]
pub enum BonusKind {
    Attribute { attribute: String, amount: i8 },
    ActionPoints(i32),
    Armor(i32),
    ArmorKind { kind: String, amount: i32 },
    Damage(Damage),
    Reach(String),
    Range(String),
    Initiative(i32),
    HitPoints(i32),
    MeleeAccuracy(i32),
    RangedAccuracy(i32),
    SpellAccuracy(i32),
    Defense(i32),
    Fortitude(i32),
    Reflex(i32),
    Will(i32),
    Concealment(i32),
    ConcealmentIgnore(i32),
    CritThreshold(i32),
    HitThreshold(i32),
    GrazeThreshold(i32),
    CritMultiplier(String),
    HitMultiplier(String),
    GrazeMultiplier(String),
    MovementRate(String),
    AttackCost(i32),
    GroupUsesPerEncounter { group: String, amount: String },
    ArmorProficiency(String),
    WeaponProficiency(String),
    FlankingAngle(i32),
    MoveDisabled,
    AttackDisabled,
    Hidden,
}

/// A bonus, and whether it always holds (rather than under a condition).
pub struct Bonus {
    pub kind: BonusKind,
    pub always: bool,
}

/// Armor that a bonus adds: to the base (`kind` is `None`) or to one
/// damage kind.
pub struct ArmorBonus {
    pub kind: Option<String>,
    pub amount: i32,
}

/// `a` divided by a nonzero `d`, rounded toward zero.
pub open spec fn trunc_div(a: int, d: int) -> int {
    let q = (if a >= 0 { a } else { -a }) / (if d >= 0 { d } else { -d });
    if (a >= 0) == (d > 0) || a == 0 {
        q
    } else {
        -q
    }
}

/// What action point amounts are divided by to show them: `display_ap`
/// read as an `i32`.
pub open spec fn ap_divisor(display_ap: int) -> int {
    if display_ap <= i32::MAX {
        display_ap
    } else {
        display_ap - 0x1_0000_0000
    }
}

/// Whether a bonus can be shown with `display_ap` action points as one:
/// an action point or attack cost bonus is divided by it, which must not
/// be zero nor overflow.
pub open spec fn bonus_shown_by(kind: BonusKind, display_ap: int) -> bool {
    match kind {
        BonusKind::ActionPoints(a) => ap_divisor(display_ap) != 0 && !(a == i32::MIN && ap_divisor(display_ap) == -1),
        BonusKind::AttackCost(a) => ap_divisor(display_ap) != 0 && !(a == i32::MIN && ap_divisor(display_ap) == -1),
        _ => true,
    }
}

/// Whether every bonus that always holds among `bonuses` can be shown with
/// `display_ap` action points as one.
pub open spec fn bonuses_shown_by(bonuses: Seq<Bonus>, display_ap: int) -> bool {
    forall|i: int| 0 <= i < bonuses.len() && (#[trigger] bonuses[i]).always ==> bonus_shown_by(bonuses[i].kind, display_ap)
}

/// One argument.
pub open spec fn one(name: Seq<char>, value: Seq<char>) -> ArgsView {
    seq![(name, value)]
}

/// The arguments of a bonus damage, numbered `i` among the item's bonus
/// damages: its range where its maximum is above zero, its armor
/// penetration where there is any, and its kind.
pub open spec fn damage_bonus_args(d: Damage, i: nat) -> ArgsView {
    (if d.max > 0 {
        seq![
            ("min_bonus_damage_"@ + decimal(i), decimal(d.min as nat)),
            ("max_bonus_damage_"@ + decimal(i), decimal(d.max as nat)),
        ]
    } else {
        Seq::empty()
    }) + (if d.ap > 0 {
        seq![("armor_penetration_"@ + decimal(i), decimal(d.ap as nat))]
    } else {
        Seq::empty()
    }) + match d.kind {
        Some(k) => seq![("bonus_damage_kind_"@ + decimal(i), k@)],
        None => Seq::empty(),
    }
}

/// The arguments of one bonus, where it is the `damage_index`th bonus
/// damage or the `group_index`th group use bonus, with `display_ap`
/// action points shown as one. Armor adds no argument here.
pub open spec fn bonus_args(kind: BonusKind, damage_index: nat, group_index: nat, display_ap: int) -> ArgsView {
    match kind {
        BonusKind::Attribute { attribute, amount } => one(attribute@, signed_decimal(amount as int)),
        BonusKind::ActionPoints(a) => one("bonus_ap"@, signed_decimal(trunc_div(a as int, ap_divisor(display_ap)))),
        BonusKind::Armor(_) => Seq::empty(),
        BonusKind::ArmorKind { .. } => Seq::empty(),
        BonusKind::Damage(d) => damage_bonus_args(d, damage_index),
        BonusKind::Reach(t) => one("bonus_reach"@, t@),
        BonusKind::Range(t) => one("bonus_range"@, t@),
        BonusKind::Initiative(a) => one("initiative"@, signed_decimal(a as int)),
        BonusKind::HitPoints(a) => one("hit_points"@, signed_decimal(a as int)),
        BonusKind::MeleeAccuracy(a) => one("melee_accuracy"@, signed_decimal(a as int)),
        BonusKind::RangedAccuracy(a) => one("ranged_accuracy"@, signed_decimal(a as int)),
        BonusKind::SpellAccuracy(a) => one("spell_accuracy"@, signed_decimal(a as int)),
        BonusKind::Defense(a) => one("defense"@, signed_decimal(a as int)),
        BonusKind::Fortitude(a) => one("fortitude"@, signed_decimal(a as int)),
        BonusKind::Reflex(a) => one("reflex"@, signed_decimal(a as int)),
        BonusKind::Will(a) => one("will"@, signed_decimal(a as int)),
        BonusKind::Concealment(a) => one("concealment"@, signed_decimal(a as int)),
        BonusKind::ConcealmentIgnore(a) => one("concealment_ignore"@, signed_decimal(a as int)),
        BonusKind::CritThreshold(a) => one("crit_threshold"@, signed_decimal(a as int)),
        BonusKind::HitThreshold(a) => one("hit_threshold"@, signed_decimal(a as int)),
        BonusKind::GrazeThreshold(a) => one("graze_threshold"@, signed_decimal(a as int)),
        BonusKind::CritMultiplier(t) => one("crit_multiplier"@, t@),
        BonusKind::HitMultiplier(t) => one("hit_multiplier"@, t@),
        BonusKind::GrazeMultiplier(t) => one("graze_multiplier"@, t@),
        BonusKind::MovementRate(t) => one("movement_rate"@, t@),
        BonusKind::AttackCost(a) => one("attack_cost"@, signed_decimal(trunc_div(a as int, ap_divisor(display_ap)))),
        BonusKind::GroupUsesPerEncounter { group, amount } => seq![
            ("ability_group_"@ + decimal(group_index), group@),
            ("ability_group_"@ + decimal(group_index) + "_uses_per_encounter"@, amount@),
        ],
        BonusKind::ArmorProficiency(k) => one("armor_proficiency_"@ + k@, "true"@),
        BonusKind::WeaponProficiency(k) => one("weapon_proficiency_"@ + k@, "true"@),
        BonusKind::FlankingAngle(a) => one("flanking_angle"@, signed_decimal(a as int)),
        BonusKind::MoveDisabled => one("move_disabled"@, "true"@),
        BonusKind::AttackDisabled => one("attack_disabled"@, "true"@),
        BonusKind::Hidden => one("hidden"@, "true"@),
    }
}

/// Whether a bonus is to an accuracy.
pub open spec fn is_accuracy(kind: BonusKind) -> bool {
    kind is MeleeAccuracy || kind is RangedAccuracy || kind is SpellAccuracy
}

/// The armor a bonus adds, as plain values.
pub open spec fn armor_of(kind: BonusKind) -> Seq<(Option<Seq<char>>, i32)> {
    match kind {
        BonusKind::Armor(a) => seq![(None, a)],
        BonusKind::ArmorKind { kind, amount } => seq![(Some(kind@), amount)],
        _ => Seq::empty(),
    }
}

/// A run of armor bonuses, as plain values.
pub open spec fn armor_view(v: Seq<ArmorBonus>) -> Seq<(Option<Seq<char>>, i32)> {
    Seq::new(v.len(), |i: int| (
        match v[i].kind {
            Some(k) => Some(k@),
            None => None,
        },
        v[i].amount,
    ))
}

/// What the bonuses of an item add up to: their arguments, whether one is
/// to an accuracy, how many bonus damages and group use bonuses there are,
/// and the armor they add.
pub ghost struct BonusSummary {
    pub args: ArgsView,
    pub has_accuracy: bool,
    pub damage_count: nat,
    pub group_count: nat,
    pub armor: Seq<(Option<Seq<char>>, i32)>,
}

/// The summary of the bonuses that always hold among `bonuses`, in order.
pub open spec fn summarize_bonuses(bonuses: Seq<Bonus>, display_ap: int) -> BonusSummary
    decreases bonuses.len(),
{
    if bonuses.len() == 0 {
        BonusSummary { args: Seq::empty(), has_accuracy: false, damage_count: 0, group_count: 0, armor: Seq::empty() }
    } else {
        let s = summarize_bonuses(bonuses.drop_last(), display_ap);
        let b = bonuses.last();
        if !b.always {
            s
        } else {
            BonusSummary {
                args: s.args + bonus_args(b.kind, s.damage_count, s.group_count, display_ap),
                has_accuracy: s.has_accuracy || is_accuracy(b.kind),
                damage_count: s.damage_count + if b.kind is Damage { 1nat } else { 0nat },
                group_count: s.group_count + if b.kind is GroupUsesPerEncounter { 1nat } else { 0nat },
                armor: s.armor + armor_of(b.kind),
            }
        }
    }
}

/// An action point amount `a` shown with `display_ap` action points as one:
/// `a` divided by `display_ap` read as an `i32`, rounded toward zero as
/// `/` on `i32` rounds, worked out on the magnitudes.
fn ap_quotient(a: i32, display_ap: u32) -> (q: i32)
    requires
        ap_divisor(display_ap as int) != 0,
        !(a == i32::MIN && ap_divisor(display_ap as int) == -1),
    ensures
        q == trunc_div(a as int, ap_divisor(display_ap as int)),
{
    let a64 = a as i64;
    let d64: i64 = if display_ap <= 0x7fff_ffff {
        display_ap as i64
    } else {
        display_ap as i64 - 0x1_0000_0000
    };
    let na: i64 = if a64 >= 0 { a64 } else { -a64 };
    let nd: i64 = if d64 >= 0 { d64 } else { -d64 };
    let q = na / nd;
    proof {
        assert(q <= na) by (nonlinear_arith) requires q == na / nd, na >= 0, nd >= 1;
        assert(q >= 0) by (nonlinear_arith) requires q == na / nd, na >= 0, nd >= 1;
        if nd >= 2 {
            assert(q * 2 <= na) by (nonlinear_arith) requires q == na / nd, na >= 0, nd >= 2;
        } else {
            assert(q == na) by (nonlinear_arith) requires q == na / nd, nd == 1;
        }
    }
    let r: i64 = if (a64 >= 0) == (d64 > 0) || a64 == 0 { q } else { -q };
    r as i32
}

fn add_damage_bonus(d: &Damage, index: usize, state: &mut TextArgs)
    ensures
        final(state)@ == old(state)@ + damage_bonus_args(*d, index as nat),
{
    if d.max > 0 {
        let k1 = crate::text::numbered("min_bonus_damage_", index as u64);
        state.add_u64(k1.as_str(), d.min as u64);
        let k2 = crate::text::numbered("max_bonus_damage_", index as u64);
        state.add_u64(k2.as_str(), d.max as u64);
    }
    if d.ap > 0 {
        let k3 = crate::text::numbered("armor_penetration_", index as u64);
        state.add_u64(k3.as_str(), d.ap as u64);
    }
    match &d.kind {
        Some(kind) => {
            let k4 = crate::text::numbered("bonus_damage_kind_", index as u64);
            state.add_text_arg(k4.as_str(), kind.as_str());
        },
        None => {},
    }
    proof {
        assert(state@ =~= old(state)@ + damage_bonus_args(*d, index as nat));
    }
}

/// Adds the arguments of one bonus, counting bonus damages and group use
/// bonuses, noting accuracy bonuses and collecting armor bonuses.
pub fn add_bonus(
    bonus: &BonusKind,
    state: &mut TextArgs,
    has_accuracy: &mut bool,
    group_uses_index: &mut usize,
    damage_index: &mut usize,
    armor: &mut Vec<ArmorBonus>,
    display_ap: u32,
)
    requires
        bonus_shown_by(*bonus, display_ap as int),
        *old(group_uses_index) < usize::MAX,
        *old(damage_index) < usize::MAX,
    ensures
        final(state)@ == old(state)@ + bonus_args(*bonus, *old(damage_index) as nat, *old(group_uses_index) as nat, display_ap as int),
        *final(has_accuracy) == (*old(has_accuracy) || is_accuracy(*bonus)),
        *final(has_accuracy) == (*old(has_accuracy) || *bonus is MeleeAccuracy || *bonus is RangedAccuracy
            || *bonus is SpellAccuracy),
        *final(damage_index) == *old(damage_index) + if *bonus is Damage { 1int } else { 0int },
        *final(group_uses_index) == *old(group_uses_index) + if *bonus is GroupUsesPerEncounter { 1int } else { 0int },
        armor_view(final(armor)@) == armor_view(old(armor)@) + armor_of(*bonus),
{
    let ghost s0 = state@;
    let ghost a0 = armor_view(armor@);
    match bonus {
        BonusKind::Attribute { attribute, amount } => state.add_i64(attribute.as_str(), *amount as i64),
        BonusKind::ActionPoints(a) => state.add_i64("bonus_ap", ap_quotient(*a, display_ap) as i64),
        BonusKind::Armor(a) => armor.push(ArmorBonus { kind: None, amount: *a }),
        BonusKind::ArmorKind { kind, amount } => armor.push(ArmorBonus { kind: Some(kind.clone()), amount: *amount }),
        BonusKind::Damage(d) => {
            add_damage_bonus(d, *damage_index, state);
            *damage_index = *damage_index + 1;
        },
        BonusKind::Reach(t) => state.add_text_arg("bonus_reach", t.as_str()),
        BonusKind::Range(t) => state.add_text_arg("bonus_range", t.as_str()),
        BonusKind::Initiative(a) => state.add_i64("initiative", *a as i64),
        BonusKind::HitPoints(a) => state.add_i64("hit_points", *a as i64),
        BonusKind::MeleeAccuracy(a) => {
            state.add_i64("melee_accuracy", *a as i64);
            *has_accuracy = true;
        },
        BonusKind::RangedAccuracy(a) => {
            state.add_i64("ranged_accuracy", *a as i64);
            *has_accuracy = true;
        },
        BonusKind::SpellAccuracy(a) => {
            state.add_i64("spell_accuracy", *a as i64);
            *has_accuracy = true;
        },
        BonusKind::Defense(a) => state.add_i64("defense", *a as i64),
        BonusKind::Fortitude(a) => state.add_i64("fortitude", *a as i64),
        BonusKind::Reflex(a) => state.add_i64("reflex", *a as i64),
        BonusKind::Will(a) => state.add_i64("will", *a as i64),
        BonusKind::Concealment(a) => state.add_i64("concealment", *a as i64),
        BonusKind::ConcealmentIgnore(a) => state.add_i64("concealment_ignore", *a as i64),
        BonusKind::CritThreshold(a) => state.add_i64("crit_threshold", *a as i64),
        BonusKind::HitThreshold(a) => state.add_i64("hit_threshold", *a as i64),
        BonusKind::GrazeThreshold(a) => state.add_i64("graze_threshold", *a as i64),
        BonusKind::CritMultiplier(t) => state.add_text_arg("crit_multiplier", t.as_str()),
        BonusKind::HitMultiplier(t) => state.add_text_arg("hit_multiplier", t.as_str()),
        BonusKind::GrazeMultiplier(t) => state.add_text_arg("graze_multiplier", t.as_str()),
        BonusKind::MovementRate(t) => state.add_text_arg("movement_rate", t.as_str()),
        BonusKind::AttackCost(a) => state.add_i64("attack_cost", ap_quotient(*a, display_ap) as i64),
        BonusKind::GroupUsesPerEncounter { group, amount } => {
            let k1 = crate::text::numbered("ability_group_", *group_uses_index as u64);
            state.add_text_arg(k1.as_str(), group.as_str());
            let k2 = crate::text::numbered_with_suffix("ability_group_", *group_uses_index as u64, "_uses_per_encounter");
            state.add_text_arg(k2.as_str(), amount.as_str());
            *group_uses_index = *group_uses_index + 1;
        },
        BonusKind::ArmorProficiency(k) => {
            let mut key = String::from_str("armor_proficiency_");
            key.append(k.as_str());
            state.add_text_arg(key.as_str(), "true");
        },
        BonusKind::WeaponProficiency(k) => {
            let mut key = String::from_str("weapon_proficiency_");
            key.append(k.as_str());
            state.add_text_arg(key.as_str(), "true");
        },
        BonusKind::FlankingAngle(a) => state.add_i64("flanking_angle", *a as i64),
        BonusKind::MoveDisabled => state.add_text_arg("move_disabled", "true"),
        BonusKind::AttackDisabled => state.add_text_arg("attack_disabled", "true"),
        BonusKind::Hidden => state.add_text_arg("hidden", "true"),
    }
    proof {
        assert(state@ =~= s0 + bonus_args(*bonus, *old(damage_index) as nat, *old(group_uses_index) as nat, display_ap as int));
        assert(armor_view(armor@) =~= a0 + armor_of(*bonus));
    }
}


/// Adds the arguments of the bonuses that always hold, in order, then
/// "any_accuracy" where one of them is to an accuracy, then the arguments
/// of `armor`, what the armor those bonuses add (`armor_bonuses`) totals.
pub fn add_bonus_text_args(bonuses: &Vec<Bonus>, display_ap: u32, armor: &ArmorTotals, state: &mut TextArgs)
    requires
        bonuses_shown_by(bonuses@, display_ap as int),
        bonuses@.len() < usize::MAX,
    ensures
        ({
            let sum = summarize_bonuses(bonuses@, display_ap as int);
            final(state)@ == old(state)@ + sum.args + (if sum.has_accuracy {
                one("any_accuracy"@, "true"@)
            } else {
                Seq::empty()
            }) + armor_args(*armor)
        }),
        has_accuracy_bonus(bonuses@) ==> final(state)@.contains(("any_accuracy"@, "true"@)),
{
    let mut group_uses_index: usize = 0;
    let mut damage_index: usize = 0;
    let mut armor_added: Vec<ArmorBonus> = Vec::new();
    let mut has_accuracy = false;
    let ghost s0 = state@;
    let n = bonuses.len();
    let mut i: usize = 0;
    while i < n
        invariant
            n == bonuses@.len(),
            n < usize::MAX,
            bonuses_shown_by(bonuses@, display_ap as int),
            i <= n,
            ({
                let sum = summarize_bonuses(bonuses@.take(i as int), display_ap as int);
                &&& state@ == s0 + sum.args
                &&& has_accuracy == sum.has_accuracy
                &&& damage_index == sum.damage_count
                &&& group_uses_index == sum.group_count
                &&& armor_view(armor_added@) == sum.armor
                &&& sum.damage_count <= i
                &&& sum.group_count <= i
            }),
        decreases n - i,
    {
        proof {
            assert(bonuses@.take(i + 1).drop_last() == bonuses@.take(i as int));
            assert(bonuses@.take(i + 1).last() == bonuses@[i as int]);
        }
        let ghost before = state@;
        if bonuses[i].always {
            add_bonus(&bonuses[i].kind, state, &mut has_accuracy, &mut group_uses_index, &mut damage_index, &mut armor_added, display_ap);
            proof {
                let prev = summarize_bonuses(bonuses@.take(i as int), display_ap as int);
                assert(state@ =~= s0 + (prev.args + bonus_args(bonuses@[i as int].kind, prev.damage_count, prev.group_count, display_ap as int)));
            }
        }
        i = i + 1;
    }
    proof {
        assert(bonuses@.take(n as int) == bonuses@);
    }
    if has_accuracy {
        state.add_text_arg("any_accuracy", "true");
    }
    let ghost s1 = state@;
    proof {
        let sum = summarize_bonuses(bonuses@, display_ap as int);
        assert(s1 =~= old(state)@ + sum.args + if sum.has_accuracy {
            one("any_accuracy"@, "true"@)
        } else {
            Seq::empty()
        });
    }
    add_armor_text_args(armor, state);
    proof {
        lemma_any_accuracy(bonuses@, display_ap as int);
        if has_accuracy_bonus(bonuses@) {
            let k = s1.len() - 1;
            assert(s1[k] == ("any_accuracy"@, "true"@));
            assert(state@[k] == s1[k]);
        }
    }
}

/// Whether some bonus that always holds among `bonuses` is to melee,
/// ranged or spell accuracy.
pub open spec fn has_accuracy_bonus(bonuses: Seq<Bonus>) -> bool {
    exists|i: int| 0 <= i < bonuses.len() && (#[trigger] bonuses[i]).always && {
        ||| bonuses[i].kind is MeleeAccuracy
        ||| bonuses[i].kind is RangedAccuracy
        ||| bonuses[i].kind is SpellAccuracy
    }
}

/// The bonuses of an item note "any_accuracy" exactly where one that
/// always holds is to melee, ranged or spell accuracy.
pub proof fn lemma_any_accuracy(bonuses: Seq<Bonus>, display_ap: int)
    ensures
        summarize_bonuses(bonuses, display_ap).has_accuracy == has_accuracy_bonus(bonuses),
    decreases bonuses.len(),
{
    if bonuses.len() > 0 {
        let init = bonuses.drop_last();
        lemma_any_accuracy(init, display_ap);
        if has_accuracy_bonus(init) {
            let i = choose|i: int| 0 <= i < init.len() && (#[trigger] init[i]).always && {
                ||| init[i].kind is MeleeAccuracy
                ||| init[i].kind is RangedAccuracy
                ||| init[i].kind is SpellAccuracy
            };
            assert(bonuses[i] == init[i]);
        }
        if has_accuracy_bonus(bonuses) {
            let i = choose|i: int| 0 <= i < bonuses.len() && (#[trigger] bonuses[i]).always && {
                ||| bonuses[i].kind is MeleeAccuracy
                ||| bonuses[i].kind is RangedAccuracy
                ||| bonuses[i].kind is SpellAccuracy
            };
            if i < bonuses.len() - 1 {
                assert(init[i] == bonuses[i]);
            }
        }
    }
}

/// Whether a bonus is numbered among an item's bonus damages (`damage`)
/// or among its group use bonuses (otherwise): it always holds and is of
/// that kind.
pub open spec fn numbered(b: Bonus, damage: bool) -> bool {
    b.always && if damage {
        b.kind is Damage
    } else {
        b.kind is GroupUsesPerEncounter
    }
}

/// How many bonuses of `bonuses` are numbered among the bonus damages
/// (`damage`) or the group use bonuses (otherwise).
pub open spec fn count_numbered(bonuses: Seq<Bonus>, damage: bool) -> nat
    decreases bonuses.len(),
{
    if bonuses.len() == 0 {
        0
    } else {
        count_numbered(bonuses.drop_last(), damage) + if numbered(bonuses.last(), damage) { 1nat } else { 0nat }
    }
}

/// Whether some bonus of `bonuses` is given the number `n` among the bonus
/// damages (`damage`) or the group use bonuses (otherwise).
pub open spec fn number_given(bonuses: Seq<Bonus>, damage: bool, n: nat) -> bool {
    exists|i: int| 0 <= i < bonuses.len() && numbered(bonuses[i], damage)
        && #[trigger] count_numbered(bonuses.take(i), damage) == n
}

proof fn lemma_summary_counts(bonuses: Seq<Bonus>, display_ap: int)
    ensures
        summarize_bonuses(bonuses, display_ap).damage_count == count_numbered(bonuses, true),
        summarize_bonuses(bonuses, display_ap).group_count == count_numbered(bonuses, false),
    decreases bonuses.len(),
{
    if bonuses.len() > 0 {
        lemma_summary_counts(bonuses.drop_last(), display_ap);
    }
}

proof fn lemma_count_step(bonuses: Seq<Bonus>, k: int, damage: bool)
    requires
        0 <= k < bonuses.len(),
    ensures
        count_numbered(bonuses.take(k + 1), damage)
            == count_numbered(bonuses.take(k), damage) + if numbered(bonuses[k], damage) { 1nat } else { 0nat },
{
    assert(bonuses.take(k + 1).drop_last() == bonuses.take(k));
    assert(bonuses.take(k + 1).last() == bonuses[k]);
}

proof fn lemma_count_monotone(bonuses: Seq<Bonus>, i: int, j: int, damage: bool)
    requires
        0 <= i <= j <= bonuses.len(),
    ensures
        count_numbered(bonuses.take(i), damage) <= count_numbered(bonuses.take(j), damage),
    decreases j - i,
{
    if i < j {
        lemma_count_monotone(bonuses, i, j - 1, damage);
        lemma_count_step(bonuses, j - 1, damage);
    }
}

proof fn lemma_count_reached(bonuses: Seq<Bonus>, m: int, n: nat, damage: bool)
    requires
        0 <= m <= bonuses.len(),
        n < count_numbered(bonuses.take(m), damage),
    ensures
        exists|i: int| 0 <= i < m && numbered(bonuses[i], damage)
            && #[trigger] count_numbered(bonuses.take(i), damage) == n,
    decreases m,
{
    if m == 0 {
        assert(bonuses.take(0).len() == 0);
    } else {
        lemma_count_step(bonuses, m - 1, damage);
        if n < count_numbered(bonuses.take(m - 1), damage) {
            lemma_count_reached(bonuses, m - 1, n, damage);
        } else {
            assert(numbered(bonuses[m - 1], damage) && count_numbered(bonuses.take(m - 1), damage) == n);
        }
    }
}

/// The bonus damages of an item, and its group use bonuses, are numbered
/// from zero up without gap, in order: each such bonus gets the count of
/// those before it, which rises by one from one to the next, every number
/// below the total is given, and the total is what the summary counts.
pub proof fn lemma_bonus_numbering(bonuses: Seq<Bonus>, display_ap: int, damage: bool)
    ensures
        forall|i: int| 0 <= i < bonuses.len() && (#[trigger] bonuses[i]).always ==> {
            let before = summarize_bonuses(bonuses.take(i), display_ap);
            summarize_bonuses(bonuses.take(i + 1), display_ap).args == before.args + bonus_args(
                bonuses[i].kind,
                count_numbered(bonuses.take(i), true),
                count_numbered(bonuses.take(i), false),
                display_ap,
            )
        },
        forall|i: int, j: int| 0 <= i < j < bonuses.len() && numbered(#[trigger] bonuses[i], damage)
            && numbered(#[trigger] bonuses[j], damage)
            ==> count_numbered(bonuses.take(i), damage) + 1 <= count_numbered(bonuses.take(j), damage),
        forall|n: nat| n < count_numbered(bonuses, damage) ==> #[trigger] number_given(bonuses, damage, n),
        summarize_bonuses(bonuses, display_ap).damage_count == count_numbered(bonuses, true),
        summarize_bonuses(bonuses, display_ap).group_count == count_numbered(bonuses, false),
{
    lemma_summary_counts(bonuses, display_ap);
    assert forall|i: int| 0 <= i < bonuses.len() && (#[trigger] bonuses[i]).always implies {
        let before = summarize_bonuses(bonuses.take(i), display_ap);
        summarize_bonuses(bonuses.take(i + 1), display_ap).args == before.args + bonus_args(
            bonuses[i].kind,
            count_numbered(bonuses.take(i), true),
            count_numbered(bonuses.take(i), false),
            display_ap,
        )
    } by {
        assert(bonuses.take(i + 1).drop_last() == bonuses.take(i));
        assert(bonuses.take(i + 1).last() == bonuses[i]);
        lemma_summary_counts(bonuses.take(i), display_ap);
    }
    assert forall|i: int, j: int| 0 <= i < j < bonuses.len() && numbered(#[trigger] bonuses[i], damage)
        && numbered(#[trigger] bonuses[j], damage)
        implies count_numbered(bonuses.take(i), damage) + 1 <= count_numbered(bonuses.take(j), damage) by {
        lemma_count_step(bonuses, i, damage);
        lemma_count_monotone(bonuses, i + 1, j, damage);
    }
    assert(bonuses.take(bonuses.len() as int) == bonuses);
    assert forall|n: nat| n < count_numbered(bonuses, damage) implies #[trigger] number_given(bonuses, damage, n) by {
        lemma_count_reached(bonuses, bonuses.len() as int, n, damage);
    }
}

/// The armor that the bonuses that always hold among `bonuses` add, in
/// order.
pub open spec fn bonus_armor(bonuses: Seq<Bonus>) -> Seq<(Option<Seq<char>>, i32)>
    decreases bonuses.len(),
{
    if bonuses.len() == 0 {
        Seq::empty()
    } else if bonuses.last().always {
        bonus_armor(bonuses.drop_last()) + armor_of(bonuses.last().kind)
    } else {
        bonus_armor(bonuses.drop_last())
    }
}

/// The armor that the bonuses that always hold among `bonuses` add, in
/// order, for the caller to total.
pub fn armor_bonuses(bonuses: &Vec<Bonus>) -> (armor: Vec<ArmorBonus>)
    ensures
        armor_view(armor@) == bonus_armor(bonuses@),
{
    let mut armor: Vec<ArmorBonus> = Vec::new();
    let n = bonuses.len();
    let mut i: usize = 0;
    while i < n
        invariant
            n == bonuses@.len(),
            i <= n,
            armor_view(armor@) == bonus_armor(bonuses@.take(i as int)),
        decreases n - i,
    {
        proof {
            assert(bonuses@.take(i + 1).drop_last() == bonuses@.take(i as int));
            assert(bonuses@.take(i + 1).last() == bonuses@[i as int]);
        }
        let ghost before = armor@;
        if bonuses[i].always {
            match &bonuses[i].kind {
                BonusKind::Armor(a) => armor.push(ArmorBonus { kind: None, amount: *a }),
                BonusKind::ArmorKind { kind, amount } => armor.push(ArmorBonus { kind: Some(kind.clone()), amount: *amount }),
                _ => {},
            }
        }
        proof {
            assert(armor_view(armor@) =~= bonus_armor(bonuses@.take(i + 1)));
        }
        i = i + 1;
    }
    proof {
        assert(bonuses@.take(n as int) == bonuses@);
    }
    armor
}

/// The armor of one damage kind in an item's armor totals.
pub struct ArmorKindTotal {
    /// The damage kind's name, in lower case.
    pub name: String,
    /// Whether the armor against this kind differs from the base armor.
    pub differs_from_base: bool,
    /// The armor against this kind.
    pub amount: i64,
}

/// What the armor bonuses of an item add up to: whether they add any armor,
/// the base armor, and the armor against each damage kind, in the order of
/// the damage kinds.
pub struct ArmorTotals {
    pub is_empty: bool,
    pub base: i64,
    pub kinds: Vec<ArmorKindTotal>,
}

/// The arguments of the damage kinds whose armor differs from the base:
/// "armor_" and the kind's name, with the armor against it.
pub open spec fn armor_kind_args(kinds: Seq<ArmorKindTotal>) -> ArgsView
    decreases kinds.len(),
{
    if kinds.len() == 0 {
        Seq::empty()
    } else {
        let k = kinds.last();
        armor_kind_args(kinds.drop_last()) + if k.differs_from_base {
            one("armor_"@ + k.name@, signed_decimal(k.amount as int))
        } else {
            Seq::empty()
        }
    }
}

/// The arguments of an item's armor totals: "any_armor" where there is any
/// armor, "armor" where the base armor is above zero, then each damage kind
/// whose armor differs from the base.
pub open spec fn armor_args(t: ArmorTotals) -> ArgsView {
    (if !t.is_empty {
        one("any_armor"@, "true"@)
    } else {
        Seq::empty()
    }) + (if t.base > 0 {
        one("armor"@, signed_decimal(t.base as int))
    } else {
        Seq::empty()
    }) + armor_kind_args(t.kinds@)
}

/// Adds the arguments of an item's armor totals.
pub fn add_armor_text_args(totals: &ArmorTotals, state: &mut TextArgs)
    ensures
        final(state)@ == old(state)@ + armor_args(*totals),
{
    if !totals.is_empty {
        state.add_text_arg("any_armor", "true");
    }
    if totals.base > 0 {
        state.add_i64("armor", totals.base);
    }
    let ghost s1 = state@;
    let n = totals.kinds.len();
    let mut i: usize = 0;
    while i < n
        invariant
            n == totals.kinds@.len(),
            i <= n,
            state@ == s1 + armor_kind_args(totals.kinds@.take(i as int)),
        decreases n - i,
    {
        proof {
            assert(totals.kinds@.take(i + 1).drop_last() == totals.kinds@.take(i as int));
            assert(totals.kinds@.take(i + 1).last() == totals.kinds@[i as int]);
        }
        let k = &totals.kinds[i];
        if k.differs_from_base {
            let mut key = String::from_str("armor_");
            key.append(k.name.as_str());
            state.add_i64(key.as_str(), k.amount);
        }
        proof {
            assert(state@ =~= s1 + armor_kind_args(totals.kinds@.take(i + 1)));
        }
        i = i + 1;
    }
    proof {
        assert(totals.kinds@.take(n as int) == totals.kinds@);
        assert(state@ =~= old(state)@ + armor_args(*totals));
    }
}

} // verus!
