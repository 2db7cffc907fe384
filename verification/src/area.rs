//! Areas: the builder read from a module's data, and the checked area
//! made from it against the module's props, sizes, encounters and images.
use vstd::prelude::*;

use crate::geometry::{Point, Size};

verus! {

/// The largest width or height of an area, in tiles.
pub const MAX_AREA_SIZE: i32 = 128;

/// What sets off a trigger.
#[derive(Clone, Copy, Debug, PartialEq, Eq, Structural)]
pub enum TriggerKind {
    OnCampaignStart,
    OnAreaLoad,
    OnPlayerEnter { location: Point, size: Size },
    OnEncounterCleared { encounter_location: Point },
    OnEncounterActivated { encounter_location: Point },
}

/// A trigger of an area, with the actions (`A`) it fires.
pub struct Trigger<A> {
    pub kind: TriggerKind,
    pub on_activate: Vec<A>,
    pub initially_enabled: bool,
}

/// A trigger as an area file gives it.
pub struct TriggerBuilder<A> {
    pub kind: TriggerKind,
    pub on_activate: Vec<A>,
    pub initially_enabled: bool,
}

/// Where a transition leads.
pub enum ToKind {
    Area { id: String, x: i32, y: i32 },
    CurArea { x: i32, y: i32 },
    WorldMap,
}

/// A size of object that the module defines, by its id.
pub struct ObjectSize {
    pub id: String,
    pub width: i32,
    pub height: i32,
}

/// A transition of an area: its position and size, where it leads, its
/// hover text and the id of the image that shows it.
pub struct Transition {
    pub from: Point,
    pub size: ObjectSize,
    pub to: ToKind,
    pub hover_text: String,
    pub image_display: String,
}

/// A transition as an area file gives it, naming its size and image by id.
pub struct TransitionBuilder {
    pub from: Point,
    pub size: String,
    pub to: ToKind,
    pub hover_text: String,
    pub image_display: String,
}

/// An actor placed in an area.
pub struct ActorData {
    pub id: String,
    pub location: Point,
    pub unique_id: Option<String>,
}

/// A prop placed in an area, with the items (`I`) it holds.
pub struct PropData<I> {
    pub prop: String,
    pub location: Point,
    pub items: Vec<I>,
    pub enabled: bool,
    pub hover_text: Option<String>,
}

/// A prop as an area file gives it.
pub struct PropDataBuilder<I> {
    pub id: String,
    pub location: Point,
    pub items: Vec<I>,
    pub enabled: Option<bool>,
    pub hover_text: Option<String>,
}

/// An encounter placed in an area, with the positions of the area's
/// triggers that it fires.
pub struct EncounterData {
    pub encounter: String,
    pub location: Point,
    pub size: Size,
    pub triggers: Vec<usize>,
}

/// An encounter as an area file gives it.
pub struct EncounterDataBuilder {
    pub id: String,
    pub location: Point,
    pub size: Size,
}

/// Where an area lies.
#[derive(Clone, Copy, Debug, PartialEq, Eq, Structural, Hash, PartialOrd, Ord)]
pub enum LocationKind {
    Outdoors,
    Indoors,
    Underground,
}

/// What resting in an area does.
pub enum OnRest {
    Disabled { message: String },
    FireScript { id: String, func: String },
}

/// What a module offers an area: ids of props, encounters, images and
/// sprites, and its object sizes.
pub struct AreaResources {
    pub props: Vec<String>,
    pub sizes: Vec<ObjectSize>,
    pub encounters: Vec<String>,
    pub images: Vec<String>,
    pub sprites: Vec<String>,
}

/// An area as its file gives it.
pub struct AreaBuilder<A, I> {
    pub id: String,
    pub name: String,
    pub width: usize,
    pub height: usize,
    pub visibility_tile: String,
    pub explored_tile: String,
    pub max_vis_distance: i32,
    pub max_vis_up_one_distance: i32,
    pub world_map_location: Option<String>,
    pub on_rest: OnRest,
    pub location_kind: LocationKind,
    pub generate: bool,
    pub layers: Vec<String>,
    pub entity_layer: usize,
    pub actors: Vec<ActorData>,
    pub props: Vec<PropDataBuilder<I>>,
    pub encounters: Vec<EncounterDataBuilder>,
    pub transitions: Vec<TransitionBuilder>,
    pub triggers: Vec<TriggerBuilder<A>>,
    pub terrain: Vec<Option<String>>,
    pub walls: Vec<(u8, Option<String>)>,
    pub layer_set: Vec<(String, Vec<Vec<u16>>)>,
    pub elevation: Vec<u8>,
}

/// An area checked against its module. `L` is the layer set built for it
/// and `G` the path grid built for each object size of the module.
pub struct Area<A, I, L, G> {
    pub id: String,
    pub name: String,
    pub width: i32,
    pub height: i32,
    pub layer_set: L,
    /// The path grid for each object size, with the size's id.
    pub path_grids: Vec<(String, G)>,
    pub visibility_tile: String,
    pub explored_tile: String,
    pub actors: Vec<ActorData>,
    pub props: Vec<PropData<I>>,
    pub transitions: Vec<Transition>,
    pub encounters: Vec<EncounterData>,
    pub triggers: Vec<Trigger<A>>,
    pub vis_dist: i32,
    pub vis_dist_squared: i32,
    pub vis_dist_up_one_squared: i32,
    pub world_map_location: Option<String>,
    pub on_rest: OnRest,
    pub location_kind: LocationKind,
}

/// Why an area or prop could not be made.
#[derive(Debug)]
pub enum AreaError {
    /// The module has no prop of this id.
    Prop { id: String },
    /// An encounter of the area with this id is not in the module.
    Area { id: String },
    /// No sprite of this id.
    Sprite { id: String },
    /// The area's layer set could not be built.
    LayerSet { message: String },
}

impl LocationKind {
    /// All location kinds, in order.
    pub fn iter() -> (r: Vec<LocationKind>)
        ensures
            r@ == seq![LocationKind::Outdoors, LocationKind::Indoors, LocationKind::Underground],
    {
        let mut v: Vec<LocationKind> = Vec::new();
        v.push(LocationKind::Outdoors);
        v.push(LocationKind::Indoors);
        v.push(LocationKind::Underground);
        proof {
            assert(v@ =~= seq![LocationKind::Outdoors, LocationKind::Indoors, LocationKind::Underground]);
        }
        v
    }
}

/// Whether `ids` holds `id`.
pub fn contains_id(ids: &Vec<String>, id: &String) -> (r: bool)
    ensures
        r == ids.deep_view().contains(id@),
{
    let n = ids.len();
    let mut i: usize = 0;
    while i < n
        invariant
            n == ids@.len(),
            i <= n,
            forall|j: int| 0 <= j < i ==> ids.deep_view()[j] != id@,
        decreases n - i,
    {
        if ids[i] == *id {
            proof {
                assert(ids.deep_view()[i as int] == id@);
            }
            return true;
        }
        i = i + 1;
    }
    proof {
        assert forall|j: int| 0 <= j < ids.deep_view().len() implies ids.deep_view()[j] != id@ by {}
    }
    false
}

/// Whether `k` is the first position of `sizes` with the id `id`.
pub open spec fn first_size_at(sizes: Seq<ObjectSize>, id: Seq<char>, k: int) -> bool {
    &&& 0 <= k < sizes.len()
    &&& sizes[k].id@ == id
    &&& forall|j: int| 0 <= j < k ==> (#[trigger] sizes[j]).id@ != id
}

/// Whether some size of `sizes` has the id `id`.
pub open spec fn has_size(sizes: Seq<ObjectSize>, id: Seq<char>) -> bool {
    exists|k: int| 0 <= k < sizes.len() && (#[trigger] sizes[k]).id@ == id
}

/// The first size of `sizes` with the id `id`.
pub open spec fn size_named(sizes: Seq<ObjectSize>, id: Seq<char>) -> ObjectSize {
    sizes[choose|k: int| first_size_at(sizes, id, k)]
}

/// The position of the first size of `sizes` with the id `id`.
pub fn find_size(sizes: &Vec<ObjectSize>, id: &String) -> (r: Option<usize>)
    ensures
        match r {
            Some(k) => first_size_at(sizes@, id@, k as int),
            None => !has_size(sizes@, id@),
        },
{
    let n = sizes.len();
    let mut i: usize = 0;
    while i < n
        invariant
            n == sizes@.len(),
            i <= n,
            forall|j: int| 0 <= j < i ==> (#[trigger] sizes@[j]).id@ != id@,
        decreases n - i,
    {
        if sizes[i].id == *id {
            return Some(i);
        }
        i = i + 1;
    }
    None
}

proof fn lemma_first_size_unique(sizes: Seq<ObjectSize>, id: Seq<char>, k: int)
    requires
        first_size_at(sizes, id, k),
    ensures
        size_named(sizes, id) == sizes[k],
{
    let c = choose|c: int| first_size_at(sizes, id, c);
    assert(first_size_at(sizes, id, c));
    if c < k {
        assert(sizes[c].id@ != id);
    }
    if k < c {
        assert(sizes[k].id@ != id);
    }
}

/// A copy of an object size.
pub fn copy_size(s: &ObjectSize) -> (r: ObjectSize)
    ensures
        r == *s,
{
    ObjectSize { id: s.id.clone(), width: s.width, height: s.height }
}

/// Whether `p` is the prop that `b` describes: the module's prop of that
/// id at the same place, with copies of its items and hover text, enabled
/// unless the builder says otherwise.
pub open spec fn prop_made<I: Clone>(b: PropDataBuilder<I>, p: PropData<I>) -> bool {
    &&& p.prop@ == b.id@
    &&& p.location == b.location
    &&& p.enabled == match b.enabled {
        Some(e) => e,
        None => true,
    }
    &&& p.hover_text.deep_view() == b.hover_text.deep_view()
    &&& p.items@.len() == b.items@.len()
    &&& forall|i: int| 0 <= i < b.items@.len() ==> cloned(#[trigger] b.items@[i], p.items@[i])
}

/// Makes the prop that `builder` describes, from the module's props.
/// Fails exactly where the module has no prop of the builder's id.
pub fn create_prop<I: Clone>(builder: &PropDataBuilder<I>, resources: &AreaResources) -> (r: Result<PropData<I>, AreaError>)
    ensures
        r is Ok <==> resources.props.deep_view().contains(builder.id@),
        r matches Ok(p) ==> prop_made(*builder, p),
        r matches Err(e) ==> e matches AreaError::Prop { id } && id@ == builder.id@,
{
    if !contains_id(&resources.props, &builder.id) {
        return Err(AreaError::Prop { id: builder.id.clone() });
    }
    let enabled = match builder.enabled {
        Some(e) => e,
        None => true,
    };
    let hover_text = match &builder.hover_text {
        Some(t) => Some(t.clone()),
        None => None,
    };
    Ok(PropData {
        prop: builder.id.clone(),
        location: builder.location,
        items: builder.items.clone(),
        enabled,
        hover_text,
    })
}

/// Whether a transition survives: its image and size are in the module
/// and its position lies on the `width` by `height` area.
pub open spec fn transition_kept(resources: AreaResources, width: int, height: int, t: TransitionBuilder) -> bool {
    &&& resources.images.deep_view().contains(t.image_display@)
    &&& has_size(resources.sizes@, t.size@)
    &&& t.from.spec_in_bounds(width, height)
}

/// The transition that a surviving builder becomes.
pub open spec fn transition_made(resources: AreaResources, t: TransitionBuilder) -> Transition {
    Transition {
        from: t.from,
        size: size_named(resources.sizes@, t.size@),
        to: t.to,
        hover_text: t.hover_text,
        image_display: t.image_display,
    }
}

/// The transitions that survive, in order.
pub open spec fn transitions_kept(resources: AreaResources, width: int, height: int, ts: Seq<TransitionBuilder>) -> Seq<Transition>
    decreases ts.len(),
{
    if ts.len() == 0 {
        Seq::empty()
    } else {
        let init = transitions_kept(resources, width, height, ts.drop_last());
        if transition_kept(resources, width, height, ts.last()) {
            init.push(transition_made(resources, ts.last()))
        } else {
            init
        }
    }
}

/// Whether a trigger of this kind is fired by the encounter at `location`.
pub open spec fn fired_by_encounter_at(kind: TriggerKind, location: Point) -> bool {
    match kind {
        TriggerKind::OnEncounterCleared { encounter_location } => encounter_location == location,
        TriggerKind::OnEncounterActivated { encounter_location } => encounter_location == location,
        _ => false,
    }
}

/// The positions of the triggers fired by the encounter at `location`.
pub open spec fn encounter_triggers(kinds: Seq<TriggerKind>, location: Point) -> Seq<usize>
    decreases kinds.len(),
{
    if kinds.len() == 0 {
        Seq::empty()
    } else {
        let init = encounter_triggers(kinds.drop_last(), location);
        if fired_by_encounter_at(kinds.last(), location) {
            init.push((kinds.len() - 1) as usize)
        } else {
            init
        }
    }
}

/// The trigger that a builder becomes.
pub open spec fn trigger_made<A>(t: TriggerBuilder<A>) -> Trigger<A> {
    Trigger { kind: t.kind, on_activate: t.on_activate, initially_enabled: t.initially_enabled }
}

/// The kinds of a run of triggers.
pub open spec fn trigger_kinds<A>(ts: Seq<Trigger<A>>) -> Seq<TriggerKind> {
    Seq::new(ts.len(), |i: int| ts[i].kind)
}

/// Whether `e` is the encounter that `b` describes, with the triggers
/// among `kinds` that it fires.
pub open spec fn encounter_made(b: EncounterDataBuilder, kinds: Seq<TriggerKind>, e: EncounterData) -> bool {
    &&& e.encounter@ == b.id@
    &&& e.location == b.location
    &&& e.size == b.size
    &&& e.triggers@ == encounter_triggers(kinds, b.location)
}

impl<A, I, L, G> PartialEq for Area<A, I, L, G> {
    /// Areas are equal where their ids are.
    fn eq(&self, other: &Area<A, I, L, G>) -> (r: bool) {
        self.id == other.id
    }
}

impl<A, I, L, G> vstd::std_specs::cmp::PartialEqSpecImpl for Area<A, I, L, G> {
    open spec fn obeys_eq_spec() -> bool {
        true
    }

    open spec fn eq_spec(&self, other: &Area<A, I, L, G>) -> bool {
        self.id@ == other.id@
    }
}

/// Whether `k` is the first position of `grids` with the size id `id`.
pub open spec fn first_grid_at<G>(grids: Seq<(String, G)>, id: Seq<char>, k: int) -> bool {
    &&& 0 <= k < grids.len()
    &&& grids[k].0@ == id
    &&& forall|j: int| 0 <= j < k ==> (#[trigger] grids[j]).0@ != id
}

impl<A, I, L, G> Area<A, I, L, G> {
    /// The path grid for the object size `size_id`.
    pub fn get_path_grid(&self, size_id: &str) -> (r: &G)
        requires
            exists|k: int| 0 <= k < self.path_grids@.len() && (#[trigger] self.path_grids@[k]).0@ == size_id@,
        ensures
            exists|k: int| first_grid_at(self.path_grids@, size_id@, k) && r == &self.path_grids@[k].1,
    {
        let id = size_id.to_string();
        let n = self.path_grids.len();
        let mut i: usize = 0;
        while i < n
            invariant
                id@ == size_id@,
                n == self.path_grids@.len(),
                i <= n,
                forall|j: int| 0 <= j < i ==> (#[trigger] self.path_grids@[j]).0@ != size_id@,
                exists|k: int| 0 <= k < n && (#[trigger] self.path_grids@[k]).0@ == size_id@,
            decreases n - i,
        {
            if self.path_grids[i].0 == id {
                proof {
                    assert(first_grid_at(self.path_grids@, size_id@, i as int));
                }
                return &self.path_grids[i].1;
            }
            i = i + 1;
        }
        proof {
            let k = choose|k: int| 0 <= k < n && (#[trigger] self.path_grids@[k]).0@ == size_id@;
            assert(self.path_grids@[k].0@ != size_id@);
        }
        &self.path_grids[0].1
    }

    /// Whether `(x, y)` is a tile of the area.
    pub fn coords_valid(&self, x: i32, y: i32) -> (r: bool)
        ensures
            r == (0 <= x < self.width && 0 <= y < self.height),
    {
        if x < 0 || y < 0 {
            return false;
        }
        if x >= self.width || y >= self.height {
            return false;
        }
        true
    }
}


/// The triggers that `builders` become, in order.
pub fn make_triggers<A>(builders: Vec<TriggerBuilder<A>>) -> (r: Vec<Trigger<A>>)
    ensures
        r@ == builders@.map_values(|t: TriggerBuilder<A>| trigger_made(t)),
        r@.len() == builders@.len(),
        forall|i: int| 0 <= i < builders@.len() ==> {
            &&& (#[trigger] r@[i]).kind == builders@[i].kind
            &&& r@[i].on_activate == builders@[i].on_activate
            &&& r@[i].initially_enabled == builders@[i].initially_enabled
        },
{
    let ghost all = builders@;
    let mut out: Vec<Trigger<A>> = Vec::new();
    for t in it: builders.into_iter()
        invariant
            it.seq() == all,
            out@ == all.take(it.index() as int).map_values(|t: TriggerBuilder<A>| trigger_made(t)),
    {
        proof {
            assert(all.take(it.index() + 1) == all.take(it.index() as int).push(t));
        }
        out.push(Trigger { kind: t.kind, on_activate: t.on_activate, initially_enabled: t.initially_enabled });
        proof {
            assert(out@ =~= all.take(it.index() + 1).map_values(|t: TriggerBuilder<A>| trigger_made(t)));
        }
    }
    proof {
        assert(all.take(all.len() as int) == all);
    }
    out
}

/// The triggers of an area made from a builder are the builder's triggers,
/// in order, each set off by the same event, doing the same things, and
/// enabled at first exactly where its builder says so.
pub proof fn lemma_area_triggers<A, I, L, G>(builder: AreaBuilder<A, I>, resources: AreaResources, area: Area<A, I, L, G>)
    requires
        area_made(builder, resources, area),
    ensures
        area.triggers@.len() == builder.triggers@.len(),
        forall|i: int| 0 <= i < builder.triggers@.len() ==> {
            &&& (#[trigger] area.triggers@[i]).kind == builder.triggers@[i].kind
            &&& area.triggers@[i].on_activate == builder.triggers@[i].on_activate
            &&& area.triggers@[i].initially_enabled == builder.triggers@[i].initially_enabled
        },
{
}


/// The transitions among `builders` whose image and size the module has
/// and whose position lies on the `width` by `height` area, in order.
pub fn make_transitions(builders: Vec<TransitionBuilder>, resources: &AreaResources, width: i32, height: i32) -> (r: Vec<Transition>)
    ensures
        r@ == transitions_kept(*resources, width as int, height as int, builders@),
{
    let ghost all = builders@;
    let mut out: Vec<Transition> = Vec::new();
    for t in it: builders.into_iter()
        invariant
            it.seq() == all,
            out@ == transitions_kept(*resources, width as int, height as int, all.take(it.index() as int)),
    {
        proof {
            assert(all.take(it.index() + 1).drop_last() == all.take(it.index() as int));
            assert(all.take(it.index() + 1).last() == t);
        }
        let has_image = contains_id(&resources.images, &t.image_display);
        let size_index = find_size(&resources.sizes, &t.size);
        if has_image {
            match size_index {
                Some(k) => {
                    if t.from.in_bounds(width, height) {
                        let size = copy_size(&resources.sizes[k]);
                        proof {
                            lemma_first_size_unique(resources.sizes@, t.size@, k as int);
                        }
                        out.push(Transition {
                            from: t.from,
                            size,
                            to: t.to,
                            hover_text: t.hover_text,
                            image_display: t.image_display,
                        });
                    }
                },
                None => {},
            }
        }
    }
    proof {
        assert(all.take(all.len() as int) == all);
    }
    out
}

/// The positions of the triggers that the encounter at `location` fires.
pub fn triggers_of_encounter<A>(triggers: &Vec<Trigger<A>>, location: Point) -> (r: Vec<usize>)
    ensures
        r@ == encounter_triggers(trigger_kinds(triggers@), location),
{
    let ghost kinds = trigger_kinds(triggers@);
    let mut out: Vec<usize> = Vec::new();
    let n = triggers.len();
    let mut i: usize = 0;
    while i < n
        invariant
            n == triggers@.len(),
            kinds == trigger_kinds(triggers@),
            i <= n,
            out@ == encounter_triggers(kinds.take(i as int), location),
        decreases n - i,
    {
        proof {
            assert(kinds.take(i + 1).drop_last() == kinds.take(i as int));
            assert(kinds.take(i + 1).last() == triggers@[i as int].kind);
        }
        match triggers[i].kind {
            TriggerKind::OnEncounterCleared { encounter_location } => {
                if encounter_location == location {
                    out.push(i);
                }
            },
            TriggerKind::OnEncounterActivated { encounter_location } => {
                if encounter_location == location {
                    out.push(i);
                }
            },
            _ => {},
        }
        i = i + 1;
    }
    proof {
        assert(kinds.take(n as int) == kinds);
    }
    out
}

/// Whether `p` is the prop that `b` describes, `b`'s items moved into it:
/// the module's prop of that id at the same place, with the builder's
/// items and hover text, enabled unless the builder says otherwise.
pub open spec fn prop_placed<I>(b: PropDataBuilder<I>, p: PropData<I>) -> bool {
    &&& p.prop@ == b.id@
    &&& p.location == b.location
    &&& p.enabled == match b.enabled {
        Some(e) => e,
        None => true,
    }
    &&& p.hover_text.deep_view() == b.hover_text.deep_view()
    &&& p.items@ == b.items@
}

/// Whether the first prop id among `builders` that the module lacks is at
/// position `i`.
pub open spec fn first_unknown_prop<I>(builders: Seq<PropDataBuilder<I>>, resources: AreaResources, i: int) -> bool {
    &&& 0 <= i < builders.len()
    &&& !resources.props.deep_view().contains(builders[i].id@)
    &&& forall|j: int| 0 <= j < i ==> resources.props.deep_view().contains(#[trigger] builders[j].id@)
}

/// The props that `builders` describe, each taking its builder's items, or
/// the error for the first one the module lacks.
pub fn place_props<I>(builders: Vec<PropDataBuilder<I>>, resources: &AreaResources) -> (r: Result<Vec<PropData<I>>, AreaError>)
    ensures
        r is Ok <==> forall|i: int| 0 <= i < builders@.len()
            ==> resources.props.deep_view().contains(#[trigger] builders@[i].id@),
        r matches Ok(ps) ==> ps@.len() == builders@.len()
            && forall|i: int| 0 <= i < builders@.len() ==> prop_placed(#[trigger] builders@[i], ps@[i]),
        r matches Err(e) ==> exists|i: int| {
            &&& #[trigger] first_unknown_prop(builders@, *resources, i)
            &&& e matches AreaError::Prop { id } && id@ == builders@[i].id@
        },
{
    let n = builders.len();
    let mut i: usize = 0;
    while i < n
        invariant
            n == builders@.len(),
            i <= n,
            forall|j: int| 0 <= j < i ==> resources.props.deep_view().contains(#[trigger] builders@[j].id@),
        decreases n - i,
    {
        if !contains_id(&resources.props, &builders[i].id) {
            proof {
                assert(first_unknown_prop(builders@, *resources, i as int));
            }
            return Err(AreaError::Prop { id: builders[i].id.clone() });
        }
        i = i + 1;
    }
    let ghost all = builders@;
    let mut out: Vec<PropData<I>> = Vec::new();
    for b in it: builders.into_iter()
        invariant
            it.seq() == all,
            out@.len() == it.index(),
            forall|j: int| 0 <= j < it.index() ==> prop_placed(#[trigger] all[j], out@[j]),
    {
        let enabled = match b.enabled {
            Some(e) => e,
            None => true,
        };
        out.push(PropData {
            prop: b.id,
            location: b.location,
            items: b.items,
            enabled,
            hover_text: b.hover_text,
        });
    }
    Ok(out)
}

/// The encounters that `builders` describe, each with the triggers it
/// fires, or an error naming the area where the module lacks one.
pub fn make_encounters<A>(builders: &Vec<EncounterDataBuilder>, triggers: &Vec<Trigger<A>>, resources: &AreaResources, area_id: &String) -> (r: Result<Vec<EncounterData>, AreaError>)
    ensures
        r is Ok <==> forall|i: int| 0 <= i < builders@.len()
            ==> resources.encounters.deep_view().contains(#[trigger] builders@[i].id@),
        r matches Ok(es) ==> es@.len() == builders@.len()
            && forall|i: int| 0 <= i < builders@.len()
                ==> encounter_made(#[trigger] builders@[i], trigger_kinds(triggers@), es@[i]),
        r matches Err(e) ==> e matches AreaError::Area { id } && id@ == area_id@,
{
    let mut out: Vec<EncounterData> = Vec::new();
    let n = builders.len();
    let mut i: usize = 0;
    while i < n
        invariant
            n == builders@.len(),
            i <= n,
            out@.len() == i,
            forall|j: int| 0 <= j < i ==> resources.encounters.deep_view().contains(#[trigger] builders@[j].id@),
            forall|j: int| 0 <= j < i ==> encounter_made(#[trigger] builders@[j], trigger_kinds(triggers@), out@[j]),
        decreases n - i,
    {
        let b = &builders[i];
        if !contains_id(&resources.encounters, &b.id) {
            return Err(AreaError::Area { id: area_id.clone() });
        }
        let fired = triggers_of_encounter(triggers, b.location);
        out.push(EncounterData { encounter: b.id.clone(), location: b.location, size: b.size, triggers: fired });
        i = i + 1;
    }
    Ok(out)
}


/// Whether the module has every prop that `builder` places.
pub open spec fn props_known<A, I>(builder: AreaBuilder<A, I>, resources: AreaResources) -> bool {
    forall|i: int| 0 <= i < builder.props@.len()
        ==> resources.props.deep_view().contains(#[trigger] builder.props@[i].id@)
}

/// Whether the module has every encounter that `builder` places.
pub open spec fn encounters_known<A, I>(builder: AreaBuilder<A, I>, resources: AreaResources) -> bool {
    forall|i: int| 0 <= i < builder.encounters@.len()
        ==> resources.encounters.deep_view().contains(#[trigger] builder.encounters@[i].id@)
}

/// Whether `area` is the area that `builder` describes, checked against
/// `resources`.
pub open spec fn area_made<A, I, L, G>(builder: AreaBuilder<A, I>, resources: AreaResources, area: Area<A, I, L, G>) -> bool {
    &&& area.id == builder.id
    &&& area.name == builder.name
    &&& area.width == builder.width as i32
    &&& area.height == builder.height as i32
    &&& area.visibility_tile == builder.visibility_tile
    &&& area.explored_tile == builder.explored_tile
    &&& area.actors == builder.actors
    &&& area.props@.len() == builder.props@.len()
    &&& forall|i: int| 0 <= i < builder.props@.len() ==> prop_placed(#[trigger] builder.props@[i], area.props@[i])
    &&& area.transitions@ == transitions_kept(resources, area.width as int, area.height as int, builder.transitions@)
    &&& area.triggers@ == builder.triggers@.map_values(|t: TriggerBuilder<A>| trigger_made(t))
    &&& area.encounters@.len() == builder.encounters@.len()
    &&& forall|i: int| 0 <= i < builder.encounters@.len()
        ==> encounter_made(#[trigger] builder.encounters@[i], trigger_kinds(area.triggers@), area.encounters@[i])
    &&& area.vis_dist == builder.max_vis_distance
    &&& area.vis_dist_squared == builder.max_vis_distance * builder.max_vis_distance
    &&& area.vis_dist_up_one_squared == builder.max_vis_up_one_distance * builder.max_vis_up_one_distance
    &&& area.world_map_location == builder.world_map_location
    &&& area.on_rest == builder.on_rest
    &&& area.location_kind == builder.location_kind
}

/// Whether `area` holds one path grid for each object size of the module,
/// in order, under the size's id.
pub open spec fn grids_for_sizes<A, I, L, G>(area: Area<A, I, L, G>, resources: AreaResources) -> bool {
    &&& area.path_grids@.len() == resources.sizes@.len()
    &&& forall|k: int| 0 <= k < resources.sizes@.len()
        ==> (#[trigger] area.path_grids@[k]).0@ == resources.sizes@[k].id@
}

/// An area with a path grid for each object size of the module has a
/// grid for an id, and so `get_path_grid` can be asked for it, exactly
/// where the module has a size of that id.
pub proof fn lemma_path_grid_ids<A, I, L, G>(area: Area<A, I, L, G>, resources: AreaResources, id: Seq<char>)
    requires
        grids_for_sizes(area, resources),
    ensures
        (exists|k: int| 0 <= k < area.path_grids@.len() && (#[trigger] area.path_grids@[k]).0@ == id)
            <==> has_size(resources.sizes@, id),
{
    if exists|k: int| 0 <= k < area.path_grids@.len() && (#[trigger] area.path_grids@[k]).0@ == id {
        let k = choose|k: int| 0 <= k < area.path_grids@.len() && (#[trigger] area.path_grids@[k]).0@ == id;
        assert(resources.sizes@[k].id@ == id);
    }
    if has_size(resources.sizes@, id) {
        let k = choose|k: int| 0 <= k < resources.sizes@.len() && (#[trigger] resources.sizes@[k]).id@ == id;
        assert(area.path_grids@[k].0@ == id);
    }
}

/// Each of `grids` under the id of the object size at the same position.
pub fn grids_by_size<G>(grids: Vec<G>, resources: &AreaResources) -> (r: Vec<(String, G)>)
    requires
        grids@.len() == resources.sizes@.len(),
    ensures
        r@.len() == grids@.len(),
        forall|k: int| 0 <= k < grids@.len() ==> {
            &&& (#[trigger] r@[k]).0@ == resources.sizes@[k].id@
            &&& r@[k].1 == grids@[k]
        },
{
    let ghost all = grids@;
    let mut out: Vec<(String, G)> = Vec::new();
    for g in it: grids.into_iter()
        invariant
            it.seq() == all,
            all.len() == resources.sizes@.len(),
            out@.len() == it.index(),
            forall|k: int| 0 <= k < it.index() ==> {
                &&& (#[trigger] out@[k]).0@ == resources.sizes@[k].id@
                &&& out@[k].1 == all[k]
            },
    {
        let k = out.len();
        out.push((resources.sizes[k].id.clone(), g));
    }
    out
}

impl<A, I, L, G> Area<A, I, L, G> {
    /// Makes the area that `builder` describes, with `layer_set`, what
    /// building the area's layer set gave, and `path_grids`, the path grid
    /// built on that layer set for each object size of the module, in the
    /// order of the sizes; each is kept under its size's id. Props come from
    /// the module and must all be there, each taking its builder's items;
    /// then the layer set must have been built; transitions whose image or
    /// size the module lacks, or that lie off the area, are left out; each
    /// encounter must be in the module and gets the triggers that fire on
    /// its location; both tiles must be sprites. Fails on the first of
    /// these checks, in that order.
    pub fn new(
        builder: AreaBuilder<A, I>,
        resources: &AreaResources,
        layer_set: Result<L, AreaError>,
        path_grids: Vec<G>,
    ) -> (r: Result<Area<A, I, L, G>, AreaError>)
        requires
            path_grids@.len() == resources.sizes@.len(),
            builder.max_vis_distance * builder.max_vis_distance <= i32::MAX,
            builder.max_vis_up_one_distance * builder.max_vis_up_one_distance <= i32::MAX,
        ensures
            r is Ok <==> {
                &&& props_known(builder, *resources)
                &&& layer_set is Ok
                &&& encounters_known(builder, *resources)
                &&& resources.sprites.deep_view().contains(builder.visibility_tile@)
                &&& resources.sprites.deep_view().contains(builder.explored_tile@)
            },
            !props_known(builder, *resources) ==> (r matches Err(e) && exists|i: int| {
                &&& #[trigger] first_unknown_prop(builder.props@, *resources, i)
                &&& e matches AreaError::Prop { id } && id@ == builder.props@[i].id@
            }),
            props_known(builder, *resources) && layer_set is Err
                ==> (r matches Err(e) && layer_set == Err::<L, AreaError>(e)),
            props_known(builder, *resources) && layer_set is Ok && !encounters_known(builder, *resources)
                ==> (r matches Err(AreaError::Area { id }) && id@ == builder.id@),
            props_known(builder, *resources) && layer_set is Ok && encounters_known(builder, *resources)
                && !resources.sprites.deep_view().contains(builder.visibility_tile@)
                ==> (r matches Err(AreaError::Sprite { id }) && id@ == builder.visibility_tile@),
            props_known(builder, *resources) && layer_set is Ok && encounters_known(builder, *resources)
                && resources.sprites.deep_view().contains(builder.visibility_tile@)
                && !resources.sprites.deep_view().contains(builder.explored_tile@)
                ==> (r matches Err(AreaError::Sprite { id }) && id@ == builder.explored_tile@),
            r matches Ok(area) ==> {
                &&& area_made(builder, *resources, area)
                &&& layer_set == Ok::<L, AreaError>(area.layer_set)
                &&& grids_for_sizes(area, *resources)
                &&& forall|k: int| 0 <= k < path_grids@.len() ==> (#[trigger] area.path_grids@[k]).1 == path_grids@[k]
                &&& area.triggers@.len() == builder.triggers@.len()
                &&& forall|i: int| 0 <= i < builder.triggers@.len() ==> {
                    &&& (#[trigger] area.triggers@[i]).kind == builder.triggers@[i].kind
                    &&& area.triggers@[i].on_activate == builder.triggers@[i].on_activate
                    &&& area.triggers@[i].initially_enabled == builder.triggers@[i].initially_enabled
                }
            },
    {
        let props = match place_props(builder.props, resources) {
            Ok(p) => p,
            Err(e) => return Err(e),
        };
        let layer_set = match layer_set {
            Ok(l) => l,
            Err(e) => return Err(e),
        };
        let path_grids = grids_by_size(path_grids, resources);
        let width = #[verifier::truncate] (builder.width as i32);
        let height = #[verifier::truncate] (builder.height as i32);
        let transitions = make_transitions(builder.transitions, resources, width, height);
        let triggers = make_triggers(builder.triggers);
        let encounters = match make_encounters(&builder.encounters, &triggers, resources, &builder.id) {
            Ok(e) => e,
            Err(e) => return Err(e),
        };
        if !contains_id(&resources.sprites, &builder.visibility_tile) {
            return Err(AreaError::Sprite { id: builder.visibility_tile.clone() });
        }
        if !contains_id(&resources.sprites, &builder.explored_tile) {
            return Err(AreaError::Sprite { id: builder.explored_tile.clone() });
        }
        proof {
            let d = builder.max_vis_distance;
            let u = builder.max_vis_up_one_distance;
            assert(d * d >= 0) by (nonlinear_arith);
            assert(u * u >= 0) by (nonlinear_arith);
        }
        let vis_dist_squared = builder.max_vis_distance * builder.max_vis_distance;
        let vis_dist_up_one_squared = builder.max_vis_up_one_distance * builder.max_vis_up_one_distance;
        Ok(Area {
            id: builder.id,
            name: builder.name,
            width,
            height,
            layer_set,
            path_grids,
            visibility_tile: builder.visibility_tile,
            explored_tile: builder.explored_tile,
            actors: builder.actors,
            props,
            transitions,
            encounters,
            triggers,
            vis_dist: builder.max_vis_distance,
            vis_dist_squared,
            vis_dist_up_one_squared,
            world_map_location: builder.world_map_location,
            on_rest: builder.on_rest,
            location_kind: builder.location_kind,
        })
    }
}


/// Every transition that survives lies on the area.
pub proof fn lemma_transitions_in_bounds(resources: AreaResources, width: int, height: int, ts: Seq<TransitionBuilder>)
    ensures
        forall|i: int| 0 <= i < transitions_kept(resources, width, height, ts).len()
            ==> (#[trigger] transitions_kept(resources, width, height, ts)[i]).from.spec_in_bounds(width, height),
    decreases ts.len(),
{
    if ts.len() > 0 {
        lemma_transitions_in_bounds(resources, width, height, ts.drop_last());
    }
}

/// The triggers an encounter fires are, in increasing order, exactly the
/// positions of the triggers set off by its location.
pub proof fn lemma_encounter_triggers(kinds: Seq<TriggerKind>, location: Point)
    requires
        kinds.len() <= usize::MAX,
    ensures
        forall|i: int| 0 <= i < encounter_triggers(kinds, location).len() ==> {
            &&& (#[trigger] encounter_triggers(kinds, location)[i]) < kinds.len()
            &&& fired_by_encounter_at(kinds[encounter_triggers(kinds, location)[i] as int], location)
        },
        forall|i: int, j: int| 0 <= i < j < encounter_triggers(kinds, location).len()
            ==> #[trigger] encounter_triggers(kinds, location)[i] < #[trigger] encounter_triggers(kinds, location)[j],
        forall|k: int| 0 <= k < kinds.len() && fired_by_encounter_at(#[trigger] kinds[k], location)
            ==> encounter_triggers(kinds, location).contains(k as usize),
    decreases kinds.len(),
{
    if kinds.len() > 0 {
        let init = kinds.drop_last();
        lemma_encounter_triggers(init, location);
        let e0 = encounter_triggers(init, location);
        let e = encounter_triggers(kinds, location);
        assert forall|i: int| 0 <= i < e.len() implies {
            &&& (#[trigger] e[i]) < kinds.len()
            &&& fired_by_encounter_at(kinds[e[i] as int], location)
        } by {
            if i < e0.len() {
                assert(e[i] == e0[i]);
                assert(kinds[e0[i] as int] == init[e0[i] as int]);
            } else {
                assert(e[i] == (kinds.len() - 1) as usize);
            }
        }
        assert forall|i: int, j: int| 0 <= i < j < e.len() implies #[trigger] e[i] < #[trigger] e[j] by {
            if j < e0.len() {
                assert(e[i] == e0[i] && e[j] == e0[j]);
            } else {
                assert(e[i] == e0[i]);
                assert(e0[i] < init.len());
                assert(e[j] == (kinds.len() - 1) as usize);
            }
        }
        assert forall|k: int| 0 <= k < kinds.len() && fired_by_encounter_at(#[trigger] kinds[k], location)
            implies e.contains(k as usize) by {
            if k < kinds.len() - 1 {
                assert(init[k] == kinds[k]);
                assert(e0.contains(k as usize));
                let w = choose|w: int| 0 <= w < e0.len() && e0[w] == k as usize;
                assert(e[w] == e0[w]);
            } else {
                assert(e[e.len() - 1] == k as usize);
            }
        }
    }
}

/// Every transition of an area made from a builder lies on the area, so
/// `coords_valid` holds of its position; and every trigger an encounter of
/// the area fires is a trigger of the area set off by the encounter's
/// location.
pub proof fn lemma_area_made_consistent<A, I, L, G>(builder: AreaBuilder<A, I>, resources: AreaResources, area: Area<A, I, L, G>)
    requires
        area_made(builder, resources, area),
        area.triggers@.len() <= usize::MAX,
    ensures
        forall|i: int| 0 <= i < area.transitions@.len() ==> {
            let p = (#[trigger] area.transitions@[i]).from;
            0 <= p.x < area.width && 0 <= p.y < area.height
        },
        forall|e: int, i: int| 0 <= e < area.encounters@.len() && 0 <= i < area.encounters@[e].triggers@.len() ==> {
            let t = #[trigger] area.encounters@[e].triggers@[i];
            &&& t < area.triggers@.len()
            &&& fired_by_encounter_at(area.triggers@[t as int].kind, area.encounters@[e].location)
        },
{
    lemma_transitions_in_bounds(resources, area.width as int, area.height as int, builder.transitions@);
    assert forall|e: int, i: int| 0 <= e < area.encounters@.len() && 0 <= i < area.encounters@[e].triggers@.len() implies {
        let t = #[trigger] area.encounters@[e].triggers@[i];
        &&& t < area.triggers@.len()
        &&& fired_by_encounter_at(area.triggers@[t as int].kind, area.encounters@[e].location)
    } by {
        assert(encounter_made(builder.encounters@[e], trigger_kinds(area.triggers@), area.encounters@[e]));
        lemma_encounter_triggers(trigger_kinds(area.triggers@), builder.encounters@[e].location);
        let t = area.encounters@[e].triggers@[i];
        assert(encounter_triggers(trigger_kinds(area.triggers@), builder.encounters@[e].location)[i] == t);
    }
}

/// An encounter of an area made from a builder fires exactly the triggers
/// of the area that are set off when an encounter at its location is
/// cleared or activated.
pub proof fn lemma_encounter_fires<A, I, L, G>(builder: AreaBuilder<A, I>, resources: AreaResources, area: Area<A, I, L, G>)
    requires
        area_made(builder, resources, area),
        area.triggers@.len() <= usize::MAX,
    ensures
        forall|e: int, k: int| 0 <= e < area.encounters@.len() && 0 <= k < area.triggers@.len() ==> {
            (#[trigger] area.encounters@[e].triggers@.contains(k as usize)) <==> {
                ||| area.triggers@[k].kind matches TriggerKind::OnEncounterCleared { encounter_location }
                    && encounter_location == area.encounters@[e].location
                ||| area.triggers@[k].kind matches TriggerKind::OnEncounterActivated { encounter_location }
                    && encounter_location == area.encounters@[e].location
            }
        },
{
    assert forall|e: int, k: int| 0 <= e < area.encounters@.len() && 0 <= k < area.triggers@.len() implies {
        (#[trigger] area.encounters@[e].triggers@.contains(k as usize)) <==> {
            ||| area.triggers@[k].kind matches TriggerKind::OnEncounterCleared { encounter_location }
                && encounter_location == area.encounters@[e].location
            ||| area.triggers@[k].kind matches TriggerKind::OnEncounterActivated { encounter_location }
                && encounter_location == area.encounters@[e].location
        }
    } by {
        let kinds = trigger_kinds(area.triggers@);
        let loc = builder.encounters@[e].location;
        assert(encounter_made(builder.encounters@[e], kinds, area.encounters@[e]));
        lemma_encounter_triggers(kinds, loc);
        assert(kinds[k] == area.triggers@[k].kind);
        let ts = encounter_triggers(kinds, loc);
        if area.encounters@[e].triggers@.contains(k as usize) {
            let w = choose|w: int| 0 <= w < ts.len() && ts[w] == k as usize;
            assert(ts[w] < kinds.len());
            assert(fired_by_encounter_at(kinds[ts[w] as int], loc));
        }
    }
}

/// Each prop of an area made from a builder is the builder's prop at the
/// same position: the same prop id, place, items and hover text, and
/// disabled exactly where its builder says so.
pub proof fn lemma_area_props<A, I, L, G>(builder: AreaBuilder<A, I>, resources: AreaResources, area: Area<A, I, L, G>)
    requires
        area_made(builder, resources, area),
    ensures
        area.props@.len() == builder.props@.len(),
        forall|i: int| 0 <= i < builder.props@.len() ==> {
            &&& (#[trigger] area.props@[i]).prop@ == builder.props@[i].id@
            &&& area.props@[i].location == builder.props@[i].location
            &&& area.props@[i].items@ == builder.props@[i].items@
            &&& area.props@[i].hover_text.deep_view() == builder.props@[i].hover_text.deep_view()
            &&& !area.props@[i].enabled <==> builder.props@[i].enabled == Some(false)
        },
{
    assert forall|i: int| 0 <= i < builder.props@.len() implies {
        &&& (#[trigger] area.props@[i]).prop@ == builder.props@[i].id@
        &&& area.props@[i].location == builder.props@[i].location
        &&& area.props@[i].items@ == builder.props@[i].items@
        &&& area.props@[i].hover_text.deep_view() == builder.props@[i].hover_text.deep_view()
        &&& !area.props@[i].enabled <==> builder.props@[i].enabled == Some(false)
    } by {
        assert(prop_placed(builder.props@[i], area.props@[i]));
    }
}

} // verus!
