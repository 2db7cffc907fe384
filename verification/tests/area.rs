use sulis::area::{
    create_prop, ActorData, Area, AreaBuilder, AreaError, AreaResources, EncounterDataBuilder, LocationKind,
    ObjectSize, OnRest, PropDataBuilder, ToKind, TransitionBuilder, TriggerBuilder, TriggerKind,
};
use sulis::geometry::{Point, Size};

fn s(x: &str) -> String {
    x.to_string()
}

fn resources() -> AreaResources {
    AreaResources {
        props: vec![s("chest"), s("barrel")],
        sizes: vec![ObjectSize { id: s("2by2"), width: 2, height: 2 }, ObjectSize { id: s("1by1"), width: 1, height: 1 }],
        encounters: vec![s("goblins")],
        images: vec![s("door")],
        sprites: vec![s("vis"), s("explored")],
    }
}

fn transition(x: i32, y: i32, size: &str, image: &str) -> TransitionBuilder {
    TransitionBuilder {
        from: Point::new(x, y),
        size: s(size),
        to: ToKind::CurArea { x: 1, y: 1 },
        hover_text: format!("to {},{}", x, y),
        image_display: s(image),
    }
}

fn builder() -> AreaBuilder<u32, u32> {
    AreaBuilder {
        id: s("town"),
        name: s("Town"),
        width: 10,
        height: 8,
        visibility_tile: s("vis"),
        explored_tile: s("explored"),
        max_vis_distance: 12,
        max_vis_up_one_distance: 5,
        world_map_location: None,
        on_rest: OnRest::Disabled { message: s("no") },
        location_kind: LocationKind::Outdoors,
        generate: false,
        layers: vec![],
        entity_layer: 0,
        actors: vec![ActorData { id: s("guard"), location: Point::new(1, 1), unique_id: None }],
        props: vec![
            PropDataBuilder { id: s("chest"), location: Point::new(2, 2), items: vec![7, 8], enabled: None, hover_text: Some(s("A chest")) },
            PropDataBuilder { id: s("barrel"), location: Point::new(3, 3), items: vec![], enabled: Some(false), hover_text: None },
        ],
        encounters: vec![
            EncounterDataBuilder { id: s("goblins"), location: Point::new(5, 5), size: Size::new(2, 2) },
        ],
        transitions: vec![
            transition(0, 0, "2by2", "door"),
            transition(10, 0, "2by2", "door"),
            transition(1, 1, "3by3", "door"),
            transition(2, 2, "1by1", "window"),
            transition(9, 7, "1by1", "door"),
        ],
        triggers: vec![
            TriggerBuilder { kind: TriggerKind::OnAreaLoad, on_activate: vec![1], initially_enabled: true },
            TriggerBuilder { kind: TriggerKind::OnEncounterCleared { encounter_location: Point::new(5, 5) }, on_activate: vec![2], initially_enabled: true },
            TriggerBuilder { kind: TriggerKind::OnEncounterActivated { encounter_location: Point::new(4, 4) }, on_activate: vec![], initially_enabled: false },
            TriggerBuilder { kind: TriggerKind::OnEncounterActivated { encounter_location: Point::new(5, 5) }, on_activate: vec![3], initially_enabled: true },
        ],
        terrain: vec![],
        walls: vec![],
        layer_set: vec![],
        elevation: vec![],
    }
}

fn grids() -> Vec<u8> {
    vec![22, 11]
}

fn make(b: AreaBuilder<u32, u32>) -> Result<Area<u32, u32, u8, u8>, AreaError> {
    Area::new(b, &resources(), Ok(3u8), grids())
}

#[test]
fn area_new_builds_checked_area() {
    let area = make(builder()).unwrap();
    assert_eq!(area.id, "town");
    assert_eq!(area.width, 10);
    assert_eq!(area.height, 8);
    assert_eq!(area.vis_dist, 12);
    assert_eq!(area.vis_dist_squared, 144);
    assert_eq!(area.vis_dist_up_one_squared, 25);
    assert_eq!(area.props.len(), 2);
    assert_eq!(area.props[0].prop, "chest");
    assert!(area.props[0].enabled);
    assert_eq!(area.props[0].items, vec![7, 8]);
    assert_eq!(area.props[0].hover_text, Some(s("A chest")));
    assert!(!area.props[1].enabled);
    assert_eq!(area.triggers.len(), 4);
    assert_eq!(area.triggers[3].on_activate, vec![3]);
    assert_eq!(area.encounters.len(), 1);
    assert_eq!(area.encounters[0].triggers, vec![1, 3]);
    assert_eq!(area.actors.len(), 1);
}

#[test]
fn area_new_keeps_only_valid_transitions() {
    let area = make(builder()).unwrap();
    let froms: Vec<Point> = area.transitions.iter().map(|t| t.from).collect();
    assert_eq!(froms, vec![Point::new(0, 0), Point::new(9, 7)]);
    assert_eq!(area.transitions[0].size.id, "2by2");
    assert_eq!(area.transitions[0].size.width, 2);
    assert_eq!(area.transitions[1].size.id, "1by1");
    assert_eq!(area.transitions[0].image_display, "door");
    for t in area.transitions.iter() {
        assert!(area.coords_valid(t.from.x, t.from.y));
    }
}

#[test]
fn area_new_missing_prop() {
    let mut b = builder();
    b.props[1].id = s("crate");
    match make(b) {
        Err(AreaError::Prop { id }) => assert_eq!(id, "crate"),
        _ => panic!("expected a prop error"),
    }
}

#[test]
fn area_new_missing_encounter() {
    let mut b = builder();
    b.encounters[0].id = s("dragons");
    match make(b) {
        Err(AreaError::Area { id }) => assert_eq!(id, "town"),
        _ => panic!("expected an area error"),
    }
}

#[test]
fn area_new_missing_sprites_in_order() {
    let mut b = builder();
    b.visibility_tile = s("nope");
    b.explored_tile = s("nada");
    match make(b) {
        Err(AreaError::Sprite { id }) => assert_eq!(id, "nope"),
        _ => panic!("expected a sprite error"),
    }
    let mut b = builder();
    b.explored_tile = s("nada");
    match make(b) {
        Err(AreaError::Sprite { id }) => assert_eq!(id, "nada"),
        _ => panic!("expected a sprite error"),
    }
}

#[test]
fn area_new_prop_error_comes_first() {
    let mut b = builder();
    b.props[0].id = s("crate");
    b.encounters[0].id = s("dragons");
    b.visibility_tile = s("nope");
    assert!(matches!(make(b), Err(AreaError::Prop { .. })));
}

#[test]
fn coords_valid_edges() {
    let area = make(builder()).unwrap();
    assert!(area.coords_valid(0, 0));
    assert!(area.coords_valid(9, 7));
    assert!(!area.coords_valid(10, 7));
    assert!(!area.coords_valid(9, 8));
    assert!(!area.coords_valid(-1, 0));
    assert!(!area.coords_valid(0, -1));
}

#[test]
fn areas_are_equal_by_id() {
    let a = make(builder()).unwrap();
    let mut b2 = builder();
    b2.name = s("Other");
    b2.props.clear();
    let b = make(b2).unwrap();
    assert!(a == b);
    let mut b3 = builder();
    b3.id = s("village");
    let c = make(b3).unwrap();
    assert!(a != c);
}

#[test]
fn create_prop_defaults_to_enabled() {
    let b = PropDataBuilder { id: s("barrel"), location: Point::new(4, 1), items: vec![1u32], enabled: None, hover_text: None };
    let p = create_prop(&b, &resources()).unwrap();
    assert!(p.enabled);
    assert_eq!(p.location, Point::new(4, 1));
    let missing = PropDataBuilder { id: s("altar"), location: Point::new(0, 0), items: Vec::<u32>::new(), enabled: Some(true), hover_text: None };
    assert!(matches!(create_prop(&missing, &resources()), Err(AreaError::Prop { .. })));
}

#[test]
fn location_kinds_in_order() {
    assert_eq!(LocationKind::iter(), vec![LocationKind::Outdoors, LocationKind::Indoors, LocationKind::Underground]);
}

#[test]
fn point_bounds() {
    assert!(Point::new(0, 0).in_bounds(1, 1));
    assert!(!Point::new(1, 0).in_bounds(1, 1));
}

#[test]
fn area_new_keeps_layer_set_and_path_grids() {
    let area = make(builder()).unwrap();
    assert_eq!(area.layer_set, 3);
    assert_eq!(*area.get_path_grid("1by1"), 11);
    assert_eq!(*area.get_path_grid("2by2"), 22);
    assert_eq!(area.path_grids.len(), 2);
    assert_eq!(area.path_grids[0].0, "2by2");
}

#[test]
fn area_new_layer_set_error_after_props() {
    let failed = || Err(AreaError::LayerSet { message: s("no layers") });
    let mut b = builder();
    b.encounters[0].id = s("dragons");
    match Area::<u32, u32, u8, u8>::new(b, &resources(), failed(), grids()) {
        Err(AreaError::LayerSet { message }) => assert_eq!(message, "no layers"),
        _ => panic!("expected a layer set error"),
    }
    let mut b = builder();
    b.props[0].id = s("crate");
    assert!(matches!(Area::<u32, u32, u8, u8>::new(b, &resources(), failed(), grids()), Err(AreaError::Prop { .. })));
}

#[test]
fn area_new_moves_prop_items() {
    let b = builder();
    let items: Vec<Vec<u32>> = b.props.iter().map(|p| p.items.clone()).collect();
    let area = make(b).unwrap();
    assert_eq!(area.props[0].items, items[0]);
    assert_eq!(area.props[1].items, items[1]);
}
