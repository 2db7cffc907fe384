use sulis::dialog::{
    activate, is_viewable, ConversationNode, CustomFlags, DialogWindow, MerchantData, OnSelect, Response,
    ResponseButton,
};

fn s(x: &str) -> String {
    x.to_string()
}

fn flags(list: &[&str]) -> CustomFlags {
    let mut f = CustomFlags::new();
    for x in list {
        f.set_custom_flag(&s(x));
    }
    f
}

fn cond(target: Option<Vec<&str>>, player: Option<Vec<&str>>) -> OnSelect {
    OnSelect {
        target_flags: target.map(|v| v.into_iter().map(s).collect()),
        player_flags: player.map(|v| v.into_iter().map(s).collect()),
        show_merchant: None,
    }
}

fn response(text: &str, to: Option<&str>, on_select: Option<OnSelect>, to_view: Option<OnSelect>) -> Response {
    Response { text: s(text), to: to.map(s), on_select, to_view }
}

#[test]
fn viewable_without_condition() {
    let r = response("hi", None, None, None);
    assert!(is_viewable(&r, &CustomFlags::new(), &CustomFlags::new()));
}

#[test]
fn viewable_needs_every_flag_on_the_right_entity() {
    let r = response("secret", None, None, Some(cond(Some(vec!["met"]), Some(vec!["brave", "kind"]))));
    let pc = flags(&["brave", "kind"]);
    let target = flags(&["met"]);
    assert!(is_viewable(&r, &pc, &target));
    assert!(!is_viewable(&r, &target, &pc));
    assert!(!is_viewable(&r, &flags(&["brave"]), &target));
    assert!(!is_viewable(&r, &pc, &CustomFlags::new()));
}

#[test]
fn activate_sets_flags_and_gives_merchant() {
    let mut sel = cond(Some(vec!["talked"]), Some(vec!["quest", "quest"]));
    sel.show_merchant = Some(MerchantData { id: s("smith"), loot_list: s("smith_loot") });
    let mut pc = CustomFlags::new();
    let mut target = CustomFlags::new();
    let m = activate(&sel, &mut pc, &mut target).unwrap();
    assert_eq!(m.id, "smith");
    assert_eq!(m.loot_list, "smith_loot");
    assert!(target.has_custom_flag(&s("talked")));
    assert!(!target.has_custom_flag(&s("quest")));
    assert!(pc.has_custom_flag(&s("quest")));
    assert!(!pc.has_custom_flag(&s("talked")));
}

#[test]
fn activating_a_condition_makes_it_viewable() {
    let c = cond(Some(vec!["a", "b"]), Some(vec!["c"]));
    let r = response("later", None, None, Some(c.copy()));
    let mut pc = CustomFlags::new();
    let mut target = CustomFlags::new();
    assert!(!is_viewable(&r, &pc, &target));
    activate(&c, &mut pc, &mut target);
    assert!(is_viewable(&r, &pc, &target));
}

#[test]
fn set_flag_twice_is_set_once() {
    let mut f = CustomFlags::new();
    f.set_custom_flag(&s("x"));
    f.set_custom_flag(&s("x"));
    assert!(f.has_custom_flag(&s("x")));
    assert!(!f.has_custom_flag(&s("y")));
}

#[test]
fn on_add_views_node_before_filtering_responses() {
    let mut on_view = cond(Some(vec!["greeted"]), None);
    on_view.show_merchant = Some(MerchantData { id: s("m"), loot_list: s("l") });
    let node = ConversationNode {
        id: s("start"),
        text: s("Hello"),
        on_view: Some(on_view),
        responses: vec![
            response("first", Some("next"), None, None),
            response("needs greeting", None, None, Some(cond(Some(vec!["greeted"]), None))),
            response("needs pc flag", None, None, Some(cond(None, Some(vec!["hero"])))),
        ],
    };
    let window = DialogWindow::new(s("start"));
    let mut pc = CustomFlags::new();
    let mut entity = flags(&["old_friend"]);
    let view = window.on_add("Aldo", &node, &mut pc, &mut entity);
    assert_eq!(view.title.get("name"), Some(s("Aldo")));
    assert_eq!(view.node_args.get("old_friend"), Some(s("true")));
    assert_eq!(view.node_args.get("greeted"), None);
    assert!(entity.has_custom_flag(&s("greeted")));
    assert_eq!(view.text, "Hello");
    assert_eq!(view.merchant.unwrap().id, "m");
    let texts: Vec<String> = view.responses.iter().map(|b| b.text.clone()).collect();
    assert_eq!(texts, vec![s("first"), s("needs greeting")]);
    assert_eq!(view.responses[0].to, Some(s("next")));
}

#[test]
fn choosing_a_response_moves_or_closes() {
    let mut window = DialogWindow::new(s("start"));
    let mut pc = CustomFlags::new();
    let mut entity = CustomFlags::new();
    let go = ResponseButton::new(&response("go", Some("second"), Some(cond(None, Some(vec!["went"]))), None));
    let m = go.on_mouse_release(&mut window, &mut pc, &mut entity);
    assert!(m.is_none());
    assert_eq!(window.cur_node, "second");
    assert!(window.open);
    assert!(pc.has_custom_flag(&s("went")));
    let bye = ResponseButton::new(&response("bye", None, None, None));
    bye.on_mouse_release(&mut window, &mut pc, &mut entity);
    assert!(!window.open);
    assert_eq!(window.cur_node, "second");
}
