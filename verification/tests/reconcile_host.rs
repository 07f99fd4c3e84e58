use ion_ui::html::{Action, HtmlElement};
use ion_ui::host::HostDoc;
use ion_ui::ident::IdGen;
use ion_ui::events::dispatch_event;
use ion_ui::observable::AppState;

fn leaf(ids: &mut IdGen, key: Option<&str>, tag: &str, text: &str) -> HtmlElement {
    HtmlElement::new(ids, key, tag, text, "", "", Vec::new(), Vec::new())
}

#[test]
fn keyed_node_is_reused_across_renders() {
    let mut ids = IdGen::new();
    let mut doc = HostDoc::new();
    let first = leaf(&mut ids, Some("7"), "p", "hello");
    let stats = doc.render_root(&first);
    assert_eq!(stats.created, 1);
    assert_eq!(stats.updated, 0);

    // Same keyed identity, same tag, different text: the host node must be
    // reused and updated in place, not recreated.
    let second = leaf(&mut ids, Some("7"), "p", "goodbye");
    let stats = doc.render_root(&second);
    assert_eq!(stats.created, 0);
    assert_eq!(stats.updated, 1);
    let root = doc.root.as_ref().unwrap();
    assert_eq!(root.id, "unique_key_7");
    assert_eq!(root.text, "goodbye");
}

#[test]
fn generated_node_is_not_reused_across_renders() {
    let mut ids = IdGen::new();
    let mut doc = HostDoc::new();
    let first = leaf(&mut ids, None, "p", "hello");
    let stats = doc.render_root(&first);
    assert_eq!((stats.created, stats.updated), (1, 0));

    // Same tree position, same tag, but a fresh generated identity: the
    // reconciler must treat the node as distinct and create it anew.
    let second = leaf(&mut ids, None, "p", "hello");
    let stats = doc.render_root(&second);
    assert_eq!((stats.created, stats.updated), (1, 0));
}

#[test]
fn tag_mismatch_is_create_not_retag() {
    let mut ids = IdGen::new();
    let mut doc = HostDoc::new();
    let first = leaf(&mut ids, Some("7"), "p", "x");
    doc.render_root(&first);
    // Same identity but another tag: never retag in place.
    let second = leaf(&mut ids, Some("7"), "div", "x");
    let stats = doc.render_root(&second);
    assert_eq!((stats.created, stats.updated), (1, 0));
    assert_eq!(doc.root.as_ref().unwrap().tag, "div");
}

#[test]
fn children_are_mounted_in_order() {
    let mut ids = IdGen::new();
    let mut doc = HostDoc::new();
    let kids = vec![
        leaf(&mut ids, Some("a"), "p", "one"),
        leaf(&mut ids, Some("b"), "p", "two"),
        leaf(&mut ids, Some("c"), "p", "three"),
    ];
    let root = HtmlElement::new(&mut ids, Some("r"), "div", "", "", "", Vec::new(), kids);
    let stats = doc.render_root(&root);
    assert_eq!((stats.created, stats.updated), (4, 0));
    let r = doc.root.as_ref().unwrap();
    assert_eq!(r.children.len(), 3);
    assert_eq!(r.children[0].text, "one");
    assert_eq!(r.children[1].text, "two");
    assert_eq!(r.children[2].text, "three");
}

#[test]
fn keyed_child_survives_a_root_swap() {
    let mut ids = IdGen::new();
    let mut doc = HostDoc::new();
    let kid = leaf(&mut ids, Some("pinned"), "p", "keep me");
    let root = HtmlElement::new(&mut ids, Some("r"), "div", "", "", "", Vec::new(), vec![kid]);
    doc.render_root(&root);

    // The next render pins the same child under a differently-keyed root:
    // the child is reused, the roots are not.
    let kid = leaf(&mut ids, Some("pinned"), "p", "keep me");
    let root = HtmlElement::new(&mut ids, Some("r2"), "div", "", "", "", Vec::new(), vec![kid]);
    let stats = doc.render_root(&root);
    assert_eq!((stats.created, stats.updated), (1, 1));
}

#[test]
fn listener_replacement_discards_old_handlers() {
    let mut ids = IdGen::new();
    let mut doc = HostDoc::new();
    let mut state = AppState::new();
    state.consume_dirty();

    let mut first = leaf(&mut ids, Some("b"), "button", "go");
    first.add_listener(vec!["click"], Action::Increment);
    doc.render_root(&first);

    // The re-render registers a different event; the old `click` handler
    // must be fully removed, the new handler must be the only one.
    let mut second = leaf(&mut ids, Some("b"), "button", "go");
    second.add_listener(vec!["keyup"], Action::Increment);
    let stats = doc.render_root(&second);
    assert_eq!((stats.created, stats.updated), (0, 1));

    let id = "unique_key_b".to_string();
    let fired = dispatch_event(&doc, &mut state, &id, &"click".to_string());
    assert!(!fired);
    assert_eq!(state.get_count(), 0);
    assert!(!state.consume_dirty());

    let fired = dispatch_event(&doc, &mut state, &id, &"keyup".to_string());
    assert!(fired);
    assert_eq!(state.get_count(), 1);
    assert!(state.consume_dirty());
}

#[test]
fn last_registration_wins_within_one_bag() {
    let mut ids = IdGen::new();
    let mut doc = HostDoc::new();
    let mut state = AppState::new();
    state.consume_dirty();

    let mut node = leaf(&mut ids, Some("b"), "button", "go");
    node.add_listener(vec!["click"], Action::ToggleEditing(1));
    node.add_listener(vec!["click"], Action::Increment);
    doc.render_root(&node);

    let fired = dispatch_event(&doc, &mut state, &"unique_key_b".to_string(), &"click".to_string());
    assert!(fired);
    // Only the last handler registered for `click` ran.
    assert_eq!(state.get_count(), 1);
    assert!(!state.get_items()[0].editing);
}

#[test]
fn editable_value_read_and_write() {
    let mut ids = IdGen::new();
    let mut doc = HostDoc::new();
    let area = leaf(&mut ids, Some("edit"), "textarea", "start");
    let plain = leaf(&mut ids, Some("txt"), "p", "start");
    let root = HtmlElement::new(
        &mut ids,
        Some("r"),
        "div",
        "",
        "",
        "",
        Vec::new(),
        vec![area, plain],
    );
    doc.render_root(&root);

    let area_id = "unique_key_edit".to_string();
    let plain_id = "unique_key_txt".to_string();
    // A freshly mounted editable node's value is its text content.
    assert_eq!(HtmlElement::get_dom_element_value(&area_id, &doc).unwrap(), "start");
    // A non-editable node fails the capability check explicitly.
    assert!(HtmlElement::get_dom_element_value(&plain_id, &doc).is_none());
    assert!(HtmlElement::get_dom_element_value(&"absent".to_string(), &doc).is_none());

    // The user types: the value changes, and reads see it.
    assert!(HtmlElement::try_set_dom_element_value(&area_id, &mut doc, "typed".to_string()));
    assert_eq!(HtmlElement::get_dom_element_value(&area_id, &doc).unwrap(), "typed");
    // Writing to a non-editable or absent node changes nothing.
    assert!(!HtmlElement::try_set_dom_element_value(&plain_id, &mut doc, "x".to_string()));
    assert!(!HtmlElement::try_set_dom_element_value(&"absent".to_string(), &mut doc, "x".to_string()));
    assert_eq!(doc.root.as_ref().unwrap().children[1].text, "start");
}

#[test]
fn get_id_and_identity_modes() {
    let mut ids = IdGen::new();
    let keyed = leaf(&mut ids, Some("k"), "p", "");
    assert_eq!(keyed.get_id(), "unique_key_k");
    let generated = leaf(&mut ids, None, "p", "");
    assert_eq!(generated.get_id(), "1");
}
