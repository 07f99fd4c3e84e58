use ion_ui::frame::{App, RenderFn};
use ion_ui::events::dispatch_event;
use ion_ui::html::HtmlElement;

#[test]
fn counter_scenario() {
    let mut app = App::new();
    app.app_setup(RenderFn::Counter);
    app.app_main();

    // First tick: the store starts dirty, so the whole UI is created.
    let stats = app.on_frame().unwrap();
    assert_eq!((stats.created, stats.updated), (3, 0));
    {
        let root = app.doc.root.as_ref().unwrap();
        assert_eq!(root.children[0].text, "The current count is 0!");
        assert_eq!(root.children[1].tag, "button");
    }

    // Clicking the button increments the count and marks the store dirty.
    let fired = dispatch_event(
        &app.doc,
        &mut app.state,
        &"unique_key_counter_btn".to_string(),
        &"click".to_string(),
    );
    assert!(fired);
    assert_eq!(app.state.get_count(), 1);

    // Next tick re-renders; every keyed node is reused, none recreated.
    let stats = app.on_frame().unwrap();
    assert_eq!((stats.created, stats.updated), (0, 3));
    let root = app.doc.root.as_ref().unwrap();
    assert_eq!(root.children[0].text, "The current count is 1!");
}

#[test]
fn clean_store_means_idle_frame() {
    let mut app = App::new();
    app.app_setup(RenderFn::Counter);
    app.app_main();
    assert!(app.on_frame().is_some());

    // The first tick consumed the dirty flag; a second tick does nothing:
    // no stats, no host-tree mutation.
    let before_text = app.doc.root.as_ref().unwrap().children[0].text.clone();
    assert!(app.on_frame().is_none());
    assert!(app.on_frame().is_none());
    let root = app.doc.root.as_ref().unwrap();
    assert_eq!(root.children[0].text, before_text);
}

#[test]
fn todo_initial_render() {
    let mut app = App::new();
    app.app_setup(RenderFn::Todo);
    app.app_main();
    let stats = app.on_frame().unwrap();
    // Seven fixed nodes plus three per item, all freshly created.
    assert_eq!((stats.created, stats.updated), (10, 0));
    let root = app.doc.root.as_ref().unwrap();
    assert_eq!(root.children.len(), 3);
    assert_eq!(root.children[0].text, "Todo List");
    let items = &root.children[1];
    assert_eq!(items.children.len(), 1);
    assert_eq!(items.children[0].children[0].text, "Testing!");
    assert_eq!(items.children[0].children[1].text, "Edit");
    let add = &root.children[2];
    assert_eq!(add.children[0].text, "Add item");
    assert_eq!(add.children[1].tag, "textarea");
    assert_eq!(add.children[2].text, "+");
}

#[test]
fn list_growth_scenario() {
    let mut app = App::new();
    app.app_setup(RenderFn::Todo);
    app.app_main();
    app.on_frame().unwrap();

    // The add control appends an item whose identity is max(existing)+1.
    let fired = dispatch_event(
        &app.doc,
        &mut app.state,
        &"unique_key_add_btn".to_string(),
        &"click".to_string(),
    );
    assert!(fired);
    assert_eq!(app.state.get_items().len(), 2);
    assert_eq!(app.state.get_items()[1].id, 2);
    assert_eq!(app.state.get_items()[1].name, "Item Name");

    // The next render grows the list by one subtree; every prior host node
    // is reused unchanged, only the new item's nodes are created.
    let stats = app.on_frame().unwrap();
    assert_eq!((stats.created, stats.updated), (3, 10));
    let root = app.doc.root.as_ref().unwrap();
    assert_eq!(root.children[1].children.len(), 2);
    assert_eq!(root.children[1].children[1].children[0].text, "Item Name");
}

#[test]
fn typing_into_the_add_box() {
    let mut app = App::new();
    app.app_setup(RenderFn::Todo);
    app.app_main();
    app.on_frame().unwrap();

    let input_id = "unique_key_add_input".to_string();
    // The user types into the editable node; the input listener reads the
    // typed value back from the host document into the store.
    assert!(HtmlElement::try_set_dom_element_value(&input_id, &mut app.doc, "Milk".to_string()));
    let fired = dispatch_event(&app.doc, &mut app.state, &input_id, &"input".to_string());
    assert!(fired);
    assert_eq!(app.state.get_new_item_name(), "Milk");

    // Adding now uses the typed name and resets the pending entry name.
    dispatch_event(
        &app.doc,
        &mut app.state,
        &"unique_key_add_btn".to_string(),
        &"click".to_string(),
    );
    assert_eq!(app.state.get_items()[1].name, "Milk");
    assert_eq!(app.state.get_new_item_name(), "Item Name");
}

#[test]
fn edit_mode_round_trip() {
    let mut app = App::new();
    app.app_setup(RenderFn::Todo);
    app.app_main();
    app.on_frame().unwrap();

    // Clicking the item's button flips it into editing mode.
    let btn_id = "unique_key_item_btn_1".to_string();
    assert!(dispatch_event(&app.doc, &mut app.state, &btn_id, &"click".to_string()));
    assert!(app.state.get_items()[0].editing);
    let stats = app.on_frame().unwrap();
    // The read-only name display gives way to a freshly created editor; the
    // other nine nodes keep their identities.
    assert_eq!((stats.created, stats.updated), (1, 9));
    let item_box = &app.doc.root.as_ref().unwrap().children[1].children[0];
    assert_eq!(item_box.children[0].tag, "textarea");
    assert_eq!(item_box.children[1].text, "Save");

    // Typing into the editor renames the item on every keystroke.
    let edit_id = "unique_key_item_1".to_string();
    assert!(HtmlElement::try_set_dom_element_value(&edit_id, &mut app.doc, "Renamed".to_string()));
    assert!(dispatch_event(&app.doc, &mut app.state, &edit_id, &"keyup".to_string()));
    assert_eq!(app.state.get_items()[0].name, "Renamed");

    // Saving flips editing off; the next render shows the new name.
    assert!(dispatch_event(&app.doc, &mut app.state, &btn_id, &"click".to_string()));
    app.on_frame().unwrap();
    let item_box = &app.doc.root.as_ref().unwrap().children[1].children[0];
    assert_eq!(item_box.children[0].tag, "p");
    assert_eq!(item_box.children[0].text, "Renamed");
    assert_eq!(item_box.children[1].text, "Edit");
}

#[test]
fn text_change_rerenders_wholly_in_place() {
    let mut app = App::new();
    app.app_setup(RenderFn::Todo);
    app.app_main();
    app.on_frame().unwrap();

    // Only a text changed; identities and modes stayed. The next render
    // must reuse every host node: zero creations, all ten updated.
    app.state.set_new_item_name("Bread".to_string());
    let stats = app.on_frame().unwrap();
    assert_eq!((stats.created, stats.updated), (0, 10));
    let root = app.doc.root.as_ref().unwrap();
    assert_eq!(root.children[2].children[1].text, "Bread");
}

#[test]
fn empty_list_renders_no_items() {
    let mut app = App::new();
    app.app_setup(RenderFn::Todo);
    app.app_main();
    app.state.set_items(Vec::new());
    let stats = app.on_frame().unwrap();
    assert_eq!((stats.created, stats.updated), (7, 0));
    assert_eq!(app.doc.root.as_ref().unwrap().children[1].children.len(), 0);
}

#[test]
fn events_without_handlers_do_nothing() {
    let mut app = App::new();
    app.app_setup(RenderFn::Todo);
    app.app_main();
    app.on_frame().unwrap();

    // The heading has no listeners; the button has none for this event; an
    // absent identity resolves to nothing. None of these touches the store.
    let title_id = "unique_key_title".to_string();
    assert!(!dispatch_event(&app.doc, &mut app.state, &title_id, &"click".to_string()));
    let btn_id = "unique_key_add_btn".to_string();
    assert!(!dispatch_event(&app.doc, &mut app.state, &btn_id, &"keyup".to_string()));
    let ghost_id = "nobody".to_string();
    assert!(!dispatch_event(&app.doc, &mut app.state, &ghost_id, &"click".to_string()));
    assert_eq!(app.state.get_items().len(), 1);
    assert!(!app.state.consume_dirty());
}
