use a11y_tree::dispatch::{
    global_build_tree_update, next_step, AccessibleWindow, RequestAction, RequestEvent,
    RequestState,
};
use a11y_tree::identity::{decode_node_id, encode_node_id, ItemRef, NodeId};
use a11y_tree::scene::{AccessibleRole, Item, SceneGraph};
use a11y_tree::tree::{map_role, AccessKitAdapter, Role, TreeUpdate};

fn item(
    index: u32,
    parent: Option<usize>,
    accessible: bool,
    role: AccessibleRole,
    label: &str,
    descendants: Vec<usize>,
) -> Item {
    Item {
        component: 7,
        index,
        parent,
        accessible,
        is_window: false,
        title: String::new(),
        role,
        label: label.to_string(),
        descendants,
    }
}

fn window(title: &str, descendants: Vec<usize>) -> Item {
    Item {
        component: 7,
        index: 0,
        parent: None,
        accessible: true,
        is_window: true,
        title: title.to_string(),
        role: AccessibleRole::Unspecified,
        label: String::new(),
        descendants,
    }
}

fn id(component: u64, generation: u16, index: u32) -> NodeId {
    NodeId { value: ((component as u128) << 64) | ((generation as u128) << 48) | index as u128 }
}

/// A window holding a button "A" and a checkbox "B"; the button holds a
/// private, non-accessible item.
fn two_controls() -> SceneGraph {
    SceneGraph {
        items: vec![
            window("Main", vec![1, 3]),
            item(1, Some(0), true, AccessibleRole::Button, "A", vec![]),
            item(2, Some(1), false, AccessibleRole::Unspecified, "", vec![]),
            item(3, Some(0), true, AccessibleRole::Checkbox, "B", vec![]),
        ],
        focus: Some(1),
    }
}

#[test]
fn single_button_window_gives_two_nodes() {
    let scene = SceneGraph {
        items: vec![
            window("Hello", vec![1]),
            item(1, Some(0), true, AccessibleRole::Button, "OK", vec![]),
        ],
        focus: None,
    };
    let mut adapter = AccessKitAdapter::new();
    let update = adapter.build_tree_update(&scene);
    assert_eq!(update.nodes.len(), 2);
    let root = update.root.unwrap();
    assert_eq!(root, id(7, 1, 0));
    let (root_key, root_node) = &update.nodes[1];
    assert_eq!(*root_key, root);
    assert_eq!(root_node.role, Role::Window);
    assert_eq!(root_node.label, "Hello");
    let (button_key, button) = &update.nodes[0];
    assert_eq!(*button_key, id(7, 1, 1));
    assert_eq!(button.role, Role::Button);
    assert_eq!(button.label, "OK");
    assert!(button.children.is_empty());
    assert_eq!(root_node.children, vec![*button_key]);
    assert_eq!(update.focus, None);
}

#[test]
fn full_update_is_post_order_and_complete() {
    let scene = SceneGraph {
        items: vec![
            window("W", vec![1, 3]),
            item(1, Some(0), true, AccessibleRole::Tab, "t", vec![2]),
            item(2, Some(1), true, AccessibleRole::Text, "x", vec![]),
            item(3, Some(0), true, AccessibleRole::Slider, "s", vec![]),
        ],
        focus: Some(2),
    };
    let mut adapter = AccessKitAdapter::new();
    let update = adapter.build_tree_update(&scene);
    let keys: Vec<NodeId> = update.nodes.iter().map(|(k, _)| *k).collect();
    assert_eq!(keys, vec![id(7, 1, 2), id(7, 1, 1), id(7, 1, 3), id(7, 1, 0)]);
    for (_, node) in &update.nodes {
        for child in &node.children {
            assert!(keys.contains(child));
        }
    }
    assert!(keys.contains(&update.root.unwrap()));
    assert_eq!(update.focus, Some(id(7, 1, 2)));
    assert_eq!(update.nodes[1].1.role, Role::Tab);
    assert_eq!(update.nodes[1].1.children, vec![id(7, 1, 2)]);
}

#[test]
fn each_full_build_advances_generation_by_one() {
    let scene = two_controls();
    let mut adapter = AccessKitAdapter::new();
    assert_eq!(adapter.tree_generation(), 0);
    let first = adapter.build_tree_update(&scene);
    assert_eq!(adapter.tree_generation(), 1);
    let second = adapter.build_tree_update(&scene);
    assert_eq!(adapter.tree_generation(), 2);
    assert_eq!(first.root, Some(id(7, 1, 0)));
    assert_eq!(second.root, Some(id(7, 2, 0)));
    assert_ne!(first.root, second.root);
    let _ = adapter.focus_update(&scene, Some(3));
    assert_eq!(adapter.tree_generation(), 2);
}

#[test]
fn generation_wraps_after_the_largest_value() {
    let scene = SceneGraph { items: vec![window("W", vec![])], focus: None };
    let mut adapter = AccessKitAdapter::new();
    for _ in 0..65535u32 {
        adapter.build_tree_update(&scene);
    }
    assert_eq!(adapter.tree_generation(), 65535);
    let update = adapter.build_tree_update(&scene);
    assert_eq!(adapter.tree_generation(), 0);
    assert_eq!(update.root, Some(id(7, 0, 0)));
}

#[test]
fn focus_moves_from_button_to_checkbox() {
    let scene = two_controls();
    let mut adapter = AccessKitAdapter::new();
    let full = adapter.build_tree_update(&scene);
    assert_eq!(full.focus, Some(id(7, 1, 1)));
    let update = adapter.focus_update(&scene, Some(3));
    assert!(update.nodes.is_empty());
    assert_eq!(update.root, None);
    assert_eq!(update.focus, Some(id(7, 1, 3)));
    assert_eq!(adapter.tree_generation(), 1);
    let cleared = adapter.focus_update(&scene, None);
    assert_eq!(cleared.focus, None);
}

#[test]
fn focus_change_is_sent_only_to_an_active_client() {
    let scene = two_controls();
    let adapter = AccessKitAdapter::new();
    assert_eq!(adapter.handle_focus_change(&scene, false, Some(3)), None);
    let update = adapter.handle_focus_change(&scene, true, Some(3)).unwrap();
    assert!(update.nodes.is_empty());
    assert_eq!(update.root, None);
    assert_eq!(update.focus, Some(id(7, 0, 3)));
}

#[test]
fn private_item_takes_the_identifier_of_its_accessible_ancestor() {
    let scene = two_controls();
    assert_eq!(scene.nearest_accessible_item(2), 1);
    assert_eq!(scene.node_id(2, 5), scene.node_id(1, 5));
    assert_eq!(scene.node_id(2, 5), id(7, 5, 1));
    let decoded = decode_node_id(scene.node_id(2, 5), 5).unwrap();
    assert_eq!(decoded, ItemRef { component: 7, index: 1 });
    assert_eq!(scene.find_item(decoded), Some(1));
}

#[test]
fn item_without_accessible_ancestor_keeps_its_own_identifier() {
    let scene = SceneGraph {
        items: vec![
            item(0, None, false, AccessibleRole::Unspecified, "", vec![]),
            item(4, Some(0), false, AccessibleRole::Unspecified, "", vec![]),
        ],
        focus: None,
    };
    assert_eq!(scene.nearest_accessible_item(1), 1);
    assert_eq!(scene.node_id(1, 2), id(7, 2, 4));
}

#[test]
fn encode_packs_fields() {
    let n = encode_node_id(ItemRef { component: 0x1234, index: 0xdead_beef }, 0xabcd);
    assert_eq!(n.value, 0x0000_0000_0000_1234_abcd_0000_dead_beef_u128);
    assert_ne!(encode_node_id(ItemRef { component: 1, index: 0 }, 0).value, 0);
}

#[test]
fn decode_round_trips_with_matching_generation() {
    let r = ItemRef { component: u64::MAX, index: u32::MAX };
    for g in [0u16, 1, 3, 4, u16::MAX] {
        assert_eq!(decode_node_id(encode_node_id(r, g), g), Some(r));
    }
}

#[test]
fn decode_stale_generation_gives_nothing() {
    let n = encode_node_id(ItemRef { component: 9, index: 2 }, 3);
    assert_eq!(decode_node_id(n, 4), None);
    assert_eq!(decode_node_id(n, 2), None);
    assert_eq!(decode_node_id(n, 3), Some(ItemRef { component: 9, index: 2 }));
}

#[test]
fn find_item_misses_unknown_reference() {
    let scene = two_controls();
    assert_eq!(scene.find_item(ItemRef { component: 8, index: 1 }), None);
    assert_eq!(scene.find_item(ItemRef { component: 7, index: 3 }), Some(3));
}

#[test]
fn roles_map_one_to_one() {
    assert_eq!(map_role(AccessibleRole::Unspecified), Role::Unknown);
    assert_eq!(map_role(AccessibleRole::Button), Role::Button);
    assert_eq!(map_role(AccessibleRole::Checkbox), Role::CheckBox);
    assert_eq!(map_role(AccessibleRole::Combobox), Role::ComboBox);
    assert_eq!(map_role(AccessibleRole::Slider), Role::Slider);
    assert_eq!(map_role(AccessibleRole::Spinbox), Role::SpinButton);
    assert_eq!(map_role(AccessibleRole::Tab), Role::Tab);
    assert_eq!(map_role(AccessibleRole::Text), Role::TextField);
}

#[test]
fn destroyed_window_gives_empty_update() {
    let mut gone: Option<AccessibleWindow> = None;
    let update = global_build_tree_update(&mut gone);
    assert_eq!(update, TreeUpdate::default());
    assert!(update.nodes.is_empty() && update.root.is_none() && update.focus.is_none());
    let (state, action) = next_step(
        RequestState::Fresh,
        RequestEvent::Started { on_owner_thread: true, window_alive: false },
    );
    assert_eq!(state, RequestState::Finished);
    assert_eq!(action, RequestAction::ReturnEmpty);
}

#[test]
fn cross_thread_request_returns_what_owner_built() {
    let mut window =
        Some(AccessibleWindow { adapter: AccessKitAdapter::new(), scene: two_controls() });
    let (state, action) = next_step(
        RequestState::Fresh,
        RequestEvent::Started { on_owner_thread: false, window_alive: true },
    );
    assert_eq!((state, action.clone()), (RequestState::Posting, RequestAction::PostToOwnerThread));
    let (state, action) = next_step(state, RequestEvent::PostSucceeded);
    assert_eq!((state, action), (RequestState::Waiting, RequestAction::Wait));
    let (state, action) = next_step(state, RequestEvent::Woken { result: None });
    assert_eq!((state, action), (RequestState::Waiting, RequestAction::Wait));
    let (owner_state, owner_action) = next_step(
        RequestState::Fresh,
        RequestEvent::Started { on_owner_thread: true, window_alive: true },
    );
    assert_eq!(owner_state, RequestState::Finished);
    assert_eq!(owner_action, RequestAction::BuildOnThisThread);
    let built = global_build_tree_update(&mut window);
    let (state, action) = next_step(state, RequestEvent::Woken { result: Some(built.clone()) });
    assert_eq!(state, RequestState::Finished);
    assert_eq!(action, RequestAction::Return(built.clone()));

    let mut same_thread = AccessKitAdapter::new();
    let direct = same_thread.build_tree_update(&two_controls());
    assert_eq!(direct, built);
}

#[test]
fn failed_post_returns_empty_without_waiting() {
    let (state, action) = next_step(RequestState::Posting, RequestEvent::PostFailed);
    assert_eq!(state, RequestState::Finished);
    assert_eq!(action, RequestAction::ReturnEmpty);
}

#[test]
fn unrelated_event_changes_nothing() {
    let (state, action) = next_step(RequestState::Finished, RequestEvent::PostSucceeded);
    assert_eq!((state, action), (RequestState::Finished, RequestAction::Wait));
    let (state, action) = next_step(RequestState::Fresh, RequestEvent::Woken { result: None });
    assert_eq!((state, action), (RequestState::Fresh, RequestAction::Wait));
}

#[test]
fn rebuilt_tree_differs_only_in_generation() {
    let scene = two_controls();
    let mut adapter = AccessKitAdapter::new();
    let first = adapter.build_tree_update(&scene);
    let second = adapter.build_tree_update(&scene);
    assert_eq!(first.nodes.len(), second.nodes.len());
    for ((k1, n1), (k2, n2)) in first.nodes.iter().zip(second.nodes.iter()) {
        assert_eq!(decode_node_id(*k1, 1), decode_node_id(*k2, 2));
        assert_eq!(decode_node_id(*k1, 2), None);
        assert_eq!(n1.role, n2.role);
        assert_eq!(n1.label, n2.label);
        let c1: Vec<_> = n1.children.iter().map(|c| decode_node_id(*c, 1)).collect();
        let c2: Vec<_> = n2.children.iter().map(|c| decode_node_id(*c, 2)).collect();
        assert_eq!(c1, c2);
    }
}
