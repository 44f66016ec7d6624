use shader_graph::editing::{
    can_cut_label, editing_this, next_editing_param, path_label, ui_state, ParamInteraction,
    ParamKey,
};
use shader_graph::graph::NodeId;
use shader_graph::value::UpdaterUiState;

fn key(node: u64, param: &str) -> ParamKey {
    ParamKey { node: NodeId { id: node }, param: param.to_string() }
}

fn seen(secondary_clicked: bool, clicked_elsewhere: bool, changed: bool) -> ParamInteraction {
    ParamInteraction { secondary_clicked, clicked_elsewhere, changed }
}

#[test]
fn parameter_is_edited_when_its_key_is_held() {
    assert!(editing_this(&Some(key(1, "gain")), &key(1, "gain")));
    assert!(!editing_this(&Some(key(1, "gain")), &key(2, "gain")));
    assert!(!editing_this(&Some(key(1, "gain")), &key(1, "bias")));
    assert!(!editing_this(&None, &key(1, "gain")));
    assert_eq!(ui_state(&Some(key(1, "gain")), &key(1, "gain")), UpdaterUiState::Editing);
    assert_eq!(ui_state(&None, &key(1, "gain")), UpdaterUiState::Nothing);
}

#[test]
fn secondary_click_starts_editing() {
    let this = key(1, "gain");
    assert_eq!(next_editing_param(None, &this, seen(true, false, false)), Some(key(1, "gain")));
    assert_eq!(
        next_editing_param(Some(key(2, "bias")), &this, seen(true, false, false)),
        Some(key(1, "gain"))
    );
}

#[test]
fn click_elsewhere_ends_editing_of_this_parameter_only() {
    let this = key(1, "gain");
    assert_eq!(next_editing_param(Some(key(1, "gain")), &this, seen(false, true, false)), None);
    assert_eq!(
        next_editing_param(Some(key(2, "bias")), &this, seen(false, true, false)),
        Some(key(2, "bias"))
    );
    assert_eq!(next_editing_param(None, &this, seen(true, true, false)), None);
}

#[test]
fn change_of_value_ends_all_editing() {
    let this = key(1, "gain");
    assert_eq!(next_editing_param(Some(key(1, "gain")), &this, seen(false, false, true)), None);
    assert_eq!(next_editing_param(Some(key(2, "bias")), &this, seen(false, false, true)), None);
    assert_eq!(next_editing_param(None, &this, seen(true, false, true)), None);
}

#[test]
fn nothing_happening_keeps_the_state() {
    let this = key(1, "gain");
    assert_eq!(next_editing_param(None, &this, seen(false, false, false)), None);
    assert_eq!(
        next_editing_param(Some(key(1, "gain")), &this, seen(false, false, false)),
        Some(key(1, "gain"))
    );
    assert_eq!(
        next_editing_param(Some(key(2, "bias")), &this, seen(false, false, false)),
        Some(key(2, "bias"))
    );
}

#[test]
fn path_label_shows_the_last_bytes_of_the_path() {
    assert_eq!(path_label(&None), "Open");
    assert_eq!(path_label(&Some("models/cube.obj".to_string())), "models/cube.obj");
    assert_eq!(
        path_label(&Some("0123456789/123456789/123456789".to_string())),
        "0123456789/123456789/123456789"
    );
    assert_eq!(
        path_label(&Some("x0123456789/123456789/123456789".to_string())),
        "0123456789/123456789/123456789"
    );
    assert_eq!(path_label(&Some("".to_string())), "");
}

#[test]
fn path_label_counts_bytes_not_characters() {
    let twenty = "ä".repeat(20);
    assert_eq!(twenty.chars().count(), 20);
    assert_eq!(twenty.len(), 40);
    assert!(can_cut_label(&Some(twenty.clone())));
    assert_eq!(path_label(&Some(twenty.clone())), "ä".repeat(15));
    assert_eq!(path_label(&Some(twenty.clone())), &twenty[twenty.len() - 30..]);

    let fifteen = "ä".repeat(15);
    assert_eq!(path_label(&Some(fifteen.clone())), fifteen);

    let mixed = format!("x{}", "ä".repeat(20));
    assert_eq!(mixed.len(), 41);
    assert!(can_cut_label(&Some(mixed.clone())));
    assert_eq!(path_label(&Some(mixed.clone())), &mixed[11..]);
}

#[test]
fn label_cannot_be_cut_inside_a_character() {
    let inside = format!("{}/ö.obj", "ä".repeat(32));
    assert_eq!(inside.len(), 71);
    assert!(!inside.is_char_boundary(41));
    assert!(!can_cut_label(&Some(inside)));
    assert!(!can_cut_label(&Some(format!("{}x", "ä".repeat(20)))));
    assert!(can_cut_label(&Some(format!("xx{}", "ä".repeat(20)))));
    assert!(can_cut_label(&Some(format!("xx{}", "ä".repeat(14)))));
    assert!(can_cut_label(&None));
}
