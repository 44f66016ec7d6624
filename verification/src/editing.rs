//! Which parameter is being edited, and how a path-valued parameter is
//! labelled.
//!
//! At most one parameter of the whole graph is edited at a time. The state
//! is a value that is handed from frame to frame; nothing here is global.

use vstd::prelude::*;
use vstd::string::*;
use vstd::utf8::{encode_utf8, is_char_boundary};
use crate::graph::NodeId;
use crate::value::UpdaterUiState;

verus! {

/// Names a parameter of a node.
#[derive(Clone, Debug, PartialEq)]
pub struct ParamKey {
    pub node: NodeId,
    pub param: String,
}

/// What the user did to the widget of one parameter in one frame.
#[derive(Clone, Copy, Debug, PartialEq, Eq, Structural)]
pub struct ParamInteraction {
    /// The secondary button was clicked on the widget.
    pub secondary_clicked: bool,
    /// A click went elsewhere than to the widget and its popup.
    pub clicked_elsewhere: bool,
    /// The value of the parameter was changed.
    pub changed: bool,
}

/// Whether `editing` names the parameter `key`.
pub open spec fn is_editing(editing: Option<ParamKey>, key: ParamKey) -> bool {
    editing matches Some(k) && k.node == key.node && k.param@ == key.param@
}

/// Whether the parameter `key` is edited after the frame.
///
/// A secondary click on the widget starts editing it. A click elsewhere
/// ends the editing of the parameter, and so does a change of its value.
pub open spec fn edits_after(editing: Option<ParamKey>, key: ParamKey, seen: ParamInteraction) -> bool {
    (seen.secondary_clicked || is_editing(editing, key)) && !seen.clicked_elsewhere && !seen.changed
}

/// Whether another parameter keeps being edited after the frame of the
/// parameter `key`: it does unless this one took over or changed.
pub open spec fn other_stays(editing: Option<ParamKey>, key: ParamKey, seen: ParamInteraction) -> bool {
    editing is Some && !is_editing(editing, key) && !seen.secondary_clicked && !seen.changed
}

/// Whether `editing` names the parameter `key`.
pub fn editing_this(editing: &Option<ParamKey>, key: &ParamKey) -> (r: bool)
    ensures
        r == is_editing(*editing, *key),
{
    match editing {
        Some(k) => k.node == key.node && k.param == key.param,
        None => false,
    }
}

/// How the widget of the parameter `key` presents itself.
pub fn ui_state(editing: &Option<ParamKey>, key: &ParamKey) -> (r: UpdaterUiState)
    ensures
        r == if is_editing(*editing, *key) {
            UpdaterUiState::Editing
        } else {
            UpdaterUiState::Nothing
        },
{
    if editing_this(editing, key) {
        UpdaterUiState::Editing
    } else {
        UpdaterUiState::Nothing
    }
}

/// The edited parameter after the frame of the widget of parameter `key`.
pub fn next_editing_param(editing: Option<ParamKey>, key: &ParamKey, seen: ParamInteraction) -> (r:
    Option<ParamKey>)
    ensures
        edits_after(editing, *key, seen) ==> is_editing(r, *key),
        other_stays(editing, *key, seen) ==> r == editing,
        !edits_after(editing, *key, seen) && !other_stays(editing, *key, seen) ==> r is None,
{
    let mut current = editing;
    if seen.secondary_clicked {
        current = Some(ParamKey { node: key.node, param: key.param.clone() });
    }
    if editing_this(&current, key) && seen.clicked_elsewhere {
        current = None;
    }
    if seen.changed {
        current = None;
    }
    current
}

/// Longest label of a path, in bytes.
pub const MAX_LABEL_LENGTH: usize = 30;

/// Whether the label of `path` can be cut out of it: a path of more than
/// `MAX_LABEL_LENGTH` bytes must have a character begin at the byte where
/// its last `MAX_LABEL_LENGTH` bytes begin.
pub open spec fn label_can_be_cut(path: Option<String>) -> bool {
    match path {
        Some(p) => {
            let bytes = encode_utf8(p@);
            bytes.len() > MAX_LABEL_LENGTH ==> is_char_boundary(
                bytes,
                bytes.len() - MAX_LABEL_LENGTH,
            )
        },
        None => true,
    }
}

/// The bytes of the label of a path-valued parameter: those of the path if
/// they are at most `MAX_LABEL_LENGTH`, else the last `MAX_LABEL_LENGTH` of
/// them; those of an invitation to set a path where none is set.
pub open spec fn path_label_bytes(path: Option<String>) -> Seq<u8> {
    match path {
        Some(p) => {
            let bytes = encode_utf8(p@);
            if bytes.len() > MAX_LABEL_LENGTH {
                bytes.subrange(bytes.len() - MAX_LABEL_LENGTH, bytes.len() as int)
            } else {
                bytes
            }
        },
        None => encode_utf8("Open"@),
    }
}

/// Whether the label of `path` can be cut out of it.
pub fn can_cut_label(path: &Option<String>) -> (r: bool)
    ensures
        r == label_can_be_cut(*path),
{
    match path {
        Some(p) => {
            let text = p.as_str();
            let len = text.as_bytes().len();
            assert(text.spec_bytes() == encode_utf8(p@));
            if len > MAX_LABEL_LENGTH {
                text.is_char_boundary(len - MAX_LABEL_LENGTH)
            } else {
                true
            }
        },
        None => true,
    }
}

/// The label of a path-valued parameter.
pub fn path_label(path: &Option<String>) -> (r: String)
    requires
        label_can_be_cut(*path),
    ensures
        encode_utf8(r@) == path_label_bytes(*path),
{
    match path {
        Some(p) => {
            let text = p.as_str();
            let len = text.as_bytes().len();
            assert(text.spec_bytes() == encode_utf8(p@));
            if len > MAX_LABEL_LENGTH {
                let (_, tail) = text.split_at(len - MAX_LABEL_LENGTH);
                tail.to_owned()
            } else {
                p.clone()
            }
        },
        None => "Open".to_owned(),
    }
}

} // verus!
