//! The graph of live nodes and the driver that updates them frame by frame.
//!
//! The driver resolves the parameters of a node, lets the node's controller
//! make its step and records how the update ended in the node's error slot.
//! A step touches the one node it is made on, so a node that fails never
//! keeps another from being updated.

use vstd::prelude::*;
use crate::error::{Moment, NodeError, UpdateError};
use crate::frame::{
    advance, consistent, lemma_frame_ends, lemma_frame_keeps_kind, lemma_step_keeps_kind, run_frame,
    Answers,
};
use crate::node::{InputParam, NodeShader, NodeType, ResourceId};
use crate::update::{created_at, update_step, NodeParts, NodeUpdate, UpdateAction, UpdateEvent};
use crate::value::UiValue;

verus! {

/// Names a node of the graph. Names are handed out in the order of creation
/// and never used twice.
#[derive(Clone, Copy, Debug, PartialEq, Eq, Structural)]
pub struct NodeId {
    pub id: u64,
}

/// An animated value that takes the place of what the user set for one
/// parameter of one node.
#[derive(Clone, Debug, PartialEq)]
pub struct Overlay {
    pub node: NodeId,
    pub param: String,
    pub value: UiValue,
}

/// A node with its runtime state.
#[derive(Debug, PartialEq)]
pub struct Node {
    pub id: NodeId,
    pub template: NodeType,
    pub updater: NodeUpdate,
    pub shader: NodeShader,
    /// The parameters as the user set them.
    pub inputs: Vec<InputParam>,
    /// Why the first build of the node's resource failed. It is set when
    /// the node is created and not touched again.
    pub create_error: Option<NodeError>,
    /// Why the last update failed; empty after an update that succeeded.
    pub update_error: Option<NodeError>,
    /// Why the last rendering failed; empty after one that succeeded.
    pub render_error: Option<NodeError>,
}

/// The value that the overlays give to parameter `param` of `node`: that of
/// the first overlay for it.
pub open spec fn overlay_value(overlays: Seq<Overlay>, node: NodeId, param: Seq<char>) -> Option<
    UiValue,
>
    decreases overlays.len(),
{
    if overlays.len() == 0 {
        None
    } else if overlays.first().node == node && overlays.first().param@ == param {
        Some(overlays.first().value)
    } else {
        overlay_value(overlays.drop_first(), node, param)
    }
}

/// A parameter as an update sees it: with the animated value where there is
/// an overlay for it, with the value the user set otherwise.
pub open spec fn resolve_param(overlays: Seq<Overlay>, node: NodeId, param: InputParam) -> InputParam {
    InputParam {
        name: param.name,
        value: match overlay_value(overlays, node, param.name@) {
            Some(value) => value,
            None => param.value,
        },
    }
}

/// The parameters of a node as an update sees them.
pub open spec fn resolved_inputs(overlays: Seq<Overlay>, node: NodeId, inputs: Seq<InputParam>) -> Seq<
    InputParam,
> {
    Seq::new(inputs.len(), |i: int| resolve_param(overlays, node, inputs[i]))
}

/// Whether `overlay` is for parameter `param` of `node`.
pub open spec fn is_for(overlay: Overlay, node: NodeId, param: Seq<char>) -> bool {
    overlay.node == node && overlay.param@ == param
}

/// Whether no parameter has two overlays.
pub open spec fn distinct_keys(overlays: Seq<Overlay>) -> bool
    decreases overlays.len(),
{
    overlays.len() == 0 || (overlay_value(
        overlays.drop_first(),
        overlays.first().node,
        overlays.first().param@,
    ) is None && distinct_keys(overlays.drop_first()))
}

/// The overlays without those for parameter `param` of `node`, in their
/// order.
pub open spec fn without_key(overlays: Seq<Overlay>, node: NodeId, param: Seq<char>) -> Seq<Overlay>
    decreases overlays.len(),
{
    if overlays.len() == 0 {
        Seq::empty()
    } else if is_for(overlays.first(), node, param) {
        without_key(overlays.drop_first(), node, param)
    } else {
        seq![overlays.first()] + without_key(overlays.drop_first(), node, param)
    }
}

/// Taking the overlays of one parameter away leaves that parameter without
/// a value and every other parameter with the value it had.
pub proof fn lemma_without_key(
    overlays: Seq<Overlay>,
    node: NodeId,
    param: Seq<char>,
    other_node: NodeId,
    other_param: Seq<char>,
)
    ensures
        overlay_value(without_key(overlays, node, param), other_node, other_param) == if other_node
            == node && other_param == param {
            None
        } else {
            overlay_value(overlays, other_node, other_param)
        },
    decreases overlays.len(),
{
    if overlays.len() > 0 {
        let rest = overlays.drop_first();
        lemma_without_key(rest, node, param, other_node, other_param);
        if !is_for(overlays.first(), node, param) {
            let kept = seq![overlays.first()] + without_key(rest, node, param);
            assert(kept.first() == overlays.first());
            assert(kept.drop_first() =~= without_key(rest, node, param));
        }
    }
}

/// Taking the overlays of one parameter away leaves no parameter with two
/// overlays that had at most one.
pub proof fn lemma_without_key_distinct(overlays: Seq<Overlay>, node: NodeId, param: Seq<char>)
    requires
        distinct_keys(overlays),
    ensures
        distinct_keys(without_key(overlays, node, param)),
    decreases overlays.len(),
{
    if overlays.len() > 0 {
        let first = overlays.first();
        let rest = overlays.drop_first();
        lemma_without_key_distinct(rest, node, param);
        if !is_for(first, node, param) {
            let kept = seq![first] + without_key(rest, node, param);
            assert(kept.first() == first);
            assert(kept.drop_first() =~= without_key(rest, node, param));
            lemma_without_key(rest, node, param, first.node, first.param@);
        }
    }
}

/// An overlay at the end gives its value to its parameter where no overlay
/// before it does, and changes the value of no other parameter.
pub proof fn lemma_overlay_at_end(
    overlays: Seq<Overlay>,
    last: Overlay,
    node: NodeId,
    param: Seq<char>,
)
    ensures
        overlay_value(overlays.push(last), node, param) == match overlay_value(
            overlays,
            node,
            param,
        ) {
            Some(value) => Some(value),
            None => if is_for(last, node, param) {
                Some(last.value)
            } else {
                None
            },
        },
    decreases overlays.len(),
{
    let longer = overlays.push(last);
    if overlays.len() == 0 {
        assert(longer.first() == last);
        assert(longer.drop_first() =~= Seq::<Overlay>::empty());
    } else {
        assert(longer.first() == overlays.first());
        assert(longer.drop_first() =~= overlays.drop_first().push(last));
        lemma_overlay_at_end(overlays.drop_first(), last, node, param);
    }
}

/// An overlay at the end, for a parameter that has none, leaves no parameter
/// with two overlays.
pub proof fn lemma_distinct_at_end(overlays: Seq<Overlay>, last: Overlay)
    requires
        distinct_keys(overlays),
        overlay_value(overlays, last.node, last.param@) is None,
    ensures
        distinct_keys(overlays.push(last)),
    decreases overlays.len(),
{
    let longer = overlays.push(last);
    if overlays.len() == 0 {
        assert(longer.first() == last);
        assert(longer.drop_first() =~= Seq::<Overlay>::empty());
        assert(distinct_keys(longer.drop_first()));
    } else {
        let first = overlays.first();
        let rest = overlays.drop_first();
        assert(longer.first() == first);
        assert(longer.drop_first() =~= rest.push(last));
        assert(!is_for(first, last.node, last.param@));
        assert(overlay_value(rest, last.node, last.param@) is None);
        lemma_distinct_at_end(rest, last);
        lemma_overlay_at_end(rest, last, first.node, first.param@);
        assert(!is_for(last, first.node, first.param@));
    }
}

/// Takes the overlays of parameter `param` of `node` away. Tells whether
/// there was one.
pub fn clear_overlay(overlays: &mut Vec<Overlay>, node: NodeId, param: &String) -> (cleared: bool)
    ensures
        final(overlays)@ == without_key(old(overlays)@, node, param@),
        cleared == (overlay_value(old(overlays)@, node, param@) is Some),
        overlay_value(final(overlays)@, node, param@) is None,
        distinct_keys(old(overlays)@) ==> distinct_keys(final(overlays)@),
{
    let mut kept: Vec<Overlay> = Vec::new();
    let mut cleared = false;
    let mut i: usize = 0;
    assert(overlays@.skip(0) =~= overlays@);
    while i < overlays.len()
        invariant
            i <= overlays@.len(),
            without_key(overlays@, node, param@) == kept@ + without_key(
                overlays@.skip(i as int),
                node,
                param@,
            ),
            overlay_value(overlays@, node, param@) == if cleared {
                overlay_value(overlays@, node, param@)
            } else {
                overlay_value(overlays@.skip(i as int), node, param@)
            },
            cleared ==> overlay_value(overlays@, node, param@) is Some,
        decreases overlays@.len() - i,
    {
        let overlay = &overlays[i];
        proof {
            assert(overlays@.skip(i as int).drop_first() =~= overlays@.skip(i + 1));
            assert(overlays@.skip(i as int).first() == overlays@[i as int]);
        }
        if overlay.node == node && overlay.param == *param {
            cleared = true;
        } else {
            let copy = Overlay {
                node: overlay.node,
                param: overlay.param.clone(),
                value: overlay.value.clone(),
            };
            proof {
                let rest = without_key(overlays@.skip(i + 1), node, param@);
                assert(kept@ + (seq![copy] + rest) =~= kept@.push(copy) + rest);
            }
            kept.push(copy);
        }
        i = i + 1;
    }
    proof {
        assert(kept@ + Seq::<Overlay>::empty() =~= kept@);
        lemma_without_key(overlays@, node, param@, node, param@);
        if distinct_keys(overlays@) {
            lemma_without_key_distinct(overlays@, node, param@);
        }
    }
    *overlays = kept;
    cleared
}

/// Gives parameter `param` of `node` the overlay `value`, in place of any it
/// had. No other parameter gets another value, and no parameter has two
/// overlays afterwards that had at most one.
pub fn set_overlay(overlays: &mut Vec<Overlay>, node: NodeId, param: String, value: UiValue)
    ensures
        final(overlays)@ == without_key(old(overlays)@, node, param@).push(
            Overlay { node, param, value },
        ),
        overlay_value(final(overlays)@, node, param@) == Some(value),
        distinct_keys(old(overlays)@) ==> distinct_keys(final(overlays)@),
{
    clear_overlay(overlays, node, &param);
    let overlay = Overlay { node, param, value };
    proof {
        lemma_overlay_at_end(overlays@, overlay, node, param@);
        if distinct_keys(old(overlays)@) {
            lemma_distinct_at_end(overlays@, overlay);
        }
    }
    overlays.push(overlay);
}

/// Every parameter but the one that `set_overlay` is called for keeps the
/// value that the overlays give it.
pub proof fn lemma_set_overlay_keeps_others(
    overlays: Seq<Overlay>,
    set: Overlay,
    node: NodeId,
    param: Seq<char>,
)
    requires
        !is_for(set, node, param),
    ensures
        overlay_value(without_key(overlays, set.node, set.param@).push(set), node, param)
            == overlay_value(overlays, node, param),
{
    lemma_without_key(overlays, set.node, set.param@, node, param);
    lemma_overlay_at_end(without_key(overlays, set.node, set.param@), set, node, param);
}

/// The value that the overlays give to a parameter of a node.
fn find_overlay(overlays: &Vec<Overlay>, node: NodeId, param: &String) -> (r: Option<UiValue>)
    ensures
        r == overlay_value(overlays@, node, param@),
{
    let mut i: usize = 0;
    assert(overlays@.skip(0) =~= overlays@);
    while i < overlays.len()
        invariant
            i <= overlays@.len(),
            overlay_value(overlays@, node, param@) == overlay_value(
                overlays@.skip(i as int),
                node,
                param@,
            ),
        decreases overlays@.len() - i,
    {
        proof {
            assert(overlays@.skip(i as int).drop_first() =~= overlays@.skip(i + 1));
        }
        let overlay = &overlays[i];
        if overlay.node == node && overlay.param == *param {
            return Some(overlay.value.clone());
        }
        i = i + 1;
    }
    None
}

/// The parameters of a node as an update sees them: an animated value wins
/// over the value the user set.
pub fn resolve_inputs(node: NodeId, inputs: &Vec<InputParam>, overlays: &Vec<Overlay>) -> (r: Vec<
    InputParam,
>)
    ensures
        r@ == resolved_inputs(overlays@, node, inputs@),
{
    let mut resolved: Vec<InputParam> = Vec::new();
    let mut i: usize = 0;
    while i < inputs.len()
        invariant
            i <= inputs@.len(),
            resolved@.len() == i,
            forall|k: int|
                0 <= k < i ==> #[trigger] resolved@[k] == resolve_param(overlays@, node, inputs@[k]),
        decreases inputs@.len() - i,
    {
        let param = &inputs[i];
        let value = match find_overlay(overlays, node, &param.name) {
            Some(value) => value,
            None => param.value.clone(),
        };
        resolved.push(InputParam { name: param.name.clone(), value });
        i = i + 1;
    }
    assert(resolved@ =~= resolved_inputs(overlays@, node, inputs@));
    resolved
}

/// The update error of a node after a step that answered `action`: a
/// finished update overwrites it with its outcome, an unfinished one leaves
/// it.
pub open spec fn recorded(previous: Option<NodeError>, action: UpdateAction, now: Moment) -> Option<
    NodeError,
> {
    match action {
        UpdateAction::Done { result: Ok(_), .. } => None,
        UpdateAction::Done { result: Err(error), .. } => Some(
            NodeError { text: error.message_spec(), when: now },
        ),
        _ => previous,
    }
}

impl Node {
    /// Controller, kind and slot of the node.
    pub open spec fn parts(self) -> NodeParts {
        NodeParts { updater: self.updater, template: self.template, shader: self.shader }
    }

    /// The node after one step of its update at `now`, and the action asked
    /// for. The controller sees the resolved parameters; the outcome of a
    /// finished update is recorded in the update error.
    pub open spec fn step_spec(self, overlays: Seq<Overlay>, event: UpdateEvent, now: Moment) -> (
        Node,
        UpdateAction,
    ) {
        let inputs = resolved_inputs(overlays, self.id, self.inputs@);
        let (parts, action) = update_step(self.parts(), inputs, event);
        (
            Node {
                id: self.id,
                template: parts.template,
                updater: parts.updater,
                shader: parts.shader,
                inputs: self.inputs,
                create_error: self.create_error,
                update_error: recorded(self.update_error, action, now),
                render_error: self.render_error,
            },
            action,
        )
    }

    /// One step of the node's update: see [`Node::step_spec`].
    pub fn step(&mut self, overlays: &Vec<Overlay>, event: UpdateEvent, now: Moment) -> (action:
        UpdateAction)
        ensures
            old(self).step_spec(overlays@, event, now) == (*final(self), action),
    {
        let inputs = resolve_inputs(self.id, &self.inputs, overlays);
        let action = self.updater.update(&mut self.template, &inputs, &mut self.shader, event);
        match &action {
            UpdateAction::Done { result: Ok(_), released: _ } => {
                self.update_error = None;
            },
            UpdateAction::Done { result: Err(error), released: _ } => {
                self.update_error = Some(NodeError::from_update(error, now));
            },
            _ => {},
        }
        action
    }

    /// Records how rendering the node ended at `now`: a failure is kept with
    /// its message, a success clears the slot.
    pub fn record_render(&mut self, outcome: Result<(), String>, now: Moment)
        ensures
            final(self).render_error == (match outcome {
                Ok(_) => None,
                Err(text) => Some(NodeError { text, when: now }),
            }),
            final(self).id == old(self).id,
            final(self).parts() == old(self).parts(),
            final(self).inputs == old(self).inputs,
            final(self).create_error == old(self).create_error,
            final(self).update_error == old(self).update_error,
    {
        self.render_error = match outcome {
            Ok(_) => None,
            Err(text) => Some(NodeError::new(text, now)),
        };
    }
}

/// How a frame of a node ended.
#[derive(Debug, PartialEq)]
pub struct FrameReport {
    /// Whether the update succeeded.
    pub result: Result<(), UpdateError>,
    /// The resource that was replaced and is to be released.
    pub released: Option<ResourceId>,
    /// Whether fallible work was done.
    pub built: bool,
}

impl Node {
    /// The node after a whole frame at `now`, played against `answers`: its
    /// parts are those that [`run_frame`] gives, and its update error is the
    /// outcome of the frame.
    pub open spec fn frame_spec(self, overlays: Seq<Overlay>, answers: Answers, now: Moment) -> Node {
        let end = run_frame(self.parts(), resolved_inputs(overlays, self.id, self.inputs@), answers);
        Node {
            id: self.id,
            template: end.node.template,
            updater: end.node.updater,
            shader: end.node.shader,
            inputs: self.inputs,
            create_error: self.create_error,
            update_error: recorded(self.update_error, end.action, now),
            render_error: self.render_error,
        }
    }

    /// The report of a whole frame played against `answers`.
    pub open spec fn report_spec(self, overlays: Seq<Overlay>, answers: Answers) -> FrameReport {
        let end = run_frame(self.parts(), resolved_inputs(overlays, self.id, self.inputs@), answers);
        match end.action {
            UpdateAction::Done { result, released } => FrameReport {
                result,
                released,
                built: end.builds > 0,
            },
            _ => FrameReport { result: Ok(()), released: None, built: end.builds > 0 },
        }
    }

    /// The last step of a frame.
    fn last_step(&mut self, overlays: &Vec<Overlay>, event: UpdateEvent, now: Moment, built: bool) -> (r:
        FrameReport)
        requires
            old(self).step_spec(overlays@, event, now).1 is Done,
        ensures
            *final(self) == old(self).step_spec(overlays@, event, now).0,
            old(self).step_spec(overlays@, event, now).1 == (UpdateAction::Done {
                result: r.result,
                released: r.released,
            }),
            r.built == built,
    {
        match self.step(overlays, event, now) {
            UpdateAction::Done { result, released } => FrameReport { result, released, built },
            _ => FrameReport { result: Ok(()), released: None, built },
        }
    }

    /// Plays a whole frame of the node against `answers`: every action the
    /// controller asks for is answered from them until the update is over.
    pub fn replay_frame(&mut self, overlays: &Vec<Overlay>, answers: Answers, now: Moment) -> (r:
        FrameReport)
        ensures
            *final(self) == old(self).frame_spec(overlays@, answers, now),
            r == old(self).report_spec(overlays@, answers),
    {
        // A frame asks for the time of a file at most once, and for fallible
        // work only as its last request: the arms that stand for any other
        // exchange are never reached.
        proof {
            reveal_with_fuel(advance, 3);
        }
        let Answers { stat, isf, model, expression } = answers;
        match self.step(overlays, UpdateEvent::Frame, now) {
            UpdateAction::Done { result, released } => FrameReport { result, released, built: false },
            UpdateAction::Stat { path } => {
                match self.step(overlays, UpdateEvent::Stat { path, modified: stat }, now) {
                    UpdateAction::Done { result, released } => FrameReport {
                        result,
                        released,
                        built: false,
                    },
                    UpdateAction::BuildIsf { path: _, modified } => self.last_step(
                        overlays,
                        UpdateEvent::IsfBuilt { modified, result: isf },
                        now,
                        true,
                    ),
                    UpdateAction::LoadModel { path, modified } => self.last_step(
                        overlays,
                        UpdateEvent::ModelLoaded { path, modified, result: model },
                        now,
                        true,
                    ),
                    _ => {
                        assert(false);
                        FrameReport { result: Ok(()), released: None, built: false }
                    },
                }
            },
            UpdateAction::BuildExpression { source } => self.last_step(
                overlays,
                UpdateEvent::ExpressionBuilt { source, result: expression },
                now,
                true,
            ),
            _ => {
                assert(false);
                FrameReport { result: Ok(()), released: None, built: false }
            },
        }
    }
}

/// A frame leaves its outcome in the update error of the node: a frame that
/// succeeds clears the error, whatever it held, and a frame that fails sets
/// it to the message of the failure and the moment of the frame. The other
/// error slots, the name and the parameters of the node are not touched.
pub proof fn lemma_frame_records_outcome(
    node: Node,
    overlays: Seq<Overlay>,
    answers: Answers,
    now: Moment,
)
    ensures
        node.frame_spec(overlays, answers, now).update_error == (match node.report_spec(
            overlays,
            answers,
        ).result {
            Ok(_) => None,
            Err(error) => Some(NodeError { text: error.message_spec(), when: now }),
        }),
        node.frame_spec(overlays, answers, now).create_error == node.create_error,
        node.frame_spec(overlays, answers, now).render_error == node.render_error,
        node.frame_spec(overlays, answers, now).id == node.id,
        node.frame_spec(overlays, answers, now).inputs == node.inputs,
{
    lemma_frame_ends(node.parts(), resolved_inputs(overlays, node.id, node.inputs@), answers);
}

/// A wire from an output of one node to an input of another.
#[derive(Clone, Copy, Debug, PartialEq, Eq, Structural)]
pub struct Connection {
    pub from: NodeId,
    pub to: NodeId,
}

/// The live nodes, in the order of their creation, and the wires between
/// them.
#[derive(Debug, PartialEq)]
pub struct Graph {
    pub nodes: Vec<Node>,
    pub connections: Vec<Connection>,
    /// The name of the next node.
    pub next_id: u64,
}

/// What removing a node came to.
#[derive(Clone, Copy, Debug, PartialEq, Eq, Structural)]
pub enum Removal {
    /// No live node has the name.
    Missing,
    /// The node is gone. `released` names the resource it owned, which is to
    /// be released.
    Removed { released: Option<ResourceId> },
}

/// Position of the node named `id` among `nodes`.
pub open spec fn position_of(nodes: Seq<Node>, id: NodeId) -> Option<int>
    decreases nodes.len(),
{
    if nodes.len() == 0 {
        None
    } else if nodes.last().id == id {
        Some(nodes.len() - 1)
    } else {
        position_of(nodes.drop_last(), id)
    }
}

/// The wires that do not touch the node named `id`, in their order.
pub open spec fn wires_without(wires: Seq<Connection>, id: NodeId) -> Seq<Connection>
    decreases wires.len(),
{
    if wires.len() == 0 {
        Seq::empty()
    } else {
        let front = wires_without(wires.drop_last(), id);
        if wires.last().from == id || wires.last().to == id {
            front
        } else {
            front.push(wires.last())
        }
    }
}

/// What is handed to the render stage: every live node that owns a compiled
/// resource, with that resource, in the order of the nodes.
pub open spec fn rendered(nodes: Seq<Node>) -> Seq<(NodeId, ResourceId)>
    decreases nodes.len(),
{
    if nodes.len() == 0 {
        Seq::empty()
    } else {
        let front = rendered(nodes.drop_last());
        match nodes.last().shader.resource_spec() {
            Some(resource) => front.push((nodes.last().id, resource)),
            None => front,
        }
    }
}

/// `position_of` finds a node of that name, and there is no such node where
/// it finds none.
pub proof fn lemma_position_of(nodes: Seq<Node>, id: NodeId)
    ensures
        match position_of(nodes, id) {
            Some(i) => 0 <= i < nodes.len() && nodes[i].id == id,
            None => forall|j: int| 0 <= j < nodes.len() ==> (#[trigger] nodes[j]).id != id,
        },
    decreases nodes.len(),
{
    if nodes.len() > 0 && nodes.last().id != id {
        let front = nodes.drop_last();
        lemma_position_of(front, id);
        if position_of(front, id) is None {
            assert forall|j: int| 0 <= j < nodes.len() implies (#[trigger] nodes[j]).id != id by {
                if j < front.len() {
                    assert(front[j] == nodes[j]);
                }
            }
        }
    }
}

/// Whatever is handed to the render stage belongs to a live node.
pub proof fn lemma_rendered_is_live(nodes: Seq<Node>, k: int)
    requires
        0 <= k < rendered(nodes).len(),
    ensures
        exists|i: int|
            0 <= i < nodes.len() && (#[trigger] nodes[i]).id == rendered(nodes)[k].0
                && nodes[i].shader.resource_spec() == Some(rendered(nodes)[k].1),
    decreases nodes.len(),
{
    let front = nodes.drop_last();
    let last = nodes.len() - 1;
    if k < rendered(front).len() {
        lemma_rendered_is_live(front, k);
        let i = choose|i: int|
            0 <= i < front.len() && (#[trigger] front[i]).id == rendered(front)[k].0
                && front[i].shader.resource_spec() == Some(rendered(front)[k].1);
        assert(nodes[i] == front[i]);
    } else {
        assert(nodes[last] == nodes.last());
    }
}

impl Graph {
    /// Whether the graph is well formed: the nodes stand in the order of
    /// their names, every name was handed out already, and the parts of
    /// every node belong together.
    pub open spec fn wf(self) -> bool {
        &&& forall|i: int, j: int|
            0 <= i < j < self.nodes@.len() ==> (#[trigger] self.nodes@[i]).id.id < (
            #[trigger] self.nodes@[j]).id.id
        &&& forall|i: int|
            0 <= i < self.nodes@.len() ==> (#[trigger] self.nodes@[i]).id.id < self.next_id
        &&& forall|i: int| 0 <= i < self.nodes@.len() ==> consistent((#[trigger] self.nodes@[i]).parts())
    }

    /// Whether a live node is named `id`.
    pub open spec fn has_node(self, id: NodeId) -> bool {
        exists|i: int| 0 <= i < self.nodes@.len() && (#[trigger] self.nodes@[i]).id == id
    }

    /// A graph without nodes.
    pub fn new() -> (r: Self)
        ensures
            r.wf(),
            r.nodes@.len() == 0,
            r.connections@.len() == 0,
            r.next_id == 0,
    {
        Graph { nodes: Vec::new(), connections: Vec::new(), next_id: 0 }
    }

    /// Adds a node of the given kind with the given parameters.
    ///
    /// `created` tells what came of building the node's first resource. The
    /// node starts with a fresh controller and without update or render
    /// error; a failed first build is kept as its create error and leaves
    /// the slot empty. No node is added once every name is used up.
    pub fn add_node(
        &mut self,
        template: NodeType,
        inputs: Vec<InputParam>,
        created: Result<Option<ResourceId>, UpdateError>,
        now: Moment,
    ) -> (r: Option<NodeId>)
        requires
            old(self).wf(),
        ensures
            final(self).wf(),
            final(self).connections == old(self).connections,
            old(self).next_id == u64::MAX ==> r is None && *final(self) == *old(self),
            old(self).next_id < u64::MAX ==> r == Some(NodeId { id: old(self).next_id })
                && final(self).next_id == old(self).next_id + 1 && final(self).nodes@.len()
                == old(self).nodes@.len() + 1 && final(self).nodes@.drop_last() == old(self).nodes@
                && ({
                let node = final(self).nodes@.last();
                &&& node.id == NodeId { id: old(self).next_id }
                &&& node.template == template
                &&& node.inputs == inputs
                &&& exists|time| node.updater == created_at(template, time)
                &&& node.shader.kind_spec() == template.kind_spec()
                &&& node.update_error is None
                &&& node.render_error is None
                &&& match created {
                    Ok(resource) => node.shader.resource_spec() == resource && node.create_error
                        is None,
                    Err(error) => node.shader.resource_spec() is None && node.create_error == Some(
                        NodeError { text: error.message_spec(), when: now },
                    ),
                }
            }),
    {
        if self.next_id == u64::MAX {
            return None;
        }
        let id = NodeId { id: self.next_id };
        let updater = NodeUpdate::new(&template).unwrap();
        let (shader, create_error) = match &created {
            Ok(resource) => (NodeShader::new(&template, *resource), None),
            Err(error) => (NodeShader::new(&template, None), Some(NodeError::from_update(error, now))),
        };
        let node = Node {
            id,
            template,
            updater,
            shader,
            inputs,
            create_error,
            update_error: None,
            render_error: None,
        };
        self.nodes.push(node);
        self.next_id = self.next_id + 1;
        proof {
            assert(final(self).nodes@.drop_last() =~= old(self).nodes@);
        }
        Some(id)
    }

    /// The position of the node named `id`.
    pub fn index_of(&self, id: NodeId) -> (r: Option<usize>)
        ensures
            match r {
                Some(i) => position_of(self.nodes@, id) == Some(i as int) && i < self.nodes@.len(),
                None => position_of(self.nodes@, id) is None,
            },
    {
        find_node(&self.nodes, id)
    }

    /// One step of the update of the node at `index`: see
    /// [`Node::step_spec`]. No other node is touched, whatever the step
    /// comes to.
    pub fn update_node(
        &mut self,
        index: usize,
        overlays: &Vec<Overlay>,
        event: UpdateEvent,
        now: Moment,
    ) -> (action: UpdateAction)
        requires
            old(self).wf(),
            index < old(self).nodes@.len(),
        ensures
            final(self).wf(),
            final(self).nodes@.len() == old(self).nodes@.len(),
            old(self).nodes@[index as int].step_spec(overlays@, event, now) == (
                final(self).nodes@[index as int],
                action,
            ),
            forall|j: int|
                0 <= j < old(self).nodes@.len() && j != index ==> final(self).nodes@[j] == old(
                    self,
                ).nodes@[j],
            final(self).connections == old(self).connections,
            final(self).next_id == old(self).next_id,
    {
        proof {
            let node = old(self).nodes@[index as int];
            lemma_step_keeps_kind(
                node.parts(),
                resolved_inputs(overlays@, node.id, node.inputs@),
                event,
            );
        }
        let action = self.nodes[index].step(overlays, event, now);
        action
    }

    /// Records how rendering the node at `index` ended at `now`.
    pub fn record_render(&mut self, index: usize, outcome: Result<(), String>, now: Moment)
        requires
            old(self).wf(),
            index < old(self).nodes@.len(),
        ensures
            final(self).wf(),
            final(self).nodes@.len() == old(self).nodes@.len(),
            final(self).nodes@[index as int].render_error == (match outcome {
                Ok(_) => None,
                Err(text) => Some(NodeError { text, when: now }),
            }),
            final(self).nodes@[index as int].id == old(self).nodes@[index as int].id,
            final(self).nodes@[index as int].parts() == old(self).nodes@[index as int].parts(),
            final(self).nodes@[index as int].inputs == old(self).nodes@[index as int].inputs,
            final(self).nodes@[index as int].create_error == old(
                self,
            ).nodes@[index as int].create_error,
            final(self).nodes@[index as int].update_error == old(
                self,
            ).nodes@[index as int].update_error,
            forall|j: int|
                0 <= j < old(self).nodes@.len() && j != index ==> final(self).nodes@[j] == old(
                    self,
                ).nodes@[j],
            final(self).connections == old(self).connections,
            final(self).next_id == old(self).next_id,
    {
        self.nodes[index].record_render(outcome, now);
    }

    /// Plays a whole frame of the graph: the node at each position is
    /// updated against the answers at that position, in the order of the
    /// nodes. Nodes without answers are left alone.
    ///
    /// Every node gets the frame that its own answers give: where the update
    /// of one node fails, the failure is recorded in that node and all other
    /// nodes are updated as if it had not happened.
    pub fn replay_frame(&mut self, overlays: &Vec<Overlay>, answers: Vec<Answers>, now: Moment) -> (reports:
        Vec<FrameReport>)
        requires
            old(self).wf(),
        ensures
            final(self).wf(),
            final(self).nodes@.len() == old(self).nodes@.len(),
            final(self).connections == old(self).connections,
            final(self).next_id == old(self).next_id,
            reports@.len() == if answers@.len() < old(self).nodes@.len() {
                answers@.len()
            } else {
                old(self).nodes@.len()
            },
            forall|i: int|
                0 <= i < reports@.len() ==> #[trigger] final(self).nodes@[i] == old(
                    self,
                ).nodes@[i].frame_spec(overlays@, answers@[i], now),
            forall|i: int|
                0 <= i < reports@.len() ==> #[trigger] reports@[i] == old(
                    self,
                ).nodes@[i].report_spec(overlays@, answers@[i]),
            forall|i: int|
                reports@.len() <= i < old(self).nodes@.len() ==> #[trigger] final(self).nodes@[i]
                    == old(self).nodes@[i],
    {
        let mut reports: Vec<FrameReport> = Vec::new();
        let ghost before = self.nodes@;
        let ghost all = answers@;
        let mut index: usize = 0;
        for given in it: answers
            invariant
                it.seq() == all,
                self.wf(),
                self.nodes@.len() == before.len(),
                self.connections == old(self).connections,
                self.next_id == old(self).next_id,
                index <= it.index(),
                index <= before.len(),
                index < it.index() ==> index == before.len(),
                reports@.len() == index,
                forall|i: int|
                    0 <= i < index ==> #[trigger] self.nodes@[i] == before[i].frame_spec(
                        overlays@,
                        all[i],
                        now,
                    ),
                forall|i: int|
                    0 <= i < index ==> #[trigger] reports@[i] == before[i].report_spec(
                        overlays@,
                        all[i],
                    ),
                forall|i: int| index <= i < before.len() ==> #[trigger] self.nodes@[i] == before[i],
        {
            if index < self.nodes.len() {
                proof {
                    let node = self.nodes@[index as int];
                    lemma_frame_keeps_kind(
                        node.parts(),
                        resolved_inputs(overlays@, node.id, node.inputs@),
                        given,
                    );
                }
                let report = self.nodes[index].replay_frame(overlays, given, now);
                reports.push(report);
                index = index + 1;
            }
        }
        reports
    }

    /// What is handed to the render stage: see [`rendered`].
    pub fn render_list(&self) -> (r: Vec<(NodeId, ResourceId)>)
        ensures
            r@ == rendered(self.nodes@),
    {
        let mut list: Vec<(NodeId, ResourceId)> = Vec::new();
        let mut i: usize = 0;
        while i < self.nodes.len()
            invariant
                i <= self.nodes@.len(),
                list@ == rendered(self.nodes@.take(i as int)),
            decreases self.nodes@.len() - i,
        {
            proof {
                assert(self.nodes@.take(i + 1).drop_last() =~= self.nodes@.take(i as int));
            }
            if let Some(resource) = self.nodes[i].shader.resource() {
                list.push((self.nodes[i].id, resource));
            }
            i = i + 1;
        }
        proof {
            assert(self.nodes@.take(i as int) =~= self.nodes@);
        }
        list
    }

    /// Removes the node named `id` with the wires that touch it.
    ///
    /// The resource that the node owned is handed back for release. The node
    /// is no longer live afterwards, so nothing of it is handed to the
    /// render stage again.
    pub fn remove_node(&mut self, id: NodeId) -> (r: Removal)
        requires
            old(self).wf(),
        ensures
            final(self).wf(),
            !final(self).has_node(id),
            forall|k: int|
                0 <= k < rendered(final(self).nodes@).len() ==> (#[trigger] rendered(
                    final(self).nodes@,
                )[k]).0 != id,
            final(self).next_id == old(self).next_id,
            match position_of(old(self).nodes@, id) {
                Some(i) => r == (Removal::Removed {
                    released: old(self).nodes@[i].shader.resource_spec(),
                }) && final(self).nodes@ == old(self).nodes@.remove(i) && final(self).connections@
                    == wires_without(old(self).connections@, id),
                None => r == Removal::Missing && *final(self) == *old(self),
            },
    {
        proof {
            lemma_position_of(self.nodes@, id);
        }
        let removal = match self.index_of(id) {
            Some(index) => {
                let node = self.nodes.remove(index);
                self.connections = keep_wires_without(&self.connections, id);
                Removal::Removed { released: node.shader.resource() }
            },
            None => Removal::Missing,
        };
        proof {
            assert forall|k: int| 0 <= k < rendered(final(self).nodes@).len() implies (
            #[trigger] rendered(final(self).nodes@)[k]).0 != id by {
                lemma_rendered_is_live(final(self).nodes@, k);
            }
        }
        removal
    }

    /// Adds a wire from the node named `from` to the node named `to`, if
    /// both are live and differ. Tells whether the wire was added.
    pub fn connect(&mut self, from: NodeId, to: NodeId) -> (added: bool)
        requires
            old(self).wf(),
        ensures
            final(self).wf(),
            final(self).nodes == old(self).nodes,
            final(self).next_id == old(self).next_id,
            added == (from != to && position_of(old(self).nodes@, from) is Some && position_of(
                old(self).nodes@,
                to,
            ) is Some),
            added ==> final(self).connections@ == old(self).connections@.push(
                Connection { from, to },
            ),
            !added ==> final(self).connections == old(self).connections,
    {
        if from == to {
            return false;
        }
        if self.index_of(from).is_none() || self.index_of(to).is_none() {
            return false;
        }
        self.connections.push(Connection { from, to });
        true
    }
}

/// The position of the node named `id` among `nodes`.
pub fn find_node(nodes: &Vec<Node>, id: NodeId) -> (r: Option<usize>)
    ensures
        match r {
            Some(i) => position_of(nodes@, id) == Some(i as int) && i < nodes@.len(),
            None => position_of(nodes@, id) is None,
        },
{
    let mut i: usize = nodes.len();
    assert(nodes@.take(i as int) =~= nodes@);
    while i > 0
        invariant
            i <= nodes@.len(),
            position_of(nodes@, id) == position_of(nodes@.take(i as int), id),
        decreases i,
    {
        proof {
            assert(nodes@.take(i as int).drop_last() =~= nodes@.take(i - 1));
        }
        i = i - 1;
        if nodes[i].id == id {
            return Some(i);
        }
    }
    None
}

/// The wires that do not touch the node named `id`.
fn keep_wires_without(wires: &Vec<Connection>, id: NodeId) -> (r: Vec<Connection>)
    ensures
        r@ == wires_without(wires@, id),
{
    let mut kept: Vec<Connection> = Vec::new();
    let mut i: usize = 0;
    while i < wires.len()
        invariant
            i <= wires@.len(),
            kept@ == wires_without(wires@.take(i as int), id),
        decreases wires@.len() - i,
    {
        proof {
            assert(wires@.take(i + 1).drop_last() =~= wires@.take(i as int));
        }
        let wire = wires[i];
        if !(wire.from == id || wire.to == id) {
            kept.push(wire);
        }
        i = i + 1;
    }
    proof {
        assert(wires@.take(i as int) =~= wires@);
    }
    kept
}

} // verus!
