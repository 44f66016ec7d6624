//! What a whole frame does to a node.
//!
//! A frame is the exchange that starts with [`UpdateEvent::Frame`] and goes
//! on until the controller answers `Done`. What the outside world would
//! answer during one frame is given as [`Answers`]; `run_frame` is the
//! exchange played against them. The guarantees of the controllers are stated
//! and proved here over whole frames.

use vstd::prelude::*;
use crate::error::UpdateError;
use crate::meta::{IsfInfo, ShaderDef};
use crate::node::{first_text, model_path, FileTime, InputParam, NodeShader, NodeType, ResourceId};
use crate::update::{
    created_at, expression_is_current, failed, finished, model_is_current, replaced, update_step,
    GlExpressionUpdater, IsfUpdater, NodeParts, NodeUpdate, ObjLoader, UpdateAction, UpdateEvent,
};

verus! {

/// What the file system and the render backend answer during one frame.
pub struct Answers {
    /// The modification time of the file that is asked about.
    pub stat: Result<FileTime, String>,
    /// What comes of reading, parsing and compiling the shader file.
    pub isf: Result<(ShaderDef, ResourceId), UpdateError>,
    /// What comes of loading the model.
    pub model: Result<ResourceId, UpdateError>,
    /// What comes of compiling the expression text.
    pub expression: Result<ResourceId, UpdateError>,
}

/// Whether `action` asks for fallible work: reading and compiling a shader,
/// loading a model, compiling an expression.
pub open spec fn is_build(action: UpdateAction) -> bool {
    action is BuildIsf || action is LoadModel || action is BuildExpression
}

/// The event that reports what came of `action`; none once the update is
/// over.
pub open spec fn respond(action: UpdateAction, answers: Answers) -> Option<UpdateEvent> {
    match action {
        UpdateAction::Done { .. } => None,
        UpdateAction::Stat { path } => Some(UpdateEvent::Stat { path, modified: answers.stat }),
        UpdateAction::BuildIsf { path, modified } => Some(
            UpdateEvent::IsfBuilt { modified, result: answers.isf },
        ),
        UpdateAction::LoadModel { path, modified } => Some(
            UpdateEvent::ModelLoaded { path, modified, result: answers.model },
        ),
        UpdateAction::BuildExpression { source } => Some(
            UpdateEvent::ExpressionBuilt { source, result: answers.expression },
        ),
    }
}

/// How a frame ended.
pub struct FrameEnd {
    /// The node after the frame.
    pub node: NodeParts,
    /// The last action of the exchange.
    pub action: UpdateAction,
    /// How often fallible work was asked for.
    pub builds: nat,
}

/// The exchange from `event` on, for at most `steps` further events.
pub open spec fn advance(
    node: NodeParts,
    inputs: Seq<InputParam>,
    answers: Answers,
    event: UpdateEvent,
    steps: nat,
) -> FrameEnd
    decreases steps,
{
    let (next, action) = update_step(node, inputs, event);
    match respond(action, answers) {
        Some(report) => if steps > 0 {
            let end = advance(next, inputs, answers, report, (steps - 1) as nat);
            FrameEnd {
                node: end.node,
                action: end.action,
                builds: end.builds + if is_build(action) { 1nat } else { 0nat },
            }
        } else {
            FrameEnd { node: next, action, builds: if is_build(action) { 1nat } else { 0nat } }
        },
        None => FrameEnd { node: next, action, builds: 0 },
    }
}

/// One frame of a node: the exchange from [`UpdateEvent::Frame`] on.
pub open spec fn run_frame(node: NodeParts, inputs: Seq<InputParam>, answers: Answers) -> FrameEnd {
    advance(node, inputs, answers, UpdateEvent::Frame, 2)
}

/// Whether controller, kind and slot of a node belong together.
pub open spec fn consistent(node: NodeParts) -> bool {
    match (node.updater, node.template, node.shader) {
        (NodeUpdate::Isf(_), NodeType::Isf { .. }, NodeShader::Isf(_)) => true,
        (NodeUpdate::Obj(_), NodeType::ObjRender, NodeShader::Obj(_)) => true,
        (NodeUpdate::Expression(_), NodeType::Expression { .. }, NodeShader::Expression(_)) => true,
        _ => false,
    }
}

/// The controller and the slot that a node is created with belong to the
/// kind of the node, whenever it is created and whatever its slot holds.
pub proof fn lemma_created_is_consistent(
    template: NodeType,
    now: FileTime,
    slot: NodeShader,
)
    requires
        slot.kind_spec() == template.kind_spec(),
    ensures
        consistent(NodeParts { updater: created_at(template, now), template, shader: slot }),
{
}

/// A step never changes what kind of node, controller or slot it works on,
/// so a node whose parts belong together stays such a node.
pub proof fn lemma_step_keeps_kind(node: NodeParts, inputs: Seq<InputParam>, event: UpdateEvent)
    ensures
        update_step(node, inputs, event).0.template.kind_spec() == node.template.kind_spec(),
        update_step(node, inputs, event).0.shader.kind_spec() == node.shader.kind_spec(),
        consistent(node) ==> consistent(update_step(node, inputs, event).0),
{
}

/// A whole frame never changes what kind of node it works on either.
pub proof fn lemma_frame_keeps_kind(node: NodeParts, inputs: Seq<InputParam>, answers: Answers)
    ensures
        run_frame(node, inputs, answers).node.template.kind_spec() == node.template.kind_spec(),
        run_frame(node, inputs, answers).node.shader.kind_spec() == node.shader.kind_spec(),
        consistent(node) ==> consistent(run_frame(node, inputs, answers).node),
{
    reveal_with_fuel(advance, 3);
}

/// Every frame ends: after at most three events the controller answers
/// `Done`, having asked for fallible work at most once.
pub proof fn lemma_frame_ends(node: NodeParts, inputs: Seq<InputParam>, answers: Answers)
    ensures
        run_frame(node, inputs, answers).action is Done,
        run_frame(node, inputs, answers).builds <= 1,
{
    reveal_with_fuel(advance, 3);
}

/// The node of a shader file, from its parts.
pub open spec fn isf_node(updater: IsfUpdater, info: IsfInfo, slot: Option<ResourceId>) -> NodeParts {
    NodeParts {
        updater: NodeUpdate::Isf(updater),
        template: NodeType::Isf { info },
        shader: NodeShader::Isf(slot),
    }
}

/// A shader file that has the modification time it was built with is left
/// alone: the frame succeeds without a build and changes nothing, the stored
/// modification time included. So does every later frame, as long as the
/// file keeps that time.
pub proof fn lemma_isf_unchanged_file(
    updater: IsfUpdater,
    info: IsfInfo,
    slot: Option<ResourceId>,
    inputs: Seq<InputParam>,
    first: Answers,
    second: Answers,
)
    requires
        first.stat == Ok::<FileTime, String>(updater.modified),
        second.stat == Ok::<FileTime, String>(updater.modified),
    ensures
        run_frame(isf_node(updater, info, slot), inputs, first) == (FrameEnd {
            node: isf_node(updater, info, slot),
            action: finished(),
            builds: 0,
        }),
        run_frame(run_frame(isf_node(updater, info, slot), inputs, first).node, inputs, second)
            == (FrameEnd { node: isf_node(updater, info, slot), action: finished(), builds: 0 }),
{
    reveal_with_fuel(advance, 3);
}

/// A changed shader file that fails to build keeps the node as it was: the
/// compiled shader, the description and the stored modification time stay,
/// and the frame reports the failure. The next frame asks for the build
/// again, and reports again if it fails again.
pub proof fn lemma_isf_failed_build(
    updater: IsfUpdater,
    info: IsfInfo,
    slot: Option<ResourceId>,
    inputs: Seq<InputParam>,
    first: Answers,
    second: Answers,
)
    requires
        first.stat matches Ok(time) && time != updater.modified,
        first.isf is Err,
        second.stat matches Ok(time) && time != updater.modified,
        second.isf is Err,
    ensures
        run_frame(isf_node(updater, info, slot), inputs, first) == (FrameEnd {
            node: isf_node(updater, info, slot),
            action: failed(first.isf->Err_0),
            builds: 1,
        }),
        run_frame(run_frame(isf_node(updater, info, slot), inputs, first).node, inputs, second)
            == (FrameEnd {
            node: isf_node(updater, info, slot),
            action: failed(second.isf->Err_0),
            builds: 1,
        }),
{
    reveal_with_fuel(advance, 3);
}

/// A changed shader file that builds is taken over with exactly one build:
/// the node gets the new shader and description and the file's modification
/// time, and the old shader is handed back for release. The next frame on
/// the same file succeeds without a build.
pub proof fn lemma_isf_successful_build(
    updater: IsfUpdater,
    info: IsfInfo,
    slot: Option<ResourceId>,
    inputs: Seq<InputParam>,
    first: Answers,
    second: Answers,
)
    requires
        first.stat matches Ok(time) && time != updater.modified,
        first.isf is Ok,
        second.stat == first.stat,
    ensures
        ({
            let time = first.stat->Ok_0;
            let (def, resource) = first.isf->Ok_0;
            let built = isf_node(
                IsfUpdater { modified: time },
                IsfInfo { name: info.name, path: info.path, def },
                Some(resource),
            );
            &&& run_frame(isf_node(updater, info, slot), inputs, first) == (FrameEnd {
                node: built,
                action: UpdateAction::Done { result: Ok(()), released: replaced(slot, resource) },
                builds: 1,
            })
            &&& run_frame(built, inputs, second) == (FrameEnd {
                node: built,
                action: finished(),
                builds: 0,
            })
        }),
{
    reveal_with_fuel(advance, 3);
}

/// The node of a model, from its parts.
pub open spec fn obj_node(loader: ObjLoader, slot: Option<ResourceId>) -> NodeParts {
    NodeParts {
        updater: NodeUpdate::Obj(loader),
        template: NodeType::ObjRender,
        shader: NodeShader::Obj(slot),
    }
}

/// A model node without a set path parameter does nothing: every frame
/// succeeds, asks for nothing and changes nothing.
pub proof fn lemma_model_without_path(
    loader: ObjLoader,
    slot: Option<ResourceId>,
    inputs: Seq<InputParam>,
    answers: Answers,
)
    requires
        model_path(inputs) is None,
    ensures
        run_frame(obj_node(loader, slot), inputs, answers) == (FrameEnd {
            node: obj_node(loader, slot),
            action: finished(),
            builds: 0,
        }),
        update_step(obj_node(loader, slot), inputs, UpdateEvent::Frame) == (
            obj_node(loader, slot),
            finished(),
        ),
{
    reveal_with_fuel(advance, 3);
}

/// A model node whose path parameter names a file that is not the loaded
/// one loads it exactly once and remembers path and modification time. With
/// path and file unchanged, the next frame loads nothing.
pub proof fn lemma_model_loaded_once(
    loader: ObjLoader,
    slot: Option<ResourceId>,
    inputs: Seq<InputParam>,
    first: Answers,
    second: Answers,
)
    requires
        model_path(inputs) is Some,
        first.stat matches Ok(time) && !model_is_current(loader, model_path(inputs)->Some_0, time),
        first.model is Ok,
        second.stat == first.stat,
    ensures
        ({
            let path = model_path(inputs)->Some_0;
            let time = first.stat->Ok_0;
            let resource = first.model->Ok_0;
            let loaded = obj_node(
                ObjLoader { modified: Some(time), loaded_path: Some(path) },
                Some(resource),
            );
            &&& run_frame(obj_node(loader, slot), inputs, first) == (FrameEnd {
                node: loaded,
                action: UpdateAction::Done { result: Ok(()), released: replaced(slot, resource) },
                builds: 1,
            })
            &&& run_frame(loaded, inputs, second) == (FrameEnd {
                node: loaded,
                action: finished(),
                builds: 0,
            })
        }),
{
    reveal_with_fuel(advance, 3);
}

/// A model that fails to load, or a file that cannot be asked about, keeps
/// the node as it was and reports the failure.
pub proof fn lemma_model_failed_load(
    loader: ObjLoader,
    slot: Option<ResourceId>,
    inputs: Seq<InputParam>,
    answers: Answers,
)
    requires
        model_path(inputs) is Some,
        answers.stat matches Ok(time) ==> !model_is_current(
            loader,
            model_path(inputs)->Some_0,
            time,
        ) && answers.model is Err,
    ensures
        run_frame(obj_node(loader, slot), inputs, answers).node == obj_node(loader, slot),
        run_frame(obj_node(loader, slot), inputs, answers).action == (match answers.stat {
            Ok(_) => failed(answers.model->Err_0),
            Err(message) => failed(UpdateError::IoError(message)),
        }),
{
    reveal_with_fuel(advance, 3);
}

/// The node of an expression, from its parts.
pub open spec fn expression_node(
    updater: GlExpressionUpdater,
    source: Option<String>,
    slot: Option<ResourceId>,
) -> NodeParts {
    NodeParts {
        updater: NodeUpdate::Expression(updater),
        template: NodeType::Expression { source },
        shader: NodeShader::Expression(slot),
    }
}

/// Expression text that differs from the compiled text is compiled exactly
/// once if it compiles: the node gets the new shader and remembers the text,
/// and the next frame with the same text compiles nothing.
pub proof fn lemma_expression_compiled_once(
    updater: GlExpressionUpdater,
    source: Option<String>,
    slot: Option<ResourceId>,
    inputs: Seq<InputParam>,
    first: Answers,
    second: Answers,
)
    requires
        first_text(inputs) is Some,
        !expression_is_current(updater, first_text(inputs)->Some_0),
        first.expression is Ok,
    ensures
        ({
            let text = first_text(inputs)->Some_0;
            let resource = first.expression->Ok_0;
            let built = expression_node(
                GlExpressionUpdater { frag_source: Some(text) },
                source,
                Some(resource),
            );
            &&& run_frame(expression_node(updater, source, slot), inputs, first) == (FrameEnd {
                node: built,
                action: UpdateAction::Done { result: Ok(()), released: replaced(slot, resource) },
                builds: 1,
            })
            &&& run_frame(built, inputs, second) == (FrameEnd {
                node: built,
                action: finished(),
                builds: 0,
            })
        }),
{
    reveal_with_fuel(advance, 3);
}

/// Expression text that fails to compile keeps the node as it was, the
/// remembered text included, and reports the failure; so the next frame
/// compiles the same text again.
pub proof fn lemma_expression_failed_build(
    updater: GlExpressionUpdater,
    source: Option<String>,
    slot: Option<ResourceId>,
    inputs: Seq<InputParam>,
    answers: Answers,
)
    requires
        first_text(inputs) is Some,
        !expression_is_current(updater, first_text(inputs)->Some_0),
        answers.expression is Err,
    ensures
        run_frame(expression_node(updater, source, slot), inputs, answers) == (FrameEnd {
            node: expression_node(updater, source, slot),
            action: failed(answers.expression->Err_0),
            builds: 1,
        }),
{
    reveal_with_fuel(advance, 3);
}

} // verus!
