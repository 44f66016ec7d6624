//! The controllers that keep a node's compiled resource up to date.
//!
//! A controller never touches the file system or the render backend. An
//! update is a short exchange: the caller reports an [`UpdateEvent`], the
//! controller answers with the [`UpdateAction`] it wants performed, and the
//! caller reports what came of it, until the answer is `Done`. Fallible work
//! is asked for only when what the node is built from has changed; a failure
//! leaves the controller, the node's description and the compiled resource
//! as they were, so that the same work is asked for again in the next frame.

use vstd::prelude::*;
use crate::error::UpdateError;
use crate::meta::{IsfInfo, ShaderDef};
use crate::node::{
    find_expression_text, find_model_path, first_text, model_path, FileTime, InputParam, NodeShader,
    NodeType, ResourceId,
};

verus! {

/// Reload state of a node that renders the shader of a file.
#[derive(Clone, Copy, Debug, PartialEq, Eq, Structural)]
pub struct IsfUpdater {
    /// Modification time of the file when it was last built, or the time the
    /// node was created.
    pub modified: FileTime,
}

/// Reload state of a node that renders a model.
#[derive(Clone, Debug, PartialEq)]
pub struct ObjLoader {
    /// Modification time of the loaded file.
    pub modified: Option<FileTime>,
    /// Path of the loaded file.
    pub loaded_path: Option<String>,
}

/// Reload state of a node that renders free shader text.
#[derive(Clone, Debug, PartialEq)]
pub struct GlExpressionUpdater {
    /// The text of the compiled shader.
    pub frag_source: Option<String>,
}

/// What the caller reports to a controller.
#[derive(Debug, PartialEq)]
#[allow(inconsistent_fields)]
pub enum UpdateEvent {
    /// A new frame begins.
    Frame,
    /// The modification time of the file at `path` was asked for.
    Stat { path: String, modified: Result<FileTime, String> },
    /// The shader file was read, parsed and compiled. `modified` is the
    /// modification time the build was asked with.
    IsfBuilt { modified: FileTime, result: Result<(ShaderDef, ResourceId), UpdateError> },
    /// The model at `path` was loaded.
    ModelLoaded { path: String, modified: FileTime, result: Result<ResourceId, UpdateError> },
    /// The expression text `source` was compiled.
    ExpressionBuilt { source: String, result: Result<ResourceId, UpdateError> },
}

/// What a controller wants done.
#[derive(Debug, PartialEq)]
pub enum UpdateAction {
    /// The update of this frame is over. `released` names the resource that
    /// was replaced and is to be released.
    Done { result: Result<(), UpdateError>, released: Option<ResourceId> },
    /// Report the modification time of the file at `path`.
    Stat { path: String },
    /// Read, parse and compile the shader file at `path`.
    BuildIsf { path: String, modified: FileTime },
    /// Load the model at `path`.
    LoadModel { path: String, modified: FileTime },
    /// Compile the expression text `source`.
    BuildExpression { source: String },
}

/// The update is over, nothing failed and nothing is to be released.
pub open spec fn finished() -> UpdateAction {
    UpdateAction::Done { result: Ok(()), released: None }
}

/// The update is over and failed with `error`.
pub open spec fn failed(error: UpdateError) -> UpdateAction {
    UpdateAction::Done { result: Err(error), released: None }
}

/// The resource to release when `resource` takes the place of what `slot`
/// holds: the old resource, unless it is the new one.
pub open spec fn replaced(slot: Option<ResourceId>, resource: ResourceId) -> Option<ResourceId> {
    if slot == Some(resource) {
        None
    } else {
        slot
    }
}

/// Puts `resource` into `slot` and returns the resource to release.
fn replace(slot: &mut Option<ResourceId>, resource: ResourceId) -> (released: Option<ResourceId>)
    ensures
        *final(slot) == Some(resource),
        released == replaced(*old(slot), resource),
{
    let previous = *slot;
    *slot = Some(resource);
    match previous {
        Some(p) => if p == resource { None } else { Some(p) },
        None => None,
    }
}

/// One step of a shader-file controller: the controller, the description and
/// the slot after the step, and the action asked for.
pub open spec fn isf_step(
    updater: IsfUpdater,
    info: IsfInfo,
    slot: Option<ResourceId>,
    event: UpdateEvent,
) -> (IsfUpdater, IsfInfo, Option<ResourceId>, UpdateAction) {
    match event {
        UpdateEvent::Frame => (updater, info, slot, UpdateAction::Stat { path: info.path }),
        UpdateEvent::Stat { path, modified: Err(message) } => (
            updater,
            info,
            slot,
            failed(UpdateError::IoError(message)),
        ),
        UpdateEvent::Stat { path, modified: Ok(time) } => if time == updater.modified {
            (updater, info, slot, finished())
        } else {
            (updater, info, slot, UpdateAction::BuildIsf { path: info.path, modified: time })
        },
        UpdateEvent::IsfBuilt { modified, result: Ok((def, resource)) } => (
            IsfUpdater { modified },
            IsfInfo { name: info.name, path: info.path, def },
            Some(resource),
            UpdateAction::Done { result: Ok(()), released: replaced(slot, resource) },
        ),
        UpdateEvent::IsfBuilt { modified, result: Err(error) } => (updater, info, slot, failed(error)),
        _ => (updater, info, slot, finished()),
    }
}

/// Whether the model of `loader` is the file at `path` as it was at `time`.
pub open spec fn model_is_current(loader: ObjLoader, path: String, time: FileTime) -> bool {
    loader.modified == Some(time) && (loader.loaded_path matches Some(p) && p@ == path@)
}

/// One step of a model controller.
pub open spec fn obj_step(
    loader: ObjLoader,
    inputs: Seq<InputParam>,
    slot: Option<ResourceId>,
    event: UpdateEvent,
) -> (ObjLoader, Option<ResourceId>, UpdateAction) {
    match event {
        UpdateEvent::Frame => match model_path(inputs) {
            Some(path) => (loader, slot, UpdateAction::Stat { path }),
            None => (loader, slot, finished()),
        },
        UpdateEvent::Stat { path, modified: Err(message) } => (
            loader,
            slot,
            failed(UpdateError::IoError(message)),
        ),
        UpdateEvent::Stat { path, modified: Ok(time) } => if model_is_current(loader, path, time) {
            (loader, slot, finished())
        } else {
            (loader, slot, UpdateAction::LoadModel { path, modified: time })
        },
        UpdateEvent::ModelLoaded { path, modified, result: Ok(resource) } => (
            ObjLoader { modified: Some(modified), loaded_path: Some(path) },
            Some(resource),
            UpdateAction::Done { result: Ok(()), released: replaced(slot, resource) },
        ),
        UpdateEvent::ModelLoaded { path, modified, result: Err(error) } => (loader, slot, failed(error)),
        _ => (loader, slot, finished()),
    }
}

/// Whether `source` is the text that `updater` compiled last.
pub open spec fn expression_is_current(updater: GlExpressionUpdater, source: String) -> bool {
    updater.frag_source matches Some(s) && s@ == source@
}

/// One step of an expression controller.
pub open spec fn expression_step(
    updater: GlExpressionUpdater,
    inputs: Seq<InputParam>,
    slot: Option<ResourceId>,
    event: UpdateEvent,
) -> (GlExpressionUpdater, Option<ResourceId>, UpdateAction) {
    match event {
        UpdateEvent::Frame => match first_text(inputs) {
            Some(source) => if expression_is_current(updater, source) {
                (updater, slot, finished())
            } else {
                (updater, slot, UpdateAction::BuildExpression { source })
            },
            None => (updater, slot, finished()),
        },
        UpdateEvent::ExpressionBuilt { source, result: Ok(resource) } => (
            GlExpressionUpdater { frag_source: Some(source) },
            Some(resource),
            UpdateAction::Done { result: Ok(()), released: replaced(slot, resource) },
        ),
        UpdateEvent::ExpressionBuilt { source, result: Err(error) } => (updater, slot, failed(error)),
        _ => (updater, slot, finished()),
    }
}

impl IsfUpdater {
    /// One step of the controller: see [`isf_step`].
    pub fn reload_if_updated(
        &mut self,
        info: &mut IsfInfo,
        slot: &mut Option<ResourceId>,
        event: UpdateEvent,
    ) -> (action: UpdateAction)
        ensures
            isf_step(*old(self), *old(info), *old(slot), event) == (
                *final(self),
                *final(info),
                *final(slot),
                action,
            ),
    {
        match event {
            UpdateEvent::Frame => UpdateAction::Stat { path: info.path.clone() },
            UpdateEvent::Stat { path: _, modified: Err(message) } => UpdateAction::Done {
                result: Err(UpdateError::IoError(message)),
                released: None,
            },
            UpdateEvent::Stat { path: _, modified: Ok(time) } => {
                if time == self.modified {
                    UpdateAction::Done { result: Ok(()), released: None }
                } else {
                    UpdateAction::BuildIsf { path: info.path.clone(), modified: time }
                }
            },
            UpdateEvent::IsfBuilt { modified, result: Ok((def, resource)) } => {
                let released = replace(slot, resource);
                info.def = def;
                self.modified = modified;
                UpdateAction::Done { result: Ok(()), released }
            },
            UpdateEvent::IsfBuilt { modified: _, result: Err(error) } => UpdateAction::Done {
                result: Err(error),
                released: None,
            },
            _ => UpdateAction::Done { result: Ok(()), released: None },
        }
    }
}

impl ObjLoader {
    /// The controller of a node that has loaded nothing yet.
    pub fn new() -> (r: Self)
        ensures
            r.modified is None,
            r.loaded_path is None,
    {
        ObjLoader { modified: None, loaded_path: None }
    }

    /// Whether the loaded model is the file at `path` as it was at `time`.
    fn is_current(&self, path: &String, time: FileTime) -> (r: bool)
        ensures
            r == model_is_current(*self, *path, time),
    {
        let same_time = match self.modified {
            Some(t) => t == time,
            None => false,
        };
        let same_path = match &self.loaded_path {
            Some(p) => *p == *path,
            None => false,
        };
        same_time && same_path
    }

    /// One step of the controller: see [`obj_step`].
    pub fn load_if_changed(
        &mut self,
        inputs: &Vec<InputParam>,
        slot: &mut Option<ResourceId>,
        event: UpdateEvent,
    ) -> (action: UpdateAction)
        ensures
            obj_step(*old(self), inputs@, *old(slot), event) == (*final(self), *final(slot), action),
    {
        match event {
            UpdateEvent::Frame => match find_model_path(inputs) {
                Some(path) => UpdateAction::Stat { path },
                None => UpdateAction::Done { result: Ok(()), released: None },
            },
            UpdateEvent::Stat { path: _, modified: Err(message) } => UpdateAction::Done {
                result: Err(UpdateError::IoError(message)),
                released: None,
            },
            UpdateEvent::Stat { path, modified: Ok(time) } => {
                if self.is_current(&path, time) {
                    UpdateAction::Done { result: Ok(()), released: None }
                } else {
                    UpdateAction::LoadModel { path, modified: time }
                }
            },
            UpdateEvent::ModelLoaded { path, modified, result: Ok(resource) } => {
                let released = replace(slot, resource);
                self.modified = Some(modified);
                self.loaded_path = Some(path);
                UpdateAction::Done { result: Ok(()), released }
            },
            UpdateEvent::ModelLoaded { path: _, modified: _, result: Err(error) } => UpdateAction::Done {
                result: Err(error),
                released: None,
            },
            _ => UpdateAction::Done { result: Ok(()), released: None },
        }
    }
}

impl GlExpressionUpdater {
    /// The controller of a node that has compiled nothing yet.
    pub fn new() -> (r: Self)
        ensures
            r.frag_source is None,
    {
        GlExpressionUpdater { frag_source: None }
    }

    /// Whether `source` is the text that was compiled last.
    fn is_current(&self, source: &String) -> (r: bool)
        ensures
            r == expression_is_current(*self, *source),
    {
        match &self.frag_source {
            Some(s) => *s == *source,
            None => false,
        }
    }

    /// One step of the controller: see [`expression_step`].
    pub fn update(
        &mut self,
        inputs: &Vec<InputParam>,
        slot: &mut Option<ResourceId>,
        event: UpdateEvent,
    ) -> (action: UpdateAction)
        ensures
            expression_step(*old(self), inputs@, *old(slot), event) == (
                *final(self),
                *final(slot),
                action,
            ),
    {
        match event {
            UpdateEvent::Frame => match find_expression_text(inputs) {
                Some(source) => {
                    if self.is_current(&source) {
                        UpdateAction::Done { result: Ok(()), released: None }
                    } else {
                        UpdateAction::BuildExpression { source }
                    }
                },
                None => UpdateAction::Done { result: Ok(()), released: None },
            },
            UpdateEvent::ExpressionBuilt { source, result: Ok(resource) } => {
                let released = replace(slot, resource);
                self.frag_source = Some(source);
                UpdateAction::Done { result: Ok(()), released }
            },
            UpdateEvent::ExpressionBuilt { source: _, result: Err(error) } => UpdateAction::Done {
                result: Err(error),
                released: None,
            },
            _ => UpdateAction::Done { result: Ok(()), released: None },
        }
    }
}

/// The controller of a node, by the node's behaviour.
#[derive(Clone, Debug, PartialEq)]
pub enum NodeUpdate {
    Isf(IsfUpdater),
    Obj(ObjLoader),
    Expression(GlExpressionUpdater),
}

/// A node as an update sees it: its controller, its kind and its slot.
pub struct NodeParts {
    pub updater: NodeUpdate,
    pub template: NodeType,
    pub shader: NodeShader,
}

/// One step of a node's controller: the node after the step and the action
/// asked for.
///
/// The step goes to the controller that matches the node's kind and slot.
/// Where controller, kind and slot do not belong together, nothing happens
/// and the update is over.
pub open spec fn update_step(node: NodeParts, inputs: Seq<InputParam>, event: UpdateEvent) -> (
    NodeParts,
    UpdateAction,
) {
    match (node.updater, node.template, node.shader) {
        (NodeUpdate::Isf(updater), NodeType::Isf { info }, NodeShader::Isf(slot)) => {
            let (updater, info, slot, action) = isf_step(updater, info, slot, event);
            (
                NodeParts {
                    updater: NodeUpdate::Isf(updater),
                    template: NodeType::Isf { info },
                    shader: NodeShader::Isf(slot),
                },
                action,
            )
        },
        (NodeUpdate::Obj(loader), _, NodeShader::Obj(slot)) => {
            let (loader, slot, action) = obj_step(loader, inputs, slot, event);
            (
                NodeParts {
                    updater: NodeUpdate::Obj(loader),
                    template: node.template,
                    shader: NodeShader::Obj(slot),
                },
                action,
            )
        },
        (
            NodeUpdate::Expression(updater),
            NodeType::Expression { .. },
            NodeShader::Expression(slot),
        ) => {
            let (updater, slot, action) = expression_step(updater, inputs, slot, event);
            (
                NodeParts {
                    updater: NodeUpdate::Expression(updater),
                    template: node.template,
                    shader: NodeShader::Expression(slot),
                },
                action,
            )
        },
        _ => (node, finished()),
    }
}

/// The controller of a node of the given kind that was created at `now`.
pub open spec fn created_at(template: NodeType, now: FileTime) -> NodeUpdate {
    match template {
        NodeType::Isf { .. } => NodeUpdate::Isf(IsfUpdater { modified: now }),
        NodeType::ObjRender => NodeUpdate::Obj(ObjLoader { modified: None, loaded_path: None }),
        NodeType::Expression { .. } => NodeUpdate::Expression(
            GlExpressionUpdater { frag_source: None },
        ),
    }
}

/// The time of the system clock.
///
/// Calls `std::time::SystemTime::now` and gives the time as seconds and
/// nanoseconds since the Unix epoch, the epoch itself where the clock is set
/// before it. Nothing is claimed of the result: it differs from call to
/// call.
#[verifier::external_body]
fn system_time_now() -> (now: FileTime) {
    let since = std::time::SystemTime::now().duration_since(std::time::UNIX_EPOCH).unwrap_or_default();
    FileTime { secs: since.as_secs(), nanos: since.subsec_nanos() }
}

impl NodeUpdate {
    /// The controller of a new node of the given kind.
    ///
    /// Every kind has its controller. That of a shader file starts with the
    /// time of the system clock, the others with nothing loaded.
    pub fn new(template: &NodeType) -> (r: Option<Self>)
        ensures
            r matches Some(updater) && exists|now: FileTime| updater == created_at(*template, now),
    {
        Some(Self::with_time(template, system_time_now()))
    }

    /// The controller of a node of the given kind that is created at `now`.
    pub fn with_time(template: &NodeType, now: FileTime) -> (r: Self)
        ensures
            r == created_at(*template, now),
    {
        match template {
            NodeType::Isf { .. } => NodeUpdate::Isf(IsfUpdater { modified: now }),
            NodeType::ObjRender => NodeUpdate::Obj(ObjLoader::new()),
            NodeType::Expression { .. } => NodeUpdate::Expression(GlExpressionUpdater::new()),
        }
    }

    /// One step of the node's update: see [`update_step`].
    pub fn update(
        &mut self,
        template: &mut NodeType,
        inputs: &Vec<InputParam>,
        shader: &mut NodeShader,
        event: UpdateEvent,
    ) -> (action: UpdateAction)
        ensures
            update_step(
                NodeParts { updater: *old(self), template: *old(template), shader: *old(shader) },
                inputs@,
                event,
            ) == (
                NodeParts { updater: *final(self), template: *final(template), shader: *final(shader) },
                action,
            ),
    {
        match (self, template, shader) {
            (NodeUpdate::Isf(updater), NodeType::Isf { info }, NodeShader::Isf(slot)) => {
                updater.reload_if_updated(info, slot, event)
            },
            (NodeUpdate::Obj(loader), _, NodeShader::Obj(slot)) => {
                loader.load_if_changed(inputs, slot, event)
            },
            (
                NodeUpdate::Expression(updater),
                NodeType::Expression { .. },
                NodeShader::Expression(slot),
            ) => updater.update(inputs, slot, event),
            _ => UpdateAction::Done { result: Ok(()), released: None },
        }
    }
}

} // verus!
