//! What a node is: its kind, the slot of its compiled resource and the
//! parameters it is updated with.

use vstd::prelude::*;
use crate::meta::IsfInfo;
use crate::value::UiValue;

verus! {

/// The modification time of a file, as seconds and nanoseconds since the
/// Unix epoch.
#[derive(Clone, Copy, Debug, PartialEq, Eq, Structural)]
pub struct FileTime {
    pub secs: u64,
    pub nanos: u32,
}

/// Names a resource of the render backend: a compiled shader program or the
/// buffers of a loaded model. The backend hands the name out when it builds
/// the resource, and takes it back to release it.
#[derive(Clone, Copy, Debug, PartialEq, Eq, Structural)]
pub struct ResourceId {
    pub id: u64,
}

/// The behaviour of a node. It is chosen when the node is created and stays
/// for the node's lifetime.
#[derive(Clone, Debug, PartialEq)]
pub enum NodeType {
    /// A node that renders the shader of a file.
    Isf { info: IsfInfo },
    /// A node that renders a model.
    ObjRender,
    /// A node that renders free shader text.
    Expression { source: Option<String> },
}

/// The three behaviours of a node, without what they carry.
#[derive(Clone, Copy, Debug, PartialEq, Eq, Structural)]
pub enum NodeKind {
    Isf,
    ObjRender,
    Expression,
}

impl NodeKind {
    /// Every behaviour a node can have, in a fixed order.
    pub fn all() -> (r: Vec<NodeKind>)
        ensures
            r@ == seq![NodeKind::Isf, NodeKind::ObjRender, NodeKind::Expression],
    {
        let mut kinds: Vec<NodeKind> = Vec::new();
        kinds.push(NodeKind::Isf);
        kinds.push(NodeKind::ObjRender);
        kinds.push(NodeKind::Expression);
        assert(kinds@ =~= seq![NodeKind::Isf, NodeKind::ObjRender, NodeKind::Expression]);
        kinds
    }
}

impl NodeType {
    /// The behaviour of the node.
    pub open spec fn kind_spec(self) -> NodeKind {
        match self {
            NodeType::Isf { .. } => NodeKind::Isf,
            NodeType::ObjRender => NodeKind::ObjRender,
            NodeType::Expression { .. } => NodeKind::Expression,
        }
    }

    /// The behaviour of the node.
    pub fn kind(&self) -> (r: NodeKind)
        ensures
            r == self.kind_spec(),
    {
        match self {
            NodeType::Isf { .. } => NodeKind::Isf,
            NodeType::ObjRender => NodeKind::ObjRender,
            NodeType::Expression { .. } => NodeKind::Expression,
        }
    }
}

/// The compiled resource of a node, by the node's behaviour. A slot is empty
/// until the first build succeeds.
#[derive(Clone, Copy, Debug, PartialEq, Eq, Structural)]
pub enum NodeShader {
    Isf(Option<ResourceId>),
    Obj(Option<ResourceId>),
    Expression(Option<ResourceId>),
}

impl NodeShader {
    /// The behaviour the slot belongs to.
    pub open spec fn kind_spec(self) -> NodeKind {
        match self {
            NodeShader::Isf(_) => NodeKind::Isf,
            NodeShader::Obj(_) => NodeKind::ObjRender,
            NodeShader::Expression(_) => NodeKind::Expression,
        }
    }

    /// The resource in the slot.
    pub open spec fn resource_spec(self) -> Option<ResourceId> {
        match self {
            NodeShader::Isf(r) => r,
            NodeShader::Obj(r) => r,
            NodeShader::Expression(r) => r,
        }
    }

    /// The slot of a node of the given behaviour, holding `resource`.
    pub fn new(template: &NodeType, resource: Option<ResourceId>) -> (r: Self)
        ensures
            r.kind_spec() == template.kind_spec(),
            r.resource_spec() == resource,
    {
        match template {
            NodeType::Isf { .. } => NodeShader::Isf(resource),
            NodeType::ObjRender => NodeShader::Obj(resource),
            NodeType::Expression { .. } => NodeShader::Expression(resource),
        }
    }

    /// The behaviour the slot belongs to.
    pub fn kind(&self) -> (r: NodeKind)
        ensures
            r == self.kind_spec(),
    {
        match self {
            NodeShader::Isf(_) => NodeKind::Isf,
            NodeShader::Obj(_) => NodeKind::ObjRender,
            NodeShader::Expression(_) => NodeKind::Expression,
        }
    }

    /// The resource in the slot.
    pub fn resource(&self) -> (r: Option<ResourceId>)
        ensures
            r == self.resource_spec(),
    {
        match self {
            NodeShader::Isf(r) => *r,
            NodeShader::Obj(r) => *r,
            NodeShader::Expression(r) => *r,
        }
    }
}

/// A parameter of a node with its current value.
#[derive(Clone, Debug, PartialEq)]
pub struct InputParam {
    pub name: String,
    pub value: UiValue,
}

/// The first path-valued parameter: its path, which may be unset.
pub open spec fn first_path(inputs: Seq<InputParam>) -> Option<Option<String>>
    decreases inputs.len(),
{
    if inputs.len() == 0 {
        None
    } else {
        match inputs.first().value {
            UiValue::Path(path) => Some(path),
            _ => first_path(inputs.drop_first()),
        }
    }
}

/// The text of the first text-valued parameter.
pub open spec fn first_text(inputs: Seq<InputParam>) -> Option<String>
    decreases inputs.len(),
{
    if inputs.len() == 0 {
        None
    } else {
        match inputs.first().value {
            UiValue::Text(text, _) => Some(text.value),
            _ => first_text(inputs.drop_first()),
        }
    }
}

/// The path that a model node loads from: the path of the first path-valued
/// parameter, if that parameter is set.
pub open spec fn model_path(inputs: Seq<InputParam>) -> Option<String> {
    match first_path(inputs) {
        Some(Some(path)) => Some(path),
        _ => None,
    }
}

/// The path that a model node loads from.
pub fn find_model_path(inputs: &Vec<InputParam>) -> (r: Option<String>)
    ensures
        r == model_path(inputs@),
{
    let mut i: usize = 0;
    assert(inputs@.skip(0) =~= inputs@);
    while i < inputs.len()
        invariant
            i <= inputs@.len(),
            first_path(inputs@) == first_path(inputs@.skip(i as int)),
        decreases inputs@.len() - i,
    {
        proof {
            assert(inputs@.skip(i as int).drop_first() =~= inputs@.skip(i + 1));
        }
        if let UiValue::Path(path) = &inputs[i].value {
            return match path {
                Some(p) => Some(p.clone()),
                None => None,
            };
        }
        i = i + 1;
    }
    None
}

/// The text that an expression node compiles: that of the first text-valued
/// parameter.
pub fn find_expression_text(inputs: &Vec<InputParam>) -> (r: Option<String>)
    ensures
        r == first_text(inputs@),
{
    let mut i: usize = 0;
    assert(inputs@.skip(0) =~= inputs@);
    while i < inputs.len()
        invariant
            i <= inputs@.len(),
            first_text(inputs@) == first_text(inputs@.skip(i as int)),
        decreases inputs@.len() - i,
    {
        proof {
            assert(inputs@.skip(i as int).drop_first() =~= inputs@.skip(i + 1));
        }
        if let UiValue::Text(text, _) = &inputs[i].value {
            return Some(text.value.clone());
        }
        i = i + 1;
    }
    None
}

} // verus!
