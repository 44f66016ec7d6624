//! Declared inputs of a shader and what they become on a node: the type of
//! the port and the value the parameter starts with.

use vstd::prelude::*;
use vstd::std_specs::convert::FromSpecImpl;
use crate::value::{ConnectionType, FloatBits, RangedData, UiValue, ZERO_BITS};

verus! {

/// Default, bounds and identity of a declared input.
#[derive(Clone, Debug, PartialEq)]
pub struct InputValues<T> {
    pub default: Option<T>,
    pub min: Option<T>,
    pub max: Option<T>,
    pub identity: Option<T>,
}

/// The declared type of a shader input, with what the declaration says of
/// its values.
#[derive(Clone, Debug, PartialEq)]
pub enum InputType {
    Event,
    Bool { default: Option<bool> },
    Long { input_values: InputValues<i32>, values: Vec<i32>, labels: Vec<String> },
    Float(InputValues<FloatBits>),
    Point2d(InputValues<[FloatBits; 2]>),
    Color(InputValues<Vec<FloatBits>>),
    Image,
    Audio { num_samples: Option<u32> },
    AudioFft { num_columns: Option<u32> },
}

/// A declared shader input.
#[derive(Clone, Debug, PartialEq)]
pub struct Input {
    pub name: String,
    pub ty: InputType,
}

/// An input of a node: its name, the type of its port and its first value.
#[derive(Clone, Debug, PartialEq)]
pub struct NodeInputDef {
    pub name: String,
    pub ty: ConnectionType,
    pub value: UiValue,
}

/// The connection type of a declared input: images and points travel as
/// textures, everything else has a port that carries nothing.
pub open spec fn connection_type_spec(ty: InputType) -> ConnectionType {
    match ty {
        InputType::Image => ConnectionType::Texture2D,
        InputType::Point2d(_) => ConnectionType::Texture2D,
        _ => ConnectionType::Nothing,
    }
}

/// Component `i` of the colour a declaration starts with: the declared
/// component where there is one, zero otherwise.
pub open spec fn color_component(default: Option<Vec<FloatBits>>, i: int) -> FloatBits {
    match default {
        Some(v) => if 0 <= i < v@.len() { v@[i] } else { FloatBits { bits: ZERO_BITS } },
        None => FloatBits { bits: ZERO_BITS },
    }
}

/// The value a declared input starts with.
///
/// A number, a point, a colour and a switch start at their declared default,
/// or at zero (`false`) where none is declared; the value has no bounds. A
/// colour has four components: missing ones are zero, further ones are left
/// out. Every other input has no value.
pub open spec fn default_value_spec(ty: InputType) -> UiValue {
    match ty {
        InputType::Float(v) => UiValue::Float(
            RangedData {
                value: match v.default {
                    Some(x) => x,
                    None => FloatBits { bits: ZERO_BITS },
                },
                min: None,
                max: None,
            },
        ),
        InputType::Color(v) => UiValue::Color(
            RangedData {
                value: [
                    color_component(v.default, 0),
                    color_component(v.default, 1),
                    color_component(v.default, 2),
                    color_component(v.default, 3),
                ],
                min: None,
                max: None,
            },
        ),
        InputType::Point2d(v) => UiValue::Vec2(
            RangedData {
                value: match v.default {
                    Some(p) => p,
                    None => [FloatBits { bits: ZERO_BITS }, FloatBits { bits: ZERO_BITS }],
                },
                min: None,
                max: None,
            },
        ),
        InputType::Bool { default } => UiValue::Bool(
            RangedData {
                value: match default {
                    Some(b) => b,
                    None => false,
                },
                min: None,
                max: None,
            },
        ),
        _ => UiValue::Nothing,
    }
}

/// The connection type of a declared input.
pub fn connection_type_of(ty: &InputType) -> (r: ConnectionType)
    ensures
        r == connection_type_spec(*ty),
{
    match ty {
        InputType::Image => ConnectionType::Texture2D,
        InputType::Point2d(_) => ConnectionType::Texture2D,
        _ => ConnectionType::Nothing,
    }
}

/// The colour a declaration starts with, from its declared components.
fn default_color(default: &Option<Vec<FloatBits>>) -> (r: [FloatBits; 4])
    ensures
        r == [
            color_component(*default, 0),
            color_component(*default, 1),
            color_component(*default, 2),
            color_component(*default, 3),
        ],
{
    let zero = FloatBits::zero();
    let mut color: [FloatBits; 4] = [zero, zero, zero, zero];
    if let Some(components) = default {
        let mut i: usize = 0;
        while i < 4 && i < components.len()
            invariant
                i <= 4,
                i <= components@.len(),
                forall|k: int| 0 <= k < i ==> #[trigger] color@[k] == components@[k],
                forall|k: int| i <= k < 4 ==> (#[trigger] color@[k]).bits == ZERO_BITS,
            decreases 4 - i,
        {
            color[i] = components[i];
            i = i + 1;
        }
    }
    proof {
        let stated = [
            color_component(*default, 0),
            color_component(*default, 1),
            color_component(*default, 2),
            color_component(*default, 3),
        ];
        assert(color@ =~= stated@);
        assert(color =~= stated);
    }
    color
}

/// The value a declared input starts with.
pub fn default_value_of(ty: &InputType) -> (r: UiValue)
    ensures
        r == default_value_spec(*ty),
{
    match ty {
        InputType::Float(v) => {
            let value = match v.default { Some(x) => x, None => FloatBits::zero() };
            UiValue::Float(RangedData::new(value))
        },
        InputType::Color(v) => UiValue::Color(RangedData::new(default_color(&v.default))),
        InputType::Point2d(v) => {
            let value = match v.default {
                Some(p) => p,
                None => {
                    let origin = [FloatBits::zero(), FloatBits::zero()];
                    proof {
                        let stated = [FloatBits { bits: ZERO_BITS }, FloatBits { bits: ZERO_BITS }];
                        assert(origin@ =~= stated@);
                        assert(origin =~= stated);
                    }
                    origin
                },
            };
            UiValue::Vec2(RangedData::new(value))
        },
        InputType::Bool { default } => {
            let value = match default { Some(b) => *b, None => false };
            UiValue::Bool(RangedData::new(value))
        },
        _ => UiValue::Nothing,
    }
}

/// The connection type of a declared input, under the name it has where
/// shader declarations are read.
pub type NodeConnectionTypes = ConnectionType;

/// The first value of a declared input, under the name it has where shader
/// declarations are read.
pub type NodeValueTypes = UiValue;

impl<'a> From<&'a InputType> for NodeConnectionTypes {
    /// The connection type of a declared input.
    fn from(ty: &'a InputType) -> (r: Self) {
        connection_type_of(ty)
    }
}

impl<'a> FromSpecImpl<&'a InputType> for NodeConnectionTypes {
    open spec fn obeys_from_spec() -> bool {
        true
    }

    open spec fn from_spec(ty: &'a InputType) -> Self {
        connection_type_spec(*ty)
    }
}

impl<'a> From<&'a InputType> for NodeValueTypes {
    /// The value a declared input starts with.
    fn from(ty: &'a InputType) -> (r: Self) {
        default_value_of(ty)
    }
}

impl<'a> FromSpecImpl<&'a InputType> for NodeValueTypes {
    open spec fn obeys_from_spec() -> bool {
        true
    }

    open spec fn from_spec(ty: &'a InputType) -> Self {
        default_value_spec(*ty)
    }
}

impl NodeInputDef {
    /// The node input that a declared input becomes. Every declaration
    /// becomes one: a type without a mapping gets a port that carries
    /// nothing and no value.
    pub fn try_from(input: &Input) -> (r: Result<NodeInputDef, ()>)
        ensures
            r matches Ok(def) && def.name == input.name && def.ty == connection_type_spec(input.ty)
                && def.value == default_value_spec(input.ty),
    {
        let ty = connection_type_of(&input.ty);
        let value = default_value_of(&input.ty);
        Ok(NodeInputDef { name: input.name.clone(), ty, value })
    }
}

/// The node inputs that declared inputs become, one for one and in their
/// order.
pub fn node_inputs(inputs: &Vec<Input>) -> (r: Vec<NodeInputDef>)
    ensures
        r@.len() == inputs@.len(),
        forall|k: int|
            0 <= k < r@.len() ==> (#[trigger] r@[k]).name == inputs@[k].name && r@[k].ty
                == connection_type_spec(inputs@[k].ty) && r@[k].value == default_value_spec(
                inputs@[k].ty,
            ),
{
    let mut defs: Vec<NodeInputDef> = Vec::new();
    let mut i: usize = 0;
    while i < inputs.len()
        invariant
            i <= inputs@.len(),
            defs@.len() == i,
            forall|k: int|
                0 <= k < i ==> (#[trigger] defs@[k]).name == inputs@[k].name && defs@[k].ty
                    == connection_type_spec(inputs@[k].ty) && defs@[k].value == default_value_spec(
                    inputs@[k].ty,
                ),
        decreases inputs@.len() - i,
    {
        let input = &inputs[i];
        defs.push(
            NodeInputDef {
                name: input.name.clone(),
                ty: connection_type_of(&input.ty),
                value: default_value_of(&input.ty),
            },
        );
        i = i + 1;
    }
    defs
}

} // verus!
