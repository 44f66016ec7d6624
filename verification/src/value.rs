//! The types that flow along graph edges and the editable values of a node's
//! parameters.

use vstd::prelude::*;

verus! {

/// A single-precision number, carried by its IEEE-754 bit pattern.
///
/// The engine stores and forwards such numbers; it never computes with them.
#[derive(Clone, Copy, Debug, PartialEq, Eq, Structural)]
pub struct FloatBits {
    pub bits: u32,
}

/// Bit pattern of the number zero.
pub const ZERO_BITS: u32 = 0;

/// Bit pattern of the number one.
pub const ONE_BITS: u32 = 0x3F80_0000;

impl FloatBits {
    /// The number zero.
    pub fn zero() -> (r: Self)
        ensures
            r.bits == ZERO_BITS,
    {
        FloatBits { bits: ZERO_BITS }
    }

    /// The number one.
    pub fn one() -> (r: Self)
        ensures
            r.bits == ONE_BITS,
    {
        FloatBits { bits: ONE_BITS }
    }
}

/// What a port of a node carries.
#[derive(Clone, Copy, Debug, PartialEq, Eq, Structural)]
pub enum ConnectionType {
    /// The port carries a texture.
    Texture2D,
    /// The port carries a plain value and no GPU payload.
    Nothing,
}

/// How a text value is edited.
#[derive(Clone, Copy, Debug, PartialEq, Eq, Structural)]
pub enum TextStyle {
    Oneline,
    Multiline,
}

/// A value with the optional bounds that the editor clamps to.
///
/// The bounds are a hint for the editor only: a stored value may lie outside
/// of them.
#[derive(Clone, Debug, PartialEq)]
pub struct RangedData<T> {
    pub value: T,
    pub min: Option<T>,
    pub max: Option<T>,
}

impl<T> RangedData<T> {
    /// A value without bounds.
    pub fn new(value: T) -> (r: Self)
        ensures
            r.value == value,
            r.min is None,
            r.max is None,
    {
        RangedData { value, min: None, max: None }
    }
}

/// A transform given by its parts, with the matrix derived from them.
///
/// `matrix` is a cache. Whoever changes a part recomputes it; nothing here
/// does so implicitly.
#[derive(Clone, Copy, Debug, PartialEq)]
pub struct Mat4Data {
    pub scale: FloatBits,
    pub translation: [FloatBits; 3],
    pub rotation: [FloatBits; 3],
    pub matrix: [FloatBits; 16],
}

/// An editable value of a node parameter.
#[derive(Debug, PartialEq)]
pub enum UiValue {
    Nothing,
    Float(RangedData<FloatBits>),
    Long(RangedData<i32>),
    Bool(RangedData<bool>),
    Vec2(RangedData<[FloatBits; 2]>),
    Vec4(RangedData<[FloatBits; 4]>),
    Color(RangedData<[FloatBits; 4]>),
    Path(Option<String>),
    Text(RangedData<String>, TextStyle),
    Mat4(Mat4Data),
}

/// A copy of an optional text.
fn copy_text(text: &Option<String>) -> (r: Option<String>)
    ensures
        r == *text,
{
    match text {
        Some(t) => Some(t.clone()),
        None => None,
    }
}

impl Clone for UiValue {
    /// An equal value.
    fn clone(&self) -> (r: Self)
        ensures
            r == *self,
    {
        match self {
            UiValue::Nothing => UiValue::Nothing,
            UiValue::Float(d) => UiValue::Float(RangedData { value: d.value, min: d.min, max: d.max }),
            UiValue::Long(d) => UiValue::Long(RangedData { value: d.value, min: d.min, max: d.max }),
            UiValue::Bool(d) => UiValue::Bool(RangedData { value: d.value, min: d.min, max: d.max }),
            UiValue::Vec2(d) => UiValue::Vec2(RangedData { value: d.value, min: d.min, max: d.max }),
            UiValue::Vec4(d) => UiValue::Vec4(RangedData { value: d.value, min: d.min, max: d.max }),
            UiValue::Color(d) => UiValue::Color(RangedData { value: d.value, min: d.min, max: d.max }),
            UiValue::Path(path) => UiValue::Path(copy_text(path)),
            UiValue::Text(d, style) => UiValue::Text(
                RangedData { value: d.value.clone(), min: copy_text(&d.min), max: copy_text(&d.max) },
                *style,
            ),
            UiValue::Mat4(m) => UiValue::Mat4(*m),
        }
    }
}

/// Whether a parameter is being edited.
#[derive(Clone, Copy, Debug, PartialEq, Eq, Structural)]
pub enum UpdaterUiState {
    Nothing,
    Editing,
}

/// The range an integer editor clamps to: a missing lower bound is 0, a
/// missing upper bound is 1.
pub fn default_range_i32(min: &Option<i32>, max: &Option<i32>) -> (r: (i32, i32))
    ensures
        r.0 == (match *min { Some(v) => v, None => 0i32 }),
        r.1 == (match *max { Some(v) => v, None => 1i32 }),
{
    let lo: i32 = match min { Some(v) => *v, None => 0 };
    let hi: i32 = match max { Some(v) => *v, None => 1 };
    (lo, hi)
}

/// The range a slider spans: a missing lower bound is zero, a missing
/// upper bound is one.
pub fn default_range_bits(min: &Option<FloatBits>, max: &Option<FloatBits>) -> (r: (FloatBits, FloatBits))
    ensures
        r.0 == (match *min { Some(v) => v, None => (FloatBits { bits: ZERO_BITS }) }),
        r.1 == (match *max { Some(v) => v, None => (FloatBits { bits: ONE_BITS }) }),
{
    let lo = match min { Some(v) => *v, None => FloatBits::zero() };
    let hi = match max { Some(v) => *v, None => FloatBits::one() };
    (lo, hi)
}

} // verus!
