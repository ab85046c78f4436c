//! The box model of a widget: margins, padding, borders and content.
use vstd::prelude::*;
use crate::layer::CluiColor;
use crate::scalar::Scalar;
use crate::size::Size;

verus! {

#[derive(Clone, Copy, PartialEq, Eq, Structural, Debug)]
pub enum MarginDef {
    Auto,
    Value(Scalar),
}

#[derive(Clone, Copy, PartialEq, Eq, Structural, Debug)]
pub struct Margin {
    pub left: MarginDef,
    pub right: MarginDef,
    pub top: MarginDef,
    pub bottom: MarginDef,
}

#[derive(Clone, Copy, PartialEq, Eq, Structural, Debug)]
pub struct Padding {
    pub left: Scalar,
    pub right: Scalar,
    pub top: Scalar,
    pub bottom: Scalar,
}

#[derive(Clone, Copy, PartialEq, Eq, Structural, Debug)]
pub struct BorderMetrics {
    pub size: Scalar,
    pub color: CluiColor,
}

#[derive(Clone, Copy, PartialEq, Eq, Structural, Debug)]
pub enum BorderDef {
    /// No border is drawn on this side.
    NoBorder,
    Solid(BorderMetrics),
}

#[derive(Clone, Copy, PartialEq, Eq, Structural, Debug)]
pub struct Border {
    pub left: BorderDef,
    pub right: BorderDef,
    pub top: BorderDef,
    pub bottom: BorderDef,
}

#[derive(Clone, Copy, PartialEq, Eq, Structural, Debug)]
pub struct BoxModel {
    pub margin: Margin,
    pub padding: Padding,
    pub content: Size,
    pub background_color: CluiColor,
    pub z_order: Scalar,
}

} // verus!
