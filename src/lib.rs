//! Window/layer scene graph for a small 2D UI toolkit: fixed-point geometry,
//! handle-addressed windows grouped into layers, and a compiler that flattens
//! a layer into indexed quads ready for upload.

pub mod scalar;
pub mod size;
pub mod rect;
pub mod slots;
pub mod layer;
pub mod draw;
pub mod clui;
pub mod ui_box;

pub use clui::{Clui, CluiLayerKey, CluiView, MAX_LAYERS};
pub use draw::{CluiDrawList, CluiDrawSet, CluiVertex, DrawInstruction};
pub use layer::{CluiColor, CluiLayer, CluiUiRect, CluiWindowKey, LayerView, MAX_WINDOWS};
pub use rect::{Corner, Rect};
pub use scalar::{Point, Scalar, SUBPIXELS};
pub use size::Size;
