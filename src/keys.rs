//! The attribute names that shapes and styles write.

use vstd::prelude::*;

verus! {

pub const X: &'static str = "x";
pub const Y: &'static str = "y";

// rectangle
pub const WIDTH: &'static str = "width";
pub const HEIGHT: &'static str = "height";
pub const CORNER_RADIUS: &'static str = "rx";

// circle
pub const CX: &'static str = "cx";
pub const CY: &'static str = "cy";
pub const RADIUS: &'static str = "r";

// style
pub const FILL: &'static str = "fill";
pub const STROKE: &'static str = "stroke";
pub const STROKE_OPACITY: &'static str = "stroke-opacity";
pub const STROKE_WIDTH: &'static str = "stroke-width";
pub const STROKE_STYLE: &'static str = "stroke-dasharray";

// font
pub const FONT_SIZE: &'static str = "font-size";

// path
pub const PATH: &'static str = "d";

// line
pub const X1: &'static str = "x1";
pub const X2: &'static str = "x2";
pub const Y1: &'static str = "y1";
pub const Y2: &'static str = "y2";

// marker
pub const MARKER_START: &'static str = "marker-start";
pub const MARKER_MID: &'static str = "marker-mid";
pub const MARKER_END: &'static str = "marker-end";
pub const MARKER_ID: &'static str = "id";
pub const MARKER_HEIGHT: &'static str = "markerHeight";
pub const MARKER_WIDTH: &'static str = "markerWidth";
pub const MARKER_ORIENT: &'static str = "orient";
pub const VIEW_BOX: &'static str = "viewBox";
pub const REF_X: &'static str = "refX";

} // verus!
