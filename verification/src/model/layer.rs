//! Layers and their styles.
//!
//! Widths and radii are fixed-point pixels; an opacity is a fixed-point
//! number between 0 and 1.

use vstd::prelude::*;
use vstd::string::StringExecFns;
use crate::error::GeoArrowError;
use crate::fixed::UNIT;
use crate::model::source::DataSource;
use crate::model::LayerId;

verus! {

/// The opacity 0.3, to the nearest unit.
pub const TRANSLUCENT: i64 = 40_265_318;

/// How points are drawn.
#[derive(Debug)]
pub struct PointStyle {
    pub color: String,
    pub radius: i64,
    pub opacity: i64,
}

/// How lines are drawn.
#[derive(Debug)]
pub struct LineStyle {
    pub color: String,
    pub width: i64,
    pub opacity: i64,
    pub dash_pattern: Option<Vec<i64>>,
}

/// How polygons are drawn.
#[derive(Debug)]
pub struct PolygonStyle {
    pub fill_color: String,
    pub stroke_color: String,
    pub stroke_width: i64,
    pub fill_opacity: i64,
    pub stroke_opacity: i64,
}

/// The styles of a layer, one for each kind of geometry.
#[derive(Debug)]
pub struct LayerStyle {
    pub point_style: PointStyle,
    pub line_style: LineStyle,
    pub polygon_style: PolygonStyle,
}

impl Clone for PointStyle {
    fn clone(&self) -> (copy: PointStyle)
        ensures
            copy == *self,
    {
        PointStyle { color: self.color.clone(), radius: self.radius, opacity: self.opacity }
    }
}

impl LineStyle {
    /// The two styles draw lines alike.
    pub open spec fn same_as(&self, other: &LineStyle) -> bool {
        &&& self.color == other.color
        &&& self.width == other.width
        &&& self.opacity == other.opacity
        &&& match (self.dash_pattern, other.dash_pattern) {
            (Some(a), Some(b)) => a@ == b@,
            (None, None) => true,
            _ => false,
        }
    }
}

impl Clone for LineStyle {
    fn clone(&self) -> (copy: LineStyle)
        ensures
            copy.same_as(self),
    {
        LineStyle {
            color: self.color.clone(),
            width: self.width,
            opacity: self.opacity,
            dash_pattern: match &self.dash_pattern {
                Some(pattern) => Some(pattern.clone()),
                None => None,
            },
        }
    }
}

impl Clone for PolygonStyle {
    fn clone(&self) -> (copy: PolygonStyle)
        ensures
            copy == *self,
    {
        PolygonStyle {
            fill_color: self.fill_color.clone(),
            stroke_color: self.stroke_color.clone(),
            stroke_width: self.stroke_width,
            fill_opacity: self.fill_opacity,
            stroke_opacity: self.stroke_opacity,
        }
    }
}

impl LayerStyle {
    /// The two styles draw every kind of geometry alike.
    pub open spec fn same_as(&self, other: &LayerStyle) -> bool {
        &&& self.point_style == other.point_style
        &&& self.line_style.same_as(&other.line_style)
        &&& self.polygon_style == other.polygon_style
    }
}

impl Clone for LayerStyle {
    fn clone(&self) -> (copy: LayerStyle)
        ensures
            copy.same_as(self),
    {
        LayerStyle {
            point_style: self.point_style.clone(),
            line_style: self.line_style.clone(),
            polygon_style: self.polygon_style.clone(),
        }
    }
}

impl LayerStyle {
    /// The style is the standard one: opaque red points of radius 3, opaque
    /// solid blue lines of width 2, and polygons filled in translucent
    /// green with an opaque green outline of width 1.
    pub open spec fn is_standard(&self) -> bool {
        &&& self.point_style.color@ == "#FF0000"@
        &&& self.point_style.radius == 3 * UNIT
        &&& self.point_style.opacity == UNIT
        &&& self.line_style.color@ == "#0000FF"@
        &&& self.line_style.width == 2 * UNIT
        &&& self.line_style.opacity == UNIT
        &&& self.line_style.dash_pattern.is_none()
        &&& self.polygon_style.fill_color@ == "rgba(0, 255, 0, 0.3)"@
        &&& self.polygon_style.stroke_color@ == "#00FF00"@
        &&& self.polygon_style.stroke_width == UNIT
        &&& self.polygon_style.fill_opacity == TRANSLUCENT
        &&& self.polygon_style.stroke_opacity == UNIT
    }
}

impl Default for LayerStyle {
    fn default() -> (style: LayerStyle)
        ensures
            style.is_standard(),
    {
        LayerStyle {
            point_style: PointStyle {
                color: String::from_str("#FF0000"),
                radius: 3 * UNIT,
                opacity: UNIT,
            },
            line_style: LineStyle {
                color: String::from_str("#0000FF"),
                width: 2 * UNIT,
                opacity: UNIT,
                dash_pattern: None,
            },
            polygon_style: PolygonStyle {
                fill_color: String::from_str("rgba(0, 255, 0, 0.3)"),
                stroke_color: String::from_str("#00FF00"),
                stroke_width: UNIT,
                fill_opacity: TRANSLUCENT,
                stroke_opacity: UNIT,
            },
        }
    }
}

/// One layer of a map: a data source drawn in a style within a range of
/// zoom levels.
#[derive(Debug)]
pub struct Layer {
    pub id: LayerId,
    pub name: String,
    pub data_source: DataSource,
    pub style: LayerStyle,
    pub visible: bool,
    pub z_index: i32,
    pub opacity: i64,
    pub min_zoom: u8,
    pub max_zoom: u8,
}

/// The deepest zoom level that a layer can be shown at.
pub const MAX_LAYER_ZOOM: u8 = 20;

impl Clone for Layer {
    /// A layer with the same settings.
    fn clone(&self) -> (copy: Layer)
        ensures
            copy.id == self.id,
            copy.name == self.name,
            copy.data_source@ == self.data_source@,
            copy.style.same_as(&self.style),
            copy.visible == self.visible,
            copy.z_index == self.z_index,
            copy.opacity == self.opacity,
            copy.min_zoom == self.min_zoom,
            copy.max_zoom == self.max_zoom,
    {
        Layer {
            id: self.id.clone(),
            name: self.name.clone(),
            data_source: self.data_source.clone(),
            style: self.style.clone(),
            visible: self.visible,
            z_index: self.z_index,
            opacity: self.opacity,
            min_zoom: self.min_zoom,
            max_zoom: self.max_zoom,
        }
    }
}

impl Layer {
    /// The message for the first rule that the layer breaks, in the order
    /// identifier, name, opacity, zoom range, deepest zoom; `None` for a
    /// layer that breaks none.
    pub open spec fn spec_rejection(&self) -> Option<Seq<char>> {
        if self.id@.len() == 0 {
            Some("Layer ID cannot be empty"@)
        } else if self.name@.len() == 0 {
            Some("Layer name cannot be empty"@)
        } else if self.opacity < 0 || self.opacity > UNIT {
            Some("Layer opacity must be between 0.0 and 1.0"@)
        } else if self.min_zoom > self.max_zoom {
            Some("min_zoom cannot be greater than max_zoom"@)
        } else if self.max_zoom > MAX_LAYER_ZOOM {
            Some("max_zoom cannot exceed 20"@)
        } else {
            None
        }
    }

    /// The layer is switched on and the zoom level lies within its range.
    pub open spec fn spec_is_visible_at_zoom(&self, zoom: u8) -> bool {
        self.visible && self.min_zoom <= zoom <= self.max_zoom
    }

    /// A visible, opaque layer in the standard style at the bottom of the
    /// stack, shown at every zoom level.
    ///
    /// Fails for an empty identifier and for an empty name, in this order.
    pub fn new(id: String, name: String, data_source: DataSource) -> (r: Result<
        Layer,
        GeoArrowError,
    >)
        ensures
            id@.len() == 0 ==> r.is_err() && r.unwrap_err().is_validation(
                "Layer ID cannot be empty"@,
            ),
            id@.len() > 0 && name@.len() == 0 ==> r.is_err() && r.unwrap_err().is_validation(
                "Layer name cannot be empty"@,
            ),
            id@.len() > 0 && name@.len() > 0 ==> r.is_ok() && ({
                let layer = r.unwrap();
                &&& layer.id == id
                &&& layer.name == name
                &&& layer.data_source == data_source
                &&& layer.style.is_standard()
                &&& layer.visible
                &&& layer.z_index == 0
                &&& layer.opacity == UNIT
                &&& layer.min_zoom == 0
                &&& layer.max_zoom == MAX_LAYER_ZOOM
                &&& layer.spec_rejection().is_none()
            }),
    {
        if id.as_str().is_empty() {
            return Err(GeoArrowError::validation("Layer ID cannot be empty"));
        }
        if name.as_str().is_empty() {
            return Err(GeoArrowError::validation("Layer name cannot be empty"));
        }
        Ok(
            Layer {
                id,
                name,
                data_source,
                style: LayerStyle::default(),
                visible: true,
                z_index: 0,
                opacity: UNIT,
                min_zoom: 0,
                max_zoom: 20,
            },
        )
    }

    /// Checks the layer: identifier and name not empty, opacity within
    /// [0, 1], the zoom range in order and not deeper than level 20.
    pub fn is_valid(&self) -> (r: Result<(), GeoArrowError>)
        ensures
            match self.spec_rejection() {
                None => r.is_ok(),
                Some(text) => r.is_err() && r.unwrap_err().is_validation(text),
            },
    {
        if self.id.as_str().is_empty() {
            return Err(GeoArrowError::validation("Layer ID cannot be empty"));
        }
        if self.name.as_str().is_empty() {
            return Err(GeoArrowError::validation("Layer name cannot be empty"));
        }
        if self.opacity < 0 || self.opacity > UNIT {
            return Err(GeoArrowError::validation("Layer opacity must be between 0.0 and 1.0"));
        }
        if self.min_zoom > self.max_zoom {
            return Err(GeoArrowError::validation("min_zoom cannot be greater than max_zoom"));
        }
        if self.max_zoom > MAX_LAYER_ZOOM {
            return Err(GeoArrowError::validation("max_zoom cannot exceed 20"));
        }
        Ok(())
    }

    #[verifier::when_used_as_spec(spec_is_visible_at_zoom)]
    pub fn is_visible_at_zoom(&self, zoom: u8) -> (r: bool)
        ensures
            r == self.spec_is_visible_at_zoom(zoom),
    {
        self.visible && zoom >= self.min_zoom && zoom <= self.max_zoom
    }

    /// The layer in another style.
    pub fn with_style(self, style: LayerStyle) -> (layer: Layer)
        ensures
            layer == (Layer { style, ..self }),
    {
        let mut layer = self;
        layer.style = style;
        layer
    }

    /// The layer at another place in the stack.
    pub fn with_z_index(self, z_index: i32) -> (layer: Layer)
        ensures
            layer == (Layer { z_index, ..self }),
    {
        let mut layer = self;
        layer.z_index = z_index;
        layer
    }

    /// The layer with another opacity. An opacity below 0 counts as 0 and
    /// one above 1 as 1: this is the one place where a value out of range
    /// is brought into range instead of being rejected.
    pub fn with_opacity(self, opacity: i64) -> (layer: Layer)
        ensures
            layer == (Layer {
                opacity: if opacity < 0 {
                    0
                } else if opacity > UNIT {
                    UNIT
                } else {
                    opacity
                },
                ..self
            }),
    {
        let mut layer = self;
        layer.opacity = if opacity < 0 {
            0
        } else if opacity > UNIT {
            UNIT
        } else {
            opacity
        };
        layer
    }

    /// The layer with another range of zoom levels.
    ///
    /// Fails for a range whose first level lies above its last, and for a
    /// last level above 20, in this order. No level is brought into range.
    pub fn with_zoom_range(self, min_zoom: u8, max_zoom: u8) -> (r: Result<Layer, GeoArrowError>)
        ensures
            min_zoom > max_zoom ==> r.is_err() && r.unwrap_err().is_validation(
                "min_zoom cannot be greater than max_zoom"@,
            ),
            min_zoom <= max_zoom && max_zoom > MAX_LAYER_ZOOM ==> r.is_err()
                && r.unwrap_err().is_validation("max_zoom cannot exceed 20"@),
            min_zoom <= max_zoom <= MAX_LAYER_ZOOM ==> r.is_ok() && r.unwrap() == (Layer {
                min_zoom,
                max_zoom,
                ..self
            }),
    {
        if min_zoom > max_zoom {
            return Err(GeoArrowError::validation("min_zoom cannot be greater than max_zoom"));
        }
        if max_zoom > MAX_LAYER_ZOOM {
            return Err(GeoArrowError::validation("max_zoom cannot exceed 20"));
        }
        let mut layer = self;
        layer.min_zoom = min_zoom;
        layer.max_zoom = max_zoom;
        Ok(layer)
    }
}

} // verus!
