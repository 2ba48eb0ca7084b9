//! PCB layout model consumed by the checker: traces, vias, placed components
//! and an optional rectangular board outline.
//!
//! Every coordinate and size is an integer in the entity's declared unit; the
//! checker converts to nanometres before comparing.

use vstd::prelude::*;
use vstd::string::*;
use crate::units::{LengthUnit, coord_in_range};

verus! {

/// A position in an entity's native unit.
#[derive(Debug, Clone, Copy, PartialEq)]
pub struct Position {
    pub x: i64,
    pub y: i64,
    pub z: Option<i64>,
    pub unit: LengthUnit,
}

impl Position {
    pub open spec fn wf(self) -> bool {
        coord_in_range(self.x as int) && coord_in_range(self.y as int)
    }

    pub fn new(x: i64, y: i64, unit: LengthUnit) -> (p: Position)
        ensures
            p == (Position { x, y, z: None, unit }),
    {
        Position { x, y, z: None, unit }
    }
}

/// A copper trace segment.
#[derive(Debug, Clone, PartialEq)]
pub struct Trace {
    /// Net this trace belongs to.
    pub net: String,
    /// Copper layer the trace is on.
    pub layer: String,
    pub start: Position,
    pub end: Position,
    /// Trace width, in `unit`.
    pub width: i64,
    pub unit: LengthUnit,
}

/// Mathematical value of a [`Trace`].
#[verifier::ext_equal]
pub ghost struct TraceView {
    pub net: Seq<char>,
    pub layer: Seq<char>,
    pub start: Position,
    pub end: Position,
    pub width: int,
    pub unit: LengthUnit,
}

impl TraceView {
    pub open spec fn wf(self) -> bool {
        self.start.wf() && self.end.wf() && coord_in_range(self.width)
    }
}

impl View for Trace {
    type V = TraceView;

    open spec fn view(&self) -> TraceView {
        TraceView {
            net: self.net@,
            layer: self.layer@,
            start: self.start,
            end: self.end,
            width: self.width as int,
            unit: self.unit,
        }
    }
}

impl DeepView for Trace {
    type V = TraceView;

    open spec fn deep_view(&self) -> TraceView {
        self.view()
    }
}

/// Kind of via.
#[derive(Debug, Clone, Copy, PartialEq, Eq, Structural)]
pub enum ViaType {
    Through,
    Blind,
    Buried,
    Micro,
}

/// A via connecting copper layers.
#[derive(Debug, Clone, PartialEq)]
pub struct Via {
    /// Net this via belongs to.
    pub net: String,
    pub position: Position,
    pub via_type: ViaType,
    /// Drill diameter, in `unit`.
    pub drill: i64,
    /// Pad (outer) diameter, in `unit`.
    pub pad: i64,
    pub start_layer: Option<String>,
    pub end_layer: Option<String>,
    pub unit: LengthUnit,
}

/// Mathematical value of a [`Via`].
#[verifier::ext_equal]
pub ghost struct ViaView {
    pub net: Seq<char>,
    pub position: Position,
    pub via_type: ViaType,
    pub drill: int,
    pub pad: int,
    pub start_layer: Option<Seq<char>>,
    pub end_layer: Option<Seq<char>>,
    pub unit: LengthUnit,
}

impl ViaView {
    pub open spec fn wf(self) -> bool {
        self.position.wf() && coord_in_range(self.drill) && coord_in_range(self.pad)
    }
}

impl View for Via {
    type V = ViaView;

    open spec fn view(&self) -> ViaView {
        ViaView {
            net: self.net@,
            position: self.position,
            via_type: self.via_type,
            drill: self.drill as int,
            pad: self.pad as int,
            start_layer: match self.start_layer {
                Some(ref s) => Some(s@),
                None => None,
            },
            end_layer: match self.end_layer {
                Some(ref s) => Some(s@),
                None => None,
            },
            unit: self.unit,
        }
    }
}

impl DeepView for Via {
    type V = ViaView;

    open spec fn deep_view(&self) -> ViaView {
        self.view()
    }
}

/// Which side of the board a component sits on.
#[derive(Debug, Clone, Copy, PartialEq, Eq, Structural)]
pub enum ComponentLayer {
    Top,
    Bottom,
}

/// A placed component.
#[derive(Debug, Clone, PartialEq)]
pub struct PlacedComponent {
    /// Reference designator, e.g. `R1`.
    pub reference: String,
    /// Component value, e.g. `10K`.
    pub value: String,
    /// Footprint name.
    pub footprint: String,
    pub layer: ComponentLayer,
    pub position: Position,
    /// Rotation in millidegrees.
    pub rotation: i64,
}

/// Mathematical value of a [`PlacedComponent`].
#[verifier::ext_equal]
pub ghost struct PlacedComponentView {
    pub reference: Seq<char>,
    pub value: Seq<char>,
    pub footprint: Seq<char>,
    pub layer: ComponentLayer,
    pub position: Position,
    pub rotation: int,
}

impl PlacedComponentView {
    pub open spec fn wf(self) -> bool {
        self.position.wf()
    }
}

impl View for PlacedComponent {
    type V = PlacedComponentView;

    open spec fn view(&self) -> PlacedComponentView {
        PlacedComponentView {
            reference: self.reference@,
            value: self.value@,
            footprint: self.footprint@,
            layer: self.layer,
            position: self.position,
            rotation: self.rotation as int,
        }
    }
}

impl DeepView for PlacedComponent {
    type V = PlacedComponentView;

    open spec fn deep_view(&self) -> PlacedComponentView {
        self.view()
    }
}

impl PlacedComponent {
    /// A component at the origin of the top side.
    pub fn new(reference: &str, value: &str, footprint: &str) -> (c: PlacedComponent)
        ensures
            c@ == (PlacedComponentView {
                reference: reference@,
                value: value@,
                footprint: footprint@,
                layer: ComponentLayer::Top,
                position: Position { x: 0, y: 0, z: None, unit: LengthUnit::Mm },
                rotation: 0,
            }),
    {
        PlacedComponent {
            reference: String::from_str(reference),
            value: String::from_str(value),
            footprint: String::from_str(footprint),
            layer: ComponentLayer::Top,
            position: Position { x: 0, y: 0, z: None, unit: LengthUnit::Mm },
            rotation: 0,
        }
    }

    /// The same component moved to `(x, y)` in its position's unit.
    pub fn at(self, x: i64, y: i64) -> (c: PlacedComponent)
        ensures
            c@ == (PlacedComponentView {
                position: Position { x, y, ..self.position },
                ..self@
            }),
    {
        PlacedComponent { position: Position { x, y, ..self.position }, ..self }
    }

    /// The same component rotated to the given angle in millidegrees.
    pub fn rotated(self, rotation: i64) -> (c: PlacedComponent)
        ensures
            c@ == (PlacedComponentView { rotation: rotation as int, ..self@ }),
    {
        PlacedComponent { rotation, ..self }
    }

    /// The same component moved to the bottom side.
    pub fn on_bottom(self) -> (c: PlacedComponent)
        ensures
            c@ == (PlacedComponentView { layer: ComponentLayer::Bottom, ..self@ }),
    {
        PlacedComponent { layer: ComponentLayer::Bottom, ..self }
    }
}

/// Rectangular board outline; dimensions in `unit` when known.
#[derive(Debug, Clone, Copy, PartialEq)]
pub struct Outline {
    pub width: Option<i64>,
    pub height: Option<i64>,
    pub unit: LengthUnit,
}

impl Outline {
    pub open spec fn wf(self) -> bool {
        &&& match self.width {
            Some(w) => coord_in_range(w as int),
            None => true,
        }
        &&& match self.height {
            Some(h) => coord_in_range(h as int),
            None => true,
        }
    }
}

/// A PCB layout: the read-only input of the checker.
#[derive(Debug, Clone, PartialEq)]
pub struct Layout {
    pub traces: Vec<Trace>,
    pub vias: Vec<Via>,
    pub components: Vec<PlacedComponent>,
    pub outline: Option<Outline>,
}

/// Mathematical value of a [`Layout`].
#[verifier::ext_equal]
pub ghost struct LayoutView {
    pub traces: Seq<TraceView>,
    pub vias: Seq<ViaView>,
    pub components: Seq<PlacedComponentView>,
    pub outline: Option<Outline>,
}

impl LayoutView {
    /// Every entity within the coordinate bounds the checker accepts.
    pub open spec fn wf(self) -> bool {
        &&& forall|i: int| 0 <= i < self.traces.len() ==> (#[trigger] self.traces[i]).wf()
        &&& forall|i: int| 0 <= i < self.vias.len() ==> (#[trigger] self.vias[i]).wf()
        &&& forall|i: int|
            0 <= i < self.components.len() ==> (#[trigger] self.components[i]).wf()
        &&& match self.outline {
            Some(o) => o.wf(),
            None => true,
        }
    }
}

impl View for Layout {
    type V = LayoutView;

    open spec fn view(&self) -> LayoutView {
        LayoutView {
            traces: self.traces.deep_view(),
            vias: self.vias.deep_view(),
            components: self.components.deep_view(),
            outline: self.outline,
        }
    }
}

impl Layout {
    /// An empty layout with no outline.
    pub fn new() -> (l: Layout)
        ensures
            l@ == (LayoutView {
                traces: Seq::<TraceView>::empty(),
                vias: Seq::<ViaView>::empty(),
                components: Seq::<PlacedComponentView>::empty(),
                outline: None,
            }),
            l@.wf(),
    {
        let l = Layout { traces: Vec::new(), vias: Vec::new(), components: Vec::new(), outline: None };
        proof {
            assert(l.traces.deep_view() =~= Seq::<TraceView>::empty());
            assert(l.vias.deep_view() =~= Seq::<ViaView>::empty());
            assert(l.components.deep_view() =~= Seq::<PlacedComponentView>::empty());
        }
        l
    }

    /// An empty layout with a rectangular outline of the given size.
    pub fn with_board_size(width: i64, height: i64, unit: LengthUnit) -> (l: Layout)
        ensures
            l@ == (LayoutView {
                traces: Seq::<TraceView>::empty(),
                vias: Seq::<ViaView>::empty(),
                components: Seq::<PlacedComponentView>::empty(),
                outline: Some(Outline { width: Some(width), height: Some(height), unit }),
            }),
    {
        let l = Layout {
            traces: Vec::new(),
            vias: Vec::new(),
            components: Vec::new(),
            outline: Some(Outline { width: Some(width), height: Some(height), unit }),
        };
        proof {
            assert(l.traces.deep_view() =~= Seq::<TraceView>::empty());
            assert(l.vias.deep_view() =~= Seq::<ViaView>::empty());
            assert(l.components.deep_view() =~= Seq::<PlacedComponentView>::empty());
        }
        l
    }
}

} // verus!
