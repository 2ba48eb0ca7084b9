//! Schematic model produced by the importers: a sheet of placed symbols,
//! wires and net labels. Positions are nanometres, rotations millidegrees.

use vstd::prelude::*;
use vstd::string::*;
use crate::geom::Point2D;

verus! {

/// A named property attached to a symbol.
#[derive(Debug, Clone, PartialEq)]
pub struct SymbolProperty {
    pub key: String,
    pub value: String,
}

/// Mathematical value of a [`SymbolProperty`].
#[verifier::ext_equal]
pub ghost struct SymbolPropertyView {
    pub key: Seq<char>,
    pub value: Seq<char>,
}

impl View for SymbolProperty {
    type V = SymbolPropertyView;

    open spec fn view(&self) -> SymbolPropertyView {
        SymbolPropertyView { key: self.key@, value: self.value@ }
    }
}

impl DeepView for SymbolProperty {
    type V = SymbolPropertyView;

    open spec fn deep_view(&self) -> SymbolPropertyView {
        self.view()
    }
}

/// A placed schematic symbol.
#[derive(Debug, Clone, PartialEq)]
pub struct PlacedSymbol {
    /// Reference designator, e.g. `R1`.
    pub reference: String,
    /// Symbol value, e.g. `10k`.
    pub value: String,
    /// Library the symbol came from.
    pub library: String,
    /// Device set or library reference within the library.
    pub deviceset: String,
    /// Position in nanometres.
    pub position: Point2D,
    /// Rotation in millidegrees.
    pub rotation: i64,
    /// Extra named properties.
    pub properties: Vec<SymbolProperty>,
}

/// Mathematical value of a [`PlacedSymbol`].
#[verifier::ext_equal]
pub ghost struct PlacedSymbolView {
    pub reference: Seq<char>,
    pub value: Seq<char>,
    pub library: Seq<char>,
    pub deviceset: Seq<char>,
    pub position: Point2D,
    pub rotation: int,
    pub properties: Seq<SymbolPropertyView>,
}

impl View for PlacedSymbol {
    type V = PlacedSymbolView;

    open spec fn view(&self) -> PlacedSymbolView {
        PlacedSymbolView {
            reference: self.reference@,
            value: self.value@,
            library: self.library@,
            deviceset: self.deviceset@,
            position: self.position,
            rotation: self.rotation as int,
            properties: self.properties.deep_view(),
        }
    }
}

impl DeepView for PlacedSymbol {
    type V = PlacedSymbolView;

    open spec fn deep_view(&self) -> PlacedSymbolView {
        self.view()
    }
}

/// The symbol a constructor returns: at the origin, unrotated, no properties.
pub open spec fn spec_new_symbol(
    reference: Seq<char>,
    value: Seq<char>,
    library: Seq<char>,
    deviceset: Seq<char>,
) -> PlacedSymbolView {
    PlacedSymbolView {
        reference,
        value,
        library,
        deviceset,
        position: Point2D { x: 0, y: 0 },
        rotation: 0,
        properties: Seq::empty(),
    }
}

impl PlacedSymbol {
    /// A symbol at the origin with no rotation or properties.
    pub fn new(reference: &str, value: &str, library: &str, deviceset: &str) -> (s: PlacedSymbol)
        ensures
            s@ == spec_new_symbol(reference@, value@, library@, deviceset@),
    {
        let s = PlacedSymbol {
            reference: String::from_str(reference),
            value: String::from_str(value),
            library: String::from_str(library),
            deviceset: String::from_str(deviceset),
            position: Point2D { x: 0, y: 0 },
            rotation: 0,
            properties: Vec::new(),
        };
        proof {
            assert(s.properties.deep_view() =~= Seq::<SymbolPropertyView>::empty());
        }
        s
    }

    /// The same symbol moved to `(x, y)` nanometres.
    pub fn at(self, x: i64, y: i64) -> (s: PlacedSymbol)
        ensures
            s@ == (PlacedSymbolView { position: Point2D { x, y }, ..self@ }),
    {
        PlacedSymbol { position: Point2D { x, y }, ..self }
    }

    /// The same symbol rotated to the given angle in millidegrees.
    pub fn rotated(self, rotation: i64) -> (s: PlacedSymbol)
        ensures
            s@ == (PlacedSymbolView { rotation: rotation as int, ..self@ }),
    {
        PlacedSymbol { rotation, ..self }
    }
}

/// A wire segment between two points, in nanometres.
#[derive(Debug, Clone, Copy, PartialEq, Eq, Structural)]
pub struct Wire {
    pub start: Point2D,
    pub end: Point2D,
}

impl Wire {
    pub fn new(start: Point2D, end: Point2D) -> (w: Wire)
        ensures
            w == (Wire { start, end }),
    {
        Wire { start, end }
    }
}

impl DeepView for Wire {
    type V = Wire;

    open spec fn deep_view(&self) -> Wire {
        *self
    }
}

/// Kind of net label.
#[derive(Debug, Clone, Copy, PartialEq, Eq, Structural)]
pub enum LabelType {
    Net,
    Global,
    Hierarchical,
    Power,
}

/// A named label attached to a point of the sheet.
#[derive(Debug, Clone, PartialEq)]
pub struct NetLabel {
    pub name: String,
    pub position: Point2D,
    pub label_type: LabelType,
}

/// Mathematical value of a [`NetLabel`].
#[verifier::ext_equal]
pub ghost struct NetLabelView {
    pub name: Seq<char>,
    pub position: Point2D,
    pub label_type: LabelType,
}

impl View for NetLabel {
    type V = NetLabelView;

    open spec fn view(&self) -> NetLabelView {
        NetLabelView { name: self.name@, position: self.position, label_type: self.label_type }
    }
}

impl DeepView for NetLabel {
    type V = NetLabelView;

    open spec fn deep_view(&self) -> NetLabelView {
        self.view()
    }
}

impl NetLabel {
    /// An ordinary net label at the given point.
    pub fn new(name: String, position: Point2D) -> (l: NetLabel)
        ensures
            l@ == (NetLabelView { name: name@, position, label_type: LabelType::Net }),
    {
        NetLabel { name, position, label_type: LabelType::Net }
    }
}

/// One sheet of a schematic.
#[derive(Debug, Clone, PartialEq)]
pub struct SchematicSheet {
    pub name: String,
    pub symbols: Vec<PlacedSymbol>,
    pub wires: Vec<Wire>,
    pub labels: Vec<NetLabel>,
}

/// Mathematical value of a [`SchematicSheet`].
#[verifier::ext_equal]
pub ghost struct SchematicSheetView {
    pub name: Seq<char>,
    pub symbols: Seq<PlacedSymbolView>,
    pub wires: Seq<Wire>,
    pub labels: Seq<NetLabelView>,
}

impl View for SchematicSheet {
    type V = SchematicSheetView;

    open spec fn view(&self) -> SchematicSheetView {
        SchematicSheetView {
            name: self.name@,
            symbols: self.symbols.deep_view(),
            wires: self.wires.deep_view(),
            labels: self.labels.deep_view(),
        }
    }
}

impl DeepView for SchematicSheet {
    type V = SchematicSheetView;

    open spec fn deep_view(&self) -> SchematicSheetView {
        self.view()
    }
}

impl SchematicSheet {
    /// An empty sheet with the given name.
    pub fn new(name: &str) -> (s: SchematicSheet)
        ensures
            s@ == (SchematicSheetView {
                name: name@,
                symbols: Seq::<PlacedSymbolView>::empty(),
                wires: Seq::<Wire>::empty(),
                labels: Seq::<NetLabelView>::empty(),
            }),
    {
        let s = SchematicSheet {
            name: String::from_str(name),
            symbols: Vec::new(),
            wires: Vec::new(),
            labels: Vec::new(),
        };
        proof {
            assert(s.symbols.deep_view() =~= Seq::<PlacedSymbolView>::empty());
            assert(s.wires.deep_view() =~= Seq::<Wire>::empty());
            assert(s.labels.deep_view() =~= Seq::<NetLabelView>::empty());
        }
        s
    }
}

} // verus!
