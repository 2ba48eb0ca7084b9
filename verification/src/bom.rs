//! Bill of materials (BOM) generation: grouping, natural-order sorting and
//! report building over layout or schematic components.
//!
//! Grouping keeps the first-seen order of group keys (the map it replaces
//! kept no usable order; the following sort decides the final order either
//! way). Sorting is a stable insertion sort specified exactly, with string
//! keys ordered by a trusted natural-order comparison. Prices are integers in
//! millionths of the currency unit.

use vstd::prelude::*;
use vstd::string::*;
use core::cmp::Ordering;
use crate::altium::sat_i64;
use crate::fmt::{push_str_part};
use crate::layout::{Layout, PlacedComponentView};
use crate::outside::{lower_of, lowercase, natural_cmp, natural_compare};
use crate::props::{clone_string, str_eq_string};
use crate::schematic::{SchematicSheet, SchematicSheetView, PlacedSymbolView, SymbolPropertyView};

verus! {

/// BOM generation errors.
#[derive(Debug, Clone, PartialEq)]
pub enum BomError {
    /// No components found in the design
    NoComponents,
    /// I/O error during export, described as text
    IoError(String),
    /// Invalid configuration
    InvalidConfig(String),
}

/// The description an error renders to.
pub open spec fn spec_bom_error_message(e: BomError) -> Seq<char> {
    match e {
        BomError::NoComponents => "No components found in design"@,
        BomError::IoError(m) => "IO error: "@ + m@,
        BomError::InvalidConfig(m) => "Invalid configuration: "@ + m@,
    }
}

impl BomError {
    /// Human-readable description of the error.
    pub fn message(&self) -> (r: String)
        ensures
            r@ == spec_bom_error_message(*self),
    {
        let mut s = String::new();
        match self {
            BomError::NoComponents => {
                push_str_part(&mut s, "No components found in design");
            },
            BomError::IoError(m) => {
                push_str_part(&mut s, "IO error: ");
                push_str_part(&mut s, m.as_str());
            },
            BomError::InvalidConfig(m) => {
                push_str_part(&mut s, "Invalid configuration: ");
                push_str_part(&mut s, m.as_str());
            },
        }
        s
    }
}

/// BOM generation result type.
pub type BomResult<T> = Result<T, BomError>;

/// BOM output format.
#[derive(Debug, Clone, Copy, PartialEq, Eq, Structural)]
pub enum BomFormat {
    Csv,
    Html,
    Json,
}

impl Default for BomFormat {
    fn default() -> (r: BomFormat)
        ensures
            r == BomFormat::Csv,
    {
        BomFormat::Csv
    }
}

/// How to group BOM entries.
#[derive(Debug, Clone, Copy, PartialEq, Eq, Structural)]
pub enum BomGroupBy {
    /// Group by component value
    Value,
    /// Group by footprint
    Footprint,
    /// Group by value and footprint
    ValueAndFootprint,
    /// No grouping: one line per component
    Ungrouped,
}

impl Default for BomGroupBy {
    fn default() -> (r: BomGroupBy)
        ensures
            r == BomGroupBy::Value,
    {
        BomGroupBy::Value
    }
}

/// How to sort BOM entries.
#[derive(Debug, Clone, Copy, PartialEq, Eq, Structural)]
pub enum BomSortBy {
    /// By reference designator, natural order
    Reference,
    /// By value, natural order
    Value,
    /// By quantity, descending
    Quantity,
    /// By footprint, natural order
    Footprint,
}

impl Default for BomSortBy {
    fn default() -> (r: BomSortBy)
        ensures
            r == BomSortBy::Reference,
    {
        BomSortBy::Reference
    }
}

/// BOM column definition.
#[derive(Debug, Clone, Copy, PartialEq, Eq, Structural)]
pub enum BomColumn {
    Reference,
    Quantity,
    Value,
    Footprint,
    Description,
    Manufacturer,
    Mpn,
    Supplier,
    SupplierPn,
    UnitPrice,
    ExtendedPrice,
}

/// The column header name.
pub open spec fn spec_header(c: BomColumn) -> Seq<char> {
    match c {
        BomColumn::Reference => "Reference"@,
        BomColumn::Quantity => "Qty"@,
        BomColumn::Value => "Value"@,
        BomColumn::Footprint => "Footprint"@,
        BomColumn::Description => "Description"@,
        BomColumn::Manufacturer => "Manufacturer"@,
        BomColumn::Mpn => "MPN"@,
        BomColumn::Supplier => "Supplier"@,
        BomColumn::SupplierPn => "Supplier PN"@,
        BomColumn::UnitPrice => "Unit Price"@,
        BomColumn::ExtendedPrice => "Ext. Price"@,
    }
}

impl BomColumn {
    /// Get the column header name.
    pub fn header(&self) -> (r: &'static str)
        ensures
            r@ == spec_header(*self),
    {
        match self {
            BomColumn::Reference => "Reference",
            BomColumn::Quantity => "Qty",
            BomColumn::Value => "Value",
            BomColumn::Footprint => "Footprint",
            BomColumn::Description => "Description",
            BomColumn::Manufacturer => "Manufacturer",
            BomColumn::Mpn => "MPN",
            BomColumn::Supplier => "Supplier",
            BomColumn::SupplierPn => "Supplier PN",
            BomColumn::UnitPrice => "Unit Price",
            BomColumn::ExtendedPrice => "Ext. Price",
        }
    }
}

/// BOM generation configuration.
#[derive(Debug, Clone, PartialEq)]
pub struct BomConfig {
    pub format: BomFormat,
    pub group_by: BomGroupBy,
    pub sort_by: BomSortBy,
    /// Columns to include
    pub columns: Vec<BomColumn>,
    /// Project name for the header
    pub project_name: Option<String>,
    /// Include do-not-populate components
    pub include_dnp: bool,
    /// Include virtual components such as net ties
    pub include_virtual: bool,
}

impl Default for BomConfig {
    /// CSV, grouped by value and footprint, sorted by reference, the five
    /// standard columns.
    fn default() -> (r: BomConfig)
        ensures
            r.format == BomFormat::Csv,
            r.group_by == BomGroupBy::ValueAndFootprint,
            r.sort_by == BomSortBy::Reference,
            r.columns@ == seq![
                BomColumn::Reference,
                BomColumn::Quantity,
                BomColumn::Value,
                BomColumn::Footprint,
                BomColumn::Description,
            ],
            r.project_name is None,
            !r.include_dnp,
            !r.include_virtual,
    {
        let mut columns: Vec<BomColumn> = Vec::new();
        columns.push(BomColumn::Reference);
        columns.push(BomColumn::Quantity);
        columns.push(BomColumn::Value);
        columns.push(BomColumn::Footprint);
        columns.push(BomColumn::Description);
        proof {
            assert(columns@ =~= seq![
                BomColumn::Reference,
                BomColumn::Quantity,
                BomColumn::Value,
                BomColumn::Footprint,
                BomColumn::Description,
            ]);
        }
        BomConfig {
            format: BomFormat::Csv,
            group_by: BomGroupBy::ValueAndFootprint,
            sort_by: BomSortBy::Reference,
            columns,
            project_name: None,
            include_dnp: false,
            include_virtual: false,
        }
    }
}

/// A single BOM entry, possibly covering several grouped components.
#[derive(Debug, Clone, PartialEq)]
pub struct BomEntry {
    /// Reference designators covered by this entry
    pub references: Vec<String>,
    pub quantity: usize,
    pub value: String,
    pub footprint: String,
    pub description: Option<String>,
    pub manufacturer: Option<String>,
    pub mpn: Option<String>,
    pub supplier: Option<String>,
    pub supplier_pn: Option<String>,
    /// Unit price in millionths of the currency unit
    pub unit_price: Option<i64>,
}

/// Mathematical value of a [`BomEntry`].
#[verifier::ext_equal]
pub ghost struct BomEntryView {
    pub references: Seq<Seq<char>>,
    pub quantity: int,
    pub value: Seq<char>,
    pub footprint: Seq<char>,
    pub description: Option<Seq<char>>,
    pub manufacturer: Option<Seq<char>>,
    pub mpn: Option<Seq<char>>,
    pub supplier: Option<Seq<char>>,
    pub supplier_pn: Option<Seq<char>>,
    pub unit_price: Option<int>,
}

impl View for BomEntry {
    type V = BomEntryView;

    open spec fn view(&self) -> BomEntryView {
        BomEntryView {
            references: self.references.deep_view(),
            quantity: self.quantity as int,
            value: self.value@,
            footprint: self.footprint@,
            description: opt_view(&self.description),
            manufacturer: opt_view(&self.manufacturer),
            mpn: opt_view(&self.mpn),
            supplier: opt_view(&self.supplier),
            supplier_pn: opt_view(&self.supplier_pn),
            unit_price: match self.unit_price {
                Some(p) => Some(p as int),
                None => None,
            },
        }
    }
}

impl DeepView for BomEntry {
    type V = BomEntryView;

    open spec fn deep_view(&self) -> BomEntryView {
        self.view()
    }
}

/// View of an optional string.
pub open spec fn opt_view(o: &Option<String>) -> Option<Seq<char>> {
    match o {
        Some(s) => Some(s@),
        None => None,
    }
}

/// A `usize` sum saturated to its range.
pub open spec fn sat_usize(v: int) -> int {
    if v > usize::MAX {
        usize::MAX as int
    } else {
        v
    }
}

/// The entry a single component yields.
pub open spec fn spec_entry_of(
    reference: Seq<char>,
    value: Seq<char>,
    footprint: Seq<char>,
) -> BomEntryView {
    BomEntryView {
        references: seq![reference],
        quantity: 1,
        value,
        footprint,
        description: None,
        manufacturer: None,
        mpn: None,
        supplier: None,
        supplier_pn: None,
        unit_price: None,
    }
}

// ---------------------------------------------------------------------------
// Natural-order sorting
// ---------------------------------------------------------------------------

/// Stable insertion of a string into a naturally-sorted sequence: the new
/// element goes after every element not above it.
pub open spec fn spec_insert_string(s: Seq<Seq<char>>, x: Seq<char>) -> Seq<Seq<char>>
    decreases s.len(),
{
    if s.len() == 0 {
        seq![x]
    } else if natural_cmp(s.last(), x) == Ordering::Greater {
        spec_insert_string(s.drop_last(), x).push(s.last())
    } else {
        s.push(x)
    }
}

/// Stable insertion sort of the first `i` strings, by natural order.
pub open spec fn spec_sort_strings(s: Seq<Seq<char>>, i: int) -> Seq<Seq<char>>
    decreases i,
{
    if i <= 0 {
        Seq::empty()
    } else {
        spec_insert_string(spec_sort_strings(s, i - 1), s[i - 1])
    }
}

/// Insert one string into a sorted vector, stably.
fn insert_string(sorted: &mut Vec<String>, x: String)
    ensures
        final(sorted).deep_view() == spec_insert_string(old(sorted).deep_view(), x@),
{
    let ghost s = sorted.deep_view();
    let ghost xv = x@;
    let mut pos: usize = sorted.len();
    proof {
        assert(s.take(pos as int) =~= s);
        assert(s.skip(pos as int) =~= Seq::<Seq<char>>::empty());
        assert(spec_insert_string(s.take(pos as int), xv) + s.skip(pos as int)
            =~= spec_insert_string(s, xv));
    }
    while pos > 0 && matches!(natural_compare(sorted[pos - 1].as_str(), x.as_str()), Ordering::Greater)
        invariant
            s == sorted.deep_view(),
            xv == x@,
            0 <= pos <= s.len(),
            spec_insert_string(s, xv) == spec_insert_string(s.take(pos as int), xv) + s.skip(
                pos as int,
            ),
        decreases pos,
    {
        proof {
            assert(s.take(pos as int).drop_last() =~= s.take(pos as int - 1));
            assert(spec_insert_string(s.take(pos as int - 1), xv).push(s[pos as int - 1]) + s.skip(
                pos as int,
            ) =~= spec_insert_string(s.take(pos as int - 1), xv) + s.skip(pos as int - 1));
        }
        pos = pos - 1;
    }
    proof {
        if pos > 0 {
            assert(spec_insert_string(s.take(pos as int), xv) =~= s.take(pos as int).push(xv));
        } else {
            assert(s.take(0) =~= Seq::<Seq<char>>::empty());
        }
    }
    sorted.insert(pos, x);
    proof {
        assert(sorted.deep_view() =~= spec_insert_string(s.take(pos as int), xv) + s.skip(
            pos as int,
        ));
    }
}

/// Sort strings into natural order with a stable insertion sort.
pub fn sort_strings_natural(v: &mut Vec<String>)
    ensures
        final(v).deep_view() == spec_sort_strings(old(v).deep_view(), old(v)@.len() as int),
{
    let ghost s = v.deep_view();
    let mut sorted: Vec<String> = Vec::new();
    let mut k: usize = 0;
    proof {
        assert(sorted.deep_view() =~= Seq::<Seq<char>>::empty());
    }
    while k < v.len()
        invariant
            s == v.deep_view(),
            0 <= k <= v@.len(),
            sorted.deep_view() == spec_sort_strings(s, k as int),
        decreases v.len() - k,
    {
        insert_string(&mut sorted, clone_string(&v[k]));
        k = k + 1;
    }
    *v = sorted;
}

impl BomEntry {
    /// Create a new BOM entry from a single component.
    pub fn from_component(reference: String, value: String, footprint: String) -> (e: BomEntry)
        ensures
            e@ == spec_entry_of(reference@, value@, footprint@),
    {
        let mut references: Vec<String> = Vec::new();
        let ghost rv = reference@;
        references.push(reference);
        let e = BomEntry {
            references,
            quantity: 1,
            value,
            footprint,
            description: None,
            manufacturer: None,
            mpn: None,
            supplier: None,
            supplier_pn: None,
            unit_price: None,
        };
        proof {
            assert(e@.references =~= seq![rv]);
            assert(e@ =~= spec_entry_of(rv, e.value@, e.footprint@));
        }
        e
    }

    /// References joined as a comma-separated string.
    pub fn references_string(&self) -> (r: String)
        ensures
            r@ == spec_join_refs(self@.references, self@.references.len() as int),
    {
        let mut s = String::new();
        let mut i: usize = 0;
        while i < self.references.len()
            invariant
                0 <= i <= self.references@.len(),
                s@ == spec_join_refs(self@.references, i as int),
            decreases self.references.len() - i,
        {
            if i > 0 {
                push_str_part(&mut s, ", ");
            }
            push_str_part(&mut s, self.references[i].as_str());
            proof {
                assert(s@ =~= spec_join_refs(self@.references, i as int + 1));
            }
            i = i + 1;
        }
        s
    }

    /// Extended price: unit price times quantity, saturated.
    pub fn extended_price(&self) -> (r: Option<i64>)
        ensures
            match r {
                Some(p) => self@.unit_price is Some && p as int == sat_i64(
                    self@.unit_price.unwrap() * self@.quantity,
                ),
                None => self@.unit_price is None,
            },
    {
        match self.unit_price {
            Some(p) => {
                proof {
                    crate::units::lemma_mul_range(
                        p as int,
                        self.quantity as int,
                        0x8000_0000_0000_0000,
                        0xffff_ffff_ffff_ffff,
                    );
                }
                let wide: i128 = (p as i128) * (self.quantity as i128);
                if wide > i64::MAX as i128 {
                    Some(i64::MAX)
                } else if wide < i64::MIN as i128 {
                    Some(i64::MIN)
                } else {
                    Some(wide as i64)
                }
            },
            None => None,
        }
    }

    /// Merge another entry into this one: its references join ours (sorted
    /// naturally) and quantities add, saturating.
    pub fn merge(&mut self, other: &BomEntry)
        ensures
            final(self)@ == spec_merge(old(self)@, other@),
    {
        let ghost before = self@;
        let mut i: usize = 0;
        proof {
            assert(before.references + other@.references.take(0) =~= before.references);
        }
        while i < other.references.len()
            invariant
                0 <= i <= other.references@.len(),
                self@.references == before.references + other@.references.take(i as int),
                self@ == (BomEntryView { references: self@.references, ..before }),
            decreases other.references.len() - i,
        {
            let ghost pre = self@.references;
            self.references.push(clone_string(&other.references[i]));
            proof {
                assert(self@.references =~= pre.push(other@.references[i as int]));
                assert(pre.push(other@.references[i as int]) =~= before.references
                    + other@.references.take(i as int + 1));
            }
            i = i + 1;
        }
        proof {
            assert(other@.references.take(other.references@.len() as int) =~= other@.references);
        }
        if self.quantity > usize::MAX - other.quantity {
            self.quantity = usize::MAX;
        } else {
            self.quantity = self.quantity + other.quantity;
        }
        sort_strings_natural(&mut self.references);
    }
}

/// The merge of two entries: references concatenated then naturally sorted,
/// quantities added with saturation, every other field from the first.
pub open spec fn spec_merge(a: BomEntryView, b: BomEntryView) -> BomEntryView {
    let refs = a.references + b.references;
    BomEntryView {
        references: spec_sort_strings(refs, refs.len() as int),
        quantity: sat_usize(a.quantity + b.quantity),
        ..a
    }
}

/// The references joined with `, `, first `i` of them.
pub open spec fn spec_join_refs(refs: Seq<Seq<char>>, i: int) -> Seq<char>
    decreases i,
{
    if i <= 0 {
        Seq::empty()
    } else if i == 1 {
        refs[0]
    } else {
        spec_join_refs(refs, i - 1) + ", "@ + refs[i - 1]
    }
}


// ---------------------------------------------------------------------------
// Entry ordering and grouping
// ---------------------------------------------------------------------------

/// First reference of an entry, empty when it has none.
pub open spec fn spec_first_ref(e: BomEntryView) -> Seq<char> {
    if e.references.len() > 0 {
        e.references[0]
    } else {
        Seq::empty()
    }
}

/// Whether `a` must come after `b` under a sort strategy: natural order on
/// the chosen string key, or descending quantity.
pub open spec fn spec_entry_gt(a: BomEntryView, b: BomEntryView, by: BomSortBy) -> bool {
    match by {
        BomSortBy::Reference => natural_cmp(spec_first_ref(a), spec_first_ref(b))
            == Ordering::Greater,
        BomSortBy::Value => natural_cmp(a.value, b.value) == Ordering::Greater,
        BomSortBy::Quantity => a.quantity < b.quantity,
        BomSortBy::Footprint => natural_cmp(a.footprint, b.footprint) == Ordering::Greater,
    }
}

/// Stable insertion of an entry into a sorted sequence.
pub open spec fn spec_insert_entry(s: Seq<BomEntryView>, x: BomEntryView, by: BomSortBy) -> Seq<
    BomEntryView,
>
    decreases s.len(),
{
    if s.len() == 0 {
        seq![x]
    } else if spec_entry_gt(s.last(), x, by) {
        spec_insert_entry(s.drop_last(), x, by).push(s.last())
    } else {
        s.push(x)
    }
}

/// Stable insertion sort of the first `i` entries.
pub open spec fn spec_sort_entries(s: Seq<BomEntryView>, by: BomSortBy, i: int) -> Seq<
    BomEntryView,
>
    decreases i,
{
    if i <= 0 {
        Seq::empty()
    } else {
        spec_insert_entry(spec_sort_entries(s, by, i - 1), s[i - 1], by)
    }
}

/// First reference of an entry, as a slice.
fn first_ref<'a>(e: &'a BomEntry) -> (r: &'a str)
    ensures
        r@ == spec_first_ref(e@),
{
    proof {
        reveal_strlit("");
        assert(""@ =~= Seq::<char>::empty());
    }
    if e.references.len() > 0 {
        e.references[0].as_str()
    } else {
        ""
    }
}

/// Whether `a` must come after `b`, by comparison.
fn entry_gt(a: &BomEntry, b: &BomEntry, by: BomSortBy) -> (r: bool)
    ensures
        r == spec_entry_gt(a@, b@, by),
{
    match by {
        BomSortBy::Reference => matches!(
            natural_compare(first_ref(a), first_ref(b)),
            Ordering::Greater
        ),
        BomSortBy::Value => matches!(
            natural_compare(a.value.as_str(), b.value.as_str()),
            Ordering::Greater
        ),
        BomSortBy::Quantity => a.quantity < b.quantity,
        BomSortBy::Footprint => matches!(
            natural_compare(a.footprint.as_str(), b.footprint.as_str()),
            Ordering::Greater
        ),
    }
}

/// Insert one entry into a sorted vector, stably.
fn insert_entry(sorted: &mut Vec<BomEntry>, x: BomEntry, by: BomSortBy)
    ensures
        final(sorted).deep_view() == spec_insert_entry(old(sorted).deep_view(), x@, by),
{
    let ghost s = sorted.deep_view();
    let ghost xv = x@;
    let mut pos: usize = sorted.len();
    proof {
        assert(s.take(pos as int) =~= s);
        assert(s.skip(pos as int) =~= Seq::<BomEntryView>::empty());
        assert(spec_insert_entry(s.take(pos as int), xv, by) + s.skip(pos as int)
            =~= spec_insert_entry(s, xv, by));
    }
    while pos > 0 && entry_gt(&sorted[pos - 1], &x, by)
        invariant
            s == sorted.deep_view(),
            xv == x@,
            0 <= pos <= s.len(),
            spec_insert_entry(s, xv, by) == spec_insert_entry(s.take(pos as int), xv, by)
                + s.skip(pos as int),
        decreases pos,
    {
        proof {
            assert(s.take(pos as int).drop_last() =~= s.take(pos as int - 1));
            assert(spec_insert_entry(s.take(pos as int - 1), xv, by).push(s[pos as int - 1])
                + s.skip(pos as int) =~= spec_insert_entry(s.take(pos as int - 1), xv, by)
                + s.skip(pos as int - 1));
        }
        pos = pos - 1;
    }
    proof {
        if pos > 0 {
            assert(spec_insert_entry(s.take(pos as int), xv, by) =~= s.take(pos as int).push(xv));
        } else {
            assert(s.take(0) =~= Seq::<BomEntryView>::empty());
        }
    }
    sorted.insert(pos, x);
    proof {
        assert(sorted.deep_view() =~= spec_insert_entry(s.take(pos as int), xv, by) + s.skip(
            pos as int,
        ));
    }
}

/// The grouping key of an entry; meaningful for the three grouping
/// strategies.
pub open spec fn spec_group_key(e: BomEntryView, by: BomGroupBy) -> Seq<char> {
    match by {
        BomGroupBy::Value => e.value,
        BomGroupBy::Footprint => e.footprint,
        BomGroupBy::ValueAndFootprint => e.value + "|"@ + e.footprint,
        BomGroupBy::Ungrouped => Seq::empty(),
    }
}

/// First index at or after `i` of a group with the given key.
pub open spec fn spec_find_group(
    gs: Seq<BomEntryView>,
    key: Seq<char>,
    by: BomGroupBy,
    i: int,
) -> Option<int>
    decreases gs.len() - i,
{
    if i < 0 || i >= gs.len() {
        None
    } else if spec_group_key(gs[i], by) == key {
        Some(i)
    } else {
        spec_find_group(gs, key, by, i + 1)
    }
}

/// One entry folded into the groups: merged into the first group with its
/// key, or appended as a new group.
pub open spec fn spec_group_step(
    gs: Seq<BomEntryView>,
    e: BomEntryView,
    by: BomGroupBy,
) -> Seq<BomEntryView> {
    match spec_find_group(gs, spec_group_key(e, by), by, 0) {
        Some(idx) => gs.update(idx, spec_merge(gs[idx], e)),
        None => gs.push(e),
    }
}

/// The first `i` entries grouped, in first-seen key order.
pub open spec fn spec_group_entries(s: Seq<BomEntryView>, by: BomGroupBy, i: int) -> Seq<
    BomEntryView,
>
    decreases i,
{
    if i <= 0 {
        Seq::empty()
    } else {
        spec_group_step(spec_group_entries(s, by, i - 1), s[i - 1], by)
    }
}

/// The grouping key of an entry, as a string.
fn group_key(e: &BomEntry, by: BomGroupBy) -> (r: String)
    requires
        !(by is Ungrouped),
    ensures
        r@ == spec_group_key(e@, by),
{
    match by {
        BomGroupBy::Value => clone_string(&e.value),
        BomGroupBy::Footprint => clone_string(&e.footprint),
        BomGroupBy::ValueAndFootprint => {
            let mut s = String::new();
            push_str_part(&mut s, e.value.as_str());
            push_str_part(&mut s, "|");
            push_str_part(&mut s, e.footprint.as_str());
            proof {
                assert(s@ =~= e@.value + "|"@ + e@.footprint);
            }
            s
        },
        BomGroupBy::Ungrouped => String::new(),
    }
}

/// One entry folded into the groups, by scanning for its key.
fn group_step(groups: &mut Vec<BomEntry>, e: BomEntry, by: BomGroupBy)
    requires
        !(by is Ungrouped),
    ensures
        final(groups).deep_view() == spec_group_step(old(groups).deep_view(), e@, by),
{
    let ghost gs = groups.deep_view();
    let ghost ev = e@;
    let key = group_key(&e, by);
    let mut idx: usize = 0;
    while idx < groups.len()
        invariant
            !(by is Ungrouped),
            gs == groups.deep_view(),
            gs == old(groups).deep_view(),
            key@ == spec_group_key(ev, by),
            ev == e@,
            0 <= idx <= gs.len(),
            spec_find_group(gs, key@, by, 0) == spec_find_group(gs, key@, by, idx as int),
        decreases groups.len() - idx,
    {
        let candidate = group_key(&groups[idx], by);
        if str_eq_string(candidate.as_str(), &key) {
            let ghost graw = groups@;
            let mut existing = groups.remove(idx);
            proof {
                assert(existing@ == gs[idx as int]);
                assert(groups@ =~= graw.remove(idx as int));
            }
            existing.merge(&e);
            let ghost merged = existing@;
            groups.insert(idx, existing);
            proof {
                assert(merged == spec_merge(gs[idx as int], ev));
                assert(groups@ =~= graw.remove(idx as int).insert(idx as int, existing));
                assert(groups.deep_view() =~= gs.update(idx as int, merged));
                assert(spec_find_group(gs, key@, by, idx as int) == Some(idx as int));
            }
            return ;
        }
        idx = idx + 1;
    }
    let ghost prev = groups.deep_view();
    groups.push(e);
    proof {
        assert(groups.deep_view() =~= prev.push(ev));
    }
}

// ---------------------------------------------------------------------------
// Reports
// ---------------------------------------------------------------------------

/// Generated BOM report.
#[derive(Debug, Clone, PartialEq)]
pub struct BomReport {
    pub project_name: String,
    pub entries: Vec<BomEntry>,
    /// Total unique parts (grouped entries)
    pub unique_parts: usize,
    /// Total component count
    pub total_components: usize,
    /// Total estimated cost in millionths of the currency unit, when any
    /// entry has a price
    pub total_cost: Option<i64>,
}

/// Mathematical value of a [`BomReport`].
#[verifier::ext_equal]
pub ghost struct BomReportView {
    pub project_name: Seq<char>,
    pub entries: Seq<BomEntryView>,
    pub unique_parts: int,
    pub total_components: int,
    pub total_cost: Option<int>,
}

impl View for BomReport {
    type V = BomReportView;

    open spec fn view(&self) -> BomReportView {
        BomReportView {
            project_name: self.project_name@,
            entries: self.entries.deep_view(),
            unique_parts: self.unique_parts as int,
            total_components: self.total_components as int,
            total_cost: match self.total_cost {
                Some(c) => Some(c as int),
                None => None,
            },
        }
    }
}

/// Sum of the first `i` quantities, saturating.
pub open spec fn spec_total_quantity(es: Seq<BomEntryView>, i: int) -> int
    decreases i,
{
    if i <= 0 {
        0
    } else {
        sat_usize(spec_total_quantity(es, i - 1) + es[i - 1].quantity)
    }
}

/// Saturating total of the first `i` extended prices, and whether any entry
/// had a price at all.
pub open spec fn spec_total_cost(es: Seq<BomEntryView>, i: int) -> (int, bool)
    decreases i,
{
    if i <= 0 {
        (0, false)
    } else {
        let prev = spec_total_cost(es, i - 1);
        match es[i - 1].unit_price {
            Some(p) => (sat_i64(prev.0 + sat_i64(p * es[i - 1].quantity)), true),
            None => prev,
        }
    }
}

/// The initial ungrouped entries of layout components, in order.
pub open spec fn spec_initial_entries(cs: Seq<PlacedComponentView>, i: int) -> Seq<BomEntryView>
    decreases i,
{
    if i <= 0 {
        Seq::empty()
    } else {
        spec_initial_entries(cs, i - 1).push(
            spec_entry_of(cs[i - 1].reference, cs[i - 1].value, cs[i - 1].footprint),
        )
    }
}

/// The entries after optional grouping.
pub open spec fn spec_grouped(entries: Seq<BomEntryView>, by: BomGroupBy) -> Seq<BomEntryView> {
    if by is Ungrouped {
        entries
    } else {
        spec_group_entries(entries, by, entries.len() as int)
    }
}

/// The report built from already-initial entries: grouped, sorted, totalled.
pub open spec fn spec_report_of(
    initial: Seq<BomEntryView>,
    group_by: BomGroupBy,
    sort_by: BomSortBy,
    project_name: Seq<char>,
) -> BomReportView {
    let grouped = spec_grouped(initial, group_by);
    let entries = spec_sort_entries(grouped, sort_by, grouped.len() as int);
    BomReportView {
        project_name,
        entries,
        unique_parts: entries.len() as int,
        total_components: spec_total_quantity(entries, entries.len() as int),
        total_cost: if spec_total_cost(entries, entries.len() as int).1 {
            Some(spec_total_cost(entries, entries.len() as int).0)
        } else {
            None
        },
    }
}

/// The configured project name, `Untitled` when absent.
pub open spec fn spec_project_name(name: Option<Seq<char>>) -> Seq<char> {
    match name {
        Some(n) => n,
        None => "Untitled"@,
    }
}

/// The footprint property of a symbol: the value of its first property whose
/// key lower-cases to `footprint`.
pub open spec fn spec_symbol_footprint(ps: Seq<SymbolPropertyView>, i: int) -> Seq<char>
    decreases ps.len() - i,
{
    if i < 0 || i >= ps.len() {
        Seq::empty()
    } else if lower_of(ps[i].key) == "footprint"@ {
        ps[i].value
    } else {
        spec_symbol_footprint(ps, i + 1)
    }
}

/// The initial entries of schematic symbols, in order.
pub open spec fn spec_symbol_entries(ss: Seq<PlacedSymbolView>, i: int) -> Seq<BomEntryView>
    decreases i,
{
    if i <= 0 {
        Seq::empty()
    } else {
        spec_symbol_entries(ss, i - 1).push(
            spec_entry_of(
                ss[i - 1].reference,
                ss[i - 1].value,
                spec_symbol_footprint(ss[i - 1].properties, 0),
            ),
        )
    }
}

/// All symbols of a sheet sequence, concatenated in order.
pub open spec fn spec_all_symbols(sheets: Seq<SchematicSheetView>, i: int) -> Seq<
    PlacedSymbolView,
>
    decreases i,
{
    if i <= 0 {
        Seq::empty()
    } else {
        spec_all_symbols(sheets, i - 1) + sheets[i - 1].symbols
    }
}

impl BomReport {
    /// Generate a BOM report from layout components. Fails exactly when the
    /// layout has no components.
    pub fn from_layout(layout: &Layout, config: &BomConfig) -> (r: BomResult<BomReport>)
        ensures
            match r {
                Ok(report) => layout@.components.len() > 0 && report@ == spec_report_of(
                    spec_initial_entries(layout@.components, layout@.components.len() as int),
                    config.group_by,
                    config.sort_by,
                    spec_project_name(opt_view(&config.project_name)),
                ),
                Err(e) => layout@.components.len() == 0 && e == BomError::NoComponents,
            },
    {
        if layout.components.len() == 0 {
            return Err(BomError::NoComponents);
        }
        let ghost cs = layout@.components;
        let mut entries: Vec<BomEntry> = Vec::new();
        let mut i: usize = 0;
        proof {
            assert(entries.deep_view() =~= Seq::<BomEntryView>::empty());
        }
        while i < layout.components.len()
            invariant
                cs == layout@.components,
                cs.len() == layout.components@.len(),
                0 <= i <= layout.components@.len(),
                entries.deep_view() == spec_initial_entries(cs, i as int),
            decreases layout.components.len() - i,
        {
            let c = &layout.components[i];
            let ghost prev = entries.deep_view();
            entries.push(
                BomEntry::from_component(
                    clone_string(&c.reference),
                    clone_string(&c.value),
                    clone_string(&c.footprint),
                ),
            );
            proof {
                assert(entries.deep_view() =~= prev.push(
                    spec_entry_of(cs[i as int].reference, cs[i as int].value, cs[i as int].footprint),
                ));
            }
            i = i + 1;
        }
        Ok(Self::assemble(entries, config))
    }

    /// Generate a BOM report from schematic symbols. Fails exactly when the
    /// sheets hold no symbols.
    pub fn from_schematic(sheets: &[SchematicSheet], config: &BomConfig) -> (r: BomResult<
        BomReport,
    >)
        ensures
            match r {
                Ok(report) => {
                    let all = spec_all_symbols(sheets.deep_view(), sheets.deep_view().len() as int);
                    &&& all.len() > 0
                    &&& report@ == spec_report_of(
                        spec_symbol_entries(all, all.len() as int),
                        config.group_by,
                        config.sort_by,
                        spec_project_name(opt_view(&config.project_name)),
                    )
                },
                Err(e) => spec_all_symbols(
                    sheets.deep_view(),
                    sheets.deep_view().len() as int,
                ).len() == 0 && e == BomError::NoComponents,
            },
    {
        let ghost sv = sheets.deep_view();
        let mut entries: Vec<BomEntry> = Vec::new();
        let ghost all = spec_all_symbols(sv, sv.len() as int);
        let mut i: usize = 0;
        proof {
            assert(entries.deep_view() =~= Seq::<BomEntryView>::empty());
        }
        while i < sheets.len()
            invariant
                sv == sheets.deep_view(),
                0 <= i <= sv.len(),
                entries.deep_view() == spec_symbol_entries(
                    spec_all_symbols(sv, i as int),
                    spec_all_symbols(sv, i as int).len() as int,
                ),
            decreases sheets.len() - i,
        {
            let sheet = &sheets[i];
            let ghost sofar = spec_all_symbols(sv, i as int);
            let mut j: usize = 0;
            while j < sheet.symbols.len()
                invariant
                    sv == sheets.deep_view(),
                    0 <= i < sv.len(),
                    sheet == &sheets[i as int],
                    sofar == spec_all_symbols(sv, i as int),
                    0 <= j <= sheet.symbols@.len(),
                    entries.deep_view() == spec_symbol_entries(
                        sofar + sheet@.symbols.take(j as int),
                        (sofar.len() + j) as int,
                    ),
                decreases sheet.symbols.len() - j,
            {
                let sym = &sheet.symbols[j];
                let footprint = symbol_footprint(sym);
                let ghost prevseq = sofar + sheet@.symbols.take(j as int);
                let ghost prev = entries.deep_view();
                entries.push(
                    BomEntry::from_component(
                        clone_string(&sym.reference),
                        clone_string(&sym.value),
                        footprint,
                    ),
                );
                proof {
                    let ghost nextseq = sofar + sheet@.symbols.take(j as int + 1);
                    assert(nextseq =~= prevseq.push(sheet@.symbols[j as int]));
                    assert(forall|k: int|
                        0 <= k < prevseq.len() ==> #[trigger] nextseq[k] == prevseq[k]);
                    lemma_symbol_entries_prefix(prevseq, nextseq);
                    assert(entries.deep_view() =~= spec_symbol_entries(
                        nextseq,
                        nextseq.len() as int,
                    ));
                }
                j = j + 1;
            }
            proof {
                assert(spec_all_symbols(sv, i as int + 1) =~= sofar + sheet@.symbols.take(
                    sheet.symbols@.len() as int,
                )) by {
                    assert(sheet@.symbols.take(sheet.symbols@.len() as int) =~= sheet@.symbols);
                }
            }
            i = i + 1;
        }
        proof {
            lemma_symbol_entries_len(all, all.len() as int);
        }
        if entries.len() == 0 {
            return Err(BomError::NoComponents);
        }
        Ok(Self::assemble(entries, config))
    }

    /// Group, sort and total already-built initial entries.
    fn assemble(entries: Vec<BomEntry>, config: &BomConfig) -> (report: BomReport)
        ensures
            report@ == spec_report_of(
                entries.deep_view(),
                config.group_by,
                config.sort_by,
                spec_project_name(opt_view(&config.project_name)),
            ),
    {
        let ghost initial = entries.deep_view();
        let project_name = match config.project_name {
            Some(ref n) => clone_string(n),
            None => String::from_str("Untitled"),
        };
        let mut working = entries;
        if !matches!(config.group_by, BomGroupBy::Ungrouped) {
            let mut groups: Vec<BomEntry> = Vec::new();
            let ghost mut k: int = 0;
            proof {
                assert(groups.deep_view() =~= Seq::<BomEntryView>::empty());
                assert(working.deep_view() =~= initial.skip(0));
            }
            while working.len() > 0
                invariant
                    !(config.group_by is Ungrouped),
                    0 <= k <= initial.len(),
                    working.deep_view() == initial.skip(k),
                    groups.deep_view() == spec_group_entries(initial, config.group_by, k),
                decreases working.len(),
            {
                let ghost pre = working.deep_view();
                let ghost preraw = working@;
                let e = working.remove(0);
                proof {
                    assert(pre.len() == initial.len() - k);
                    assert(e@ == pre[0]);
                    assert(pre[0] == initial[k]);
                    assert(working@ =~= preraw.skip(1));
                    assert forall|j: int| 0 <= j < working.deep_view().len() implies
                        working.deep_view()[j] == initial.skip(k + 1)[j] by {
                        assert(working.deep_view()[j] == working@[j].deep_view());
                        assert(working@[j] == preraw[j + 1]);
                        assert(pre[j + 1] == preraw[j + 1].deep_view());
                        assert(pre[j + 1] == initial.skip(k)[j + 1]);
                    }
                    assert(working.deep_view() =~= initial.skip(k + 1));
                }
                group_step(&mut groups, e, config.group_by);
                proof {
                    k = k + 1;
                }
            }
            proof {
                assert(spec_group_entries(initial, config.group_by, k) == spec_group_entries(
                    initial,
                    config.group_by,
                    initial.len() as int,
                ));
            }
            working = groups;
        }
        let ghost grouped = spec_grouped(initial, config.group_by);
        let mut sorted: Vec<BomEntry> = Vec::new();
        let ghost mut k: int = 0;
        proof {
            assert(working.deep_view() == grouped);
            assert(sorted.deep_view() =~= Seq::<BomEntryView>::empty());
            assert(working.deep_view() =~= grouped.skip(0));
        }
        while working.len() > 0
            invariant
                0 <= k <= grouped.len(),
                working.deep_view() == grouped.skip(k),
                sorted.deep_view() == spec_sort_entries(grouped, config.sort_by, k),
            decreases working.len(),
        {
            let ghost pre = working.deep_view();
            let ghost preraw = working@;
            let e = working.remove(0);
            proof {
                assert(pre.len() == grouped.len() - k);
                assert(e@ == pre[0]);
                assert(pre[0] == grouped[k]);
                assert(working@ =~= preraw.skip(1));
                assert forall|j: int| 0 <= j < working.deep_view().len() implies
                    working.deep_view()[j] == grouped.skip(k + 1)[j] by {
                    assert(working.deep_view()[j] == working@[j].deep_view());
                    assert(working@[j] == preraw[j + 1]);
                    assert(pre[j + 1] == preraw[j + 1].deep_view());
                    assert(pre[j + 1] == grouped.skip(k)[j + 1]);
                }
                assert(working.deep_view() =~= grouped.skip(k + 1));
            }
            insert_entry(&mut sorted, e, config.sort_by);
            proof {
                k = k + 1;
            }
        }
        proof {
            assert(spec_sort_entries(grouped, config.sort_by, k) == spec_sort_entries(
                grouped,
                config.sort_by,
                grouped.len() as int,
            ));
        }
        let ghost es = sorted.deep_view();
        let unique_parts = sorted.len();
        let mut total_components: usize = 0;
        let mut total_cost: i64 = 0;
        let mut has_any_price = false;
        let mut k: usize = 0;
        while k < sorted.len()
            invariant
                es == sorted.deep_view(),
                0 <= k <= sorted@.len(),
                total_components as int == spec_total_quantity(es, k as int),
                (total_cost as int, has_any_price) == spec_total_cost(es, k as int),
            decreases sorted.len() - k,
        {
            let q = sorted[k].quantity;
            if total_components > usize::MAX - q {
                total_components = usize::MAX;
            } else {
                total_components = total_components + q;
            }
            match sorted[k].extended_price() {
                Some(p) => {
                    if total_cost > 0 && p > i64::MAX - total_cost {
                        total_cost = i64::MAX;
                    } else if total_cost < 0 && p < i64::MIN - total_cost {
                        total_cost = i64::MIN;
                    } else {
                        total_cost = total_cost + p;
                    }
                    has_any_price = true;
                },
                None => {},
            }
            k = k + 1;
        }
        BomReport {
            project_name,
            entries: sorted,
            unique_parts,
            total_components,
            total_cost: if has_any_price {
                Some(total_cost)
            } else {
                None
            },
        }
    }
}

/// One entry per covered symbol.
proof fn lemma_symbol_entries_len(s: Seq<PlacedSymbolView>, i: int)
    requires
        0 <= i,
    ensures
        spec_symbol_entries(s, i).len() == i,
    decreases i,
{
    if i > 0 {
        lemma_symbol_entries_len(s, i - 1);
    }
}

/// `spec_symbol_entries` only reads the elements it covers, so extending the
/// symbol list by one extends the entry list by one.
proof fn lemma_symbol_entries_prefix(a: Seq<PlacedSymbolView>, b: Seq<PlacedSymbolView>)
    requires
        b.len() == a.len() + 1,
        forall|k: int| 0 <= k < a.len() ==> #[trigger] b[k] == a[k],
    ensures
        spec_symbol_entries(b, b.len() as int) == spec_symbol_entries(a, a.len() as int).push(
            spec_entry_of(
                b[a.len() as int].reference,
                b[a.len() as int].value,
                spec_symbol_footprint(b[a.len() as int].properties, 0),
            ),
        ),
{
    lemma_symbol_entries_agree(a, b, a.len() as int);
}

proof fn lemma_symbol_entries_agree(a: Seq<PlacedSymbolView>, b: Seq<PlacedSymbolView>, i: int)
    requires
        b.len() == a.len() + 1,
        forall|k: int| 0 <= k < a.len() ==> #[trigger] b[k] == a[k],
        0 <= i <= a.len(),
    ensures
        spec_symbol_entries(b, i) == spec_symbol_entries(a, i),
    decreases i,
{
    if i > 0 {
        lemma_symbol_entries_agree(a, b, i - 1);
    }
}

/// The footprint property of a symbol, as text.
fn symbol_footprint(sym: &crate::schematic::PlacedSymbol) -> (r: String)
    ensures
        r@ == spec_symbol_footprint(sym@.properties, 0),
{
    let ghost ps = sym@.properties;
    let mut i: usize = 0;
    while i < sym.properties.len()
        invariant
            ps == sym@.properties,
            0 <= i <= ps.len(),
            spec_symbol_footprint(ps, 0) == spec_symbol_footprint(ps, i as int),
        decreases sym.properties.len() - i,
    {
        let key_lower = lowercase(sym.properties[i].key.as_str());
        if str_eq_string("footprint", &key_lower) {
            return clone_string(&sym.properties[i].value);
        }
        i = i + 1;
    }
    String::new()
}



// ---------------------------------------------------------------------------
// Exports
// ---------------------------------------------------------------------------

/// One CSV cell of an entry.
pub open spec fn spec_csv_cell(e: BomEntryView, c: BomColumn) -> Seq<char> {
    match c {
        BomColumn::Reference => seq!['"'] + spec_join_refs(e.references, e.references.len() as int)
            + seq!['"'],
        BomColumn::Quantity => crate::fmt::spec_i64_string(e.quantity),
        BomColumn::Value => seq!['"'] + e.value + seq!['"'],
        BomColumn::Footprint => seq!['"'] + e.footprint + seq!['"'],
        BomColumn::Description => seq!['"'] + or_empty(e.description) + seq!['"'],
        BomColumn::Manufacturer => seq!['"'] + or_empty(e.manufacturer) + seq!['"'],
        BomColumn::Mpn => seq!['"'] + or_empty(e.mpn) + seq!['"'],
        BomColumn::Supplier => seq!['"'] + or_empty(e.supplier) + seq!['"'],
        BomColumn::SupplierPn => seq!['"'] + or_empty(e.supplier_pn) + seq!['"'],
        BomColumn::UnitPrice => match e.unit_price {
            Some(p) => crate::fmt::spec_fixed_string(p, 6),
            None => Seq::empty(),
        },
        BomColumn::ExtendedPrice => match e.unit_price {
            Some(p) => crate::fmt::spec_fixed_string(sat_i64(p * e.quantity), 6),
            None => Seq::empty(),
        },
    }
}

/// An optional text or nothing.
pub open spec fn or_empty(o: Option<Seq<char>>) -> Seq<char> {
    match o {
        Some(s) => s,
        None => Seq::empty(),
    }
}

/// The first `i` column headers joined with commas.
pub open spec fn spec_csv_headers(cols: Seq<BomColumn>, i: int) -> Seq<char>
    decreases i,
{
    if i <= 0 {
        Seq::empty()
    } else if i == 1 {
        spec_header(cols[0])
    } else {
        spec_csv_headers(cols, i - 1) + seq![','] + spec_header(cols[i - 1])
    }
}

/// The first `i` cells of one entry's CSV row joined with commas.
pub open spec fn spec_csv_row(e: BomEntryView, cols: Seq<BomColumn>, i: int) -> Seq<char>
    decreases i,
{
    if i <= 0 {
        Seq::empty()
    } else if i == 1 {
        spec_csv_cell(e, cols[0])
    } else {
        spec_csv_row(e, cols, i - 1) + seq![','] + spec_csv_cell(e, cols[i - 1])
    }
}

/// The first `i` entries' CSV rows, each followed by a newline.
pub open spec fn spec_csv_rows(es: Seq<BomEntryView>, cols: Seq<BomColumn>, i: int) -> Seq<char>
    decreases i,
{
    if i <= 0 {
        Seq::empty()
    } else {
        spec_csv_rows(es, cols, i - 1) + spec_csv_row(es[i - 1], cols, cols.len() as int)
            + seq!['\n']
    }
}

/// The whole CSV document of a report.
pub open spec fn spec_to_csv(r: BomReportView, cols: Seq<BomColumn>) -> Seq<char> {
    "# BOM: "@ + r.project_name + "\n# Unique Parts: "@ + crate::fmt::spec_i64_string(
        r.unique_parts,
    ) + ", Total Components: "@ + crate::fmt::spec_i64_string(r.total_components) + seq!['\n']
        + (match r.total_cost {
        Some(c) => "# Estimated Cost: $"@ + crate::fmt::spec_fixed_string(c, 6) + seq!['\n'],
        None => Seq::empty(),
    }) + seq!['\n'] + spec_csv_headers(cols, cols.len() as int) + seq!['\n'] + spec_csv_rows(
        r.entries,
        cols,
        r.entries.len() as int,
    )
}

/// Append one CSV cell.
fn push_csv_cell(s: &mut String, e: &BomEntry, c: BomColumn)
    ensures
        final(s)@ == old(s)@ + spec_csv_cell(e@, c),
{
    match c {
        BomColumn::Reference => {
            crate::fmt::push_char(s, '"');
            let refs = e.references_string();
            push_str_part(s, refs.as_str());
            crate::fmt::push_char(s, '"');
        },
        BomColumn::Quantity => {
            crate::fmt::push_usize(s, e.quantity);
        },
        BomColumn::Value => {
            crate::fmt::push_char(s, '"');
            push_str_part(s, e.value.as_str());
            crate::fmt::push_char(s, '"');
        },
        BomColumn::Footprint => {
            crate::fmt::push_char(s, '"');
            push_str_part(s, e.footprint.as_str());
            crate::fmt::push_char(s, '"');
        },
        BomColumn::Description => push_quoted_opt(s, &e.description),
        BomColumn::Manufacturer => push_quoted_opt(s, &e.manufacturer),
        BomColumn::Mpn => push_quoted_opt(s, &e.mpn),
        BomColumn::Supplier => push_quoted_opt(s, &e.supplier),
        BomColumn::SupplierPn => push_quoted_opt(s, &e.supplier_pn),
        BomColumn::UnitPrice => {
            match e.unit_price {
                Some(p) => crate::fmt::push_fixed(s, p, 6),
                None => {},
            }
        },
        BomColumn::ExtendedPrice => {
            match e.extended_price() {
                Some(p) => crate::fmt::push_fixed(s, p, 6),
                None => {},
            }
        },
    }
    proof {
        assert(s@ =~= old(s)@ + spec_csv_cell(e@, c));
    }
}

fn push_quoted_opt(s: &mut String, o: &Option<String>)
    ensures
        final(s)@ == old(s)@ + seq!['"'] + or_empty(opt_view(o)) + seq!['"'],
{
    crate::fmt::push_char(s, '"');
    match o {
        Some(t) => push_str_part(s, t.as_str()),
        None => {},
    }
    crate::fmt::push_char(s, '"');
    proof {
        assert(s@ =~= old(s)@ + seq!['"'] + or_empty(opt_view(o)) + seq!['"']);
    }
}

impl BomReport {
    /// Export to CSV: a comment header, the column headers, then one row per
    /// entry.
    pub fn to_csv(&self, config: &BomConfig) -> (r: String)
        ensures
            r@ == spec_to_csv(self@, config.columns@),
    {
        let ghost cols = config.columns@;
        let mut out = String::new();
        push_str_part(&mut out, "# BOM: ");
        push_str_part(&mut out, self.project_name.as_str());
        push_str_part(&mut out, "\n# Unique Parts: ");
        crate::fmt::push_usize(&mut out, self.unique_parts);
        push_str_part(&mut out, ", Total Components: ");
        crate::fmt::push_usize(&mut out, self.total_components);
        crate::fmt::push_char(&mut out, '\n');
        match self.total_cost {
            Some(c) => {
                push_str_part(&mut out, "# Estimated Cost: $");
                crate::fmt::push_fixed(&mut out, c, 6);
                crate::fmt::push_char(&mut out, '\n');
            },
            None => {},
        }
        crate::fmt::push_char(&mut out, '\n');
        let ghost after_head = out@;
        let mut i: usize = 0;
        while i < config.columns.len()
            invariant
                cols == config.columns@,
                after_head == out@.take(after_head.len() as int) && out@.len()
                    >= after_head.len(),
                0 <= i <= cols.len(),
                out@ == after_head + spec_csv_headers(cols, i as int),
            decreases config.columns.len() - i,
        {
            if i > 0 {
                crate::fmt::push_char(&mut out, ',');
            }
            push_str_part(&mut out, config.columns[i].header());
            proof {
                assert(out@ =~= after_head + spec_csv_headers(cols, i as int + 1));
            }
            i = i + 1;
        }
        crate::fmt::push_char(&mut out, '\n');
        let ghost after_headers = out@;
        let ghost es = self.entries.deep_view();
        let mut k: usize = 0;
        while k < self.entries.len()
            invariant
                cols == config.columns@,
                es == self.entries.deep_view(),
                0 <= k <= es.len(),
                out@ == after_headers + spec_csv_rows(es, cols, k as int),
            decreases self.entries.len() - k,
        {
            let entry = &self.entries[k];
            let ghost row_start = out@;
            let mut i: usize = 0;
            while i < config.columns.len()
                invariant
                    cols == config.columns@,
                    es == self.entries.deep_view(),
                    0 <= k < es.len(),
                    entry == &self.entries[k as int],
                    0 <= i <= cols.len(),
                    out@ == row_start + spec_csv_row(es[k as int], cols, i as int),
                decreases config.columns.len() - i,
            {
                if i > 0 {
                    crate::fmt::push_char(&mut out, ',');
                }
                push_csv_cell(&mut out, entry, config.columns[i]);
                proof {
                    assert(out@ =~= row_start + spec_csv_row(es[k as int], cols, i as int + 1));
                }
                i = i + 1;
            }
            crate::fmt::push_char(&mut out, '\n');
            proof {
                assert(out@ =~= after_headers + spec_csv_rows(es, cols, k as int + 1));
            }
            k = k + 1;
        }
        proof {
            assert(out@ =~= spec_to_csv(self@, cols));
        }
        out
    }
}



/// The fixed style block of the HTML export.
pub open spec fn spec_html_style() -> Seq<char> {
    "<style>\nbody { font-family: -apple-system, BlinkMacSystemFont, 'Segoe UI', Roboto, sans-serif; margin: 20px; }\nh1 { color: #333; }\n.summary { background: #f5f5f5; padding: 10px; border-radius: 4px; margin-bottom: 20px; }\ntable { border-collapse: collapse; width: 100%; }\nth, td { border: 1px solid #ddd; padding: 8px; text-align: left; }\nth { background: #4a90d9; color: white; }\ntr:nth-child(even) { background: #f9f9f9; }\ntr:hover { background: #e8f4ff; }\n.qty { text-align: center; }\n.price { text-align: right; }\n</style>\n"@
}

/// The CSS class and text of one HTML cell.
pub open spec fn spec_html_cell(e: BomEntryView, c: BomColumn) -> (Seq<char>, Seq<char>) {
    match c {
        BomColumn::Reference => (Seq::empty(), spec_join_refs(e.references, e.references.len() as int)),
        BomColumn::Quantity => ("qty"@, crate::fmt::spec_i64_string(e.quantity)),
        BomColumn::Value => (Seq::empty(), e.value),
        BomColumn::Footprint => (Seq::empty(), e.footprint),
        BomColumn::Description => (Seq::empty(), or_empty(e.description)),
        BomColumn::Manufacturer => (Seq::empty(), or_empty(e.manufacturer)),
        BomColumn::Mpn => (Seq::empty(), or_empty(e.mpn)),
        BomColumn::Supplier => (Seq::empty(), or_empty(e.supplier)),
        BomColumn::SupplierPn => (Seq::empty(), or_empty(e.supplier_pn)),
        BomColumn::UnitPrice => ("price"@, match e.unit_price {
            Some(p) => seq!['$'] + crate::fmt::spec_fixed_string(p, 6),
            None => Seq::empty(),
        }),
        BomColumn::ExtendedPrice => ("price"@, match e.unit_price {
            Some(p) => seq!['$'] + crate::fmt::spec_fixed_string(sat_i64(p * e.quantity), 6),
            None => Seq::empty(),
        }),
    }
}

/// One rendered `td`: with a class attribute when the cell has a class.
pub open spec fn spec_html_td(e: BomEntryView, c: BomColumn) -> Seq<char> {
    let cell = spec_html_cell(e, c);
    if cell.0.len() == 0 {
        "<td>"@ + cell.1 + "</td>\n"@
    } else {
        "<td class=\""@ + cell.0 + "\">"@ + cell.1 + "</td>\n"@
    }
}

/// The first `i` header cells.
pub open spec fn spec_html_headers(cols: Seq<BomColumn>, i: int) -> Seq<char>
    decreases i,
{
    if i <= 0 {
        Seq::empty()
    } else {
        spec_html_headers(cols, i - 1) + "<th>"@ + spec_header(cols[i - 1]) + "</th>\n"@
    }
}

/// The first `i` cells of one row.
pub open spec fn spec_html_row(e: BomEntryView, cols: Seq<BomColumn>, i: int) -> Seq<char>
    decreases i,
{
    if i <= 0 {
        Seq::empty()
    } else {
        spec_html_row(e, cols, i - 1) + spec_html_td(e, cols[i - 1])
    }
}

/// The first `i` table rows.
pub open spec fn spec_html_rows(es: Seq<BomEntryView>, cols: Seq<BomColumn>, i: int) -> Seq<char>
    decreases i,
{
    if i <= 0 {
        Seq::empty()
    } else {
        spec_html_rows(es, cols, i - 1) + "<tr>\n"@ + spec_html_row(
            es[i - 1],
            cols,
            cols.len() as int,
        ) + "</tr>\n"@
    }
}

/// The whole HTML document of a report.
pub open spec fn spec_to_html(r: BomReportView, cols: Seq<BomColumn>) -> Seq<char> {
    "<!DOCTYPE html>\n<html>\n<head>\n<meta charset=\"UTF-8\">\n<title>BOM: "@ + r.project_name
        + "</title>\n"@ + spec_html_style() + "</head>\n<body>\n<h1>Bill of Materials: "@
        + r.project_name + "</h1>\n<div class=\"summary\">\n<strong>Unique Parts:</strong> "@
        + crate::fmt::spec_i64_string(r.unique_parts) + " | <strong>Total Components:</strong> "@
        + crate::fmt::spec_i64_string(r.total_components) + (match r.total_cost {
        Some(c) => " | <strong>Estimated Cost:</strong> $"@ + crate::fmt::spec_fixed_string(c, 6),
        None => Seq::empty(),
    }) + "\n</div>\n<table>\n<thead>\n<tr>\n"@ + spec_html_headers(cols, cols.len() as int)
        + "</tr>\n</thead>\n<tbody>\n"@ + spec_html_rows(r.entries, cols, r.entries.len() as int)
        + "</tbody>\n</table>\n<footer><p><em>Generated by Hardware Tool</em></p></footer>\n</body>\n</html>\n"@
}

/// Append one HTML cell.
fn push_html_td(s: &mut String, e: &BomEntry, c: BomColumn)
    ensures
        final(s)@ == old(s)@ + spec_html_td(e@, c),
{
    match c {
        BomColumn::Reference => {
            push_str_part(s, "<td>");
            let refs = e.references_string();
            push_str_part(s, refs.as_str());
            push_str_part(s, "</td>\n");
        },
        BomColumn::Quantity => {
            push_str_part(s, "<td class=\"");
            push_str_part(s, "qty");
            push_str_part(s, "\">");
            crate::fmt::push_usize(s, e.quantity);
            push_str_part(s, "</td>\n");
        },
        BomColumn::Value => {
            push_str_part(s, "<td>");
            push_str_part(s, e.value.as_str());
            push_str_part(s, "</td>\n");
        },
        BomColumn::Footprint => {
            push_str_part(s, "<td>");
            push_str_part(s, e.footprint.as_str());
            push_str_part(s, "</td>\n");
        },
        BomColumn::Description => push_plain_td(s, &e.description),
        BomColumn::Manufacturer => push_plain_td(s, &e.manufacturer),
        BomColumn::Mpn => push_plain_td(s, &e.mpn),
        BomColumn::Supplier => push_plain_td(s, &e.supplier),
        BomColumn::SupplierPn => push_plain_td(s, &e.supplier_pn),
        BomColumn::UnitPrice => {
            push_str_part(s, "<td class=\"");
            push_str_part(s, "price");
            push_str_part(s, "\">");
            match e.unit_price {
                Some(p) => {
                    crate::fmt::push_char(s, '$');
                    crate::fmt::push_fixed(s, p, 6);
                },
                None => {},
            }
            push_str_part(s, "</td>\n");
        },
        BomColumn::ExtendedPrice => {
            push_str_part(s, "<td class=\"");
            push_str_part(s, "price");
            push_str_part(s, "\">");
            match e.extended_price() {
                Some(p) => {
                    crate::fmt::push_char(s, '$');
                    crate::fmt::push_fixed(s, p, 6);
                },
                None => {},
            }
            push_str_part(s, "</td>\n");
        },
    }
    proof {
        reveal_strlit("qty");
        reveal_strlit("price");
        assert(s@ =~= old(s)@ + spec_html_td(e@, c));
    }
}

fn push_plain_td(s: &mut String, o: &Option<String>)
    ensures
        final(s)@ == old(s)@ + "<td>"@ + or_empty(opt_view(o)) + "</td>\n"@,
{
    push_str_part(s, "<td>");
    match o {
        Some(t) => push_str_part(s, t.as_str()),
        None => {},
    }
    push_str_part(s, "</td>\n");
    proof {
        assert(s@ =~= old(s)@ + "<td>"@ + or_empty(opt_view(o)) + "</td>\n"@);
    }
}

impl BomReport {
    /// Export to HTML: a styled standalone page with a summary line and one
    /// table row per entry.
    pub fn to_html(&self, config: &BomConfig) -> (r: String)
        ensures
            r@ == spec_to_html(self@, config.columns@),
    {
        let ghost cols = config.columns@;
        let mut html = String::new();
        push_str_part(&mut html, "<!DOCTYPE html>\n<html>\n<head>\n<meta charset=\"UTF-8\">\n<title>BOM: ");
        push_str_part(&mut html, self.project_name.as_str());
        push_str_part(&mut html, "</title>\n");
        push_str_part(&mut html, "<style>\nbody { font-family: -apple-system, BlinkMacSystemFont, 'Segoe UI', Roboto, sans-serif; margin: 20px; }\nh1 { color: #333; }\n.summary { background: #f5f5f5; padding: 10px; border-radius: 4px; margin-bottom: 20px; }\ntable { border-collapse: collapse; width: 100%; }\nth, td { border: 1px solid #ddd; padding: 8px; text-align: left; }\nth { background: #4a90d9; color: white; }\ntr:nth-child(even) { background: #f9f9f9; }\ntr:hover { background: #e8f4ff; }\n.qty { text-align: center; }\n.price { text-align: right; }\n</style>\n");
        push_str_part(&mut html, "</head>\n<body>\n<h1>Bill of Materials: ");
        push_str_part(&mut html, self.project_name.as_str());
        push_str_part(&mut html, "</h1>\n<div class=\"summary\">\n<strong>Unique Parts:</strong> ");
        crate::fmt::push_usize(&mut html, self.unique_parts);
        push_str_part(&mut html, " | <strong>Total Components:</strong> ");
        crate::fmt::push_usize(&mut html, self.total_components);
        match self.total_cost {
            Some(c) => {
                push_str_part(&mut html, " | <strong>Estimated Cost:</strong> $");
                crate::fmt::push_fixed(&mut html, c, 6);
            },
            None => {},
        }
        push_str_part(&mut html, "\n</div>\n<table>\n<thead>\n<tr>\n");
        let ghost after_head = html@;
        let mut i: usize = 0;
        while i < config.columns.len()
            invariant
                cols == config.columns@,
                0 <= i <= cols.len(),
                html@ == after_head + spec_html_headers(cols, i as int),
            decreases config.columns.len() - i,
        {
            push_str_part(&mut html, "<th>");
            push_str_part(&mut html, config.columns[i].header());
            push_str_part(&mut html, "</th>\n");
            proof {
                assert(html@ =~= after_head + spec_html_headers(cols, i as int + 1));
            }
            i = i + 1;
        }
        push_str_part(&mut html, "</tr>\n</thead>\n<tbody>\n");
        let ghost after_headers = html@;
        let ghost es = self.entries.deep_view();
        let mut k: usize = 0;
        while k < self.entries.len()
            invariant
                cols == config.columns@,
                es == self.entries.deep_view(),
                0 <= k <= es.len(),
                html@ == after_headers + spec_html_rows(es, cols, k as int),
            decreases self.entries.len() - k,
        {
            let entry = &self.entries[k];
            push_str_part(&mut html, "<tr>\n");
            let ghost row_start = html@;
            let mut i: usize = 0;
            while i < config.columns.len()
                invariant
                    cols == config.columns@,
                    es == self.entries.deep_view(),
                    0 <= k < es.len(),
                    entry == &self.entries[k as int],
                    0 <= i <= cols.len(),
                    html@ == row_start + spec_html_row(es[k as int], cols, i as int),
                decreases config.columns.len() - i,
            {
                push_html_td(&mut html, entry, config.columns[i]);
                proof {
                    assert(html@ =~= row_start + spec_html_row(es[k as int], cols, i as int + 1));
                }
                i = i + 1;
            }
            push_str_part(&mut html, "</tr>\n");
            proof {
                assert(html@ =~= after_headers + spec_html_rows(es, cols, k as int + 1));
            }
            k = k + 1;
        }
        push_str_part(&mut html, "</tbody>\n</table>\n<footer><p><em>Generated by Hardware Tool</em></p></footer>\n</body>\n</html>\n");
        proof {
            assert(html@ =~= spec_to_html(self@, cols));
        }
        html
    }
}


} // verus!
