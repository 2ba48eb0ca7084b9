//! Manufacturing constraint sets: the numeric thresholds a PCB layout is
//! checked against, plus named fabrication-house presets.
//!
//! All thresholds are nanometres. Construction performs no validation: any
//! combination of in-range values is accepted, and nonsensical combinations
//! surface as violations when a layout is checked, not as construction errors.

use vstd::prelude::*;

verus! {

/// Largest threshold magnitude the checker accepts, in nanometres (one metre).
pub const RULE_LIMIT: i64 = 1_000_000_000_000_000;

/// PCB design rules configuration. All lengths in nanometres.
#[derive(Debug, Clone, PartialEq, Eq, Structural)]
pub struct PcbDesignRules {
    /// Minimum track-to-track clearance (nm)
    pub min_track_clearance: i64,
    /// Minimum track-to-pad clearance (nm)
    pub min_track_to_pad_clearance: i64,
    /// Minimum track-to-via clearance (nm)
    pub min_track_to_via_clearance: i64,
    /// Minimum via-to-via clearance (nm)
    pub min_via_clearance: i64,
    /// Minimum track width (nm)
    pub min_track_width: i64,
    /// Minimum via diameter (nm)
    pub min_via_diameter: i64,
    /// Minimum via drill (nm)
    pub min_via_drill: i64,
    /// Minimum annular ring (nm)
    pub min_annular_ring: i64,
    /// Minimum hole-to-hole clearance (nm)
    pub min_hole_clearance: i64,
    /// Minimum copper-to-edge clearance (nm)
    pub min_edge_clearance: i64,
    /// Minimum silkscreen line width (nm)
    pub min_silk_width: i64,
    /// Minimum silkscreen text height (nm)
    pub min_silk_text_height: i64,
    /// Check silkscreen over pads
    pub check_silk_over_pads: bool,
    /// Minimum courtyard clearance (nm)
    pub min_courtyard_clearance: i64,
}

impl PcbDesignRules {
    /// All thresholds non-negative and small enough for exact checking.
    pub open spec fn wf(self) -> bool {
        &&& 0 <= self.min_track_clearance <= RULE_LIMIT
        &&& 0 <= self.min_track_to_pad_clearance <= RULE_LIMIT
        &&& 0 <= self.min_track_to_via_clearance <= RULE_LIMIT
        &&& 0 <= self.min_via_clearance <= RULE_LIMIT
        &&& 0 <= self.min_track_width <= RULE_LIMIT
        &&& 0 <= self.min_via_diameter <= RULE_LIMIT
        &&& 0 <= self.min_via_drill <= RULE_LIMIT
        &&& 0 <= self.min_annular_ring <= RULE_LIMIT
        &&& 0 <= self.min_hole_clearance <= RULE_LIMIT
        &&& 0 <= self.min_edge_clearance <= RULE_LIMIT
        &&& 0 <= self.min_silk_width <= RULE_LIMIT
        &&& 0 <= self.min_silk_text_height <= RULE_LIMIT
        &&& 0 <= self.min_courtyard_clearance <= RULE_LIMIT
    }

    /// The conservative generic preset.
    pub open spec fn spec_generic() -> PcbDesignRules {
        PcbDesignRules {
            min_track_clearance: 200_000,
            min_track_to_pad_clearance: 200_000,
            min_track_to_via_clearance: 200_000,
            min_via_clearance: 300_000,
            min_track_width: 150_000,
            min_via_diameter: 600_000,
            min_via_drill: 300_000,
            min_annular_ring: 150_000,
            min_hole_clearance: 500_000,
            min_edge_clearance: 300_000,
            min_silk_width: 150_000,
            min_silk_text_height: 800_000,
            check_silk_over_pads: true,
            min_courtyard_clearance: 250_000,
        }
    }

    /// Create rules for JLCPCB manufacturing.
    pub fn jlcpcb() -> (r: PcbDesignRules)
        ensures
            r == (PcbDesignRules {
                min_track_clearance: 127_000,
                min_track_to_pad_clearance: 127_000,
                min_track_to_via_clearance: 127_000,
                min_via_clearance: 254_000,
                min_track_width: 127_000,
                min_via_diameter: 450_000,
                min_via_drill: 200_000,
                min_annular_ring: 125_000,
                min_hole_clearance: 500_000,
                min_edge_clearance: 300_000,
                min_silk_width: 150_000,
                min_silk_text_height: 1_000_000,
                check_silk_over_pads: true,
                min_courtyard_clearance: 250_000,
            }),
            r.wf(),
    {
        PcbDesignRules {
            min_track_clearance: 127_000,  // 5 mil
            min_track_to_pad_clearance: 127_000,
            min_track_to_via_clearance: 127_000,
            min_via_clearance: 254_000,
            min_track_width: 127_000,  // 5 mil
            min_via_diameter: 450_000,
            min_via_drill: 200_000,
            min_annular_ring: 125_000,
            min_hole_clearance: 500_000,
            min_edge_clearance: 300_000,
            min_silk_width: 150_000,
            min_silk_text_height: 1_000_000,
            check_silk_over_pads: true,
            min_courtyard_clearance: 250_000,
        }
    }

    /// Create rules for OSH Park manufacturing.
    pub fn osh_park() -> (r: PcbDesignRules)
        ensures
            r == (PcbDesignRules {
                min_track_clearance: 152_000,
                min_track_to_pad_clearance: 152_000,
                min_track_to_via_clearance: 152_000,
                min_via_clearance: 254_000,
                min_track_width: 152_000,
                min_via_diameter: 500_000,
                min_via_drill: 254_000,
                min_annular_ring: 127_000,
                min_hole_clearance: 381_000,
                min_edge_clearance: 381_000,
                min_silk_width: 152_000,
                min_silk_text_height: 800_000,
                check_silk_over_pads: true,
                min_courtyard_clearance: 250_000,
            }),
            r.wf(),
    {
        PcbDesignRules {
            min_track_clearance: 152_000,  // 6 mil
            min_track_to_pad_clearance: 152_000,
            min_track_to_via_clearance: 152_000,
            min_via_clearance: 254_000,
            min_track_width: 152_000,  // 6 mil
            min_via_diameter: 500_000,
            min_via_drill: 254_000,  // 10 mil
            min_annular_ring: 127_000,
            min_hole_clearance: 381_000,
            min_edge_clearance: 381_000,
            min_silk_width: 152_000,
            min_silk_text_height: 800_000,
            check_silk_over_pads: true,
            min_courtyard_clearance: 250_000,
        }
    }
}

impl Default for PcbDesignRules {
    /// The conservative generic preset.
    fn default() -> (r: PcbDesignRules)
        ensures
            r == PcbDesignRules::spec_generic(),
            r.wf(),
    {
        PcbDesignRules {
            min_track_clearance: 200_000,
            min_track_to_pad_clearance: 200_000,
            min_track_to_via_clearance: 200_000,
            min_via_clearance: 300_000,
            min_track_width: 150_000,
            min_via_diameter: 600_000,
            min_via_drill: 300_000,
            min_annular_ring: 150_000,
            min_hole_clearance: 500_000,
            min_edge_clearance: 300_000,
            min_silk_width: 150_000,
            min_silk_text_height: 800_000,
            check_silk_over_pads: true,
            min_courtyard_clearance: 250_000,
        }
    }
}

} // verus!
