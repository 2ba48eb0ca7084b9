//! Hardware-design toolkit core: a PCB design-rule-check (DRC) engine with a
//! domain-agnostic violation model, plus schematic importers and
//! manufacturing-report generators (bill of materials, pick and place).
//!
//! All geometry is held in integer nanometres, so every check is exact
//! integer arithmetic; distances are compared through their squares and
//! reported through a verified integer square root.

pub mod altium;
pub mod bom;
pub mod browser;
pub mod drc;
pub mod eagle;
pub mod fmt;
pub mod geom;
pub mod laws;
pub mod layout;
pub mod library;
pub mod outside;
pub mod pcb_drc;
pub mod pnp;
pub mod props;
pub mod rules;
pub mod schematic;
pub mod text;
pub mod units;
