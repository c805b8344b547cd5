//! Anvil: the verified core of a parametric CAD/CAM tool.

pub mod text;
pub mod param;
pub mod expr;
pub mod zip;
pub mod region_select;
pub mod document;
pub mod xml;
pub mod post;
pub mod fonts;
pub mod features;
pub mod plane_ref;
pub mod timeline;
pub mod svg;
pub mod cli;
pub mod step;
pub mod threemf;
pub mod laws;
