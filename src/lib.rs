//! Embodied carbon emissions of road-construction projects.
//!
//! Bill-of-quantities worksheets, given as rows of cell text, are imported
//! into categorized line items (`import`); reference workbooks give carbon
//! factors per resource code (`reference`); aggregation joins the two and
//! sums quantity times factor per category, sheet and engineering type
//! (`emission`, `group`, `aggregate`, `detail`); `present` writes the results
//! as table text. All arithmetic is exact fixed-point (`number`, `format`).
pub mod text;
pub mod category;
pub mod number;
pub mod format;
pub mod import;
pub mod reference;
pub mod emission;
pub mod group;
pub mod detail;
pub mod aggregate;
pub mod present;
pub mod stepper;
pub mod listing;
