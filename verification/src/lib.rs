//! Diet-quality scoring engine: normalizes heterogeneous nutrient-intake
//! records into one canonical nutrient vector and evaluates a registry of
//! scoring formulas against it, tolerating missing data and reporting exactly
//! why any score could not be computed.

pub mod acs2020_ingest;
pub mod aliases;
pub mod batch;
pub mod contracts;
pub mod eval;
pub mod fdc_ingest;
pub mod fields;
pub mod food_item_resolver;
pub mod hcsn_ingest;
pub mod laws;
pub mod nhanes_ingest;
pub mod normalize;
pub mod nutrition_vector;
pub mod quantity;
pub mod scores;
pub mod text;
pub mod unmapped_monitor;

pub use fields::FieldId;
pub use quantity::Quantity;
