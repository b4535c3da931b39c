//! Inspection of an audio endpoint's routing graph: node descriptors, device
//! metadata, and a direction-aware depth-first walk driven by the platform's
//! answers.

pub mod labels;
pub mod node;
pub mod properties;
pub mod text;
pub mod walker;

pub use labels::{
    connector_type_to_string, data_flow_to_string, part_type_to_string, state_to_string,
};
pub use text::u16_to_string;
