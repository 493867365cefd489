//! What the analysis of a C function hands to the code generator.

pub mod conversion_type;
pub mod function_parameters;
pub mod functions;
pub mod out_parameters;
pub mod return_value;
pub mod safety_assertion_mode;
