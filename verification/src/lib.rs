//! Resolution engine for OpenAPI-style schema descriptions: turns a nested,
//! self-referential schema graph into a flat, uniquely named set of models
//! and a set of typed operation descriptors, from which client-library
//! source artifacts are emitted.

pub mod array;
pub mod client;
pub mod common;
pub mod context;
pub mod enumeration;
pub mod error;
pub mod model;
pub mod naming;
pub mod operation;
pub mod parameter;
pub mod property;
pub mod reference;
pub mod resolution;
pub mod resource;
pub mod schema;
pub mod typeref;

pub use array::Array;
pub use context::Context;
pub use enumeration::Enumeration;
pub use error::Error;
pub use model::Model;
pub use naming::{safe_name, snake_of, spec_safe_name, to_snake_case, to_upper_camel_case,
    upper_camel_of};
pub use operation::Operation;
pub use parameter::Parameter;
pub use property::Property;
pub use reference::{last_segment, ref_name};
pub use resource::Resource;
