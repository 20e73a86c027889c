//! What holds of the library as a whole, in terms of what goes in and what comes out.
pub mod composition;
pub mod documents;
pub mod fields;
pub mod loading;
pub mod operations;
pub mod parameters;
pub mod reading;
pub mod schemas;
pub mod slots;
pub mod text;
pub mod types;
pub mod unions;
pub mod values;
