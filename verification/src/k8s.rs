pub mod decimal;
pub mod deploy;
pub mod error;
pub mod inject;
pub mod labels;
pub mod namespace;
pub mod objects;
pub mod pod;
pub mod svc;
pub mod types;
