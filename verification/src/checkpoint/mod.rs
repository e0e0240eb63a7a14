pub mod format;
pub mod reader;
pub mod writer;
pub mod schema;
pub mod model;
pub mod save;
pub mod load;
pub mod roundtrip;
pub mod fields;
