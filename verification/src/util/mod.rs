pub mod json;
pub mod json_laws;
pub mod number;
pub mod strict;
pub mod table;
pub mod text;
pub mod value;
