//! Decoding of relational result sets, whose column types are known only from
//! the declared type label of each column, into self-describing value trees.
pub mod json;
pub mod decode;
pub mod record;
