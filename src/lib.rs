//! Binary operators of a small expression language over dynamic values:
//! construction checks, evaluation of one record or of a batch of records,
//! and static type inference; and the configuration of a Unix socket
//! connector.
pub mod expr;
pub mod kind;
pub mod laws;
pub mod op;
pub mod unix;
pub mod value;
