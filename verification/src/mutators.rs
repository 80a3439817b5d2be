//! The mutators: leaves, combinators and collection mutators.

pub mod integer;
pub mod seq_cplx;
pub mod fixed_len_vector;
pub mod incremental_map;
pub mod vector;
pub mod map;
pub mod duration;
pub mod alternation;
pub mod boxed;
pub mod extended;
pub mod integer_within_range;
pub mod enums;
pub mod string;
pub mod net;
pub mod btreemap;
pub mod btreeset;
