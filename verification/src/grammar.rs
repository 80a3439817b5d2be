//! The grammar core: the syntax tree, its rendered-text mapping, the
//! grammar combinators and the regular-expression front end.

pub mod ast;
pub mod incremental_map_conformance;
pub mod combinators;
pub mod regex;
