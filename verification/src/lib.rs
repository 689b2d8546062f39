//! Driving logic of a tree-sitter query run over a C++ code base: finding capture indices by
//! name, reading captures out of query matches, pairing the matches of a query evaluated with
//! and without subtree skipping, and extracting command-line switch declarations.

pub mod capture;
pub mod commit;
pub mod compare;
pub mod switches;
