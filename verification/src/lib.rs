//! Abstract-syntax-tree data model of a small task-definition language
//! ("recipe files" made of aliases, assignments, comments, settings, and
//! named recipes with shell-command bodies), together with a canonical,
//! deterministic serialization of that model into an ordered tree of text
//! atoms. The canonical tree is the normal form used to compare program
//! structure: two programs render to equal trees exactly when their
//! structure and text agree.

pub mod ast;
pub mod laws;
pub mod node;
pub mod tree;
