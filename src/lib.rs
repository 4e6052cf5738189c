/// Documents: the AST dump, the call graph and the names of their files.
pub mod dump;
/// The entities of a translation unit, addressed by index.
pub mod entity;
/// Text of optional and structured values.
pub mod get_name;
/// Traversal, the owned node tree, the call graph and their serialization.
pub mod graph;
/// The USRs found below an entity.
pub mod index;
/// An indentation-aware JSON writer.
pub mod json;
/// Entity kinds and their labels.
pub mod kind;
/// Decimal numbers, substring search and character replacement.
pub mod text;
