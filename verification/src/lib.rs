//! Deterministic generation of synthetic three-level tree data
//! (root / child / grandchild) for exercising tree-view UIs under load.

pub mod digits;
pub mod generator;
pub mod names;

pub use generator::generate_tree_data_fast;
pub use generator::generate_virtual_tree_data;
pub use generator::GenerateOptions;
pub use generator::GenerateTreeDataResult;
pub use generator::OverflowError;
pub use generator::TreeNodeData;
