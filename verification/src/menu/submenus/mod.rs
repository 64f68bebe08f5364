pub mod all_nodes;
pub mod children;
pub mod diagnostics;
pub mod images;
pub mod node_search;
pub mod photons;

pub use all_nodes::{AllNodesMenu, AllNodesMenuOutput};
pub use children::{ChildrenMenu, ChildrenMenuInput};
pub use diagnostics::DiagnosticsMenu;
pub use images::{ImagesMenu, ImagesMenuOutput};
pub use node_search::{NodeSearchMenu, NodeSearchMenuInput, NodeSearchMenuOutput};
