//! The logic of a set of small widget demos: which rows and tiles of a
//! scrolled grid are in view, a tree of entries flattened for display and
//! addressed by pre-order position, and the state machines of a checklist, a
//! todo list, a tile pane and a selection list.

pub mod checklist;
pub mod lazy_scroll;
pub mod nested_list;
pub mod selection_tree;
pub mod tile_pane;
pub mod todo;
pub mod visibility;
