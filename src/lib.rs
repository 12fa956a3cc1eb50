//! An ordered list of items kept in two tiers (open, then finished), with a
//! grab-and-move reordering and a two-mode key-driven state machine.
use vstd::prelude::*;

pub mod order;
pub mod item;
pub mod reorder;
pub mod text;
pub mod state;
pub mod edit;
pub mod input;
pub mod load;
pub mod keys;
pub mod laws;
pub mod ids;
pub mod window;

pub use item::{logical_positions, sort_by_tier, TodoItem};
pub use keys::{normal_command, Command, Key, KeyCode, KeyOutcome, Modifiers};
pub use reorder::{find_id, move_adjacent};
pub use state::{Mode, State};
pub use window::visible_range;

verus! {

} // verus!
