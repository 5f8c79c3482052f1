pub mod allocation;
pub mod arena;
pub mod backing;
pub mod error;
pub mod lemmas;
pub mod offsets;
pub mod order;
pub mod slashings;
pub mod small_vec;

pub use allocation::CacheArenaAllocation;
pub use arena::{CacheArena, GenericCacheArena};
pub use backing::{ArenaBacking, Hash256};
pub use error::Error;
pub use small_vec::SmallVec8;
