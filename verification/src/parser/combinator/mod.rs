pub mod checkpoint;
pub mod length_repeat;

pub use checkpoint::Checkpoint;
pub use length_repeat::LengthRepeat;
pub mod tuple;
pub mod map;
pub mod optional;

pub use map::{MapParser, TryMap};
pub mod delayed;

pub use delayed::Delayed;
pub mod conditional;
