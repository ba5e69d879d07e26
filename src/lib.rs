pub mod model;
pub mod ring;

pub use ring::RingBuffer;
