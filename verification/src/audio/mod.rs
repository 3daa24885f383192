pub mod clock;
pub mod decode;
pub mod ring;
pub mod sink;

pub use clock::{ClockView, PlaybackClock};
pub use ring::RingBuffer;
pub use sink::VirtualAudioOutput;
