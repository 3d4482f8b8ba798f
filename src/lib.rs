//! Streaming decoder for the frames of a 2D spinning lidar: synchronisation
//! on the frame header, checksum validation, decoding of the little-endian
//! layout, and interpolation of the samples' angles over the scan arc.
pub mod buffer;
pub mod codec;
pub mod crc;
pub mod decoder;
pub mod points;
pub mod text;

pub use codec::{LidarCodec, Outcome};
pub use crc::calc_crc;
pub use decoder::{Header, Packet, ParseError, Payload};
pub use points::{parse, Point};
