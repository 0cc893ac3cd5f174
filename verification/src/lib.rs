//! Verified core of a media player.
//!
//! - Binary formats of the packet cache: the byte buffer and the values that
//!   serialize into it, packets, codec parameters, streams, segment lines,
//!   and the checksummed records of the cache file.
//! - The cache index: keyframe tables of segments, the reader that loads a
//!   cache file back, the decisions of cache readers and of the writer.
//! - The queues between threads: packets, audio samples, decoded frames,
//!   and the decisions of the input and decode workers.
//! - The bookkeeping of the renderer's OpenGL objects and texture formats.
pub mod buffer;
pub mod checksum;
pub mod ser;
pub mod record;
pub mod cursor;
pub mod packet;
pub mod codec;
pub mod stream;
pub mod segment;
pub mod texture;
pub mod audio_ring;
pub mod float_bits;
pub mod frame_queue;
pub mod sorting;
pub mod segment_index;
pub mod errors;
pub mod cache_load;
pub mod cache_reader;
pub mod segment_writer;
pub mod packet_queue;
pub mod workers;
pub mod gfx;
pub mod sync;
pub mod audio_format;
pub mod decoding;
