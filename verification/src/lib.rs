//! Client-side logic of a Remote Desktop connection, proved against its contracts.
//!
//! The connection:
//! - [`connector::connection_activation`] exchanges capability sets with the server and
//!   sets the data of virtual channels aside meanwhile.
//! - [`connector::license_exchange`] answers the server's requests for a license.
//! - [`connector::wire`] holds what is trusted of the crates that encode and decode the
//!   protocol.
//!
//! The picture:
//! - [`compositor`] applies the commands of the graphics pipeline to surfaces and tells
//!   which parts of the output have changed.
//! - [`yuv444`] rebuilds 4:4:4 pictures out of the two 4:2:0 streams of AVC444 and
//!   AVC444v2 and converts them to RGBA.
//! - [`decode`] holds what passes between a video decoder and that pipeline.
//!
//! What holds over several calls is stated in the `laws` modules and in the functions
//! whose names begin with `law_`.
pub mod compositor;
pub mod connector;
pub mod decode;
pub mod geometry;
pub mod row_major;
pub mod text;
pub mod yuv444;
