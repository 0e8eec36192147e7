pub mod mirakurun_conf;
pub mod recisdb;
pub mod registry;
pub mod relay;
pub mod server;
pub mod text;

pub use mirakurun_conf::Channel;
pub use mirakurun_conf::MirakurunConfing;
pub use mirakurun_conf::Tuner;
pub use registry::TunerRegistry;
pub use registry::contains_string;
pub use recisdb::LaunchCommand;
pub use recisdb::build_launch_command;
pub use relay::CHUNK_DELIMITER;
pub use relay::RelayEvent;
pub use relay::relay_continues;
pub use relay::split_chunks;
pub use server::ChannelJson;
pub use server::DEVICE_TOKEN_INDEX;
pub use server::Session;
pub use server::StreamDecision;
pub use server::channel_listing;
pub use server::find_channel;
pub use server::route_stream;
pub use server::stream_end_body;
pub use text::nth_token;
pub use text::trim_leading_bom;

use vstd::prelude::*;

verus! {

/// Capacity, in chunk slots, of the bounded relay queue feeding an HTTP
/// response, and the reader's initial buffer reservation.
pub const MAX_BUFFER_SIZE: usize = 1024 * 1024 * 60;

} // verus!
