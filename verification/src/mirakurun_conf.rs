//! The catalog: channel and tuner descriptors, loaded once at startup.
//!
//! Reading and parsing the two configuration files happens outside this
//! library; the parsed records are handed in as plain vectors and appended
//! to the catalog here.

use vstd::prelude::*;

verus! {

/// One channel descriptor. `channel` is the routing key used to resolve
/// `/stream/{channel_id}` requests.
#[derive(Debug, Clone)]
pub struct Channel {
    pub name: String,
    pub channel_type: String,
    pub channel: String,
    pub is_disabled: bool,
}

/// One tuner descriptor. `name` is the registry key; `command` is the
/// shell-style invocation template whose sixth whitespace token is the
/// device path.
#[derive(Debug, Clone)]
pub struct Tuner {
    pub name: String,
    pub types: Vec<String>,
    pub command: String,
    pub is_disabled: bool,
}

/// The in-memory catalog of channels and tuners.
pub struct MirakurunConfing {
    pub channels: Vec<Channel>,
    pub tuners: Vec<Tuner>,
}

impl MirakurunConfing {
    /// An empty catalog, as it exists before the configuration is loaded.
    pub fn new() -> (conf: Self)
        ensures
            conf.channels@.len() == 0,
            conf.tuners@.len() == 0,
    {
        Self { channels: Vec::new(), tuners: Vec::new() }
    }

    /// Appends freshly loaded descriptor records to the catalog, keeping
    /// whatever was already there first, in order.
    pub fn append_loaded(&mut self, channels: &mut Vec<Channel>, tuners: &mut Vec<Tuner>)
        ensures
            final(self).channels@ == old(self).channels@ + old(channels)@,
            final(self).tuners@ == old(self).tuners@ + old(tuners)@,
            final(channels)@.len() == 0,
            final(tuners)@.len() == 0,
    {
        self.channels.append(channels);
        self.tuners.append(tuners);
    }
}

impl Default for MirakurunConfing {
    fn default() -> (conf: Self)
        ensures
            conf.channels@.len() == 0,
            conf.tuners@.len() == 0,
    {
        Self::new()
    }
}

} // verus!
