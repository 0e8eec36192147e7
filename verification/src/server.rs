//! The per-request decisions of the HTTP layer: resolving a channel,
//! allocating a tuner, extracting the device path, listing channels,
//! and the session's single finalizer.

use crate::mirakurun_conf::Channel;
use crate::mirakurun_conf::MirakurunConfing;
use crate::registry::TunerRegistry;
use crate::registry::first_eligible;
use crate::text::nth_token;
use crate::text::tokens_of;
use crate::text::trim_bom;
use crate::text::trim_leading_bom;
use vstd::prelude::*;

verus! {

/// Position of the device path within the whitespace-split command
/// template: a fixed convention of the catalog format.
pub const DEVICE_TOKEN_INDEX: usize = 5;

/// Index of the first channel at or after `i` whose routing key is `id`.
pub open spec fn find_channel_from(channels: Seq<Channel>, id: Seq<char>, i: int) -> Option<int>
    decreases channels.len() - i when 0 <= i <= channels.len()
{
    if i == channels.len() {
        None
    } else if channels[i].channel@ == id {
        Some(i)
    } else {
        find_channel_from(channels, id, i + 1)
    }
}

/// The channel a request for `id` resolves to: the first one in catalog
/// order whose routing key matches.
pub open spec fn spec_find_channel(channels: Seq<Channel>, id: Seq<char>) -> Option<int> {
    find_channel_from(channels, id, 0)
}

/// Resolves a routing key against the catalog's channel list.
#[verifier::loop_isolation(false)]
pub fn find_channel(channels: &Vec<Channel>, id: &String) -> (r: Option<usize>)
    ensures
        match r {
            Some(i) => spec_find_channel(channels@, id@) == Some(i as int) && i < channels@.len(),
            None => spec_find_channel(channels@, id@) is None,
        },
{
    let mut i: usize = 0;
    while i < channels.len()
        invariant
            0 <= i <= channels@.len(),
            spec_find_channel(channels@, id@) == find_channel_from(channels@, id@, i as int),
        decreases channels@.len() - i,
    {
        if channels[i].channel.eq(id) {
            return Some(i);
        }
        i = i + 1;
    }
    None
}

/// What one `GET /stream/{channel_id}` request decides, after resolving
/// the channel and attempting an allocation under the registry lock.
pub enum StreamDecision {
    /// No catalog channel has this routing key: 404 "Channel not found".
    ChannelNotFound,
    /// The channel exists, but no supporting tuner is free and enabled:
    /// 404 "Driver not found".
    DriverNotFound,
    /// A tuner was allocated: spawn the capture process on `device` and
    /// stream; `tuner` is the allocated tuner's index in the catalog.
    Stream { tuner: usize, device: String },
}

/// The allocation step of one stream request: resolve `channel_id`
/// against the catalog, then atomically pick and record the first
/// eligible tuner for the channel's type, and extract the device path
/// from its command template. The registry changes only when a tuner is
/// actually allocated.
pub fn route_stream(conf: &MirakurunConfing, registry: &mut TunerRegistry, channel_id: &String)
    -> (d: StreamDecision)
    requires
        old(registry).wf(),
        forall|i: int|
            0 <= i < conf.tuners@.len() ==> tokens_of(
                #[trigger] conf.tuners@[i].command@,
            ).len() > DEVICE_TOKEN_INDEX,
    ensures
        final(registry).wf(),
        match d {
            StreamDecision::ChannelNotFound => {
                &&& spec_find_channel(conf.channels@, channel_id@) is None
                &&& *final(registry) == *old(registry)
            },
            StreamDecision::DriverNotFound => {
                &&& spec_find_channel(conf.channels@, channel_id@) matches Some(ci)
                &&& first_eligible(
                    conf.tuners@,
                    conf.channels@[spec_find_channel(conf.channels@, channel_id@)->Some_0].channel_type@,
                    old(registry).names(),
                ) is None
                &&& *final(registry) == *old(registry)
            },
            StreamDecision::Stream { tuner, device } => {
                &&& spec_find_channel(conf.channels@, channel_id@) matches Some(ci)
                &&& first_eligible(
                    conf.tuners@,
                    conf.channels@[spec_find_channel(conf.channels@, channel_id@)->Some_0].channel_type@,
                    old(registry).names(),
                ) == Some(tuner as int)
                &&& tuner < conf.tuners@.len()
                &&& final(registry).names() == old(registry).names().push(
                    conf.tuners@[tuner as int].name@,
                )
                &&& device@ == tokens_of(conf.tuners@[tuner as int].command@)[
                    DEVICE_TOKEN_INDEX as int
                ]
            },
        },
{
    let found = find_channel(&conf.channels, channel_id);
    match found {
        None => StreamDecision::ChannelNotFound,
        Some(ci) => {
            let channel = &conf.channels[ci];
            let allocated = registry.try_allocate(&conf.tuners, &channel.channel_type);
            match allocated {
                None => StreamDecision::DriverNotFound,
                Some(ti) => {
                    let device = nth_token(conf.tuners[ti].command.as_str(), DEVICE_TOKEN_INDEX);
                    StreamDecision::Stream { tuner: ti, device: device.unwrap() }
                },
            }
        },
    }
}

/// One catalog channel as the channel listing presents it.
pub struct ChannelJson {
    pub name: String,
    pub channel_id: String,
    pub channel_type: String,
}

/// The `GET /channels` transformation: every catalog channel, with a
/// leading byte-order mark trimmed from its display name.
#[verifier::loop_isolation(false)]
pub fn channel_listing(channels: &Vec<Channel>) -> (r: Vec<ChannelJson>)
    ensures
        r@.len() == channels@.len(),
        forall|i: int|
            0 <= i < channels@.len() ==> {
                &&& (#[trigger] r@[i]).name@ == trim_bom(channels@[i].name@)
                &&& r@[i].channel_id@ == channels@[i].channel@
                &&& r@[i].channel_type@ == channels@[i].channel_type@
            },
{
    let mut r: Vec<ChannelJson> = Vec::new();
    let mut i: usize = 0;
    while i < channels.len()
        invariant
            0 <= i <= channels@.len(),
            r@.len() == i,
            forall|j: int|
                0 <= j < i ==> {
                    &&& (#[trigger] r@[j]).name@ == trim_bom(channels@[j].name@)
                    &&& r@[j].channel_id@ == channels@[j].channel@
                    &&& r@[j].channel_type@ == channels@[j].channel_type@
                },
        decreases channels@.len() - i,
    {
        let c = &channels[i];
        let entry = ChannelJson {
            name: trim_leading_bom(c.name.as_str()),
            channel_id: c.channel.clone(),
            channel_type: c.channel_type.clone(),
        };
        r.push(entry);
        i = i + 1;
    }
    r
}

/// The body substituted when the relay completed without producing a
/// single chunk; a relay that produced anything streams its chunks
/// instead and gets no substitute body.
pub fn stream_end_body(produced_chunks: usize) -> (r: Option<String>)
    ensures
        (produced_chunks == 0) <==> (r is Some),
        r matches Some(t) ==> t@ == "Stream ended"@,
{
    if produced_chunks == 0 {
        Some("Stream ended".to_owned())
    } else {
        None
    }
}

/// One streaming session's cleanup state: the allocated tuner's name,
/// and whether the finalizer already ran.
pub struct Session {
    pub tuner_name: String,
    pub released: bool,
}

impl Session {
    /// A session that has just bound `tuner_name` and not yet cleaned up.
    pub fn begin(tuner_name: String) -> (s: Session)
        ensures
            s.tuner_name == tuner_name,
            !s.released,
    {
        Session { tuner_name, released: false }
    }

    /// The session's single finalizer, run on every termination path
    /// (upstream end-of-stream, read error, or client disconnect): frees
    /// the tuner exactly once. Running it again is a no-op, so a
    /// defensive second invocation cannot double-release.
    pub fn finish(&mut self, registry: &mut TunerRegistry)
        requires
            old(registry).wf(),
        ensures
            final(registry).wf(),
            final(self).tuner_name == old(self).tuner_name,
            final(self).released,
            old(self).released ==> *final(registry) == *old(registry),
            !old(self).released ==> {
                &&& !final(registry).names().contains(old(self).tuner_name@)
                &&& forall|m: Seq<char>|
                    m != old(self).tuner_name@ ==> final(registry).names().contains(m)
                        == old(registry).names().contains(m)
                &&& old(registry).names().contains(old(self).tuner_name@)
                    ==> final(registry).names().len() == old(registry).names().len() - 1
            },
    {
        if !self.released {
            registry.release(&self.tuner_name);
            self.released = true;
        }
    }
}

} // verus!
