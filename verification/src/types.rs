//! Plain data types for the resources the workflows traverse, and the small
//! selection rules applied to them after a sync.

use vstd::prelude::*;

verus! {

/// One guild as listed for the current user.
#[derive(Debug)]
pub struct Guild {
    pub id: String,
    pub name: String,
    pub icon: Option<String>,
}

/// One channel of a guild or of the user's direct messages.
#[derive(Debug)]
pub struct Channel {
    pub id: String,
    pub name: Option<String>,
    pub channel_type: u8,
}

/// The current user's profile.
#[derive(Debug)]
pub struct DiscordUser {
    pub id: String,
    pub username: String,
    pub avatar: Option<String>,
    pub email: Option<String>,
}

/// What a desktop-environment probe found.
#[derive(Clone, Copy, Debug, PartialEq, Eq, Structural)]
pub struct DiscordStatus {
    pub is_running: bool,
    pub rpc_available: bool,
    pub browser_detected: bool,
}

/// Mathematical image of a `Channel`.
pub struct ChannelV {
    pub id: Seq<char>,
    pub name: Option<Seq<char>>,
    pub channel_type: u8,
}

impl View for Channel {
    type V = ChannelV;

    open spec fn view(&self) -> ChannelV {
        ChannelV {
            id: self.id@,
            name: crate::vault::opt_view(self.name),
            channel_type: self.channel_type,
        }
    }
}

impl Clone for Channel {
    fn clone(&self) -> (r: Self)
        ensures
            r@ == self@,
    {
        Channel {
            id: self.id.clone(),
            name: match &self.name {
                Some(n) => Some(n.clone()),
                None => None,
            },
            channel_type: self.channel_type,
        }
    }
}

/// Whether a guild channel can hold messages the purge cares about: a text
/// channel or a thread.
pub open spec fn keep_guild_channel(channel_type: u8) -> bool {
    channel_type == 0 || channel_type == 11 || channel_type == 12
}

/// The views of a sequence of channels.
pub open spec fn channel_views(s: Seq<Channel>) -> Seq<ChannelV> {
    s.map_values(|c: Channel| c@)
}

/// The guild channels that survive the selection, in order.
pub open spec fn guild_channels_kept(s: Seq<ChannelV>) -> Seq<ChannelV>
    decreases s.len(),
{
    if s.len() == 0 {
        Seq::empty()
    } else {
        let rest = guild_channels_kept(s.drop_last());
        if keep_guild_channel(s.last().channel_type) {
            rest.push(s.last())
        } else {
            rest
        }
    }
}

/// Keep only the guild channels whose kind the purge handles.
pub fn filter_guild_channels(chans: &Vec<Channel>) -> (r: Vec<Channel>)
    ensures
        channel_views(r@) =~= guild_channels_kept(channel_views(chans@)),
{
    let n = chans.len();
    let mut out: Vec<Channel> = Vec::new();
    let mut i: usize = 0;
    proof {
        assert(channel_views(out@) =~= guild_channels_kept(channel_views(chans@).subrange(0, 0)));
    }
    while i < n
        invariant
            n == chans@.len(),
            i <= n,
            channel_views(out@) =~= guild_channels_kept(
                channel_views(chans@).subrange(0, i as int),
            ),
        decreases n - i,
    {
        let ghost pre = channel_views(chans@).subrange(0, i as int);
        let ghost post = channel_views(chans@).subrange(0, i as int + 1);
        proof {
            assert(post.drop_last() =~= pre);
            assert(post.last() == chans@[i as int]@);
        }
        let t = chans[i].channel_type;
        if t == 0 || t == 11 || t == 12 {
            let ghost out_pre = channel_views(out@);
            let entry = chans[i].clone();
            out.push(entry);
            proof {
                assert(channel_views(out@) =~= out_pre.push(chans@[i as int]@));
            }
        }
        i = i + 1;
    }
    proof {
        assert(channel_views(chans@).subrange(0, n as int) =~= channel_views(chans@));
    }
    out
}

/// Whether a private channel is shown: a direct message or a group direct
/// message.
pub fn keep_dm_channel(channel_type: u8) -> (b: bool)
    ensures
        b == (channel_type == 1 || channel_type == 3),
{
    channel_type == 1 || channel_type == 3
}

/// The display name of a private channel: direct messages are named after
/// the first recipient, group channels keep their own name or a placeholder.
pub open spec fn dm_name(
    channel_type: u8,
    recipient: Option<Seq<char>>,
    raw_name: Option<Seq<char>>,
) -> Option<Seq<char>> {
    if channel_type == 1 {
        match recipient {
            Some(u) => Some("DM with "@ + u),
            None => None,
        }
    } else {
        match raw_name {
            Some(n) => Some(n),
            None => Some("Unnamed Group DM"@),
        }
    }
}

/// Compute the display name of a private channel.
pub fn dm_channel_name(channel_type: u8, recipient: Option<&str>, raw_name: Option<String>) -> (r:
    Option<String>)
    ensures
        crate::vault::opt_view(r) == dm_name(
            channel_type,
            match recipient {
                Some(u) => Some(u@),
                None => None,
            },
            crate::vault::opt_view(raw_name),
        ),
{
    if channel_type == 1 {
        match recipient {
            Some(u) => Some(String::from_str("DM with ").concat(u)),
            None => None,
        }
    } else {
        match raw_name {
            Some(n) => Some(n),
            None => Some(String::from_str("Unnamed Group DM")),
        }
    }
}

} // verus!
