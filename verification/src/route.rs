//! Route classification: derive a stable bucket key from a request's target
//! so that requests addressing the same rate-limited resource collapse to
//! the same bucket.
//!
//! Classification looks only at the URL's path segments, never at query
//! parameters or the caller's identity; targets that match no known shape
//! degrade to a single catch-all bucket.

use vstd::prelude::*;

verus! {

/// The bucket key of a request: which rate-limited resource it addresses.
#[derive(Debug)]
pub enum RouteKey {
    /// Message operations inside one channel.
    ChannelMessages { channel_id: String },
    /// Other operations on one channel.
    Channel { channel_id: String },
    /// Operations on one guild.
    Guild { guild_id: String },
    /// Relationship operations of the current user.
    Relationships,
    /// Operations on the current user itself.
    CurrentUser,
    /// The shared catch-all bucket for everything else.
    Fallback,
}

/// Mathematical image of a `RouteKey`.
pub enum RouteKeyV {
    ChannelMessages { channel_id: Seq<char> },
    Channel { channel_id: Seq<char> },
    Guild { guild_id: Seq<char> },
    Relationships,
    CurrentUser,
    Fallback,
}

impl View for RouteKey {
    type V = RouteKeyV;

    open spec fn view(&self) -> RouteKeyV {
        match self {
            RouteKey::ChannelMessages { channel_id } => RouteKeyV::ChannelMessages {
                channel_id: channel_id@,
            },
            RouteKey::Channel { channel_id } => RouteKeyV::Channel { channel_id: channel_id@ },
            RouteKey::Guild { guild_id } => RouteKeyV::Guild { guild_id: guild_id@ },
            RouteKey::Relationships => RouteKeyV::Relationships,
            RouteKey::CurrentUser => RouteKeyV::CurrentUser,
            RouteKey::Fallback => RouteKeyV::Fallback,
        }
    }
}

impl Clone for RouteKey {
    fn clone(&self) -> (r: Self)
        ensures
            r@ == self@,
    {
        match self {
            RouteKey::ChannelMessages { channel_id } => RouteKey::ChannelMessages {
                channel_id: channel_id.clone(),
            },
            RouteKey::Channel { channel_id } => RouteKey::Channel {
                channel_id: channel_id.clone(),
            },
            RouteKey::Guild { guild_id } => RouteKey::Guild { guild_id: guild_id.clone() },
            RouteKey::Relationships => RouteKey::Relationships,
            RouteKey::CurrentUser => RouteKey::CurrentUser,
            RouteKey::Fallback => RouteKey::Fallback,
        }
    }
}

impl RouteKey {
    /// Whether two keys denote the same bucket.
    pub fn key_eq(&self, other: &RouteKey) -> (r: bool)
        ensures
            r == (self@ == other@),
    {
        match (self, other) {
            (
                RouteKey::ChannelMessages { channel_id: a },
                RouteKey::ChannelMessages { channel_id: b },
            ) => string_eq(a, b),
            (RouteKey::Channel { channel_id: a }, RouteKey::Channel { channel_id: b }) => {
                string_eq(a, b)
            },
            (RouteKey::Guild { guild_id: a }, RouteKey::Guild { guild_id: b }) => string_eq(a, b),
            (RouteKey::Relationships, RouteKey::Relationships) => true,
            (RouteKey::CurrentUser, RouteKey::CurrentUser) => true,
            (RouteKey::Fallback, RouteKey::Fallback) => true,
            _ => false,
        }
    }
}

/// Content equality of two owned strings.
pub fn string_eq(a: &String, b: &String) -> (r: bool)
    ensures
        r == (a@ == b@),
{
    *a == *b
}

/// Content equality of two string slices.
pub fn str_eq(a: &str, b: &str) -> (r: bool)
    ensures
        r == (a@ == b@),
{
    let sa = a.to_owned();
    let sb = b.to_owned();
    sa == sb
}

/// The views of a sequence of owned strings.
pub open spec fn seq_views(s: Seq<String>) -> Seq<Seq<char>> {
    s.map_values(|x: String| x@)
}

/// Splitting a path into its non-empty `/`-separated segments, processing
/// characters from position `i` with `cur` the segment read so far and `acc`
/// the segments already complete.
pub open spec fn segments_from(
    p: Seq<char>,
    i: int,
    cur: Seq<char>,
    acc: Seq<Seq<char>>,
) -> Seq<Seq<char>>
    decreases p.len() - i,
    when 0 <= i <= p.len()
{
    if i >= p.len() {
        if cur.len() == 0 {
            acc
        } else {
            acc.push(cur)
        }
    } else if p[i] == '/' {
        segments_from(
            p,
            i + 1,
            Seq::empty(),
            if cur.len() == 0 {
                acc
            } else {
                acc.push(cur)
            },
        )
    } else {
        segments_from(p, i + 1, cur.push(p[i]), acc)
    }
}

/// The non-empty `/`-separated segments of a path.
pub open spec fn path_segments(p: Seq<char>) -> Seq<Seq<char>> {
    segments_from(p, 0, Seq::empty(), Seq::empty())
}

/// Split a path into its non-empty `/`-separated segments.
pub fn split_segments(path: &str) -> (segs: Vec<String>)
    ensures
        seq_views(segs@) == path_segments(path@),
{
    let n = path.unicode_len();
    let mut segs: Vec<String> = Vec::new();
    let mut start: usize = 0;
    let mut i: usize = 0;
    assert(path@.subrange(0, 0) =~= Seq::<char>::empty());
    assert(seq_views(segs@) =~= Seq::<Seq<char>>::empty());
    while i < n
        invariant
            n == path@.len(),
            start <= i <= n,
            segments_from(path@, i as int, path@.subrange(start as int, i as int), seq_views(segs@))
                == path_segments(path@),
        decreases n - i,
    {
        let ghost old_views = seq_views(segs@);
        let ghost cur = path@.subrange(start as int, i as int);
        let c = path.get_char(i);
        if c == '/' {
            if start < i {
                let seg = path.substring_char(start, i).to_owned();
                assert(seg@ == cur);
                segs.push(seg);
                assert(seq_views(segs@) =~= old_views.push(cur));
            }
            start = i + 1;
            assert(path@.subrange(start as int, (i + 1) as int) =~= Seq::<char>::empty());
        } else {
            assert(cur.push(path@[i as int]) =~= path@.subrange(start as int, (i + 1) as int));
        }
        i = i + 1;
    }
    let ghost cur = path@.subrange(start as int, n as int);
    if start < n {
        let ghost old_views = seq_views(segs@);
        let seg = path.substring_char(start, n).to_owned();
        assert(seg@ == cur);
        segs.push(seg);
        assert(seq_views(segs@) =~= old_views.push(cur));
    } else {
        assert(cur =~= Seq::<char>::empty());
    }
    segs
}

/// The first position at or after `i` whose segment equals `w`, or the
/// segment count when none does.
pub open spec fn find_seg(segs: Seq<Seq<char>>, w: Seq<char>, i: int) -> int
    decreases segs.len() - i,
    when 0 <= i <= segs.len()
{
    if i >= segs.len() {
        segs.len() as int
    } else if segs[i] == w {
        i
    } else {
        find_seg(segs, w, i + 1)
    }
}

/// Whether some segment equals `w`.
pub open spec fn has_seg(segs: Seq<Seq<char>>, w: Seq<char>) -> bool {
    find_seg(segs, w, 0) < segs.len()
}

/// Find the first segment equal to `w`, returning the segment count when
/// none matches.
pub fn find_segment(segs: &Vec<String>, w: &str) -> (r: usize)
    ensures
        r == find_seg(seq_views(segs@), w@, 0),
{
    let n = segs.len();
    let mut i: usize = 0;
    while i < n
        invariant
            n == segs@.len(),
            i <= n,
            find_seg(seq_views(segs@), w@, 0) == find_seg(seq_views(segs@), w@, i as int),
        decreases n - i,
    {
        assert(seq_views(segs@)[i as int] == segs@[i as int]@);
        if str_eq(segs[i].as_str(), w) {
            return i;
        }
        i = i + 1;
    }
    n
}

/// Classification over the path segments: the first `channels` segment with
/// an id after it wins (further distinguished by a following `messages`
/// segment), then the first `guilds` segment with an id, then the
/// relationship and current-user shapes, then the catch-all.
pub open spec fn classify_segments_spec(segs: Seq<Seq<char>>) -> RouteKeyV {
    let ci = find_seg(segs, "channels"@, 0);
    let gi = find_seg(segs, "guilds"@, 0);
    if ci + 1 < segs.len() {
        if ci + 2 < segs.len() && segs[ci + 2] == "messages"@ {
            RouteKeyV::ChannelMessages { channel_id: segs[ci + 1] }
        } else {
            RouteKeyV::Channel { channel_id: segs[ci + 1] }
        }
    } else if gi + 1 < segs.len() {
        RouteKeyV::Guild { guild_id: segs[gi + 1] }
    } else if has_seg(segs, "relationships"@) {
        RouteKeyV::Relationships
    } else if has_seg(segs, "@me"@) {
        RouteKeyV::CurrentUser
    } else {
        RouteKeyV::Fallback
    }
}

/// Classify a path already split into segments.
pub fn classify_segments(segs: &Vec<String>) -> (k: RouteKey)
    ensures
        k@ == classify_segments_spec(seq_views(segs@)),
{
    let n = segs.len();
    let ci = find_segment(segs, "channels");
    if ci < n && ci + 1 < n {
        assert(seq_views(segs@)[ci + 1] == segs@[ci + 1]@);
        let id = segs[ci + 1].clone();
        if ci + 2 < n && str_eq(segs[ci + 2].as_str(), "messages") {
            return RouteKey::ChannelMessages { channel_id: id };
        }
        return RouteKey::Channel { channel_id: id };
    }
    let gi = find_segment(segs, "guilds");
    if gi < n && gi + 1 < n {
        assert(seq_views(segs@)[gi + 1] == segs@[gi + 1]@);
        return RouteKey::Guild { guild_id: segs[gi + 1].clone() };
    }
    if find_segment(segs, "relationships") < n {
        return RouteKey::Relationships;
    }
    if find_segment(segs, "@me") < n {
        return RouteKey::CurrentUser;
    }
    RouteKey::Fallback
}

/// The path component of a URL string, when the string parses as a URL.
pub uninterp spec fn url_path_of(url: Seq<char>) -> Option<Seq<char>>;

/// Relies on `url::Url::parse` and `url::Url::path`: whether a URL string
/// parses, and the path component it then carries, are functions of the
/// string alone.
#[verifier::external_body]
fn parse_url_path(url: &str) -> (r: Option<String>)
    ensures
        match url_path_of(url@) {
            Some(p) => r matches Some(s) && s@ == p,
            None => r is None,
        },
{
    match url::Url::parse(url) {
        Ok(u) => Some(u.path().to_string()),
        Err(_) => None,
    }
}

/// The bucket key of a URL string: classification of its path segments, or
/// the catch-all when the string is not a URL.
pub open spec fn classify_url_spec(url: Seq<char>) -> RouteKeyV {
    match url_path_of(url) {
        Some(p) => classify_segments_spec(path_segments(p)),
        None => RouteKeyV::Fallback,
    }
}

/// Derive the bucket key for a request target. Deterministic, independent of
/// query parameters; unrecognized shapes degrade to the catch-all bucket.
pub fn classify(url: &str) -> (k: RouteKey)
    ensures
        k@ == classify_url_spec(url@),
{
    match parse_url_path(url) {
        Some(p) => {
            let segs = split_segments(p.as_str());
            classify_segments(&segs)
        },
        None => RouteKey::Fallback,
    }
}

} // verus!
