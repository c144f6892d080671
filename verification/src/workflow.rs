//! Decision logic of the bulk workflows: which message a purge deletes,
//! when paging a channel stops, and which webhooks belong to the current
//! user.
//!
//! The workflows themselves are loops of dispatcher calls run by the
//! embedding runtime; every decision they take between calls is computed
//! here.

use vstd::prelude::*;

verus! {

/// Whether the needle occurs contiguously inside the haystack.
pub open spec fn contains_seq(h: Seq<char>, n: Seq<char>) -> bool {
    exists|k: int| 0 <= k <= h.len() - n.len() && #[trigger] h.subrange(k, k + n.len()) == n
}

/// Substring search.
pub fn contains_substring(h: &str, n: &str) -> (b: bool)
    ensures
        b == contains_seq(h@, n@),
{
    let hl = h.unicode_len();
    let nl = n.unicode_len();
    if nl > hl {
        return false;
    }
    if nl == 0 {
        proof {
            assert(h@.subrange(0, 0 + n@.len() as int) =~= n@);
            assert(contains_seq(h@, n@));
        }
        return true;
    }
    let mut i: usize = 0;
    while i <= hl - nl
        invariant
            hl == h@.len(),
            nl == n@.len(),
            nl <= hl,
            1 <= nl,
            i <= hl - nl + 1,
            forall|k: int| 0 <= k < i ==> #[trigger] h@.subrange(k, k + n@.len()) != n@,
        decreases hl - nl + 1 - i,
    {
        let mut j: usize = 0;
        let mut ok = true;
        while j < nl
            invariant_except_break
                hl == h@.len(),
                nl == n@.len(),
                nl <= hl,
                i <= hl - nl,
                j <= nl,
                ok,
                forall|m: int| 0 <= m < j ==> h@[i + m] == n@[m],
            ensures
                hl == h@.len(),
                nl == n@.len(),
                nl <= hl,
                i <= hl - nl,
                ok ==> forall|m: int| 0 <= m < nl ==> h@[i + m] == n@[m],
                !ok ==> h@.subrange(i as int, i as int + n@.len()) != n@,
            decreases nl - j,
        {
            let hc = h.get_char(i + j);
            let nc = n.get_char(j);
            if hc != nc {
                proof {
                    assert(h@.subrange(i as int, i as int + n@.len())[j as int] == h@[i + j]);
                }
                ok = false;
                break;
            }
            j = j + 1;
        }
        if ok {
            proof {
                let k = i as int;
                assert(h@.subrange(k, k + n@.len()) =~= n@);
                assert(contains_seq(h@, n@));
            }
            return true;
        }
        i = i + 1;
    }
    proof {
        assert forall|k: int| 0 <= k <= h@.len() - n@.len() implies #[trigger] h@.subrange(
            k,
            k + n@.len(),
        ) != n@ by {
            assert(k < i as int);
        }
    }
    false
}

/// The lowercase image of a string's characters.
pub uninterp spec fn lower_of(s: Seq<char>) -> Seq<char>;

/// Relies on `str::to_lowercase`: the lowercase image depends on the
/// characters alone.
#[verifier::external_body]
fn to_lowercase(s: &str) -> (r: String)
    ensures
        r@ == lower_of(s@),
{
    s.to_lowercase()
}

/// Whether message content matches the search query: no query matches
/// everything, a query matches case-insensitively anywhere in the content.
pub open spec fn content_matches(content: Seq<char>, query: Option<Seq<char>>) -> bool {
    match query {
        Some(q) => contains_seq(lower_of(content), lower_of(q)),
        None => true,
    }
}

/// Case-insensitive match of message content against an optional query.
pub fn matches_query(content: &str, query: Option<&str>) -> (b: bool)
    ensures
        b == content_matches(
            content@,
            match query {
                Some(q) => Some(q@),
                None => None,
            },
        ),
{
    match query {
        Some(q) => {
            let lc = to_lowercase(content);
            let lq = to_lowercase(q);
            contains_substring(lc.as_str(), lq.as_str())
        },
        None => true,
    }
}

/// The Unix-millisecond reading of an RFC 3339 instant, when the string is
/// one.
pub uninterp spec fn rfc3339_ms_of(s: Seq<char>) -> Option<i64>;

/// Relies on `chrono::DateTime::parse_from_rfc3339` and
/// `chrono::DateTime::timestamp_millis`: whether a string is a valid
/// RFC 3339 instant, and that instant in Unix milliseconds, depend on the
/// string alone.
#[verifier::external_body]
fn parse_rfc3339_ms(s: &str) -> (r: Option<i64>)
    ensures
        r == rfc3339_ms_of(s@),
{
    match chrono::DateTime::parse_from_rfc3339(s) {
        Ok(dt) => Some(dt.timestamp_millis()),
        Err(_) => None,
    }
}

/// The timestamp a message is filtered by: its RFC 3339 instant in Unix
/// milliseconds, with unparsable or pre-epoch stamps pinned to zero.
pub open spec fn spec_message_timestamp(s: Seq<char>) -> u64 {
    match rfc3339_ms_of(s) {
        Some(ms) => if 0 <= ms {
            ms as u64
        } else {
            0u64
        },
        None => 0u64,
    }
}

/// Read a message's timestamp for filtering.
pub fn message_timestamp_ms(s: &str) -> (t: u64)
    ensures
        t == spec_message_timestamp(s@),
{
    match parse_rfc3339_ms(s) {
        Some(ms) => if ms >= 0 {
            ms as u64
        } else {
            0
        },
        None => 0,
    }
}

/// What a purge pass knows about one message.
#[derive(Debug)]
pub struct MessageMeta {
    pub id: String,
    pub content: String,
    pub timestamp_ms: u64,
    pub has_attachments: bool,
}

/// Mathematical image of a `MessageMeta`.
pub struct MessageMetaV {
    pub id: Seq<char>,
    pub content: Seq<char>,
    pub timestamp_ms: u64,
    pub has_attachments: bool,
}

impl View for MessageMeta {
    type V = MessageMetaV;

    open spec fn view(&self) -> MessageMetaV {
        MessageMetaV {
            id: self.id@,
            content: self.content@,
            timestamp_ms: self.timestamp_ms,
            has_attachments: self.has_attachments,
        }
    }
}

/// The caller's selection of what a purge deletes.
#[derive(Debug)]
pub struct PurgeFilter {
    /// Ignore messages older than this instant; the pass stops paging a
    /// channel once it reaches them.
    pub start_time_ms: Option<u64>,
    /// Ignore messages newer than this instant.
    pub end_time_ms: Option<u64>,
    /// Delete only messages whose content matches, case-insensitively.
    pub search_query: Option<String>,
    /// Delete only messages carrying attachments.
    pub only_attachments: bool,
}

/// Mathematical image of a `PurgeFilter`.
pub struct PurgeFilterV {
    pub start_time_ms: Option<u64>,
    pub end_time_ms: Option<u64>,
    pub search_query: Option<Seq<char>>,
    pub only_attachments: bool,
}

impl View for PurgeFilter {
    type V = PurgeFilterV;

    open spec fn view(&self) -> PurgeFilterV {
        PurgeFilterV {
            start_time_ms: self.start_time_ms,
            end_time_ms: self.end_time_ms,
            search_query: crate::vault::opt_view(self.search_query),
            only_attachments: self.only_attachments,
        }
    }
}

/// What the purge pass does with one message.
#[derive(Clone, Copy, Debug, PartialEq, Eq, Structural)]
pub enum MessageAction {
    /// The message is selected: delete it, or count it in a simulation.
    Delete,
    /// The message is passed over.
    Skip,
    /// Stop paging this channel: this message and everything older predate
    /// the window.
    StopChannel,
}

/// The purge decision for one message: a message older than the window stops
/// the channel when older pages remain, one newer than the window or without
/// required attachments is passed over, and what is left is deleted exactly
/// when its content matches the query.
pub open spec fn spec_message_action(
    m: MessageMetaV,
    f: PurgeFilterV,
    more_pages: bool,
) -> MessageAction {
    if f.start_time_ms matches Some(start) && m.timestamp_ms < start {
        if more_pages {
            MessageAction::StopChannel
        } else {
            MessageAction::Skip
        }
    } else if f.end_time_ms matches Some(end) && m.timestamp_ms > end {
        MessageAction::Skip
    } else if f.only_attachments && !m.has_attachments {
        MessageAction::Skip
    } else if content_matches(m.content, f.search_query) {
        MessageAction::Delete
    } else {
        MessageAction::Skip
    }
}

/// Decide what the purge pass does with one message.
pub fn message_action(m: &MessageMeta, f: &PurgeFilter, more_pages: bool) -> (a: MessageAction)
    ensures
        a == spec_message_action(m@, f@, more_pages),
{
    if let Some(start) = f.start_time_ms {
        if m.timestamp_ms < start {
            return if more_pages {
                MessageAction::StopChannel
            } else {
                MessageAction::Skip
            };
        }
    }
    if let Some(end) = f.end_time_ms {
        if m.timestamp_ms > end {
            return MessageAction::Skip;
        }
    }
    if f.only_attachments && !m.has_attachments {
        return MessageAction::Skip;
    }
    let matched = matches_query(
        m.content.as_str(),
        match &f.search_query {
            Some(q) => Some(q.as_str()),
            None => None,
        },
    );
    if matched {
        MessageAction::Delete
    } else {
        MessageAction::Skip
    }
}

/// The first position at or after `i` holding the character, or the string's
/// length when it never occurs.
pub open spec fn find_char(s: Seq<char>, c: char, i: int) -> int
    decreases s.len() - i,
    when 0 <= i <= s.len()
{
    if i >= s.len() {
        s.len() as int
    } else if s[i] == c {
        i
    } else {
        find_char(s, c, i + 1)
    }
}

/// The user id embedded in an authentication token: everything before the
/// first dot.
pub open spec fn token_prefix(s: Seq<char>) -> Seq<char> {
    s.subrange(0, find_char(s, '.', 0))
}

/// Extract the user id prefix of an authentication token.
pub fn token_user_prefix(token: &str) -> (p: String)
    ensures
        p@ == token_prefix(token@),
{
    let n = token.unicode_len();
    let mut i: usize = 0;
    while i < n
        invariant
            n == token@.len(),
            i <= n,
            find_char(token@, '.', 0) == find_char(token@, '.', i as int),
        decreases n - i,
    {
        if token.get_char(i) == '.' {
            return token.substring_char(0, i).to_owned();
        }
        i = i + 1;
    }
    proof {
        assert(token@.subrange(0, n as int) =~= token@);
    }
    token.substring_char(0, n).to_owned()
}

/// Whether a webhook was created by the holder of this token: its creator id
/// equals the token's user id prefix.
pub fn webhook_owned_by(creator_id: &str, token: &str) -> (b: bool)
    ensures
        b == (creator_id@ == token_prefix(token@)),
{
    let prefix = token_user_prefix(token);
    crate::route::str_eq(creator_id, prefix.as_str())
}

} // verus!
