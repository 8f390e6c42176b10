//! User management: local nick tracking, nick validation, NickServ
//! authentication status, and caching of WHOIS / WHO results received from
//! the server.

use vstd::prelude::*;
use crate::error::{MercuryError, Result};
use crate::irc::message::OutboundMessage;
use crate::strmap::StrMap;
use crate::text::{
    ascii_case_eq, cat, eq_ignore_ascii_case, lowercase, owned, split_whitespace, starts_with_char,
    to_lower, views, whitespace_tokens,
};

verus! {

/// The authentication state of the local user with NickServ (or equivalent
/// network services).
///
/// Transitions:
///   connect / own nick change  ->  Unregistered
///   server: "This nickname is registered ..."  ->  Unauthenticated
///   server: "Password accepted" / "now identified"  ->  Authenticated
#[derive(Debug, Clone, Copy, PartialEq, Eq, Default, Structural)]
pub enum NickServStatus {
    /// Nick is not registered with services, or no services are present.
    #[default]
    Unregistered,
    /// Nick is registered but we have not yet successfully identified.
    Unauthenticated,
    /// Successfully identified with services.
    Authenticated,
}

/// Maximum nick length in bytes.
pub const MAX_NICK_LEN: usize = 30;

/// A character that may start a nick: an ASCII letter or one of `[]\^_{|}`.
pub open spec fn is_nick_start_char(c: char) -> bool {
    ||| (65 <= (c as u32) && (c as u32) <= 90)
    ||| (97 <= (c as u32) && (c as u32) <= 122)
    ||| c == '[' || c == ']' || c == '\\' || c == '^' || c == '_' || c == '{' || c == '|' || c == '}'
}

/// A character that may follow the first in a nick: a start character,
/// an ASCII digit or `-`.
pub open spec fn is_nick_rest_char(c: char) -> bool {
    is_nick_start_char(c) || (48 <= (c as u32) && (c as u32) <= 57) || c == '-'
}

/// A valid IRC nickname: 1 to 30 characters, a start character, then rest
/// characters.
pub open spec fn valid_nick(nick: Seq<char>) -> bool {
    &&& 1 <= nick.len() <= MAX_NICK_LEN
    &&& is_nick_start_char(nick[0])
    &&& forall|i: int| 1 <= i < nick.len() ==> is_nick_rest_char(#[trigger] nick[i])
}

/// The reason given when a nickname is refused.
pub open spec fn nick_reason() -> Seq<char> {
    "must be 1\u{2013}30 chars, starting with a letter or []\\^_{|}"@
}

fn is_nick_start(c: char) -> (r: bool)
    ensures
        r == is_nick_start_char(c),
{
    let x = c as u32;
    (65 <= x && x <= 90) || (97 <= x && x <= 122) || c == '[' || c == ']' || c == '\\' || c == '^'
        || c == '_' || c == '{' || c == '|' || c == '}'
}

fn is_nick_rest(c: char) -> (r: bool)
    ensures
        r == is_nick_rest_char(c),
{
    let x = c as u32;
    is_nick_start(c) || (48 <= x && x <= 57) || c == '-'
}

/// Returns `true` if `nick` is a valid IRC nickname: 1 to 30 bytes, starting
/// with a letter or one of `[]\^_{|}`, then letters, digits, `-` or `[]\^_{|}`.
pub fn is_valid_nick(nick: &str) -> (r: bool)
    ensures
        r == valid_nick(nick@),
{
    let n = nick.unicode_len();
    if n == 0 || n > MAX_NICK_LEN {
        return false;
    }
    if !is_nick_start(nick.get_char(0)) {
        return false;
    }
    let mut i: usize = 1;
    while i < n
        invariant
            n == nick@.len(),
            1 <= i <= n,
            forall|j: int| 1 <= j < i ==> is_nick_rest_char(#[trigger] nick@[j]),
        decreases n - i,
    {
        if !is_nick_rest(nick.get_char(i)) {
            return false;
        }
        i = i + 1;
    }
    true
}

/// Information about a remote user, populated from server WHOIS replies.
#[derive(Debug, Clone, PartialEq, Eq, Default)]
pub struct WhoisInfo {
    /// The nick that was queried.
    pub nick: String,
    /// Reported username (ident).
    pub username: String,
    /// Reported hostname.
    pub host: String,
    /// Reported real name.
    pub realname: String,
    /// Server the user is connected to.
    pub server: String,
    /// Server description / info string.
    pub server_info: String,
    /// Channels the user is in.
    pub channels: Vec<String>,
    /// Whether the user is identified to services.
    pub is_identified: bool,
    /// Services account name, if reported.
    pub account: Option<String>,
}

/// The contents of a `WhoisInfo`.
pub struct WhoisRecord {
    pub nick: Seq<char>,
    pub username: Seq<char>,
    pub host: Seq<char>,
    pub realname: Seq<char>,
    pub server: Seq<char>,
    pub server_info: Seq<char>,
    pub channels: Seq<Seq<char>>,
    pub is_identified: bool,
    pub account: Option<Seq<char>>,
}

impl View for WhoisInfo {
    type V = WhoisRecord;

    open spec fn view(&self) -> WhoisRecord {
        WhoisRecord {
            nick: self.nick@,
            username: self.username@,
            host: self.host@,
            realname: self.realname@,
            server: self.server@,
            server_info: self.server_info@,
            channels: views(self.channels@),
            is_identified: self.is_identified,
            account: match self.account {
                Some(a) => Some(a@),
                None => None,
            },
        }
    }
}

/// A single entry from a WHO reply.
#[derive(Debug, Clone, PartialEq, Eq)]
pub struct WhoEntry {
    pub nick: String,
    pub username: String,
    pub host: String,
    pub server: String,
    pub realname: String,
    pub away: bool,
}

/// The contents of a `WhoEntry`.
pub struct WhoRecord {
    pub nick: Seq<char>,
    pub username: Seq<char>,
    pub host: Seq<char>,
    pub server: Seq<char>,
    pub realname: Seq<char>,
    pub away: bool,
}

impl View for WhoEntry {
    type V = WhoRecord;

    open spec fn view(&self) -> WhoRecord {
        WhoRecord {
            nick: self.nick@,
            username: self.username@,
            host: self.host@,
            server: self.server@,
            realname: self.realname@,
            away: self.away,
        }
    }
}

/// The contents of each WHO entry of a list.
pub open spec fn who_views(v: Seq<WhoEntry>) -> Seq<WhoRecord> {
    v.map_values(|e: WhoEntry| e@)
}

/// The state tracked for the local user.
pub struct UserState {
    /// The nick in use (confirmed by the server).
    pub nick: Seq<char>,
    /// A requested nick change not yet confirmed.
    pub pending: Option<Seq<char>>,
    pub status: NickServStatus,
    /// Cached WHOIS results, keyed by lower-case nick.
    pub whois: Map<Seq<char>, WhoisRecord>,
    /// WHO results, in the order received.
    pub who: Seq<WhoRecord>,
}

/// The WHOIS record a reply about `nick` updates: the cached one, or an empty
/// record for `nick`.
pub open spec fn whois_base(cache: Map<Seq<char>, WhoisRecord>, nick: Seq<char>) -> WhoisRecord {
    if cache.dom().contains(lowercase(nick)) {
        cache[lowercase(nick)]
    } else {
        WhoisRecord {
            nick: nick,
            username: Seq::empty(),
            host: Seq::empty(),
            realname: Seq::empty(),
            server: Seq::empty(),
            server_info: Seq::empty(),
            channels: Seq::empty(),
            is_identified: false,
            account: None,
        }
    }
}

/// Whether a NICK echo from `old_nick` to `new_nick` is our own nick change:
/// it confirms our pending request, or it renames our current nick
/// (nicks compared ignoring ASCII case).
pub open spec fn is_own_nick_change(s: UserState, old_nick: Seq<char>, new_nick: Seq<char>) -> bool {
    (s.pending matches Some(p) && ascii_case_eq(p, new_nick)) || ascii_case_eq(s.nick, old_nick)
}

/// The user state after a NICK echo from `old_nick` to `new_nick`: the cached
/// WHOIS of the old nick is dropped; if the change is ours, the new nick is
/// current, nothing is pending and the NickServ status is `Unregistered`.
pub open spec fn after_nick_change(s: UserState, old_nick: Seq<char>, new_nick: Seq<char>) -> UserState {
    let whois = s.whois.remove(lowercase(old_nick));
    if is_own_nick_change(s, old_nick, new_nick) {
        UserState { nick: new_nick, pending: None, status: NickServStatus::Unregistered, whois: whois, who: s.who }
    } else {
        UserState { whois: whois, ..s }
    }
}

/// The user state after RPL_WHOISUSER about `nick`.
pub open spec fn after_whois_user(s: UserState, nick: Seq<char>, username: Seq<char>, host: Seq<char>, realname: Seq<char>) -> UserState {
    UserState {
        whois: s.whois.insert(lowercase(nick), WhoisRecord {
            username: username,
            host: host,
            realname: realname,
            ..whois_base(s.whois, nick)
        }),
        ..s
    }
}

/// The user state after RPL_WHOISSERVER about `nick`.
pub open spec fn after_whois_server(s: UserState, nick: Seq<char>, server: Seq<char>, server_info: Seq<char>) -> UserState {
    UserState {
        whois: s.whois.insert(lowercase(nick), WhoisRecord {
            server: server,
            server_info: server_info,
            ..whois_base(s.whois, nick)
        }),
        ..s
    }
}

/// The user state after RPL_WHOISCHANNELS about `nick`.
pub open spec fn after_whois_channels(s: UserState, nick: Seq<char>, channels: Seq<char>) -> UserState {
    UserState {
        whois: s.whois.insert(lowercase(nick), WhoisRecord {
            channels: whitespace_tokens(channels),
            ..whois_base(s.whois, nick)
        }),
        ..s
    }
}

/// The user state after a nick change to `new_nick` is requested: pending
/// when the nick is valid, unchanged otherwise.
pub open spec fn after_nick_request(s: UserState, new_nick: Seq<char>) -> UserState {
    if valid_nick(new_nick) {
        UserState { pending: Some(new_nick), ..s }
    } else {
        s
    }
}

/// The WHO entries that do not name `nick` (ignoring ASCII case).
pub open spec fn other_nick(nick: Seq<char>) -> spec_fn(WhoRecord) -> bool {
    |e: WhoRecord| !ascii_case_eq(e.nick, nick)
}

/// The WHO results after a reply `rec`: any entry for the same nick is dropped
/// and `rec` is appended.
pub open spec fn after_who_reply(who: Seq<WhoRecord>, rec: WhoRecord) -> Seq<WhoRecord> {
    who.filter(other_nick(rec.nick)).push(rec)
}

/// No two WHO entries name the same nick (ignoring ASCII case).
pub open spec fn who_nicks_distinct(who: Seq<WhoRecord>) -> bool {
    forall|i: int, j: int| 0 <= i < j < who.len() ==> !ascii_case_eq(#[trigger] who[i].nick, #[trigger] who[j].nick)
}

proof fn lemma_filter_keeps_nicks_distinct(s: Seq<WhoRecord>, p: spec_fn(WhoRecord) -> bool)
    requires
        who_nicks_distinct(s),
    ensures
        who_nicks_distinct(s.filter(p)),
    decreases s.len(),
{
    broadcast use vstd::seq_lib::group_filter_ensures;
    reveal(Seq::filter);
    if s.len() > 0 {
        let d = s.drop_last();
        assert(who_nicks_distinct(d)) by {
            assert forall|i: int, j: int| 0 <= i < j < d.len() implies !ascii_case_eq(#[trigger] d[i].nick, #[trigger] d[j].nick) by {
                assert(d[i] == s[i] && d[j] == s[j]);
            }
        }
        lemma_filter_keeps_nicks_distinct(d, p);
        let f = d.filter(p);
        if p(s.last()) {
            let g = f.push(s.last());
            assert(s.filter(p) == g);
            assert forall|i: int, j: int| 0 <= i < j < g.len() implies !ascii_case_eq(#[trigger] g[i].nick, #[trigger] g[j].nick) by {
                if j == g.len() - 1 {
                    assert(f.contains(g[i]));
                    d.lemma_filter_contains_rev(p, g[i]);
                    let k = choose|k: int| 0 <= k < d.len() && d[k] == g[i];
                    assert(s[k] == g[i]);
                    assert(s[s.len() - 1] == g[j]);
                } else {
                    assert(g[i] == f[i] && g[j] == f[j]);
                }
            }
        }
    }
}

/// After a WHO reply the results never hold two entries for the same nick
/// (ignoring ASCII case), provided they did not before; the reply is the
/// last entry.
pub proof fn law_who_reply_keeps_nicks_distinct(who: Seq<WhoRecord>, rec: WhoRecord)
    requires
        who_nicks_distinct(who),
    ensures
        who_nicks_distinct(after_who_reply(who, rec)),
        after_who_reply(who, rec).last() == rec,
{
    broadcast use vstd::seq_lib::group_filter_ensures;
    lemma_filter_keeps_nicks_distinct(who, other_nick(rec.nick));
    let f = who.filter(other_nick(rec.nick));
    let g = f.push(rec);
    assert forall|i: int, j: int| 0 <= i < j < g.len() implies !ascii_case_eq(#[trigger] g[i].nick, #[trigger] g[j].nick) by {
        if j == g.len() - 1 {
            assert(other_nick(rec.nick)(f[i]));
        } else {
            assert(g[i] == f[i] && g[j] == f[j]);
        }
    }
}

/// Requesting a nick change and then receiving its echo is our own nick
/// change, whatever the old nick in the echo: the requested nick becomes
/// current.
pub proof fn law_requested_nick_is_confirmed(s: UserState, old_nick: Seq<char>, new_nick: Seq<char>)
    requires
        s.pending == Some(new_nick),
    ensures
        is_own_nick_change(s, old_nick, new_nick),
{
    assert(ascii_case_eq(new_nick, new_nick));
}

/// A NICK echo that neither confirms our pending request nor renames our
/// current nick is someone else's: our nick and NickServ status stay.
pub proof fn law_other_nick_change_is_not_ours(s: UserState, old_nick: Seq<char>, new_nick: Seq<char>)
    requires
        !ascii_case_eq(s.nick, old_nick),
        s.pending is None,
    ensures
        !is_own_nick_change(s, old_nick, new_nick),
{
}

/// Our own nick change always resets the NickServ status to
/// unregistered, and the new nick becomes current.
pub proof fn law_own_nick_change_resets_nickserv(s: UserState, old_nick: Seq<char>, new_nick: Seq<char>)
    requires
        is_own_nick_change(s, old_nick, new_nick),
    ensures
        after_nick_change(s, old_nick, new_nick).status == NickServStatus::Unregistered,
        after_nick_change(s, old_nick, new_nick).nick == new_nick,
        after_nick_change(s, old_nick, new_nick).pending is None,
{
}

/// A nick change, ours or another user's, drops the cached WHOIS of the old
/// nick and keeps every other cached entry.
pub proof fn law_nick_change_invalidates_whois(s: UserState, old_nick: Seq<char>, new_nick: Seq<char>, other: Seq<char>)
    requires
        other != lowercase(old_nick),
    ensures
        !after_nick_change(s, old_nick, new_nick).whois.dom().contains(lowercase(old_nick)),
        after_nick_change(s, old_nick, new_nick).whois.dom().contains(other) == s.whois.dom().contains(other),
        s.whois.dom().contains(other) ==> after_nick_change(s, old_nick, new_nick).whois[other] == s.whois[other],
{
}

/// WHOIS results are cached by nick without regard to its case: whatever
/// capitalisation a reply uses, a lookup under any spelling that lower-cases
/// the same way finds it.
pub proof fn law_whois_cached_under_any_case(s: UserState, nick: Seq<char>, other: Seq<char>, username: Seq<char>, host: Seq<char>, realname: Seq<char>)
    requires
        lowercase(other) == lowercase(nick),
    ensures
        after_whois_user(s, nick, username, host, realname).whois.dom().contains(lowercase(other)),
        after_whois_user(s, nick, username, host, realname).whois[lowercase(other)].username == username,
{
}

/// Tracks the local user's nickname, pending nick changes, NickServ auth
/// status, and cached WHOIS / WHO results from the server.
pub struct UserManager {
    current_nick: String,
    pending_nick: Option<String>,
    nickserv_status: NickServStatus,
    whois_cache: StrMap<WhoisInfo>,
    who_results: Vec<WhoEntry>,
}

impl UserManager {
    pub closed spec fn view(&self) -> UserState {
        UserState {
            nick: self.current_nick@,
            pending: match self.pending_nick {
                Some(p) => Some(p@),
                None => None,
            },
            status: self.nickserv_status,
            whois: self.whois_cache@.map_values(|w: WhoisInfo| w@),
            who: who_views(self.who_results@),
        }
    }

    /// Create a new `UserManager` with the given starting nick.
    /// Returns `Err` if `nick` is not a valid IRC nickname.
    pub fn new(nick: &str) -> (r: Result<Self>)
        ensures
            valid_nick(nick@) ==> (r matches Ok(m) && m@ == (UserState {
                nick: nick@,
                pending: None,
                status: NickServStatus::Unregistered,
                whois: Map::empty(),
                who: Seq::empty(),
            })),
            !valid_nick(nick@) ==> (r matches Err(MercuryError::InvalidNick { nick: n, reason })
                && n@ == nick@ && reason@ == nick_reason()),
    {
        if !is_valid_nick(nick) {
            return Err(MercuryError::InvalidNick {
                nick: owned(nick),
                reason: owned("must be 1\u{2013}30 chars, starting with a letter or []\\^_{|}"),
            });
        }
        let m = UserManager {
            current_nick: owned(nick),
            pending_nick: None,
            nickserv_status: NickServStatus::Unregistered,
            whois_cache: StrMap::new(),
            who_results: Vec::new(),
        };
        proof {
            assert(m@.whois =~= Map::<Seq<char>, WhoisRecord>::empty());
            assert(m@.who =~= Seq::<WhoRecord>::empty());
        }
        Ok(m)
    }

    /// The nick currently in use (server-confirmed).
    pub fn current_nick(&self) -> (r: &str)
        ensures
            r@ == self@.nick,
    {
        self.current_nick.as_str()
    }

    /// A pending nick that has been requested but not yet confirmed.
    pub fn pending_nick(&self) -> (r: Option<&str>)
        ensures
            match r {
                Some(p) => self@.pending == Some(p@),
                None => self@.pending is None,
            },
    {
        match &self.pending_nick {
            Some(p) => Some(p.as_str()),
            None => None,
        }
    }

    /// Current NickServ authentication status.
    pub fn nickserv_status(&self) -> (r: NickServStatus)
        ensures
            r == self@.status,
    {
        self.nickserv_status
    }

    /// Update the NickServ authentication status.
    pub fn set_nickserv_status(&mut self, status: NickServStatus)
        ensures
            final(self)@ == (UserState { status: status, ..old(self)@ }),
    {
        self.nickserv_status = status;
    }

    /// Build a `NICK` message to request a nick change, and record the
    /// pending nick. Returns `Err` if `new_nick` is invalid.
    pub fn request_nick_change(&mut self, new_nick: &str) -> (r: Result<OutboundMessage>)
        ensures
            final(self)@ == after_nick_request(old(self)@, new_nick@),
            valid_nick(new_nick@) ==> (r matches Ok(OutboundMessage::Nick { new_nick: n }) && n@ == new_nick@),
            !valid_nick(new_nick@) ==> (r matches Err(MercuryError::InvalidNick { nick: n, reason })
                && n@ == new_nick@ && reason@ == nick_reason()),
    {
        if !is_valid_nick(new_nick) {
            return Err(MercuryError::InvalidNick {
                nick: owned(new_nick),
                reason: owned("must be 1\u{2013}30 chars, starting with a letter or []\\^_{|}"),
            });
        }
        self.pending_nick = Some(owned(new_nick));
        Ok(OutboundMessage::Nick { new_nick: owned(new_nick) })
    }

    /// Called when the server echoes a NICK change (ours or another user's).
    /// The cached WHOIS for the old nick is dropped. If the change is ours
    /// (it matches the pending nick, or renames our current nick), the current
    /// nick becomes `new_nick`, the pending request is cleared and the
    /// NickServ status resets to `Unregistered`.
    pub fn confirm_nick_change(&mut self, old_nick: &str, new_nick: &str)
        ensures
            final(self)@ == after_nick_change(old(self)@, old_nick@, new_nick@),
    {
        let key = to_lower(old_nick);
        let _ = self.whois_cache.remove(key.as_str());
        proof {
            assert(self@.whois =~= old(self)@.whois.remove(lowercase(old_nick@)));
        }
        let pending_match = match &self.pending_nick {
            Some(p) => eq_ignore_ascii_case(p.as_str(), new_nick),
            None => false,
        };
        if pending_match || eq_ignore_ascii_case(self.current_nick.as_str(), old_nick) {
            self.current_nick = owned(new_nick);
            self.pending_nick = None;
            self.nickserv_status = NickServStatus::Unregistered;
        }
    }

    /// Build a `WHOIS` message for the given nick.
    pub fn build_whois(&self, nick: &str) -> (r: Result<OutboundMessage>)
        ensures
            nick@.len() > 0 ==> (r matches Ok(OutboundMessage::Whois { nick: n }) && n@ == nick@),
            nick@.len() == 0 ==> (r matches Err(MercuryError::InvalidNick { nick: n, reason })
                && n@ == nick@ && reason@ == "nick must not be empty"@),
    {
        if nick.is_empty() {
            return Err(MercuryError::InvalidNick {
                nick: owned(nick),
                reason: owned("nick must not be empty"),
            });
        }
        Ok(OutboundMessage::Whois { nick: owned(nick) })
    }

    /// Take the cached WHOIS entry for `nick` out of the cache, or make an
    /// empty one.
    fn take_whois(&mut self, nick: &str) -> (r: (String, WhoisInfo))
        ensures
            r.0@ == lowercase(nick@),
            r.1@ == whois_base(old(self)@.whois, nick@),
            final(self)@ == (UserState { whois: old(self)@.whois.remove(lowercase(nick@)), ..old(self)@ }),
    {
        let key = to_lower(nick);
        let entry = match self.whois_cache.remove(key.as_str()) {
            Some(e) => e,
            None => WhoisInfo {
                nick: owned(nick),
                username: String::new(),
                host: String::new(),
                realname: String::new(),
                server: String::new(),
                server_info: String::new(),
                channels: Vec::new(),
                is_identified: false,
                account: None,
            },
        };
        proof {
            assert(self@.whois =~= old(self)@.whois.remove(lowercase(nick@)));
            if !old(self)@.whois.dom().contains(lowercase(nick@)) {
                assert(views(entry.channels@) =~= Seq::<Seq<char>>::empty());
            }
        }
        (key, entry)
    }

    /// Put a WHOIS entry back into the cache under `key`.
    fn put_whois(&mut self, key: String, entry: WhoisInfo)
        ensures
            final(self)@ == (UserState { whois: old(self)@.whois.insert(key@, entry@), ..old(self)@ }),
    {
        self.whois_cache.insert(key, entry);
        proof {
            assert(self@.whois =~= old(self)@.whois.insert(key@, entry@));
        }
    }

    /// Update the WHOIS cache from RPL_WHOISUSER: username, host, real name.
    pub fn handle_whois_user(&mut self, nick: &str, username: &str, host: &str, realname: &str)
        ensures
            final(self)@ == after_whois_user(old(self)@, nick@, username@, host@, realname@),
    {
        let (key, mut entry) = self.take_whois(nick);
        entry.username = owned(username);
        entry.host = owned(host);
        entry.realname = owned(realname);
        self.put_whois(key, entry);
        proof {
            assert(self@.whois =~= old(self)@.whois.insert(lowercase(nick@), WhoisRecord {
                username: username@,
                host: host@,
                realname: realname@,
                ..whois_base(old(self)@.whois, nick@)
            }));
        }
    }

    /// Update the WHOIS cache from RPL_WHOISSERVER: server and server info.
    pub fn handle_whois_server(&mut self, nick: &str, server: &str, server_info: &str)
        ensures
            final(self)@ == after_whois_server(old(self)@, nick@, server@, server_info@),
    {
        let (key, mut entry) = self.take_whois(nick);
        entry.server = owned(server);
        entry.server_info = owned(server_info);
        self.put_whois(key, entry);
        proof {
            assert(self@.whois =~= old(self)@.whois.insert(lowercase(nick@), WhoisRecord {
                server: server@,
                server_info: server_info@,
                ..whois_base(old(self)@.whois, nick@)
            }));
        }
    }

    /// Update the WHOIS cache from RPL_WHOISCHANNELS: the channel list is the
    /// whitespace-separated words of `channels_str`.
    pub fn handle_whois_channels(&mut self, nick: &str, channels_str: &str)
        ensures
            final(self)@ == after_whois_channels(old(self)@, nick@, channels_str@),
    {
        let (key, mut entry) = self.take_whois(nick);
        entry.channels = split_whitespace(channels_str);
        self.put_whois(key, entry);
        proof {
            assert(self@.whois =~= old(self)@.whois.insert(lowercase(nick@), WhoisRecord {
                channels: whitespace_tokens(channels_str@),
                ..whois_base(old(self)@.whois, nick@)
            }));
        }
    }

    /// Update the WHOIS cache from RPL_WHOISACCOUNT / RPL_WHOISREGNICK: the
    /// user is identified, with the given account.
    pub fn handle_whois_account(&mut self, nick: &str, account: &str)
        ensures
            final(self)@ == (UserState {
                whois: old(self)@.whois.insert(lowercase(nick@), WhoisRecord {
                    is_identified: true,
                    account: Some(account@),
                    ..whois_base(old(self)@.whois, nick@)
                }),
                ..old(self)@
            }),
    {
        let (key, mut entry) = self.take_whois(nick);
        entry.is_identified = true;
        entry.account = Some(owned(account));
        self.put_whois(key, entry);
        proof {
            assert(self@.whois =~= old(self)@.whois.insert(lowercase(nick@), WhoisRecord {
                is_identified: true,
                account: Some(account@),
                ..whois_base(old(self)@.whois, nick@)
            }));
        }
    }

    /// Retrieve a cached WHOIS result for `nick` (looked up case-insensitively).
    pub fn whois_info(&self, nick: &str) -> (r: Option<&WhoisInfo>)
        ensures
            match r {
                Some(w) => self@.whois.dom().contains(lowercase(nick@)) && w@ == self@.whois[lowercase(nick@)],
                None => !self@.whois.dom().contains(lowercase(nick@)),
            },
    {
        let key = to_lower(nick);
        self.whois_cache.get(key.as_str())
    }

    /// Build a `WHO` message for the given mask (nick, channel, or wildcard).
    pub fn build_who(&self, mask: &str) -> (r: Result<OutboundMessage>)
        ensures
            mask@.len() > 0 ==> (r matches Ok(OutboundMessage::Who { mask: m }) && m@ == mask@),
            mask@.len() == 0 ==> (r matches Err(MercuryError::InvalidNick { nick: n, reason })
                && n@ == mask@ && reason@ == "WHO mask must not be empty"@),
    {
        if mask.is_empty() {
            return Err(MercuryError::InvalidNick {
                nick: owned(mask),
                reason: owned("WHO mask must not be empty"),
            });
        }
        Ok(OutboundMessage::Who { mask: owned(mask) })
    }

    /// Record a single WHO reply entry (RPL_WHOREPLY), replacing any previous
    /// entry for the same nick. The user is away when `flags` starts with `G`.
    pub fn handle_who_reply(
        &mut self,
        nick: &str,
        username: &str,
        host: &str,
        server: &str,
        flags: &str,
        realname: &str,
    )
        ensures
            final(self)@ == (UserState {
                who: after_who_reply(old(self)@.who, WhoRecord {
                    nick: nick@,
                    username: username@,
                    host: host@,
                    server: server@,
                    realname: realname@,
                    away: flags@.len() > 0 && flags@[0] == 'G',
                }),
                ..old(self)@
            }),
    {
        let ghost orig = who_views(self.who_results@);
        let ghost pred = other_nick(nick@);
        let mut rest: Vec<WhoEntry> = Vec::new();
        std::mem::swap(&mut rest, &mut self.who_results);
        let mut kept: Vec<WhoEntry> = Vec::new();
        while rest.len() > 0
            invariant
                pred == other_nick(nick@),
                orig.len() >= rest@.len(),
                who_views(rest@) == orig.skip(orig.len() - rest@.len()),
                who_views(kept@) == orig.take(orig.len() - rest@.len()).filter(pred),
            decreases rest@.len(),
        {
            let ghost c = orig.len() - rest@.len();
            let ghost old_rest = rest@;
            let e = rest.remove(0);
            proof {
                assert(who_views(old_rest)[0] == orig.skip(c)[0]);
                assert(orig.skip(c)[0] == orig[c]);
                assert(e@ == orig[c]);
                assert(rest@ =~= old_rest.subrange(1, old_rest.len() as int));
                assert forall|k: int| 0 <= k < rest@.len() implies #[trigger] who_views(rest@)[k] == orig.skip(c + 1)[k] by {
                    assert(rest@[k] == old_rest[k + 1]);
                    assert(who_views(old_rest)[k + 1] == orig.skip(c)[k + 1]);
                }
                assert(who_views(rest@) =~= orig.skip(c + 1));
                assert(other_nick(nick@)(orig[c]) == !ascii_case_eq(orig[c].nick, nick@));
                assert(pred(orig[c]) == !ascii_case_eq(e@.nick, nick@));
                assert(orig.take(c + 1) =~= orig.take(c).push(orig[c]));
                orig.take(c).lemma_filter_push(orig[c], pred);
            }
            if !eq_ignore_ascii_case(e.nick.as_str(), nick) {
                kept.push(e);
                proof {
                    assert(who_views(kept@) =~= orig.take(c).filter(pred).push(orig[c]));
                }
            }
        }
        proof {
            assert(orig.take(orig.len() as int) =~= orig);
        }
        let entry = WhoEntry {
            nick: owned(nick),
            username: owned(username),
            host: owned(host),
            server: owned(server),
            away: starts_with_char(flags, 'G'),
            realname: owned(realname),
        };
        kept.push(entry);
        self.who_results = kept;
        proof {
            assert(who_views(self.who_results@) =~= orig.filter(pred).push(entry@));
        }
    }

    /// All stored WHO results, in the order they were received.
    pub fn who_results(&self) -> (r: &[WhoEntry])
        ensures
            who_views(r@) == self@.who,
    {
        self.who_results.as_slice()
    }

    /// Clear stored WHO results (call before issuing a new WHO).
    pub fn clear_who_results(&mut self)
        ensures
            final(self)@ == (UserState { who: Seq::empty(), ..old(self)@ }),
    {
        self.who_results.clear();
        proof {
            assert(who_views(self.who_results@) =~= Seq::<WhoRecord>::empty());
        }
    }

    /// Build a `PRIVMSG NickServ :IDENTIFY <password>` message.
    pub fn build_identify(&self, password: &str) -> (r: OutboundMessage)
        ensures
            r matches OutboundMessage::NickServ { text } && text@ == "IDENTIFY "@ + password@,
    {
        OutboundMessage::NickServ { text: cat(owned("IDENTIFY "), password) }
    }

    /// Build a `PRIVMSG NickServ :REGISTER <password> <email>` message.
    pub fn build_register(&self, password: &str, email: &str) -> (r: OutboundMessage)
        ensures
            r matches OutboundMessage::NickServ { text } && text@ == "REGISTER "@ + password@ + " "@ + email@,
    {
        OutboundMessage::NickServ { text: cat(cat(cat(owned("REGISTER "), password), " "), email) }
    }

    /// Build an arbitrary `PRIVMSG NickServ :<text>` message.
    pub fn build_nickserv(&self, text: &str) -> (r: OutboundMessage)
        ensures
            r matches OutboundMessage::NickServ { text: t } && t@ == text@,
    {
        OutboundMessage::NickServ { text: owned(text) }
    }
}

} // verus!
