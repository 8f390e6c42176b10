//! Channel management: state tracking and message generation for
//! create/join/leave operations.

use vstd::prelude::*;
use crate::error::{MercuryError, Result};
use crate::irc::message::OutboundMessage;
use crate::strmap::StrMap;
use crate::text::{lowercase, owned, to_lower, views};

verus! {

/// Maximum channel name length in bytes.
pub const MAX_CHANNEL_NAME_LEN: usize = 200;

/// The lifecycle state of a single channel from the client's perspective.
#[derive(Debug, Clone, Copy, PartialEq, Eq, Structural)]
pub enum ChannelState {
    /// JOIN sent to server, awaiting confirmation.
    Joining,
    /// Server confirmed membership.
    Joined,
    /// PART sent to server, awaiting echo.
    Parting,
}

/// The characters that may not appear in a channel name:
/// NUL, BEL, CR, LF, space and comma.
pub open spec fn is_forbidden_channel_char(c: char) -> bool {
    c == '\0' || c == '\x07' || c == '\r' || c == '\n' || c == ' ' || c == ','
}

/// A valid channel name: 2 to 200 characters long, starting with `#` or
/// `&`, with none of the forbidden characters.
pub open spec fn valid_channel_name(name: Seq<char>) -> bool {
    &&& 2 <= name.len() <= MAX_CHANNEL_NAME_LEN
    &&& (name[0] == '#' || name[0] == '&')
    &&& forall|i: int| 0 <= i < name.len() ==> !is_forbidden_channel_char(#[trigger] name[i])
}

/// The reason given when a channel name is refused.
pub open spec fn channel_name_reason() -> Seq<char> {
    "must start with # or & and contain no forbidden characters"@
}

/// The state of `name` (looked up case-insensitively) in a channel table.
pub open spec fn state_in(m: Map<Seq<char>, ChannelState>, name: Seq<char>) -> Option<ChannelState> {
    if m.dom().contains(lowercase(name)) {
        Some(m[lowercase(name)])
    } else {
        None
    }
}

/// The table after a JOIN is requested for `name`: a channel not yet tracked
/// becomes `Joining`; a tracked channel keeps its state.
pub open spec fn after_join(m: Map<Seq<char>, ChannelState>, name: Seq<char>) -> Map<Seq<char>, ChannelState> {
    if m.dom().contains(lowercase(name)) {
        m
    } else {
        m.insert(lowercase(name), ChannelState::Joining)
    }
}

/// The table after the server confirms our JOIN of `name`.
pub open spec fn after_confirm_join(m: Map<Seq<char>, ChannelState>, name: Seq<char>) -> Map<Seq<char>, ChannelState> {
    m.insert(lowercase(name), ChannelState::Joined)
}

/// The table after a PART is requested for a tracked channel `name`.
pub open spec fn after_leave(m: Map<Seq<char>, ChannelState>, name: Seq<char>) -> Map<Seq<char>, ChannelState> {
    m.insert(lowercase(name), ChannelState::Parting)
}

/// The table after the server confirms our PART of `name`.
pub open spec fn after_confirm_part(m: Map<Seq<char>, ChannelState>, name: Seq<char>) -> Map<Seq<char>, ChannelState> {
    m.remove(lowercase(name))
}

/// `e` is the error for refusing the channel name `name`.
pub open spec fn is_invalid_channel_error(e: MercuryError, name: Seq<char>) -> bool {
    e matches MercuryError::InvalidChannelName { name: n, reason: r } && n@ == name && r@ == channel_name_reason()
}

/// `msg` is `JOIN name` with the key `key`.
pub open spec fn is_join_message(msg: OutboundMessage, name: Seq<char>, key: Option<Seq<char>>) -> bool {
    msg matches OutboundMessage::Join { channel, key: k } && channel@ == name && match key {
        None => k is None,
        Some(kv) => k matches Some(ks) && ks@ == kv,
    }
}

/// Once the server confirms our JOIN of a channel, the channel reads as joined,
/// under any spelling of its name that lower-cases the same way.
pub proof fn law_confirm_join_joins(m: Map<Seq<char>, ChannelState>, name: Seq<char>, other: Seq<char>)
    requires
        lowercase(other) == lowercase(name),
    ensures
        state_in(after_confirm_join(m, name), other) == Some(ChannelState::Joined),
{
}

/// Requesting a JOIN never changes the state of a channel that is already
/// tracked, and starts an untracked one in `Joining`.
pub proof fn law_join_is_idempotent(m: Map<Seq<char>, ChannelState>, name: Seq<char>)
    ensures
        state_in(m, name) is Some ==> after_join(m, name) == m,
        state_in(m, name) is None ==> state_in(after_join(m, name), name) == Some(ChannelState::Joining),
        after_join(after_join(m, name), name) == after_join(m, name),
{
}

/// Confirming a PART forgets the channel.
pub proof fn law_confirm_part_forgets(m: Map<Seq<char>, ChannelState>, name: Seq<char>)
    ensures
        state_in(after_confirm_part(m, name), name) is None,
{
}

/// Every transition on one channel leaves channels with a different
/// lower-case name untouched.
pub proof fn law_other_channels_untouched(m: Map<Seq<char>, ChannelState>, name: Seq<char>, other: Seq<char>)
    requires
        lowercase(other) != lowercase(name),
    ensures
        state_in(after_join(m, name), other) == state_in(m, other),
        state_in(after_confirm_join(m, name), other) == state_in(m, other),
        state_in(after_leave(m, name), other) == state_in(m, other),
        state_in(after_confirm_part(m, name), other) == state_in(m, other),
{
}

/// Joining an untracked channel, having the join confirmed, leaving it and
/// having the part confirmed returns the channel table to where it started.
pub proof fn law_join_leave_round_trip(m: Map<Seq<char>, ChannelState>, name: Seq<char>)
    requires
        state_in(m, name) is None,
    ensures
        after_confirm_part(after_leave(after_confirm_join(after_join(m, name), name), name), name) == m,
{
    let l = lowercase(name);
    assert(after_confirm_part(after_leave(after_confirm_join(after_join(m, name), name), name), name) =~= m);
}

/// Manages the set of channels a client is in or transitioning through.
pub struct ChannelManager {
    /// Map of lowercase channel name to current state.
    channels: StrMap<ChannelState>,
}

impl Default for ChannelManager {
    fn default() -> (m: Self)
        ensures
            m@ == Map::<Seq<char>, ChannelState>::empty(),
    {
        Self::new()
    }
}

impl ChannelManager {
    /// The channel table: lowercase channel name to state.
    pub closed spec fn view(&self) -> Map<Seq<char>, ChannelState> {
        self.channels@
    }

    pub fn new() -> (m: Self)
        ensures
            m@ == Map::<Seq<char>, ChannelState>::empty(),
    {
        ChannelManager { channels: StrMap::new() }
    }

    /// Returns `true` if `name` is a valid IRC channel name:
    /// it starts with `#` or `&`, holds no NUL, BEL, CR, LF, space or comma,
    /// and is 2 to 200 characters long.
    pub fn is_valid_channel_name(name: &str) -> (r: bool)
        ensures
            r == valid_channel_name(name@),
    {
        let n = name.unicode_len();
        if n < 2 || n > MAX_CHANNEL_NAME_LEN {
            return false;
        }
        let first = name.get_char(0);
        if first != '#' && first != '&' {
            return false;
        }
        let mut i: usize = 0;
        while i < n
            invariant
                n == name@.len(),
                i <= n,
                forall|j: int| 0 <= j < i ==> !is_forbidden_channel_char(#[trigger] name@[j]),
            decreases n - i,
        {
            let ch = name.get_char(i);
            if ch == '\0' || ch == '\x07' || ch == '\r' || ch == '\n' || ch == ' ' || ch == ',' {
                return false;
            }
            i = i + 1;
        }
        true
    }

    /// Build a `JOIN` message for a new channel (on IRC, creating a channel is
    /// joining it first). The channel becomes `Joining` unless already tracked.
    pub fn create_channel(&mut self, name: &str) -> (r: Result<OutboundMessage>)
        ensures
            valid_channel_name(name@) ==> r is Ok && is_join_message(r->Ok_0, name@, None)
                && final(self)@ == after_join(old(self)@, name@),
            !valid_channel_name(name@) ==> r is Err && is_invalid_channel_error(r->Err_0, name@)
                && final(self)@ == old(self)@,
    {
        self.create_channel_with_key_opt(name, None)
    }

    /// Build a `JOIN` message for a new channel with a key.
    pub fn create_channel_with_key(&mut self, name: &str, key: &str) -> (r: Result<OutboundMessage>)
        ensures
            valid_channel_name(name@) ==> r is Ok && is_join_message(r->Ok_0, name@, Some(key@))
                && final(self)@ == after_join(old(self)@, name@),
            !valid_channel_name(name@) ==> r is Err && is_invalid_channel_error(r->Err_0, name@)
                && final(self)@ == old(self)@,
    {
        self.create_channel_with_key_opt(name, Some(owned(key)))
    }

    fn create_channel_with_key_opt(&mut self, name: &str, key: Option<String>) -> (r: Result<OutboundMessage>)
        ensures
            valid_channel_name(name@) ==> r is Ok && is_join_message(r->Ok_0, name@, match key {
                None => None,
                Some(k) => Some(k@),
            }) && final(self)@ == after_join(old(self)@, name@),
            !valid_channel_name(name@) ==> r is Err && is_invalid_channel_error(r->Err_0, name@)
                && final(self)@ == old(self)@,
    {
        if !Self::is_valid_channel_name(name) {
            return Err(MercuryError::InvalidChannelName {
                name: owned(name),
                reason: owned("must start with # or & and contain no forbidden characters"),
            });
        }
        self.track_joining(name);
        Ok(OutboundMessage::Join { channel: owned(name), key })
    }

    /// Mark `name` as `Joining` unless it is already tracked.
    fn track_joining(&mut self, name: &str)
        ensures
            final(self)@ == after_join(old(self)@, name@),
    {
        let lower = to_lower(name);
        if !self.channels.contains_key(lower.as_str()) {
            self.channels.insert(lower, ChannelState::Joining);
        }
    }

    /// Build a `JOIN` message to join an existing channel.
    /// Joining a channel that is already tracked keeps its state (the JOIN may
    /// still be sent; the server echoes it).
    pub fn join(&mut self, name: &str) -> (r: Result<OutboundMessage>)
        ensures
            valid_channel_name(name@) ==> r is Ok && is_join_message(r->Ok_0, name@, None)
                && final(self)@ == after_join(old(self)@, name@),
            !valid_channel_name(name@) ==> r is Err && is_invalid_channel_error(r->Err_0, name@)
                && final(self)@ == old(self)@,
    {
        if !Self::is_valid_channel_name(name) {
            return Err(MercuryError::InvalidChannelName {
                name: owned(name),
                reason: owned("must start with # or & and contain no forbidden characters"),
            });
        }
        self.track_joining(name);
        Ok(OutboundMessage::Join { channel: owned(name), key: None })
    }

    /// Called when the server echoes our JOIN (confirms membership).
    pub fn confirm_join(&mut self, name: &str)
        ensures
            final(self)@ == after_confirm_join(old(self)@, name@),
    {
        let lower = to_lower(name);
        self.channels.insert(lower, ChannelState::Joined);
    }

    /// Build a `PART` message for the given channel. Fails with `NotInChannel`
    /// when the channel is not tracked at all; a channel still `Joining` may be
    /// parted (the server handles it).
    pub fn leave(&mut self, name: &str, reason: Option<&str>) -> (r: Result<OutboundMessage>)
        ensures
            state_in(old(self)@, name@) is Some ==> r is Ok
                && (r->Ok_0 matches OutboundMessage::Part { channel, reason: rs } && channel@ == name@
                    && match reason {
                        None => rs is None,
                        Some(t) => rs matches Some(s) && s@ == t@,
                    })
                && final(self)@ == after_leave(old(self)@, name@),
            state_in(old(self)@, name@) is None ==> r is Err
                && (r->Err_0 matches MercuryError::NotInChannel { channel } && channel@ == name@)
                && final(self)@ == old(self)@,
    {
        let lower = to_lower(name);
        if !self.channels.contains_key(lower.as_str()) {
            return Err(MercuryError::NotInChannel { channel: owned(name) });
        }
        self.channels.insert(lower, ChannelState::Parting);
        let reason_owned = match reason {
            Some(r) => Some(owned(r)),
            None => None,
        };
        Ok(OutboundMessage::Part { channel: owned(name), reason: reason_owned })
    }

    /// Called when the server echoes our PART (confirms we left).
    pub fn confirm_part(&mut self, name: &str)
        ensures
            final(self)@ == after_confirm_part(old(self)@, name@),
    {
        let lower = to_lower(name);
        let _ = self.channels.remove(lower.as_str());
    }

    /// Returns `true` if the channel is in the `Joined` state.
    pub fn is_joined(&self, name: &str) -> (r: bool)
        ensures
            r == (state_in(self@, name@) == Some(ChannelState::Joined)),
    {
        let lower = to_lower(name);
        match self.channels.get(lower.as_str()) {
            Some(s) => *s == ChannelState::Joined,
            None => false,
        }
    }

    /// Returns the current state of a channel, or `None` if unknown.
    pub fn channel_state(&self, name: &str) -> (r: Option<ChannelState>)
        ensures
            r == state_in(self@, name@),
    {
        let lower = to_lower(name);
        match self.channels.get(lower.as_str()) {
            Some(s) => Some(*s),
            None => None,
        }
    }

    /// The lowercase names of the channels in the `Joined` state, each once,
    /// in an unspecified order.
    pub fn joined_channels(&self) -> (r: Vec<String>)
        ensures
            views(r@).no_duplicates(),
            forall|k: Seq<char>| #[trigger] views(r@).contains(k) <==>
                (self@.dom().contains(k) && self@[k] == ChannelState::Joined),
    {
        let keys = self.channels.key_list();
        let ghost kv = views(keys@);
        let mut r: Vec<String> = Vec::new();
        let mut i: usize = 0;
        while i < keys.len()
            invariant
                i <= keys@.len(),
                kv == views(keys@),
                kv.no_duplicates(),
                forall|k: Seq<char>| self@.dom().contains(k) <==> #[trigger] kv.contains(k),
                views(r@).no_duplicates(),
                forall|k: Seq<char>| #[trigger] views(r@).contains(k) ==>
                    (kv.take(i as int).contains(k) && self@[k] == ChannelState::Joined),
                forall|b: int| 0 <= b < i && self@[kv[b]] == ChannelState::Joined ==>
                    #[trigger] views(r@).contains(kv[b]),
            decreases keys@.len() - i,
        {
            let ghost old_r = views(r@);
            let ghost ki = kv[i as int];
            assert(kv[i as int] == keys@[i as int]@);
            assert(kv.contains(ki));
            let st = self.channels.get(keys[i].as_str());
            let is_j = match st {
                Some(s) => *s == ChannelState::Joined,
                None => false,
            };
            assert(is_j == (self@[ki] == ChannelState::Joined));
            let ghost t0 = kv.take(i as int);
            let ghost t1 = kv.take(i as int + 1);
            assert(t1 =~= t0.push(ki));
            assert forall|k: Seq<char>| t0.contains(k) implies t1.contains(k) by {
                let b = choose|b: int| 0 <= b < t0.len() && t0[b] == k;
                assert(t1[b] == k);
            }
            assert(t1[i as int] == ki);
            if is_j {
                r.push(keys[i].clone());
                proof {
                    assert(views(r@) =~= old_r.push(ki));
                    assert forall|a: int| 0 <= a < old_r.len() implies old_r[a] != ki by {
                        assert(old_r.contains(old_r[a]));
                        let b = choose|b: int| 0 <= b < t0.len() && t0[b] == old_r[a];
                        assert(kv[b] != kv[i as int]);
                    }
                    assert forall|k: Seq<char>| #[trigger] views(r@).contains(k) implies
                        (t1.contains(k) && self@[k] == ChannelState::Joined) by {
                        let a = choose|a: int| 0 <= a < views(r@).len() && views(r@)[a] == k;
                        if a < old_r.len() {
                            assert(old_r.contains(k));
                        }
                    }
                    assert forall|b: int| 0 <= b < i + 1 && self@[kv[b]] == ChannelState::Joined implies
                        #[trigger] views(r@).contains(kv[b]) by {
                        if b < i {
                            assert(old_r.contains(kv[b]));
                            let a = choose|a: int| 0 <= a < old_r.len() && old_r[a] == kv[b];
                            assert(views(r@)[a] == kv[b]);
                        } else {
                            assert(views(r@)[old_r.len() as int] == ki);
                        }
                    }
                }
            }
            i = i + 1;
        }
        proof {
            assert(kv.take(i as int) =~= kv);
            assert forall|k: Seq<char>| #[trigger] views(r@).contains(k) <==>
                (self@.dom().contains(k) && self@[k] == ChannelState::Joined) by {
                if self@.dom().contains(k) && self@[k] == ChannelState::Joined {
                    assert(kv.contains(k));
                    let b = choose|b: int| 0 <= b < kv.len() && kv[b] == k;
                }
            }
        }
        r
    }
}


/// A channel name is valid exactly when it is 2 to 200 characters long,
/// starts with `#` or `&`, and holds none of NUL, BEL, CR, LF, space and
/// comma; every other character is allowed.
pub proof fn law_only_six_characters_are_forbidden(name: Seq<char>, c: char)
    ensures
        valid_channel_name(name) <==> (2 <= name.len() <= 200 && (name[0] == '#' || name[0] == '&')
            && forall|i: int| 0 <= i < name.len() ==> {
                let x = #[trigger] name[i];
                x != '\0' && x != '\x07' && x != '\r' && x != '\n' && x != ' ' && x != ','
            }),
        valid_channel_name(name) && name.len() < 200 && c != '\0' && c != '\x07' && c != '\r' && c != '\n'
            && c != ' ' && c != ',' ==> valid_channel_name(name.push(c)),
{
    if valid_channel_name(name) && name.len() < 200 && c != '\0' && c != '\x07' && c != '\r' && c != '\n'
        && c != ' ' && c != ',' {
        let p = name.push(c);
        assert forall|i: int| 0 <= i < p.len() implies !is_forbidden_channel_char(#[trigger] p[i]) by {
            if i < name.len() {
                assert(p[i] == name[i]);
            }
        }
    }
}

} // verus!
