//! Application state: the single source of truth for the terminal interface.

use vstd::prelude::*;
use crate::irc::channel::{ChannelManager, ChannelState};
use crate::irc::client::{config_args_ok, fresh_config, ClientConfig, ClientState, ConfigView, IrcClient};
use crate::irc::message::OutboundMessage;
use crate::irc::user::{valid_nick, NickServStatus, UserManager, UserState};
use crate::order::{
    listing_of, lemma_listing_of, lemma_seq_lt_irreflexive, lemma_seq_lt_transitive, lemma_sorting_lists, seq_lt,
    sort_strings, sorted_by, stable_sorted, str_lt, str_order, strict_order,
};
use crate::strmap::StrMap;
use crate::text::{lowercase, owned, pop_char, push_char, str_eq, to_lower, views};

verus! {

/// A chat line: who said what.
#[derive(Debug, Clone)]
pub struct ChatMessage {
    pub nick: String,
    pub text: String,
}

/// A line of a message buffer.
#[derive(Debug, Clone)]
pub enum BufferLine {
    Chat(ChatMessage),
    System(String),
}

/// The contents of a `BufferLine`.
pub enum LineView {
    Chat { nick: Seq<char>, text: Seq<char> },
    System(Seq<char>),
}

impl View for BufferLine {
    type V = LineView;

    open spec fn view(&self) -> LineView {
        match self {
            BufferLine::Chat(m) => LineView::Chat { nick: m.nick@, text: m.text@ },
            BufferLine::System(s) => LineView::System(s@),
        }
    }
}

pub open spec fn line_views(v: Seq<BufferLine>) -> Seq<LineView> {
    v.map_values(|l: BufferLine| l@)
}

/// A single member of a channel as reported by the server.
#[derive(Debug, Clone, PartialEq, Eq)]
pub struct MemberEntry {
    /// Display nick, spelled as the server gave it.
    pub nick: String,
    pub is_op: bool,
    pub is_voiced: bool,
}

/// The contents of a `MemberEntry`.
pub struct MemberView {
    pub nick: Seq<char>,
    pub is_op: bool,
    pub is_voiced: bool,
}

impl View for MemberEntry {
    type V = MemberView;

    open spec fn view(&self) -> MemberView {
        MemberView { nick: self.nick@, is_op: self.is_op, is_voiced: self.is_voiced }
    }
}

pub open spec fn member_views(v: Seq<MemberEntry>) -> Seq<MemberView> {
    v.map_values(|m: MemberEntry| m@)
}

impl MemberEntry {
    pub fn new(nick: &str) -> (m: Self)
        ensures
            m@ == (MemberView { nick: nick@, is_op: false, is_voiced: false }),
    {
        MemberEntry { nick: owned(nick), is_op: false, is_voiced: false }
    }

    /// The same member, as an operator.
    pub fn op(self) -> (m: Self)
        ensures
            m@ == (MemberView { is_op: true, ..self@ }),
    {
        MemberEntry { is_op: true, ..self }
    }

    /// The same member, with voice.
    pub fn voiced(self) -> (m: Self)
        ensures
            m@ == (MemberView { is_voiced: true, ..self@ }),
    {
        MemberEntry { is_voiced: true, ..self }
    }
}

/// Where a member is listed: operators, then voiced members, then the rest.
pub open spec fn rank(m: MemberView) -> int {
    if m.is_op {
        0
    } else if m.is_voiced {
        1
    } else {
        2
    }
}

/// `a` is listed before `b`: by rank, then by lower-case nick.
pub open spec fn member_lt(a: MemberView, b: MemberView) -> bool {
    rank(a) < rank(b) || (rank(a) == rank(b) && seq_lt(lowercase(a.nick), lowercase(b.nick)))
}

/// The member list order, as a spec closure.
pub open spec fn member_order() -> spec_fn(MemberView, MemberView) -> bool {
    |a: MemberView, b: MemberView| member_lt(a, b)
}

/// The member list order is a strict order.
pub proof fn lemma_member_order_strict()
    ensures
        strict_order(member_order()),
{
    assert forall|a: MemberView| !#[trigger] member_order()(a, a) by {
        lemma_seq_lt_irreflexive(lowercase(a.nick));
    }
    assert forall|a: MemberView, b: MemberView, c: MemberView|
        #[trigger] member_order()(a, b) && #[trigger] member_order()(b, c) implies member_order()(a, c) by {
        if rank(a) == rank(b) && rank(b) == rank(c) {
            lemma_seq_lt_transitive(lowercase(a.nick), lowercase(b.nick), lowercase(c.nick));
        }
    }
}

/// `m`'s nick is `nick`, ignoring case.
pub open spec fn same_nick(m: MemberView, nick: Seq<char>) -> bool {
    lowercase(m.nick) == lowercase(nick)
}

/// The members whose nick is not `nick` (ignoring case).
pub open spec fn not_nick(nick: Seq<char>) -> spec_fn(MemberView) -> bool {
    |m: MemberView| !same_nick(m, nick)
}

/// The position of the first member named `nick` (ignoring case), or the
/// length of the list when there is none.
pub open spec fn first_member(l: Seq<MemberView>, nick: Seq<char>) -> int
    decreases l.len(),
{
    if l.len() == 0 {
        0
    } else if same_nick(l[0], nick) {
        0
    } else {
        1 + first_member(l.drop_first(), nick)
    }
}

/// The list with the first member named `old` (ignoring case) renamed `new`.
pub open spec fn rename_first(l: Seq<MemberView>, old: Seq<char>, new: Seq<char>) -> Seq<MemberView> {
    let i = first_member(l, old);
    if i < l.len() {
        l.update(i, MemberView { nick: new, ..l[i] })
    } else {
        l
    }
}

proof fn lemma_first_member(l: Seq<MemberView>, nick: Seq<char>, i: int)
    requires
        0 <= i <= l.len(),
        forall|j: int| 0 <= j < i ==> !same_nick(#[trigger] l[j], nick),
        i == l.len() || same_nick(l[i], nick),
    ensures
        first_member(l, nick) == i,
    decreases l.len(),
{
    if l.len() > 0 && i > 0 {
        assert(!same_nick(l[0], nick));
        assert forall|j: int| 0 <= j < i - 1 implies !same_nick(#[trigger] l.drop_first()[j], nick) by {
            assert(l.drop_first()[j] == l[j + 1]);
        }
        lemma_first_member(l.drop_first(), nick, i - 1);
    }
}

/// The buffers of a table of line vectors.
pub open spec fn line_table(m: Map<Seq<char>, Vec<BufferLine>>) -> Map<Seq<char>, Seq<LineView>> {
    m.map_values(|v: Vec<BufferLine>| line_views(v@))
}

proof fn lemma_line_table_insert(m: Map<Seq<char>, Vec<BufferLine>>, k: Seq<char>, v: Vec<BufferLine>)
    ensures
        line_table(m.insert(k, v)) == line_table(m).insert(k, line_views(v@)),
{
    assert(line_table(m.insert(k, v)) =~= line_table(m).insert(k, line_views(v@)));
}

/// The member lists of a table of member vectors.
pub open spec fn member_table(m: Map<Seq<char>, Vec<MemberEntry>>) -> Map<Seq<char>, Seq<MemberView>> {
    m.map_values(|v: Vec<MemberEntry>| member_views(v@))
}

proof fn lemma_member_table_insert(m: Map<Seq<char>, Vec<MemberEntry>>, k: Seq<char>, v: Vec<MemberEntry>)
    ensures
        member_table(m.insert(k, v)) == member_table(m).insert(k, member_views(v@)),
{
    assert(member_table(m.insert(k, v)) =~= member_table(m).insert(k, member_views(v@)));
}

/// Every member list with its first member named `old` renamed `new`, then
/// re-sorted.
pub open spec fn renamed_lists(m: Map<Seq<char>, Seq<MemberView>>, old: Seq<char>, new: Seq<char>) -> Map<Seq<char>, Seq<MemberView>> {
    Map::new(
        |k: Seq<char>| m.dom().contains(k),
        |k: Seq<char>| stable_sorted(rename_first(m[k], old, new), member_order()),
    )
}

/// The channels in the `Joined` state.
pub open spec fn joined_set(m: Map<Seq<char>, ChannelState>) -> Set<Seq<char>> {
    Set::new(|k: Seq<char>| m.dom().contains(k) && m[k] == ChannelState::Joined)
}

/// The navigation order: the server buffer (`None`), then the joined
/// channels alphabetically, then the private conversations in their order.
pub open spec fn nav_entries(v: AppView) -> Seq<Option<Seq<char>>> {
    seq![None::<Seq<char>>]
        + listing_of(joined_set(v.channels)).map_values(|c: Seq<char>| Some(c))
        + v.private_chats.map_values(|p: Seq<char>| Some(p))
}

/// The buffer focused after moving forward through the navigation order
/// (wrapping around; from an unknown buffer, to the server buffer).
pub open spec fn next_active(v: AppView) -> Option<Seq<char>> {
    let nav = nav_entries(v);
    if nav.len() <= 1 {
        v.active
    } else {
        match nav.index_of_first(v.active) {
            Some(i) => nav[(i + 1) % (nav.len() as int)],
            None => nav[0],
        }
    }
}

/// The buffer focused after moving backward through the navigation order
/// (wrapping around; from an unknown buffer, to the last entry).
pub open spec fn prev_active(v: AppView) -> Option<Seq<char>> {
    let nav = nav_entries(v);
    if nav.len() <= 1 {
        v.active
    } else {
        match nav.index_of_first(v.active) {
            Some(i) => if i == 0 { nav[nav.len() - 1] } else { nav[i - 1] },
            None => nav[nav.len() - 1],
        }
    }
}

/// The open conversations after opening one with `nick`: unchanged when it
/// is already open, otherwise the lower-case nick is added and the list
/// sorted.
pub open spec fn with_private_chat(chats: Seq<Seq<char>>, nick: Seq<char>) -> Seq<Seq<char>> {
    if chats.contains(lowercase(nick)) {
        chats
    } else {
        stable_sorted(chats.push(lowercase(nick)), str_order())
    }
}

fn opt_str_eq(a: &Option<String>, b: &Option<String>) -> (r: bool)
    ensures
        r == (opt_view(*a) == opt_view(*b)),
{
    match (a, b) {
        (Some(x), Some(y)) => str_eq(x.as_str(), y.as_str()),
        (None, None) => true,
        _ => false,
    }
}

fn clone_opt(a: &Option<String>) -> (r: Option<String>)
    ensures
        opt_view(r) == opt_view(*a),
{
    match a {
        Some(x) => Some(owned(x.as_str())),
        None => None,
    }
}

/// Whether `v` holds a string equal to `s`.
fn contains_str(v: &Vec<String>, s: &str) -> (r: bool)
    ensures
        r == views(v@).contains(s@),
{
    let mut i: usize = 0;
    while i < v.len()
        invariant
            i <= v@.len(),
            forall|j: int| 0 <= j < i ==> #[trigger] views(v@)[j] != s@,
        decreases v@.len() - i,
    {
        if str_eq(v[i].as_str(), s) {
            assert(views(v@)[i as int] == s@);
            return true;
        }
        i = i + 1;
    }
    false
}

/// The state of the whole application.
pub struct AppView {
    pub config: ConfigView,
    pub connection: ClientState,
    /// Whether the inbound stream of the current connection has been taken.
    pub stream_taken: bool,
    pub channels: Map<Seq<char>, ChannelState>,
    pub user: UserState,
    /// Message history per buffer, keyed by lower-case channel or nick.
    pub buffers: Map<Seq<char>, Seq<LineView>>,
    /// The focused buffer (`None` for the server buffer), lower-case.
    pub active: Option<Seq<char>>,
    /// Members of each channel, keyed by lower-case channel name.
    pub members: Map<Seq<char>, Seq<MemberView>>,
    /// Open private conversations: lower-case nicks.
    pub private_chats: Seq<Seq<char>>,
    pub server_buffer: Seq<LineView>,
    pub input: Seq<char>,
    pub should_quit: bool,
    pub status: Option<Seq<char>>,
    pub pane_height: u16,
    /// Scroll offsets (rows above the bottom) per buffer, keyed like `buffers`.
    pub scroll: Map<Seq<char>, usize>,
    pub server_scroll: usize,
}

/// Top-level application state.
pub struct App {
    pub client: IrcClient,
    pub channel_mgr: ChannelManager,
    pub user_mgr: UserManager,
    /// Per-buffer message history. Key is the lower-case channel or nick.
    pub buffers: StrMap<Vec<BufferLine>>,
    /// The currently focused buffer (`None` = server buffer), lower-case.
    pub active_channel: Option<String>,
    /// Members of each channel. Key is the lower-case channel name. Each list
    /// is kept sorted: operators, then voiced, then the rest, each
    /// alphabetically.
    pub channel_members: StrMap<Vec<MemberEntry>>,
    /// Open private conversations, as lower-case nicks in alphabetical order.
    pub private_chats: Vec<String>,
    /// The server-level message buffer.
    pub server_buffer: Vec<BufferLine>,
    /// Current text in the input bar.
    pub input: String,
    /// Whether the user has asked the application to exit.
    pub should_quit: bool,
    /// Message shown in the status bar.
    pub status_message: Option<String>,
    /// Height of the message pane when last drawn, for page-sized scrolling.
    pub message_pane_height: u16,
    /// Scroll offset of each channel or conversation buffer.
    pub scroll_offsets: StrMap<usize>,
    /// Scroll offset of the server buffer.
    pub server_scroll: usize,
}

pub open spec fn opt_view(o: Option<String>) -> Option<Seq<char>> {
    match o {
        Some(s) => Some(s@),
        None => None,
    }
}

impl View for App {
    type V = AppView;

    open spec fn view(&self) -> AppView {
        AppView {
            config: self.client.config_view(),
            connection: self.client.state_view(),
            stream_taken: self.client.stream_taken_view(),
            channels: self.channel_mgr@,
            user: self.user_mgr@,
            buffers: line_table(self.buffers@),
            active: opt_view(self.active_channel),
            members: member_table(self.channel_members@),
            private_chats: views(self.private_chats@),
            server_buffer: line_views(self.server_buffer@),
            input: self.input@,
            should_quit: self.should_quit,
            status: opt_view(self.status_message),
            pane_height: self.message_pane_height,
            scroll: self.scroll_offsets@,
            server_scroll: self.server_scroll,
        }
    }
}

/// The lines of the focused buffer.
pub open spec fn active_lines_of(v: AppView) -> Seq<LineView> {
    match v.active {
        Some(ch) => if v.buffers.dom().contains(ch) { v.buffers[ch] } else { Seq::empty() },
        None => v.server_buffer,
    }
}

/// The members listed for the focused buffer.
pub open spec fn active_members_of(v: AppView) -> Seq<MemberView> {
    match v.active {
        Some(ch) => if v.members.dom().contains(ch) { v.members[ch] } else { Seq::empty() },
        None => Seq::empty(),
    }
}

/// The member list of `key`, or an empty one.
pub open spec fn members_or_empty(m: Map<Seq<char>, Seq<MemberView>>, key: Seq<char>) -> Seq<MemberView> {
    if m.dom().contains(key) {
        m[key]
    } else {
        Seq::empty()
    }
}

/// The buffer of `key`, or an empty one.
pub open spec fn buffer_or_empty(m: Map<Seq<char>, Seq<LineView>>, key: Seq<char>) -> Seq<LineView> {
    if m.dom().contains(key) {
        m[key]
    } else {
        Seq::empty()
    }
}

/// The scroll offset of the focused buffer.
pub open spec fn active_offset_of(v: AppView) -> usize {
    match v.active {
        Some(ch) => if v.scroll.dom().contains(ch) { v.scroll[ch] } else { 0 },
        None => v.server_scroll,
    }
}

/// The state with the focused buffer's scroll offset set to `n`.
pub open spec fn with_active_offset(v: AppView, n: usize) -> AppView {
    match v.active {
        Some(ch) => AppView { scroll: v.scroll.insert(ch, n), ..v },
        None => AppView { server_scroll: n, ..v },
    }
}

/// `a + b`, or `usize::MAX` when that overflows.
pub open spec fn sat_add(a: usize, b: usize) -> usize {
    if a + b > usize::MAX { usize::MAX } else { (a + b) as usize }
}

/// `a - b`, or `0` when that would be negative.
pub open spec fn sat_sub(a: usize, b: usize) -> usize {
    if a < b { 0 } else { (a - b) as usize }
}

/// The state after `l` is added to the server buffer.
pub open spec fn with_server_line(v: AppView, l: LineView) -> AppView {
    AppView { server_buffer: v.server_buffer.push(l), ..v }
}

/// The state after `l` is added to the buffer of `ch` (lower-cased).
pub open spec fn with_buffer_line(v: AppView, ch: Seq<char>, l: LineView) -> AppView {
    AppView {
        buffers: v.buffers.insert(lowercase(ch), buffer_or_empty(v.buffers, lowercase(ch)).push(l)),
        ..v
    }
}

/// The state with the status message `s`.
pub open spec fn with_status(v: AppView, s: Seq<char>) -> AppView {
    AppView { status: Some(s), ..v }
}

/// The state focused on `a` (already lower-case, or `None` for the server).
pub open spec fn with_active(v: AppView, a: Option<Seq<char>>) -> AppView {
    AppView { active: a, ..v }
}

/// The state after adding the member `e` to channel `ch`.
pub open spec fn with_member_added(v: AppView, ch: Seq<char>, e: MemberView) -> AppView {
    let key = lowercase(ch);
    let list = members_or_empty(v.members, key);
    AppView {
        members: v.members.insert(
            key,
            if has_member(list, e.nick) { list } else { stable_sorted(list.push(e), member_order()) },
        ),
        ..v
    }
}

/// The state after removing `nick` from the member list of `ch`.
pub open spec fn with_member_removed(v: AppView, ch: Seq<char>, nick: Seq<char>) -> AppView {
    let key = lowercase(ch);
    if v.members.dom().contains(key) {
        AppView { members: v.members.insert(key, v.members[key].filter(not_nick(nick))), ..v }
    } else {
        v
    }
}

/// The state after the member list of `ch` is replaced by `list`, sorted.
pub open spec fn with_members_set(v: AppView, ch: Seq<char>, list: Seq<MemberView>) -> AppView {
    AppView { members: v.members.insert(lowercase(ch), stable_sorted(list, member_order())), ..v }
}

/// The state after a member is renamed from `old` to `new` in every list.
pub open spec fn with_member_renamed(v: AppView, old: Seq<char>, new: Seq<char>) -> AppView {
    AppView { members: renamed_lists(v.members, old, new), ..v }
}

/// The state after a conversation with `nick` is opened.
pub open spec fn with_private_chat_opened(v: AppView, nick: Seq<char>) -> AppView {
    AppView {
        buffers: if v.buffers.dom().contains(lowercase(nick)) {
            v.buffers
        } else {
            v.buffers.insert(lowercase(nick), Seq::empty())
        },
        private_chats: with_private_chat(v.private_chats, nick),
        ..v
    }
}

impl App {
    /// A fresh, disconnected application for the given server and nick.
    pub fn new_disconnected(server: &str, port: u16, nick: &str) -> (app: Self)
        requires
            config_args_ok(server@, port, nick@),
            valid_nick(nick@),
        ensures
            app@ == (AppView {
                config: fresh_config(server@, port, nick@),
                connection: ClientState::Disconnected,
                stream_taken: false,
                channels: Map::empty(),
                user: UserState {
                    nick: nick@,
                    pending: None,
                    status: NickServStatus::Unregistered,
                    whois: Map::empty(),
                    who: Seq::empty(),
                },
                buffers: Map::empty(),
                active: None,
                members: Map::empty(),
                private_chats: Seq::empty(),
                server_buffer: Seq::empty(),
                input: Seq::empty(),
                should_quit: false,
                status: None,
                pane_height: 0,
                scroll: Map::empty(),
                server_scroll: 0,
            }),
    {
        let config = ClientConfig::new(server, port, nick);
        let user_mgr = match UserManager::new(nick) {
            Ok(u) => u,
            Err(_) => vstd::pervasive::unreached(),
        };
        let app = App {
            client: IrcClient::new(config),
            channel_mgr: ChannelManager::new(),
            user_mgr,
            buffers: StrMap::new(),
            active_channel: None,
            channel_members: StrMap::new(),
            private_chats: Vec::new(),
            server_buffer: Vec::new(),
            input: String::new(),
            should_quit: false,
            status_message: None,
            message_pane_height: 0,
            scroll_offsets: StrMap::new(),
            server_scroll: 0,
        };
        proof {
            assert(app@.buffers =~= Map::<Seq<char>, Seq<LineView>>::empty());
            assert(app@.members =~= Map::<Seq<char>, Seq<MemberView>>::empty());
            assert(app@.private_chats =~= Seq::<Seq<char>>::empty());
            assert(app@.server_buffer =~= Seq::<LineView>::empty());
        }
        app
    }

    /// Add a system message to the server buffer.
    pub fn push_server_msg(&mut self, text: &str)
        ensures
            final(self)@ == with_server_line(old(self)@, LineView::System(text@)),
    {
        self.server_buffer.push(BufferLine::System(owned(text)));
        proof {
            assert(self@.server_buffer =~= old(self)@.server_buffer.push(LineView::System(text@)));
        }
    }

    /// Add a line to the named buffer (creating the buffer if needed).
    pub fn push_channel_line(&mut self, channel: &str, line: BufferLine)
        ensures
            final(self)@ == with_buffer_line(old(self)@, channel@, line@),
    {
        let key = to_lower(channel);
        let ghost lv = line@;
        let mut lines = match self.buffers.remove(key.as_str()) {
            Some(l) => l,
            None => Vec::new(),
        };
        proof {
            assert(line_views(lines@) =~= buffer_or_empty(old(self)@.buffers, lowercase(channel@)));
        }
        lines.push(line);
        proof {
            assert(line_views(lines@) =~= buffer_or_empty(old(self)@.buffers, lowercase(channel@)).push(lv));
        }
        self.buffers.insert(key, lines);
        proof {
            assert(self@.buffers =~= old(self)@.buffers.insert(
                lowercase(channel@),
                buffer_or_empty(old(self)@.buffers, lowercase(channel@)).push(lv),
            ));
        }
    }

    /// The lines of the focused buffer (the server buffer when none is focused).
    pub fn active_lines(&self) -> (r: &[BufferLine])
        ensures
            line_views(r@) == active_lines_of(self@),
    {
        match &self.active_channel {
            Some(ch) => match self.buffers.get(ch.as_str()) {
                Some(v) => v.as_slice(),
                None => {
                    assert(line_views(Seq::<BufferLine>::empty()) =~= Seq::<LineView>::empty());
                    &[]
                },
            },
            None => self.server_buffer.as_slice(),
        }
    }

    /// Focus the given buffer (`None` for the server buffer); names are
    /// lower-cased.
    pub fn set_active_channel(&mut self, channel: Option<String>)
        ensures
            final(self)@ == (AppView {
                active: match channel {
                    Some(c) => Some(lowercase(c@)),
                    None => None,
                },
                ..old(self)@
            }),
    {
        self.active_channel = match channel {
            Some(c) => Some(to_lower(c.as_str())),
            None => None,
        };
    }

    /// Current connection state.
    pub fn connection_state(&self) -> (r: ClientState)
        ensures
            r == self@.connection,
    {
        self.client.state()
    }

    /// Nick of the current user (server-confirmed).
    pub fn nick(&self) -> (r: &str)
        ensures
            r@ == self@.user.nick,
    {
        self.user_mgr.current_nick()
    }

    /// NickServ authentication status of the local user.
    pub fn nickserv_status(&self) -> (r: NickServStatus)
        ensures
            r == self@.user.status,
    {
        self.user_mgr.nickserv_status()
    }

    /// Append a character to the input buffer.
    pub fn input_push(&mut self, ch: char)
        ensures
            final(self)@ == (AppView { input: old(self)@.input.push(ch), ..old(self)@ }),
    {
        push_char(&mut self.input, ch);
    }

    /// Remove the last character from the input buffer, if any.
    pub fn input_backspace(&mut self)
        ensures
            final(self)@ == (AppView {
                input: if old(self)@.input.len() > 0 { old(self)@.input.drop_last() } else { old(self)@.input },
                ..old(self)@
            }),
    {
        let _ = pop_char(&mut self.input);
    }

    /// Clear the input buffer and return its contents.
    pub fn input_take(&mut self) -> (r: String)
        ensures
            r@ == old(self)@.input,
            final(self)@ == (AppView { input: Seq::empty(), ..old(self)@ }),
    {
        let mut taken = String::new();
        std::mem::swap(&mut taken, &mut self.input);
        taken
    }

    /// Set the status bar message.
    pub fn set_status(&mut self, msg: &str)
        ensures
            final(self)@ == with_status(old(self)@, msg@),
    {
        self.status_message = Some(owned(msg));
    }

    /// Clear the status bar message.
    pub fn clear_status(&mut self)
        ensures
            final(self)@ == (AppView { status: None, ..old(self)@ }),
    {
        self.status_message = None;
    }

    /// Handle an outbound message produced on the user's behalf: it is handed
    /// back unchanged for the caller to send.
    pub fn queue_outbound(&self, msg: OutboundMessage) -> (r: OutboundMessage)
        ensures
            r == msg,
    {
        msg
    }

    /// Sort a member list: operators, then voiced members, then the rest,
    /// each group alphabetically by lower-case nick; members that compare
    /// equal keep their order.
    fn sort_members(list: &mut Vec<MemberEntry>)
        ensures
            member_views(final(list)@) == stable_sorted(member_views(old(list)@), member_order()),
    {
        let ghost orig = member_views(list@);
        let ghost lt = member_order();
        let mut rest: Vec<MemberEntry> = Vec::new();
        std::mem::swap(&mut rest, list);
        let mut out: Vec<MemberEntry> = Vec::new();
        assert(orig.take(0) =~= Seq::<MemberView>::empty());
        assert(orig.skip(0) =~= orig);
        while rest.len() > 0
            invariant
                lt == member_order(),
                orig.len() >= rest@.len(),
                member_views(rest@) == orig.skip(orig.len() - rest@.len()),
                member_views(out@) == stable_sorted(orig.take(orig.len() - rest@.len()), lt),
            decreases rest@.len(),
        {
            let ghost c = orig.len() - rest@.len();
            let ghost old_rest = rest@;
            let x = rest.remove(0);
            proof {
                assert(member_views(old_rest)[0] == orig.skip(c)[0]);
                assert(x@ == orig[c]);
                assert forall|k: int| 0 <= k < rest@.len() implies #[trigger] member_views(rest@)[k] == orig.skip(c + 1)[k] by {
                    assert(rest@[k] == old_rest[k + 1]);
                    assert(member_views(old_rest)[k + 1] == orig.skip(c)[k + 1]);
                }
                assert(member_views(rest@) =~= orig.skip(c + 1));
            }
            let mut p: usize = 0;
            while p < out.len() && !member_before(&x, &out[p])
                invariant
                    lt == member_order(),
                    p <= out@.len(),
                    forall|j: int| 0 <= j < p ==> !lt(x@, #[trigger] member_views(out@)[j]),
                decreases out@.len() - p,
            {
                p = p + 1;
            }
            proof {
                crate::order::lemma_insert_pos_is_first(member_views(out@), x@, lt, p as int);
                let t = orig.take(c + 1);
                assert(t.drop_last() =~= orig.take(c));
                assert(t.last() == x@);
            }
            let ghost before = member_views(out@);
            out.insert(p, x);
            proof {
                assert(member_views(out@) =~= before.insert(p as int, orig[c]));
            }
        }
        proof {
            assert(orig.take(orig.len() as int) =~= orig);
        }
        *list = out;
    }

    /// Replace the member list of a channel, sorted.
    pub fn set_channel_members(&mut self, channel: &str, members: Vec<MemberEntry>)
        ensures
            final(self)@ == with_members_set(old(self)@, channel@, member_views(members@)),
    {
        let ghost given = member_views(members@);
        let mut list = members;
        Self::sort_members(&mut list);
        let key = to_lower(channel);
        self.channel_members.insert(key, list);
        proof {
            assert(self@.members =~= old(self)@.members.insert(
                lowercase(channel@),
                stable_sorted(given, member_order()),
            ));
        }
    }

    /// Take the member list of `key` out of the table (an empty one if none).
    fn take_members(&mut self, key: &str) -> (r: Vec<MemberEntry>)
        ensures
            member_views(r@) == members_or_empty(old(self)@.members, key@),
            final(self)@ == (AppView { members: old(self)@.members.remove(key@), ..old(self)@ }),
    {
        let r = match self.channel_members.remove(key) {
            Some(l) => l,
            None => Vec::new(),
        };
        proof {
            assert(member_views(r@) =~= members_or_empty(old(self)@.members, key@));
            assert(self@.members =~= old(self)@.members.remove(key@));
        }
        r
    }

    /// Add a member to a channel's list unless a member of that nick
    /// (ignoring case) is already there; the list stays sorted. The channel
    /// gets a list either way.
    pub fn add_channel_member(&mut self, channel: &str, entry: MemberEntry)
        ensures
            final(self)@ == with_member_added(old(self)@, channel@, entry@),
    {
        let key = to_lower(channel);
        let ghost ekey = lowercase(channel@);
        let ghost ev = entry@;
        let mut list = self.take_members(key.as_str());
        let ghost l0 = member_views(list@);
        let nick_lower = to_lower(entry.nick.as_str());
        let mut found = false;
        let mut i: usize = 0;
        while i < list.len() && !found
            invariant
                i <= list@.len(),
                l0 == member_views(list@),
                nick_lower@ == lowercase(ev.nick),
                found ==> has_member(l0, ev.nick),
                !found ==> forall|j: int| 0 <= j < i ==> !#[trigger] same_nick(l0[j], ev.nick),
            decreases list@.len() - i + (if found { 0int } else { 1int }),
        {
            if named(&list[i], nick_lower.as_str()) {
                found = true;
                assert(same_nick(l0[i as int], ev.nick));
            } else {
                i = i + 1;
            }
        }
        proof {
            if !found {
                assert(!has_member(l0, ev.nick));
            }
        }
        if !found {
            list.push(entry);
            proof {
                assert(member_views(list@) =~= l0.push(ev));
            }
            Self::sort_members(&mut list);
        }
        let ghost newl = member_views(list@);
        let ghost mid = self.channel_members@;
        self.channel_members.insert(key, list);
        proof {
            lemma_member_table_insert(mid, ekey, list);
            assert(self@.members =~= old(self)@.members.insert(ekey, newl));
        }
    }

    /// Remove a member from a channel's list by nick (ignoring case).
    pub fn remove_channel_member(&mut self, channel: &str, nick: &str)
        ensures
            final(self)@ == with_member_removed(old(self)@, channel@, nick@),
    {
        let key = to_lower(channel);
        let ghost ekey = lowercase(channel@);
        if !self.channel_members.contains_key(key.as_str()) {
            return;
        }
        let mut rest = self.take_members(key.as_str());
        let ghost orig = member_views(rest@);
        let ghost pred = not_nick(nick@);
        let nick_lower = to_lower(nick);
        let mut kept: Vec<MemberEntry> = Vec::new();
        assert(orig.take(0) =~= Seq::<MemberView>::empty());
        assert(orig.skip(0) =~= orig);
        while rest.len() > 0
            invariant
                pred == not_nick(nick@),
                nick_lower@ == lowercase(nick@),
                orig.len() >= rest@.len(),
                member_views(rest@) == orig.skip(orig.len() - rest@.len()),
                member_views(kept@) == orig.take(orig.len() - rest@.len()).filter(pred),
            decreases rest@.len(),
        {
            let ghost c = orig.len() - rest@.len();
            let ghost old_rest = rest@;
            let e = rest.remove(0);
            proof {
                assert(member_views(old_rest)[0] == orig.skip(c)[0]);
                assert(e@ == orig[c]);
                assert forall|k: int| 0 <= k < rest@.len() implies #[trigger] member_views(rest@)[k] == orig.skip(c + 1)[k] by {
                    assert(rest@[k] == old_rest[k + 1]);
                    assert(member_views(old_rest)[k + 1] == orig.skip(c)[k + 1]);
                }
                assert(member_views(rest@) =~= orig.skip(c + 1));
                assert(orig.take(c + 1) =~= orig.take(c).push(orig[c]));
                orig.take(c).lemma_filter_push(orig[c], pred);
                assert(pred(orig[c]) == !same_nick(e@, nick@));
            }
            if !named(&e, nick_lower.as_str()) {
                kept.push(e);
                proof {
                    assert(member_views(kept@) =~= orig.take(c).filter(pred).push(orig[c]));
                }
            }
        }
        proof {
            assert(orig.take(orig.len() as int) =~= orig);
        }
        let ghost newl = member_views(kept@);
        let ghost mid = self.channel_members@;
        self.channel_members.insert(key, kept);
        proof {
            lemma_member_table_insert(mid, ekey, kept);
            assert(self@.members =~= old(self)@.members.insert(ekey, orig.filter(pred)));
        }
    }

    /// Rename the first member named `old_nick` (ignoring case) to `new_nick`
    /// in a member list, and re-sort it.
    fn rename_in_list(list: &mut Vec<MemberEntry>, old_lower: &str, new_nick: &str, Ghost(old_nick): Ghost<Seq<char>>)
        requires
            old_lower@ == lowercase(old_nick),
        ensures
            member_views(final(list)@) == stable_sorted(rename_first(member_views(old(list)@), old_nick, new_nick@), member_order()),
    {
        let ghost l0 = member_views(list@);
        let mut i: usize = 0;
        while i < list.len() && !named(&list[i], old_lower)
            invariant
                i <= list@.len(),
                l0 == member_views(list@),
                old_lower@ == lowercase(old_nick),
                forall|j: int| 0 <= j < i ==> !#[trigger] same_nick(l0[j], old_nick),
            decreases list@.len() - i,
        {
            i = i + 1;
        }
        proof {
            lemma_first_member(l0, old_nick, i as int);
        }
        if i < list.len() {
            let renamed = MemberEntry { nick: owned(new_nick), is_op: list[i].is_op, is_voiced: list[i].is_voiced };
            list.set(i, renamed);
            proof {
                assert(member_views(list@) =~= rename_first(l0, old_nick, new_nick@));
            }
        } else {
            assert(member_views(list@) =~= rename_first(l0, old_nick, new_nick@));
        }
        Self::sort_members(list);
    }

    /// Rename a member across all channel lists (e.g. on a NICK change);
    /// every list is re-sorted.
    pub fn rename_channel_member(&mut self, old_nick: &str, new_nick: &str)
        ensures
            final(self)@ == with_member_renamed(old(self)@, old_nick@, new_nick@),
    {
        let old_lower = to_lower(old_nick);
        let keys = self.channel_members.key_list();
        let ghost kv = views(keys@);
        let ghost m0 = old(self)@.members;
        let ghost target = renamed_lists(m0, old_nick@, new_nick@);
        let mut i: usize = 0;
        while i < keys.len()
            invariant
                i <= keys@.len(),
                kv == views(keys@),
                kv.no_duplicates(),
                m0 == old(self)@.members,
                target == renamed_lists(m0, old_nick@, new_nick@),
                old_lower@ == lowercase(old_nick@),
                forall|k: Seq<char>| m0.dom().contains(k) <==> #[trigger] kv.contains(k),
                self@ == (AppView { members: self@.members, ..old(self)@ }),
                self@.members.dom() == m0.dom(),
                forall|b: int| 0 <= b < i ==> #[trigger] self@.members[kv[b]] == target[kv[b]],
                forall|b: int| i <= b < kv.len() ==> #[trigger] self@.members[kv[b]] == m0[kv[b]],
            decreases keys@.len() - i,
        {
            let ghost ki = kv[i as int];
            assert(kv[i as int] == keys@[i as int]@);
            assert(kv.contains(ki));
            let ghost before = self@.members;
            let mut list = self.take_members(keys[i].as_str());
            assert(member_views(list@) == m0[ki]);
            Self::rename_in_list(&mut list, old_lower.as_str(), new_nick, Ghost(old_nick@));
            let ghost newl = member_views(list@);
            let ghost mid = self.channel_members@;
            self.channel_members.insert(owned(keys[i].as_str()), list);
            proof {
                lemma_member_table_insert(mid, ki, list);
                assert(self@.members =~= before.insert(ki, newl));
                assert(newl == target[ki]);
                assert forall|b: int| 0 <= b < i + 1 implies #[trigger] self@.members[kv[b]] == target[kv[b]] by {
                    if b < i {
                        assert(kv[b] != ki);
                    }
                }
                assert forall|b: int| i + 1 <= b < kv.len() implies #[trigger] self@.members[kv[b]] == m0[kv[b]] by {
                    assert(kv[b] != ki);
                }
                assert(self@.members.dom() =~= m0.dom());
            }
            i = i + 1;
        }
        proof {
            assert forall|k: Seq<char>| #[trigger] self@.members.dom().contains(k) implies self@.members[k] == target[k] by {
                assert(kv.contains(k));
                let b = choose|b: int| 0 <= b < kv.len() && kv[b] == k;
            }
            assert(self@.members =~= target);
        }
    }

    /// Add `line` to the buffer stored under `key` (taken as it is).
    fn push_line_at(&mut self, key: &str, line: BufferLine)
        ensures
            final(self)@ == (AppView {
                buffers: old(self)@.buffers.insert(key@, buffer_or_empty(old(self)@.buffers, key@).push(line@)),
                ..old(self)@
            }),
    {
        let ghost lv = line@;
        let mut lines = match self.buffers.remove(key) {
            Some(l) => l,
            None => Vec::new(),
        };
        proof {
            assert(line_views(lines@) =~= buffer_or_empty(old(self)@.buffers, key@));
        }
        lines.push(line);
        proof {
            assert(line_views(lines@) =~= buffer_or_empty(old(self)@.buffers, key@).push(lv));
        }
        self.buffers.insert(owned(key), lines);
        proof {
            assert(self@.buffers =~= old(self)@.buffers.insert(key@, buffer_or_empty(old(self)@.buffers, key@).push(lv)));
        }
    }

    /// Show the system line `text` in the buffer of every channel whose
    /// member list holds `nick` (ignoring case).
    pub fn announce_in_channels(&mut self, nick: &str, text: &str)
        ensures
            final(self)@ == (AppView {
                buffers: notice_buffers(
                    old(self)@.buffers,
                    nick_channels(old(self)@.members, nick@),
                    LineView::System(text@),
                ),
                ..old(self)@
            }),
    {
        let nick_lower = to_lower(nick);
        let keys = self.channel_members.key_list();
        let ghost kv = views(keys@);
        let ghost v0 = self@;
        let ghost l = LineView::System(text@);
        let ghost chans = nick_channels(v0.members, nick@);
        let mut i: usize = 0;
        while i < keys.len()
            invariant
                i <= keys@.len(),
                kv == views(keys@),
                kv.no_duplicates(),
                l == LineView::System(text@),
                chans == nick_channels(v0.members, nick@),
                nick_lower@ == lowercase(nick@),
                forall|k: Seq<char>| v0.members.dom().contains(k) <==> #[trigger] kv.contains(k),
                self@ == (AppView { buffers: self@.buffers, ..v0 }),
                self@.buffers == notice_buffers(
                    v0.buffers,
                    Set::new(|k: Seq<char>| chans.contains(k) && kv.take(i as int).contains(k)),
                    l,
                ),
            decreases keys@.len() - i,
        {
            let ghost ki = kv[i as int];
            assert(kv[i as int] == keys@[i as int]@);
            assert(kv.contains(ki));
            let ghost before = Set::new(|k: Seq<char>| chans.contains(k) && kv.take(i as int).contains(k));
            let ghost after = Set::new(|k: Seq<char>| chans.contains(k) && kv.take(i + 1).contains(k));
            let ghost t0 = kv.take(i as int);
            let ghost t1 = kv.take(i + 1);
            proof {
                assert(t1 =~= t0.push(ki));
                assert forall|k: Seq<char>| t1.contains(k) <==> (t0.contains(k) || k == ki) by {
                    if t1.contains(k) {
                        let b = choose|b: int| 0 <= b < t1.len() && t1[b] == k;
                        if b < i {
                            assert(t0[b] == k);
                        }
                    }
                    if t0.contains(k) {
                        let b = choose|b: int| 0 <= b < t0.len() && t0[b] == k;
                        assert(t1[b] == k);
                    }
                    if k == ki {
                        assert(t1[i as int] == k);
                    }
                }
                assert(!t0.contains(ki)) by {
                    if t0.contains(ki) {
                        let b = choose|b: int| 0 <= b < t0.len() && t0[b] == ki;
                        assert(kv[b] == kv[i as int]);
                    }
                }
            }
            let present = match self.channel_members.get(keys[i].as_str()) {
                Some(list) => list_has_member(list, nick_lower.as_str(), Ghost(nick@)),
                None => false,
            };
            assert(present == chans.contains(ki));
            if present {
                let ghost b0 = self@.buffers;
                self.push_line_at(keys[i].as_str(), BufferLine::System(owned(text)));
                proof {
                    assert(self@.buffers =~= notice_buffers(v0.buffers, after, l)) by {
                        assert(buffer_or_empty(b0, ki) == buffer_or_empty(v0.buffers, ki));
                    }
                }
            } else {
                proof {
                    assert(notice_buffers(v0.buffers, after, l) =~= notice_buffers(v0.buffers, before, l));
                }
            }
            i = i + 1;
        }
        proof {
            assert(kv.take(i as int) =~= kv);
            assert(Set::new(|k: Seq<char>| chans.contains(k) && kv.take(i as int).contains(k)) =~= chans);
        }
    }

    /// Members of the focused channel, or none.
    pub fn active_channel_members(&self) -> (r: &[MemberEntry])
        ensures
            member_views(r@) == active_members_of(self@),
    {
        match &self.active_channel {
            Some(ch) => match self.channel_members.get(ch.as_str()) {
                Some(v) => v.as_slice(),
                None => {
                    assert(member_views(Seq::<MemberEntry>::empty()) =~= Seq::<MemberView>::empty());
                    &[]
                },
            },
            None => {
                assert(member_views(Seq::<MemberEntry>::empty()) =~= Seq::<MemberView>::empty());
                &[]
            },
        }
    }

    /// All joined channels in alphabetical order.
    pub fn sorted_joined_channels(&self) -> (r: Vec<String>)
        ensures
            views(r@) == listing_of(joined_set(self@.channels)),
    {
        let chans = self.channel_mgr.joined_channels();
        let r = sort_strings(chans);
        proof {
            lemma_sorting_lists(views(chans@));
            assert(views(chans@).to_set() =~= joined_set(self@.channels));
            lemma_listing_of(views(r@), joined_set(self@.channels));
        }
        r
    }

    /// Ensure a conversation with `nick` is open (idempotent): its buffer
    /// exists and its lower-case nick is in the sorted list of conversations.
    pub fn open_private_chat(&mut self, nick: &str)
        ensures
            final(self)@ == with_private_chat_opened(old(self)@, nick@),
    {
        let key = to_lower(nick);
        if !self.buffers.contains_key(key.as_str()) {
            let empty: Vec<BufferLine> = Vec::new();
            let ghost mid = self.buffers@;
            self.buffers.insert(owned(key.as_str()), empty);
            proof {
                lemma_line_table_insert(mid, lowercase(nick@), empty);
                assert(line_views(empty@) =~= Seq::<LineView>::empty());
                assert(self@.buffers =~= old(self)@.buffers.insert(lowercase(nick@), Seq::empty()));
            }
        }
        if !contains_str(&self.private_chats, key.as_str()) {
            let mut chats: Vec<String> = Vec::new();
            std::mem::swap(&mut chats, &mut self.private_chats);
            let ghost c0 = views(chats@);
            chats.push(key);
            proof {
                assert(views(chats@) =~= c0.push(lowercase(nick@)));
            }
            self.private_chats = sort_strings(chats);
        }
    }

    /// Whether the focused buffer is a private conversation.
    pub fn active_is_pm(&self) -> (r: bool)
        ensures
            r == (self@.active matches Some(ch) && self@.private_chats.contains(ch)),
    {
        match &self.active_channel {
            Some(ch) => contains_str(&self.private_chats, ch.as_str()),
            None => false,
        }
    }

    /// Whether the focused buffer is a channel (not the server buffer, not a
    /// private conversation).
    pub fn active_is_channel(&self) -> (r: bool)
        ensures
            r == (self@.active matches Some(ch) && !self@.private_chats.contains(ch)),
    {
        match &self.active_channel {
            Some(ch) => !contains_str(&self.private_chats, ch.as_str()),
            None => false,
        }
    }

    /// The navigation order: server buffer, joined channels alphabetically,
    /// then private conversations.
    fn nav_list(&self) -> (r: Vec<Option<String>>)
        ensures
            r@.map_values(|o: Option<String>| opt_view(o)) == nav_entries(self@),
    {
        let mut list: Vec<Option<String>> = Vec::new();
        list.push(None);
        let channels = self.sorted_joined_channels();
        let ghost chv = views(channels@);
        let ghost fst = seq![None::<Seq<char>>];
        let ghost sc = chv.map_values(|c: Seq<char>| Some(c));
        let ghost sp = views(self.private_chats@).map_values(|p: Seq<char>| Some(p));
        let mut i: usize = 0;
        assert(list@.map_values(|o: Option<String>| opt_view(o)) =~= fst + sc.take(0));
        while i < channels.len()
            invariant
                i <= channels@.len(),
                chv == views(channels@),
                sc == chv.map_values(|c: Seq<char>| Some(c)),
                fst == seq![None::<Seq<char>>],
                list@.map_values(|o: Option<String>| opt_view(o)) == fst + sc.take(i as int),
            decreases channels@.len() - i,
        {
            let ghost before = list@.map_values(|o: Option<String>| opt_view(o));
            list.push(Some(owned(channels[i].as_str())));
            proof {
                assert(sc.take(i + 1) =~= sc.take(i as int).push(sc[i as int]));
                assert(list@.map_values(|o: Option<String>| opt_view(o)) =~= before.push(Some(chv[i as int])));
            }
            i = i + 1;
        }
        assert(sc.take(i as int) =~= sc);
        let mut j: usize = 0;
        assert(list@.map_values(|o: Option<String>| opt_view(o)) =~= fst + sc + sp.take(0));
        while j < self.private_chats.len()
            invariant
                j <= self.private_chats@.len(),
                sp == views(self.private_chats@).map_values(|p: Seq<char>| Some(p)),
                list@.map_values(|o: Option<String>| opt_view(o)) == fst + sc + sp.take(j as int),
            decreases self.private_chats@.len() - j,
        {
            let ghost before = list@.map_values(|o: Option<String>| opt_view(o));
            list.push(Some(owned(self.private_chats[j].as_str())));
            proof {
                assert(sp.take(j + 1) =~= sp.take(j as int).push(sp[j as int]));
                assert(list@.map_values(|o: Option<String>| opt_view(o)) =~= before.push(sp[j as int]));
            }
            j = j + 1;
        }
        assert(sp.take(j as int) =~= sp);
        list
    }

    /// Position of the focused buffer in `nav`, if present.
    fn active_position(&self, nav: &Vec<Option<String>>) -> (r: Option<usize>)
        ensures
            ({
                let navv = nav@.map_values(|o: Option<String>| opt_view(o));
                match r {
                    Some(i) => navv.index_of_first(self@.active) == Some(i as int),
                    None => navv.index_of_first(self@.active) is None,
                }
            }),
    {
        let ghost navv = nav@.map_values(|o: Option<String>| opt_view(o));
        let mut i: usize = 0;
        while i < nav.len()
            invariant
                i <= nav@.len(),
                navv == nav@.map_values(|o: Option<String>| opt_view(o)),
                forall|j: int| 0 <= j < i ==> #[trigger] navv[j] != self@.active,
            decreases nav@.len() - i,
        {
            if opt_str_eq(&nav[i], &self.active_channel) {
                proof {
                    navv.index_of_first_ensures(self@.active);
                    assert(navv[i as int] == self@.active);
                    assert(navv.contains(self@.active));
                    let k = navv.index_of_first(self@.active).unwrap();
                    if k < i {
                        assert(navv[k] != self@.active);
                    }
                    if k > i {
                        assert(navv[i as int] != self@.active);
                    }
                }
                return Some(i);
            }
            i = i + 1;
        }
        proof {
            navv.index_of_first_ensures(self@.active);
            if navv.contains(self@.active) {
                let k = choose|k: int| 0 <= k < navv.len() && navv[k] == self@.active;
            }
        }
        None
    }

    /// Focus the next entry of the navigation order (wrapping around).
    pub fn next_channel(&mut self)
        ensures
            final(self)@ == (AppView { active: next_active(old(self)@), ..old(self)@ }),
    {
        let nav = self.nav_list();
        if nav.len() <= 1 {
            return;
        }
        let pos = self.active_position(&nav);
        proof {
            nav@.map_values(|o: Option<String>| opt_view(o)).index_of_first_ensures(self@.active);
        }
        let next_idx = match pos {
            Some(i) => (i + 1) % nav.len(),
            None => 0,
        };
        self.active_channel = clone_opt(&nav[next_idx]);
    }

    /// Focus the previous entry of the navigation order (wrapping around).
    pub fn prev_channel(&mut self)
        ensures
            final(self)@ == (AppView { active: prev_active(old(self)@), ..old(self)@ }),
    {
        let nav = self.nav_list();
        if nav.len() <= 1 {
            return;
        }
        let pos = self.active_position(&nav);
        proof {
            nav@.map_values(|o: Option<String>| opt_view(o)).index_of_first_ensures(self@.active);
        }
        let prev_idx = match pos {
            Some(i) => if i == 0 { nav.len() - 1 } else { i - 1 },
            None => nav.len() - 1,
        };
        self.active_channel = clone_opt(&nav[prev_idx]);
    }

    /// The scroll offset (rows above the bottom) of the focused buffer.
    pub fn active_scroll_offset(&self) -> (r: usize)
        ensures
            r == active_offset_of(self@),
    {
        match &self.active_channel {
            Some(ch) => match self.scroll_offsets.get(ch.as_str()) {
                Some(n) => *n,
                None => 0,
            },
            None => self.server_scroll,
        }
    }

    fn set_active_scroll_offset(&mut self, n: usize)
        ensures
            final(self)@ == with_active_offset(old(self)@, n),
    {
        match &self.active_channel {
            Some(ch) => {
                let key = owned(ch.as_str());
                self.scroll_offsets.insert(key, n);
            },
            None => {
                self.server_scroll = n;
            },
        }
    }

    /// Scroll the focused buffer up by `n` rows (saturating).
    pub fn scroll_up(&mut self, n: usize)
        ensures
            final(self)@ == with_active_offset(old(self)@, sat_add(active_offset_of(old(self)@), n)),
    {
        let cur = self.active_scroll_offset();
        self.set_active_scroll_offset(cur.saturating_add(n));
    }

    /// Scroll the focused buffer down by `n` rows, stopping at the bottom.
    pub fn scroll_down(&mut self, n: usize)
        ensures
            final(self)@ == with_active_offset(old(self)@, sat_sub(active_offset_of(old(self)@), n)),
    {
        let cur = self.active_scroll_offset();
        self.set_active_scroll_offset(cur.saturating_sub(n));
    }
}

/// Some member of `l` is named `nick` (ignoring case).
pub open spec fn has_member(l: Seq<MemberView>, nick: Seq<char>) -> bool {
    exists|i: int| 0 <= i < l.len() && #[trigger] same_nick(l[i], nick)
}

fn rank_of(m: &MemberEntry) -> (r: u8)
    ensures
        r as int == rank(m@),
{
    if m.is_op {
        0
    } else if m.is_voiced {
        1
    } else {
        2
    }
}

/// Whether `a` is listed before `b`.
fn member_before(a: &MemberEntry, b: &MemberEntry) -> (r: bool)
    ensures
        r == member_lt(a@, b@),
{
    let ra = rank_of(a);
    let rb = rank_of(b);
    if ra != rb {
        return ra < rb;
    }
    let la = to_lower(a.nick.as_str());
    let lb = to_lower(b.nick.as_str());
    str_lt(la.as_str(), lb.as_str())
}

/// Whether `m` is named `nick_lower` once lower-cased.
/// The channels whose member list holds a member named `nick` (ignoring
/// case).
pub open spec fn nick_channels(m: Map<Seq<char>, Seq<MemberView>>, nick: Seq<char>) -> Set<Seq<char>> {
    Set::new(|k: Seq<char>| m.dom().contains(k) && has_member(m[k], nick))
}

/// The buffers after `l` is added to the buffer of each key in `keys`.
pub open spec fn notice_buffers(b: Map<Seq<char>, Seq<LineView>>, keys: Set<Seq<char>>, l: LineView) -> Map<Seq<char>, Seq<LineView>> {
    Map::new(
        |k: Seq<char>| b.dom().contains(k) || keys.contains(k),
        |k: Seq<char>| if keys.contains(k) { buffer_or_empty(b, k).push(l) } else { b[k] },
    )
}

fn list_has_member(list: &Vec<MemberEntry>, nick_lower: &str, Ghost(nick): Ghost<Seq<char>>) -> (r: bool)
    requires
        nick_lower@ == lowercase(nick),
    ensures
        r == has_member(member_views(list@), nick),
{
    let ghost l0 = member_views(list@);
    let mut i: usize = 0;
    while i < list.len()
        invariant
            i <= list@.len(),
            l0 == member_views(list@),
            nick_lower@ == lowercase(nick),
            forall|j: int| 0 <= j < i ==> !#[trigger] same_nick(l0[j], nick),
        decreases list@.len() - i,
    {
        if named(&list[i], nick_lower) {
            assert(same_nick(l0[i as int], nick));
            return true;
        }
        i = i + 1;
    }
    false
}

fn named(m: &MemberEntry, nick_lower: &str) -> (r: bool)
    ensures
        r == (lowercase(m@.nick) == nick_lower@),
{
    let l = to_lower(m.nick.as_str());
    str_eq(l.as_str(), nick_lower)
}

proof fn lemma_index_of_first_distinct<T>(s: Seq<T>, i: int)
    requires
        s.no_duplicates(),
        0 <= i < s.len(),
    ensures
        s.index_of_first(s[i]) == Some(i),
{
    s.index_of_first_ensures(s[i]);
    assert(s.contains(s[i]));
}

/// Moving back after moving forward returns to the buffer we started from,
/// when that buffer is in the navigation order and the order names no buffer
/// twice.
pub proof fn law_prev_undoes_next(v: AppView)
    requires
        nav_entries(v).no_duplicates(),
        nav_entries(v).contains(v.active),
    ensures
        prev_active(AppView { active: next_active(v), ..v }) == v.active,
{
    let nav = nav_entries(v);
    let w = AppView { active: next_active(v), ..v };
    assert(nav_entries(w) == nav);
    if nav.len() > 1 {
        let i = choose|i: int| 0 <= i < nav.len() && nav[i] == v.active;
        lemma_index_of_first_distinct(nav, i);
        let n = nav.len() as int;
        let j = (i + 1) % n;
        if i == n - 1 {
            vstd::arithmetic::div_mod::lemma_mod_self_0(n);
            assert(j == 0);
        } else {
            vstd::arithmetic::div_mod::lemma_small_mod((i + 1) as nat, n as nat);
            assert(j == i + 1);
        }
        lemma_index_of_first_distinct(nav, j);
    }
}

/// Moving forward after moving back returns to the buffer we started from,
/// under the same conditions.
pub proof fn law_next_undoes_prev(v: AppView)
    requires
        nav_entries(v).no_duplicates(),
        nav_entries(v).contains(v.active),
    ensures
        next_active(AppView { active: prev_active(v), ..v }) == v.active,
{
    let nav = nav_entries(v);
    let w = AppView { active: prev_active(v), ..v };
    assert(nav_entries(w) == nav);
    if nav.len() > 1 {
        let i = choose|i: int| 0 <= i < nav.len() && nav[i] == v.active;
        lemma_index_of_first_distinct(nav, i);
        let n = nav.len() as int;
        let j = if i == 0 { n - 1 } else { i - 1 };
        lemma_index_of_first_distinct(nav, j);
        if i == 0 {
            vstd::arithmetic::div_mod::lemma_mod_self_0(n);
        } else {
            vstd::arithmetic::div_mod::lemma_small_mod(i as nat, n as nat);
        }
    }
}

/// Opening a conversation keeps the list of conversations sorted and free of
/// repeats, and the conversation is then open.
pub proof fn law_private_chats_stay_sorted(chats: Seq<Seq<char>>, nick: Seq<char>)
    requires
        sorted_by(chats, str_order()),
        chats.no_duplicates(),
    ensures
        sorted_by(with_private_chat(chats, nick), str_order()),
        with_private_chat(chats, nick).no_duplicates(),
        with_private_chat(chats, nick).contains(lowercase(nick)),
{
    if !chats.contains(lowercase(nick)) {
        let c = chats.push(lowercase(nick));
        assert(c.no_duplicates()) by {
            assert forall|i: int, j: int| 0 <= i < c.len() && 0 <= j < c.len() && i != j implies c[i] != c[j] by {
                if i == chats.len() as int {
                    assert(chats[j] == c[j]);
                } else if j == chats.len() as int {
                    assert(chats[i] == c[i]);
                }
            }
        }
        lemma_sorting_lists(c);
        assert(c.contains(lowercase(nick))) by {
            assert(c[chats.len() as int] == lowercase(nick));
        }
    }
}

/// Adding the same member twice is the same as adding it once: after the
/// first add, a member of that nick is listed.
pub proof fn law_add_member_idempotent(l: Seq<MemberView>, e: MemberView)
    ensures
        ({
            let once = if has_member(l, e.nick) { l } else { stable_sorted(l.push(e), member_order()) };
            &&& has_member(once, e.nick)
            &&& sorted_by(l, member_order()) ==> sorted_by(once, member_order())
        }),
{
    broadcast use vstd::seq_lib::group_to_multiset_ensures;
    if !has_member(l, e.nick) {
        let p = l.push(e);
        lemma_member_order_strict();
        crate::order::lemma_stable_sorted(p, member_order());
        let once = stable_sorted(p, member_order());
        assert(p[l.len() as int] == e);
        assert(p.to_multiset().count(e) > 0);
        assert(once.contains(e));
        let i = choose|i: int| 0 <= i < once.len() && once[i] == e;
        assert(same_nick(once[i], e.nick));
    }
}

/// After removing a nick from a member list, no member of that nick is left.
pub proof fn law_removed_member_is_gone(l: Seq<MemberView>, nick: Seq<char>)
    ensures
        !has_member(l.filter(not_nick(nick)), nick),
{
    broadcast use vstd::seq_lib::group_filter_ensures;
    let f = l.filter(not_nick(nick));
    assert forall|i: int| 0 <= i < f.len() implies !#[trigger] same_nick(f[i], nick) by {
        assert(not_nick(nick)(f[i]));
    }
}

/// Scrolling down by as many rows as were just scrolled up returns to the
/// same position, when the first scroll did not saturate.
pub proof fn law_scroll_down_undoes_scroll_up(v: AppView, n: usize)
    requires
        active_offset_of(v) + n <= usize::MAX,
    ensures
        with_active_offset(
            with_active_offset(v, sat_add(active_offset_of(v), n)),
            sat_sub(active_offset_of(with_active_offset(v, sat_add(active_offset_of(v), n))), n),
        ) == with_active_offset(v, active_offset_of(v)),
{
    let up = with_active_offset(v, sat_add(active_offset_of(v), n));
    assert(active_offset_of(up) == active_offset_of(v) + n);
    match v.active {
        Some(ch) => {
            assert(up.scroll.insert(ch, active_offset_of(v)) =~= v.scroll.insert(ch, active_offset_of(v)));
        },
        None => {},
    }
}

/// Scrolling one buffer leaves every other buffer's position alone.
pub proof fn law_scroll_is_per_buffer(v: AppView, n: usize, other: Seq<char>)
    requires
        v.active != Some(other),
    ensures
        with_active_offset(v, n).scroll.dom().contains(other) == v.scroll.dom().contains(other),
        v.scroll.dom().contains(other) ==> with_active_offset(v, n).scroll[other] == v.scroll[other],
        v.active is Some ==> with_active_offset(v, n).server_scroll == v.server_scroll,
{
}


/// Every member list is sorted: operators, then voiced members, then the
/// rest, each group alphabetically.
pub open spec fn members_sorted(m: Map<Seq<char>, Seq<MemberView>>) -> bool {
    forall|k: Seq<char>| #[trigger] m.dom().contains(k) ==> sorted_by(m[k], member_order())
}

proof fn lemma_filter_keeps_sorted(l: Seq<MemberView>, p: spec_fn(MemberView) -> bool)
    requires
        sorted_by(l, member_order()),
    ensures
        sorted_by(l.filter(p), member_order()),
        forall|x: MemberView| #[trigger] l.filter(p).contains(x) ==> l.contains(x),
    decreases l.len(),
{
    reveal_with_fuel(Seq::filter, 1);
    if l.len() > 0 {
        let d = l.drop_last();
        assert(sorted_by(d, member_order())) by {
            assert forall|i: int, j: int| 0 <= i < j < d.len() implies !member_order()(#[trigger] d[j], #[trigger] d[i]) by {
                assert(d[i] == l[i] && d[j] == l[j]);
            }
        }
        lemma_filter_keeps_sorted(d, p);
        let fd = d.filter(p);
        assert forall|x: MemberView| d.contains(x) implies l.contains(x) by {
            let k = choose|k: int| 0 <= k < d.len() && d[k] == x;
            assert(l[k] == x);
        }
        if p(l.last()) {
            let f = fd.push(l.last());
            assert(l.filter(p) == f);
            assert forall|i: int, j: int| 0 <= i < j < f.len() implies !member_order()(#[trigger] f[j], #[trigger] f[i]) by {
                if j == fd.len() {
                    assert(fd.contains(f[i])) by {
                        assert(fd[i] == f[i]);
                    }
                    assert(d.contains(f[i]));
                    let k = choose|k: int| 0 <= k < d.len() && d[k] == f[i];
                    assert(l[k] == d[k]);
                    assert(l[l.len() - 1] == f[j]);
                } else {
                    assert(f[i] == fd[i] && f[j] == fd[j]);
                }
            }
            assert forall|x: MemberView| #[trigger] f.contains(x) implies l.contains(x) by {
                let k = choose|k: int| 0 <= k < f.len() && f[k] == x;
                if k == fd.len() {
                    assert(l[l.len() - 1] == x);
                } else {
                    assert(fd[k] == x);
                    assert(fd.contains(x));
                }
            }
        }
    } else {
        assert(l.filter(p) =~= Seq::<MemberView>::empty());
    }
}

/// Member lists stay sorted whatever happens to them: a list set from a
/// NAMES reply, a member added (by JOIN), removed (by PART) or renamed (by
/// NICK).
pub proof fn law_member_lists_stay_sorted(v: AppView, ch: Seq<char>, e: MemberView, list: Seq<MemberView>, old: Seq<char>, new: Seq<char>)
    requires
        members_sorted(v.members),
    ensures
        members_sorted(with_members_set(v, ch, list).members),
        members_sorted(with_member_added(v, ch, e).members),
        members_sorted(with_member_removed(v, ch, old).members),
        members_sorted(with_member_renamed(v, old, new).members),
{
    lemma_member_order_strict();
    crate::order::lemma_stable_sorted(list, member_order());
    let key = lowercase(ch);
    let cur = members_or_empty(v.members, key);
    assert(sorted_by(cur, member_order())) by {
        if !v.members.dom().contains(key) {
            assert(cur =~= Seq::<MemberView>::empty());
        }
    }
    crate::order::lemma_stable_sorted(cur.push(e), member_order());
    assert(members_sorted(with_members_set(v, ch, list).members));
    assert(members_sorted(with_member_added(v, ch, e).members));
    if v.members.dom().contains(key) {
        lemma_filter_keeps_sorted(v.members[key], not_nick(old));
    }
    assert(members_sorted(with_member_removed(v, ch, old).members));
    let r = renamed_lists(v.members, old, new);
    assert forall|k: Seq<char>| #[trigger] r.dom().contains(k) implies sorted_by(r[k], member_order()) by {
        crate::order::lemma_stable_sorted(rename_first(v.members[k], old, new), member_order());
    }
}


/// Once a conversation with `nick` is open, opening it again changes
/// nothing, and it is listed.
pub proof fn law_open_private_chat_is_idempotent(chats: Seq<Seq<char>>, nick: Seq<char>)
    ensures
        with_private_chat(chats, nick).contains(lowercase(nick)),
        with_private_chat(with_private_chat(chats, nick), nick) == with_private_chat(chats, nick),
{
    broadcast use vstd::seq_lib::group_to_multiset_ensures;
    if !chats.contains(lowercase(nick)) {
        let c = chats.push(lowercase(nick));
        assert(c[chats.len() as int] == lowercase(nick));
        crate::order::lemma_str_order_strict();
        crate::order::lemma_stable_sorted(c, str_order());
        assert(c.to_multiset().count(lowercase(nick)) > 0);
        assert(stable_sorted(c, str_order()).to_multiset().count(lowercase(nick)) > 0);
    }
}

/// Moving forward from the last entry of the navigation order wraps back
/// to the server buffer.
pub proof fn law_next_from_last_wraps_to_server(v: AppView)
    requires
        nav_entries(v).no_duplicates(),
        nav_entries(v).len() > 1,
        v.active == nav_entries(v).last(),
    ensures
        next_active(v) is None,
{
    let nav = nav_entries(v);
    let n = nav.len() as int;
    lemma_index_of_first_distinct(nav, n - 1);
    vstd::arithmetic::div_mod::lemma_mod_self_0(n);
}

/// Switching buffers keeps every scroll position, so a buffer shows the same
/// rows when it is viewed again.
pub proof fn law_switching_keeps_scroll_positions(v: AppView, a: Option<Seq<char>>)
    ensures
        with_active(v, a).scroll == v.scroll,
        with_active(v, a).server_scroll == v.server_scroll,
        active_offset_of(with_active(with_active(v, a), v.active)) == active_offset_of(v),
{
}


/// No two members of `l` share a nick, ignoring case.
pub open spec fn nicks_distinct(l: Seq<MemberView>) -> bool {
    forall|i: int, j: int| 0 <= i < j < l.len() ==> lowercase(#[trigger] l[i].nick) != lowercase(#[trigger] l[j].nick)
}

proof fn lemma_first_member_facts(l: Seq<MemberView>, nick: Seq<char>)
    ensures
        0 <= first_member(l, nick) <= l.len(),
        first_member(l, nick) < l.len() ==> same_nick(l[first_member(l, nick)], nick),
        forall|j: int| 0 <= j < first_member(l, nick) ==> !#[trigger] same_nick(l[j], nick),
    decreases l.len(),
{
    if l.len() > 0 && !same_nick(l[0], nick) {
        let d = l.drop_first();
        lemma_first_member_facts(d, nick);
        assert forall|j: int| 0 <= j < first_member(l, nick) implies !#[trigger] same_nick(l[j], nick) by {
            if j > 0 {
                assert(l[j] == d[j - 1]);
            }
        }
        if first_member(l, nick) < l.len() {
            assert(l[first_member(l, nick)] == d[first_member(d, nick)]);
        }
    }
}

/// A nick change renames, in every member list, exactly the member of that
/// nick (ignoring case), keeping its operator and voice flags, leaves the
/// other members as they were, and keeps the list sorted: the lists hold the
/// same channels, each the renamed list re-sorted without losing or adding a
/// member.
pub proof fn law_rename_renames_only_that_member(m: Map<Seq<char>, Seq<MemberView>>, old: Seq<char>, new: Seq<char>, k: Seq<char>)
    requires
        m.dom().contains(k),
        nicks_distinct(m[k]),
    ensures
        renamed_lists(m, old, new).dom() == m.dom(),
        ({
            let l = m[k];
            let r = rename_first(l, old, new);
            &&& r.len() == l.len()
            &&& forall|i: int| 0 <= i < l.len() && same_nick(l[i], old)
                ==> #[trigger] r[i] == (MemberView { nick: new, ..l[i] })
            &&& forall|i: int| 0 <= i < l.len() && !same_nick(l[i], old) ==> #[trigger] r[i] == l[i]
            &&& renamed_lists(m, old, new)[k].to_multiset() == r.to_multiset()
            &&& sorted_by(renamed_lists(m, old, new)[k], member_order())
        }),
{
    let l = m[k];
    let r = rename_first(l, old, new);
    let f = first_member(l, old);
    lemma_first_member_facts(l, old);
    assert forall|i: int| 0 <= i < l.len() && same_nick(l[i], old) implies i == f by {
        if i != f {
            if i < f {
            } else {
                assert(same_nick(l[f], old));
                assert(lowercase(l[f].nick) == lowercase(l[i].nick));
            }
        }
    }
    lemma_member_order_strict();
    crate::order::lemma_stable_sorted(r, member_order());
    assert(renamed_lists(m, old, new).dom() =~= m.dom());
}


/// Changing only the capitalisation of a member's nick never changes where
/// it is listed: the order compares nicks lower-cased.
pub proof fn law_member_order_ignores_case(a: MemberView, a2: MemberView, b: MemberView)
    requires
        lowercase(a.nick) == lowercase(a2.nick),
        a.is_op == a2.is_op,
        a.is_voiced == a2.is_voiced,
    ensures
        member_lt(a, b) == member_lt(a2, b),
        member_lt(b, a) == member_lt(b, a2),
{
}

/// A member list set from a NAMES reply holds exactly the given members,
/// operators first, then voiced members, then the rest; within a group, by
/// nick compared lower-cased.
pub proof fn law_members_listed_by_rank_then_lowercase_nick(v: AppView, ch: Seq<char>, list: Seq<MemberView>)
    ensures
        ({
            let out = with_members_set(v, ch, list).members[lowercase(ch)];
            &&& out.to_multiset() == list.to_multiset()
            &&& forall|i: int, j: int| 0 <= i < j < out.len() ==> rank(#[trigger] out[i]) <= rank(#[trigger] out[j])
            &&& forall|i: int, j: int| 0 <= i < j < out.len() && rank(#[trigger] out[i]) == rank(#[trigger] out[j])
                ==> !seq_lt(lowercase(out[j].nick), lowercase(out[i].nick))
        }),
{
    lemma_member_order_strict();
    crate::order::lemma_stable_sorted(list, member_order());
    let out = with_members_set(v, ch, list).members[lowercase(ch)];
    assert forall|i: int, j: int| 0 <= i < j < out.len() implies rank(#[trigger] out[i]) <= rank(#[trigger] out[j]) by {
        assert(!member_order()(out[j], out[i]));
    }
    assert forall|i: int, j: int| 0 <= i < j < out.len() && rank(#[trigger] out[i]) == rank(#[trigger] out[j])
        implies !seq_lt(lowercase(out[j].nick), lowercase(out[i].nick)) by {
        assert(!member_order()(out[j], out[i]));
    }
}

} // verus!
