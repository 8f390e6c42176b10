//! What each area of the screen shows: the status bar, the navigation list,
//! the member list, the message pane (with its scroll position) and the
//! input bar. The caller draws these with the terminal library and picks the
//! colours.

use vstd::prelude::*;
use crate::irc::client::ClientState;
use crate::irc::user::NickServStatus;
use crate::order::listing_of;
use crate::text::{cat, decimal, lowercase, owned, starts_with_char, str_eq, to_lower, usize_to_string, views};
use crate::tui::app::{
    nav_entries, active_lines_of, active_members_of, active_offset_of, joined_set, line_views, member_views, opt_view,
    sat_sub, App, AppView, BufferLine, LineView, MemberEntry, MemberView,
};
use crate::tui::layout::{row_count, rows_of};

verus! {

/// The connection indicator.
pub open spec fn state_label(s: ClientState) -> Seq<char> {
    match s {
        ClientState::Connected => "● connected"@,
        ClientState::Disconnected => "○ disconnected"@,
        ClientState::Connecting => "◌ connecting…"@,
        ClientState::Disconnecting => "◌ disconnecting…"@,
    }
}

/// The NickServ badge shown after the nick.
pub open spec fn auth_label(s: NickServStatus) -> Seq<char> {
    match s {
        NickServStatus::Authenticated => " (authenticated)"@,
        NickServStatus::Unauthenticated => " (unauthenticated)"@,
        NickServStatus::Unregistered => " (unregistered)"@,
    }
}

/// What the status bar shows, left to right after the application name.
pub struct StatusBar {
    /// The connection state, for the indicator's colour.
    pub state: ClientState,
    /// ` server — nick`, or ` nick` when disconnected.
    pub server_part: String,
    /// The NickServ status, for the badge's colour.
    pub auth: NickServStatus,
    pub auth_label: String,
    /// The connection indicator with a space on each side.
    pub state_text: String,
    /// ` [tls]` or ` [plain]`, unless disconnected.
    pub transport: Option<String>,
    /// The status message with a space on each side.
    pub message: String,
}

/// The contents of a `StatusBar`.
pub struct StatusBarView {
    pub state: ClientState,
    pub server_part: Seq<char>,
    pub auth: NickServStatus,
    pub auth_label: Seq<char>,
    pub state_text: Seq<char>,
    pub transport: Option<Seq<char>>,
    pub message: Seq<char>,
}

impl View for StatusBar {
    type V = StatusBarView;

    open spec fn view(&self) -> StatusBarView {
        StatusBarView {
            state: self.state,
            server_part: self.server_part@,
            auth: self.auth,
            auth_label: self.auth_label@,
            state_text: self.state_text@,
            transport: opt_view(self.transport),
            message: self.message@,
        }
    }
}

/// The status bar of the state `v`.
pub open spec fn status_bar_of(v: AppView) -> StatusBarView {
    StatusBarView {
        state: v.connection,
        server_part: if v.connection == ClientState::Disconnected {
            " "@ + v.user.nick
        } else {
            " "@ + v.config.server + " — "@ + v.user.nick
        },
        auth: v.user.status,
        auth_label: auth_label(v.user.status),
        state_text: " "@ + state_label(v.connection) + " "@,
        transport: if v.connection == ClientState::Disconnected {
            None
        } else if v.config.use_tls {
            Some(" [tls]"@)
        } else {
            Some(" [plain]"@)
        },
        message: " "@ + match v.status {
            Some(s) => s,
            None => Seq::empty(),
        } + " "@,
    }
}

/// A row of the navigation list.
pub enum NavRow {
    /// The server buffer, always first.
    Server { active: bool },
    /// A section heading: `Channels` or `Messages`.
    Section(String),
    /// A channel or conversation.
    Entry { label: String, active: bool },
}

/// The contents of a `NavRow`.
pub enum NavRowView {
    Server { active: bool },
    Section(Seq<char>),
    Entry { label: Seq<char>, active: bool },
}

impl View for NavRow {
    type V = NavRowView;

    open spec fn view(&self) -> NavRowView {
        match self {
            NavRow::Server { active } => NavRowView::Server { active: *active },
            NavRow::Section(t) => NavRowView::Section(t@),
            NavRow::Entry { label, active } => NavRowView::Entry { label: label@, active: *active },
        }
    }
}

pub open spec fn nav_row_views(v: Seq<NavRow>) -> Seq<NavRowView> {
    v.map_values(|r: NavRow| r@)
}

/// The row of the buffer `name`, highlighted when it is the focused one.
pub open spec fn entry_row(name: Seq<char>, active: Option<Seq<char>>) -> NavRowView {
    NavRowView::Entry { label: " "@ + name, active: active == Some(name) }
}

/// A section of the navigation list: its heading and one row per name, or
/// nothing when there are no names.
pub open spec fn section_rows(title: Seq<char>, names: Seq<Seq<char>>, active: Option<Seq<char>>) -> Seq<NavRowView> {
    if names.len() == 0 {
        Seq::empty()
    } else {
        seq![NavRowView::Section(title)] + Seq::new(names.len(), |i: int| entry_row(names[i], active))
    }
}

/// The navigation list: the server, the joined channels in alphabetical
/// order, then the open conversations.
pub open spec fn nav_rows_of(v: AppView) -> Seq<NavRowView> {
    seq![NavRowView::Server { active: v.active is None }]
        + section_rows("Channels"@, listing_of(joined_set(v.channels)), v.active)
        + section_rows("Messages"@, v.private_chats, v.active)
}

/// A row of the member list.
pub struct UserRow {
    /// The nick behind its prefix: `@` for operators, `+` for voiced
    /// members, a space otherwise.
    pub label: String,
    /// Whether the row is the local user (highlighted).
    pub is_self: bool,
}

/// The contents of a `UserRow`.
pub struct UserRowView {
    pub label: Seq<char>,
    pub is_self: bool,
}

impl View for UserRow {
    type V = UserRowView;

    open spec fn view(&self) -> UserRowView {
        UserRowView { label: self.label@, is_self: self.is_self }
    }
}

pub open spec fn user_row_views(v: Seq<UserRow>) -> Seq<UserRowView> {
    v.map_values(|r: UserRow| r@)
}

/// The prefix showing a member's privilege.
pub open spec fn member_prefix(m: MemberView) -> Seq<char> {
    if m.is_op {
        "@"@
    } else if m.is_voiced {
        "+"@
    } else {
        " "@
    }
}

/// The row of member `m`, where `own_nick_lower` is the local user's nick
/// lower-cased.
pub open spec fn user_row_of(m: MemberView, own_nick_lower: Seq<char>) -> UserRowView {
    UserRowView { label: member_prefix(m) + m.nick, is_self: lowercase(m.nick) == own_nick_lower }
}

/// The member list panel: its title and rows.
pub struct UserList {
    pub title: String,
    pub rows: Vec<UserRow>,
}

/// The contents of a `UserList`.
pub struct UserListView {
    pub title: Seq<char>,
    pub rows: Seq<UserRowView>,
}

impl View for UserList {
    type V = UserListView;

    open spec fn view(&self) -> UserListView {
        UserListView { title: self.title@, rows: user_row_views(self.rows@) }
    }
}

/// The member list of the focused channel, titled with the member count.
pub open spec fn user_list_of(v: AppView) -> UserListView {
    let members = active_members_of(v);
    UserListView {
        title: " users ("@ + decimal(members.len()) + ") "@,
        rows: Seq::new(members.len(), |i: int| user_row_of(members[i], lowercase(v.user.nick))),
    }
}

/// A line of the message pane as drawn.
pub enum PaneLine {
    /// A system message, indented by two spaces.
    System(String),
    /// A chat line: ` <nick>` and the text after a space.
    Chat { nick: String, text: String },
}

/// The contents of a `PaneLine`.
pub enum PaneLineView {
    System(Seq<char>),
    Chat { nick: Seq<char>, text: Seq<char> },
}

impl View for PaneLine {
    type V = PaneLineView;

    open spec fn view(&self) -> PaneLineView {
        match self {
            PaneLine::System(s) => PaneLineView::System(s@),
            PaneLine::Chat { nick, text } => PaneLineView::Chat { nick: nick@, text: text@ },
        }
    }
}

pub open spec fn pane_line_views(v: Seq<PaneLine>) -> Seq<PaneLineView> {
    v.map_values(|l: PaneLine| l@)
}

/// How a buffer line is drawn.
pub open spec fn pane_line_of(l: LineView) -> PaneLineView {
    match l {
        LineView::System(s) => PaneLineView::System("  "@ + s),
        LineView::Chat { nick, text } => PaneLineView::Chat { nick: " <"@ + nick + ">"@, text: " "@ + text },
    }
}

/// The text of a drawn line, its parts joined.
pub open spec fn pane_text(l: PaneLineView) -> Seq<char> {
    match l {
        PaneLineView::System(s) => s,
        PaneLineView::Chat { nick, text } => nick + text,
    }
}

/// The rows all of `lines` take in `width` columns.
pub open spec fn rows_sum(lines: Seq<PaneLineView>, width: u16) -> int
    decreases lines.len(),
{
    if lines.len() == 0 {
        0
    } else {
        rows_sum(lines.drop_last(), width) + rows_of(pane_text(lines.last()), width)
    }
}

/// `n`, or `usize::MAX` when it does not fit.
pub open spec fn capped(n: int) -> usize {
    if n > usize::MAX {
        usize::MAX
    } else if n < 0 {
        0
    } else {
        n as usize
    }
}

/// The largest scroll offset: the rows that do not fit.
pub open spec fn max_offset(total_rows: usize, visible_rows: usize) -> usize {
    sat_sub(total_rows, visible_rows)
}

/// The requested offset (rows above the bottom), kept from going past the top.
pub open spec fn clamped_offset(total_rows: usize, visible_rows: usize, offset: usize) -> usize {
    if offset < max_offset(total_rows, visible_rows) {
        offset
    } else {
        max_offset(total_rows, visible_rows)
    }
}

/// The first row shown, counted from the top, as the terminal library takes it.
pub open spec fn first_row(total_rows: usize, visible_rows: usize, offset: usize) -> u16 {
    (max_offset(total_rows, visible_rows) - clamped_offset(total_rows, visible_rows, offset)) as u16
}

/// The pane title: the buffer's name, marked while not at the bottom.
pub open spec fn pane_title(active: Option<Seq<char>>, scrolled: bool) -> Seq<char> {
    let name = match active {
        Some(a) => a,
        None => "server"@,
    };
    if scrolled {
        " "@ + name + " [scrolled] "@
    } else {
        " "@ + name + " "@
    }
}

/// The message pane: its title, its lines and the first row shown.
pub struct MessagePane {
    pub title: String,
    pub lines: Vec<PaneLine>,
    pub scroll_row: u16,
}

/// The contents of a `MessagePane`.
pub struct MessagePaneView {
    pub title: Seq<char>,
    pub lines: Seq<PaneLineView>,
    pub scroll_row: u16,
}

impl View for MessagePane {
    type V = MessagePaneView;

    open spec fn view(&self) -> MessagePaneView {
        MessagePaneView { title: self.title@, lines: pane_line_views(self.lines@), scroll_row: self.scroll_row }
    }
}

/// The lines of the focused buffer as drawn.
pub open spec fn pane_lines_of(v: AppView) -> Seq<PaneLineView> {
    let lines = active_lines_of(v);
    Seq::new(lines.len(), |i: int| pane_line_of(lines[i]))
}

/// The message pane of the state `v` in an area `width` by `height`
/// (borders included).
pub open spec fn pane_of(v: AppView, width: u16, height: u16) -> MessagePaneView {
    let lines = pane_lines_of(v);
    let inner_width: u16 = if width < 2 { 0 } else { (width - 2) as u16 };
    let visible = sat_sub(height as usize, 2);
    let total = capped(rows_sum(lines, inner_width));
    let offset = clamped_offset(total, visible, active_offset_of(v));
    MessagePaneView {
        title: pane_title(v.active, offset > 0),
        lines,
        scroll_row: first_row(total, visible, active_offset_of(v)),
    }
}

/// The input bar: the typed text, and whether it is a command.
pub struct InputBar {
    pub text: String,
    pub is_command: bool,
}

/// Where the message pane starts and whether it is scrolled: the requested
/// `offset` (rows above the bottom) is kept within the rows that do not fit;
/// the result is the first row shown and whether the view is off the bottom.
pub fn scroll_geometry(total_rows: usize, visible_rows: usize, offset: usize) -> (r: (u16, bool))
    ensures
        r.0 == first_row(total_rows, visible_rows, offset),
        r.1 == (clamped_offset(total_rows, visible_rows, offset) > 0),
{
    let max = total_rows.saturating_sub(visible_rows);
    let clamped = if offset < max { offset } else { max };
    ((max - clamped) as u16, clamped > 0)
}

/// The row of member `m` in the member list.
pub fn render_member(m: &MemberEntry, own_nick_lower: &str) -> (r: UserRow)
    ensures
        r@ == user_row_of(m@, own_nick_lower@),
{
    let prefix = if m.is_op {
        "@"
    } else if m.is_voiced {
        "+"
    } else {
        " "
    };
    let lower = to_lower(m.nick.as_str());
    UserRow { label: cat(owned(prefix), m.nick.as_str()), is_self: str_eq(lower.as_str(), own_nick_lower) }
}

/// A buffer line as drawn.
pub fn render_line(l: &BufferLine) -> (r: PaneLine)
    ensures
        r@ == pane_line_of(l@),
{
    match l {
        BufferLine::System(s) => PaneLine::System(cat(owned("  "), s.as_str())),
        BufferLine::Chat(m) => PaneLine::Chat {
            nick: cat(cat(owned(" <"), m.nick.as_str()), ">"),
            text: cat(owned(" "), m.text.as_str()),
        },
    }
}

/// The rows a drawn line takes in `width` columns, its parts wrapped as one.
pub fn rendered_row_count(l: &PaneLine, width: u16) -> (r: usize)
    ensures
        r == rows_of(pane_text(l@), width),
{
    match l {
        PaneLine::System(s) => row_count(s.as_str(), width),
        PaneLine::Chat { nick, text } => {
            let joined = cat(owned(nick.as_str()), text.as_str());
            row_count(joined.as_str(), width)
        },
    }
}

fn push_section(rows: &mut Vec<NavRow>, title: &str, names: &Vec<String>, active: &Option<String>)
    ensures
        nav_row_views(final(rows)@) == nav_row_views(old(rows)@) + section_rows(title@, views(names@), opt_view(*active)),
{
    let ghost start = nav_row_views(rows@);
    let ghost names_v = views(names@);
    let ghost act = opt_view(*active);
    if names.len() == 0 {
        assert(nav_row_views(rows@) =~= start + section_rows(title@, names_v, act));
        return;
    }
    rows.push(NavRow::Section(owned(title)));
    let mut i: usize = 0;
    while i < names.len()
        invariant
            i <= names@.len(),
            names_v == views(names@),
            act == opt_view(*active),
            nav_row_views(rows@) == start + seq![NavRowView::Section(title@)]
                + Seq::new(i as nat, |j: int| entry_row(names_v[j], act)),
        decreases names@.len() - i,
    {
        let ghost before = nav_row_views(rows@);
        let name = names[i].as_str();
        assert(names_v[i as int] == name@);
        let is_active = match active {
            Some(a) => str_eq(a.as_str(), name),
            None => false,
        };
        rows.push(NavRow::Entry { label: cat(owned(" "), name), active: is_active });
        proof {
            assert(nav_row_views(rows@) =~= before.push(entry_row(names_v[i as int], act)));
            assert(Seq::new((i + 1) as nat, |j: int| entry_row(names_v[j], act)) =~= Seq::new(
                i as nat,
                |j: int| entry_row(names_v[j], act),
            ).push(entry_row(names_v[i as int], act)));
            assert(nav_row_views(rows@) =~= start + seq![NavRowView::Section(title@)]
                + Seq::new((i + 1) as nat, |j: int| entry_row(names_v[j], act)));
        }
        i = i + 1;
    }
    proof {
        assert(Seq::new(names@.len(), |j: int| entry_row(names_v[j], act)) =~= Seq::new(
            names_v.len(),
            |j: int| entry_row(names_v[j], act),
        ));
        assert(nav_row_views(rows@) =~= start + section_rows(title@, names_v, act));
    }
}

impl App {
    /// What the status bar shows.
    pub fn status_bar(&self) -> (r: StatusBar)
        ensures
            r@ == status_bar_of(self@),
    {
        let state = self.connection_state();
        let label = match state {
            ClientState::Connected => "● connected",
            ClientState::Disconnected => "○ disconnected",
            ClientState::Connecting => "◌ connecting…",
            ClientState::Disconnecting => "◌ disconnecting…",
        };
        let auth = self.nickserv_status();
        let auth_text = match auth {
            NickServStatus::Authenticated => " (authenticated)",
            NickServStatus::Unauthenticated => " (unauthenticated)",
            NickServStatus::Unregistered => " (unregistered)",
        };
        let server_part = match self.client.current_server() {
            Some(srv) => cat(cat(cat(owned(" "), srv), " — "), self.nick()),
            None => cat(owned(" "), self.nick()),
        };
        let transport = match state {
            ClientState::Disconnected => None,
            _ => if self.client.is_tls() {
                Some(owned(" [tls]"))
            } else {
                Some(owned(" [plain]"))
            },
        };
        let status = match &self.status_message {
            Some(s) => s.as_str(),
            None => "",
        };
        proof {
            reveal_strlit("");
            assert(""@ =~= Seq::<char>::empty());
        }
        StatusBar {
            state,
            server_part,
            auth,
            auth_label: owned(auth_text),
            state_text: cat(cat(owned(" "), label), " "),
            transport,
            message: cat(cat(owned(" "), status), " "),
        }
    }

    /// The rows of the navigation list.
    pub fn nav_rows(&self) -> (r: Vec<NavRow>)
        ensures
            nav_row_views(r@) == nav_rows_of(self@),
    {
        let channels = self.sorted_joined_channels();
        let mut rows: Vec<NavRow> = Vec::new();
        rows.push(NavRow::Server { active: self.active_channel.is_none() });
        proof {
            assert(nav_row_views(rows@) =~= seq![NavRowView::Server { active: self@.active is None }]);
        }
        push_section(&mut rows, "Channels", &channels, &self.active_channel);
        push_section(&mut rows, "Messages", &self.private_chats, &self.active_channel);
        rows
    }

    /// The member list panel of the focused channel.
    pub fn user_list(&self) -> (r: UserList)
        ensures
            r@ == user_list_of(self@),
    {
        let members = self.active_channel_members();
        let own = to_lower(self.nick());
        let ghost mv = member_views(members@);
        let mut rows: Vec<UserRow> = Vec::new();
        let mut i: usize = 0;
        while i < members.len()
            invariant
                i <= members@.len(),
                mv == member_views(members@),
                user_row_views(rows@) == Seq::new(i as nat, |j: int| user_row_of(mv[j], own@)),
            decreases members@.len() - i,
        {
            let ghost before = user_row_views(rows@);
            assert(mv[i as int] == members@[i as int]@);
            rows.push(render_member(&members[i], own.as_str()));
            proof {
                assert(user_row_views(rows@) =~= before.push(user_row_of(mv[i as int], own@)));
                assert(user_row_views(rows@) =~= Seq::new((i + 1) as nat, |j: int| user_row_of(mv[j], own@)));
            }
            i = i + 1;
        }
        let title = cat(cat(owned(" users ("), usize_to_string(members.len()).as_str()), ") ");
        proof {
            assert(user_row_views(rows@) =~= Seq::new(mv.len(), |j: int| user_row_of(mv[j], own@)));
        }
        UserList { title, rows }
    }

    /// The message pane for an area `width` by `height` (borders included).
    /// The height is kept for page-sized scrolling.
    pub fn message_pane(&mut self, width: u16, height: u16) -> (r: MessagePane)
        ensures
            final(self)@ == (AppView { pane_height: height, ..old(self)@ }),
            r@ == pane_of(old(self)@, width, height),
    {
        self.message_pane_height = height;
        let ghost v = self@;
        let source = self.active_lines();
        let ghost lv = line_views(source@);
        let inner_width = width.saturating_sub(2);
        let mut lines: Vec<PaneLine> = Vec::new();
        let mut total: usize = 0;
        let mut i: usize = 0;
        while i < source.len()
            invariant
                i <= source@.len(),
                lv == line_views(source@),
                pane_line_views(lines@) == Seq::new(i as nat, |j: int| pane_line_of(lv[j])),
                total == capped(rows_sum(pane_line_views(lines@), inner_width)),
                rows_sum(pane_line_views(lines@), inner_width) >= 0,
            decreases source@.len() - i,
        {
            let ghost before = pane_line_views(lines@);
            assert(lv[i as int] == source@[i as int]@);
            let line = render_line(&source[i]);
            let rows = rendered_row_count(&line, inner_width);
            lines.push(line);
            proof {
                let after = pane_line_views(lines@);
                assert(after =~= before.push(pane_line_of(lv[i as int])));
                assert(after.drop_last() =~= before);
                assert(after =~= Seq::new((i + 1) as nat, |j: int| pane_line_of(lv[j])));
            }
            total = total.saturating_add(rows);
            i = i + 1;
        }
        proof {
            assert(pane_line_views(lines@) =~= pane_lines_of(v));
        }
        let visible = (height as usize).saturating_sub(2);
        let offset = self.active_scroll_offset();
        let (scroll_row, scrolled) = scroll_geometry(total, visible, offset);
        let name = match &self.active_channel {
            Some(a) => a.as_str(),
            None => "server",
        };
        let title = if scrolled {
            cat(cat(owned(" "), name), " [scrolled] ")
        } else {
            cat(cat(owned(" "), name), " ")
        };
        MessagePane { title, lines, scroll_row }
    }

    /// The input bar.
    pub fn input_bar(&self) -> (r: InputBar)
        ensures
            r.text@ == self@.input,
            r.is_command == (self@.input.len() > 0 && self@.input[0] == '/'),
    {
        InputBar { text: owned(self.input.as_str()), is_command: starts_with_char(self.input.as_str(), '/') }
    }
}


/// The buffers the rows of a navigation list lead to, in order: the server
/// row to the server buffer (`None`), each entry to the buffer it names;
/// section headings lead nowhere.
pub open spec fn row_targets(rows: Seq<NavRowView>) -> Seq<Option<Seq<char>>>
    decreases rows.len(),
{
    if rows.len() == 0 {
        Seq::empty()
    } else {
        let rest = row_targets(rows.drop_last());
        match rows.last() {
            NavRowView::Server { .. } => rest.push(None),
            NavRowView::Section(_) => rest,
            NavRowView::Entry { label, .. } => rest.push(Some(label.skip(1))),
        }
    }
}

proof fn lemma_row_targets_append(a: Seq<NavRowView>, b: Seq<NavRowView>)
    ensures
        row_targets(a + b) == row_targets(a) + row_targets(b),
    decreases b.len(),
{
    if b.len() == 0 {
        assert(a + b =~= a);
        assert(row_targets(a) + row_targets(b) =~= row_targets(a));
    } else {
        lemma_row_targets_append(a, b.drop_last());
        assert((a + b).drop_last() =~= a + b.drop_last());
        assert((a + b).last() == b.last());
        match b.last() {
            NavRowView::Section(_) => {},
            _ => {
                assert(row_targets(a) + row_targets(b) =~= (row_targets(a) + row_targets(b.drop_last())).push(
                    row_targets(b).last(),
                ));
            },
        }
    }
}

proof fn lemma_entry_targets(names: Seq<Seq<char>>, active: Option<Seq<char>>, n: nat)
    requires
        n <= names.len(),
    ensures
        row_targets(Seq::new(n, |i: int| entry_row(names[i], active)))
            == names.take(n as int).map_values(|c: Seq<char>| Some(c)),
    decreases n,
{
    let rows = Seq::new(n, |i: int| entry_row(names[i], active));
    if n == 0 {
        assert(names.take(0).map_values(|c: Seq<char>| Some(c)) =~= Seq::<Option<Seq<char>>>::empty());
    } else {
        lemma_entry_targets(names, active, (n - 1) as nat);
        assert(rows.drop_last() =~= Seq::new((n - 1) as nat, |i: int| entry_row(names[i], active)));
        reveal_strlit(" ");
        assert((" "@ + names[n - 1]).skip(1) =~= names[n - 1]);
        assert(names.take(n as int).map_values(|c: Seq<char>| Some(c)) =~= names.take(n - 1).map_values(
            |c: Seq<char>| Some(c),
        ).push(Some(names[n - 1])));
    }
}

proof fn lemma_section_targets(title: Seq<char>, names: Seq<Seq<char>>, active: Option<Seq<char>>)
    ensures
        row_targets(section_rows(title, names, active)) == names.map_values(|c: Seq<char>| Some(c)),
{
    if names.len() == 0 {
        assert(names.map_values(|c: Seq<char>| Some(c)) =~= Seq::<Option<Seq<char>>>::empty());
    } else {
        let head = seq![NavRowView::Section(title)];
        let entries = Seq::new(names.len(), |i: int| entry_row(names[i], active));
        lemma_row_targets_append(head, entries);
        assert(head.drop_last() =~= Seq::<NavRowView>::empty());
        assert(head.last() == NavRowView::Section(title));
        assert(row_targets(head.drop_last()) =~= Seq::<Option<Seq<char>>>::empty());
        assert(row_targets(head) =~= Seq::<Option<Seq<char>>>::empty());
        lemma_entry_targets(names, active, names.len());
        assert(names.take(names.len() as int) =~= names);
        assert(row_targets(head) + row_targets(entries) =~= row_targets(entries));
    }
}

/// The navigation list shows the buffers in the order Alt+Up and Alt+Down
/// move through them: the server, the joined channels alphabetically, then
/// the conversations.
pub proof fn law_nav_rows_follow_navigation_order(v: AppView)
    ensures
        row_targets(nav_rows_of(v)) == nav_entries(v),
{
    let server = seq![NavRowView::Server { active: v.active is None }];
    let channels = section_rows("Channels"@, listing_of(joined_set(v.channels)), v.active);
    let chats = section_rows("Messages"@, v.private_chats, v.active);
    lemma_row_targets_append(server + channels, chats);
    lemma_row_targets_append(server, channels);
    lemma_section_targets("Channels"@, listing_of(joined_set(v.channels)), v.active);
    lemma_section_targets("Messages"@, v.private_chats, v.active);
    assert(server.drop_last() =~= Seq::<NavRowView>::empty());
    assert(row_targets(server.drop_last()) =~= Seq::<Option<Seq<char>>>::empty());
    assert(row_targets(server) =~= seq![None::<Seq<char>>]);
}

/// At the bottom (no offset) the pane shows the last rows and is not marked
/// as scrolled; whatever the offset, the view never goes above the first row.
pub proof fn law_scroll_stays_within_content(total_rows: usize, visible_rows: usize, offset: usize)
    ensures
        clamped_offset(total_rows, visible_rows, offset) <= max_offset(total_rows, visible_rows),
        offset == 0 ==> clamped_offset(total_rows, visible_rows, offset) == 0
            && first_row(total_rows, visible_rows, offset) == max_offset(total_rows, visible_rows) as u16,
        offset > 0 && total_rows > visible_rows ==> clamped_offset(total_rows, visible_rows, offset) > 0,
{
}


proof fn lemma_section_row(title: Seq<char>, names: Seq<Seq<char>>, active: Option<Seq<char>>, j: int)
    requires
        0 <= j < section_rows(title, names, active).len(),
    ensures
        section_rows(title, names, active).len() == names.len() + 1,
        j == 0 ==> section_rows(title, names, active)[j] == NavRowView::Section(title),
        j > 0 ==> section_rows(title, names, active)[j] == entry_row(names[j - 1], active),
{
}

/// The navigation list highlights exactly the focused buffer: the server row
/// when no buffer is focused, and otherwise the one entry whose name is the
/// focused buffer. In particular a focused conversation's row is highlighted.
pub proof fn law_nav_highlights_exactly_the_focused_buffer(v: AppView)
    ensures
        forall|i: int| 0 <= i < nav_rows_of(v).len() ==> match #[trigger] nav_rows_of(v)[i] {
            NavRowView::Server { active } => active == (v.active is None),
            NavRowView::Entry { label, active } => active == (v.active == Some(label.skip(1))),
            NavRowView::Section(_) => true,
        },
        v.active is Some && v.private_chats.contains(v.active->0) ==> exists|i: int|
            0 <= i < nav_rows_of(v).len() && #[trigger] nav_rows_of(v)[i] == (NavRowView::Entry {
                label: " "@ + v.active->0,
                active: true,
            }),
{
    reveal_strlit(" ");
    let a = seq![NavRowView::Server { active: v.active is None }];
    let b = section_rows("Channels"@, listing_of(joined_set(v.channels)), v.active);
    let c = section_rows("Messages"@, v.private_chats, v.active);
    let rows = nav_rows_of(v);
    assert(rows == a + b + c);
    assert forall|i: int| 0 <= i < rows.len() implies match #[trigger] rows[i] {
        NavRowView::Server { active } => active == (v.active is None),
        NavRowView::Entry { label, active } => active == (v.active == Some(label.skip(1))),
        NavRowView::Section(_) => true,
    } by {
        if i == 0 {
            assert(rows[i] == a[0]);
        } else if i < 1 + b.len() {
            assert(rows[i] == b[i - 1]);
            lemma_section_row("Channels"@, listing_of(joined_set(v.channels)), v.active, i - 1);
            if i - 1 > 0 {
                let n = listing_of(joined_set(v.channels))[i - 2];
                assert((" "@ + n).skip(1) =~= n);
            }
        } else {
            assert(rows[i] == c[i - 1 - b.len()]);
            lemma_section_row("Messages"@, v.private_chats, v.active, i - 1 - b.len());
            if i - 1 - b.len() > 0 {
                let n = v.private_chats[i - 2 - b.len()];
                assert((" "@ + n).skip(1) =~= n);
            }
        }
    }
    if v.active is Some && v.private_chats.contains(v.active->0) {
        let p = v.active->0;
        let k = choose|k: int| 0 <= k < v.private_chats.len() && v.private_chats[k] == p;
        let i = 1 + b.len() + 1 + k;
        lemma_section_row("Messages"@, v.private_chats, v.active, k + 1);
        assert(rows[i] == c[k + 1]);
        assert(rows[i] == (NavRowView::Entry { label: " "@ + p, active: true }));
    }
}

} // verus!
