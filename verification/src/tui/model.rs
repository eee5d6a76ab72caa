//! The state of the terminal interface and of what it asks for, with the views
//! that the contracts speak of.

use vstd::prelude::*;

use crate::ordering::{self, Listed};
use crate::text;
use crate::types::{
    Chat, ChatMember, ChatMemberView, ChatView, Invite, InviteView, Message, MessageView, Timestamp,
};

verus! {

/// Work that talks to a server. Queued rather than done on the spot, which a
/// round trip would stall for seconds.
pub enum Task {
    Send { chat_id: String, body: String },
    CreateDirect { name: Option<String>, address: String },
    CreateGroup { name: Option<String>, members: Vec<String> },
    Accept(Invite),
    Reject(Invite),
    AddMember { chat_id: String, address: String },
    RemoveMember { chat_id: String, address: String },
    PromoteMember { chat_id: String, address: String },
    DemoteMember { chat_id: String, address: String },
}

#[verifier::ext_equal]
pub enum TaskView {
    Send { chat_id: Seq<char>, body: Seq<char> },
    CreateDirect { name: Option<Seq<char>>, address: Seq<char> },
    CreateGroup { name: Option<Seq<char>>, members: Seq<Seq<char>> },
    Accept(InviteView),
    Reject(InviteView),
    AddMember { chat_id: Seq<char>, address: Seq<char> },
    RemoveMember { chat_id: Seq<char>, address: Seq<char> },
    PromoteMember { chat_id: Seq<char>, address: Seq<char> },
    DemoteMember { chat_id: Seq<char>, address: Seq<char> },
}

impl View for Task {
    type V = TaskView;

    open spec fn view(&self) -> TaskView {
        match *self {
            Task::Send { chat_id, body } => TaskView::Send { chat_id: chat_id@, body: body@ },
            Task::CreateDirect { name, address } => TaskView::CreateDirect {
                name: text::maybe_text(name),
                address: address@,
            },
            Task::CreateGroup { name, members } => TaskView::CreateGroup {
                name: text::maybe_text(name),
                members: text::texts(members@),
            },
            Task::Accept(invite) => TaskView::Accept(invite@),
            Task::Reject(invite) => TaskView::Reject(invite@),
            Task::AddMember { chat_id, address } => TaskView::AddMember {
                chat_id: chat_id@,
                address: address@,
            },
            Task::RemoveMember { chat_id, address } => TaskView::RemoveMember {
                chat_id: chat_id@,
                address: address@,
            },
            Task::PromoteMember { chat_id, address } => TaskView::PromoteMember {
                chat_id: chat_id@,
                address: address@,
            },
            Task::DemoteMember { chat_id, address } => TaskView::DemoteMember {
                chat_id: chat_id@,
                address: address@,
            },
        }
    }
}

/// What a task is called in error messages.
pub open spec fn task_label(task: TaskView) -> Seq<char> {
    match task {
        TaskView::Send { .. } => "send"@,
        TaskView::CreateDirect { .. } => "create"@,
        TaskView::CreateGroup { .. } => "create"@,
        TaskView::Accept(_) => "accept"@,
        TaskView::Reject(_) => "reject"@,
        TaskView::AddMember { .. } => "add"@,
        TaskView::RemoveMember { .. } => "remove"@,
        TaskView::PromoteMember { .. } => "promote"@,
        TaskView::DemoteMember { .. } => "demote"@,
    }
}

impl Task {
    /// What the task is called in error messages.
    pub fn label(&self) -> (label: &'static str)
        ensures
            label@ == task_label(self@),
    {
        match self {
            Task::Send { .. } => "send",
            Task::CreateDirect { .. } => "create",
            Task::CreateGroup { .. } => "create",
            Task::Accept(_) => "accept",
            Task::Reject(_) => "reject",
            Task::AddMember { .. } => "add",
            Task::RemoveMember { .. } => "remove",
            Task::PromoteMember { .. } => "promote",
            Task::DemoteMember { .. } => "demote",
        }
    }
}

/// What the keys go to.
#[derive(Clone, Copy, PartialEq, Eq, Structural, Debug)]
pub enum Pane {
    Chats,
    Input,
    NewChat,
    Members,
}

/// A new chat being filled in. A direct chat takes one address and no name —
/// it falls back to the other member's address.
pub struct NewChat {
    pub group: bool,
    pub members: String,
    pub name: String,
    /// The field being typed into: 0 members, 1 name (group only).
    pub field: usize,
}

#[verifier::ext_equal]
pub struct NewChatView {
    pub group: bool,
    pub members: Seq<char>,
    pub name: Seq<char>,
    pub field: int,
}

impl View for NewChat {
    type V = NewChatView;

    open spec fn view(&self) -> NewChatView {
        NewChatView {
            group: self.group,
            members: self.members@,
            name: self.name@,
            field: self.field as int,
        }
    }
}

/// The member list of a chat, open over it. Only a group chat's members can
/// be changed, and only by an owner — a direct chat's pair is fixed.
pub struct Members {
    pub chat_id: String,
    pub group: bool,
    pub rows: Vec<ChatMember>,
    pub selected: Option<usize>,
    /// The address being typed in, while adding a member.
    pub adding: Option<String>,
}

#[verifier::ext_equal]
pub struct MembersView {
    pub chat_id: Seq<char>,
    pub group: bool,
    pub rows: Seq<ChatMemberView>,
    pub selected: Option<int>,
    pub adding: Option<Seq<char>>,
}

/// An optional index as an integer.
pub open spec fn maybe_index(index: Option<usize>) -> Option<int> {
    match index {
        Some(index) => Some(index as int),
        None => None,
    }
}

impl View for Members {
    type V = MembersView;

    open spec fn view(&self) -> MembersView {
        MembersView {
            chat_id: self.chat_id@,
            group: self.group,
            rows: ordering::views(self.rows@),
            selected: maybe_index(self.selected),
            adding: text::maybe_text(self.adding),
        }
    }
}

/// A row of the list of chats and invites.
pub enum ListRow {
    Chat(Chat),
    Invite(Invite),
}

#[verifier::ext_equal]
pub enum RowView {
    Chat(ChatView),
    Invite(InviteView),
}

impl View for ListRow {
    type V = RowView;

    open spec fn view(&self) -> RowView {
        match *self {
            ListRow::Chat(chat) => RowView::Chat(chat@),
            ListRow::Invite(invite) => RowView::Invite(invite@),
        }
    }
}

/// The moment that a row is listed by.
pub open spec fn row_activity(row: RowView) -> Timestamp {
    match row {
        RowView::Chat(chat) => chat.last_activity,
        RowView::Invite(invite) => invite.proposed,
    }
}

/// What tells a row from the others, however the list changes.
pub open spec fn key_of(row: RowView) -> Seq<char> {
    match row {
        RowView::Chat(chat) => "c:"@ + chat.id,
        RowView::Invite(invite) => "i:"@ + invite.chat_id,
    }
}

impl ListRow {
    /// The moment that the row is listed by.
    pub fn activity(&self) -> (moment: Timestamp)
        ensures
            moment == row_activity(self@),
    {
        match self {
            ListRow::Chat(chat) => chat.last_activity,
            ListRow::Invite(invite) => invite.proposed,
        }
    }
}

/// What tells a row from the others, however the list changes.
pub fn row_key(row: &ListRow) -> (key: String)
    ensures
        key@ == key_of(row@),
{
    match row {
        ListRow::Chat(chat) => text::concat("c:", chat.id.as_str()),
        ListRow::Invite(invite) => text::concat("i:", invite.chat_id.as_str()),
    }
}

/// Rows are listed with the most recent activity first.
impl Listed for ListRow {
    open spec fn later(a: RowView, b: RowView) -> bool {
        row_activity(a).unix_nanos < row_activity(b).unix_nanos
    }

    fn is_later(&self, other: &Self) -> (later: bool) {
        self.activity().unix_nanos < other.activity().unix_nanos
    }
}

/// The rows of some chats and invites, most recent activity first.
pub open spec fn listing(chats: Seq<ChatView>, invites: Seq<InviteView>) -> Seq<RowView> {
    ordering::in_order(
        chats.map_values(|chat: ChatView| RowView::Chat(chat)) + invites.map_values(
            |invite: InviteView| RowView::Invite(invite),
        ),
        |a: RowView, b: RowView| <ListRow as Listed>::later(a, b),
    )
}

/// The first row from `from` on that a key belongs to.
pub open spec fn key_position(rows: Seq<RowView>, key: Seq<char>, from: int) -> Option<int>
    decreases rows.len() - from,
{
    if from < 0 || from >= rows.len() {
        None
    } else if key_of(rows[from]) == key {
        Some(from)
    } else {
        key_position(rows, key, from + 1)
    }
}

/// What belongs to a key is one of the rows.
pub proof fn lemma_key_position(rows: Seq<RowView>, key: Seq<char>, from: int)
    requires
        0 <= from,
    ensures
        key_position(rows, key, from) matches Some(index) ==> from <= index < rows.len() && key_of(
            rows[index],
        ) == key && (forall|before: int| from <= before < index ==> key_of(rows[before]) != key),
        key_position(rows, key, from) is None ==> (forall|i: int|
            from <= i < rows.len() ==> key_of(rows[i]) != key),
    decreases rows.len() - from,
{
    if from < rows.len() && key_of(rows[from]) != key {
        lemma_key_position(rows, key, from + 1);
    }
}

/// The first member from `from` on with an address.
pub open spec fn member_position(
    rows: Seq<ChatMemberView>,
    address: Seq<char>,
    from: int,
) -> Option<int>
    decreases rows.len() - from,
{
    if from < 0 || from >= rows.len() {
        None
    } else if rows[from].address == address {
        Some(from)
    } else {
        member_position(rows, address, from + 1)
    }
}

/// What has an address is one of the members.
pub proof fn lemma_member_position(rows: Seq<ChatMemberView>, address: Seq<char>, from: int)
    requires
        0 <= from,
    ensures
        member_position(rows, address, from) matches Some(index) ==> from <= index < rows.len()
            && rows[index].address == address && (forall|before: int|
            from <= before < index ==> rows[before].address != address),
        member_position(rows, address, from) is None ==> (forall|i: int|
            from <= i < rows.len() ==> rows[i].address != address),
    decreases rows.len() - from,
{
    if from < rows.len() && rows[from].address != address {
        lemma_member_position(rows, address, from + 1);
    }
}

/// The row to select in a list of `len`, where `found` is the one that was
/// selected before, if it is still there: that one, or else the first.
pub open spec fn selection(found: Option<int>, len: int) -> Option<int> {
    match found {
        Some(index) => Some(index),
        None => if len == 0 {
            None
        } else {
            Some(0)
        },
    }
}

/// The next row down or up in a list of `len`, going round at the ends.
pub open spec fn neighbour(selected: Option<int>, len: int, down: bool) -> int {
    let current = match selected {
        Some(index) => index,
        None => 0,
    };
    if down {
        (current + 1) % len
    } else {
        (current - 1) % len
    }
}

/// What is done once the chats have been read.
pub enum AfterChats {
    /// The interface opens.
    Start,
    /// Everything that is shown is read again.
    Refresh,
    /// A chat is selected.
    Select(String),
}

#[verifier::ext_equal]
pub enum AfterChatsView {
    Start,
    Refresh,
    Select(Seq<char>),
}

impl View for AfterChats {
    type V = AfterChatsView;

    open spec fn view(&self) -> AfterChatsView {
        match *self {
            AfterChats::Start => AfterChatsView::Start,
            AfterChats::Refresh => AfterChatsView::Refresh,
            AfterChats::Select(chat_id) => AfterChatsView::Select(chat_id@),
        }
    }
}

/// What is done once a chat's messages have been read.
pub enum AfterMessages {
    Nothing,
    /// The members that are shown are read again.
    Members,
    /// A task is queued.
    Queue(Task),
}

#[verifier::ext_equal]
pub enum AfterMessagesView {
    Nothing,
    Members,
    Queue(TaskView),
}

impl View for AfterMessages {
    type V = AfterMessagesView;

    open spec fn view(&self) -> AfterMessagesView {
        match *self {
            AfterMessages::Nothing => AfterMessagesView::Nothing,
            AfterMessages::Members => AfterMessagesView::Members,
            AfterMessages::Queue(task) => AfterMessagesView::Queue(task@),
        }
    }
}

/// What the interface wants done outside. The answer goes back to it, and what
/// it wants after that is done in turn.
pub enum Effect {
    Nothing,
    /// Read the chats; goes back to `chats_read`.
    ReadChats(AfterChats),
    /// Read a chat's messages; goes back to `messages_read`.
    ReadMessages { chat_id: String, after: AfterMessages },
    /// Find out whether a chat is a group chat; goes back to `group_checked`.
    CheckGroup { chat_id: String },
    /// Ask for a chat's members, which arrive later; goes back to
    /// `members_requested`.
    RequestMembers { chat_id: String, report: bool },
    /// Queue a task; goes back to `task_sent`.
    Queue(Task),
}

#[verifier::ext_equal]
pub enum EffectView {
    Nothing,
    ReadChats(AfterChatsView),
    ReadMessages { chat_id: Seq<char>, after: AfterMessagesView },
    CheckGroup { chat_id: Seq<char> },
    RequestMembers { chat_id: Seq<char>, report: bool },
    Queue(TaskView),
}

impl View for Effect {
    type V = EffectView;

    open spec fn view(&self) -> EffectView {
        match *self {
            Effect::Nothing => EffectView::Nothing,
            Effect::ReadChats(after) => EffectView::ReadChats(after@),
            Effect::ReadMessages { chat_id, after } => EffectView::ReadMessages {
                chat_id: chat_id@,
                after: after@,
            },
            Effect::CheckGroup { chat_id } => EffectView::CheckGroup { chat_id: chat_id@ },
            Effect::RequestMembers { chat_id, report } => EffectView::RequestMembers {
                chat_id: chat_id@,
                report,
            },
            Effect::Queue(task) => EffectView::Queue(task@),
        }
    }
}

/// The state of the interface.
pub struct App {
    /// This account's address.
    pub account: String,
    pub chats: Vec<Chat>,
    pub invites: Vec<Invite>,
    /// The chats and invites, in the order in which they are shown.
    pub rows: Vec<ListRow>,
    pub selected: Option<usize>,
    /// The messages of the selected chat.
    pub messages: Vec<Message>,
    pub input: String,
    pub pane: Pane,
    pub new_chat: Option<NewChat>,
    pub members: Option<Members>,
    pub error: Option<String>,
    pub quit: bool,
    /// Coalesces bursts of watch events into one reload per redraw tick.
    pub dirty: bool,
    /// Queued tasks yet to finish, shown in the status line.
    pub pending: usize,
}

#[verifier::ext_equal]
pub struct AppView {
    pub account: Seq<char>,
    pub chats: Seq<ChatView>,
    pub invites: Seq<InviteView>,
    pub rows: Seq<RowView>,
    pub selected: Option<int>,
    pub messages: Seq<MessageView>,
    pub input: Seq<char>,
    pub pane: Pane,
    pub new_chat: Option<NewChatView>,
    pub members: Option<MembersView>,
    pub error: Option<Seq<char>>,
    pub quit: bool,
    pub dirty: bool,
    pub pending: nat,
}

impl View for App {
    type V = AppView;

    open spec fn view(&self) -> AppView {
        AppView {
            account: self.account@,
            chats: ordering::views(self.chats@),
            invites: ordering::views(self.invites@),
            rows: ordering::views(self.rows@),
            selected: maybe_index(self.selected),
            messages: ordering::views(self.messages@),
            input: self.input@,
            pane: self.pane,
            new_chat: match self.new_chat {
                Some(new_chat) => Some(new_chat@),
                None => None,
            },
            members: match self.members {
                Some(members) => Some(members@),
                None => None,
            },
            error: text::maybe_text(self.error),
            quit: self.quit,
            dirty: self.dirty,
            pending: self.pending as nat,
        }
    }
}

/// Whether a selection fits a list of `len`: one of its rows, or none where it
/// has none.
pub open spec fn fits(selected: Option<int>, len: int) -> bool {
    match selected {
        Some(index) => 0 <= index < len,
        None => len == 0,
    }
}

impl MembersView {
    /// The member that is selected.
    pub open spec fn selected_member(self) -> Option<ChatMemberView> {
        match self.selected {
            Some(index) if 0 <= index < self.rows.len() => Some(self.rows[index]),
            _ => None,
        }
    }

    /// The list with other members, and the same address selected.
    pub open spec fn with_rows(self, rows: Seq<ChatMemberView>) -> MembersView {
        let found = match self.selected_member() {
            Some(member) => member_position(rows, member.address, 0),
            None => None,
        };
        MembersView { rows, selected: selection(found, rows.len() as int), ..self }
    }

    /// Other members leave one of them selected, if there is any.
    pub proof fn lemma_rows(self, rows: Seq<ChatMemberView>)
        ensures
            fits(self.with_rows(rows).selected, rows.len() as int),
    {
        if let Some(member) = self.selected_member() {
            lemma_member_position(rows, member.address, 0);
        }
    }
}

impl AppView {
    /// What always holds of the interface: it shows its chats and invites, most
    /// recent first, with one row selected if there is any; the form for a new
    /// chat is there exactly while the keys go to it, and so is the member list;
    /// only a group chat's form has a second field.
    pub open spec fn wf(self) -> bool {
        &&& self.rows == listing(self.chats, self.invites)
        &&& fits(self.selected, self.rows.len() as int)
        &&& self.new_chat is Some <==> self.pane == Pane::NewChat
        &&& self.members is Some <==> self.pane == Pane::Members
        &&& self.new_chat matches Some(new_chat) ==> new_chat.field == 0 || new_chat.field == 1
            && new_chat.group
        &&& self.members matches Some(members) ==> fits(
            members.selected,
            members.rows.len() as int,
        )
    }

    /// The row that is selected.
    pub open spec fn selected_row(self) -> Option<RowView> {
        match self.selected {
            Some(index) if 0 <= index < self.rows.len() => Some(self.rows[index]),
            _ => None,
        }
    }

    /// The id of the chat that is selected.
    pub open spec fn selected_chat_id(self) -> Option<Seq<char>> {
        match self.selected_row() {
            Some(RowView::Chat(chat)) => Some(chat.id),
            _ => None,
        }
    }

    /// The invite that is selected.
    pub open spec fn selected_invite(self) -> Option<InviteView> {
        match self.selected_row() {
            Some(RowView::Invite(invite)) => Some(invite),
            _ => None,
        }
    }

    /// The rows by the chats and invites that there are now, with the same row
    /// selected.
    pub open spec fn with_new_rows(self) -> AppView {
        let rows = listing(self.chats, self.invites);
        let found = match self.selected_row() {
            Some(row) => key_position(rows, key_of(row), 0),
            None => None,
        };
        AppView { rows, selected: selection(found, rows.len() as int), ..self }
    }

    /// Rebuilding the rows leaves one of them selected, if there is any.
    pub proof fn lemma_new_rows(self)
        ensures
            self.with_new_rows().rows == listing(self.chats, self.invites),
            fits(self.with_new_rows().selected, self.with_new_rows().rows.len() as int),
    {
        if let Some(row) = self.selected_row() {
            lemma_key_position(listing(self.chats, self.invites), key_of(row), 0);
        }
    }

    /// The interface of an account before anything has been read.
    pub open spec fn opening(account: Seq<char>) -> AppView {
        AppView {
            account,
            chats: Seq::empty(),
            invites: Seq::empty(),
            rows: Seq::empty(),
            selected: None,
            messages: Seq::empty(),
            input: Seq::empty(),
            pane: Pane::Chats,
            new_chat: None,
            members: None,
            error: None,
            quit: false,
            dirty: false,
            pending: 0,
        }
    }

    /// The interface opens in order.
    pub proof fn lemma_opening(account: Seq<char>)
        ensures
            AppView::opening(account).wf(),
    {
        assert(Seq::<ChatView>::empty().map_values(|chat: ChatView| RowView::Chat(chat))
            + Seq::<InviteView>::empty().map_values(|invite: InviteView| RowView::Invite(invite))
            =~= Seq::empty());
        assert(listing(Seq::empty(), Seq::empty()) =~= Seq::empty());
    }

    /// With an error shown.
    pub open spec fn failing(self, error: Seq<char>) -> AppView {
        AppView { error: Some(error), ..self }
    }

    /// With no error shown.
    pub open spec fn cleared(self) -> AppView {
        AppView { error: None, ..self }
    }

    /// A task is queued, and no error is shown.
    pub open spec fn queueing(self, task: TaskView) -> (AppView, EffectView) {
        (self.cleared(), EffectView::Queue(task))
    }

    /// The members that are shown are asked for.
    pub open spec fn asking_members(self) -> (AppView, EffectView) {
        match self.members {
            Some(members) => (
                self,
                EffectView::RequestMembers { chat_id: members.chat_id, report: true },
            ),
            None => (self, EffectView::Nothing),
        }
    }

    /// What follows once the messages are there.
    pub open spec fn after_messages(self, after: AfterMessagesView) -> (AppView, EffectView) {
        match after {
            AfterMessagesView::Nothing => (self, EffectView::Nothing),
            AfterMessagesView::Members => self.asking_members(),
            AfterMessagesView::Queue(task) => self.queueing(task),
        }
    }

    /// The messages of the selected chat are read; there are none where no chat
    /// is selected.
    pub open spec fn loading(self, after: AfterMessagesView) -> (AppView, EffectView) {
        match self.selected_chat_id() {
            Some(chat_id) => (self, EffectView::ReadMessages { chat_id, after }),
            None => AppView { messages: Seq::empty(), ..self }.after_messages(after),
        }
    }

    /// Messages have been read, or could not be.
    pub open spec fn messages_read(
        self,
        result: Result<Seq<MessageView>, Seq<char>>,
        after: AfterMessagesView,
    ) -> (AppView, EffectView) {
        let next = match result {
            Ok(messages) => AppView { messages, ..self },
            Err(error) => self.failing("read error: "@ + error),
        };
        next.after_messages(after)
    }

    /// The chats have been read, or could not be.
    pub open spec fn chats_read(
        self,
        result: Result<Seq<ChatView>, Seq<char>>,
        after: AfterChatsView,
    ) -> (AppView, EffectView) {
        let next = (match result {
            Ok(chats) => AppView { chats, ..self },
            Err(error) => self.failing("list error: "@ + error),
        }).with_new_rows();
        match after {
            AfterChatsView::Start => if next.rows.len() == 0 {
                (next, EffectView::Nothing)
            } else {
                AppView { selected: Some(0), ..next }.loading(AfterMessagesView::Nothing)
            },
            AfterChatsView::Refresh => next.loading(AfterMessagesView::Members),
            AfterChatsView::Select(chat_id) => {
                let found = key_position(next.rows, "c:"@ + chat_id, 0);
                AppView {
                    selected: match found {
                        Some(index) => Some(index),
                        None => next.selected,
                    },
                    ..next
                }.loading(AfterMessagesView::Nothing)
            },
        }
    }

    /// The interface is told that things have changed.
    pub open spec fn ticking(self) -> (AppView, EffectView) {
        if self.dirty {
            (
                AppView { dirty: false, ..self },
                EffectView::ReadChats(AfterChatsView::Refresh),
            )
        } else {
            (self, EffectView::Nothing)
        }
    }

    /// Other invites are pending.
    pub open spec fn invites_loaded(self, invites: Seq<InviteView>) -> AppView {
        AppView { invites, ..self }.with_new_rows()
    }

    /// A chat's members have arrived. A list for a chat whose pane has since
    /// closed or moved on is dropped.
    pub open spec fn members_loaded(
        self,
        chat_id: Seq<char>,
        rows: Seq<ChatMemberView>,
    ) -> AppView {
        match self.members {
            Some(members) if members.chat_id == chat_id => AppView {
                members: Some(members.with_rows(rows)),
                ..self
            },
            _ => self,
        }
    }

    /// A task was queued, or could not be.
    pub open spec fn task_sent(self, sent: bool) -> AppView {
        if sent {
            AppView { pending: self.pending + 1, ..self }
        } else {
            self.failing("tasks stopped"@)
        }
    }

    /// A queued task has finished.
    pub open spec fn task_done(self) -> AppView {
        AppView {
            pending: if self.pending == 0 {
                0
            } else {
                (self.pending - 1) as nat
            },
            dirty: true,
            ..self
        }
    }

    /// A chat turned out to be a group chat, or not: its member list opens.
    pub open spec fn group_checked(self, chat_id: Seq<char>, group: bool) -> (
        AppView,
        EffectView,
    ) {
        (
            AppView {
                members: Some(
                    MembersView {
                        chat_id,
                        group,
                        rows: Seq::empty(),
                        selected: None,
                        adding: None,
                    },
                ),
                pane: Pane::Members,
                ..self.cleared()
            },
            EffectView::RequestMembers { chat_id, report: false },
        )
    }
}

} // verus!
