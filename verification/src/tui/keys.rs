//! What the keys do.

use vstd::prelude::*;

use crate::ordering;
use crate::text;
use crate::tui::model::{
    self, AfterMessages, AfterMessagesView, App, AppView, Effect, EffectView, MembersView, NewChat,
    NewChatView, Pane, Task, TaskView,
};
use crate::types::{Invite, InviteView};

verus! {

/// A key.
#[derive(Clone, Copy, PartialEq, Eq, Structural, Debug)]
pub enum Key {
    Char(char),
    Enter,
    Esc,
    Tab,
    Backspace,
    Up,
    Down,
    Other,
}

/// A key that was pressed, and whether control was held.
#[derive(Clone, Copy, PartialEq, Eq, Structural, Debug)]
pub struct KeyPress {
    pub key: Key,
    pub control: bool,
}

/// A text without its last character, if it has one.
pub open spec fn shortened(s: Seq<char>) -> Seq<char> {
    if s.len() == 0 {
        s
    } else {
        s.drop_last()
    }
}

/// The invites but those to a chat.
pub open spec fn without_chat(invites: Seq<InviteView>, chat_id: Seq<char>) -> Seq<InviteView> {
    invites.filter(|invite: InviteView| invite.chat_id != chat_id)
}

impl NewChatView {
    /// An empty form.
    pub open spec fn blank(group: bool) -> NewChatView {
        NewChatView { group, members: Seq::empty(), name: Seq::empty(), field: 0 }
    }

    /// The field being typed into.
    pub open spec fn focused(self) -> Seq<char> {
        if self.field == 0 {
            self.members
        } else {
            self.name
        }
    }

    /// With something else in the field being typed into.
    pub open spec fn with_focused(self, s: Seq<char>) -> NewChatView {
        if self.field == 0 {
            NewChatView { members: s, ..self }
        } else {
            NewChatView { name: s, ..self }
        }
    }

    /// The name that was typed in, if any.
    pub open spec fn chosen_name(self) -> Option<Seq<char>> {
        if text::trimmed(self.name).len() == 0 {
            None
        } else {
            Some(text::trimmed(self.name))
        }
    }

    /// The task that the form asks for, or what is wrong with it.
    pub open spec fn request(self) -> Result<TaskView, Seq<char>> {
        let members = text::fields(self.members);
        if members.len() == 0 {
            Err("create error: an address is required"@)
        } else if self.group {
            Ok(TaskView::CreateGroup { name: self.chosen_name(), members })
        } else if members.len() == 1 {
            Ok(TaskView::CreateDirect { name: None, address: members[0] })
        } else {
            Err("create error: a direct chat takes one address"@)
        }
    }
}

impl MembersView {
    /// With the next member down or up selected.
    pub open spec fn moved(self, down: bool) -> MembersView {
        if self.rows.len() == 0 {
            self
        } else {
            MembersView {
                selected: Some(model::neighbour(self.selected, self.rows.len() as int, down)),
                ..self
            }
        }
    }
}

impl AppView {
    /// The interface with other members shown.
    pub open spec fn with_members(self, members: MembersView) -> AppView {
        AppView { members: Some(members), ..self }
    }

    /// The next row down or up is selected, and its messages are read.
    pub open spec fn moving(self, down: bool) -> (AppView, EffectView) {
        if self.rows.len() == 0 {
            (self, EffectView::Nothing)
        } else {
            AppView {
                selected: Some(model::neighbour(self.selected, self.rows.len() as int, down)),
                ..self
            }.loading(AfterMessagesView::Nothing)
        }
    }

    /// The typed message is queued, unless it is blank or no chat is selected.
    pub open spec fn sending(self) -> (AppView, EffectView) {
        match self.selected_chat_id() {
            Some(chat_id) if text::trimmed(self.input).len() > 0 => AppView {
                input: Seq::empty(),
                ..self
            }.queueing(TaskView::Send { chat_id, body: text::trimmed(self.input) }),
            _ => (self, EffectView::Nothing),
        }
    }

    /// The form for a new chat opens.
    pub open spec fn filling(self, group: bool) -> AppView {
        AppView { new_chat: Some(NewChatView::blank(group)), pane: Pane::NewChat, ..self.cleared() }
    }

    /// The form for a new chat closes.
    pub open spec fn unfilled(self) -> AppView {
        AppView { new_chat: None, pane: Pane::Chats, ..self }
    }

    /// The chat that was filled in is queued, or the form stays open with an
    /// error shown.
    pub open spec fn creating(self, new_chat: NewChatView) -> (AppView, EffectView) {
        match new_chat.request() {
            Ok(task) => self.unfilled().queueing(task),
            Err(error) => (self.failing(error), EffectView::Nothing),
        }
    }

    /// The selected invite's row goes. What is selected then is the first row.
    pub open spec fn dismissed(self, invite: InviteView) -> AppView {
        AppView { invites: without_chat(self.invites, invite.chat_id), ..self }.with_new_rows()
    }

    /// The selected invite is accepted.
    pub open spec fn accepting(self) -> (AppView, EffectView) {
        match self.selected_invite() {
            Some(invite) => self.dismissed(invite).queueing(TaskView::Accept(invite)),
            None => (self, EffectView::Nothing),
        }
    }

    /// The selected invite is rejected.
    pub open spec fn rejecting(self) -> (AppView, EffectView) {
        match self.selected_invite() {
            Some(invite) => self.dismissed(invite).loading(
                AfterMessagesView::Queue(TaskView::Reject(invite)),
            ),
            None => (self, EffectView::Nothing),
        }
    }

    /// The members of the selected chat are to be shown.
    pub open spec fn opening_members(self) -> (AppView, EffectView) {
        match self.selected_chat_id() {
            Some(chat_id) => (self, EffectView::CheckGroup { chat_id }),
            None => (self, EffectView::Nothing),
        }
    }

    /// The address that was typed in is queued as a new member, unless it is
    /// blank.
    pub open spec fn adding(self, members: MembersView, address: Seq<char>) -> (
        AppView,
        EffectView,
    ) {
        if text::trimmed(address).len() == 0 {
            (self, EffectView::Nothing)
        } else {
            self.with_members(MembersView { adding: None, ..members }).queueing(
                TaskView::AddMember {
                    chat_id: members.chat_id,
                    address: text::trimmed(address),
                },
            )
        }
    }

    /// A drop of the selected member is queued. Leaving a chat yourself is not
    /// the same thing, so the account itself is not dropped.
    pub open spec fn removing(self, members: MembersView) -> (AppView, EffectView) {
        match members.selected_member() {
            Some(member) => if member.address == self.account {
                (self.failing("remove error: cannot remove yourself"@), EffectView::Nothing)
            } else {
                self.queueing(
                    TaskView::RemoveMember { chat_id: members.chat_id, address: member.address },
                )
            },
            None => (self, EffectView::Nothing),
        }
    }

    /// Whichever of promotion and demotion the selected member's role calls for
    /// is queued.
    pub open spec fn toggling(self, members: MembersView) -> (AppView, EffectView) {
        match members.selected_member() {
            Some(member) => self.queueing(
                if member.owner {
                    TaskView::DemoteMember { chat_id: members.chat_id, address: member.address }
                } else {
                    TaskView::PromoteMember { chat_id: members.chat_id, address: member.address }
                },
            ),
            None => (self, EffectView::Nothing),
        }
    }

    /// What a key does in the list of chats.
    pub open spec fn chats_key(self, key: Key) -> (AppView, EffectView) {
        match key {
            Key::Char('q') | Key::Esc => (AppView { quit: true, ..self }, EffectView::Nothing),
            Key::Char('j') | Key::Down => self.moving(true),
            Key::Char('k') | Key::Up => self.moving(false),
            Key::Char('a') => self.accepting(),
            Key::Char('d') => self.rejecting(),
            Key::Char('n') => (self.filling(false), EffectView::Nothing),
            Key::Char('g') => (self.filling(true), EffectView::Nothing),
            Key::Char('m') => self.opening_members(),
            Key::Tab | Key::Enter | Key::Char('i') => if self.selected_chat_id() is Some {
                (AppView { pane: Pane::Input, ..self }, EffectView::Nothing)
            } else {
                (self, EffectView::Nothing)
            },
            _ => (self, EffectView::Nothing),
        }
    }

    /// What a key does in the message box. The arrows move between chats from
    /// here too; letters are text.
    pub open spec fn input_key(self, key: Key) -> (AppView, EffectView) {
        match key {
            Key::Esc | Key::Tab => (AppView { pane: Pane::Chats, ..self }, EffectView::Nothing),
            Key::Enter => self.sending(),
            Key::Down => self.moving(true),
            Key::Up => self.moving(false),
            Key::Backspace => (
                AppView { input: shortened(self.input), ..self },
                EffectView::Nothing,
            ),
            Key::Char(c) => (AppView { input: self.input.push(c), ..self }, EffectView::Nothing),
            Key::Other => (self, EffectView::Nothing),
        }
    }

    /// What a key does in the form for a new chat. Only a group chat has a
    /// second field to move to.
    pub open spec fn form_key(self, form: NewChatView, key: Key) -> (AppView, EffectView) {
        let typed = |form: NewChatView| (
            AppView { new_chat: Some(form), ..self },
            EffectView::Nothing,
        );
        match key {
            Key::Esc => (self.unfilled(), EffectView::Nothing),
            Key::Tab => if form.group {
                typed(NewChatView { field: 1 - form.field, ..form })
            } else {
                (self, EffectView::Nothing)
            },
            Key::Enter => if form.group && form.field == 0 {
                typed(NewChatView { field: 1, ..form })
            } else {
                self.creating(form)
            },
            Key::Backspace => typed(form.with_focused(shortened(form.focused()))),
            Key::Char(c) => typed(form.with_focused(form.focused().push(c))),
            _ => (self, EffectView::Nothing),
        }
    }

    /// What a key does while an address is typed in. Typing takes every key but
    /// Esc and Enter, so the list's keys are out of reach until the field is
    /// done with.
    pub open spec fn adding_key(self, members: MembersView, address: Seq<char>, key: Key) -> (
        AppView,
        EffectView,
    ) {
        let typed = |address: Option<Seq<char>>| (
            self.with_members(MembersView { adding: address, ..members }),
            EffectView::Nothing,
        );
        match key {
            Key::Esc => typed(None),
            Key::Enter => self.adding(members, address),
            Key::Backspace => typed(Some(shortened(address))),
            Key::Char(c) => typed(Some(address.push(c))),
            _ => (self, EffectView::Nothing),
        }
    }

    /// What a key does in the member list. Only a group chat's members can be
    /// changed.
    pub open spec fn members_key(self, members: MembersView, key: Key) -> (AppView, EffectView) {
        match key {
            Key::Esc | Key::Char('m') => (
                AppView { members: None, pane: Pane::Chats, ..self },
                EffectView::Nothing,
            ),
            Key::Char('j') | Key::Down => (
                self.with_members(members.moved(true)),
                EffectView::Nothing,
            ),
            Key::Char('k') | Key::Up => (
                self.with_members(members.moved(false)),
                EffectView::Nothing,
            ),
            Key::Char('a') if members.group => (
                self.with_members(MembersView { adding: Some(Seq::empty()), ..members }),
                EffectView::Nothing,
            ),
            Key::Char('d') if members.group => self.removing(members),
            Key::Char('p') if members.group => self.toggling(members),
            _ => (self, EffectView::Nothing),
        }
    }

    /// What a key does: Control-C quits from everywhere, and any other goes to
    /// the pane.
    pub open spec fn pressed(self, press: KeyPress) -> (AppView, EffectView) {
        if press.control && press.key == Key::Char('c') {
            (AppView { quit: true, ..self }, EffectView::Nothing)
        } else {
            match self.pane {
                Pane::Chats => self.chats_key(press.key),
                Pane::Input => self.input_key(press.key),
                Pane::NewChat => match self.new_chat {
                    Some(form) => self.form_key(form, press.key),
                    None => (self, EffectView::Nothing),
                },
                Pane::Members => match self.members {
                    Some(members) => match members.adding {
                        Some(address) => self.adding_key(members, address, press.key),
                        None => self.members_key(members, press.key),
                    },
                    None => (self, EffectView::Nothing),
                },
            }
        }
    }
}

/// Shorten a text by its last character, if it has one.
fn shorten(s: &mut String)
    ensures
        final(s)@ == shortened(old(s)@),
{
    s.pop();
}

/// The next row down or up in a list of `len`, going round at the ends.
fn next_row(selected: Option<usize>, len: usize, down: bool) -> (next: usize)
    requires
        len > 0,
        selected matches Some(index) ==> index < len,
    ensures
        next == model::neighbour(model::maybe_index(selected), len as int, down),
        next < len,
{
    let current: usize = match selected {
        Some(index) => index,
        None => 0,
    };
    proof {
        let (at, len) = (current as int, len as int);
        if at + 1 < len {
            vstd::arithmetic::div_mod::lemma_small_mod((at + 1) as nat, len as nat);
        } else {
            vstd::arithmetic::div_mod::lemma_mod_self_0(len);
        }
        if at > 0 {
            vstd::arithmetic::div_mod::lemma_small_mod((at - 1) as nat, len as nat);
        } else {
            vstd::arithmetic::div_mod::lemma_mod_add_multiples_vanish(-1, len);
            vstd::arithmetic::div_mod::lemma_small_mod((len - 1) as nat, len as nat);
        }
    }
    if down {
        if current + 1 == len {
            0
        } else {
            current + 1
        }
    } else if current == 0 {
        len - 1
    } else {
        current - 1
    }
}

/// The invites but those to a chat.
fn drop_invites(invites: &Vec<Invite>, chat_id: &str) -> (rest: Vec<Invite>)
    ensures
        ordering::views(rest@) == without_chat(ordering::views(invites@), chat_id@),
{
    let ghost all = ordering::views(invites@);
    let mut rest: Vec<Invite> = Vec::new();
    let mut i: usize = 0;
    proof {
        reveal(Seq::filter);
        assert(all.take(0) =~= Seq::empty());
        assert(ordering::views(rest@) =~= without_chat(all.take(0), chat_id@));
    }
    while i < invites.len()
        invariant
            i <= invites.len(),
            all == ordering::views(invites@),
            ordering::views(rest@) == without_chat(all.take(i as int), chat_id@),
        decreases invites.len() - i,
    {
        let ghost before = rest@;
        let invite = &invites[i];
        if !text::same_text(invite.chat_id.as_str(), chat_id) {
            rest.push(invite.clone());
            assert(ordering::views(rest@) =~= ordering::views(before).push(all[i as int]));
        }
        proof {
            reveal(Seq::filter);
            assert(all.take(i + 1).drop_last() =~= all.take(i as int));
            assert(all.take(i + 1).last() == all[i as int]);
        }
        i += 1;
    }
    assert(all.take(i as int) =~= all);
    rest
}

impl NewChat {
    /// Type a character into the focused field.
    fn push(&mut self, c: char)
        ensures
            final(self)@ == old(self)@.with_focused(old(self)@.focused().push(c)),
    {
        if self.field == 0 {
            self.members.push(c);
        } else {
            self.name.push(c);
        }
    }

    /// Take the last character off the focused field.
    fn pop(&mut self)
        ensures
            final(self)@ == old(self)@.with_focused(shortened(old(self)@.focused())),
    {
        if self.field == 0 {
            shorten(&mut self.members);
        } else {
            shorten(&mut self.name);
        }
    }

    /// The task that the form asks for, or what is wrong with it. A group chat
    /// with no name is left unnamed.
    pub fn to_task(&self) -> (request: Result<Task, String>)
        ensures
            (match request {
                Ok(task) => Ok(task@),
                Err(error) => Err(error@),
            }) == self@.request(),
    {
        let mut members = text::split_fields(self.members.as_str());
        let name = text::trim(self.name.as_str());
        if members.len() == 0 {
            Err("create error: an address is required".to_owned())
        } else if self.group {
            let name = if name.as_str().is_empty() {
                None
            } else {
                Some(name)
            };
            Ok(Task::CreateGroup { name, members })
        } else if members.len() == 1 {
            let ghost all = text::texts(members@);
            let address = members.remove(0);
            assert(address@ == all[0]);
            Ok(Task::CreateDirect { name: None, address })
        } else {
            Err("create error: a direct chat takes one address".to_owned())
        }
    }
}

impl App {
    /// Select the next row down or up.
    pub fn move_row(&mut self, down: bool) -> (effect: Effect)
        requires
            old(self)@.wf(),
        ensures
            (final(self)@, effect@) == old(self)@.moving(down),
            final(self)@.wf(),
    {
        if self.rows.len() == 0 {
            return Effect::Nothing;
        }
        self.selected = Some(next_row(self.selected, self.rows.len(), down));
        self.reload_messages(AfterMessages::Nothing)
    }

    /// Queue the typed message. It appears once the send lands and the reload
    /// that it triggers picks the new file up.
    pub fn send(&mut self) -> (effect: Effect)
        requires
            old(self)@.wf(),
        ensures
            (final(self)@, effect@) == old(self)@.sending(),
            final(self)@.wf(),
    {
        let body = text::trim(self.input.as_str());
        if body.as_str().is_empty() {
            return Effect::Nothing;
        }
        match self.selected_chat_id() {
            Some(chat_id) => {
                self.input = String::new();
                assert(self.input@ =~= Seq::<char>::empty());
                self.queue(Task::Send { chat_id, body })
            },
            None => Effect::Nothing,
        }
    }

    /// Open the form for a new chat.
    pub fn open_new_chat(&mut self, group: bool)
        requires
            old(self)@.wf(),
            old(self)@.pane == Pane::Chats,
        ensures
            final(self)@ == old(self)@.filling(group),
            final(self)@.wf(),
    {
        let form = NewChat { group, members: String::new(), name: String::new(), field: 0 };
        assert(form@ =~= NewChatView::blank(group));
        self.new_chat = Some(form);
        self.pane = Pane::NewChat;
        self.error = None;
    }

    /// Queue the chat being filled in. It is selected once created.
    pub fn create_chat(&mut self) -> (effect: Effect)
        requires
            old(self)@.wf(),
        ensures
            (final(self)@, effect@) == (match old(self)@.new_chat {
                Some(form) => old(self)@.creating(form),
                None => (old(self)@, EffectView::Nothing),
            }),
            final(self)@.wf(),
    {
        let request = match &self.new_chat {
            Some(form) => form.to_task(),
            None => {
                return Effect::Nothing;
            },
        };
        match request {
            Ok(task) => {
                self.new_chat = None;
                self.pane = Pane::Chats;
                self.queue(task)
            },
            Err(error) => {
                self.error = Some(error);
                Effect::Nothing
            },
        }
    }

    /// Take the invites to a chat off the list.
    fn dismiss(&mut self, invite: &Invite)
        requires
            old(self)@.wf(),
        ensures
            final(self)@ == old(self)@.dismissed(invite@),
            final(self)@.wf(),
    {
        self.invites = drop_invites(&self.invites, invite.chat_id.as_str());
        let ghost rest = self@;
        self.rebuild_rows();
        proof {
            rest.lemma_new_rows();
        }
    }

    /// Accept the selected invite. Its row goes as the acceptance is queued,
    /// rather than lingering until it lands.
    pub fn accept_invite(&mut self) -> (effect: Effect)
        requires
            old(self)@.wf(),
        ensures
            (final(self)@, effect@) == old(self)@.accepting(),
            final(self)@.wf(),
    {
        match self.selected_invite() {
            Some(invite) => {
                self.dismiss(&invite);
                self.queue(Task::Accept(invite))
            },
            None => Effect::Nothing,
        }
    }

    /// Reject the selected invite.
    pub fn reject_invite(&mut self) -> (effect: Effect)
        requires
            old(self)@.wf(),
        ensures
            (final(self)@, effect@) == old(self)@.rejecting(),
            final(self)@.wf(),
    {
        match self.selected_invite() {
            Some(invite) => {
                self.dismiss(&invite);
                self.reload_messages(AfterMessages::Queue(Task::Reject(invite)))
            },
            None => Effect::Nothing,
        }
    }

    /// Show the members of the selected chat.
    pub fn open_members(&mut self) -> (effect: Effect)
        requires
            old(self)@.wf(),
        ensures
            (final(self)@, effect@) == old(self)@.opening_members(),
            final(self)@.wf(),
    {
        match self.selected_chat_id() {
            Some(chat_id) => Effect::CheckGroup { chat_id },
            None => Effect::Nothing,
        }
    }

    /// Close the member list.
    pub fn close_members(&mut self)
        requires
            old(self)@.wf(),
            old(self)@.pane == Pane::Members,
        ensures
            final(self)@ == (AppView { members: None, pane: Pane::Chats, ..old(self)@ }),
            final(self)@.wf(),
    {
        self.members = None;
        self.pane = Pane::Chats;
    }

    /// Select the next member down or up.
    pub fn move_member(&mut self, down: bool)
        requires
            old(self)@.wf(),
        ensures
            final(self)@ == (match old(self)@.members {
                Some(members) => old(self)@.with_members(members.moved(down)),
                None => old(self)@,
            }),
            final(self)@.wf(),
    {
        match &mut self.members {
            Some(members) => {
                if members.rows.len() > 0 {
                    members.selected = Some(
                        next_row(members.selected, members.rows.len(), down),
                    );
                }
            },
            None => {},
        }
    }

    /// Open the add field.
    fn start_adding(&mut self)
        requires
            old(self)@.wf(),
        ensures
            final(self)@ == (match old(self)@.members {
                Some(members) => old(self)@.with_members(
                    (MembersView { adding: Some(Seq::empty()), ..members }),
                ),
                None => old(self)@,
            }),
            final(self)@.wf(),
    {
        let address = String::new();
        assert(address@ =~= Seq::<char>::empty());
        match &mut self.members {
            Some(members) => {
                members.adding = Some(address);
            },
            None => {},
        }
    }

    /// Queue the address typed into the add field.
    pub fn add_member(&mut self) -> (effect: Effect)
        requires
            old(self)@.wf(),
        ensures
            (final(self)@, effect@) == (match old(self)@.members {
                Some(members) => match members.adding {
                    Some(address) => old(self)@.adding(members, address),
                    None => (old(self)@, EffectView::Nothing),
                },
                None => (old(self)@, EffectView::Nothing),
            }),
            final(self)@.wf(),
    {
        let (chat_id, address) = match &self.members {
            Some(members) => match &members.adding {
                Some(address) => (members.chat_id.clone(), text::trim(address.as_str())),
                None => {
                    return Effect::Nothing;
                },
            },
            None => {
                return Effect::Nothing;
            },
        };
        if address.as_str().is_empty() {
            return Effect::Nothing;
        }
        match &mut self.members {
            Some(members) => {
                members.adding = None;
            },
            None => {},
        }
        self.queue(Task::AddMember { chat_id, address })
    }

    /// Queue a drop of the selected member, unless it is this account.
    pub fn remove_member(&mut self) -> (effect: Effect)
        requires
            old(self)@.wf(),
        ensures
            (final(self)@, effect@) == (match old(self)@.members {
                Some(members) => old(self)@.removing(members),
                None => (old(self)@, EffectView::Nothing),
            }),
            final(self)@.wf(),
    {
        let (chat_id, address) = match &self.members {
            Some(members) => match members.selected_member() {
                Some(member) => (members.chat_id.clone(), member.address.clone()),
                None => {
                    return Effect::Nothing;
                },
            },
            None => {
                return Effect::Nothing;
            },
        };
        if text::same_text(address.as_str(), self.account.as_str()) {
            self.error = Some("remove error: cannot remove yourself".to_owned());
            return Effect::Nothing;
        }
        self.queue(Task::RemoveMember { chat_id, address })
    }

    /// Queue whichever of promotion and demotion the selected member's current
    /// role calls for.
    pub fn toggle_member_owner(&mut self) -> (effect: Effect)
        requires
            old(self)@.wf(),
        ensures
            (final(self)@, effect@) == (match old(self)@.members {
                Some(members) => old(self)@.toggling(members),
                None => (old(self)@, EffectView::Nothing),
            }),
            final(self)@.wf(),
    {
        let (chat_id, address, owner) = match &self.members {
            Some(members) => match members.selected_member() {
                Some(member) => (members.chat_id.clone(), member.address.clone(), member.owner),
                None => {
                    return Effect::Nothing;
                },
            },
            None => {
                return Effect::Nothing;
            },
        };
        if owner {
            self.queue(Task::DemoteMember { chat_id, address })
        } else {
            self.queue(Task::PromoteMember { chat_id, address })
        }
    }

    /// A key in the list of chats.
    fn handle_chats_key(&mut self, key: Key) -> (effect: Effect)
        requires
            old(self)@.wf(),
            old(self)@.pane == Pane::Chats,
        ensures
            (final(self)@, effect@) == old(self)@.chats_key(key),
            final(self)@.wf(),
    {
        match key {
            Key::Char('q') | Key::Esc => {
                self.quit = true;
                Effect::Nothing
            },
            Key::Char('j') | Key::Down => self.move_row(true),
            Key::Char('k') | Key::Up => self.move_row(false),
            Key::Char('a') => self.accept_invite(),
            Key::Char('d') => self.reject_invite(),
            Key::Char('n') => {
                self.open_new_chat(false);
                Effect::Nothing
            },
            Key::Char('g') => {
                self.open_new_chat(true);
                Effect::Nothing
            },
            Key::Char('m') => self.open_members(),
            Key::Tab | Key::Enter | Key::Char('i') => {
                if self.selected_chat_id().is_some() {
                    self.pane = Pane::Input;
                }
                Effect::Nothing
            },
            _ => Effect::Nothing,
        }
    }

    /// A key in the message box.
    fn handle_input_key(&mut self, key: Key) -> (effect: Effect)
        requires
            old(self)@.wf(),
            old(self)@.pane == Pane::Input,
        ensures
            (final(self)@, effect@) == old(self)@.input_key(key),
            final(self)@.wf(),
    {
        match key {
            Key::Esc | Key::Tab => {
                self.pane = Pane::Chats;
                Effect::Nothing
            },
            Key::Enter => self.send(),
            Key::Down => self.move_row(true),
            Key::Up => self.move_row(false),
            Key::Backspace => {
                shorten(&mut self.input);
                Effect::Nothing
            },
            Key::Char(c) => {
                self.input.push(c);
                Effect::Nothing
            },
            Key::Other => Effect::Nothing,
        }
    }

    /// A key in the form for a new chat.
    fn handle_form_key(&mut self, key: Key) -> (effect: Effect)
        requires
            old(self)@.wf(),
            old(self)@.pane == Pane::NewChat,
        ensures
            (final(self)@, effect@) == old(self)@.form_key(old(self)@.new_chat->Some_0, key),
            final(self)@.wf(),
    {
        match key {
            Key::Esc => {
                self.new_chat = None;
                self.pane = Pane::Chats;
            },
            Key::Tab => {
                if let Some(form) = &mut self.new_chat {
                    if form.group {
                        form.field = 1 - form.field;
                    }
                }
            },
            Key::Enter => {
                if let Some(form) = &mut self.new_chat {
                    if form.group && form.field == 0 {
                        form.field = 1;
                        return Effect::Nothing;
                    }
                }
                return self.create_chat();
            },
            Key::Backspace => {
                if let Some(form) = &mut self.new_chat {
                    form.pop();
                }
            },
            Key::Char(c) => {
                if let Some(form) = &mut self.new_chat {
                    form.push(c);
                }
            },
            _ => {},
        }
        Effect::Nothing
    }

    /// A key in the add field.
    fn handle_adding_key(&mut self, key: Key) -> (effect: Effect)
        requires
            old(self)@.wf(),
            old(self)@.pane == Pane::Members,
            old(self)@.members->Some_0.adding is Some,
        ensures
            (final(self)@, effect@) == old(self)@.adding_key(
                old(self)@.members->Some_0,
                old(self)@.members->Some_0.adding->Some_0,
                key,
            ),
            final(self)@.wf(),
    {
        match key {
            Key::Esc => {
                if let Some(members) = &mut self.members {
                    members.adding = None;
                }
            },
            Key::Enter => {
                return self.add_member();
            },
            Key::Backspace => {
                if let Some(members) = &mut self.members {
                    if let Some(address) = &mut members.adding {
                        shorten(address);
                    }
                }
            },
            Key::Char(c) => {
                if let Some(members) = &mut self.members {
                    if let Some(address) = &mut members.adding {
                        address.push(c);
                    }
                }
            },
            _ => {},
        }
        Effect::Nothing
    }

    /// A key in the member list.
    fn handle_members_key(&mut self, key: Key, group: bool) -> (effect: Effect)
        requires
            old(self)@.wf(),
            old(self)@.pane == Pane::Members,
            old(self)@.members->Some_0.adding is None,
            old(self)@.members->Some_0.group == group,
        ensures
            (final(self)@, effect@) == old(self)@.members_key(old(self)@.members->Some_0, key),
            final(self)@.wf(),
    {
        match key {
            Key::Esc | Key::Char('m') => {
                self.close_members();
                Effect::Nothing
            },
            Key::Char('j') | Key::Down => {
                self.move_member(true);
                Effect::Nothing
            },
            Key::Char('k') | Key::Up => {
                self.move_member(false);
                Effect::Nothing
            },
            Key::Char('a') => {
                if group {
                    self.start_adding();
                }
                Effect::Nothing
            },
            Key::Char('d') => {
                if group {
                    self.remove_member()
                } else {
                    Effect::Nothing
                }
            },
            Key::Char('p') => {
                if group {
                    self.toggle_member_owner()
                } else {
                    Effect::Nothing
                }
            },
            _ => Effect::Nothing,
        }
    }

    /// Do what a key does.
    pub fn handle_key(&mut self, press: KeyPress) -> (effect: Effect)
        requires
            old(self)@.wf(),
        ensures
            (final(self)@, effect@) == old(self)@.pressed(press),
            final(self)@.wf(),
    {
        if press.control && press.key == Key::Char('c') {
            self.quit = true;
            return Effect::Nothing;
        }
        match self.pane {
            Pane::Chats => self.handle_chats_key(press.key),
            Pane::Input => self.handle_input_key(press.key),
            Pane::NewChat => self.handle_form_key(press.key),
            Pane::Members => {
                let (group, adding) = match &self.members {
                    Some(members) => (members.group, members.adding.is_some()),
                    None => (false, false),
                };
                if adding {
                    self.handle_adding_key(press.key)
                } else {
                    self.handle_members_key(press.key, group)
                }
            },
        }
    }
}

} // verus!
