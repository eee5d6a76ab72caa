//! What the interface does with what happens outside: answers to what it
//! wanted, and news.

use vstd::prelude::*;

use crate::ordering::{self, sort};
use crate::text;
use crate::tui::model::{
    self, AfterChats, AfterMessages, App, AppView, Effect, ListRow, Members, Pane, RowView, Task,
    row_key,
};
use crate::types::{Chat, ChatMember, ChatView, Invite, InviteView, Message};

verus! {

/// What a list read outside stands for, or why it could not be read.
pub open spec fn read_outcome<T: View>(result: Result<Vec<T>, String>) -> Result<
    Seq<T::V>,
    Seq<char>,
> {
    match result {
        Ok(list) => Ok(ordering::views(list@)),
        Err(error) => Err(error@),
    }
}

/// The first row that a key belongs to.
fn find_key(rows: &Vec<ListRow>, key: &str) -> (found: Option<usize>)
    ensures
        model::maybe_index(found) == model::key_position(ordering::views(rows@), key@, 0),
{
    let ghost all = ordering::views(rows@);
    let mut i: usize = 0;
    while i < rows.len()
        invariant
            i <= rows.len(),
            all == ordering::views(rows@),
            model::key_position(all, key@, 0) == model::key_position(all, key@, i as int),
        decreases rows.len() - i,
    {
        assert(all[i as int] == rows@[i as int]@);
        if text::same_text(row_key(&rows[i]).as_str(), key) {
            return Some(i);
        }
        i += 1;
    }
    None
}

/// The first member with an address.
fn find_address(rows: &Vec<ChatMember>, address: &str) -> (found: Option<usize>)
    ensures
        model::maybe_index(found) == model::member_position(ordering::views(rows@), address@, 0),
{
    let ghost all = ordering::views(rows@);
    let mut i: usize = 0;
    while i < rows.len()
        invariant
            i <= rows.len(),
            all == ordering::views(rows@),
            model::member_position(all, address@, 0) == model::member_position(
                all,
                address@,
                i as int,
            ),
        decreases rows.len() - i,
    {
        assert(all[i as int] == rows@[i as int]@);
        if text::same_text(rows[i].address.as_str(), address) {
            return Some(i);
        }
        i += 1;
    }
    None
}

/// The row to select in a list of `len`: the one that was found again, or else
/// the first.
fn reselect(found: Option<usize>, len: usize) -> (selected: Option<usize>)
    ensures
        model::maybe_index(selected) == model::selection(model::maybe_index(found), len as int),
{
    match found {
        Some(index) => Some(index),
        None => {
            if len == 0 {
                None
            } else {
                Some(0)
            }
        },
    }
}

/// The rows of some chats and invites, most recent activity first.
fn list_rows(chats: &Vec<Chat>, invites: &Vec<Invite>) -> (rows: Vec<ListRow>)
    ensures
        ordering::views(rows@) == model::listing(
            ordering::views(chats@),
            ordering::views(invites@),
        ),
{
    let ghost of_chats = ordering::views(chats@).map_values(|chat: ChatView| RowView::Chat(chat));
    let ghost of_invites = ordering::views(invites@).map_values(
        |invite: InviteView| RowView::Invite(invite),
    );
    let mut rows: Vec<ListRow> = Vec::new();
    let mut i: usize = 0;
    assert(ordering::views(rows@) =~= of_chats.take(0));
    while i < chats.len()
        invariant
            i <= chats.len(),
            of_chats == ordering::views(chats@).map_values(|chat: ChatView| RowView::Chat(chat)),
            ordering::views(rows@) == of_chats.take(i as int),
        decreases chats.len() - i,
    {
        let ghost before = rows@;
        rows.push(ListRow::Chat(chats[i].clone()));
        assert(ordering::views(rows@) =~= ordering::views(before).push(of_chats[i as int]));
        assert(of_chats.take(i + 1) =~= of_chats.take(i as int).push(of_chats[i as int]));
        i += 1;
    }
    let mut k: usize = 0;
    assert(ordering::views(rows@) =~= of_chats + of_invites.take(0));
    while k < invites.len()
        invariant
            k <= invites.len(),
            of_invites == ordering::views(invites@).map_values(
                |invite: InviteView| RowView::Invite(invite),
            ),
            ordering::views(rows@) == of_chats + of_invites.take(k as int),
        decreases invites.len() - k,
    {
        let ghost before = rows@;
        rows.push(ListRow::Invite(invites[k].clone()));
        assert(ordering::views(rows@) =~= ordering::views(before).push(of_invites[k as int]));
        assert(of_chats + of_invites.take(k + 1) =~= (of_chats + of_invites.take(k as int)).push(
            of_invites[k as int],
        ));
        k += 1;
    }
    assert(of_invites.take(k as int) =~= of_invites);
    sort(&mut rows);
    rows
}

impl Members {
    /// The member that is selected.
    pub fn selected_member(&self) -> (member: Option<&ChatMember>)
        ensures
            (match member {
                Some(member) => Some(member@),
                None => None,
            }) == self@.selected_member(),
    {
        match self.selected {
            Some(index) => {
                if index < self.rows.len() {
                    assert(ordering::views(self.rows@)[index as int] == self.rows@[index as int]@);
                    Some(&self.rows[index])
                } else {
                    None
                }
            },
            None => None,
        }
    }

    /// Take other members, keeping the same address selected.
    pub fn set_rows(&mut self, rows: Vec<ChatMember>)
        ensures
            final(self)@ == old(self)@.with_rows(ordering::views(rows@)),
    {
        let found = match self.selected_member() {
            Some(member) => find_address(&rows, member.address.as_str()),
            None => None,
        };
        self.selected = reselect(found, rows.len());
        self.rows = rows;
    }
}

impl App {
    /// The interface of an account, before anything has been read. Once the
    /// chats have been, it shows them.
    pub fn new(account: &str) -> (opened: (App, Effect))
        ensures
            opened.0@ == AppView::opening(account@),
            opened.0@.wf(),
            opened.1@ == model::EffectView::ReadChats(model::AfterChatsView::Start),
    {
        let app = App {
            account: account.to_owned(),
            chats: Vec::new(),
            invites: Vec::new(),
            rows: Vec::new(),
            selected: None,
            messages: Vec::new(),
            input: String::new(),
            pane: Pane::Chats,
            new_chat: None,
            members: None,
            error: None,
            quit: false,
            dirty: false,
            pending: 0,
        };
        proof {
            assert(app@ =~= AppView::opening(account@));
            AppView::lemma_opening(account@);
        }
        (app, Effect::ReadChats(AfterChats::Start))
    }

    /// The row that is selected.
    pub fn selected(&self) -> (row: Option<&ListRow>)
        ensures
            (match row {
                Some(row) => Some(row@),
                None => None,
            }) == self@.selected_row(),
    {
        match self.selected {
            Some(index) => {
                if index < self.rows.len() {
                    assert(ordering::views(self.rows@)[index as int] == self.rows@[index as int]@);
                    Some(&self.rows[index])
                } else {
                    None
                }
            },
            None => None,
        }
    }

    /// The key of the row that is selected.
    pub fn selected_key(&self) -> (key: Option<String>)
        ensures
            text::maybe_text(key) == (match self@.selected_row() {
                Some(row) => Some(model::key_of(row)),
                None => None,
            }),
    {
        match self.selected() {
            Some(row) => Some(row_key(row)),
            None => None,
        }
    }

    /// The id of the chat that is selected.
    pub fn selected_chat_id(&self) -> (chat_id: Option<String>)
        ensures
            text::maybe_text(chat_id) == self@.selected_chat_id(),
    {
        match self.selected() {
            Some(ListRow::Chat(chat)) => Some(chat.id.clone()),
            _ => None,
        }
    }

    /// The invite that is selected.
    pub fn selected_invite(&self) -> (invite: Option<Invite>)
        ensures
            (match invite {
                Some(invite) => Some(invite@),
                None => None,
            }) == self@.selected_invite(),
    {
        match self.selected() {
            Some(ListRow::Invite(invite)) => Some(invite.clone()),
            _ => None,
        }
    }

    /// Combine chats and invites into rows, most recent activity first, and
    /// keep the same row selected.
    pub fn rebuild_rows(&mut self)
        ensures
            final(self)@ == old(self)@.with_new_rows(),
    {
        let key = self.selected_key();
        let rows = list_rows(&self.chats, &self.invites);
        let found = match &key {
            Some(key) => find_key(&rows, key.as_str()),
            None => None,
        };
        self.selected = reselect(found, rows.len());
        self.rows = rows;
    }

    /// Ask for the members that are shown.
    pub fn reload_members(&mut self) -> (effect: Effect)
        ensures
            (final(self)@, effect@) == old(self)@.asking_members(),
    {
        match &self.members {
            Some(members) => Effect::RequestMembers {
                chat_id: members.chat_id.clone(),
                report: true,
            },
            None => Effect::Nothing,
        }
    }

    /// Queue a task.
    pub fn queue(&mut self, task: Task) -> (effect: Effect)
        ensures
            (final(self)@, effect@) == old(self)@.queueing(task@),
    {
        self.error = None;
        Effect::Queue(task)
    }

    /// What follows once the messages are there.
    fn follow(&mut self, after: AfterMessages) -> (effect: Effect)
        ensures
            (final(self)@, effect@) == old(self)@.after_messages(after@),
    {
        match after {
            AfterMessages::Nothing => Effect::Nothing,
            AfterMessages::Members => self.reload_members(),
            AfterMessages::Queue(task) => self.queue(task),
        }
    }

    /// Read the messages of the selected chat, if one is selected.
    pub fn reload_messages(&mut self, after: AfterMessages) -> (effect: Effect)
        ensures
            (final(self)@, effect@) == old(self)@.loading(after@),
    {
        match self.selected_chat_id() {
            Some(chat_id) => Effect::ReadMessages { chat_id, after },
            None => {
                self.messages = Vec::new();
                assert(ordering::views(self.messages@) =~= Seq::empty());
                self.follow(after)
            },
        }
    }

    /// The messages that were wanted, or why they could not be read.
    pub fn messages_read(
        &mut self,
        result: Result<Vec<Message>, String>,
        after: AfterMessages,
    ) -> (effect: Effect)
        ensures
            (final(self)@, effect@) == old(self)@.messages_read(read_outcome(result), after@),
            old(self)@.wf() ==> final(self)@.wf(),
    {
        match result {
            Ok(messages) => {
                self.messages = messages;
            },
            Err(error) => {
                self.error = Some(text::concat("read error: ", error.as_str()));
            },
        }
        self.follow(after)
    }

    /// The chats that were wanted, or why they could not be read.
    pub fn chats_read(
        &mut self,
        result: Result<Vec<Chat>, String>,
        after: AfterChats,
    ) -> (effect: Effect)
        ensures
            (final(self)@, effect@) == old(self)@.chats_read(read_outcome(result), after@),
            old(self)@.wf() ==> final(self)@.wf(),
    {
        match result {
            Ok(chats) => {
                self.chats = chats;
            },
            Err(error) => {
                self.error = Some(text::concat("list error: ", error.as_str()));
            },
        }
        let ghost read = self@;
        self.rebuild_rows();
        proof {
            read.lemma_new_rows();
        }
        match after {
            AfterChats::Start => {
                if self.rows.len() == 0 {
                    Effect::Nothing
                } else {
                    self.selected = Some(0);
                    self.reload_messages(AfterMessages::Nothing)
                }
            },
            AfterChats::Refresh => self.reload_messages(AfterMessages::Members),
            AfterChats::Select(chat_id) => {
                let key = text::concat("c:", chat_id.as_str());
                let found = find_key(&self.rows, key.as_str());
                proof {
                    model::lemma_key_position(self@.rows, key@, 0);
                }
                if let Some(index) = found {
                    self.selected = Some(index);
                }
                self.reload_messages(AfterMessages::Nothing)
            },
        }
    }

    /// A chat turned out to be a group chat, or not: open its member list.
    pub fn group_checked(&mut self, chat_id: String, group: bool) -> (effect: Effect)
        requires
            old(self)@.pane == Pane::Chats,
        ensures
            (final(self)@, effect@) == old(self)@.group_checked(chat_id@, group),
            old(self)@.wf() ==> final(self)@.wf(),
    {
        let request = Effect::RequestMembers { chat_id: chat_id.clone(), report: false };
        let members = Members { chat_id, group, rows: Vec::new(), selected: None, adding: None };
        assert(ordering::views(members.rows@) =~= Seq::empty());
        self.members = Some(members);
        self.pane = Pane::Members;
        self.error = None;
        request
    }

    /// Members were asked for, or could not be; `report` is whether to say so.
    pub fn members_requested(&mut self, sent: bool, report: bool)
        ensures
            final(self)@ == (if !sent && report {
                old(self)@.failing("members stopped"@)
            } else {
                old(self)@
            }),
            old(self)@.wf() ==> final(self)@.wf(),
    {
        if !sent && report {
            self.error = Some("members stopped".to_owned());
        }
    }

    /// A task was queued, or could not be.
    pub fn task_sent(&mut self, sent: bool)
        requires
            old(self).pending < usize::MAX,
        ensures
            final(self)@ == old(self)@.task_sent(sent),
            old(self)@.wf() ==> final(self)@.wf(),
    {
        if sent {
            self.pending += 1;
        } else {
            self.error = Some("tasks stopped".to_owned());
        }
    }

    /// A queued task has finished, successfully or not.
    pub fn task_done(&mut self)
        ensures
            final(self)@ == old(self)@.task_done(),
            old(self)@.wf() ==> final(self)@.wf(),
    {
        if self.pending > 0 {
            self.pending -= 1;
        }
        self.dirty = true;
    }

    /// Something has changed in the local mirror.
    pub fn local_changed(&mut self)
        ensures
            final(self)@ == (AppView { dirty: true, ..old(self)@ }),
            old(self)@.wf() ==> final(self)@.wf(),
    {
        self.dirty = true;
    }

    /// These invites are pending now.
    pub fn invites_loaded(&mut self, invites: Vec<Invite>)
        ensures
            final(self)@ == old(self)@.invites_loaded(ordering::views(invites@)),
            old(self)@.wf() ==> final(self)@.wf(),
    {
        self.invites = invites;
        let ghost loaded = self@;
        self.rebuild_rows();
        proof {
            loaded.lemma_new_rows();
        }
    }

    /// Take a loaded member list, keeping the same address selected. A list
    /// for a chat whose pane has since closed or moved on is dropped.
    pub fn members_loaded(&mut self, chat_id: &str, rows: Vec<ChatMember>)
        ensures
            final(self)@ == old(self)@.members_loaded(chat_id@, ordering::views(rows@)),
            old(self)@.wf() ==> final(self)@.wf(),
    {
        let ghost all = ordering::views(rows@);
        match &mut self.members {
            Some(members) => {
                if text::same_text(members.chat_id.as_str(), chat_id) {
                    proof {
                        members@.lemma_rows(all);
                    }
                    members.set_rows(rows);
                }
            },
            None => {},
        }
    }

    /// A chat has been created: select it.
    pub fn chat_created(&mut self, chat_id: String) -> (effect: Effect)
        ensures
            final(self)@ == old(self)@,
            effect@ == model::EffectView::ReadChats(model::AfterChatsView::Select(chat_id@)),
            old(self)@.wf() ==> final(self)@.wf(),
    {
        Effect::ReadChats(AfterChats::Select(chat_id))
    }

    /// Something went wrong outside.
    pub fn failed(&mut self, error: String)
        ensures
            final(self)@ == old(self)@.failing(error@),
            old(self)@.wf() ==> final(self)@.wf(),
    {
        self.error = Some(error);
    }

    /// Read everything again if anything has changed since the last time.
    pub fn tick(&mut self) -> (effect: Effect)
        ensures
            (final(self)@, effect@) == old(self)@.ticking(),
            old(self)@.wf() ==> final(self)@.wf(),
    {
        if self.dirty {
            self.dirty = false;
            Effect::ReadChats(AfterChats::Refresh)
        } else {
            Effect::Nothing
        }
    }
}

} // verus!
