//! What can happen to the interface, and what it does then.

use vstd::prelude::*;

use crate::ordering;
use crate::tui::keys::KeyPress;
use crate::tui::laws;
use crate::tui::model::{AfterChatsView, App, AppView, Effect, EffectView};
use crate::types::{ChatMember, ChatMemberView, Invite, InviteView};

verus! {

/// What can happen to the interface.
pub enum Event {
    Key(KeyPress),
    /// The local mirror has changed under `apps/msg/`, here or on a server.
    LocalChanged,
    InvitesLoaded(Vec<Invite>),
    MembersLoaded { chat_id: String, members: Vec<ChatMember> },
    ChatCreated(String),
    /// A queued task finished, successfully or not.
    TaskDone,
    Error(String),
    /// Nothing has happened for a while.
    Timeout,
}

#[verifier::ext_equal]
pub enum EventView {
    Key(KeyPress),
    LocalChanged,
    InvitesLoaded(Seq<InviteView>),
    MembersLoaded { chat_id: Seq<char>, members: Seq<ChatMemberView> },
    ChatCreated(Seq<char>),
    TaskDone,
    Error(Seq<char>),
    Timeout,
}

impl View for Event {
    type V = EventView;

    open spec fn view(&self) -> EventView {
        match *self {
            Event::Key(press) => EventView::Key(press),
            Event::LocalChanged => EventView::LocalChanged,
            Event::InvitesLoaded(invites) => EventView::InvitesLoaded(ordering::views(invites@)),
            Event::MembersLoaded { chat_id, members } => EventView::MembersLoaded {
                chat_id: chat_id@,
                members: ordering::views(members@),
            },
            Event::ChatCreated(chat_id) => EventView::ChatCreated(chat_id@),
            Event::TaskDone => EventView::TaskDone,
            Event::Error(error) => EventView::Error(error@),
            Event::Timeout => EventView::Timeout,
        }
    }
}

impl AppView {
    /// What the interface does when something happens.
    pub open spec fn happening(self, event: EventView) -> (AppView, EffectView) {
        match event {
            EventView::Key(press) => self.pressed(press),
            EventView::LocalChanged => (AppView { dirty: true, ..self }, EffectView::Nothing),
            EventView::InvitesLoaded(invites) => (
                self.invites_loaded(invites),
                EffectView::Nothing,
            ),
            EventView::MembersLoaded { chat_id, members } => (
                self.members_loaded(chat_id, members),
                EffectView::Nothing,
            ),
            EventView::ChatCreated(chat_id) => (
                self,
                EffectView::ReadChats(AfterChatsView::Select(chat_id)),
            ),
            EventView::TaskDone => (self.task_done(), EffectView::Nothing),
            EventView::Error(error) => (self.failing(error), EffectView::Nothing),
            EventView::Timeout => (self, EffectView::Nothing),
        }
    }
}

impl App {
    /// Do what is to be done when something happens. After that, `tick` reads
    /// everything again if anything has changed.
    pub fn handle_event(&mut self, event: Event) -> (effect: Effect)
        requires
            old(self)@.wf(),
        ensures
            (final(self)@, effect@) == old(self)@.happening(event@),
            final(self)@.wf(),
    {
        match event {
            Event::Key(press) => {
                return self.handle_key(press);
            },
            Event::LocalChanged => self.local_changed(),
            Event::InvitesLoaded(invites) => self.invites_loaded(invites),
            Event::MembersLoaded { chat_id, members } => {
                self.members_loaded(chat_id.as_str(), members);
            },
            Event::ChatCreated(chat_id) => {
                return self.chat_created(chat_id);
            },
            Event::TaskDone => self.task_done(),
            Event::Error(error) => self.failed(error),
            Event::Timeout => {},
        }
        Effect::Nothing
    }
}

/// Whatever happens leaves the interface in order.
pub proof fn events_keep_the_interface_in_order(app: AppView, event: EventView)
    requires
        app.wf(),
    ensures
        app.happening(event).0.wf(),
{
    match event {
        EventView::Key(press) => laws::keys_keep_the_interface_in_order(app, press),
        EventView::InvitesLoaded(invites) => AppView { invites, ..app }.lemma_new_rows(),
        EventView::MembersLoaded { chat_id, members } => {
            if let Some(shown) = app.members {
                shown.lemma_rows(members);
            }
        },
        _ => {},
    }
}

/// Only a key quits: whatever else happens, the interface goes on if it did.
pub proof fn only_keys_quit(app: AppView, event: EventView)
    requires
        !(event is Key),
    ensures
        app.happening(event).0.quit == app.quit,
{
}

/// What is being typed is changed by keys alone.
pub proof fn only_keys_change_what_is_typed(app: AppView, event: EventView)
    requires
        !(event is Key),
    ensures
        app.happening(event).0.input == app.input,
        app.happening(event).0.new_chat == app.new_chat,
        app.happening(event).0.members is Some <==> app.members is Some,
        app.members matches Some(members) ==> app.happening(event).0.members->Some_0.adding
            == members.adding,
{
}

} // verus!
