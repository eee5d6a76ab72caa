//! What the contracts see of the values that the functions take and return: all of
//! it, and as it is.

use vstd::prelude::*;

use crate::chat::ResolvedMember;
use crate::convo::ConvoSummary;
use crate::group;
use crate::message::{self, Sending};
use crate::ordering;
use crate::plan::{Action, ActionView};
use crate::sync::{
    self, AutoAcceptReport, SyncProgress, SyncProgressView, SyncStep, SyncStepView,
};
use crate::text;
use crate::tui::app;
use crate::tui::events::{Event, EventView};
use crate::tui::model::{
    self, AfterChats, AfterChatsView, AfterMessages, AfterMessagesView, App, Effect, EffectView,
    ListRow, Members, NewChat, RowView, Task, TaskView,
};
use crate::tui::screen::{Line, Span};
use crate::tui::tasks::{self, Notice, NoticeView};
use crate::types::{
    self, Chat, ChatMember, Failure, FailureView, Invite, Member, Message, Permissions, Proposal,
};

verus! {

/// A list of strings is seen as the texts of all of them, in their order, and a
/// list of other things as what each of them is seen as.
pub proof fn lists_are_seen_whole<T: View>(strings: Seq<String>, things: Seq<T>, i: int)
    ensures
        text::texts(strings).len() == strings.len(),
        0 <= i < strings.len() ==> text::texts(strings)[i] == strings[i]@,
        ordering::views(things).len() == things.len(),
        0 <= i < things.len() ==> ordering::views(things)[i] == things[i]@,
{
}

/// What may be missing is seen as it is where it is there, and as missing where it
/// is not.
pub proof fn what_may_be_missing_is_seen(
    string: String,
    slice: &str,
    index: usize,
    members: &Vec<Member>,
)
    ensures
        text::maybe_text(Some(string)) == Some(string@),
        text::maybe_text(None) is None,
        text::maybe_str(Some(slice)) == Some(slice@),
        text::maybe_str(None) is None,
        model::maybe_index(Some(index)) == Some(index as int),
        model::maybe_index(None) is None,
        message::maybe_members(Some(members)) == Some(members@.map_values(|member: Member| member@)),
        message::maybe_members(None) is None,
{
    assert(ordering::views(members@) =~= members@.map_values(|member: Member| member@));
}

/// What may have failed is seen as its value or as its failure.
pub proof fn outcomes_are_seen<T: View>(
    value: T,
    failure: Failure,
    list: Vec<T>,
    actions: Vec<Action>,
    error: String,
    chat_id: Option<String>,
)
    ensures
        types::outcome(Ok::<T, Failure>(value)) == Ok::<T::V, FailureView>(value@),
        types::outcome(Err::<T, Failure>(failure)) == Err::<T::V, FailureView>(failure@),
        group::planned(Ok(actions)) == Ok::<Seq<ActionView>, FailureView>(
            actions@.map_values(|action: Action| action@),
        ),
        group::planned(Err(failure)) == Err::<Seq<ActionView>, FailureView>(failure@),
        app::read_outcome(Ok::<Vec<T>, String>(list)) == Ok::<Seq<T::V>, Seq<char>>(
            list@.map_values(|thing: T| thing@),
        ),
        app::read_outcome(Err::<Vec<T>, String>(error)) == Err::<Seq<T::V>, Seq<char>>(error@),
        tasks::run_outcome(Ok(chat_id)) == Ok::<Option<Seq<char>>, Seq<char>>(
            match chat_id {
                Some(chat_id) => Some(chat_id@),
                None => None,
            },
        ),
        tasks::run_outcome(Err(error)) == Err::<Option<Seq<char>>, Seq<char>>(error@),
        failure@.kind == failure.kind,
        failure@.message == failure.message@,
{
    assert(ordering::views(actions@) =~= actions@.map_values(|action: Action| action@));
    assert(ordering::views(list@) =~= list@.map_values(|thing: T| thing@));
}

/// The reasons why proposals could not be accepted are seen one by one.
pub proof fn reasons_are_seen(errors: Seq<Option<String>>, i: int)
    ensures
        sync::reasons(errors).len() == errors.len(),
        0 <= i < errors.len() ==> (match errors[i] {
            Some(error) => sync::reasons(errors)[i] == Some(error@),
            None => sync::reasons(errors)[i] is None,
        }),
{
}

/// Chats, invites, messages and proposals are seen with everything that they hold.
pub proof fn chats_invites_messages_and_proposals_are_seen_whole(
    chat: Chat,
    invite: Invite,
    message: Message,
    proposal: Proposal,
)
    ensures
        chat@.id == chat.id@,
        chat@.name == (match chat.name {
            Some(name) => Some(name@),
            None => None,
        }),
        chat@.other_members == chat.other_members@.map_values(|address: String| address@),
        chat@.last_activity == chat.last_activity,
        invite@.proposal_id == invite.proposal_id@,
        invite@.chat_id == invite.chat_id@,
        invite@.proposer == invite.proposer@,
        invite@.proposed == invite.proposed,
        message@.id == message.id@,
        message@.sender == message.sender@,
        message@.sent == message.sent,
        message@.body == message.body@,
        proposal@.id == proposal.id@,
        proposal@.target == proposal.target@,
        proposal@.modified_by == proposal.modified_by@,
        proposal@.modified == proposal.modified,
{
    assert(chat@.other_members =~= chat.other_members@.map_values(|address: String| address@));
}

/// Members and permissions are seen with everything that they hold.
pub proof fn members_and_permissions_are_seen_whole(
    listed: ChatMember,
    member: Member,
    resolved: ResolvedMember,
    change: Permissions,
)
    ensures
        listed@.address == listed.address@,
        listed@.owner == listed.owner,
        member@.address == member.address@,
        member@.permission == member.permission,
        resolved@.member == resolved.member@,
        resolved@.group == (match resolved.group {
            Some(group) => Some(group@.map_values(|address: String| address@)),
            None => None,
        }),
        change@.owners == change.owners@.map_values(|address: String| address@),
        change@.writers == change.writers@.map_values(|address: String| address@),
        change@.readers == change.readers@.map_values(|address: String| address@),
        change@.dropped == change.dropped@.map_values(|address: String| address@),
{
    if let Some(group) = resolved.group {
        assert(text::texts(group@) =~= group@.map_values(|address: String| address@));
    }
    assert(change@.owners =~= change.owners@.map_values(|address: String| address@));
    assert(change@.writers =~= change.writers@.map_values(|address: String| address@));
    assert(change@.readers =~= change.readers@.map_values(|address: String| address@));
    assert(change@.dropped =~= change.dropped@.map_values(|address: String| address@));
}

/// An action is seen with everything that it holds.
pub proof fn actions_are_seen_whole(action: Action)
    ensures
        match action {
            Action::CreateDir { path } => action@ == ActionView::CreateDir { path: path@ },
            Action::WriteFile { path, body } => action@ == ActionView::WriteFile {
                path: path@,
                body: body@,
            },
            Action::WriteChat { path, chat } => action@ == ActionView::WriteChat {
                path: path@,
                chat: chat@,
            },
            Action::WriteTitle { path, title } => action@ == ActionView::WriteTitle {
                path: path@,
                title: title@,
            },
            Action::Put { path, permissions } => action@ == ActionView::Put {
                path: path@,
                permissions: permissions@,
            },
            Action::PutPermissions { path, permissions } => action@ == ActionView::PutPermissions {
                path: path@,
                permissions: permissions@,
            },
            Action::ChangeMembers { path, added, dropped } => action@ == ActionView::ChangeMembers {
                path: path@,
                added: added@.map_values(|address: String| address@),
                dropped: dropped@.map_values(|address: String| address@),
            },
        },
{
    if let Action::ChangeMembers { path, added, dropped } = action {
        assert(text::texts(added@) =~= added@.map_values(|address: String| address@));
        assert(text::texts(dropped@) =~= dropped@.map_values(|address: String| address@));
    }
}

/// What is sent, summarized, reported and synced is seen with everything that it
/// holds.
pub proof fn plans_and_reports_are_seen_whole(
    sending: Sending,
    summary: ConvoSummary,
    report: AutoAcceptReport,
    progress: SyncProgress,
    step: SyncStep,
)
    ensures
        sending@.file_name == sending.file_name@,
        sending@.actions == sending.actions@.map_values(|action: Action| action@),
        summary@.dir_name == summary.dir_name@,
        summary@.title == (match summary.title {
            Some(title) => Some(title@),
            None => None,
        }),
        summary@.member_count == summary.member_count,
        summary@.owner_count == summary.owner_count,
        summary@.last_activity == summary.last_activity,
        report@.accepted == report.accepted@.map_values(|id: String| id@),
        report@.skipped == report.skipped@.map_values(|id: String| id@),
        report@.failed == report.failed@.map_values(|entry: (String, String)| (entry.0@, entry.1@)),
        match progress {
            SyncProgress::Begun => progress@ is Begun,
            SyncProgress::DirCreated => progress@ is DirCreated,
            SyncProgress::Synced => progress@ is Synced,
            SyncProgress::Listed(proposals) => progress@ == SyncProgressView::Listed(
                proposals@.map_values(|proposal: Proposal| proposal@),
            ),
        },
        match step {
            SyncStep::CreateDir { path } => step@ == SyncStepView::CreateDir { path: path@ },
            SyncStep::Sync { path } => step@ == SyncStepView::Sync { path: path@ },
            SyncStep::ListProposals => step@ is ListProposals,
            SyncStep::AcceptInvites(invites) => step@ == SyncStepView::AcceptInvites(
                invites@.map_values(|invite: Invite| invite@),
            ),
            SyncStep::AcceptProposals(ids) => step@ == SyncStepView::AcceptProposals(
                ids@.map_values(|id: String| id@),
            ),
        },
{
    assert(sending@.actions =~= sending.actions@.map_values(|action: Action| action@));
    assert(report@.accepted =~= report.accepted@.map_values(|id: String| id@));
    assert(report@.skipped =~= report.skipped@.map_values(|id: String| id@));
    assert(report@.failed =~= report.failed@.map_values(
        |entry: (String, String)| (entry.0@, entry.1@),
    ));
    match progress {
        SyncProgress::Listed(proposals) => {
            assert(ordering::views(proposals@) =~= proposals@.map_values(
                |proposal: Proposal| proposal@,
            ));
        },
        _ => {},
    }
    match step {
        SyncStep::AcceptInvites(invites) => {
            assert(ordering::views(invites@) =~= invites@.map_values(|invite: Invite| invite@));
        },
        SyncStep::AcceptProposals(ids) => {
            assert(text::texts(ids@) =~= ids@.map_values(|id: String| id@));
        },
        _ => {},
    }
}

/// A task is seen with everything that it holds.
pub proof fn tasks_are_seen_whole(task: Task)
    ensures
        match task {
            Task::Send { chat_id, body } => task@ == TaskView::Send {
                chat_id: chat_id@,
                body: body@,
            },
            Task::CreateDirect { name, address } => task@ == TaskView::CreateDirect {
                name: match name {
                    Some(name) => Some(name@),
                    None => None,
                },
                address: address@,
            },
            Task::CreateGroup { name, members } => task@ == TaskView::CreateGroup {
                name: match name {
                    Some(name) => Some(name@),
                    None => None,
                },
                members: members@.map_values(|address: String| address@),
            },
            Task::Accept(invite) => task@ == TaskView::Accept(invite@),
            Task::Reject(invite) => task@ == TaskView::Reject(invite@),
            Task::AddMember { chat_id, address } => task@ == TaskView::AddMember {
                chat_id: chat_id@,
                address: address@,
            },
            Task::RemoveMember { chat_id, address } => task@ == TaskView::RemoveMember {
                chat_id: chat_id@,
                address: address@,
            },
            Task::PromoteMember { chat_id, address } => task@ == TaskView::PromoteMember {
                chat_id: chat_id@,
                address: address@,
            },
            Task::DemoteMember { chat_id, address } => task@ == TaskView::DemoteMember {
                chat_id: chat_id@,
                address: address@,
            },
        },
{
    if let Task::CreateGroup { name, members } = task {
        assert(text::texts(members@) =~= members@.map_values(|address: String| address@));
    }
}

/// What the interface wants is seen with everything that it holds.
pub proof fn effects_are_seen_whole(
    effect: Effect,
    after_chats: AfterChats,
    after_messages: AfterMessages,
)
    ensures
        match effect {
            Effect::Nothing => effect@ is Nothing,
            Effect::ReadChats(after) => effect@ == EffectView::ReadChats(after@),
            Effect::ReadMessages { chat_id, after } => effect@ == EffectView::ReadMessages {
                chat_id: chat_id@,
                after: after@,
            },
            Effect::CheckGroup { chat_id } => effect@ == EffectView::CheckGroup {
                chat_id: chat_id@,
            },
            Effect::RequestMembers { chat_id, report } => effect@ == EffectView::RequestMembers {
                chat_id: chat_id@,
                report,
            },
            Effect::Queue(task) => effect@ == EffectView::Queue(task@),
        },
        match after_chats {
            AfterChats::Start => after_chats@ is Start,
            AfterChats::Refresh => after_chats@ is Refresh,
            AfterChats::Select(chat_id) => after_chats@ == AfterChatsView::Select(chat_id@),
        },
        match after_messages {
            AfterMessages::Nothing => after_messages@ is Nothing,
            AfterMessages::Members => after_messages@ is Members,
            AfterMessages::Queue(task) => after_messages@ == AfterMessagesView::Queue(task@),
        },
{
}

/// What happens to the interface, and what is told about tasks, is seen with
/// everything that it holds.
pub proof fn events_and_notices_are_seen_whole(event: Event, notice: Notice)
    ensures
        match event {
            Event::Key(press) => event@ == EventView::Key(press),
            Event::LocalChanged => event@ is LocalChanged,
            Event::InvitesLoaded(invites) => event@ == EventView::InvitesLoaded(
                invites@.map_values(|invite: Invite| invite@),
            ),
            Event::MembersLoaded { chat_id, members } => event@ == EventView::MembersLoaded {
                chat_id: chat_id@,
                members: members@.map_values(|member: ChatMember| member@),
            },
            Event::ChatCreated(chat_id) => event@ == EventView::ChatCreated(chat_id@),
            Event::TaskDone => event@ is TaskDone,
            Event::Error(error) => event@ == EventView::Error(error@),
            Event::Timeout => event@ is Timeout,
        },
        match notice {
            Notice::ChatCreated(chat_id) => notice@ == NoticeView::ChatCreated(chat_id@),
            Notice::ReloadInvites => notice@ is ReloadInvites,
            Notice::Error(error) => notice@ == NoticeView::Error(error@),
            Notice::TaskDone => notice@ is TaskDone,
        },
{
    match event {
        Event::InvitesLoaded(invites) => {
            assert(ordering::views(invites@) =~= invites@.map_values(|invite: Invite| invite@));
        },
        Event::MembersLoaded { chat_id, members } => {
            assert(ordering::views(members@) =~= members@.map_values(
                |member: ChatMember| member@,
            ));
        },
        _ => {},
    }
}

/// The form for a new chat, the member list and the rows are seen with everything
/// that they hold.
pub proof fn panes_are_seen_whole(form: NewChat, members: Members, row: ListRow)
    ensures
        form@.group == form.group,
        form@.members == form.members@,
        form@.name == form.name@,
        form@.field == form.field,
        members@.chat_id == members.chat_id@,
        members@.group == members.group,
        members@.rows == members.rows@.map_values(|member: ChatMember| member@),
        members@.selected == (match members.selected {
            Some(index) => Some(index as int),
            None => None,
        }),
        members@.adding == (match members.adding {
            Some(address) => Some(address@),
            None => None,
        }),
        match row {
            ListRow::Chat(chat) => row@ == RowView::Chat(chat@),
            ListRow::Invite(invite) => row@ == RowView::Invite(invite@),
        },
{
    assert(members@.rows =~= members.rows@.map_values(|member: ChatMember| member@));
}

/// The interface is seen with everything that it holds.
pub proof fn the_interface_is_seen_whole(app: App)
    ensures
        app@.account == app.account@,
        app@.chats == app.chats@.map_values(|chat: Chat| chat@),
        app@.invites == app.invites@.map_values(|invite: Invite| invite@),
        app@.rows == app.rows@.map_values(|row: ListRow| row@),
        app@.selected == (match app.selected {
            Some(index) => Some(index as int),
            None => None,
        }),
        app@.messages == app.messages@.map_values(|message: Message| message@),
        app@.input == app.input@,
        app@.pane == app.pane,
        app@.new_chat == (match app.new_chat {
            Some(form) => Some(form@),
            None => None,
        }),
        app@.members == (match app.members {
            Some(members) => Some(members@),
            None => None,
        }),
        app@.error == (match app.error {
            Some(error) => Some(error@),
            None => None,
        }),
        app@.quit == app.quit,
        app@.dirty == app.dirty,
        app@.pending == app.pending,
{
    assert(app@.chats =~= app.chats@.map_values(|chat: Chat| chat@));
    assert(app@.invites =~= app.invites@.map_values(|invite: Invite| invite@));
    assert(app@.rows =~= app.rows@.map_values(|row: ListRow| row@));
    assert(app@.messages =~= app.messages@.map_values(|message: Message| message@));
}

/// What is on screen is seen piece by piece, each with its text and its tone.
pub proof fn the_screen_is_seen_whole(span: Span, line: Line)
    ensures
        span@.text == span.text@,
        span@.tone == span.tone,
        line@ == line.spans@.map_values(|span: Span| span@),
{
    assert(line@ =~= line.spans@.map_values(|span: Span| span@));
}

} // verus!
