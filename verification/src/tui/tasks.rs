//! What is told to the interface about a task that was run.

use vstd::prelude::*;

use crate::ordering;
use crate::text;
use crate::tui::model::{self, Task, TaskView};

verus! {

/// News from the one that runs the tasks.
pub enum Notice {
    /// A chat has been created.
    ChatCreated(String),
    /// The pending invites are to be loaded again.
    ReloadInvites,
    /// Something went wrong.
    Error(String),
    /// A queued task finished, successfully or not.
    TaskDone,
}

#[verifier::ext_equal]
pub enum NoticeView {
    ChatCreated(Seq<char>),
    ReloadInvites,
    Error(Seq<char>),
    TaskDone,
}

impl View for Notice {
    type V = NoticeView;

    open spec fn view(&self) -> NoticeView {
        match *self {
            Notice::ChatCreated(chat_id) => NoticeView::ChatCreated(chat_id@),
            Notice::ReloadInvites => NoticeView::ReloadInvites,
            Notice::Error(error) => NoticeView::Error(error@),
            Notice::TaskDone => NoticeView::TaskDone,
        }
    }
}

/// Whether a task settles an invite.
pub open spec fn settles_invite(task: TaskView) -> bool {
    task is Accept || task is Reject
}

/// What is told about a task that was run: `result` is the id of the chat that
/// it created, if it created one, or why it failed.
pub open spec fn news_of(
    task: TaskView,
    result: Result<Option<Seq<char>>, Seq<char>>,
) -> Seq<NoticeView> {
    let first = match result {
        Ok(Some(chat_id)) => seq![NoticeView::ChatCreated(chat_id)],
        Ok(None) => if settles_invite(task) {
            seq![NoticeView::ReloadInvites]
        } else {
            Seq::empty()
        },
        Err(error) => seq![NoticeView::Error(model::task_label(task) + " error: "@ + error)],
    };
    first.push(NoticeView::TaskDone)
}

/// What a task's run came to: the id of the chat that it created, if it created
/// one, or why it failed.
pub open spec fn run_outcome(result: Result<Option<String>, String>) -> Result<
    Option<Seq<char>>,
    Seq<char>,
> {
    match result {
        Ok(chat_id) => Ok(text::maybe_text(chat_id)),
        Err(error) => Err(error@),
    }
}

/// What to tell about a task that was run.
pub fn report_task(task: &Task, result: Result<Option<String>, String>) -> (news: Vec<Notice>)
    ensures
        ordering::views(news@) == news_of(task@, run_outcome(result)),
{
    let ghost expected = news_of(task@, run_outcome(result));
    let mut news: Vec<Notice> = Vec::new();
    match result {
        Ok(Some(chat_id)) => {
            news.push(Notice::ChatCreated(chat_id));
        },
        Ok(None) => {
            match task {
                Task::Accept(_) | Task::Reject(_) => {
                    news.push(Notice::ReloadInvites);
                },
                _ => {},
            }
        },
        Err(error) => {
            let mut message = task.label().to_owned();
            message.append(" error: ");
            message.append(error.as_str());
            news.push(Notice::Error(message));
        },
    }
    news.push(Notice::TaskDone);
    assert(ordering::views(news@) =~= expected);
    news
}

/// Whatever became of a task, the interface is told once, and last, that it is
/// done with.
pub proof fn every_task_is_done_once(
    task: TaskView,
    result: Result<Option<Seq<char>>, Seq<char>>,
)
    ensures
        news_of(task, result).last() == NoticeView::TaskDone,
        forall|i: int|
            0 <= i < news_of(task, result).len() - 1 ==> !(#[trigger] news_of(
                task,
                result,
            )[i] is TaskDone),
{
}

/// The interface is told of an error exactly where a task failed.
pub proof fn failed_tasks_are_reported(
    task: TaskView,
    result: Result<Option<Seq<char>>, Seq<char>>,
)
    ensures
        (exists|i: int|
            0 <= i < news_of(task, result).len() && #[trigger] news_of(task, result)[i] is Error)
            <==> result is Err,
{
    let news = news_of(task, result);
    if result is Err {
        assert(news[0] is Error);
    }
}

/// A task that created a chat is told of by the chat's id; one that settled an
/// invite has the invites loaded again; one that failed is told of by its label and
/// the reason; any other is told of only as done.
pub proof fn tasks_are_told_of_by_what_became_of_them(
    task: TaskView,
    chat_id: Seq<char>,
    error: Seq<char>,
)
    ensures
        news_of(task, Ok(Some(chat_id))) == seq![
            NoticeView::ChatCreated(chat_id),
            NoticeView::TaskDone,
        ],
        news_of(task, Err(error)) == seq![
            NoticeView::Error(model::task_label(task) + " error: "@ + error),
            NoticeView::TaskDone,
        ],
        task is Accept || task is Reject ==> news_of(task, Ok(None)) == seq![
            NoticeView::ReloadInvites,
            NoticeView::TaskDone,
        ],
        !(task is Accept || task is Reject) ==> news_of(task, Ok(None)) == seq![
            NoticeView::TaskDone,
        ],
{
    assert(news_of(task, Ok(Some(chat_id))) =~= seq![
        NoticeView::ChatCreated(chat_id),
        NoticeView::TaskDone,
    ]);
    assert(news_of(task, Err(error)) =~= seq![
        NoticeView::Error(model::task_label(task) + " error: "@ + error),
        NoticeView::TaskDone,
    ]);
    assert(task is Accept || task is Reject ==> news_of(task, Ok(None)) =~= seq![
        NoticeView::ReloadInvites,
        NoticeView::TaskDone,
    ]);
    assert(!(task is Accept || task is Reject) ==> news_of(task, Ok(None)) =~= seq![
        NoticeView::TaskDone,
    ]);
}

/// Tasks are called after what they do.
pub proof fn tasks_are_called_after_what_they_do(task: TaskView)
    ensures
        task is Send ==> model::task_label(task) == "send"@,
        task is CreateDirect || task is CreateGroup ==> model::task_label(task) == "create"@,
        task is Accept ==> model::task_label(task) == "accept"@,
        task is Reject ==> model::task_label(task) == "reject"@,
        task is AddMember ==> model::task_label(task) == "add"@,
        task is RemoveMember ==> model::task_label(task) == "remove"@,
        task is PromoteMember ==> model::task_label(task) == "promote"@,
        task is DemoteMember ==> model::task_label(task) == "demote"@,
{
}

} // verus!
