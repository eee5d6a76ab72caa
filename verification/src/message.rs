//! Messages: files in a chat's directory, named by the moment they were sent.

use vstd::prelude::*;

use crate::chat::{self, get_addresses};
use crate::ordering::{self, sort, Listed};
use crate::paths::{self, get_chat_ark_path, get_chat_file_path};
use crate::plan::{self, Action, ActionView};
use crate::text::{self, starts_with, without};
use crate::text_laws;
use crate::types::{
    Failure, FailureKind, FailureView, Member, MemberView, Message, MessageView, Permission,
    Permissions, Timestamp,
};

verus! {

/// What the names of message files start with.
pub const MSG_PREFIX: &'static str = "msg_";

/// What the names of message files end with.
pub const MSG_EXTENSION: &'static str = "md";

/// A message to be sent: its file name, and the plan that sends it.
pub struct Sending {
    pub file_name: String,
    pub actions: Vec<Action>,
}

#[verifier::ext_equal]
pub struct SendingView {
    pub file_name: Seq<char>,
    pub actions: Seq<ActionView>,
}

impl View for Sending {
    type V = SendingView;

    open spec fn view(&self) -> SendingView {
        SendingView { file_name: self.file_name@, actions: ordering::views(self.actions@) }
    }
}

/// The name of the file of a message.
pub open spec fn message_file_name(timestamp: Seq<char>) -> Seq<char> {
    MSG_PREFIX@ + timestamp + "."@ + MSG_EXTENSION@
}

/// The addresses of the writers among some members.
pub open spec fn writer_addresses(members: Seq<MemberView>) -> Seq<Seq<char>>
    decreases members.len(),
{
    if members.len() == 0 {
        Seq::empty()
    } else {
        let front = writer_addresses(members.drop_last());
        if members.last().permission == Permission::Writer {
            front.push(members.last().address)
        } else {
            front
        }
    }
}

/// Who may read a message: the group of a group chat, which is its directory's
/// only writer, or the other members of a direct chat.
pub open spec fn message_readers(
    account: Seq<char>,
    group: bool,
    members: Seq<MemberView>,
) -> Seq<Seq<char>> {
    if group {
        writer_addresses(members)
    } else {
        text::without_text(chat::addresses(members), account)
    }
}

/// What sending a message comes to: its file is written and then shared. There
/// is no chat to send it to where `members` is `None`.
pub open spec fn sending(
    account: Seq<char>,
    chat_id: Seq<char>,
    members: Option<Seq<MemberView>>,
    group: bool,
    timestamp: Seq<char>,
    body: Seq<u8>,
) -> Result<SendingView, FailureView> {
    match members {
        None => Err(
            FailureView {
                kind: FailureKind::NotFound,
                message: "chat dir missing: "@ + paths::chat_path_text(chat_id),
            },
        ),
        Some(members) => {
            let file_name = message_file_name(timestamp);
            let path = paths::chat_file_text(chat_id, file_name);
            let readers = message_readers(account, group, members);
            Ok(
                SendingView {
                    file_name,
                    actions: seq![
                        ActionView::WriteFile { path, body },
                        ActionView::Put { path, permissions: plan::readers_change(readers) },
                    ],
                },
            )
        },
    }
}

fn get_writers(members: &Vec<Member>) -> (writers: Vec<String>)
    ensures
        text::texts(writers@) == writer_addresses(ordering::views(members@)),
{
    let ghost all = ordering::views(members@);
    let mut writers: Vec<String> = Vec::new();
    assert(text::texts(writers@) =~= Seq::<Seq<char>>::empty());
    let mut i: usize = 0;
    while i < members.len()
        invariant
            i <= members.len(),
            all == ordering::views(members@),
            text::texts(writers@) == writer_addresses(all.take(i as int)),
        decreases members.len() - i,
    {
        assert(all.take(i + 1).drop_last() =~= all.take(i as int));
        if members[i].permission == Permission::Writer {
            let ghost before = writers@;
            writers.push(members[i].address.clone());
            assert(text::texts(writers@) =~= text::texts(before).push(
                members@[i as int].address@,
            ));
        }
        i += 1;
    }
    assert(all.take(i as int) =~= all);
    writers
}

/// What the members of a chat's directory stand for, if there is a directory.
pub open spec fn maybe_members(members: Option<&Vec<Member>>) -> Option<Seq<MemberView>> {
    match members {
        Some(members) => Some(ordering::views(members@)),
        None => None,
    }
}

/// Send a message: write body as a new `msg_<ts>.md` in the chat dir with
/// self as owner, and the group (group chat) or the other members (direct
/// chat) as readers. `members` are those whom the chat dir names, `None` where
/// there is none; `group` says whether this is a group chat.
pub fn send_message(
    account: &str,
    chat_id: &str,
    members: Option<&Vec<Member>>,
    group: bool,
    timestamp: &str,
    body: Vec<u8>,
) -> (result: Result<Sending, Failure>)
    ensures
        crate::types::outcome(result) == sending(
            account@,
            chat_id@,
            maybe_members(members),
            group,
            timestamp@,
            body@,
        ),
{
    match members {
        None => {
            let mut message = "chat dir missing: ".to_owned();
            message.append(get_chat_ark_path(chat_id).as_str());
            Err(Failure { kind: FailureKind::NotFound, message })
        },
        Some(members) => {
            let mut file_name = MSG_PREFIX.to_owned();
            file_name.append(timestamp);
            file_name.append(".");
            file_name.append(MSG_EXTENSION);
            let path = get_chat_file_path(chat_id, file_name.as_str());
            let others = if group {
                get_writers(members)
            } else {
                without(&get_addresses(members), account)
            };
            let ghost content = body@;
            let mut actions: Vec<Action> = Vec::new();
            actions.push(Action::WriteFile { path: path.clone(), body });
            actions.push(Action::Put { path, permissions: Permissions::readers(others) });
            let sent = Sending { file_name, actions };
            assert(sent@ =~= sending(
                account@,
                chat_id@,
                Some(ordering::views(members@)),
                group,
                timestamp@,
                content,
            )->Ok_0);
            Ok(sent)
        },
    }
}

/// The sender never reads a message of a direct chat as a reader, having it as
/// its owner, and every other member does.
pub proof fn direct_message_reaches_the_others(
    account: Seq<char>,
    members: Seq<MemberView>,
    address: Seq<char>,
)
    ensures
        message_readers(account, false, members).contains(address) <==> (chat::addresses(
            members,
        ).contains(address) && address != account),
{
    text::lemma_without(chat::addresses(members), account);
}

/// A file in a chat's directory: its name, and who modified it when, where that
/// is on record.
pub struct MessageEntry {
    pub name: String,
    pub stamp: Option<Stamp>,
}

/// Who modified a file, and when.
pub struct Stamp {
    pub modified_by: String,
    pub modified: Timestamp,
}

/// The message that a file holds, without its body, if it holds one.
pub open spec fn message_of(entry: MessageEntry) -> Option<MessageView> {
    match entry.stamp {
        Some(stamp) if text::occurs_at(entry.name@, MSG_PREFIX@, 0) => Some(
            MessageView {
                id: entry.name@,
                sender: stamp.modified_by@,
                sent: stamp.modified,
                body: Seq::empty(),
            },
        ),
        _ => None,
    }
}

/// The messages that some files hold, without their bodies.
pub open spec fn messages_of(entries: Seq<MessageEntry>) -> Seq<MessageView>
    decreases entries.len(),
{
    if entries.len() == 0 {
        Seq::empty()
    } else {
        let front = messages_of(entries.drop_last());
        match message_of(entries.last()) {
            Some(message) => front.push(message),
            None => front,
        }
    }
}

/// Whether a text comes before another in a dictionary of characters.
pub open spec fn precedes(a: Seq<char>, b: Seq<char>) -> bool
    decreases a.len(),
{
    if b.len() == 0 {
        false
    } else if a.len() == 0 {
        true
    } else if a[0] != b[0] {
        a[0] < b[0]
    } else {
        precedes(a.skip(1), b.skip(1))
    }
}

fn text_precedes(a: &str, b: &str) -> (before: bool)
    ensures
        before == precedes(a@, b@),
{
    let left = text::to_chars(a);
    let right = text::to_chars(b);
    let mut i: usize = 0;
    assert(left@.skip(0) =~= left@);
    assert(right@.skip(0) =~= right@);
    while i < left.len() && i < right.len()
        invariant
            i <= left.len(),
            i <= right.len(),
            precedes(a@, b@) == precedes(left@.skip(i as int), right@.skip(i as int)),
        decreases left.len() - i,
    {
        if left[i] != right[i] {
            return left[i] < right[i];
        }
        assert(left@.skip(i as int).skip(1) =~= left@.skip(i + 1));
        assert(right@.skip(i as int).skip(1) =~= right@.skip(i + 1));
        i += 1;
    }
    i < right.len()
}

proof fn lemma_precedes_one_way(a: Seq<char>, b: Seq<char>)
    requires
        precedes(a, b),
    ensures
        !precedes(b, a),
    decreases a.len(),
{
    if a.len() > 0 && a[0] == b[0] {
        lemma_precedes_one_way(a.skip(1), b.skip(1));
    }
}

proof fn lemma_not_precedes_chains(a: Seq<char>, b: Seq<char>, c: Seq<char>)
    requires
        !precedes(b, a),
        !precedes(c, b),
    ensures
        !precedes(c, a),
    decreases a.len(),
{
    if a.len() > 0 && b.len() > 0 && c.len() > 0 && a[0] == b[0] && b[0] == c[0] {
        lemma_not_precedes_chains(a.skip(1), b.skip(1), c.skip(1));
    }
}

/// The list of messages holds every message once, by the names of their files.
pub proof fn messages_are_listed_by_name(messages: Seq<MessageView>)
    ensures
        messages_in_order(messages).to_multiset() == messages.to_multiset(),
        forall|i: int, j: int|
            0 <= i < j < messages_in_order(messages).len() ==> !precedes(
                (#[trigger] messages_in_order(messages)[j]).id,
                (#[trigger] messages_in_order(messages)[i]).id,
            ),
{
    let later = |a: MessageView, b: MessageView| <Message as Listed>::later(a, b);
    assert(ordering::is_order(later)) by {
        assert forall|a: MessageView, b: MessageView| #[trigger] later(a, b) implies !later(
            b,
            a,
        ) by {
            lemma_precedes_one_way(b.id, a.id);
        }
        assert forall|a: MessageView, b: MessageView, c: MessageView|
            #![trigger later(a, b), later(b, c)]
            !later(a, b) && !later(b, c) implies !later(a, c) by {
            lemma_not_precedes_chains(a.id, b.id, c.id);
        }
    }
    ordering::sorting_keeps_the_elements(messages, later);
    ordering::sorting_orders(messages, later);
    assert forall|i: int, j: int|
        0 <= i < j < messages_in_order(messages).len() implies !precedes(
        (#[trigger] messages_in_order(messages)[j]).id,
        (#[trigger] messages_in_order(messages)[i]).id,
    ) by {
        assert(!later(messages_in_order(messages)[i], messages_in_order(messages)[j]));
    }
}

/// The file names of two messages are in the order of their timestamps, so that
/// the list by name has the oldest message first.
pub proof fn file_names_follow_timestamps(a: Seq<char>, b: Seq<char>)
    requires
        a.len() == b.len(),
    ensures
        precedes(message_file_name(a), message_file_name(b)) == precedes(a, b),
{
    let ending = "."@ + MSG_EXTENSION@;
    assert(message_file_name(a) =~= MSG_PREFIX@ + (a + ending));
    assert(message_file_name(b) =~= MSG_PREFIX@ + (b + ending));
    lemma_common_front(MSG_PREFIX@, a + ending, b + ending);
    lemma_common_back(a, b, ending);
}

proof fn lemma_common_front(front: Seq<char>, a: Seq<char>, b: Seq<char>)
    ensures
        precedes(front + a, front + b) == precedes(a, b),
    decreases front.len(),
{
    if front.len() == 0 {
        assert(front + a =~= a);
        assert(front + b =~= b);
    } else {
        assert((front + a).skip(1) =~= front.skip(1) + a);
        assert((front + b).skip(1) =~= front.skip(1) + b);
        lemma_common_front(front.skip(1), a, b);
    }
}

proof fn lemma_common_back(a: Seq<char>, b: Seq<char>, back: Seq<char>)
    requires
        a.len() == b.len(),
    ensures
        precedes(a + back, b + back) == precedes(a, b),
    decreases a.len(),
{
    if a.len() == 0 {
        assert(a + back =~= back);
        assert(b + back =~= back);
        if precedes(back, back) {
            lemma_precedes_one_way(back, back);
        }
    } else {
        assert((a + back).skip(1) =~= a.skip(1) + back);
        assert((b + back).skip(1) =~= b.skip(1) + back);
        lemma_common_back(a.skip(1), b.skip(1), back);
    }
}

/// Messages are listed by the names of their files, which carry the moment they
/// were sent.
impl Listed for Message {
    open spec fn later(a: MessageView, b: MessageView) -> bool {
        precedes(b.id, a.id)
    }

    fn is_later(&self, other: &Self) -> (later: bool) {
        text_precedes(other.id.as_str(), self.id.as_str())
    }
}

/// Messages by the names of their files.
pub open spec fn messages_in_order(messages: Seq<MessageView>) -> Seq<MessageView> {
    ordering::in_order(
        messages,
        |a: MessageView, b: MessageView| <Message as Listed>::later(a, b),
    )
}

/// Whether a file's name is that of a message.
pub fn is_message_name(name: &str) -> (is_message: bool)
    ensures
        is_message == text::occurs_at(name@, MSG_PREFIX@, 0),
{
    starts_with(name, MSG_PREFIX)
}

/// List message summaries in the local chat dir, oldest first (filename
/// carries the ISO timestamp so lexical order = chronological).
pub fn list_messages(entries: &Vec<MessageEntry>) -> (messages: Vec<Message>)
    ensures
        ordering::views(messages@) == messages_in_order(messages_of(entries@)),
{
    let mut messages: Vec<Message> = Vec::new();
    assert(ordering::views(messages@) =~= Seq::<MessageView>::empty());
    let mut i: usize = 0;
    while i < entries.len()
        invariant
            i <= entries.len(),
            ordering::views(messages@) == messages_of(entries@.take(i as int)),
        decreases entries.len() - i,
    {
        let entry = &entries[i];
        assert(entries@.take(i + 1).drop_last() =~= entries@.take(i as int));
        assert(entries@.take(i + 1).last() == *entry);
        if is_message_name(entry.name.as_str()) {
            match &entry.stamp {
                Some(stamp) => {
                    let ghost before = messages@;
                    messages.push(
                        Message {
                            id: entry.name.clone(),
                            sender: stamp.modified_by.clone(),
                            sent: stamp.modified,
                            body: String::new(),
                        },
                    );
                    assert(ordering::views(messages@) =~= ordering::views(before).push(
                        messages@.last()@,
                    ));
                },
                None => {},
            }
        }
        i += 1;
    }
    assert(entries@.take(i as int) =~= entries@);
    sort(&mut messages);
    messages
}

/// When the newest of the messages was sent that some files hold, if they hold
/// any.
pub fn latest_stamp(entries: &Vec<MessageEntry>) -> (latest: Option<Timestamp>)
    ensures
        ({
            let messages = messages_in_order(messages_of(entries@));
            latest == (if messages.len() == 0 {
                None
            } else {
                Some(messages.last().sent)
            })
        }),
{
    let messages = list_messages(entries);
    let count: usize = messages.len();
    if count == 0 {
        None
    } else {
        assert(ordering::views(messages@)[count - 1] == messages@[count - 1]@);
        Some(messages[count - 1].sent)
    }
}

/// What is sent is found again: the file that a message is written to is read as
/// that message's once it is on record, at the path that it was written to.
pub proof fn sent_messages_are_found(
    account: Seq<char>,
    chat_id: Seq<char>,
    members: Seq<MemberView>,
    group: bool,
    timestamp: Seq<char>,
    body: Seq<u8>,
    entry: MessageEntry,
)
    requires
        entry.name@ == message_file_name(timestamp),
        entry.stamp is Some,
    ensures
        sending(account, chat_id, Some(members), group, timestamp, body) matches Ok(sent)
            && message_of(entry) matches Some(message) && message.id == sent.file_name
            && sent.actions[0] == (ActionView::WriteFile {
            path: paths::chat_file_text(chat_id, message.id),
            body,
        }),
{
    let name = message_file_name(timestamp);
    assert(name.subrange(0, MSG_PREFIX@.len() as int) =~= MSG_PREFIX@);
}

/// The last `last_n` messages, or all of them.
pub open spec fn latest<A>(messages: Seq<A>, last_n: Option<int>) -> Seq<A> {
    match last_n {
        Some(n) if n < messages.len() => messages.skip(messages.len() - n),
        _ => messages,
    }
}

/// The last `last_n` messages, or all of them where that is `None` or too many.
pub fn latest_messages(messages: Vec<Message>, last_n: Option<usize>) -> (kept: Vec<Message>)
    ensures
        kept@ == latest(
            messages@,
            match last_n {
                Some(n) => Some(n as int),
                None => None,
            },
        ),
{
    let mut messages = messages;
    match last_n {
        Some(n) => {
            if n < messages.len() {
                let start = messages.len() - n;
                return messages.split_off(start);
            }
        },
        None => {},
    }
    messages
}

/// The path of a message's file.
pub fn get_message_path(chat_id: &str, id: &str) -> (path: String)
    ensures
        path@ == paths::chat_file_text(chat_id@, id@),
{
    get_chat_file_path(chat_id, id)
}

/// A message with what its file holds; `None` where that is no text.
pub open spec fn with_body(message: MessageView, body: Option<Seq<char>>) -> MessageView {
    MessageView {
        body: match body {
            Some(body) => body,
            None => "<binary>"@,
        },
        ..message
    }
}

/// Put what the files of messages hold into them, best-effort: `bodies` has the
/// text of each file, or `None` where it cannot be read as text.
pub fn read_messages(messages: Vec<Message>, bodies: Vec<Option<String>>) -> (read: Vec<Message>)
    requires
        messages.len() == bodies.len(),
    ensures
        read.len() == messages.len(),
        forall|i: int|
            0 <= i < messages.len() ==> (#[trigger] read@[i])@ == with_body(
                messages@[i]@,
                text::maybe_text(bodies@[i]),
            ),
{
    let mut read: Vec<Message> = Vec::new();
    let mut i: usize = 0;
    while i < messages.len()
        invariant
            i <= messages.len(),
            messages.len() == bodies.len(),
            read.len() == i,
            forall|k: int|
                0 <= k < i ==> (#[trigger] read@[k])@ == with_body(
                    messages@[k]@,
                    text::maybe_text(bodies@[k]),
                ),
        decreases messages.len() - i,
    {
        let body = match &bodies[i] {
            Some(body) => body.clone(),
            None => "<binary>".to_owned(),
        };
        read.push(
            Message {
                id: messages[i].id.clone(),
                sender: messages[i].sender.clone(),
                sent: messages[i].sent,
                body,
            },
        );
        i += 1;
    }
    read
}

/// Each file is read on its own: the messages of two lots of files are those of
/// the one and then those of the other. A file is a message if its name starts
/// with `msg_` and it is on record who modified it when, and that is its sender
/// and moment.
pub proof fn each_file_is_read_on_its_own(
    a: Seq<MessageEntry>,
    b: Seq<MessageEntry>,
    entry: MessageEntry,
)
    ensures
        messages_of(Seq::empty()) == Seq::<MessageView>::empty(),
        messages_of(a + b) == messages_of(a) + messages_of(b),
        messages_of(seq![entry]) == (if entry.stamp is Some && entry.name@.len() >= 4
            && entry.name@.take(4) == "msg_"@ {
            seq![
                MessageView {
                    id: entry.name@,
                    sender: entry.stamp->Some_0.modified_by@,
                    sent: entry.stamp->Some_0.modified,
                    body: Seq::empty(),
                },
            ]
        } else {
            Seq::empty()
        }),
    decreases b.len(),
{
    reveal_strlit("msg_");
    reveal_with_fuel(messages_of, 2);
    assert(seq![entry].drop_last() =~= Seq::<MessageEntry>::empty());
    if entry.name@.len() >= 4 {
        assert(entry.name@.take(4) =~= entry.name@.subrange(0, 4));
    }
    if b.len() == 0 {
        assert(a + b =~= a);
        assert(messages_of(a) + messages_of(b) =~= messages_of(a));
    } else {
        each_file_is_read_on_its_own(a, b.drop_last(), entry);
        assert((a + b).drop_last() =~= a + b.drop_last());
        assert(messages_of(a + b) =~= messages_of(a) + messages_of(b));
    }
}

/// Whether a file is a message: its name starts with `msg_`, and it is on record
/// who modified it when.
pub open spec fn is_message_file(entry: MessageEntry) -> bool {
    entry.stamp is Some && entry.name@.len() >= 4 && entry.name@.take(4) == "msg_"@
}

/// Whether a message is the one that a file holds: by its name, sender and
/// moment.
pub open spec fn is_of_file(message: MessageView, entry: MessageEntry) -> bool {
    &&& message.id == entry.name@
    &&& entry.stamp matches Some(stamp) && message.sender == stamp.modified_by@ && message.sent
        == stamp.modified
}

/// Every file of a message is listed, with its name, sender and moment.
pub proof fn every_message_file_is_listed(entries: Seq<MessageEntry>, i: int)
    requires
        0 <= i < entries.len(),
        is_message_file(entries[i]),
    ensures
        ({
            let listed = messages_in_order(messages_of(entries));
            exists|k: int| 0 <= k < listed.len() && is_of_file(#[trigger] listed[k], entries[i])
        }),
{
    let found = messages_of(entries);
    let listed = messages_in_order(found);
    let at = lemma_found(entries, i);
    let k = lemma_listed(found, listed, at);
    assert(is_of_file(listed[k], entries[i]));
}

/// Nothing but the files of messages is listed.
pub proof fn only_message_files_are_listed(entries: Seq<MessageEntry>, k: int)
    requires
        0 <= k < messages_in_order(messages_of(entries)).len(),
    ensures
        exists|i: int|
            0 <= i < entries.len() && is_message_file(#[trigger] entries[i]) && is_of_file(
                messages_in_order(messages_of(entries))[k],
                entries[i],
            ),
{
    let found = messages_of(entries);
    let listed = messages_in_order(found);
    let later = |a: MessageView, b: MessageView| <Message as Listed>::later(a, b);
    ordering::sorting_keeps_the_elements(found, later);
    let at = lemma_among(listed, found, k);
    let i = lemma_file_of(entries, at);
    assert(is_message_file(entries[i]) && is_of_file(listed[k], entries[i]));
}

/// There are as many messages in the list as there are files of messages.
pub proof fn as_many_messages_are_listed_as_there_are_files(entries: Seq<MessageEntry>)
    ensures
        messages_in_order(messages_of(entries)).len() == entries.filter(
            |entry: MessageEntry| is_message_file(entry),
        ).len(),
{
    let later = |a: MessageView, b: MessageView| <Message as Listed>::later(a, b);
    ordering::sorting_keeps_the_elements(messages_of(entries), later);
    lemma_count(entries);
}

proof fn lemma_is_message(entry: MessageEntry)
    ensures
        is_message_file(entry) == (message_of(entry) is Some),
        is_message_file(entry) ==> is_of_file(message_of(entry)->Some_0, entry),
{
    reveal_strlit("msg_");
    if entry.name@.len() >= 4 {
        assert(entry.name@.take(4) =~= entry.name@.subrange(0, 4));
    }
}

proof fn lemma_count(entries: Seq<MessageEntry>)
    ensures
        messages_of(entries).len() == entries.filter(
            |entry: MessageEntry| is_message_file(entry),
        ).len(),
    decreases entries.len(),
{
    reveal(Seq::filter);
    if entries.len() > 0 {
        lemma_count(entries.drop_last());
        lemma_is_message(entries.last());
    }
}

proof fn lemma_found(entries: Seq<MessageEntry>, i: int) -> (at: int)
    requires
        0 <= i < entries.len(),
        is_message_file(entries[i]),
    ensures
        0 <= at < messages_of(entries).len(),
        is_of_file(messages_of(entries)[at], entries[i]),
    decreases entries.len(),
{
    let front = entries.drop_last();
    lemma_is_message(entries.last());
    if i == entries.len() - 1 {
        messages_of(front).len() as int
    } else {
        let at = lemma_found(front, i);
        assert(front[i] == entries[i]);
        assert(messages_of(entries)[at] == messages_of(front)[at]);
        at
    }
}

proof fn lemma_file_of(entries: Seq<MessageEntry>, at: int) -> (i: int)
    requires
        0 <= at < messages_of(entries).len(),
    ensures
        0 <= i < entries.len(),
        is_message_file(entries[i]),
        is_of_file(messages_of(entries)[at], entries[i]),
    decreases entries.len(),
{
    let front = entries.drop_last();
    lemma_is_message(entries.last());
    if at < messages_of(front).len() {
        let i = lemma_file_of(front, at);
        assert(messages_of(entries)[at] == messages_of(front)[at]);
        assert(front[i] == entries[i]);
        i
    } else {
        entries.len() - 1
    }
}

proof fn lemma_listed(
    found: Seq<MessageView>,
    listed: Seq<MessageView>,
    at: int,
) -> (k: int)
    requires
        listed == messages_in_order(found),
        0 <= at < found.len(),
    ensures
        0 <= k < listed.len(),
        listed[k] == found[at],
{
    let later = |a: MessageView, b: MessageView| <Message as Listed>::later(a, b);
    ordering::sorting_keeps_the_elements(found, later);
    lemma_among(found, listed, at)
}

/// What one of two lists of the same elements holds, the other holds too.
proof fn lemma_among(a: Seq<MessageView>, b: Seq<MessageView>, at: int) -> (k: int)
    requires
        a.to_multiset() == b.to_multiset(),
        0 <= at < a.len(),
    ensures
        0 <= k < b.len(),
        b[k] == a[at],
{
    a.to_multiset_ensures();
    b.to_multiset_ensures();
    assert(a.contains(a[at]));
    assert(a.to_multiset().count(a[at]) > 0);
    assert(b.to_multiset().count(a[at]) > 0);
    assert(b.contains(a[at]));
    choose|k: int| 0 <= k < b.len() && b[k] == a[at]
}

/// Names are listed as in a dictionary: where two first differ, the one with the
/// smaller character comes first, and a name comes before what only goes on
/// longer.
pub proof fn names_are_listed_as_in_a_dictionary(
    common: Seq<char>,
    x: char,
    y: char,
    a: Seq<char>,
    b: Seq<char>,
)
    ensures
        x < y ==> precedes(common.push(x) + a, common.push(y) + b) && !precedes(
            common.push(y) + b,
            common.push(x) + a,
        ),
        precedes(common, common.push(x) + a),
        !precedes(common.push(x) + a, common),
        !precedes(common, common),
{
    let (with_x, with_y) = (seq![x] + a, seq![y] + b);
    let none = Seq::<char>::empty();
    assert(common.push(x) + a =~= common + with_x);
    assert(common.push(y) + b =~= common + with_y);
    assert(common =~= common + none);
    lemma_common_front(common, with_x, with_y);
    lemma_common_front(common, with_y, with_x);
    lemma_common_front(common, none, with_x);
    lemma_common_front(common, with_x, none);
    lemma_common_front(common, none, none);
}

/// A message goes into a file of its own in the chat's directory, named by the
/// moment, with its body as it is; then the file is shared with those who may read
/// it, and with nobody in another role. Where there is no chat, it is refused.
pub proof fn sent_messages_are_written_and_shared(
    account: Seq<char>,
    chat_id: Seq<char>,
    members: Seq<MemberView>,
    group: bool,
    timestamp: Seq<char>,
    body: Seq<u8>,
)
    ensures
        ({
            let path = "/apps/msg/chats/"@ + chat_id + "/msg_"@ + timestamp + ".md"@;
            &&& sending(account, chat_id, Some(members), group, timestamp, body) matches Ok(sent)
                && {
                &&& sent.file_name == "msg_"@ + timestamp + ".md"@
                &&& sent.actions.len() == 2
                &&& sent.actions[0] == ActionView::WriteFile { path, body }
                &&& sent.actions[1] matches ActionView::Put { path: shared, permissions }
                    && shared == path && permissions.owners.len() == 0
                    && permissions.writers.len() == 0 && permissions.dropped.len() == 0
                    && permissions.readers == message_readers(account, group, members)
            }
            &&& sending(account, chat_id, None, group, timestamp, body) == Err::<
                SendingView,
                FailureView,
            >(
                FailureView {
                    kind: FailureKind::NotFound,
                    message: "chat dir missing: /apps/msg/chats/"@ + chat_id,
                },
            )
        }),
{
    reveal_strlit("msg_");
    reveal_strlit(".");
    reveal_strlit("md");
    reveal_strlit(".md");
    reveal_strlit("/");
    reveal_strlit("/msg_");
    reveal_strlit("chat dir missing: ");
    reveal_strlit("/apps/msg/chats/");
    reveal_strlit("chat dir missing: /apps/msg/chats/");
    paths::chats_lie_under_their_root(chat_id, message_file_name(timestamp));
    assert(message_file_name(timestamp) =~= "msg_"@ + timestamp + ".md"@);
    assert(paths::chat_file_text(chat_id, message_file_name(timestamp)) =~= "/apps/msg/chats/"@
        + chat_id + "/msg_"@ + timestamp + ".md"@);
    assert("chat dir missing: "@ + paths::chat_path_text(chat_id)
        =~= "chat dir missing: /apps/msg/chats/"@ + chat_id);
}

/// In a group chat an address may read a message exactly if an entry of the chat's
/// directory names it as a writer, wherever that entry stands; entries are taken
/// one by one and in their order.
pub proof fn group_messages_reach_the_writers(
    account: Seq<char>,
    members: Seq<MemberView>,
    more: Seq<MemberView>,
    member: MemberView,
    address: Seq<char>,
)
    ensures
        message_readers(account, true, members).contains(address) <==> exists|i: int|
            0 <= i < members.len() && (#[trigger] members[i]).permission == Permission::Writer
                && members[i].address == address,
        message_readers(account, true, members + more) == message_readers(account, true, members)
            + message_readers(account, true, more),
        message_readers(account, true, seq![member]) == (if member.permission
            == Permission::Writer {
            seq![member.address]
        } else {
            Seq::empty()
        }),
{
    lemma_writers(members, address);
    lemma_writers_apart(members, more);
    reveal_with_fuel(writer_addresses, 2);
    assert(seq![member].drop_last() =~= Seq::<MemberView>::empty());
    assert(Seq::<Seq<char>>::empty().push(member.address) =~= seq![member.address]);
}

proof fn lemma_writers_apart(a: Seq<MemberView>, b: Seq<MemberView>)
    ensures
        writer_addresses(a + b) == writer_addresses(a) + writer_addresses(b),
    decreases b.len(),
{
    if b.len() == 0 {
        assert(a + b =~= a);
        assert(writer_addresses(a) + writer_addresses(b) =~= writer_addresses(a));
    } else {
        lemma_writers_apart(a, b.drop_last());
        assert((a + b).drop_last() =~= a + b.drop_last());
        assert(writer_addresses(a + b) =~= writer_addresses(a) + writer_addresses(b));
    }
}

proof fn lemma_writers(members: Seq<MemberView>, address: Seq<char>)
    ensures
        writer_addresses(members).contains(address) <==> exists|i: int|
            0 <= i < members.len() && (#[trigger] members[i]).permission == Permission::Writer
                && members[i].address == address,
    decreases members.len(),
{
    if members.len() > 0 {
        let front = members.drop_last();
        let last = members[members.len() - 1];
        lemma_writers(front, address);
        text::lemma_push_contains(writer_addresses(front), last.address, address);
        if writer_addresses(front).contains(address) {
            let i = choose|i: int|
                0 <= i < front.len() && (#[trigger] front[i]).permission == Permission::Writer
                    && front[i].address == address;
            assert(members[i] == front[i]);
        }
        if exists|i: int|
            0 <= i < members.len() && (#[trigger] members[i]).permission == Permission::Writer
                && members[i].address == address {
            let i = choose|i: int|
                0 <= i < members.len() && (#[trigger] members[i]).permission == Permission::Writer
                    && members[i].address == address;
            if i < front.len() {
                assert(front[i] == members[i]);
            }
        }
    }
}

/// In a direct chat everyone whom the chat's directory names may read a message,
/// but for the sender, in the order in which they are named.
pub proof fn direct_messages_go_to_all_but_the_sender(
    account: Seq<char>,
    members: Seq<MemberView>,
)
    ensures
        message_readers(account, false, members) == members.map_values(
            |member: MemberView| member.address,
        ).filter(|address: Seq<char>| address != account),
{
    text_laws::what_is_not_taken_out_stays(chat::addresses(members), account);
    assert(chat::addresses(members) =~= members.map_values(|member: MemberView| member.address));
}

/// The latest messages are the last so many of all, in their order, and all of
/// them where that is not limited or there are no more.
pub proof fn the_latest_messages_end_the_list<A>(messages: Seq<A>, n: nat)
    ensures
        latest(messages, None) == messages,
        latest(messages, Some(n as int)).len() == (if n < messages.len() {
            n
        } else {
            messages.len()
        }),
        forall|i: int|
            0 <= i < latest(messages, Some(n as int)).len() ==> #[trigger] latest(
                messages,
                Some(n as int),
            )[i] == messages[messages.len() - latest(messages, Some(n as int)).len() + i],
{
}

/// Reading a message's file fills in its body and changes nothing else; a file
/// that is no text is marked as such.
pub proof fn reading_fills_in_the_body(message: MessageView, body: Seq<char>)
    ensures
        with_body(message, Some(body)).body == body,
        with_body(message, None).body == "<binary>"@,
        forall|read: Option<Seq<char>>|
            (#[trigger] with_body(message, read)).id == message.id && with_body(
                message,
                read,
            ).sender == message.sender && with_body(message, read).sent == message.sent,
{
}

} // verus!
