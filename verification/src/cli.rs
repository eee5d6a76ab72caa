//! What the command line prints, and where it takes things from.

use vstd::prelude::*;

use crate::chat::{self, get_chat_display_name};
use crate::ordering;
use crate::reltime::Clock;
use crate::resolve::{self, resolve_name};
use crate::text;
use crate::types::{
    self, Chat, ChatMember, ChatMemberView, ChatView, Failure, Message, MessageView,
};

verus! {

/// Resolve a caller-provided chat argument to a full chat id, given the ids of
/// the chats that there are. Accepts an exact id, or a prefix that matches
/// exactly one chat (typically the slug portion before the timestamp suffix).
pub fn resolve_chat(names: &Vec<String>, arg: &str) -> (result: Result<String, Failure>)
    ensures
        types::outcome(result) == resolve::resolved(text::texts(names@), arg@, "chat"@),
{
    resolve_name(names, arg, "chat")
}

/// `<id>  <display name>`, on a line of its own for each chat.
pub open spec fn chat_lines(chats: Seq<ChatView>) -> Seq<char>
    decreases chats.len(),
{
    if chats.len() == 0 {
        Seq::empty()
    } else {
        let chat = chats.last();
        chat_lines(chats.drop_last()) + chat.id + "  "@ + chat::display_name(chat) + "\n"@
    }
}

/// What is printed of the chats that there are.
pub open spec fn chats_text(chats: Seq<ChatView>) -> Seq<char> {
    if chats.len() == 0 {
        "(no chats)\n"@
    } else {
        chat_lines(chats)
    }
}

/// What to print of the chats that there are.
pub fn list_chats_cli(chats: &Vec<Chat>) -> (printed: String)
    ensures
        printed@ == chats_text(ordering::views(chats@)),
{
    if chats.len() == 0 {
        return "(no chats)\n".to_owned();
    }
    let ghost all = ordering::views(chats@);
    let mut printed = String::new();
    let mut i: usize = 0;
    assert(printed@ =~= chat_lines(all.take(0)));
    while i < chats.len()
        invariant
            i <= chats.len(),
            all == ordering::views(chats@),
            printed@ == chat_lines(all.take(i as int)),
        decreases chats.len() - i,
    {
        printed.append(chats[i].id.as_str());
        printed.append("  ");
        printed.append(get_chat_display_name(&chats[i]).as_str());
        printed.append("\n");
        assert(all.take(i + 1).drop_last() =~= all.take(i as int));
        assert(all.take(i + 1).last() == chats@[i as int]@);
        i += 1;
    }
    assert(all.take(i as int) =~= all);
    printed
}

/// A text that ends with a line feed, whether or not it did.
pub open spec fn with_line_end(s: Seq<char>) -> Seq<char> {
    if s.len() > 0 && s.last() == '\n' {
        s
    } else {
        s.push('\n')
    }
}

/// What is printed of a message: when it was sent and by whom, its body on
/// lines of their own, and an empty line.
pub open spec fn message_text(message: MessageView, clock: Clock) -> Seq<char> {
    "["@ + clock.says(message.sent) + "] "@ + message.sender + "\n"@ + with_line_end(message.body)
        + "\n"@
}

/// What is printed of some messages, one after the other.
pub open spec fn messages_text(messages: Seq<MessageView>, clock: Clock) -> Seq<char>
    decreases messages.len(),
{
    if messages.len() == 0 {
        Seq::empty()
    } else {
        messages_text(messages.drop_last(), clock) + message_text(messages.last(), clock)
    }
}

/// What to print of a message.
fn print_message(message: &Message, clock: Clock) -> (printed: String)
    requires
        clock.can_say(message.sent),
    ensures
        printed@ == message_text(message@, clock),
{
    let mut printed = "[".to_owned();
    printed.append(clock.say(message.sent).as_str());
    printed.append("] ");
    printed.append(message.sender.as_str());
    printed.append("\n");
    printed.append(message.body.as_str());
    let count: usize = message.body.as_str().unicode_len();
    if count == 0 || message.body.as_str().get_char(count - 1) != '\n' {
        printed.push('\n');
    }
    printed.append("\n");
    assert(printed@ =~= message_text(message@, clock));
    printed
}

/// What to print of some messages.
pub fn read_messages_cli(messages: &Vec<Message>, clock: Clock) -> (printed: String)
    requires
        forall|i: int| 0 <= i < messages.len() ==> clock.can_say((#[trigger] messages@[i]).sent),
    ensures
        printed@ == messages_text(ordering::views(messages@), clock),
{
    let ghost all = ordering::views(messages@);
    let mut printed = String::new();
    let mut i: usize = 0;
    assert(printed@ =~= messages_text(all.take(0), clock));
    while i < messages.len()
        invariant
            i <= messages.len(),
            all == ordering::views(messages@),
            forall|i: int|
                0 <= i < messages.len() ==> clock.can_say((#[trigger] messages@[i]).sent),
            printed@ == messages_text(all.take(i as int), clock),
        decreases messages.len() - i,
    {
        printed.append(print_message(&messages[i], clock).as_str());
        assert(all.take(i + 1).drop_last() =~= all.take(i as int));
        assert(all.take(i + 1).last() == messages@[i as int]@);
        i += 1;
    }
    assert(all.take(i as int) =~= all);
    printed
}

/// `<address>`, and whether it is an owner, on a line of its own for each
/// member.
pub open spec fn members_text(members: Seq<ChatMemberView>) -> Seq<char>
    decreases members.len(),
{
    if members.len() == 0 {
        Seq::empty()
    } else {
        let member = members.last();
        members_text(members.drop_last()) + member.address + (if member.owner {
            "  owner"@
        } else {
            ""@
        }) + "\n"@
    }
}

/// What to print of a chat's members.
pub fn get_chat_members_cli(members: &Vec<ChatMember>) -> (printed: String)
    ensures
        printed@ == members_text(ordering::views(members@)),
{
    let ghost all = ordering::views(members@);
    let mut printed = String::new();
    let mut i: usize = 0;
    assert(printed@ =~= members_text(all.take(0)));
    while i < members.len()
        invariant
            i <= members.len(),
            all == ordering::views(members@),
            printed@ == members_text(all.take(i as int)),
        decreases members.len() - i,
    {
        printed.append(members[i].address.as_str());
        printed.append(
            if members[i].owner {
                "  owner"
            } else {
                ""
            },
        );
        printed.append("\n");
        assert(all.take(i + 1).drop_last() =~= all.take(i as int));
        assert(all.take(i + 1).last() == members@[i as int]@);
        i += 1;
    }
    assert(all.take(i as int) =~= all);
    printed
}

/// Where the body of a message to send is found.
pub enum BodySource {
    /// In a file, by its path.
    File(String),
    /// It is given.
    Text(String),
    /// On the standard input.
    Stdin,
}

/// Where to find the body of a message to send: in the file that is named, if
/// one is; else it is what is given, if anything is; else on the standard
/// input.
pub fn choose_body(input: Option<String>, body: Option<String>) -> (source: BodySource)
    ensures
        source == (match input {
            Some(path) => BodySource::File(path),
            None => match body {
                Some(text) => BodySource::Text(text),
                None => BodySource::Stdin,
            },
        }),
{
    match input {
        Some(path) => BodySource::File(path),
        None => match body {
            Some(text) => BodySource::Text(text),
            None => BodySource::Stdin,
        },
    }
}

/// Each chat is printed on a line of its own, with its id and what it is called,
/// in the order in which they are listed; where there is none, that is said.
pub proof fn each_chat_is_printed_on_its_own(a: Seq<ChatView>, b: Seq<ChatView>, chat: ChatView)
    ensures
        chats_text(Seq::empty()) == "(no chats)\n"@,
        chats_text(seq![chat]) == chat.id + "  "@ + chat::display_name(chat) + "\n"@,
        a.len() > 0 && b.len() > 0 ==> chats_text(a + b) == chats_text(a) + chats_text(b),
    decreases b.len(),
{
    reveal_with_fuel(chat_lines, 2);
    assert(seq![chat].drop_last() =~= Seq::<ChatView>::empty());
    assert(chats_text(seq![chat]) =~= chat.id + "  "@ + chat::display_name(chat) + "\n"@);
    if a.len() > 0 && b.len() > 0 {
        let front = b.drop_last();
        assert((a + b).drop_last() =~= a + front);
        if front.len() == 0 {
            assert(a + front =~= a);
        } else {
            each_chat_is_printed_on_its_own(a, front, chat);
        }
        assert(chats_text(a + b) =~= chats_text(a) + chats_text(b));
    }
}

/// Each message is printed on its own, in the order in which they are listed: when
/// it was sent and by whom, then its body, which ends its last line, and an empty
/// line.
pub proof fn each_message_is_printed_on_its_own(
    a: Seq<MessageView>,
    b: Seq<MessageView>,
    message: MessageView,
    clock: Clock,
)
    ensures
        messages_text(Seq::empty(), clock) == Seq::<char>::empty(),
        messages_text(seq![message], clock) == "["@ + clock.says(message.sent) + "] "@
            + message.sender + "\n"@ + message.body + (if message.body.len() > 0
            && message.body.last() == '\n' {
            "\n"@
        } else {
            "\n\n"@
        }),
        messages_text(a + b, clock) == messages_text(a, clock) + messages_text(b, clock),
    decreases b.len(),
{
    reveal_strlit("\n");
    reveal_strlit("\n\n");
    reveal_with_fuel(messages_text, 2);
    assert(seq![message].drop_last() =~= Seq::<MessageView>::empty());
    assert(messages_text(seq![message], clock) =~= "["@ + clock.says(message.sent) + "] "@
        + message.sender + "\n"@ + message.body + (if message.body.len() > 0 && message.body.last()
        == '\n' {
        "\n"@
    } else {
        "\n\n"@
    }));
    if b.len() == 0 {
        assert(a + b =~= a);
        assert(messages_text(a, clock) + messages_text(b, clock) =~= messages_text(a, clock));
    } else {
        each_message_is_printed_on_its_own(a, b.drop_last(), message, clock);
        assert((a + b).drop_last() =~= a + b.drop_last());
        assert(messages_text(a + b, clock) =~= messages_text(a, clock) + messages_text(b, clock));
    }
}

/// Each member is printed on a line of its own, with whether it is an owner, in
/// the order in which they are listed.
pub proof fn each_member_is_printed_on_its_own(
    a: Seq<ChatMemberView>,
    b: Seq<ChatMemberView>,
    address: Seq<char>,
)
    ensures
        members_text(Seq::empty()) == Seq::<char>::empty(),
        members_text(seq![ChatMemberView { address, owner: true }]) == address + "  owner\n"@,
        members_text(seq![ChatMemberView { address, owner: false }]) == address + "\n"@,
        members_text(a + b) == members_text(a) + members_text(b),
    decreases b.len(),
{
    reveal_strlit("\n");
    reveal_strlit("");
    reveal_strlit("  owner");
    reveal_strlit("  owner\n");
    reveal_with_fuel(members_text, 2);
    let owner = seq![ChatMemberView { address, owner: true }];
    let plain = seq![ChatMemberView { address, owner: false }];
    assert(owner.drop_last() =~= Seq::<ChatMemberView>::empty());
    assert(plain.drop_last() =~= Seq::<ChatMemberView>::empty());
    assert(members_text(owner) =~= address + "  owner\n"@);
    assert(members_text(plain) =~= address + "\n"@);
    if b.len() == 0 {
        assert(a + b =~= a);
        assert(members_text(a) + members_text(b) =~= members_text(a));
    } else {
        each_member_is_printed_on_its_own(a, b.drop_last(), address);
        assert((a + b).drop_last() =~= a + b.drop_last());
        assert(members_text(a + b) =~= members_text(a) + members_text(b));
    }
}

} // verus!
