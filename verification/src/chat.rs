//! Chats: their ids, what they are called, who is in them, and the order in
//! which they are listed.

use vstd::prelude::*;

use crate::ordering::{self, sort, Listed};
use crate::paths::{self, default_slug, sanitize_slug};
use crate::text::{self, join, list_holds, split_once, without};
use crate::text_laws;
use crate::types::{
    clone_text, Chat, ChatMember, ChatMemberView, ChatView, Member, MemberView, Message,
    Permission, Timestamp,
};

verus! {

/// The slug of a new chat: the one asked for, or the one of its members.
pub open spec fn chosen_slug(slug: Option<Seq<char>>, members: Seq<Seq<char>>) -> Seq<char> {
    match slug {
        Some(slug) => paths::slug_text(slug),
        None => paths::default_slug_text(members),
    }
}

/// The id of a new chat.
pub open spec fn chat_id_text(
    slug: Option<Seq<char>>,
    members: Seq<Seq<char>>,
    timestamp: Seq<char>,
) -> Seq<char> {
    chosen_slug(slug, members) + "_"@ + timestamp
}

/// An id for a new chat: a slug and a timestamp, e.g.
/// `bob_2026-07-28T13-45-07.123Z`. Also names its dir in the local mirror.
/// `members` only feeds the default slug.
pub fn create_chat_id(slug: Option<&str>, members: &[String], timestamp: &str) -> (id: String)
    ensures
        id@ == chat_id_text(text::maybe_str(slug), text::texts(members@), timestamp@),
{
    let mut id = match slug {
        Some(slug) => sanitize_slug(slug),
        None => default_slug(members),
    };
    id.append("_");
    id.append(timestamp);
    id
}

/// The timestamp in a chat id: what stands behind its first underscore.
pub open spec fn id_timestamp(chat_id: Seq<char>) -> Option<Seq<char>> {
    match text::cut_first(chat_id, '_') {
        Some((_, timestamp)) => Some(timestamp),
        None => None,
    }
}

/// The timestamp in a chat id, if there is one.
pub fn get_chat_timestamp(chat_id: &str) -> (timestamp: Option<String>)
    ensures
        text::maybe_text(timestamp) == id_timestamp(chat_id@),
{
    match split_once(chat_id, '_') {
        Some((_, timestamp)) => Some(timestamp),
        None => None,
    }
}

/// A chat id gives back the timestamp that it was made with, whatever the slug
/// and the members were.
pub proof fn chat_id_keeps_timestamp(
    slug: Option<Seq<char>>,
    members: Seq<Seq<char>>,
    timestamp: Seq<char>,
)
    ensures
        id_timestamp(chat_id_text(slug, members, timestamp)) == Some(timestamp),
{
    reveal_strlit("_");
    reveal_strlit("chat");
    let front = chosen_slug(slug, members);
    let id = chat_id_text(slug, members, timestamp);
    match slug {
        Some(slug) => paths::slug_is_well_formed(slug),
        None => {
            if members.len() > 0 {
                paths::slug_is_well_formed(paths::local_part(members[0]));
            }
        },
    }
    assert(forall|i: int| 0 <= i < front.len() ==> paths::is_slug_char(#[trigger] front[i]));
    assert forall|i: int| 0 <= i < front.len() implies id[i] != '_' by {
        assert(id[i] == front[i]);
        assert(paths::is_slug_char(front[i]));
    }
    text::lemma_cut_first(id, '_', front.len() as int);
    assert(id.skip(front.len() as int + 1) =~= timestamp);
}

/// What the local mirror holds of a chat.
pub struct ChatSources {
    /// The name in `chat.json`; `None` where that is missing or unreadable.
    pub name: Option<String>,
    /// The moment that the timestamp in the chat's id spells, if it does.
    pub created: Option<Timestamp>,
    /// The chat's messages, oldest first.
    pub messages: Vec<Message>,
    /// Whether there is a `group.json`.
    pub group_file: bool,
    /// The members that `group.json` names.
    pub group_members: Option<Vec<String>>,
    /// The members that the chat's directory names.
    pub dir_members: Option<Vec<Member>>,
}

/// The addresses of some members.
pub open spec fn addresses(members: Seq<MemberView>) -> Seq<Seq<char>> {
    members.map_values(|member: MemberView| member.address)
}

impl ChatSources {
    /// The addresses of a chat's members: those of the 'all members' group of a
    /// group chat, or those of the directory for a direct chat. What is missing
    /// or unreadable yields none.
    pub open spec fn members(&self) -> Seq<Seq<char>> {
        if self.group_file {
            match self.group_members {
                Some(members) => text::texts(members@),
                None => Seq::empty(),
            }
        } else {
            match self.dir_members {
                Some(members) => addresses(ordering::views(members@)),
                None => Seq::empty(),
            }
        }
    }

    /// The moment of the last message, or failing that the chat's creation, or
    /// failing that the start of 1970.
    pub open spec fn last_activity(&self) -> Timestamp {
        if self.messages.len() > 0 {
            self.messages@.last().sent
        } else {
            match self.created {
                Some(created) => created,
                None => Timestamp { unix_nanos: 0 },
            }
        }
    }
}

/// The addresses of some members.
pub fn get_addresses(members: &Vec<Member>) -> (list: Vec<String>)
    ensures
        text::texts(list@) == addresses(ordering::views(members@)),
{
    let mut list: Vec<String> = Vec::new();
    let mut i: usize = 0;
    while i < members.len()
        invariant
            i <= members.len(),
            text::texts(list@) == addresses(ordering::views(members@)).take(i as int),
        decreases members.len() - i,
    {
        let ghost before = list@;
        list.push(members[i].address.clone());
        assert(text::texts(list@) =~= text::texts(before).push(members@[i as int].address@));
        assert(addresses(ordering::views(members@)).take(i + 1) =~= addresses(
            ordering::views(members@),
        ).take(i as int).push(members@[i as int].address@));
        i += 1;
    }
    assert(addresses(ordering::views(members@)).take(i as int) =~= addresses(
        ordering::views(members@),
    ));
    list
}

/// A chat's members but this account, from the local mirror alone: the 'all
/// members' group of a group chat, or the dir's members for a direct chat.
/// Anything missing or unreadable yields no members.
pub fn read_other_members(account: &str, sources: &ChatSources) -> (others: Vec<String>)
    ensures
        text::texts(others@) == text::without_text(sources.members(), account@),
{
    let none: Vec<String> = Vec::new();
    assert(text::texts(none@) =~= Seq::<Seq<char>>::empty());
    if sources.group_file {
        match &sources.group_members {
            Some(members) => without(members, account),
            None => none,
        }
    } else {
        match &sources.dir_members {
            Some(members) => without(&get_addresses(members), account),
            None => none,
        }
    }
}

/// A chat as the local mirror shows it to `account`.
pub open spec fn chat_of(
    account: Seq<char>,
    chat_id: Seq<char>,
    sources: &ChatSources,
) -> ChatView {
    ChatView {
        id: chat_id,
        name: text::maybe_text(sources.name),
        other_members: text::without_text(sources.members(), account),
        last_activity: sources.last_activity(),
    }
}

/// Read a chat from the local mirror. A chat whose `chat.json` is missing or
/// unreadable is returned unnamed.
pub fn read_chat(account: &str, chat_id: &str, sources: &ChatSources) -> (chat: Chat)
    ensures
        chat@ == chat_of(account@, chat_id@, sources),
{
    let count = sources.messages.len();
    let last_activity = if count > 0 {
        sources.messages[count - 1].sent
    } else {
        match sources.created {
            Some(created) => created,
            None => Timestamp::unix_epoch(),
        }
    };
    Chat {
        id: chat_id.to_owned(),
        name: clone_text(&sources.name),
        other_members: read_other_members(account, sources),
        last_activity,
    }
}

/// An account is never one of the other members of a chat that it reads, and
/// every other member is.
pub proof fn account_is_no_other_member(
    account: Seq<char>,
    chat_id: Seq<char>,
    sources: &ChatSources,
)
    ensures
        !chat_of(account, chat_id, sources).other_members.contains(account),
        forall|address: Seq<char>|
            address != account && #[trigger] sources.members().contains(address) ==> chat_of(
                account,
                chat_id,
                sources,
            ).other_members.contains(address),
{
    text::lemma_without(sources.members(), account);
    let listed = sources.members().contains(account);
}

/// What a chat is called.
pub open spec fn display_name(chat: ChatView) -> Seq<char> {
    match chat.name {
        Some(name) => name,
        None => if chat.other_members.len() == 0 {
            chat.id
        } else {
            text::joined(chat.other_members, ", "@)
        },
    }
}

/// What to call a chat: its name, or failing that its other members'
/// addresses, or failing that its id.
pub fn get_chat_display_name(chat: &Chat) -> (name: String)
    ensures
        name@ == display_name(chat@),
{
    match &chat.name {
        Some(name) => name.clone(),
        None => {
            if chat.other_members.len() == 0 {
                chat.id.clone()
            } else {
                join(&chat.other_members, ", ")
            }
        },
    }
}

/// Chats are listed with the most recent activity first.
impl Listed for Chat {
    open spec fn later(a: ChatView, b: ChatView) -> bool {
        a.last_activity.unix_nanos < b.last_activity.unix_nanos
    }

    fn is_later(&self, other: &Self) -> (later: bool) {
        self.last_activity.unix_nanos < other.last_activity.unix_nanos
    }
}

/// Chats with the most recent activity first.
pub open spec fn chats_in_order(chats: Seq<ChatView>) -> Seq<ChatView> {
    ordering::in_order(chats, |a: ChatView, b: ChatView| <Chat as Listed>::later(a, b))
}

/// The chats under the local `apps/msg/chats/` mirror, in the order in which
/// they are listed: most recent activity first.
pub fn list_chats(chats: Vec<Chat>) -> (listed: Vec<Chat>)
    ensures
        ordering::views(listed@) == chats_in_order(ordering::views(chats@)),
{
    let mut listed = chats;
    sort(&mut listed);
    listed
}

/// The list of chats holds every chat once, most recent activity first; chats
/// of the same moment stay as they came.
pub proof fn chats_are_listed_most_recent_first(chats: Seq<ChatView>, moment: Timestamp)
    ensures
        chats_in_order(chats).to_multiset() == chats.to_multiset(),
        forall|i: int, j: int|
            0 <= i < j < chats_in_order(chats).len() ==> (#[trigger] chats_in_order(
                chats,
            )[i]).last_activity.unix_nanos >= (#[trigger] chats_in_order(
                chats,
            )[j]).last_activity.unix_nanos,
        chats_in_order(chats).filter(|chat: ChatView| chat.last_activity == moment)
            == chats.filter(|chat: ChatView| chat.last_activity == moment),
{
    let later = |a: ChatView, b: ChatView| <Chat as Listed>::later(a, b);
    ordering::sorting_keeps_the_elements(chats, later);
    ordering::sorting_orders(chats, later);
    ordering::sorting_is_stable(
        chats,
        later,
        |chat: ChatView| chat.last_activity == moment,
    );
}

/// A member that a chat's directory names, with the members that it stands for
/// where it is a group.
pub struct ResolvedMember {
    pub member: Member,
    pub group: Option<Vec<String>>,
}

#[verifier::ext_equal]
pub struct ResolvedMemberView {
    pub member: MemberView,
    pub group: Option<Seq<Seq<char>>>,
}

impl View for ResolvedMember {
    type V = ResolvedMemberView;

    open spec fn view(&self) -> ResolvedMemberView {
        ResolvedMemberView {
            member: self.member@,
            group: match self.group {
                Some(group) => Some(text::texts(group@)),
                None => None,
            },
        }
    }
}

/// The addresses that a directory's entry stands for.
pub open spec fn stands_for(entry: ResolvedMemberView) -> Seq<Seq<char>> {
    match entry.group {
        Some(group) => group,
        None => seq![entry.member.address],
    }
}

/// `list` with the texts of `more` behind it that it does not hold yet.
pub open spec fn with_new(list: Seq<Seq<char>>, more: Seq<Seq<char>>) -> Seq<Seq<char>>
    decreases more.len(),
{
    if more.len() == 0 {
        list
    } else {
        let front = with_new(list, more.drop_last());
        if front.contains(more.last()) {
            front
        } else {
            front.push(more.last())
        }
    }
}

/// The addresses that a directory's entries stand for, each once, as they first
/// occur.
pub open spec fn chat_addresses(entries: Seq<ResolvedMemberView>) -> Seq<Seq<char>>
    decreases entries.len(),
{
    if entries.len() == 0 {
        Seq::empty()
    } else {
        with_new(chat_addresses(entries.drop_last()), stands_for(entries.last()))
    }
}

/// Whether a directory names an address as an owner.
pub open spec fn names_owner(entries: Seq<ResolvedMemberView>, address: Seq<char>) -> bool {
    exists|i: int|
        0 <= i < entries.len() && (#[trigger] entries[i]).member.address == address
            && entries[i].member.permission == Permission::Owner
}

/// The members of a chat, by what its directory names.
pub open spec fn chat_members(entries: Seq<ResolvedMemberView>) -> Seq<ChatMemberView> {
    chat_addresses(entries).map_values(
        |address: Seq<char>|
            ChatMemberView { address, owner: names_owner(entries, address) },
    )
}

proof fn lemma_with_new(list: Seq<Seq<char>>, more: Seq<Seq<char>>, address: Seq<char>)
    requires
        list.no_duplicates(),
    ensures
        with_new(list, more).no_duplicates(),
        with_new(list, more).contains(address) <==> (list.contains(address) || more.contains(
            address,
        )),
    decreases more.len(),
{
    if more.len() > 0 {
        let front = with_new(list, more.drop_last());
        lemma_with_new(list, more.drop_last(), address);
        assert(more =~= more.drop_last().push(more.last()));
        text::lemma_push_contains(more.drop_last(), more.last(), address);
        text::lemma_push_contains(front, more.last(), address);
    }
}

/// Every address that an entry of the directory stands for is a member exactly
/// once, and no other address is one. A group is no member itself, unless an
/// entry stands for its address.
pub proof fn each_member_is_listed_once(entries: Seq<ResolvedMemberView>, address: Seq<char>)
    ensures
        chat_addresses(entries).no_duplicates(),
        chat_addresses(entries).contains(address) <==> exists|i: int|
            0 <= i < entries.len() && stands_for(#[trigger] entries[i]).contains(address),
    decreases entries.len(),
{
    if entries.len() > 0 {
        let front = entries.drop_last();
        each_member_is_listed_once(front, address);
        lemma_with_new(chat_addresses(front), stands_for(entries.last()), address);
        if chat_addresses(front).contains(address) {
            let i = choose|i: int|
                0 <= i < front.len() && stands_for(#[trigger] front[i]).contains(address);
            assert(stands_for(entries[i]).contains(address));
        }
        if stands_for(entries.last()).contains(address) {
            assert(stands_for(entries[entries.len() - 1]).contains(address));
        }
        if exists|i: int|
            0 <= i < entries.len() && stands_for(#[trigger] entries[i]).contains(address) {
            let i = choose|i: int|
                0 <= i < entries.len() && stands_for(#[trigger] entries[i]).contains(address);
            if i < front.len() {
                assert(stands_for(front[i]).contains(address));
            }
        }
    }
}

fn add_new(list: &mut Vec<String>, more: &Vec<String>)
    ensures
        text::texts(final(list)@) == with_new(text::texts(old(list)@), text::texts(more@)),
{
    let ghost all = text::texts(more@);
    let ghost start = text::texts(list@);
    let mut i: usize = 0;
    while i < more.len()
        invariant
            i <= more.len(),
            all == text::texts(more@),
            text::texts(list@) == with_new(start, all.take(i as int)),
        decreases more.len() - i,
    {
        assert(all.take(i + 1).drop_last() =~= all.take(i as int));
        if !list_holds(list, more[i].as_str()) {
            let ghost before = list@;
            list.push(more[i].clone());
            assert(text::texts(list@) =~= text::texts(before).push(more@[i as int]@));
        }
        i += 1;
    }
    assert(all.take(i as int) =~= all);
}

fn is_owner(entries: &Vec<ResolvedMember>, address: &str) -> (owner: bool)
    ensures
        owner == names_owner(ordering::views(entries@), address@),
{
    let mut i: usize = 0;
    while i < entries.len()
        invariant
            i <= entries.len(),
            forall|before: int|
                0 <= before < i ==> !((#[trigger] ordering::views(entries@)[before]).member.address
                    == address@ && ordering::views(entries@)[before].member.permission
                    == Permission::Owner),
        decreases entries.len() - i,
    {
        assert(ordering::views(entries@)[i as int] == entries@[i as int]@);
        if entries[i].member.permission == Permission::Owner && text::same_text(
            entries[i].member.address.as_str(),
            address,
        ) {
            return true;
        }
        i += 1;
    }
    false
}

/// All members of a chat, with the 'all members' group replaced by the members
/// it stands for. Owners are those whom the chat's directory names as such.
pub fn get_chat_members(entries: &Vec<ResolvedMember>) -> (members: Vec<ChatMember>)
    ensures
        ordering::views(members@) == chat_members(ordering::views(entries@)),
{
    let ghost all = ordering::views(entries@);
    let mut list: Vec<String> = Vec::new();
    assert(text::texts(list@) =~= Seq::<Seq<char>>::empty());
    let mut i: usize = 0;
    while i < entries.len()
        invariant
            i <= entries.len(),
            all == ordering::views(entries@),
            text::texts(list@) == chat_addresses(all.take(i as int)),
        decreases entries.len() - i,
    {
        assert(all.take(i + 1).drop_last() =~= all.take(i as int));
        match &entries[i].group {
            Some(group) => add_new(&mut list, group),
            None => {
                let mut single: Vec<String> = Vec::new();
                single.push(entries[i].member.address.clone());
                assert(text::texts(single@) =~= seq![entries@[i as int].member.address@]);
                add_new(&mut list, &single);
            },
        }
        i += 1;
    }
    assert(all.take(i as int) =~= all);
    let mut members: Vec<ChatMember> = Vec::new();
    let mut k: usize = 0;
    while k < list.len()
        invariant
            k <= list.len(),
            all == ordering::views(entries@),
            text::texts(list@) == chat_addresses(all),
            ordering::views(members@) == chat_members(all).take(k as int),
        decreases list.len() - k,
    {
        let owner = is_owner(entries, list[k].as_str());
        let ghost before = members@;
        members.push(ChatMember { address: list[k].clone(), owner });
        assert(text::texts(list@)[k as int] == list@[k as int]@);
        assert(ordering::views(members@) =~= ordering::views(before).push(members@[k as int]@));
        assert(chat_members(all).take(k + 1) =~= chat_members(all).take(k as int).push(
            chat_members(all)[k as int],
        ));
        k += 1;
    }
    assert(chat_members(all).take(k as int) =~= chat_members(all));
    members
}

/// Whether an account is a member of a chat, by a list of the chat's members.
pub fn is_chat_member(account: &str, members: &Vec<ChatMember>) -> (member: bool)
    ensures
        member == exists|i: int|
            0 <= i < members.len() && (#[trigger] members@[i]).address@ == account@,
{
    let mut i: usize = 0;
    while i < members.len()
        invariant
            i <= members.len(),
            forall|before: int|
                0 <= before < i ==> (#[trigger] members@[before]).address@ != account@,
        decreases members.len() - i,
    {
        if text::same_text(members[i].address.as_str(), account) {
            return true;
        }
        i += 1;
    }
    false
}

/// A chat id is a slug, an underscore and the timestamp: the slug of the one that
/// was asked for, or else the default one of the members.
pub proof fn chat_ids_start_with_their_slug(
    slug: Seq<char>,
    members: Seq<Seq<char>>,
    timestamp: Seq<char>,
)
    ensures
        chat_id_text(Some(slug), members, timestamp) == paths::slug_text(slug) + "_"@ + timestamp,
        chat_id_text(None, members, timestamp) == paths::default_slug_text(members) + "_"@
            + timestamp,
{
}

/// The timestamp in a chat id is what stands behind its first underscore.
pub proof fn the_timestamp_is_behind_the_first_underscore(
    front: Seq<char>,
    timestamp: Seq<char>,
)
    requires
        !front.contains('_'),
    ensures
        id_timestamp(front.push('_') + timestamp) == Some(timestamp),
        id_timestamp(front) is None,
{
    text_laws::the_first_cut_is_at_the_first(front, '_', timestamp);
}

/// A chat is read with its id and name as they are, and with all its members but
/// the account: those of the group where there is a `group.json`, and those of the
/// directory otherwise.
pub proof fn chats_are_read_with_all_other_members(
    account: Seq<char>,
    chat_id: Seq<char>,
    sources: &ChatSources,
)
    ensures
        ({
            let chat = chat_of(account, chat_id, sources);
            let known = if sources.group_file {
                match sources.group_members {
                    Some(members) => members@.map_values(|address: String| address@),
                    None => Seq::empty(),
                }
            } else {
                match sources.dir_members {
                    Some(members) => members@.map_values(|member: Member| member.address@),
                    None => Seq::empty(),
                }
            };
            &&& chat.id == chat_id
            &&& sources.name matches Some(name) ==> chat.name == Some(name@)
            &&& sources.name is None ==> chat.name is None
            &&& chat.other_members == known.filter(|address: Seq<char>| address != account)
        }),
{
    text_laws::what_is_not_taken_out_stays(sources.members(), account);
    if sources.group_file {
        if let Some(members) = sources.group_members {
            assert(sources.members() =~= members@.map_values(|address: String| address@));
        }
    } else if let Some(members) = sources.dir_members {
        assert(sources.members() =~= members@.map_values(|member: Member| member.address@));
    }
}

/// A chat was last active when its last message was sent; failing that, when it
/// was created; failing that, at the start of 1970.
pub proof fn the_last_message_is_the_last_activity(
    account: Seq<char>,
    chat_id: Seq<char>,
    sources: &ChatSources,
)
    ensures
        ({
            let activity = chat_of(account, chat_id, sources).last_activity;
            &&& sources.messages.len() > 0 ==> activity
                == sources.messages@[sources.messages.len() - 1].sent
            &&& sources.messages.len() == 0 && sources.created is Some ==> activity
                == sources.created->Some_0
            &&& sources.messages.len() == 0 && sources.created is None ==> activity.unix_nanos == 0
        }),
{
}

/// A chat is called by its name; failing that, by its other members; failing that,
/// by its id.
pub proof fn names_come_before_members_and_members_before_the_id(chat: ChatView, name: Seq<char>)
    ensures
        display_name(ChatView { name: Some(name), ..chat }) == name,
        chat.name is None && chat.other_members.len() > 0 ==> display_name(chat) == text::joined(
            chat.other_members,
            ", "@,
        ),
        chat.name is None && chat.other_members.len() == 0 ==> display_name(chat) == chat.id,
{
}

/// A chat's members are those for whom an entry of its directory stands: the
/// members of a group, or else the address itself. Each is listed once, and is an
/// owner exactly if an entry names that address as one.
pub proof fn members_are_those_the_directory_stands_for(
    entries: Seq<ResolvedMemberView>,
    address: Seq<char>,
)
    ensures
        (exists|k: int|
            0 <= k < chat_members(entries).len() && (#[trigger] chat_members(entries)[k]).address
                == address) <==> (exists|i: int|
            0 <= i < entries.len() && (match (#[trigger] entries[i]).group {
                Some(group) => group.contains(address),
                None => entries[i].member.address == address,
            })),
        forall|k: int, l: int|
            0 <= k < l < chat_members(entries).len() ==> (#[trigger] chat_members(
                entries,
            )[k]).address != (#[trigger] chat_members(entries)[l]).address,
        forall|k: int|
            0 <= k < chat_members(entries).len() ==> ((#[trigger] chat_members(entries)[k]).owner
                <==> exists|i: int|
                0 <= i < entries.len() && (#[trigger] entries[i]).member.permission
                    == Permission::Owner && entries[i].member.address == chat_members(
                    entries,
                )[k].address),
{
    let members = chat_members(entries);
    let listed = chat_addresses(entries);
    each_member_is_listed_once(entries, address);
    if exists|k: int| 0 <= k < members.len() && (#[trigger] members[k]).address == address {
        let k = choose|k: int| 0 <= k < members.len() && (#[trigger] members[k]).address == address;
        assert(listed[k] == address);
        assert(listed.contains(address));
        let i = choose|i: int|
            0 <= i < entries.len() && stands_for(#[trigger] entries[i]).contains(address);
        assert(entries[i].group is None ==> seq![entries[i].member.address].contains(address));
    }
    if exists|i: int|
        0 <= i < entries.len() && (match (#[trigger] entries[i]).group {
            Some(group) => group.contains(address),
            None => entries[i].member.address == address,
        }) {
        let i = choose|i: int|
            0 <= i < entries.len() && (match (#[trigger] entries[i]).group {
                Some(group) => group.contains(address),
                None => entries[i].member.address == address,
            });
        if entries[i].group is None {
            assert(stands_for(entries[i])[0] == address);
        }
        assert(stands_for(entries[i]).contains(address));
        assert(listed.contains(address));
        let k = choose|k: int| 0 <= k < listed.len() && listed[k] == address;
        assert(members[k].address == address);
    }
    assert forall|k: int, l: int| 0 <= k < l < members.len() implies (#[trigger] members[k]).address
        != (#[trigger] members[l]).address by {
        assert(listed[k] != listed[l]);
    }
    assert forall|k: int| 0 <= k < members.len() implies ((#[trigger] members[k]).owner
        <==> exists|i: int|
        0 <= i < entries.len() && (#[trigger] entries[i]).member.permission == Permission::Owner
            && entries[i].member.address == members[k].address) by {
        let named = names_owner(entries, members[k].address);
        if named {
            let i = choose|i: int|
                0 <= i < entries.len() && (#[trigger] entries[i]).member.address
                    == members[k].address && entries[i].member.permission == Permission::Owner;
            assert(entries[i].member.permission == Permission::Owner);
        }
    }
}

/// Members are listed in the order in which the directory comes to them: one more
/// entry adds those that were not listed yet, behind the others.
pub proof fn members_are_listed_as_they_come(
    entries: Seq<ResolvedMemberView>,
    entry: ResolvedMemberView,
    group: Seq<Seq<char>>,
)
    requires
        entry.group == Some(group) || (entry.group is None && group == seq![entry.member.address]),
        group.no_duplicates(),
    ensures
        ({
            let address_of = |member: ChatMemberView| member.address;
            let before = chat_members(entries).map_values(address_of);
            chat_members(entries.push(entry)).map_values(address_of) == before + group.filter(
                |address: Seq<char>| !before.contains(address),
            )
        }),
{
    let address_of = |member: ChatMemberView| member.address;
    let before = chat_addresses(entries);
    assert(entries.push(entry).drop_last() =~= entries);
    assert(chat_members(entries).map_values(address_of) =~= before);
    assert(chat_members(entries.push(entry)).map_values(address_of) =~= chat_addresses(
        entries.push(entry),
    ));
    lemma_new_ones(before, group);
}

proof fn lemma_new_ones(list: Seq<Seq<char>>, more: Seq<Seq<char>>)
    requires
        more.no_duplicates(),
    ensures
        with_new(list, more) == list + more.filter(|x: Seq<char>| !list.contains(x)),
    decreases more.len(),
{
    let new = |x: Seq<char>| !list.contains(x);
    reveal(Seq::filter);
    if more.len() == 0 {
        assert(with_new(list, more) =~= list + more.filter(new));
    } else {
        let front = more.drop_last();
        let last = more.last();
        lemma_new_ones(list, front);
        let so_far = list + front.filter(new);
        assert(so_far.contains(last) == list.contains(last)) by {
            if so_far.contains(last) && !list.contains(last) {
                let i = choose|i: int| 0 <= i < so_far.len() && so_far[i] == last;
                assert(i >= list.len()) by {
                    if i < list.len() {
                        assert(list[i] == last);
                    }
                }
                front.lemma_filter_contains_rev(new, last);
            }
            if list.contains(last) {
                let i = choose|i: int| 0 <= i < list.len() && list[i] == last;
                assert(so_far[i] == last);
            }
        }
        assert(with_new(list, more) =~= list + more.filter(new));
    }
}

} // verus!
