//! Conversations: directories under `apps/msg/convos/`, each with a title, whose
//! members are named by the directory itself.

use vstd::prelude::*;

use crate::group::{self, is_owned_by_another};
use crate::numerals::{self, decimal_text, parse_integer};
use crate::ordering::{self, sort, Listed};
use crate::paths::{default_slug, sanitize_slug, APPS_MSG};
use crate::plan::{self, copies, one, Action, ActionView};
use crate::reltime;
use crate::resolve::{self, resolve_name};
use crate::text::{self, rsplit_once, same_text};
use crate::text_laws;
use crate::types::{
    self, Failure, FailureView, Member, MemberView, Permission, Permissions, Timestamp,
};

verus! {

/// The file that holds a conversation's title.
pub const CONVERSATION_JSON: &'static str = "conversation.json";

/// The address that stands for everybody.
pub const EVERYBODY: &'static str = "*";

/// What a conversation's `conversation.json` holds.
pub struct ConversationDoc {
    pub title: String,
}

/// A conversation, as it is listed.
pub struct ConvoSummary {
    pub dir_name: String,
    pub title: Option<String>,
    pub member_count: usize,
    pub owner_count: usize,
    pub last_activity: Timestamp,
}

#[verifier::ext_equal]
pub struct ConvoSummaryView {
    pub dir_name: Seq<char>,
    pub title: Option<Seq<char>>,
    pub member_count: nat,
    pub owner_count: nat,
    pub last_activity: Timestamp,
}

impl View for ConvoSummary {
    type V = ConvoSummaryView;

    open spec fn view(&self) -> ConvoSummaryView {
        ConvoSummaryView {
            dir_name: self.dir_name@,
            title: text::maybe_text(self.title),
            member_count: self.member_count as nat,
            owner_count: self.owner_count as nat,
            last_activity: self.last_activity,
        }
    }
}

/// `apps/msg/convos`.
pub open spec fn convos_root_text() -> Seq<char> {
    APPS_MSG@ + "/convos"@
}

/// The directory that holds the conversations.
pub fn convos_root() -> (root: String)
    ensures
        root@ == convos_root_text(),
{
    let mut root = APPS_MSG.to_owned();
    root.append("/convos");
    root
}

/// `/apps/msg/convos/<dir_name>`.
pub open spec fn convo_path_text(dir_name: Seq<char>) -> Seq<char> {
    "/"@ + convos_root_text() + "/"@ + dir_name
}

/// `/apps/msg/convos/<dir_name>/conversation.json`.
pub open spec fn title_path_text(dir_name: Seq<char>) -> Seq<char> {
    convo_path_text(dir_name) + "/"@ + CONVERSATION_JSON@
}

/// The ark path of a conversation.
pub fn get_convo_path(dir_name: &str) -> (path: String)
    ensures
        path@ == convo_path_text(dir_name@),
{
    let mut path = "/".to_owned();
    path.append(convos_root().as_str());
    path.append("/");
    path.append(dir_name);
    path
}

/// The ark path of the file that holds a conversation's title.
pub fn get_title_path(dir_name: &str) -> (path: String)
    ensures
        path@ == title_path_text(dir_name@),
{
    let mut path = get_convo_path(dir_name);
    path.append("/");
    path.append(CONVERSATION_JSON);
    path
}

/// The name of a new conversation's directory, such as `bob-1699999999`.
pub open spec fn dir_name_text(slug: Seq<char>, unix_seconds: nat) -> Seq<char> {
    slug + "-"@ + numerals::decimal(unix_seconds)
}

/// The name of a new conversation's directory: a slug and the moment of its
/// creation, e.g. `bob-1699999999`.
pub fn make_dir_name(slug: &str, unix_seconds: u64) -> (name: String)
    ensures
        name@ == dir_name_text(slug@, unix_seconds as nat),
{
    let mut name = slug.to_owned();
    name.append("-");
    name.append(decimal_text(unix_seconds).as_str());
    name
}

/// A new conversation: the name of its directory, and the plan that creates it.
pub struct NewConvoPlan {
    pub dir_name: String,
    pub actions: Vec<Action>,
}

/// The plan that creates a conversation: its members may write to its directory
/// and read its title.
pub open spec fn convo_plan(
    dir_name: Seq<char>,
    title: Seq<char>,
    members: Seq<Seq<char>>,
) -> Seq<ActionView> {
    let dir = convo_path_text(dir_name);
    let file = title_path_text(dir_name);
    seq![
        ActionView::CreateDir { path: dir },
        ActionView::Put { path: dir, permissions: plan::writers_change(members) },
        ActionView::WriteTitle { path: file, title },
        ActionView::Put { path: file, permissions: plan::readers_change(members) },
    ]
}

/// Create a conversation dir with `members` as writers and the caller as
/// owner, then write and share a `conversation.json`. The plan holds the dir
/// name (e.g. `bob-1699999999`).
pub fn create(
    title: &str,
    slug: Option<&str>,
    members: &[String],
    unix_seconds: u64,
) -> (plan: NewConvoPlan)
    ensures
        plan.dir_name@ == dir_name_text(
            crate::chat::chosen_slug(text::maybe_str(slug), text::texts(members@)),
            unix_seconds as nat,
        ),
        ordering::views(plan.actions@) == convo_plan(
            plan.dir_name@,
            title@,
            text::texts(members@),
        ),
{
    let slug = match slug {
        Some(slug) => sanitize_slug(slug),
        None => default_slug(members),
    };
    let dir_name = make_dir_name(slug.as_str(), unix_seconds);
    let dir = get_convo_path(dir_name.as_str());
    let file = get_title_path(dir_name.as_str());
    let mut actions: Vec<Action> = Vec::new();
    actions.push(Action::CreateDir { path: dir.clone() });
    actions.push(Action::Put { path: dir, permissions: Permissions::writers(copies(members)) });
    actions.push(Action::WriteTitle { path: file.clone(), title: title.to_owned() });
    actions.push(Action::Put { path: file, permissions: Permissions::readers(copies(members)) });
    assert(ordering::views(actions@) =~= convo_plan(dir_name@, title@, text::texts(members@)));
    NewConvoPlan { dir_name, actions }
}

/// Conversations are listed with the most recent activity first.
impl Listed for ConvoSummary {
    open spec fn later(a: ConvoSummaryView, b: ConvoSummaryView) -> bool {
        a.last_activity.unix_nanos < b.last_activity.unix_nanos
    }

    fn is_later(&self, other: &Self) -> (later: bool) {
        self.last_activity.unix_nanos < other.last_activity.unix_nanos
    }
}

/// Conversations with the most recent activity first.
pub open spec fn convos_in_order(convos: Seq<ConvoSummaryView>) -> Seq<ConvoSummaryView> {
    ordering::in_order(
        convos,
        |a: ConvoSummaryView, b: ConvoSummaryView| <ConvoSummary as Listed>::later(a, b),
    )
}

/// The conversations under the local `apps/msg/convos/` mirror, most recent
/// activity first.
pub fn list(summaries: Vec<ConvoSummary>) -> (listed: Vec<ConvoSummary>)
    ensures
        ordering::views(listed@) == convos_in_order(ordering::views(summaries@)),
{
    let mut listed = summaries;
    sort(&mut listed);
    listed
}

/// The list of conversations holds every one of them once, most recent activity
/// first.
pub proof fn convos_are_listed_most_recent_first(convos: Seq<ConvoSummaryView>)
    ensures
        convos_in_order(convos).to_multiset() == convos.to_multiset(),
        forall|i: int, j: int|
            0 <= i < j < convos_in_order(convos).len() ==> (#[trigger] convos_in_order(
                convos,
            )[i]).last_activity.unix_nanos >= (#[trigger] convos_in_order(
                convos,
            )[j]).last_activity.unix_nanos,
{
    let later = |a: ConvoSummaryView, b: ConvoSummaryView| <ConvoSummary as Listed>::later(a, b);
    ordering::sorting_keeps_the_elements(convos, later);
    ordering::sorting_orders(convos, later);
}

/// Resolve a caller-provided `<convo>` argument to a full dir name.
/// Accepts an exact dir name, or a prefix that matches exactly one convo.
pub fn resolve(dir_names: &Vec<String>, arg: &str) -> (result: Result<String, Failure>)
    ensures
        types::outcome(result) == resolve::resolved(
            text::texts(dir_names@),
            arg@,
            "conversation"@,
        ),
{
    resolve_name(dir_names, arg, "conversation")
}

/// The plan that changes permissions of a conversation's directory and, where it
/// is there, of its title.
pub open spec fn permission_plan(
    dir_name: Seq<char>,
    dir: types::PermissionsView,
    file: types::PermissionsView,
    has_title: bool,
) -> Seq<ActionView> {
    let first = ActionView::PutPermissions { path: convo_path_text(dir_name), permissions: dir };
    if has_title {
        seq![
            first,
            ActionView::PutPermissions { path: title_path_text(dir_name), permissions: file },
        ]
    } else {
        seq![first]
    }
}

fn change_permissions(
    dir_name: &str,
    dir: Permissions,
    file: Permissions,
    has_title: bool,
) -> (actions: Vec<Action>)
    ensures
        ordering::views(actions@) == permission_plan(dir_name@, dir@, file@, has_title),
{
    let ghost (dir_change, file_change) = (dir@, file@);
    let mut actions: Vec<Action> = Vec::new();
    actions.push(Action::PutPermissions { path: get_convo_path(dir_name), permissions: dir });
    if has_title {
        actions.push(Action::PutPermissions { path: get_title_path(dir_name), permissions: file });
    }
    assert(ordering::views(actions@) =~= permission_plan(
        dir_name@,
        dir_change,
        file_change,
        has_title,
    ));
    actions
}

/// Make an address a member: it may write to the directory and read the title.
pub fn add_member(dir_name: &str, addr: &str, has_title: bool) -> (actions: Vec<Action>)
    ensures
        ordering::views(actions@) == permission_plan(
            dir_name@,
            plan::writers_change(seq![addr@]),
            plan::readers_change(seq![addr@]),
            has_title,
        ),
{
    change_permissions(
        dir_name,
        Permissions::writers(one(addr)),
        Permissions::readers(one(addr)),
        has_title,
    )
}

/// Drop a member from the directory and from the title.
pub fn remove_member(dir_name: &str, addr: &str, has_title: bool) -> (actions: Vec<Action>)
    ensures
        ordering::views(actions@) == permission_plan(
            dir_name@,
            plan::drop_change(seq![addr@]),
            plan::drop_change(seq![addr@]),
            has_title,
        ),
{
    change_permissions(
        dir_name,
        Permissions::dropping(one(addr)),
        Permissions::dropping(one(addr)),
        has_title,
    )
}

/// Make a member an owner of the directory and of the title.
pub fn promote(dir_name: &str, addr: &str, has_title: bool) -> (actions: Vec<Action>)
    ensures
        ordering::views(actions@) == permission_plan(
            dir_name@,
            plan::owners_change(seq![addr@]),
            plan::owners_change(seq![addr@]),
            has_title,
        ),
{
    change_permissions(
        dir_name,
        Permissions::owners(one(addr)),
        Permissions::owners(one(addr)),
        has_title,
    )
}

/// What making an owner an ordinary member comes to. An ordinary member may only
/// read the title. An account cannot demote itself where nobody else owns the
/// conversation.
pub open spec fn demoting(
    account: Seq<char>,
    dir_name: Seq<char>,
    addr: Seq<char>,
    dir_members: Seq<MemberView>,
    has_title: bool,
) -> Result<Seq<ActionView>, FailureView> {
    if addr == account && !group::has_other_owner(dir_members, account) {
        group::invalid("cannot demote self: no other owner"@)
    } else {
        Ok(
            permission_plan(
                dir_name,
                plan::writers_change(seq![addr]),
                plan::readers_change(seq![addr]),
                has_title,
            ),
        )
    }
}

/// Make an owner an ordinary member.
pub fn demote(
    account: &str,
    dir_name: &str,
    addr: &str,
    dir_members: &Vec<Member>,
    has_title: bool,
) -> (result: Result<Vec<Action>, Failure>)
    ensures
        group::planned(result) == demoting(
            account@,
            dir_name@,
            addr@,
            ordering::views(dir_members@),
            has_title,
        ),
{
    if same_text(addr, account) && !is_owned_by_another(dir_members, account) {
        return Err(Failure::invalid_input("cannot demote self: no other owner"));
    }
    // A writer of the directory is a reader of the title.
    Ok(add_member(dir_name, addr, has_title))
}

/// Whether an entry of a directory is a member of the conversation: an owner or
/// a writer, and not everybody.
pub open spec fn is_member(member: MemberView) -> bool {
    member.address != EVERYBODY@ && member.permission != Permission::Reader
}

/// The addresses of a conversation's members.
pub open spec fn member_addresses(members: Seq<MemberView>) -> Seq<Seq<char>>
    decreases members.len(),
{
    if members.len() == 0 {
        Seq::empty()
    } else {
        let front = member_addresses(members.drop_last());
        if is_member(members.last()) {
            front.push(members.last().address)
        } else {
            front
        }
    }
}

/// Return the writer+owner set of the convo dir (excludes any `*` public
/// member).
pub fn members(dir_members: &Vec<Member>) -> (list: Vec<String>)
    ensures
        text::texts(list@) == member_addresses(ordering::views(dir_members@)),
{
    let ghost all = ordering::views(dir_members@);
    let mut list: Vec<String> = Vec::new();
    assert(text::texts(list@) =~= Seq::<Seq<char>>::empty());
    let mut i: usize = 0;
    while i < dir_members.len()
        invariant
            i <= dir_members.len(),
            all == ordering::views(dir_members@),
            text::texts(list@) == member_addresses(all.take(i as int)),
        decreases dir_members.len() - i,
    {
        assert(all.take(i + 1).drop_last() =~= all.take(i as int));
        let member = &dir_members[i];
        if member.permission != Permission::Reader && !same_text(
            member.address.as_str(),
            EVERYBODY,
        ) {
            let ghost before = list@;
            list.push(member.address.clone());
            assert(text::texts(list@) =~= text::texts(before).push(member.address@));
        }
        i += 1;
    }
    assert(all.take(i as int) =~= all);
    list
}

/// How many addresses a directory names, and how many of them as owners; not
/// counting everybody.
pub open spec fn member_counts(members: Seq<MemberView>) -> (nat, nat)
    decreases members.len(),
{
    if members.len() == 0 {
        (0, 0)
    } else {
        let (all, owners) = member_counts(members.drop_last());
        let member = members.last();
        if member.address == EVERYBODY@ {
            (all, owners)
        } else if member.permission == Permission::Owner {
            (all + 1, owners + 1)
        } else {
            (all + 1, owners)
        }
    }
}

/// How many addresses a directory names, and how many of them as owners; not
/// counting everybody, and none where that cannot be read.
pub fn count_members(dir_members: Option<&Vec<Member>>) -> (counts: (usize, usize))
    ensures
        (counts.0 as nat, counts.1 as nat) == (match dir_members {
            Some(members) => member_counts(ordering::views(members@)),
            None => (0, 0),
        }),
{
    match dir_members {
        None => (0, 0),
        Some(members) => {
            let ghost all = ordering::views(members@);
            let mut count: usize = 0;
            let mut owners: usize = 0;
            let mut i: usize = 0;
            while i < members.len()
                invariant
                    i <= members.len(),
                    all == ordering::views(members@),
                    owners <= count <= i,
                    (count as nat, owners as nat) == member_counts(all.take(i as int)),
                decreases members.len() - i,
            {
                assert(all.take(i + 1).drop_last() =~= all.take(i as int));
                if !same_text(members[i].address.as_str(), EVERYBODY) {
                    count += 1;
                    if members[i].permission == Permission::Owner {
                        owners += 1;
                    }
                }
                i += 1;
            }
            assert(all.take(i as int) =~= all);
            (count, owners)
        },
    }
}

/// The moment that stands behind the last dash of a directory's name, if it is a
/// number of seconds that a date has.
pub open spec fn dir_name_moment(dir_name: Seq<char>) -> Option<Timestamp> {
    match text::cut_last(dir_name, '-') {
        Some((_, digits)) => match numerals::integer_value(digits) {
            Some(seconds) if -377_705_116_800 <= seconds < 253_402_300_800 => Some(
                Timestamp { unix_nanos: (seconds * reltime::NANOS_PER_SECOND) as i128 },
            ),
            _ => None,
        },
        None => None,
    }
}

/// When a conversation was last active, by when its newest message was sent, if
/// that is known.
pub open spec fn activity_of(dir_name: Seq<char>, sent: Option<Timestamp>) -> Timestamp {
    match sent {
        Some(moment) => moment,
        None => match dir_name_moment(dir_name) {
            Some(created) => created,
            None => Timestamp { unix_nanos: 0 },
        },
    }
}

/// When a conversation was last active, by its newest message's timestamp in RFC
/// 3339.
pub open spec fn last_activity_of(dir_name: Seq<char>, latest: Option<Seq<char>>) -> Timestamp {
    let sent = match latest {
        Some(modified) => reltime::rfc3339_nanos(modified),
        None => None,
    };
    activity_of(
        dir_name,
        match sent {
            Some(nanos) => Some(Timestamp { unix_nanos: nanos as i128 }),
            None => None,
        },
    )
}

/// When the newest message in the convo dir was sent, else convo creation time
/// (dir_name unix-secs suffix), else UNIX_EPOCH.
pub fn get_activity(dir_name: &str, sent: Option<Timestamp>) -> (moment: Timestamp)
    ensures
        moment == activity_of(dir_name@, sent),
{
    if let Some(moment) = sent {
        return moment;
    }
    match rsplit_once(dir_name, '-') {
        Some((_, digits)) => match parse_integer(digits.as_str()) {
            Some(seconds) => {
                if -377_705_116_800 <= seconds && seconds < 253_402_300_800 {
                    Timestamp { unix_nanos: seconds as i128 * reltime::NANOS_PER_SECOND }
                } else {
                    Timestamp::unix_epoch()
                }
            },
            None => Timestamp::unix_epoch(),
        },
        None => Timestamp::unix_epoch(),
    }
}

/// Newest message timestamp in the convo dir, else convo creation time
/// (dir_name unix-secs suffix), else UNIX_EPOCH. `latest` is the newest
/// message's timestamp by RFC 3339.
pub fn last_activity(dir_name: &str, latest: Option<&str>) -> (moment: Timestamp)
    ensures
        moment == last_activity_of(dir_name@, text::maybe_str(latest)),
{
    let sent = match latest {
        Some(modified) => Timestamp::from_rfc3339(modified),
        None => None,
    };
    get_activity(dir_name, sent)
}

/// A conversation in which nothing was said yet was last active when it was
/// created, whatever its slug is.
pub proof fn new_convo_is_dated_by_its_name(slug: Seq<char>, unix_seconds: nat)
    requires
        unix_seconds < 253_402_300_800,
    ensures
        last_activity_of(dir_name_text(slug, unix_seconds), None) == (Timestamp {
            unix_nanos: (unix_seconds * reltime::NANOS_PER_SECOND) as i128,
        }),
{
    reveal_strlit("-");
    let name = dir_name_text(slug, unix_seconds);
    let digits = numerals::decimal(unix_seconds);
    numerals::decimal_is_read_back(unix_seconds);
    assert forall|i: int| slug.len() < i < name.len() implies name[i] != '-' by {
        assert(name[i] == digits[i - slug.len() - 1]);
        assert(numerals::digit_value(digits[i - slug.len() - 1]) is Some);
    }
    text::lemma_cut_last(name, '-', slug.len() as int);
    assert(name.skip(slug.len() as int + 1) =~= digits);
}

/// A conversation as it is listed, by what the local mirror holds of it.
pub fn summarize(
    dir_name: &str,
    doc: Option<&ConversationDoc>,
    dir_members: Option<&Vec<Member>>,
    last_activity: Timestamp,
) -> (summary: ConvoSummary)
    ensures
        ({
            let counts = match dir_members {
                Some(members) => member_counts(ordering::views(members@)),
                None => (0, 0),
            };
            summary@ == (ConvoSummaryView {
                dir_name: dir_name@,
                title: match doc {
                    Some(doc) => Some(doc.title@),
                    None => None,
                },
                member_count: counts.0,
                owner_count: counts.1,
                last_activity,
            })
        }),
{
    let (member_count, owner_count) = count_members(dir_members);
    ConvoSummary {
        dir_name: dir_name.to_owned(),
        title: match doc {
            Some(doc) => Some(doc.title.clone()),
            None => None,
        },
        member_count,
        owner_count,
        last_activity,
    }
}

/// Conversations lie under `apps/msg/convos`, each in a directory of its own with
/// its title in `conversation.json`.
pub proof fn convos_lie_under_their_root(dir_name: Seq<char>)
    ensures
        convos_root_text() == "apps/msg/convos"@,
        convo_path_text(dir_name) == "/apps/msg/convos/"@ + dir_name,
        title_path_text(dir_name) == "/apps/msg/convos/"@ + dir_name + "/conversation.json"@,
{
    reveal_strlit("apps/msg");
    reveal_strlit("/convos");
    reveal_strlit("apps/msg/convos");
    reveal_strlit("/");
    reveal_strlit("/apps/msg/convos/");
    reveal_strlit("conversation.json");
    reveal_strlit("/conversation.json");
    assert(convos_root_text() =~= "apps/msg/convos"@);
    assert(convo_path_text(dir_name) =~= "/apps/msg/convos/"@ + dir_name);
    assert(title_path_text(dir_name) =~= "/apps/msg/convos/"@ + dir_name + "/conversation.json"@);
}

/// A conversation comes to be in this order: its directory is made and shared with
/// its members as writers, then its title is written and shared with them as
/// readers.
pub proof fn convos_are_shared_step_by_step(
    dir_name: Seq<char>,
    title: Seq<char>,
    members: Seq<Seq<char>>,
)
    ensures
        ({
            let steps = convo_plan(dir_name, title, members);
            let dir = "/apps/msg/convos/"@ + dir_name;
            let file = "/apps/msg/convos/"@ + dir_name + "/conversation.json"@;
            let none = Seq::<Seq<char>>::empty();
            &&& steps.len() == 4
            &&& steps[0] == ActionView::CreateDir { path: dir }
            &&& steps[1] == ActionView::Put {
                path: dir,
                permissions: types::PermissionsView {
                    owners: none,
                    writers: members,
                    readers: none,
                    dropped: none,
                },
            }
            &&& steps[2] == ActionView::WriteTitle { path: file, title }
            &&& steps[3] == ActionView::Put {
                path: file,
                permissions: types::PermissionsView {
                    owners: none,
                    writers: none,
                    readers: members,
                    dropped: none,
                },
            }
        }),
{
    convos_lie_under_their_root(dir_name);
}

/// A change of a conversation's permissions goes to its directory, and then to its
/// title where that is there.
pub proof fn changes_go_to_directory_and_title(
    dir_name: Seq<char>,
    dir: types::PermissionsView,
    file: types::PermissionsView,
)
    ensures
        ({
            let to_dir = ActionView::PutPermissions {
                path: "/apps/msg/convos/"@ + dir_name,
                permissions: dir,
            };
            let to_file = ActionView::PutPermissions {
                path: "/apps/msg/convos/"@ + dir_name + "/conversation.json"@,
                permissions: file,
            };
            &&& permission_plan(dir_name, dir, file, true) == seq![to_dir, to_file]
            &&& permission_plan(dir_name, dir, file, false) == seq![to_dir]
        }),
{
    convos_lie_under_their_root(dir_name);
}

/// A demotion is refused exactly where an account demotes itself and no other
/// address is an owner; else the address becomes a writer of the directory and a
/// reader of the title.
pub proof fn only_an_account_without_another_owner_is_refused(
    account: Seq<char>,
    dir_name: Seq<char>,
    addr: Seq<char>,
    dir_members: Seq<MemberView>,
    has_title: bool,
)
    ensures
        ({
            let refused = addr == account && forall|i: int|
                0 <= i < dir_members.len() && (#[trigger] dir_members[i]).permission
                    == Permission::Owner ==> dir_members[i].address == account;
            let none = Seq::<Seq<char>>::empty();
            demoting(account, dir_name, addr, dir_members, has_title) == (if refused {
                Err::<Seq<ActionView>, FailureView>(
                    FailureView {
                        kind: types::FailureKind::InvalidInput,
                        message: "cannot demote self: no other owner"@,
                    },
                )
            } else {
                Ok(
                    permission_plan(
                        dir_name,
                        types::PermissionsView {
                            owners: none,
                            writers: seq![addr],
                            readers: none,
                            dropped: none,
                        },
                        types::PermissionsView {
                            owners: none,
                            writers: none,
                            readers: seq![addr],
                            dropped: none,
                        },
                        has_title,
                    ),
                )
            })
        }),
{
    let only = forall|i: int|
        0 <= i < dir_members.len() && (#[trigger] dir_members[i]).permission == Permission::Owner
            ==> dir_members[i].address == account;
    assert(only == !group::has_other_owner(dir_members, account)) by {
        if only && group::has_other_owner(dir_members, account) {
            let i = choose|i: int|
                0 <= i < dir_members.len() && (#[trigger] dir_members[i]).permission
                    == Permission::Owner && dir_members[i].address != account;
            assert(dir_members[i].address == account);
        }
        if !only {
            let i = choose|i: int|
                !(0 <= i < dir_members.len() && (#[trigger] dir_members[i]).permission
                    == Permission::Owner ==> dir_members[i].address == account);
            assert(dir_members[i].permission == Permission::Owner && dir_members[i].address
                != account);
        }
    }
}

/// Each entry of a directory is looked at on its own: it is a member if it is an
/// owner or a writer and not everybody.
pub proof fn each_entry_is_a_member_on_its_own(
    a: Seq<MemberView>,
    b: Seq<MemberView>,
    member: MemberView,
)
    ensures
        member_addresses(Seq::empty()) == Seq::<Seq<char>>::empty(),
        member_addresses(a + b) == member_addresses(a) + member_addresses(b),
        member_addresses(seq![member]) == (if member.address != "*"@ && (member.permission
            == Permission::Owner || member.permission == Permission::Writer) {
            seq![member.address]
        } else {
            Seq::empty()
        }),
    decreases b.len(),
{
    reveal_with_fuel(member_addresses, 2);
    assert(seq![member].drop_last() =~= Seq::<MemberView>::empty());
    if b.len() == 0 {
        assert(a + b =~= a);
        assert(member_addresses(a) + member_addresses(b) =~= member_addresses(a));
    } else {
        each_entry_is_a_member_on_its_own(a, b.drop_last(), member);
        assert((a + b).drop_last() =~= a + b.drop_last());
        assert(member_addresses(a + b) =~= member_addresses(a) + member_addresses(b));
    }
}

/// Each entry of a directory counts on its own: everybody counts for nothing,
/// another for one, and an owner for one owner too.
pub proof fn each_entry_counts_on_its_own(
    a: Seq<MemberView>,
    b: Seq<MemberView>,
    member: MemberView,
)
    ensures
        member_counts(Seq::empty()) == (0nat, 0nat),
        member_counts(a + b).0 == member_counts(a).0 + member_counts(b).0,
        member_counts(a + b).1 == member_counts(a).1 + member_counts(b).1,
        member_counts(seq![member]) == (if member.address == "*"@ {
            (0nat, 0nat)
        } else if member.permission == Permission::Owner {
            (1nat, 1nat)
        } else {
            (1nat, 0nat)
        }),
    decreases b.len(),
{
    reveal_with_fuel(member_counts, 2);
    assert(seq![member].drop_last() =~= Seq::<MemberView>::empty());
    if b.len() == 0 {
        assert(a + b =~= a);
    } else {
        each_entry_counts_on_its_own(a, b.drop_last(), member);
        assert((a + b).drop_last() =~= a + b.drop_last());
    }
}

/// A conversation was last active when its newest message was sent, if that is
/// known; else when the seconds behind the last dash of its directory's name say;
/// else, and where those are no date, at the start of 1970.
pub proof fn activity_falls_back_to_the_name(
    front: Seq<char>,
    digits: Seq<char>,
    sent: Timestamp,
)
    requires
        !digits.contains('-'),
    ensures
        ({
            let name = front.push('-') + digits;
            &&& activity_of(name, Some(sent)) == sent
            &&& activity_of(digits, Some(sent)) == sent
            &&& activity_of(digits, None).unix_nanos == 0
            &&& activity_of(name, None).unix_nanos == (match numerals::integer_value(digits) {
                Some(seconds) => if -377_705_116_800 <= seconds < 253_402_300_800 {
                    seconds * 1_000_000_000
                } else {
                    0
                },
                None => 0,
            })
        }),
{
    text_laws::the_last_cut_is_at_the_last(front, '-', digits);
}

/// The newest message's timestamp is read by RFC 3339; where it cannot be, it
/// counts for nothing.
pub proof fn unreadable_timestamps_count_for_nothing(
    dir_name: Seq<char>,
    latest: Seq<char>,
    sent: Timestamp,
)
    ensures
        reltime::rfc3339_nanos(latest) == Some(sent.unix_nanos as int) ==> last_activity_of(
            dir_name,
            Some(latest),
        ) == sent,
        reltime::rfc3339_nanos(latest) is None ==> last_activity_of(dir_name, Some(latest))
            == activity_of(dir_name, None),
        last_activity_of(dir_name, None) == activity_of(dir_name, None),
{
}

/// A conversation's directory is named by a slug, a dash and the seconds.
pub proof fn directories_are_named_by_slug_and_seconds(slug: Seq<char>, unix_seconds: nat)
    ensures
        dir_name_text(slug, unix_seconds) == slug.push('-') + numerals::decimal(unix_seconds),
{
    reveal_strlit("-");
    assert(dir_name_text(slug, unix_seconds) =~= slug.push('-') + numerals::decimal(unix_seconds));
}

} // verus!
