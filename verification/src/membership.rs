//! Who belongs to a group chat, and what the plans for it do to that.

use vstd::prelude::*;

use crate::direct;
use crate::group;
use crate::paths;
use crate::plan::ActionView;
use crate::types::{FailureView, MemberView, Permission, PermissionsView, Timestamp};

verus! {

/// Who belongs to a chat: the entries of its directory, and the members of its
/// group.
#[verifier::ext_equal]
pub struct Membership {
    pub entries: Map<Seq<char>, Permission>,
    pub group: Set<Seq<char>>,
}

/// The entries of a directory after a change of its permissions: who is named in
/// the change has the role that it gives, and who is dropped has none.
pub open spec fn changed(
    entries: Map<Seq<char>, Permission>,
    change: PermissionsView,
) -> Map<Seq<char>, Permission> {
    Map::new(
        |address: Seq<char>|
            !change.dropped.contains(address) && (entries.contains_key(address)
                || change.owners.contains(address) || change.writers.contains(address)
                || change.readers.contains(address)),
        |address: Seq<char>|
            if change.owners.contains(address) {
                Permission::Owner
            } else if change.writers.contains(address) {
                Permission::Writer
            } else if change.readers.contains(address) {
                Permission::Reader
            } else {
                entries[address]
            },
    )
}

impl Membership {
    /// Nobody belongs to a chat that is not there yet.
    pub open spec fn nobody() -> Membership {
        Membership { entries: Map::empty(), group: Set::empty() }
    }

    /// Who belongs to a chat after an action.
    pub open spec fn after(self, chat_id: Seq<char>, action: ActionView) -> Membership {
        match action {
            ActionView::Put { path, permissions } => self.permitting(chat_id, path, permissions),
            ActionView::PutPermissions { path, permissions } => self.permitting(
                chat_id,
                path,
                permissions,
            ),
            ActionView::ChangeMembers { path, added, dropped } => if path == paths::chat_file_text(
                chat_id,
                "group.json"@,
            ) {
                Membership {
                    group: self.group.union(added.to_set()).difference(dropped.to_set()),
                    ..self
                }
            } else {
                self
            },
            _ => self,
        }
    }

    /// Who belongs to a chat after a change of the permissions at a path. Those
    /// of the files in the chat's directory make nobody a member.
    pub open spec fn permitting(
        self,
        chat_id: Seq<char>,
        path: Seq<char>,
        permissions: PermissionsView,
    ) -> Membership {
        if path == paths::chat_path_text(chat_id) {
            Membership { entries: changed(self.entries, permissions), ..self }
        } else {
            self
        }
    }

    /// Who belongs to a chat once a plan was carried out.
    pub open spec fn after_all(self, chat_id: Seq<char>, plan: Seq<ActionView>) -> Membership
        decreases plan.len(),
    {
        if plan.len() == 0 {
            self
        } else {
            self.after_all(chat_id, plan.drop_last()).after(chat_id, plan.last())
        }
    }

    /// Whether the entries are those of a directory's list of members.
    pub open spec fn is_listed_by(self, dir_members: Seq<MemberView>) -> bool {
        forall|address: Seq<char>| #[trigger]
            self.entries.contains_key(address) <==> group::names(dir_members, address)
    }

    proof fn lemma_one(self, chat_id: Seq<char>, a: ActionView)
        ensures
            self.after_all(chat_id, seq![a]) == self.after(chat_id, a),
    {
        reveal_with_fuel(Membership::after_all, 2);
        assert(seq![a].drop_last() =~= Seq::empty());
    }

    proof fn lemma_push(self, chat_id: Seq<char>, plan: Seq<ActionView>, last: ActionView)
        ensures
            self.after_all(chat_id, plan.push(last)) == self.after_all(chat_id, plan).after(
                chat_id,
                last,
            ),
    {
        assert(plan.push(last).drop_last() =~= plan);
    }
}

/// A file in a chat's directory has another path than the directory.
proof fn lemma_paths(chat_id: Seq<char>, name: Seq<char>)
    ensures
        paths::chat_file_text(chat_id, name) != paths::chat_path_text(chat_id),
{
    reveal_strlit("/");
    assert(paths::chat_file_text(chat_id, name).len() > paths::chat_path_text(chat_id).len());
}

/// An added member reaches the chat through its group, and gets no entry of its
/// own in the directory.
pub proof fn added_members_are_in_the_group(
    before: Membership,
    chat_id: Seq<char>,
    address: Seq<char>,
    plan: Seq<ActionView>,
)
    requires
        group::adding(chat_id, address, true) == Ok::<_, FailureView>(plan),
    ensures
        before.after_all(chat_id, plan) == (Membership {
            group: before.group.insert(address),
            ..before
        }),
{
    before.lemma_one(chat_id, plan[0]);
    assert(plan =~= seq![plan[0]]);
    assert(seq![address].contains(address)) by {
        assert(seq![address][0] == address);
    }
    assert(before.after_all(chat_id, plan).group =~= before.group.insert(address));
}

/// A promoted member is named as an owner by the directory, and stays in the
/// group; nobody else is affected.
pub proof fn promoted_members_are_owners(
    before: Membership,
    chat_id: Seq<char>,
    address: Seq<char>,
    chat_json: bool,
    plan: Seq<ActionView>,
)
    requires
        group::promoting(chat_id, address, true, chat_json) == Ok::<_, FailureView>(
            plan,
        ),
    ensures
        before.after_all(chat_id, plan) == (Membership {
            entries: before.entries.insert(address, Permission::Owner),
            ..before
        }),
{
    lemma_paths(chat_id, "chat.json"@);
    before.lemma_one(chat_id, plan[0]);
    before.lemma_push(chat_id, seq![plan[0]], plan[1]);
    if chat_json {
        assert(plan =~= seq![plan[0]].push(plan[1]));
    } else {
        assert(plan =~= seq![plan[0]]);
    }
    assert(seq![address].contains(address)) by {
        assert(seq![address][0] == address);
    }
    assert(before.after_all(chat_id, plan).entries =~= before.entries.insert(
        address,
        Permission::Owner,
    ));
}

/// A demoted member is named by the directory no longer, and stays in the group;
/// nobody else is affected.
pub proof fn demoted_members_stay_in_the_group(
    before: Membership,
    account: Seq<char>,
    chat_id: Seq<char>,
    address: Seq<char>,
    dir_members: Seq<MemberView>,
    chat_json: bool,
    plan: Seq<ActionView>,
)
    requires
        group::demoting(account, chat_id, address, true, dir_members, chat_json) == Ok::<
            _,
            FailureView,
        >(plan),
    ensures
        before.after_all(chat_id, plan) == (Membership {
            entries: before.entries.remove(address),
            ..before
        }),
{
    lemma_paths(chat_id, "chat.json"@);
    before.lemma_one(chat_id, plan[0]);
    before.lemma_push(chat_id, seq![plan[0]], plan[1]);
    if chat_json {
        assert(plan =~= seq![plan[0]].push(plan[1]));
    } else {
        assert(plan =~= seq![plan[0]]);
    }
    assert(seq![address].contains(address)) by {
        assert(seq![address][0] == address);
    }
    assert(before.after_all(chat_id, plan).entries =~= before.entries.remove(address));
}

/// A promotion that is taken back leaves a member without an entry of its own,
/// and the group as it was.
pub proof fn demotion_undoes_promotion(
    before: Membership,
    account: Seq<char>,
    chat_id: Seq<char>,
    address: Seq<char>,
    dir_members: Seq<MemberView>,
    chat_json: bool,
    promotion: Seq<ActionView>,
    demotion: Seq<ActionView>,
)
    requires
        group::promoting(chat_id, address, true, chat_json) == Ok::<_, FailureView>(
            promotion,
        ),
        group::demoting(account, chat_id, address, true, dir_members, chat_json) == Ok::<
            _,
            FailureView,
        >(demotion),
    ensures
        ({
            let after = before.after_all(chat_id, promotion).after_all(chat_id, demotion);
            &&& !after.entries.contains_key(address)
            &&& after.group == before.group
            &&& !before.entries.contains_key(address) ==> after == before
        }),
{
    let promoted = before.after_all(chat_id, promotion);
    promoted_members_are_owners(before, chat_id, address, chat_json, promotion);
    demoted_members_stay_in_the_group(
        promoted,
        account,
        chat_id,
        address,
        dir_members,
        chat_json,
        demotion,
    );
    let after = promoted.after_all(chat_id, demotion);
    assert(after.entries =~= before.entries.remove(address));
    if !before.entries.contains_key(address) {
        assert(after.entries =~= before.entries);
    }
}

/// A removed member is neither named by the directory nor in the group; nobody
/// else is affected.
pub proof fn removed_members_are_gone(
    before: Membership,
    account: Seq<char>,
    chat_id: Seq<char>,
    address: Seq<char>,
    dir_members: Seq<MemberView>,
    chat_json: bool,
    plan: Seq<ActionView>,
)
    requires
        before.is_listed_by(dir_members),
        group::removing(account, chat_id, address, true, dir_members, chat_json) == Ok::<
            _,
            FailureView,
        >(plan),
    ensures
        before.after_all(chat_id, plan) == (Membership {
            entries: before.entries.remove(address),
            group: before.group.remove(address),
        }),
        !before.after_all(chat_id, plan).entries.contains_key(address),
        !before.after_all(chat_id, plan).group.contains(address),
{
    let change = group::change_members(chat_id, Seq::empty(), seq![address]);
    let named = before.entries.contains_key(address);
    let without_entry = Membership { entries: before.entries.remove(address), ..before };
    if group::names(dir_members, address) {
        let demotion = group::demoting(
            account,
            chat_id,
            address,
            true,
            dir_members,
            chat_json,
        )->Ok_0;
        demoted_members_stay_in_the_group(
            before,
            account,
            chat_id,
            address,
            dir_members,
            chat_json,
            demotion,
        );
        before.lemma_push(chat_id, demotion, change);
    } else {
        assert(!named);
        assert(without_entry.entries =~= before.entries);
        before.lemma_one(chat_id, change);
    }
    assert(seq![address].contains(address)) by {
        assert(seq![address][0] == address);
    }
    assert(before.after_all(chat_id, plan).group =~= before.group.remove(address));
    assert(before.after_all(chat_id, plan).entries =~= before.entries.remove(address));
}

/// A removed member that is added again is back in the same group, with no entry
/// of its own.
pub proof fn removed_members_can_rejoin(
    before: Membership,
    account: Seq<char>,
    chat_id: Seq<char>,
    address: Seq<char>,
    dir_members: Seq<MemberView>,
    chat_json: bool,
    removal: Seq<ActionView>,
    addition: Seq<ActionView>,
)
    requires
        before.is_listed_by(dir_members),
        group::removing(account, chat_id, address, true, dir_members, chat_json) == Ok::<
            _,
            FailureView,
        >(removal),
        group::adding(chat_id, address, true) == Ok::<_, FailureView>(addition),
    ensures
        ({
            let after = before.after_all(chat_id, removal).after_all(chat_id, addition);
            &&& after.group == before.group.insert(address)
            &&& before.group.contains(address) ==> after.group == before.group
            &&& after.entries == before.entries.remove(address)
        }),
{
    let removed = before.after_all(chat_id, removal);
    removed_members_are_gone(
        before,
        account,
        chat_id,
        address,
        dir_members,
        chat_json,
        removal,
    );
    added_members_are_in_the_group(removed, chat_id, address, addition);
    let after = removed.after_all(chat_id, addition);
    assert(after.group =~= before.group.insert(address));
    if before.group.contains(address) {
        assert(after.group =~= before.group);
    }
}

/// A new direct chat is owned by its two members and has nobody else.
pub proof fn direct_chats_are_owned_by_both(
    account: Seq<char>,
    chat_id: Seq<char>,
    name: Option<Seq<char>>,
    address: Seq<char>,
    now: Timestamp,
)
    ensures
        Membership::nobody().after_all(
            chat_id,
            direct::direct_chat_plan(account, chat_id, name, address, now),
        ) == (Membership {
            entries: Map::empty().insert(account, Permission::Owner).insert(
                address,
                Permission::Owner,
            ),
            group: Set::empty(),
        }),
{
    lemma_paths(chat_id, "chat.json"@);
    let plan = direct::direct_chat_plan(account, chat_id, name, address, now);
    let start = Membership::nobody();
    start.lemma_one(chat_id, plan[0]);
    start.lemma_push(chat_id, seq![plan[0]], plan[1]);
    start.lemma_push(chat_id, seq![plan[0], plan[1]], plan[2]);
    start.lemma_push(chat_id, seq![plan[0], plan[1], plan[2]], plan[3]);
    assert(seq![plan[0]].push(plan[1]) =~= seq![plan[0], plan[1]]);
    assert(seq![plan[0], plan[1]].push(plan[2]) =~= seq![plan[0], plan[1], plan[2]]);
    assert(seq![plan[0], plan[1], plan[2]].push(plan[3]) =~= plan);
    let both = seq![account, address];
    assert(both[0] == account && both[1] == address);
    assert(start.after_all(chat_id, plan).entries =~= Map::empty().insert(
        account,
        Permission::Owner,
    ).insert(address, Permission::Owner));
}

/// A new group chat is owned by the account that creates it, and its group may
/// write to it; the directory names nobody else.
pub proof fn group_chats_are_written_by_the_group(
    before: Membership,
    account: Seq<char>,
    chat_id: Seq<char>,
    name: Option<Seq<char>>,
    members: Seq<Seq<char>>,
    group_address: Seq<char>,
    now: Timestamp,
)
    requires
        before.entries == Map::<Seq<char>, Permission>::empty(),
        group_address != account,
    ensures
        before.after_all(
            chat_id,
            group::group_chat_plan(account, chat_id, name, members, group_address, now),
        ) == (Membership {
            entries: Map::empty().insert(account, Permission::Owner).insert(
                group_address,
                Permission::Writer,
            ),
            ..before
        }),
{
    lemma_paths(chat_id, "chat.json"@);
    let plan = group::group_chat_plan(account, chat_id, name, members, group_address, now);
    before.lemma_one(chat_id, plan[0]);
    before.lemma_push(chat_id, seq![plan[0]], plan[1]);
    before.lemma_push(chat_id, seq![plan[0], plan[1]], plan[2]);
    assert(seq![plan[0]].push(plan[1]) =~= seq![plan[0], plan[1]]);
    assert(seq![plan[0], plan[1]].push(plan[2]) =~= plan);
    assert(seq![account][0] == account && seq![group_address][0] == group_address);
    assert(before.after_all(chat_id, plan).entries =~= Map::empty().insert(
        account,
        Permission::Owner,
    ).insert(group_address, Permission::Writer));
}

} // verus!
