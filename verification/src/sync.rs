//! Syncing, and which shared chats and conversations are accepted on their own.

use vstd::prelude::*;

use crate::convo::{self, convos_root};
use crate::invite::{self, list_invites};
use crate::ordering;
use crate::paths::APPS_MSG;
use crate::text::{self, contains};
use crate::types::{Invite, InviteView, Proposal, ProposalView};

verus! {

/// What became of the pending proposals: the ids of those that were accepted,
/// of those that were left alone, and of those that could not be accepted, with
/// the reason.
pub struct AutoAcceptReport {
    pub accepted: Vec<String>,
    pub skipped: Vec<String>,
    pub failed: Vec<(String, String)>,
}

#[verifier::ext_equal]
pub struct AutoAcceptReportView {
    pub accepted: Seq<Seq<char>>,
    pub skipped: Seq<Seq<char>>,
    pub failed: Seq<(Seq<char>, Seq<char>)>,
}

impl View for AutoAcceptReport {
    type V = AutoAcceptReportView;

    open spec fn view(&self) -> AutoAcceptReportView {
        AutoAcceptReportView {
            accepted: text::texts(self.accepted@),
            skipped: text::texts(self.skipped@),
            failed: self.failed@.map_values(|entry: (String, String)| (entry.0@, entry.1@)),
        }
    }
}

/// `/apps/msg/convos/`.
pub open spec fn convos_marker() -> Seq<char> {
    "/"@ + convo::convos_root_text() + "/"@
}

/// Whether a proposal is for something under `apps/msg/convos/`.
pub open spec fn is_wanted(proposal: ProposalView) -> bool {
    text::occurs(proposal.target, convos_marker())
}

/// Whether a proposal is for something under `apps/msg/convos/`, and is to be
/// accepted.
pub fn is_convo_proposal(proposal: &Proposal) -> (wanted: bool)
    ensures
        wanted == is_wanted(proposal@),
{
    let mut marker = "/".to_owned();
    marker.append(convos_root().as_str());
    marker.append("/");
    contains(proposal.target.as_str(), marker.as_str())
}

/// The report on some proposals, by what came of accepting each that was to be
/// accepted: nothing, or the reason why it failed.
pub open spec fn report_on(
    proposals: Seq<ProposalView>,
    errors: Seq<Option<Seq<char>>>,
) -> AutoAcceptReportView
    decreases proposals.len(),
{
    if proposals.len() == 0 {
        AutoAcceptReportView {
            accepted: Seq::empty(),
            skipped: Seq::empty(),
            failed: Seq::empty(),
        }
    } else {
        let front = report_on(proposals.drop_last(), errors);
        let proposal = proposals.last();
        if !is_wanted(proposal) {
            AutoAcceptReportView { skipped: front.skipped.push(proposal.id), ..front }
        } else {
            match errors[proposals.len() - 1] {
                None => AutoAcceptReportView {
                    accepted: front.accepted.push(proposal.id),
                    ..front
                },
                Some(error) => AutoAcceptReportView {
                    failed: front.failed.push((proposal.id, error)),
                    ..front
                },
            }
        }
    }
}

/// The reasons why proposals could not be accepted.
pub open spec fn reasons(errors: Seq<Option<String>>) -> Seq<Option<Seq<char>>> {
    errors.map_values(|error: Option<String>| text::maybe_text(error))
}

/// Report on the pending proposals, every one of which was accepted whose target
/// path is under `apps/msg/convos/`; `errors` says of each what came of that.
/// Non-matching proposals are left untouched.
pub fn auto_accept_convo_proposals(
    proposals: &Vec<Proposal>,
    errors: &Vec<Option<String>>,
) -> (report: AutoAcceptReport)
    requires
        proposals.len() == errors.len(),
    ensures
        report@ == report_on(ordering::views(proposals@), reasons(errors@)),
{
    let ghost all = ordering::views(proposals@);
    let mut report = AutoAcceptReport {
        accepted: Vec::new(),
        skipped: Vec::new(),
        failed: Vec::new(),
    };
    assert(report@ =~= report_on(all.take(0), reasons(errors@)));
    let mut i: usize = 0;
    while i < proposals.len()
        invariant
            i <= proposals.len(),
            proposals.len() == errors.len(),
            all == ordering::views(proposals@),
            report@ == report_on(all.take(i as int), reasons(errors@)),
        decreases proposals.len() - i,
    {
        let ghost before = report@;
        assert(all.take(i + 1).drop_last() =~= all.take(i as int));
        assert(reasons(errors@)[i as int] == text::maybe_text(errors@[i as int]));
        let id = proposals[i].id.clone();
        if !is_convo_proposal(&proposals[i]) {
            report.skipped.push(id);
            assert(report@.skipped =~= before.skipped.push(id@));
        } else {
            match &errors[i] {
                None => {
                    report.accepted.push(id);
                    assert(report@.accepted =~= before.accepted.push(id@));
                },
                Some(error) => {
                    report.failed.push((id, error.clone()));
                    assert(report@.failed =~= before.failed.push((id@, error@)));
                },
            }
        }
        i += 1;
    }
    assert(all.take(i as int) =~= all);
    report
}

/// Every proposal is reported once: as accepted, as left alone or as failed.
pub proof fn every_proposal_is_reported_once(
    proposals: Seq<ProposalView>,
    errors: Seq<Option<Seq<char>>>,
)
    ensures
        ({
            let report = report_on(proposals, errors);
            report.accepted.len() + report.skipped.len() + report.failed.len() == proposals.len()
        }),
    decreases proposals.len(),
{
    if proposals.len() > 0 {
        every_proposal_is_reported_once(proposals.drop_last(), errors);
    }
}

/// Proposals for anything else than conversations are all left alone.
pub proof fn other_proposals_are_left_alone(
    proposals: Seq<ProposalView>,
    errors: Seq<Option<Seq<char>>>,
)
    requires
        forall|i: int| 0 <= i < proposals.len() ==> !is_wanted(#[trigger] proposals[i]),
    ensures
        report_on(proposals, errors).accepted.len() == 0,
        report_on(proposals, errors).failed.len() == 0,
        report_on(proposals, errors).skipped == proposals.map_values(
            |proposal: ProposalView| proposal.id,
        ),
    decreases proposals.len(),
{
    if proposals.len() > 0 {
        let front = proposals.drop_last();
        assert forall|i: int| 0 <= i < front.len() implies !is_wanted(#[trigger] front[i]) by {
            assert(!is_wanted(proposals[i]));
        }
        assert(!is_wanted(proposals[proposals.len() - 1]));
        other_proposals_are_left_alone(front, errors);
    }
    assert(report_on(proposals, errors).skipped =~= proposals.map_values(
        |proposal: ProposalView| proposal.id,
    ));
}

/// The ids of the proposals for something under `apps/msg/convos/`, as they come.
pub open spec fn wanted_ids(proposals: Seq<ProposalView>) -> Seq<Seq<char>>
    decreases proposals.len(),
{
    if proposals.len() == 0 {
        Seq::empty()
    } else {
        let front = wanted_ids(proposals.drop_last());
        if is_wanted(proposals.last()) {
            front.push(proposals.last().id)
        } else {
            front
        }
    }
}

fn list_wanted_ids(proposals: &Vec<Proposal>) -> (ids: Vec<String>)
    ensures
        text::texts(ids@) == wanted_ids(ordering::views(proposals@)),
{
    let ghost all = ordering::views(proposals@);
    let mut ids: Vec<String> = Vec::new();
    let mut i: usize = 0;
    assert(text::texts(ids@) =~= Seq::<Seq<char>>::empty());
    while i < proposals.len()
        invariant
            i <= proposals.len(),
            all == ordering::views(proposals@),
            text::texts(ids@) == wanted_ids(all.take(i as int)),
        decreases proposals.len() - i,
    {
        assert(all.take(i + 1).drop_last() =~= all.take(i as int));
        if is_convo_proposal(&proposals[i]) {
            let ghost before = ids@;
            ids.push(proposals[i].id.clone());
            assert(text::texts(ids@) =~= text::texts(before).push(proposals@[i as int].id@));
        }
        i += 1;
    }
    assert(all.take(i as int) =~= all);
    ids
}

/// What is accepted once synced.
#[derive(Clone, Copy, PartialEq, Eq, Structural, Debug)]
pub enum Shares {
    /// The chats that are shared with the account.
    Chats,
    /// The conversations that are shared with the account.
    Convos,
}

/// How far a sync has come.
pub enum SyncProgress {
    Begun,
    DirCreated,
    Synced,
    /// These proposals are pending.
    Listed(Vec<Proposal>),
}

#[verifier::ext_equal]
pub enum SyncProgressView {
    Begun,
    DirCreated,
    Synced,
    Listed(Seq<ProposalView>),
}

impl View for SyncProgress {
    type V = SyncProgressView;

    open spec fn view(&self) -> SyncProgressView {
        match *self {
            SyncProgress::Begun => SyncProgressView::Begun,
            SyncProgress::DirCreated => SyncProgressView::DirCreated,
            SyncProgress::Synced => SyncProgressView::Synced,
            SyncProgress::Listed(proposals) => SyncProgressView::Listed(
                ordering::views(proposals@),
            ),
        }
    }
}

/// What is to be done next for a sync.
pub enum SyncStep {
    CreateDir { path: String },
    /// Bring a directory up to date with the account's server.
    Sync { path: String },
    ListProposals,
    /// Accept these invites, which is the last step.
    AcceptInvites(Vec<Invite>),
    /// Accept the proposals with these ids, which is the last step.
    AcceptProposals(Vec<String>),
}

#[verifier::ext_equal]
pub enum SyncStepView {
    CreateDir { path: Seq<char> },
    Sync { path: Seq<char> },
    ListProposals,
    AcceptInvites(Seq<InviteView>),
    AcceptProposals(Seq<Seq<char>>),
}

impl View for SyncStep {
    type V = SyncStepView;

    open spec fn view(&self) -> SyncStepView {
        match *self {
            SyncStep::CreateDir { path } => SyncStepView::CreateDir { path: path@ },
            SyncStep::Sync { path } => SyncStepView::Sync { path: path@ },
            SyncStep::ListProposals => SyncStepView::ListProposals,
            SyncStep::AcceptInvites(invites) => SyncStepView::AcceptInvites(
                ordering::views(invites@),
            ),
            SyncStep::AcceptProposals(ids) => SyncStepView::AcceptProposals(text::texts(ids@)),
        }
    }
}

/// What comes next in a sync: the `apps/msg/` subtree is there and up to date
/// before anything is accepted.
pub open spec fn step_after(shares: Shares, progress: SyncProgressView) -> SyncStepView {
    match progress {
        SyncProgressView::Begun => SyncStepView::CreateDir { path: APPS_MSG@ },
        SyncProgressView::DirCreated => SyncStepView::Sync { path: APPS_MSG@ },
        SyncProgressView::Synced => SyncStepView::ListProposals,
        SyncProgressView::Listed(proposals) => match shares {
            Shares::Chats => SyncStepView::AcceptInvites(invite::invites_of(proposals)),
            Shares::Convos => SyncStepView::AcceptProposals(wanted_ids(proposals)),
        },
    }
}

/// Sync the `apps/msg/` subtree with the current account's server (which
/// federates from co-members), then auto-accept the share proposals for chats or
/// for conversations, so that a new one lands automatically. This is the next
/// step of that.
pub fn next_sync_step(shares: Shares, progress: &SyncProgress) -> (step: SyncStep)
    ensures
        step@ == step_after(shares, progress@),
{
    match progress {
        SyncProgress::Begun => SyncStep::CreateDir { path: APPS_MSG.to_owned() },
        SyncProgress::DirCreated => SyncStep::Sync { path: APPS_MSG.to_owned() },
        SyncProgress::Synced => SyncStep::ListProposals,
        SyncProgress::Listed(proposals) => match shares {
            Shares::Chats => SyncStep::AcceptInvites(list_invites(proposals)),
            Shares::Convos => SyncStep::AcceptProposals(list_wanted_ids(proposals)),
        },
    }
}

/// How far a sync has come after a step, where `pending` are the proposals that
/// are listed then; `None` after the last one.
pub open spec fn progress_after(
    step: SyncStepView,
    pending: Seq<ProposalView>,
) -> Option<SyncProgressView> {
    match step {
        SyncStepView::CreateDir { .. } => Some(SyncProgressView::DirCreated),
        SyncStepView::Sync { .. } => Some(SyncProgressView::Synced),
        SyncStepView::ListProposals => Some(SyncProgressView::Listed(pending)),
        _ => None,
    }
}

/// The steps of a sync from some point on, but no more than `limit`.
pub open spec fn steps_from(
    shares: Shares,
    progress: SyncProgressView,
    pending: Seq<ProposalView>,
    limit: nat,
) -> Seq<SyncStepView>
    decreases limit,
{
    if limit == 0 {
        Seq::empty()
    } else {
        let step = step_after(shares, progress);
        match progress_after(step, pending) {
            Some(next) => seq![step] + steps_from(shares, next, pending, (limit - 1) as nat),
            None => seq![step],
        }
    }
}

/// A sync has four steps, and accepts what is shared after it has brought
/// everything up to date.
pub proof fn shares_are_accepted_once_synced(
    shares: Shares,
    pending: Seq<ProposalView>,
    limit: nat,
)
    requires
        limit >= 4,
    ensures
        steps_from(shares, SyncProgressView::Begun, pending, limit) == seq![
            SyncStepView::CreateDir { path: APPS_MSG@ },
            SyncStepView::Sync { path: APPS_MSG@ },
            SyncStepView::ListProposals,
            step_after(shares, SyncProgressView::Listed(pending)),
        ],
{
    reveal_with_fuel(steps_from, 5);
    assert(steps_from(shares, SyncProgressView::Begun, pending, limit) =~= seq![
        SyncStepView::CreateDir { path: APPS_MSG@ },
        SyncStepView::Sync { path: APPS_MSG@ },
        SyncStepView::ListProposals,
        step_after(shares, SyncProgressView::Listed(pending)),
    ]);
}

/// Where nothing fails, the report names as accepted what a sync accepts.
pub proof fn accepted_proposals_are_reported(
    proposals: Seq<ProposalView>,
    errors: Seq<Option<Seq<char>>>,
)
    requires
        errors.len() == proposals.len(),
        forall|i: int| 0 <= i < errors.len() ==> (#[trigger] errors[i]) is None,
    ensures
        report_on(proposals, errors).accepted == wanted_ids(proposals),
        report_on(proposals, errors).failed.len() == 0,
{
    lemma_accepted(proposals, errors);
}

proof fn lemma_accepted(proposals: Seq<ProposalView>, errors: Seq<Option<Seq<char>>>)
    requires
        errors.len() >= proposals.len(),
        forall|i: int| 0 <= i < errors.len() ==> (#[trigger] errors[i]) is None,
    ensures
        report_on(proposals, errors).accepted == wanted_ids(proposals),
        report_on(proposals, errors).failed.len() == 0,
    decreases proposals.len(),
{
    if proposals.len() > 0 {
        lemma_accepted(proposals.drop_last(), errors);
    }
}

/// Only what is under `/apps/msg/convos/` is accepted on its own.
pub proof fn wanted_proposals_are_for_conversations(proposal: ProposalView)
    ensures
        is_wanted(proposal) <==> text::occurs(proposal.target, "/apps/msg/convos/"@),
{
    reveal_strlit("/");
    reveal_strlit("apps/msg");
    reveal_strlit("/convos");
    reveal_strlit("/apps/msg/convos/");
    assert(convos_marker() =~= "/apps/msg/convos/"@);
}

/// Each proposal is accepted on its own, in the order in which they come.
pub proof fn each_wanted_proposal_is_accepted(
    a: Seq<ProposalView>,
    b: Seq<ProposalView>,
    proposal: ProposalView,
)
    ensures
        wanted_ids(Seq::empty()) == Seq::<Seq<char>>::empty(),
        wanted_ids(a + b) == wanted_ids(a) + wanted_ids(b),
        wanted_ids(seq![proposal]) == (if text::occurs(proposal.target, "/apps/msg/convos/"@) {
            seq![proposal.id]
        } else {
            Seq::empty()
        }),
    decreases b.len(),
{
    wanted_proposals_are_for_conversations(proposal);
    reveal_with_fuel(wanted_ids, 2);
    assert(seq![proposal].drop_last() =~= Seq::<ProposalView>::empty());
    if b.len() == 0 {
        assert(a + b =~= a);
        assert(wanted_ids(a) + wanted_ids(b) =~= wanted_ids(a));
    } else {
        each_wanted_proposal_is_accepted(a, b.drop_last(), proposal);
        assert((a + b).drop_last() =~= a + b.drop_last());
        assert(wanted_ids(a + b) =~= wanted_ids(a) + wanted_ids(b));
    }
}

/// One more proposal adds its id to one part of the report and leaves the rest: to
/// what was left alone where it is for no conversation, else to what was accepted
/// or, with the reason, to what failed.
pub proof fn each_proposal_is_reported_as_it_went(
    proposals: Seq<ProposalView>,
    proposal: ProposalView,
    errors: Seq<Option<Seq<char>>>,
)
    requires
        errors.len() > proposals.len(),
    ensures
        ({
            let before = report_on(proposals, errors);
            let after = report_on(proposals.push(proposal), errors);
            let wanted = text::occurs(proposal.target, "/apps/msg/convos/"@);
            let error = errors[proposals.len() as int];
            &&& after.skipped == (if wanted {
                before.skipped
            } else {
                before.skipped.push(proposal.id)
            })
            &&& after.accepted == (if wanted && error is None {
                before.accepted.push(proposal.id)
            } else {
                before.accepted
            })
            &&& after.failed == (if wanted && error is Some {
                before.failed.push((proposal.id, error->Some_0))
            } else {
                before.failed
            })
        }),
        report_on(Seq::empty(), errors).accepted.len() == 0,
        report_on(Seq::empty(), errors).skipped.len() == 0,
        report_on(Seq::empty(), errors).failed.len() == 0,
{
    wanted_proposals_are_for_conversations(proposal);
    assert(proposals.push(proposal).drop_last() =~= proposals);
}

/// Everything that is shared is accepted: every invite there is, or every proposal
/// for a conversation.
pub proof fn all_that_is_shared_is_accepted(pending: Seq<ProposalView>)
    ensures
        step_after(Shares::Chats, SyncProgressView::Listed(pending))
            == SyncStepView::AcceptInvites(invite::invites_of(pending)),
        step_after(Shares::Convos, SyncProgressView::Listed(pending))
            == SyncStepView::AcceptProposals(wanted_ids(pending)),
{
}

} // verus!
