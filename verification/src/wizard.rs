//! The per-user recruitment wizard: an in-memory table of in-flight drafts,
//! a table of each user's outstanding prompt handle, and the coordinator
//! that drives the guided dialog from the first question to the published
//! roster.
//!
//! Both tables are backed by `dashmap`, the concurrent map the surrounding
//! service shares between request handlers; every operation here is one
//! atomic step on it.

use vstd::prelude::*;

use crate::record::{wf_roster, RosterView, WebhookData};
use crate::roster::RosterEngine;
use crate::types::{spec_capacity_allowed, capacity_allowed, ApServer, Member, Mode, Rank};

verus! {

/// How far a draft has progressed through the wizard.
#[derive(Clone, Copy, PartialEq, Eq, Structural, Debug)]
pub enum WizardStage {
    /// Created; the server question is outstanding.
    Idle,
    /// Server answered; the mode question is outstanding.
    ServerChosen,
    /// Mode answered; the rank question (Competitive) or the party-size
    /// question is outstanding.
    ModeChosen,
    /// Rank answered; the party-size question is outstanding.
    RankChosen,
    /// Party size answered; only the free-text message remains.
    CapacityChosen,
}

/// The wizard question a caller answers.
#[derive(Clone, Copy, PartialEq, Eq, Structural, Debug)]
pub enum WizardStep {
    Server,
    Mode,
    Rank,
    Capacity,
}

/// The next question to put to the user.
#[derive(Clone, Copy, PartialEq, Eq, Structural, Debug)]
pub enum WizardPrompt {
    ServerSelect,
    ModeSelect,
    RankSelect,
    CapacitySelect,
    MessageInput,
}

/// Outcome of answering one wizard step.
#[derive(Clone, Copy, PartialEq, Eq, Structural, Debug)]
pub enum AdvanceResponse {
    /// The answer was taken; ask this next.
    Next(WizardPrompt),
    /// No draft exists for the user: it expired or was never started. The
    /// caller renders a "please restart" notice; this is not an error.
    SessionExpired,
    /// The step is not the one outstanding, or the answer lies outside the
    /// step's options; the draft is unchanged and the user may retry.
    InvalidState,
}

/// Outcome of tearing the per-user wizard state down.
#[derive(Clone, Copy, PartialEq, Eq, Structural, Debug)]
pub enum RemoveResponse {
    /// Draft and prompt handle both existed and are gone.
    Removed,
    /// No draft existed; nothing was removed.
    SessionMissing,
    /// The draft was removed, but no prompt handle was recorded.
    PromptMissing,
}

/// Outcome of publishing a finished draft.
#[derive(Clone, Debug, PartialEq)]
pub enum FinalizeResponse {
    /// The roster that was published, and the prompt handle that the caller
    /// should tear down, if one was still recorded.
    Published { data: WebhookData, prompt: Option<u64> },
    /// No draft exists for the user.
    SessionExpired,
    /// The draft has not reached the final step yet.
    InvalidState,
}

/// A user's in-flight draft: the collected answers and the stage reached.
#[derive(Clone, Debug)]
pub struct WizardSession {
    pub stage: WizardStage,
    pub data: WebhookData,
}

/// The mathematical value of a draft.
#[verifier::ext_equal]
pub struct SessionView {
    pub stage: WizardStage,
    pub data: RosterView,
}

impl View for WizardSession {
    type V = SessionView;

    open spec fn view(&self) -> SessionView {
        SessionView { stage: self.stage, data: self.data@ }
    }
}

#[verifier::external_type_specification]
#[verifier::external_body]
#[verifier::reject_recursive_types(K)]
#[verifier::reject_recursive_types(V)]
#[verifier::reject_recursive_types(S)]
pub struct ExDashMap<K, V, S>(dashmap::DashMap<K, V, S>);

/// What the draft table holds, keyed by owner.
pub uninterp spec fn session_map_contents(m: &dashmap::DashMap<u64, WizardSession>) -> Map<
    u64,
    SessionView,
>;

/// What the prompt table holds: each user's outstanding prompt handle.
pub uninterp spec fn prompt_map_contents(m: &dashmap::DashMap<u64, u64>) -> Map<u64, u64>;

/// The table of in-flight drafts, one per user.
pub struct SessionTable {
    pub(crate) inner: dashmap::DashMap<u64, WizardSession>,
}

impl View for SessionTable {
    type V = Map<u64, SessionView>;

    closed spec fn view(&self) -> Map<u64, SessionView> {
        session_map_contents(&self.inner)
    }
}

impl SessionTable {
    /// Relies on dashmap::DashMap::new: the new map holds nothing.
    #[verifier::external_body]
    pub(crate) fn new() -> (r: SessionTable)
        ensures
            forall|k: u64| !session_map_contents(&r.inner).contains_key(k),
    {
        SessionTable { inner: dashmap::DashMap::new() }
    }

    /// Relies on dashmap::DashMap::insert: stores the value under the key,
    /// replacing any previous entry.
    #[verifier::external_body]
    pub(crate) fn put(&mut self, key: u64, value: WizardSession)
        ensures
            session_map_contents(&final(self).inner) == session_map_contents(
                &old(self).inner,
            ).insert(key, value@),
    {
        self.inner.insert(key, value);
    }

    /// Relies on dashmap::DashMap::get: hands back the entry under the key,
    /// if one is present.
    #[verifier::external_body]
    pub(crate) fn get(&self, key: u64) -> (r: Option<WizardSession>)
        ensures
            match r {
                Some(v) => session_map_contents(&self.inner).contains_key(key) && v@
                    == session_map_contents(&self.inner)[key],
                None => !session_map_contents(&self.inner).contains_key(key),
            },
    {
        self.inner.get(&key).map(|v| v.value().clone())
    }

    /// Relies on dashmap::DashMap::remove: takes the entry under the key
    /// out, handing it back if it was present.
    #[verifier::external_body]
    pub(crate) fn remove(&mut self, key: u64) -> (r: Option<WizardSession>)
        ensures
            session_map_contents(&final(self).inner) == session_map_contents(
                &old(self).inner,
            ).remove(key),
            match r {
                Some(v) => session_map_contents(&old(self).inner).contains_key(key) && v@
                    == session_map_contents(&old(self).inner)[key],
                None => !session_map_contents(&old(self).inner).contains_key(key),
            },
    {
        self.inner.remove(&key).map(|kv| kv.1)
    }
}

/// The table of outstanding prompt handles, one per user.
pub struct PromptTable {
    pub(crate) inner: dashmap::DashMap<u64, u64>,
}

impl View for PromptTable {
    type V = Map<u64, u64>;

    closed spec fn view(&self) -> Map<u64, u64> {
        prompt_map_contents(&self.inner)
    }
}

impl PromptTable {
    /// Relies on dashmap::DashMap::new: the new map holds nothing.
    #[verifier::external_body]
    pub(crate) fn new() -> (r: PromptTable)
        ensures
            forall|k: u64| !prompt_map_contents(&r.inner).contains_key(k),
    {
        PromptTable { inner: dashmap::DashMap::new() }
    }

    /// Relies on dashmap::DashMap::insert: stores the handle under the key,
    /// replacing any previous entry.
    #[verifier::external_body]
    pub(crate) fn put(&mut self, key: u64, value: u64)
        ensures
            prompt_map_contents(&final(self).inner) == prompt_map_contents(
                &old(self).inner,
            ).insert(key, value),
    {
        self.inner.insert(key, value);
    }

    /// Relies on dashmap::DashMap::get: hands back the handle under the
    /// key, if one is present.
    #[verifier::external_body]
    pub(crate) fn get(&self, key: u64) -> (r: Option<u64>)
        ensures
            match r {
                Some(v) => prompt_map_contents(&self.inner).contains_key(key) && v
                    == prompt_map_contents(&self.inner)[key],
                None => !prompt_map_contents(&self.inner).contains_key(key),
            },
    {
        self.inner.get(&key).map(|v| *v.value())
    }

    /// Relies on dashmap::DashMap::remove: takes the entry under the key
    /// out, handing it back if it was present.
    #[verifier::external_body]
    pub(crate) fn remove(&mut self, key: u64) -> (r: Option<u64>)
        ensures
            prompt_map_contents(&final(self).inner) == prompt_map_contents(
                &old(self).inner,
            ).remove(key),
            match r {
                Some(v) => prompt_map_contents(&old(self).inner).contains_key(key) && v
                    == prompt_map_contents(&old(self).inner)[key],
                None => !prompt_map_contents(&old(self).inner).contains_key(key),
            },
    {
        self.inner.remove(&key).map(|kv| kv.1)
    }
}

/// A sound draft: the owner is the sole joined member, a rank is recorded
/// exactly once the Competitive rank step has been answered, and an
/// answered party size lies in the mode's menu.
pub open spec fn wf_session(s: SessionView) -> bool {
    &&& s.data.joined == seq![s.data.creator]
    &&& (s.stage is RankChosen ==> s.data.mode == Mode::Competitive)
    &&& (s.data.rank is Some <==> (s.data.mode == Mode::Competitive && (s.stage is RankChosen
        || s.stage is CapacityChosen)))
    &&& (s.stage is CapacityChosen ==> spec_capacity_allowed(s.data.mode, s.data.member))
}

/// The freshly started draft of `owner`: defaults, owner joined, at the
/// first question.
pub open spec fn spec_fresh_session(owner: u64) -> SessionView {
    SessionView {
        stage: WizardStage::Idle,
        data: RosterView {
            creator: owner,
            server: ApServer::Tokyo,
            mode: Mode::Unrated,
            rank: None,
            member: Member::Duo,
            joined: seq![owner],
        },
    }
}

/// The step a draft is waiting on, or `None` once only the free-text
/// message remains.
pub open spec fn spec_expected_step(s: SessionView) -> Option<WizardStep> {
    match s.stage {
        WizardStage::Idle => Some(WizardStep::Server),
        WizardStage::ServerChosen => Some(WizardStep::Mode),
        WizardStage::ModeChosen => if s.data.mode == Mode::Competitive {
            Some(WizardStep::Rank)
        } else {
            Some(WizardStep::Capacity)
        },
        WizardStage::RankChosen => Some(WizardStep::Capacity),
        WizardStage::CapacityChosen => None,
    }
}

/// What answering `step` with `answer` does to the draft `s`: the new draft
/// and the response. A wrong step or an answer outside the step's options
/// leaves the draft unchanged.
pub open spec fn spec_advance(s: SessionView, step: WizardStep, answer: Seq<char>) -> (
    SessionView,
    AdvanceResponse,
) {
    if Some(step) != spec_expected_step(s) {
        (s, AdvanceResponse::InvalidState)
    } else {
        match step {
            WizardStep::Server => match ApServer::spec_of_label(answer) {
                Some(v) => (
                    SessionView {
                        stage: WizardStage::ServerChosen,
                        data: RosterView { server: v, ..s.data },
                    },
                    AdvanceResponse::Next(WizardPrompt::ModeSelect),
                ),
                None => (s, AdvanceResponse::InvalidState),
            },
            WizardStep::Mode => match Mode::spec_of_label(answer) {
                Some(v) => (
                    SessionView {
                        stage: WizardStage::ModeChosen,
                        data: RosterView { mode: v, ..s.data },
                    },
                    AdvanceResponse::Next(
                        if v == Mode::Competitive {
                            WizardPrompt::RankSelect
                        } else {
                            WizardPrompt::CapacitySelect
                        },
                    ),
                ),
                None => (s, AdvanceResponse::InvalidState),
            },
            WizardStep::Rank => match Rank::spec_of_label(answer) {
                Some(v) => (
                    SessionView {
                        stage: WizardStage::RankChosen,
                        data: RosterView { rank: Some(v), ..s.data },
                    },
                    AdvanceResponse::Next(WizardPrompt::CapacitySelect),
                ),
                None => (s, AdvanceResponse::InvalidState),
            },
            WizardStep::Capacity => match Member::spec_of_label(answer) {
                Some(v) => if spec_capacity_allowed(s.data.mode, v) {
                    (
                        SessionView {
                            stage: WizardStage::CapacityChosen,
                            data: RosterView { member: v, ..s.data },
                        },
                        AdvanceResponse::Next(WizardPrompt::MessageInput),
                    )
                } else {
                    (s, AdvanceResponse::InvalidState)
                },
                None => (s, AdvanceResponse::InvalidState),
            },
        }
    }
}

/// Law: a sound draft stays sound under any `advance` step, whatever the
/// answer.
pub proof fn lemma_advance_wf(s: SessionView, step: WizardStep, answer: Seq<char>)
    requires
        wf_session(s),
    ensures
        wf_session(spec_advance(s, step, answer).0),
        spec_advance(s, step, answer).0.data.creator == s.data.creator,
{
}

/// Drives each user's wizard: looks drafts up, applies answers, and turns a
/// finished draft into a published roster.
pub struct SessionCoordinator {
    sessions: SessionTable,
    prompts: PromptTable,
}

impl SessionCoordinator {
    /// The draft of each user.
    pub closed spec fn sessions_view(self) -> Map<u64, SessionView> {
        self.sessions@
    }

    /// The outstanding prompt handle of each user.
    pub closed spec fn prompts_view(self) -> Map<u64, u64> {
        self.prompts@
    }

    /// Every stored draft is sound and filed under its owner.
    pub open spec fn inv(self) -> bool {
        forall|u: u64| self.sessions_view().contains_key(u) ==> wf_session(
            #[trigger] self.sessions_view()[u],
        ) && self.sessions_view()[u].data.creator == u
    }

    /// A coordinator with no drafts and no prompts.
    pub fn new() -> (r: SessionCoordinator)
        ensures
            r.inv(),
            r.sessions_view() == Map::<u64, SessionView>::empty(),
            r.prompts_view() == Map::<u64, u64>::empty(),
    {
        SessionCoordinator { sessions: SessionTable::new(), prompts: PromptTable::new() }
    }

    /// Starts (or silently restarts) the wizard for `owner`: a fresh draft
    /// replaces any existing one, `prompt_handle` replaces any outstanding
    /// prompt, and the first question is returned.
    pub fn start(&mut self, owner: u64, prompt_handle: u64) -> (r: WizardPrompt)
        requires
            old(self).inv(),
        ensures
            final(self).inv(),
            final(self).sessions_view() == old(self).sessions_view().insert(
                owner,
                spec_fresh_session(owner),
            ),
            final(self).prompts_view() == old(self).prompts_view().insert(owner, prompt_handle),
            r == WizardPrompt::ServerSelect,
    {
        self.create(owner);
        self.prompts.put(owner, prompt_handle);
        WizardPrompt::ServerSelect
    }

    /// Files a fresh draft for `id`, replacing any existing one.
    pub fn create(&mut self, id: u64)
        requires
            old(self).inv(),
        ensures
            final(self).inv(),
            final(self).sessions_view() == old(self).sessions_view().insert(
                id,
                spec_fresh_session(id),
            ),
            final(self).prompts_view() == old(self).prompts_view(),
    {
        let data = WebhookData::new(id);
        let session = WizardSession { stage: WizardStage::Idle, data };
        proof {
            assert(session@ =~= spec_fresh_session(id));
        }
        self.sessions.put(id, session);
    }

    /// The draft of `id`, if one is in flight.
    pub fn get_question_state(&self, id: u64) -> (r: Option<WebhookData>)
        ensures
            match r {
                Some(d) => self.sessions_view().contains_key(id) && d@
                    == self.sessions_view()[id].data,
                None => !self.sessions_view().contains_key(id),
            },
    {
        match self.sessions.get(id) {
            Some(s) => Some(s.data),
            None => None,
        }
    }

    /// The outstanding prompt handle of `id`, if one is recorded.
    pub fn get_component(&self, id: u64) -> (r: Option<u64>)
        ensures
            match r {
                Some(h) => self.prompts_view().contains_key(id) && h == self.prompts_view()[id],
                None => !self.prompts_view().contains_key(id),
            },
    {
        self.prompts.get(id)
    }

    /// Tears down the wizard state of `id`, saying loudly what was missing:
    /// an absent draft is reported before anything is removed, an absent
    /// prompt handle after the draft has been removed.
    pub fn remove_temp_data(&mut self, id: u64) -> (r: RemoveResponse)
        requires
            old(self).inv(),
        ensures
            final(self).inv(),
            r == RemoveResponse::SessionMissing ==> !old(self).sessions_view().contains_key(id)
                && final(self).sessions_view() == old(self).sessions_view() && final(self).prompts_view() == old(self).prompts_view(),
            r == RemoveResponse::PromptMissing ==> old(self).sessions_view().contains_key(id)
                && !old(self).prompts_view().contains_key(id) && final(self).sessions_view() == old(self).sessions_view().remove(id) && final(self).prompts_view() == old(self).prompts_view(),
            r == RemoveResponse::Removed ==> old(self).sessions_view().contains_key(id) && old(self).prompts_view().contains_key(id) && final(self).sessions_view() == old(self).sessions_view().remove(id) && final(self).prompts_view() == old(self).prompts_view().remove(id),
    {
        let had_session = match self.sessions.remove(id) {
            Some(_) => true,
            None => false,
        };
        if !had_session {
            proof {
                assert(old(self).sessions_view().remove(id) =~= old(self).sessions_view());
            }
            return RemoveResponse::SessionMissing;
        }
        match self.prompts.remove(id) {
            Some(_) => RemoveResponse::Removed,
            None => {
                proof {
                    assert(old(self).prompts_view().remove(id) =~= old(self).prompts_view());
                }
                RemoveResponse::PromptMissing
            },
        }
    }

    /// Applies one wizard answer for `owner`, as `spec_advance` describes:
    /// reports an absent draft as expired, refuses a wrong step or an
    /// out-of-menu answer, and otherwise stores the updated draft and hands
    /// back the next question.
    pub fn advance(&mut self, owner: u64, step: WizardStep, answer: &str) -> (r: AdvanceResponse)
        requires
            old(self).inv(),
        ensures
            final(self).inv(),
            final(self).prompts_view() == old(self).prompts_view(),
            !old(self).sessions_view().contains_key(owner) ==> r
                == AdvanceResponse::SessionExpired && final(self).sessions_view() == old(self).sessions_view(),
            old(self).sessions_view().contains_key(owner) ==> r == spec_advance(
                old(self).sessions_view()[owner],
                step,
                answer@,
            ).1 && final(self).sessions_view() == old(self).sessions_view().insert(
                owner,
                spec_advance(old(self).sessions_view()[owner], step, answer@).0,
            ),
    {
        let mut session = match self.sessions.get(owner) {
            Some(s) => s,
            None => {
                return AdvanceResponse::SessionExpired;
            },
        };
        let ghost old_view = session@;
        let expected: Option<WizardStep> = match session.stage {
            WizardStage::Idle => Some(WizardStep::Server),
            WizardStage::ServerChosen => Some(WizardStep::Mode),
            WizardStage::ModeChosen => if matches!(session.data.mode, Mode::Competitive) {
                Some(WizardStep::Rank)
            } else {
                Some(WizardStep::Capacity)
            },
            WizardStage::RankChosen => Some(WizardStep::Capacity),
            WizardStage::CapacityChosen => None,
        };
        proof {
            assert(expected == spec_expected_step(old_view));
        }
        let step_matches = match expected {
            Some(e) => e == step,
            None => false,
        };
        if !step_matches {
            proof {
                self.lemma_reinsert_same(owner);
            }
            return AdvanceResponse::InvalidState;
        }
        let r = match step {
            WizardStep::Server => match ApServer::from_str(answer) {
                Some(v) => {
                    session.data.server = v;
                    session.stage = WizardStage::ServerChosen;
                    AdvanceResponse::Next(WizardPrompt::ModeSelect)
                },
                None => AdvanceResponse::InvalidState,
            },
            WizardStep::Mode => match Mode::from_str(answer) {
                Some(v) => {
                    session.data.mode = v;
                    session.stage = WizardStage::ModeChosen;
                    AdvanceResponse::Next(
                        if matches!(v, Mode::Competitive) {
                            WizardPrompt::RankSelect
                        } else {
                            WizardPrompt::CapacitySelect
                        },
                    )
                },
                None => AdvanceResponse::InvalidState,
            },
            WizardStep::Rank => match Rank::from_str(answer) {
                Some(v) => {
                    session.data.rank = Some(v);
                    session.stage = WizardStage::RankChosen;
                    AdvanceResponse::Next(WizardPrompt::CapacitySelect)
                },
                None => AdvanceResponse::InvalidState,
            },
            WizardStep::Capacity => match Member::from_str(answer) {
                Some(v) => if capacity_allowed(session.data.mode, v) {
                    session.data.member = v;
                    session.stage = WizardStage::CapacityChosen;
                    AdvanceResponse::Next(WizardPrompt::MessageInput)
                } else {
                    AdvanceResponse::InvalidState
                },
                None => AdvanceResponse::InvalidState,
            },
        };
        if matches!(r, AdvanceResponse::InvalidState) {
            proof {
                self.lemma_reinsert_same(owner);
            }
            return r;
        }
        proof {
            assert(session@ =~= spec_advance(old_view, step, answer@).0);
            lemma_advance_wf(old_view, step, answer@);
        }
        self.sessions.put(owner, session);
        r
    }

    /// Reinserting a stored draft unchanged leaves the table as it was.
    proof fn lemma_reinsert_same(self, owner: u64)
        requires
            self.sessions_view().contains_key(owner),
        ensures
            self.sessions_view().insert(owner, self.sessions_view()[owner])
                == self.sessions_view(),
    {
        assert(self.sessions_view().insert(owner, self.sessions_view()[owner])
            =~= self.sessions_view());
    }

    /// Publishes the finished draft of `owner` as panel `panel`: the roster
    /// goes into the engine, draft and prompt handle are retired, and the
    /// published roster plus the prompt handle are handed back so the
    /// caller can tear the stale prompt down.
    pub fn finalize(&mut self, engine: &mut RosterEngine, owner: u64, panel: u64) -> (r:
        FinalizeResponse)
        requires
            old(self).inv(),
            old(engine).inv(),
        ensures
            final(self).inv(),
            final(engine).inv(),
            final(engine).spec_latest() == old(engine).spec_latest(),
            !old(self).sessions_view().contains_key(owner) ==> r
                == FinalizeResponse::SessionExpired && final(self).sessions_view() == old(self).sessions_view() && final(self).prompts_view() == old(self).prompts_view() && final(engine)@ == old(engine)@,
            old(self).sessions_view().contains_key(owner) && !(old(self).sessions_view()[owner].stage is CapacityChosen) ==> r
                == FinalizeResponse::InvalidState && final(self).sessions_view() == old(self).sessions_view() && final(self).prompts_view() == old(self).prompts_view() && final(engine)@ == old(engine)@,
            old(self).sessions_view().contains_key(owner) && (old(self).sessions_view()[owner].stage is CapacityChosen) ==> {
                let s = old(self).sessions_view()[owner];
                &&& (r matches FinalizeResponse::Published { data, prompt } && data@ == s.data
                    && prompt == (if old(self).prompts_view().contains_key(owner) {
                        Some(old(self).prompts_view()[owner])
                    } else {
                        None::<u64>
                    }))
                &&& final(engine)@ == old(engine)@.insert(panel, s.data)
                &&& final(self).sessions_view() == old(self).sessions_view().remove(owner)
                &&& final(self).prompts_view() == old(self).prompts_view().remove(owner)
            },
    {
        let session = match self.sessions.get(owner) {
            Some(s) => s,
            None => {
                return FinalizeResponse::SessionExpired;
            },
        };
        if !matches!(session.stage, WizardStage::CapacityChosen) {
            return FinalizeResponse::InvalidState;
        }
        proof {
            let s = old(self).sessions_view()[owner];
            assert(wf_session(s));
            crate::types::lemma_capacity_range(s.data.member);
            assert(s.data.joined == seq![s.data.creator]);
            assert(s.data.joined.len() == 1);
            assert(s.data.joined[0] == s.data.creator);
            assert(wf_roster(s.data));
        }
        let data = session.data;
        engine.publish(panel, data.duplicate());
        self.sessions.remove(owner);
        let prompt = self.prompts.remove(owner);
        FinalizeResponse::Published { data, prompt }
    }
}


/// Law: a full Competitive wizard run — server, mode, rank, party size,
/// each answered with a stored label from that step's menu — ends at the
/// final stage with a draft that holds exactly the accumulated answers.
pub proof fn lemma_wizard_roundtrip_competitive(
    owner: u64,
    server: ApServer,
    rank: Rank,
    member: Member,
)
    requires
        spec_capacity_allowed(Mode::Competitive, member),
    ensures
        ({
            let s0 = spec_fresh_session(owner);
            let (s1, r1) = spec_advance(s0, WizardStep::Server, server.spec_label());
            let (s2, r2) = spec_advance(s1, WizardStep::Mode, Mode::Competitive.spec_label());
            let (s3, r3) = spec_advance(s2, WizardStep::Rank, rank.spec_label());
            let (s4, r4) = spec_advance(s3, WizardStep::Capacity, member.spec_label());
            &&& r1 == AdvanceResponse::Next(WizardPrompt::ModeSelect)
            &&& r2 == AdvanceResponse::Next(WizardPrompt::RankSelect)
            &&& r3 == AdvanceResponse::Next(WizardPrompt::CapacitySelect)
            &&& r4 == AdvanceResponse::Next(WizardPrompt::MessageInput)
            &&& s4.stage is CapacityChosen
            &&& s4.data == (RosterView {
                creator: owner,
                server,
                mode: Mode::Competitive,
                rank: Some(rank),
                member,
                joined: seq![owner],
            })
        }),
{
    crate::types::lemma_ap_server_label(server);
    crate::types::lemma_mode_label(Mode::Competitive);
    crate::types::lemma_rank_label(rank);
    crate::types::lemma_member_label(member);
    let s0 = spec_fresh_session(owner);
    let (s1, r1) = spec_advance(s0, WizardStep::Server, server.spec_label());
    let (s2, r2) = spec_advance(s1, WizardStep::Mode, Mode::Competitive.spec_label());
    let (s3, r3) = spec_advance(s2, WizardStep::Rank, rank.spec_label());
    let (s4, r4) = spec_advance(s3, WizardStep::Capacity, member.spec_label());
    assert(s4.data =~= RosterView {
        creator: owner,
        server,
        mode: Mode::Competitive,
        rank: Some(rank),
        member,
        joined: seq![owner],
    });
}

/// Law: a full Unrated or Custom wizard run skips the rank step — the mode
/// answer leads straight to the party-size question — and ends at the final
/// stage with a draft that holds exactly the accumulated answers and no
/// rank.
pub proof fn lemma_wizard_roundtrip_direct(owner: u64, server: ApServer, mode: Mode, member: Member)
    requires
        mode != Mode::Competitive,
        spec_capacity_allowed(mode, member),
    ensures
        ({
            let s0 = spec_fresh_session(owner);
            let (s1, r1) = spec_advance(s0, WizardStep::Server, server.spec_label());
            let (s2, r2) = spec_advance(s1, WizardStep::Mode, mode.spec_label());
            let (s3, r3) = spec_advance(s2, WizardStep::Capacity, member.spec_label());
            &&& r1 == AdvanceResponse::Next(WizardPrompt::ModeSelect)
            &&& r2 == AdvanceResponse::Next(WizardPrompt::CapacitySelect)
            &&& r3 == AdvanceResponse::Next(WizardPrompt::MessageInput)
            &&& s3.stage is CapacityChosen
            &&& s3.data == (RosterView {
                creator: owner,
                server,
                mode,
                rank: None,
                member,
                joined: seq![owner],
            })
        }),
{
    crate::types::lemma_ap_server_label(server);
    crate::types::lemma_mode_label(mode);
    crate::types::lemma_member_label(member);
    let s0 = spec_fresh_session(owner);
    let (s1, r1) = spec_advance(s0, WizardStep::Server, server.spec_label());
    let (s2, r2) = spec_advance(s1, WizardStep::Mode, mode.spec_label());
    let (s3, r3) = spec_advance(s2, WizardStep::Capacity, member.spec_label());
    assert(s3.data =~= RosterView {
        creator: owner,
        server,
        mode,
        rank: None,
        member,
        joined: seq![owner],
    });
}

} // verus!

