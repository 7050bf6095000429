use recruit_panels::record::WebhookData;
use recruit_panels::roster::RosterEngine;
use recruit_panels::types::{capacity_options, ApServer, Member, Mode, Rank};
use recruit_panels::wizard::{
    AdvanceResponse, FinalizeResponse, RemoveResponse, SessionCoordinator, WizardPrompt,
    WizardStep,
};

const OWNER: u64 = 1;
const HANDLE: u64 = 9000;
const PANEL: u64 = 777;

#[test]
fn start_returns_the_server_question() {
    let mut c = SessionCoordinator::new();
    assert_eq!(c.start(OWNER, HANDLE), WizardPrompt::ServerSelect);
    assert_eq!(c.get_component(OWNER), Some(HANDLE));
    let draft = c.get_question_state(OWNER).unwrap();
    assert_eq!(draft, WebhookData::new(OWNER));
}

#[test]
fn competitive_flow_presents_rank_then_restricted_capacities() {
    let mut c = SessionCoordinator::new();
    c.start(OWNER, HANDLE);
    assert_eq!(
        c.advance(OWNER, WizardStep::Server, "Tokyo"),
        AdvanceResponse::Next(WizardPrompt::ModeSelect)
    );
    assert_eq!(
        c.advance(OWNER, WizardStep::Mode, "Competitive"),
        AdvanceResponse::Next(WizardPrompt::RankSelect)
    );
    assert_eq!(
        c.advance(OWNER, WizardStep::Rank, "Gold"),
        AdvanceResponse::Next(WizardPrompt::CapacitySelect)
    );
    let menu: Vec<&str> =
        capacity_options(Mode::Competitive).iter().map(|m| m.as_str()).collect();
    assert_eq!(menu, vec!["Duo", "Trio", "FullParty"]);
    assert_eq!(
        c.advance(OWNER, WizardStep::Capacity, "Trio"),
        AdvanceResponse::Next(WizardPrompt::MessageInput)
    );
    let mut engine = RosterEngine::new();
    match c.finalize(&mut engine, OWNER, PANEL) {
        FinalizeResponse::Published { data, prompt } => {
            assert_eq!(prompt, Some(HANDLE));
            assert_eq!(data.creator, OWNER);
            assert_eq!(data.server, ApServer::Tokyo);
            assert_eq!(data.mode, Mode::Competitive);
            assert_eq!(data.rank, Some(Rank::Gold));
            assert_eq!(data.member, Member::Trio);
            assert_eq!(data.member.as_u8(), 3);
            assert_eq!(data.joined, vec![OWNER]);
        },
        other => panic!("expected a published roster, got {:?}", other),
    }
}

#[test]
fn wizard_round_trip_publishes_and_clears_state() {
    let mut c = SessionCoordinator::new();
    let mut engine = RosterEngine::new();
    c.start(OWNER, HANDLE);
    c.advance(OWNER, WizardStep::Server, "Mumbai");
    c.advance(OWNER, WizardStep::Mode, "Custom");
    assert_eq!(
        c.advance(OWNER, WizardStep::Capacity, "Nine"),
        AdvanceResponse::Next(WizardPrompt::MessageInput)
    );
    match c.finalize(&mut engine, OWNER, PANEL) {
        FinalizeResponse::Published { data, prompt } => {
            assert_eq!(prompt, Some(HANDLE));
            assert_eq!(data.server, ApServer::Mumbai);
            assert_eq!(data.mode, Mode::Custom);
            assert_eq!(data.rank, None);
            assert_eq!(data.member, Member::Nine);
            assert_eq!(data.joined, vec![OWNER]);
        },
        other => panic!("expected a published roster, got {:?}", other),
    }
    assert_eq!(c.get_question_state(OWNER), None);
    assert_eq!(c.get_component(OWNER), None);
    let published = engine.get(PANEL).unwrap();
    assert_eq!(published.mode, Mode::Custom);
    assert_eq!(published.joined, vec![OWNER]);
}

#[test]
fn advance_without_a_session_is_expired() {
    let mut c = SessionCoordinator::new();
    assert_eq!(c.advance(OWNER, WizardStep::Server, "Tokyo"), AdvanceResponse::SessionExpired);
}

#[test]
fn advance_refuses_the_wrong_step() {
    let mut c = SessionCoordinator::new();
    c.start(OWNER, HANDLE);
    assert_eq!(c.advance(OWNER, WizardStep::Mode, "Unrated"), AdvanceResponse::InvalidState);
    assert_eq!(
        c.advance(OWNER, WizardStep::Server, "Tokyo"),
        AdvanceResponse::Next(WizardPrompt::ModeSelect)
    );
    assert_eq!(c.advance(OWNER, WizardStep::Server, "Tokyo"), AdvanceResponse::InvalidState);
}

#[test]
fn advance_refuses_answers_outside_the_menu() {
    let mut c = SessionCoordinator::new();
    c.start(OWNER, HANDLE);
    assert_eq!(c.advance(OWNER, WizardStep::Server, "Mars"), AdvanceResponse::InvalidState);
    c.advance(OWNER, WizardStep::Server, "Tokyo");
    c.advance(OWNER, WizardStep::Mode, "Competitive");
    c.advance(OWNER, WizardStep::Rank, "Gold");
    assert_eq!(c.advance(OWNER, WizardStep::Capacity, "Quad"), AdvanceResponse::InvalidState);
    assert_eq!(
        c.advance(OWNER, WizardStep::Capacity, "FullParty"),
        AdvanceResponse::Next(WizardPrompt::MessageInput)
    );
}

#[test]
fn rank_step_only_exists_under_competitive() {
    let mut c = SessionCoordinator::new();
    c.start(OWNER, HANDLE);
    c.advance(OWNER, WizardStep::Server, "Sydney");
    assert_eq!(
        c.advance(OWNER, WizardStep::Mode, "Unrated"),
        AdvanceResponse::Next(WizardPrompt::CapacitySelect)
    );
    assert_eq!(c.advance(OWNER, WizardStep::Rank, "Gold"), AdvanceResponse::InvalidState);
}

#[test]
fn a_new_wizard_always_wins() {
    let mut c = SessionCoordinator::new();
    c.start(OWNER, HANDLE);
    c.advance(OWNER, WizardStep::Server, "Mumbai");
    c.start(OWNER, HANDLE + 1);
    let draft = c.get_question_state(OWNER).unwrap();
    assert_eq!(draft.server, ApServer::Tokyo);
    assert_eq!(c.get_component(OWNER), Some(HANDLE + 1));
    assert_eq!(
        c.advance(OWNER, WizardStep::Server, "Singapore"),
        AdvanceResponse::Next(WizardPrompt::ModeSelect)
    );
}

#[test]
fn finalize_needs_a_finished_draft() {
    let mut c = SessionCoordinator::new();
    let mut engine = RosterEngine::new();
    assert_eq!(c.finalize(&mut engine, OWNER, PANEL), FinalizeResponse::SessionExpired);
    c.start(OWNER, HANDLE);
    assert_eq!(c.finalize(&mut engine, OWNER, PANEL), FinalizeResponse::InvalidState);
    assert!(engine.get(PANEL).is_none());
}

#[test]
fn remove_temp_data_reports_what_was_missing() {
    let mut c = SessionCoordinator::new();
    assert_eq!(c.remove_temp_data(OWNER), RemoveResponse::SessionMissing);
    c.start(OWNER, HANDLE);
    assert_eq!(c.remove_temp_data(OWNER), RemoveResponse::Removed);
    assert_eq!(c.get_question_state(OWNER), None);
    assert_eq!(c.get_component(OWNER), None);
    c.create(OWNER);
    assert_eq!(c.remove_temp_data(OWNER), RemoveResponse::PromptMissing);
}

#[test]
fn drafts_are_kept_per_user() {
    let mut c = SessionCoordinator::new();
    c.start(1, 10);
    c.start(2, 20);
    c.advance(1, WizardStep::Server, "Tokyo");
    c.advance(2, WizardStep::Server, "Mumbai");
    assert_eq!(c.get_question_state(1).unwrap().server, ApServer::Tokyo);
    assert_eq!(c.get_question_state(2).unwrap().server, ApServer::Mumbai);
    assert_eq!(c.get_component(1), Some(10));
    assert_eq!(c.get_component(2), Some(20));
}
