use recruit_panels::is_fill;
use recruit_panels::is_updatable;
use recruit_panels::record::WebhookData;
use recruit_panels::roster::{DeleteResponse, JoinResponse, LeaveResponse, RosterEngine};
use recruit_panels::types::{ApServer, Member, Mode};

const CREATOR: u64 = 100;
const PANEL: u64 = 555;

fn engine_with_panel(member: Member) -> RosterEngine {
    let mut engine = RosterEngine::new();
    let data = WebhookData {
        creator: CREATOR,
        server: ApServer::Tokyo,
        mode: Mode::Unrated,
        rank: None,
        member,
        joined: vec![CREATOR],
    };
    engine.publish(PANEL, data);
    engine
}

#[test]
fn join_on_missing_panel_is_expired() {
    let mut engine = RosterEngine::new();
    assert_eq!(engine.join(PANEL, 1), JoinResponse::Expired);
}

#[test]
fn join_admits_and_reports_fill() {
    let mut engine = engine_with_panel(Member::Trio);
    assert_eq!(engine.join(PANEL, 1), JoinResponse::Joined { is_full: false });
    assert_eq!(engine.join(PANEL, 2), JoinResponse::Joined { is_full: true });
    let d = engine.get(PANEL).unwrap();
    assert_eq!(d.joined, vec![CREATOR, 1, 2]);
    assert!(is_fill(d.joined.len(), d.member.as_u8()));
}

#[test]
fn join_is_idempotent_for_the_caller() {
    let mut engine = engine_with_panel(Member::Trio);
    assert_eq!(engine.join(PANEL, 1), JoinResponse::Joined { is_full: false });
    assert_eq!(engine.join(PANEL, 1), JoinResponse::AlreadyJoined);
    let d = engine.get(PANEL).unwrap();
    assert_eq!(d.joined.iter().filter(|&&u| u == 1).count(), 1);
}

#[test]
fn full_panel_admits_nobody_until_a_leave() {
    let mut engine = engine_with_panel(Member::Duo);
    assert_eq!(engine.join(PANEL, 1), JoinResponse::Joined { is_full: true });
    assert_eq!(engine.join(PANEL, 2), JoinResponse::Full);
    assert_eq!(engine.get(PANEL).unwrap().joined, vec![CREATOR, 1]);
    assert_eq!(engine.leave(PANEL, 1), LeaveResponse::Left);
    assert_eq!(engine.join(PANEL, 2), JoinResponse::Joined { is_full: true });
    assert_eq!(engine.get(PANEL).unwrap().joined, vec![CREATOR, 2]);
}

#[test]
fn two_users_race_for_the_last_slot() {
    let mut engine = engine_with_panel(Member::Duo);
    let first = engine.join(PANEL, 201);
    let second = engine.join(PANEL, 202);
    assert_eq!(first, JoinResponse::Joined { is_full: true });
    assert_eq!(second, JoinResponse::Full);
    let d = engine.get(PANEL).unwrap();
    assert_eq!(d.joined.len(), 2);
    assert!(d.joined.len() <= d.member.as_u8() as usize);
}

#[test]
fn creator_cannot_leave() {
    let mut engine = engine_with_panel(Member::Trio);
    engine.join(PANEL, 1);
    assert_eq!(engine.leave(PANEL, CREATOR), LeaveResponse::CreatorLeave);
    assert_eq!(engine.get(PANEL).unwrap().joined, vec![CREATOR, 1]);
}

#[test]
fn leave_outcomes() {
    let mut engine = engine_with_panel(Member::Trio);
    assert_eq!(engine.leave(999, 1), LeaveResponse::Expired);
    assert_eq!(engine.leave(PANEL, 1), LeaveResponse::NotJoined);
    engine.join(PANEL, 1);
    assert_eq!(engine.leave(PANEL, 1), LeaveResponse::Left);
    assert_eq!(engine.get(PANEL).unwrap().joined, vec![CREATOR]);
}

#[test]
fn leave_keeps_join_order_of_the_rest() {
    let mut engine = engine_with_panel(Member::FullParty);
    engine.join(PANEL, 1);
    engine.join(PANEL, 2);
    engine.join(PANEL, 3);
    assert_eq!(engine.leave(PANEL, 2), LeaveResponse::Left);
    assert_eq!(engine.get(PANEL).unwrap().joined, vec![CREATOR, 1, 3]);
}

#[test]
fn only_the_creator_deletes() {
    let mut engine = engine_with_panel(Member::Trio);
    engine.join(PANEL, 1);
    assert_eq!(engine.delete(PANEL, 1), DeleteResponse::NotCreator);
    assert!(engine.get(PANEL).is_some());
    assert_eq!(engine.delete(PANEL, CREATOR), DeleteResponse::Deleted);
    assert!(engine.get(PANEL).is_none());
    assert_eq!(engine.delete(PANEL, CREATOR), DeleteResponse::Expired);
}

#[test]
fn expiry_makes_every_operation_report_expired() {
    let mut engine = engine_with_panel(Member::Trio);
    engine.expire(PANEL);
    assert!(engine.get(PANEL).is_none());
    assert_eq!(engine.join(PANEL, 1), JoinResponse::Expired);
    assert_eq!(engine.leave(PANEL, 1), LeaveResponse::Expired);
    assert_eq!(engine.delete(PANEL, CREATOR), DeleteResponse::Expired);
}

#[test]
fn latest_entry_pointer() {
    let mut engine = RosterEngine::new();
    assert_eq!(engine.latest_entry(), None);
    engine.set_latest_entry(7);
    assert_eq!(engine.latest_entry(), Some(7));
    assert_eq!(engine.take_latest_entry(), Some(7));
    assert_eq!(engine.latest_entry(), None);
    assert_eq!(engine.take_latest_entry(), None);
}

#[test]
fn fill_predicate() {
    assert!(is_fill(2, 2));
    assert!(!is_fill(1, 2));
    assert!(!is_fill(3, 2));
}

#[test]
fn entry_panel_refresh_rule() {
    assert!(is_updatable(false, 0));
    assert!(!is_updatable(true, 3));
    assert!(is_updatable(true, 4));
    assert!(is_updatable(true, 5));
}
