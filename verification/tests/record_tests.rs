use recruit_panels::record::{decode_record, encode_record, WebhookData};
use recruit_panels::types::{ApServer, Member, Mode, Rank};

fn sample() -> WebhookData {
    WebhookData {
        creator: 42,
        server: ApServer::Sydney,
        mode: Mode::Competitive,
        rank: Some(Rank::Gold),
        member: Member::Trio,
        joined: vec![42, 7],
    }
}

#[test]
fn encode_produces_the_six_fields() {
    let pairs = encode_record(&sample());
    let as_strs: Vec<(&str, &str)> =
        pairs.iter().map(|(k, v)| (k.as_str(), v.as_str())).collect();
    assert_eq!(
        as_strs,
        vec![
            ("creator", "42"),
            ("server", "Sydney"),
            ("mode", "Competitive"),
            ("rank", "Gold"),
            ("member", "Trio"),
            ("joined", "42,7"),
        ]
    );
}

#[test]
fn encode_uses_none_sentinel_for_missing_rank() {
    let d = WebhookData { rank: None, mode: Mode::Unrated, ..sample() };
    let pairs = encode_record(&d);
    assert_eq!(pairs[3].0, "rank");
    assert_eq!(pairs[3].1, "None");
}

#[test]
fn record_round_trip() {
    let d = sample();
    assert_eq!(decode_record(&encode_record(&d)), Some(d));
}

#[test]
fn record_round_trip_without_rank() {
    let d = WebhookData { rank: None, mode: Mode::Custom, member: Member::Nine, ..sample() };
    assert_eq!(decode_record(&encode_record(&d)), Some(d));
}

#[test]
fn decode_is_order_independent() {
    let mut pairs = encode_record(&sample());
    pairs.reverse();
    assert_eq!(decode_record(&pairs), Some(sample()));
}

#[test]
fn decode_takes_the_first_occurrence_of_a_field() {
    let mut pairs = encode_record(&sample());
    pairs.push(("creator".to_string(), "7".to_string()));
    let d = decode_record(&pairs).unwrap();
    assert_eq!(d.creator, 42);
}

#[test]
fn decode_rejects_missing_fields() {
    let mut pairs = encode_record(&sample());
    pairs.remove(2);
    assert_eq!(decode_record(&pairs), None);
    assert_eq!(decode_record(&Vec::new()), None);
}

#[test]
fn decode_rejects_bad_values() {
    let base = encode_record(&sample());

    let mut bad_creator = base.clone();
    bad_creator[0].1 = "abc".to_string();
    assert_eq!(decode_record(&bad_creator), None);

    let mut bad_server = base.clone();
    bad_server[1].1 = "Atlantis".to_string();
    assert_eq!(decode_record(&bad_server), None);

    let mut bad_rank = base.clone();
    bad_rank[3].1 = "Wood".to_string();
    assert_eq!(decode_record(&bad_rank), None);

    let mut bad_joined = base.clone();
    bad_joined[5].1 = "1,,2".to_string();
    assert_eq!(decode_record(&bad_joined), None);

    let mut empty_joined = base.clone();
    empty_joined[5].1 = String::new();
    assert_eq!(decode_record(&empty_joined), None);
}

#[test]
fn fresh_draft_defaults() {
    let d = WebhookData::new(9);
    assert_eq!(d.creator, 9);
    assert_eq!(d.server, ApServer::Tokyo);
    assert_eq!(d.mode, Mode::Unrated);
    assert_eq!(d.rank, None);
    assert_eq!(d.member, Member::Duo);
    assert_eq!(d.joined, vec![9]);
}

#[test]
fn roster_ttl_is_three_days() {
    assert_eq!(recruit_panels::record::THREE_DAYS_SECONDS, 259_200);
}
