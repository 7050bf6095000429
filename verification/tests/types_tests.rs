use recruit_panels::types::{
    capacity_allowed, capacity_options, get_colour, get_thumbnail, ApServer, Member, Mode, Rank,
    WebhookDataExt, BASE_COLOR, GOLD_COLOR, IRON_COLOR, RADIANT_COLOR,
};

#[test]
fn ap_server_variants_and_labels() {
    let v = ApServer::variants();
    assert_eq!(v.len(), 5);
    let labels: Vec<&str> = v.iter().map(|s| s.as_str()).collect();
    assert_eq!(labels, vec!["Tokyo", "HongKong", "Singapore", "Sydney", "Mumbai"]);
}

#[test]
fn mode_variants_and_labels() {
    let v = Mode::variants();
    let labels: Vec<&str> = v.iter().map(|s| s.as_str()).collect();
    assert_eq!(labels, vec!["Unrated", "Competitive", "Custom"]);
}

#[test]
fn rank_variants_and_labels() {
    let v = Rank::variants();
    assert_eq!(v.len(), 10);
    assert_eq!(v[0].as_str(), "Unranked");
    assert_eq!(v[9].as_str(), "Radiant");
}

#[test]
fn member_variants_and_capacities() {
    let v = Member::variants();
    let caps: Vec<u8> = v.iter().map(|m| m.as_u8()).collect();
    assert_eq!(caps, vec![2, 3, 4, 5, 6, 7, 8, 9, 10]);
    assert_eq!(v[0].as_str(), "Duo");
    assert_eq!(v[3].as_str(), "FullParty");
}

#[test]
fn from_str_round_trips() {
    for s in ApServer::variants() {
        assert_eq!(ApServer::from_str(s.as_str()), Some(s));
    }
    for m in Mode::variants() {
        assert_eq!(Mode::from_str(m.as_str()), Some(m));
    }
    for r in Rank::variants() {
        assert_eq!(Rank::from_str(r.as_str()), Some(r));
    }
    for m in Member::variants() {
        assert_eq!(Member::from_str(m.as_str()), Some(m));
    }
}

#[test]
fn from_str_rejects_unknown_labels() {
    assert_eq!(ApServer::from_str("Osaka"), None);
    assert_eq!(Mode::from_str("Ranked"), None);
    assert_eq!(Rank::from_str("gold"), None);
    assert_eq!(Member::from_str("Solo"), None);
    assert_eq!(Mode::from_str(""), None);
}

#[test]
fn trait_surface_matches_inherent() {
    let v: Vec<Mode> = <Mode as WebhookDataExt>::variants();
    assert_eq!(v.len(), 3);
    assert_eq!(WebhookDataExt::as_str(&Rank::Gold), "Gold");
}

#[test]
fn rank_colors() {
    assert_eq!(Rank::Radiant.to_color(), RADIANT_COLOR);
    assert_eq!(Rank::Gold.to_color(), GOLD_COLOR);
    assert_eq!(Rank::Iron.to_color(), IRON_COLOR);
    assert_eq!(Rank::Unranked.to_color(), BASE_COLOR);
}

#[test]
fn get_colour_by_label() {
    assert_eq!(get_colour("Gold"), Some(GOLD_COLOR));
    assert_eq!(get_colour("Unranked"), None);
    assert_eq!(get_colour("nonsense"), None);
}

#[test]
fn thumbnail_files() {
    assert_eq!(get_thumbnail(Some(Rank::Radiant)), "radiant.png");
    assert_eq!(get_thumbnail(Some(Rank::Iron)), "iron.png");
    assert_eq!(get_thumbnail(Some(Rank::Unranked)), "unrated.png");
    assert_eq!(get_thumbnail(None), "unrated.png");
}

#[test]
fn mention_string_for_role() {
    assert_eq!(Mode::Unrated.to_mention_str("123456"), "<@&123456>");
    assert_eq!(Mode::Competitive.to_mention_str(""), "<@&>");
}

#[test]
fn capacity_menu_per_mode() {
    let unrated: Vec<&str> = capacity_options(Mode::Unrated).iter().map(|m| m.as_str()).collect();
    assert_eq!(unrated, vec!["Duo", "Trio", "Quad", "FullParty"]);
    let comp: Vec<&str> =
        capacity_options(Mode::Competitive).iter().map(|m| m.as_str()).collect();
    assert_eq!(comp, vec!["Duo", "Trio", "FullParty"]);
    let custom: Vec<&str> = capacity_options(Mode::Custom).iter().map(|m| m.as_str()).collect();
    assert_eq!(
        custom,
        vec!["Duo", "Trio", "Quad", "FullParty", "Six", "Seven", "Eight", "Nine", "Ten"]
    );
}

#[test]
fn capacity_rules() {
    assert!(!capacity_allowed(Mode::Competitive, Member::Quad));
    assert!(capacity_allowed(Mode::Unrated, Member::Quad));
    assert!(!capacity_allowed(Mode::Unrated, Member::Six));
    assert!(capacity_allowed(Mode::Custom, Member::Ten));
    assert!(capacity_allowed(Mode::Competitive, Member::FullParty));
}

#[test]
fn mention_keys_per_mode() {
    assert_eq!(Mode::Unrated.mention_key(), "UNRATED_MENTION_ID");
    assert_eq!(Mode::Competitive.mention_key(), "COMPETITIVE_MENTION_ID");
    assert_eq!(Mode::Custom.mention_key(), "CUSTOM_MENTION_ID");
}
