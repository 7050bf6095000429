//! The closed option sets a recruitment offers: game server, mode, rank and
//! party size, with their stored labels, the mode-dependent capacity rules,
//! and the display attributes (embed colors, thumbnail file names) derived
//! from them.

use vstd::prelude::*;

use crate::text::str_eq;

verus! {

/// Game server a recruitment is hosted on.
#[derive(Clone, Copy, PartialEq, Eq, Structural, Debug)]
pub enum ApServer {
    Tokyo,
    HongKong,
    Singapore,
    Sydney,
    Mumbai,
}

/// Game mode of the recruitment.
#[derive(Clone, Copy, PartialEq, Eq, Structural, Debug)]
pub enum Mode {
    Unrated,
    Competitive,
    Custom,
}

/// Competitive rank bracket a recruitment targets.
#[derive(Clone, Copy, PartialEq, Eq, Structural, Debug)]
pub enum Rank {
    Unranked,
    Iron,
    Bronze,
    Silver,
    Gold,
    Platinum,
    Diamond,
    Ascendant,
    Immortal,
    Radiant,
}

/// Party size of a recruitment, between two and ten players.
#[derive(Clone, Copy, PartialEq, Eq, Structural, Debug)]
pub enum Member {
    Duo,
    Trio,
    Quad,
    FullParty,
    Six,
    Seven,
    Eight,
    Nine,
    Ten,
}

/// Common surface of the option enums: every variant, and the stored label.
pub trait WebhookDataExt: Sized {
    fn variants() -> Vec<Self>;

    fn as_str(&self) -> &'static str;
}

impl ApServer {
    /// The stored label of each server.
    pub open spec fn spec_label(self) -> Seq<char> {
        match self {
            ApServer::Tokyo => "Tokyo"@,
            ApServer::HongKong => "HongKong"@,
            ApServer::Singapore => "Singapore"@,
            ApServer::Sydney => "Sydney"@,
            ApServer::Mumbai => "Mumbai"@,
        }
    }

    /// The server whose stored label is `s`, if any.
    pub open spec fn spec_of_label(s: Seq<char>) -> Option<ApServer> {
        if s == "Tokyo"@ {
            Some(ApServer::Tokyo)
        } else if s == "HongKong"@ {
            Some(ApServer::HongKong)
        } else if s == "Singapore"@ {
            Some(ApServer::Singapore)
        } else if s == "Sydney"@ {
            Some(ApServer::Sydney)
        } else if s == "Mumbai"@ {
            Some(ApServer::Mumbai)
        } else {
            None
        }
    }

    /// All servers, in display order.
    pub fn variants() -> (r: Vec<ApServer>)
        ensures
            r@ == seq![
                ApServer::Tokyo,
                ApServer::HongKong,
                ApServer::Singapore,
                ApServer::Sydney,
                ApServer::Mumbai,
            ],
    {
        let mut v: Vec<ApServer> = Vec::new();
        v.push(ApServer::Tokyo);
        v.push(ApServer::HongKong);
        v.push(ApServer::Singapore);
        v.push(ApServer::Sydney);
        v.push(ApServer::Mumbai);
        proof {
            assert(v@ =~= seq![
                ApServer::Tokyo,
                ApServer::HongKong,
                ApServer::Singapore,
                ApServer::Sydney,
                ApServer::Mumbai,
            ]);
        }
        v
    }

    /// The stored label of the server.
    pub fn as_str(&self) -> (r: &'static str)
        ensures
            r@ == self.spec_label(),
    {
        match self {
            ApServer::Tokyo => "Tokyo",
            ApServer::HongKong => "HongKong",
            ApServer::Singapore => "Singapore",
            ApServer::Sydney => "Sydney",
            ApServer::Mumbai => "Mumbai",
        }
    }

    /// Reads a stored label back into a server.
    pub fn from_str(s: &str) -> (r: Option<ApServer>)
        ensures
            r == ApServer::spec_of_label(s@),
    {
        if str_eq(s, "Tokyo") {
            Some(ApServer::Tokyo)
        } else if str_eq(s, "HongKong") {
            Some(ApServer::HongKong)
        } else if str_eq(s, "Singapore") {
            Some(ApServer::Singapore)
        } else if str_eq(s, "Sydney") {
            Some(ApServer::Sydney)
        } else if str_eq(s, "Mumbai") {
            Some(ApServer::Mumbai)
        } else {
            None
        }
    }
}

/// A server's label reads back as that server.
pub proof fn lemma_ap_server_label(v: ApServer)
    ensures
        ApServer::spec_of_label(v.spec_label()) == Some(v),
{
    reveal_strlit("Tokyo");
    reveal_strlit("HongKong");
    reveal_strlit("Singapore");
    reveal_strlit("Sydney");
    reveal_strlit("Mumbai");
    assert("Tokyo"@.len() == 5 && "Tokyo"@[0] == 'T');
    assert("HongKong"@.len() == 8 && "HongKong"@[0] == 'H');
    assert("Singapore"@.len() == 9 && "Singapore"@[0] == 'S');
    assert("Sydney"@.len() == 6 && "Sydney"@[0] == 'S' && "Sydney"@[1] == 'y');
    assert("Mumbai"@.len() == 6 && "Mumbai"@[0] == 'M');
}

impl Mode {
    /// The stored label of each mode.
    pub open spec fn spec_label(self) -> Seq<char> {
        match self {
            Mode::Unrated => "Unrated"@,
            Mode::Competitive => "Competitive"@,
            Mode::Custom => "Custom"@,
        }
    }

    /// The mode whose stored label is `s`, if any.
    pub open spec fn spec_of_label(s: Seq<char>) -> Option<Mode> {
        if s == "Unrated"@ {
            Some(Mode::Unrated)
        } else if s == "Competitive"@ {
            Some(Mode::Competitive)
        } else if s == "Custom"@ {
            Some(Mode::Custom)
        } else {
            None
        }
    }

    /// All modes, in display order.
    pub fn variants() -> (r: Vec<Mode>)
        ensures
            r@ == seq![Mode::Unrated, Mode::Competitive, Mode::Custom],
    {
        let mut v: Vec<Mode> = Vec::new();
        v.push(Mode::Unrated);
        v.push(Mode::Competitive);
        v.push(Mode::Custom);
        proof {
            assert(v@ =~= seq![Mode::Unrated, Mode::Competitive, Mode::Custom]);
        }
        v
    }

    /// The stored label of the mode.
    pub fn as_str(&self) -> (r: &'static str)
        ensures
            r@ == self.spec_label(),
    {
        match self {
            Mode::Unrated => "Unrated",
            Mode::Competitive => "Competitive",
            Mode::Custom => "Custom",
        }
    }

    /// Reads a stored label back into a mode.
    pub fn from_str(s: &str) -> (r: Option<Mode>)
        ensures
            r == Mode::spec_of_label(s@),
    {
        if str_eq(s, "Unrated") {
            Some(Mode::Unrated)
        } else if str_eq(s, "Competitive") {
            Some(Mode::Competitive)
        } else if str_eq(s, "Custom") {
            Some(Mode::Custom)
        } else {
            None
        }
    }

    /// The configuration key under which the role id announced for this
    /// mode is stored.
    pub fn mention_key(&self) -> (r: &'static str)
        ensures
            self == Mode::Unrated ==> r@ == "UNRATED_MENTION_ID"@,
            self == Mode::Competitive ==> r@ == "COMPETITIVE_MENTION_ID"@,
            self == Mode::Custom ==> r@ == "CUSTOM_MENTION_ID"@,
    {
        match self {
            Mode::Unrated => "UNRATED_MENTION_ID",
            Mode::Competitive => "COMPETITIVE_MENTION_ID",
            Mode::Custom => "CUSTOM_MENTION_ID",
        }
    }

    /// Renders the role mention that announces a recruitment of this mode,
    /// from the role id the caller looked up under `mention_key`.
    pub fn to_mention_str(&self, role_id: &str) -> (r: String)
        ensures
            r@ == "<@&"@ + role_id@ + ">"@,
    {
        let mut s = String::from_str("<@&");
        s.append(role_id);
        s.append(">");
        s
    }
}

/// A mode's label reads back as that mode.
pub proof fn lemma_mode_label(v: Mode)
    ensures
        Mode::spec_of_label(v.spec_label()) == Some(v),
{
    reveal_strlit("Unrated");
    reveal_strlit("Competitive");
    reveal_strlit("Custom");
    assert("Unrated"@.len() == 7);
    assert("Competitive"@.len() == 11);
    assert("Custom"@.len() == 6);
}

impl Rank {
    /// The stored label of each rank.
    pub open spec fn spec_label(self) -> Seq<char> {
        match self {
            Rank::Unranked => "Unranked"@,
            Rank::Iron => "Iron"@,
            Rank::Bronze => "Bronze"@,
            Rank::Silver => "Silver"@,
            Rank::Gold => "Gold"@,
            Rank::Platinum => "Platinum"@,
            Rank::Diamond => "Diamond"@,
            Rank::Ascendant => "Ascendant"@,
            Rank::Immortal => "Immortal"@,
            Rank::Radiant => "Radiant"@,
        }
    }

    /// The rank whose stored label is `s`, if any.
    pub open spec fn spec_of_label(s: Seq<char>) -> Option<Rank> {
        if s == "Unranked"@ {
            Some(Rank::Unranked)
        } else if s == "Iron"@ {
            Some(Rank::Iron)
        } else if s == "Bronze"@ {
            Some(Rank::Bronze)
        } else if s == "Silver"@ {
            Some(Rank::Silver)
        } else if s == "Gold"@ {
            Some(Rank::Gold)
        } else if s == "Platinum"@ {
            Some(Rank::Platinum)
        } else if s == "Diamond"@ {
            Some(Rank::Diamond)
        } else if s == "Ascendant"@ {
            Some(Rank::Ascendant)
        } else if s == "Immortal"@ {
            Some(Rank::Immortal)
        } else if s == "Radiant"@ {
            Some(Rank::Radiant)
        } else {
            None
        }
    }

    /// All ranks, lowest to highest.
    pub fn variants() -> (r: Vec<Rank>)
        ensures
            r@ == seq![
                Rank::Unranked,
                Rank::Iron,
                Rank::Bronze,
                Rank::Silver,
                Rank::Gold,
                Rank::Platinum,
                Rank::Diamond,
                Rank::Ascendant,
                Rank::Immortal,
                Rank::Radiant,
            ],
    {
        let mut v: Vec<Rank> = Vec::new();
        v.push(Rank::Unranked);
        v.push(Rank::Iron);
        v.push(Rank::Bronze);
        v.push(Rank::Silver);
        v.push(Rank::Gold);
        v.push(Rank::Platinum);
        v.push(Rank::Diamond);
        v.push(Rank::Ascendant);
        v.push(Rank::Immortal);
        v.push(Rank::Radiant);
        proof {
            assert(v@ =~= seq![
                Rank::Unranked,
                Rank::Iron,
                Rank::Bronze,
                Rank::Silver,
                Rank::Gold,
                Rank::Platinum,
                Rank::Diamond,
                Rank::Ascendant,
                Rank::Immortal,
                Rank::Radiant,
            ]);
        }
        v
    }

    /// The stored label of the rank.
    pub fn as_str(&self) -> (r: &'static str)
        ensures
            r@ == self.spec_label(),
    {
        match self {
            Rank::Unranked => "Unranked",
            Rank::Iron => "Iron",
            Rank::Bronze => "Bronze",
            Rank::Silver => "Silver",
            Rank::Gold => "Gold",
            Rank::Platinum => "Platinum",
            Rank::Diamond => "Diamond",
            Rank::Ascendant => "Ascendant",
            Rank::Immortal => "Immortal",
            Rank::Radiant => "Radiant",
        }
    }

    /// Reads a stored label back into a rank.
    pub fn from_str(s: &str) -> (r: Option<Rank>)
        ensures
            r == Rank::spec_of_label(s@),
    {
        if str_eq(s, "Unranked") {
            Some(Rank::Unranked)
        } else if str_eq(s, "Iron") {
            Some(Rank::Iron)
        } else if str_eq(s, "Bronze") {
            Some(Rank::Bronze)
        } else if str_eq(s, "Silver") {
            Some(Rank::Silver)
        } else if str_eq(s, "Gold") {
            Some(Rank::Gold)
        } else if str_eq(s, "Platinum") {
            Some(Rank::Platinum)
        } else if str_eq(s, "Diamond") {
            Some(Rank::Diamond)
        } else if str_eq(s, "Ascendant") {
            Some(Rank::Ascendant)
        } else if str_eq(s, "Immortal") {
            Some(Rank::Immortal)
        } else if str_eq(s, "Radiant") {
            Some(Rank::Radiant)
        } else {
            None
        }
    }

    /// The embed accent color shown for this rank.
    pub open spec fn spec_color(self) -> u32 {
        match self {
            Rank::Radiant => RADIANT_COLOR,
            Rank::Immortal => IMMORTAL_COLOR,
            Rank::Ascendant => ASCENDANT_COLOR,
            Rank::Diamond => DIAMOND_COLOR,
            Rank::Platinum => PLATINUM_COLOR,
            Rank::Gold => GOLD_COLOR,
            Rank::Silver => SILVER_COLOR,
            Rank::Bronze => BRONZE_COLOR,
            Rank::Iron => IRON_COLOR,
            Rank::Unranked => BASE_COLOR,
        }
    }

    /// The embed accent color shown for this rank.
    pub fn to_color(&self) -> (r: u32)
        ensures
            r == self.spec_color(),
    {
        match self {
            Rank::Radiant => RADIANT_COLOR,
            Rank::Immortal => IMMORTAL_COLOR,
            Rank::Ascendant => ASCENDANT_COLOR,
            Rank::Diamond => DIAMOND_COLOR,
            Rank::Platinum => PLATINUM_COLOR,
            Rank::Gold => GOLD_COLOR,
            Rank::Silver => SILVER_COLOR,
            Rank::Bronze => BRONZE_COLOR,
            Rank::Iron => IRON_COLOR,
            Rank::Unranked => BASE_COLOR,
        }
    }
}

/// A rank's label reads back as that rank.
pub proof fn lemma_rank_label(v: Rank)
    ensures
        Rank::spec_of_label(v.spec_label()) == Some(v),
{
    reveal_strlit("Unranked");
    reveal_strlit("Iron");
    reveal_strlit("Bronze");
    reveal_strlit("Silver");
    reveal_strlit("Gold");
    reveal_strlit("Platinum");
    reveal_strlit("Diamond");
    reveal_strlit("Ascendant");
    reveal_strlit("Immortal");
    reveal_strlit("Radiant");
    assert("Unranked"@.len() == 8 && "Unranked"@[0] == 'U');
    assert("Iron"@.len() == 4 && "Iron"@[0] == 'I');
    assert("Bronze"@.len() == 6 && "Bronze"@[0] == 'B');
    assert("Silver"@.len() == 6 && "Silver"@[0] == 'S');
    assert("Gold"@.len() == 4 && "Gold"@[0] == 'G');
    assert("Platinum"@.len() == 8 && "Platinum"@[0] == 'P');
    assert("Diamond"@.len() == 7 && "Diamond"@[0] == 'D');
    assert("Ascendant"@.len() == 9 && "Ascendant"@[0] == 'A');
    assert("Immortal"@.len() == 8 && "Immortal"@[0] == 'I');
    assert("Radiant"@.len() == 7 && "Radiant"@[0] == 'R');
}

impl Member {
    /// The stored label of each party size.
    pub open spec fn spec_label(self) -> Seq<char> {
        match self {
            Member::Duo => "Duo"@,
            Member::Trio => "Trio"@,
            Member::Quad => "Quad"@,
            Member::FullParty => "FullParty"@,
            Member::Six => "Six"@,
            Member::Seven => "Seven"@,
            Member::Eight => "Eight"@,
            Member::Nine => "Nine"@,
            Member::Ten => "Ten"@,
        }
    }

    /// The party size whose stored label is `s`, if any.
    pub open spec fn spec_of_label(s: Seq<char>) -> Option<Member> {
        if s == "Duo"@ {
            Some(Member::Duo)
        } else if s == "Trio"@ {
            Some(Member::Trio)
        } else if s == "Quad"@ {
            Some(Member::Quad)
        } else if s == "FullParty"@ {
            Some(Member::FullParty)
        } else if s == "Six"@ {
            Some(Member::Six)
        } else if s == "Seven"@ {
            Some(Member::Seven)
        } else if s == "Eight"@ {
            Some(Member::Eight)
        } else if s == "Nine"@ {
            Some(Member::Nine)
        } else if s == "Ten"@ {
            Some(Member::Ten)
        } else {
            None
        }
    }

    /// The player count of each party size.
    pub open spec fn spec_capacity(self) -> u8 {
        match self {
            Member::Duo => 2,
            Member::Trio => 3,
            Member::Quad => 4,
            Member::FullParty => 5,
            Member::Six => 6,
            Member::Seven => 7,
            Member::Eight => 8,
            Member::Nine => 9,
            Member::Ten => 10,
        }
    }

    /// All party sizes, smallest to largest.
    pub fn variants() -> (r: Vec<Member>)
        ensures
            r@ == seq![
                Member::Duo,
                Member::Trio,
                Member::Quad,
                Member::FullParty,
                Member::Six,
                Member::Seven,
                Member::Eight,
                Member::Nine,
                Member::Ten,
            ],
    {
        let mut v: Vec<Member> = Vec::new();
        v.push(Member::Duo);
        v.push(Member::Trio);
        v.push(Member::Quad);
        v.push(Member::FullParty);
        v.push(Member::Six);
        v.push(Member::Seven);
        v.push(Member::Eight);
        v.push(Member::Nine);
        v.push(Member::Ten);
        proof {
            assert(v@ =~= seq![
                Member::Duo,
                Member::Trio,
                Member::Quad,
                Member::FullParty,
                Member::Six,
                Member::Seven,
                Member::Eight,
                Member::Nine,
                Member::Ten,
            ]);
        }
        v
    }

    /// The stored label of the party size.
    pub fn as_str(&self) -> (r: &'static str)
        ensures
            r@ == self.spec_label(),
    {
        match self {
            Member::Duo => "Duo",
            Member::Trio => "Trio",
            Member::Quad => "Quad",
            Member::FullParty => "FullParty",
            Member::Six => "Six",
            Member::Seven => "Seven",
            Member::Eight => "Eight",
            Member::Nine => "Nine",
            Member::Ten => "Ten",
        }
    }

    /// Reads a stored label back into a party size.
    pub fn from_str(s: &str) -> (r: Option<Member>)
        ensures
            r == Member::spec_of_label(s@),
    {
        if str_eq(s, "Duo") {
            Some(Member::Duo)
        } else if str_eq(s, "Trio") {
            Some(Member::Trio)
        } else if str_eq(s, "Quad") {
            Some(Member::Quad)
        } else if str_eq(s, "FullParty") {
            Some(Member::FullParty)
        } else if str_eq(s, "Six") {
            Some(Member::Six)
        } else if str_eq(s, "Seven") {
            Some(Member::Seven)
        } else if str_eq(s, "Eight") {
            Some(Member::Eight)
        } else if str_eq(s, "Nine") {
            Some(Member::Nine)
        } else if str_eq(s, "Ten") {
            Some(Member::Ten)
        } else {
            None
        }
    }

    /// The player count of the party size.
    pub fn as_u8(&self) -> (r: u8)
        ensures
            r == self.spec_capacity(),
    {
        match self {
            Member::Duo => 2,
            Member::Trio => 3,
            Member::Quad => 4,
            Member::FullParty => 5,
            Member::Six => 6,
            Member::Seven => 7,
            Member::Eight => 8,
            Member::Nine => 9,
            Member::Ten => 10,
        }
    }
}

/// A party size's label reads back as that party size.
pub proof fn lemma_member_label(v: Member)
    ensures
        Member::spec_of_label(v.spec_label()) == Some(v),
{
    reveal_strlit("Duo");
    reveal_strlit("Trio");
    reveal_strlit("Quad");
    reveal_strlit("FullParty");
    reveal_strlit("Six");
    reveal_strlit("Seven");
    reveal_strlit("Eight");
    reveal_strlit("Nine");
    reveal_strlit("Ten");
    assert("Duo"@.len() == 3 && "Duo"@[0] == 'D');
    assert("Trio"@.len() == 4 && "Trio"@[0] == 'T');
    assert("Quad"@.len() == 4 && "Quad"@[0] == 'Q');
    assert("FullParty"@.len() == 9 && "FullParty"@[0] == 'F');
    assert("Six"@.len() == 3 && "Six"@[0] == 'S');
    assert("Seven"@.len() == 5 && "Seven"@[0] == 'S' && "Seven"@[1] == 'e');
    assert("Eight"@.len() == 5 && "Eight"@[0] == 'E');
    assert("Nine"@.len() == 4 && "Nine"@[0] == 'N');
    assert("Ten"@.len() == 3 && "Ten"@[0] == 'T');
}

/// Every party size holds between two and ten players.
pub proof fn lemma_capacity_range(m: Member)
    ensures
        2 <= m.spec_capacity() <= 10,
{
}

impl WebhookDataExt for ApServer {
    fn variants() -> Vec<ApServer> {
        ApServer::variants()
    }

    fn as_str(&self) -> &'static str {
        ApServer::as_str(self)
    }
}

impl WebhookDataExt for Mode {
    fn variants() -> Vec<Mode> {
        Mode::variants()
    }

    fn as_str(&self) -> &'static str {
        Mode::as_str(self)
    }
}

impl WebhookDataExt for Rank {
    fn variants() -> Vec<Rank> {
        Rank::variants()
    }

    fn as_str(&self) -> &'static str {
        Rank::as_str(self)
    }
}

impl WebhookDataExt for Member {
    fn variants() -> Vec<Member> {
        Member::variants()
    }

    fn as_str(&self) -> &'static str {
        Member::as_str(self)
    }
}

/// Base embed accent color, used where no rank color applies.
pub const BASE_COLOR: u32 = 0xFF4652;

/// Accent color of the standing "create a recruitment" panel.
pub const PIN_MESSAGE_COLOR: u32 = 0xFF4652;

pub const RADIANT_COLOR: u32 = 0xFFF8AD;

pub const IMMORTAL_COLOR: u32 = 0xA52834;

pub const ASCENDANT_COLOR: u32 = 0x1F9E71;

pub const DIAMOND_COLOR: u32 = 0xB986F2;

pub const PLATINUM_COLOR: u32 = 0x38A8BA;

pub const GOLD_COLOR: u32 = 0xE8C370;

pub const SILVER_COLOR: u32 = 0xB3B3B3;

pub const BRONZE_COLOR: u32 = 0xA06A3C;

pub const IRON_COLOR: u32 = 0x5A5A5A;

/// The accent color for a stored rank label: the rank's color, except that
/// an unknown or rankless label has none.
pub fn get_colour(rank_label: &str) -> (r: Option<u32>)
    ensures
        r == match Rank::spec_of_label(rank_label@) {
            Some(Rank::Unranked) => None::<u32>,
            Some(rk) => Some(rk.spec_color()),
            None => None::<u32>,
        },
{
    match Rank::from_str(rank_label) {
        Some(Rank::Unranked) => None,
        Some(rk) => Some(rk.to_color()),
        None => None,
    }
}

/// The thumbnail file shown for a recruitment: the rank's icon under
/// Competitive, the unrated icon otherwise.
pub open spec fn spec_thumbnail(rank: Option<Rank>) -> Seq<char> {
    match rank {
        Some(Rank::Radiant) => "radiant.png"@,
        Some(Rank::Immortal) => "immortal.png"@,
        Some(Rank::Ascendant) => "ascendant.png"@,
        Some(Rank::Diamond) => "diamond.png"@,
        Some(Rank::Platinum) => "platinum.png"@,
        Some(Rank::Gold) => "gold.png"@,
        Some(Rank::Silver) => "silver.png"@,
        Some(Rank::Bronze) => "bronze.png"@,
        Some(Rank::Iron) => "iron.png"@,
        _ => "unrated.png"@,
    }
}

/// The thumbnail file name shown for a recruitment with this rank; the
/// caller prefixes its image base URL.
pub fn get_thumbnail(rank: Option<Rank>) -> (r: String)
    ensures
        r@ == spec_thumbnail(rank),
{
    let name: &'static str = match rank {
        Some(Rank::Radiant) => "radiant.png",
        Some(Rank::Immortal) => "immortal.png",
        Some(Rank::Ascendant) => "ascendant.png",
        Some(Rank::Diamond) => "diamond.png",
        Some(Rank::Platinum) => "platinum.png",
        Some(Rank::Gold) => "gold.png",
        Some(Rank::Silver) => "silver.png",
        Some(Rank::Bronze) => "bronze.png",
        Some(Rank::Iron) => "iron.png",
        _ => "unrated.png",
    };
    String::from_str(name)
}

/// The party sizes a mode offers: Competitive excludes Quad, Custom extends
/// the range up to ten.
pub open spec fn spec_capacity_allowed(mode: Mode, m: Member) -> bool {
    match mode {
        Mode::Unrated => m == Member::Duo || m == Member::Trio || m == Member::Quad || m
            == Member::FullParty,
        Mode::Competitive => m == Member::Duo || m == Member::Trio || m == Member::FullParty,
        Mode::Custom => true,
    }
}

/// `true` exactly when mode `mode` offers party size `m`.
pub fn capacity_allowed(mode: Mode, m: Member) -> (r: bool)
    ensures
        r == spec_capacity_allowed(mode, m),
{
    match mode {
        Mode::Unrated => matches!(m, Member::Duo | Member::Trio | Member::Quad | Member::FullParty),
        Mode::Competitive => matches!(m, Member::Duo | Member::Trio | Member::FullParty),
        Mode::Custom => true,
    }
}

/// The party-size menu offered for a mode, in display order: exactly the
/// sizes `spec_capacity_allowed` admits.
pub fn capacity_options(mode: Mode) -> (r: Vec<Member>)
    ensures
        mode == Mode::Unrated ==> r@ == seq![
            Member::Duo,
            Member::Trio,
            Member::Quad,
            Member::FullParty,
        ],
        mode == Mode::Competitive ==> r@ == seq![Member::Duo, Member::Trio, Member::FullParty],
        mode == Mode::Custom ==> r@ == seq![
            Member::Duo,
            Member::Trio,
            Member::Quad,
            Member::FullParty,
            Member::Six,
            Member::Seven,
            Member::Eight,
            Member::Nine,
            Member::Ten,
        ],
        forall|i: int| 0 <= i < r@.len() ==> spec_capacity_allowed(mode, #[trigger] r@[i]),
{
    let mut v: Vec<Member> = Vec::new();
    v.push(Member::Duo);
    v.push(Member::Trio);
    if !matches!(mode, Mode::Competitive) {
        v.push(Member::Quad);
    }
    v.push(Member::FullParty);
    if matches!(mode, Mode::Custom) {
        v.push(Member::Six);
        v.push(Member::Seven);
        v.push(Member::Eight);
        v.push(Member::Nine);
        v.push(Member::Ten);
    }
    proof {
        match mode {
            Mode::Unrated => {
                assert(v@ =~= seq![Member::Duo, Member::Trio, Member::Quad, Member::FullParty]);
            },
            Mode::Competitive => {
                assert(v@ =~= seq![Member::Duo, Member::Trio, Member::FullParty]);
            },
            Mode::Custom => {
                assert(v@ =~= seq![
                    Member::Duo,
                    Member::Trio,
                    Member::Quad,
                    Member::FullParty,
                    Member::Six,
                    Member::Seven,
                    Member::Eight,
                    Member::Nine,
                    Member::Ten,
                ]);
            },
        }
    }
    v
}

} // verus!
