//! The recruitment entity itself and its persisted form: a draft while the
//! wizard runs, the roster of a published panel afterwards, and the flat
//! field map in which a roster is stored durably.

use vstd::prelude::*;

use crate::text::{
    encode_joined, parse_joined, parse_u64, spec_joined_str, spec_u64_dec, str_eq, u64_to_string,
    lemma_dec_canonical,
};
use crate::types::{
    lemma_ap_server_label, lemma_member_label, lemma_mode_label, lemma_rank_label, ApServer,
    Member, Mode, Rank,
};

verus! {

/// Lifetime of a stored roster record: a fixed absolute expiry set once at
/// publication, never extended by joins or leaves.
pub const THREE_DAYS_SECONDS: i64 = 3 * 24 * 60 * 60;

/// A recruitment: its creator, settings, and the joined members in join
/// order. Serves as the per-user wizard draft and, once published, as the
/// roster of a panel.
#[derive(Clone, Debug, PartialEq)]
pub struct WebhookData {
    pub creator: u64,
    pub server: ApServer,
    pub mode: Mode,
    pub rank: Option<Rank>,
    pub member: Member,
    pub joined: Vec<u64>,
}

/// The mathematical value of a recruitment.
#[verifier::ext_equal]
pub struct RosterView {
    pub creator: u64,
    pub server: ApServer,
    pub mode: Mode,
    pub rank: Option<Rank>,
    pub member: Member,
    pub joined: Seq<u64>,
}

impl View for WebhookData {
    type V = RosterView;

    open spec fn view(&self) -> RosterView {
        RosterView {
            creator: self.creator,
            server: self.server,
            mode: self.mode,
            rank: self.rank,
            member: self.member,
            joined: self.joined@,
        }
    }
}

/// A sound roster: the creator opened the member list and is still on it, no
/// member appears twice, membership never exceeds the chosen capacity, and a
/// rank is recorded exactly for Competitive recruitments.
pub open spec fn wf_roster(d: RosterView) -> bool {
    &&& d.joined.len() >= 1
    &&& d.joined[0] == d.creator
    &&& d.joined.len() <= d.member.spec_capacity() as int
    &&& forall|i: int, j: int| 0 <= i < j < d.joined.len() ==> d.joined[i] != d.joined[j]
    &&& (d.rank is Some <==> d.mode == Mode::Competitive)
}

impl WebhookData {
    /// A fresh draft for `id`: Tokyo, Unrated, no rank, a duo, and the
    /// creator already joined.
    pub fn new(id: u64) -> (r: WebhookData)
        ensures
            r.creator == id,
            r.server == ApServer::Tokyo,
            r.mode == Mode::Unrated,
            r.rank is None,
            r.member == Member::Duo,
            r.joined@ == seq![id],
            wf_roster(r@),
    {
        let mut joined: Vec<u64> = Vec::new();
        joined.push(id);
        let r = WebhookData {
            creator: id,
            server: ApServer::Tokyo,
            mode: Mode::Unrated,
            rank: None,
            member: Member::Duo,
            joined,
        };
        proof {
            assert(r.joined@ =~= seq![id]);
        }
        r
    }

    /// A copy of the recruitment with the same value.
    pub fn duplicate(&self) -> (r: WebhookData)
        ensures
            r@ == self@,
    {
        let r = WebhookData {
            creator: self.creator,
            server: self.server,
            mode: self.mode,
            rank: self.rank,
            member: self.member,
            joined: self.joined.clone(),
        };
        proof {
            assert(r.joined@ =~= self.joined@);
            assert(r@ =~= self@);
        }
        r
    }
}

/// The stored label of an optional rank; rankless recruitments store the
/// sentinel `None`.
pub open spec fn spec_rank_label(rank: Option<Rank>) -> Seq<char> {
    match rank {
        Some(rk) => rk.spec_label(),
        None => "None"@,
    }
}

/// `true` when the field map `pairs` describes exactly the recruitment `v`:
/// each of the six field names first resolves to the stored form of the
/// matching attribute of `v`.
pub open spec fn spec_record_matches(pairs: Seq<(String, String)>, v: RosterView) -> bool {
    &&& spec_lookup(pairs, "creator"@) == Some(spec_u64_dec(v.creator as nat))
    &&& spec_lookup(pairs, "server"@) == Some(v.server.spec_label())
    &&& spec_lookup(pairs, "mode"@) == Some(v.mode.spec_label())
    &&& spec_lookup(pairs, "rank"@) == Some(spec_rank_label(v.rank))
    &&& spec_lookup(pairs, "member"@) == Some(v.member.spec_label())
    &&& spec_lookup(pairs, "joined"@) == Some(spec_joined_str(v.joined))
    &&& v.joined.len() >= 1
}

/// The value stored under the first pair whose name is `key`, if any.
pub open spec fn spec_lookup(pairs: Seq<(String, String)>, key: Seq<char>) -> Option<Seq<char>>
    decreases pairs.len(),
{
    if pairs.len() == 0 {
        None
    } else if pairs[0].0@ == key {
        Some(pairs[0].1@)
    } else {
        spec_lookup(pairs.drop_first(), key)
    }
}

fn lookup<'a>(pairs: &'a Vec<(String, String)>, key: &str) -> (r: Option<&'a String>)
    ensures
        match r {
            Some(v) => spec_lookup(pairs@, key@) == Some(v@),
            None => spec_lookup(pairs@, key@) is None,
        },
{
    let mut i: usize = 0;
    proof {
        assert(pairs@.skip(0) =~= pairs@);
    }
    while i < pairs.len()
        invariant
            i <= pairs@.len(),
            spec_lookup(pairs@, key@) == spec_lookup(pairs@.skip(i as int), key@),
        decreases pairs@.len() - i,
    {
        if str_eq(pairs[i].0.as_str(), key) {
            proof {
                assert(pairs@.skip(i as int)[0] == pairs@[i as int]);
            }
            return Some(&pairs[i].1);
        }
        i += 1;
        proof {
            assert(pairs@.skip(i as int - 1)[0] == pairs@[i as int - 1]);
            assert(pairs@.skip(i as int - 1).drop_first() =~= pairs@.skip(i as int));
        }
    }
    proof {
        assert(pairs@.skip(i as int).len() == 0);
    }
    None
}

/// Renders a recruitment as the six-field map under which it is stored.
pub fn encode_record(d: &WebhookData) -> (r: Vec<(String, String)>)
    ensures
        r@.len() == 6,
        r@[0].0@ == "creator"@ && r@[0].1@ == spec_u64_dec(d.creator as nat),
        r@[1].0@ == "server"@ && r@[1].1@ == d.server.spec_label(),
        r@[2].0@ == "mode"@ && r@[2].1@ == d.mode.spec_label(),
        r@[3].0@ == "rank"@ && r@[3].1@ == spec_rank_label(d.rank),
        r@[4].0@ == "member"@ && r@[4].1@ == d.member.spec_label(),
        r@[5].0@ == "joined"@ && r@[5].1@ == spec_joined_str(d.joined@),
{
    let mut v: Vec<(String, String)> = Vec::new();
    v.push((String::from_str("creator"), u64_to_string(d.creator)));
    v.push((String::from_str("server"), String::from_str(d.server.as_str())));
    v.push((String::from_str("mode"), String::from_str(d.mode.as_str())));
    let rank_label: &'static str = match d.rank {
        Some(rk) => rk.as_str(),
        None => "None",
    };
    v.push((String::from_str("rank"), String::from_str(rank_label)));
    v.push((String::from_str("member"), String::from_str(d.member.as_str())));
    v.push((String::from_str("joined"), encode_joined(&d.joined)));
    v
}

/// Reads a stored field map back into a recruitment. Returns `Some(d)`
/// exactly when the map describes some recruitment, which is then `d`.
pub fn decode_record(pairs: &Vec<(String, String)>) -> (r: Option<WebhookData>)
    ensures
        match r {
            Some(d) => spec_record_matches(pairs@, d@),
            None => forall|v: RosterView| !spec_record_matches(pairs@, v),
        },
{
    let creator_s = match lookup(pairs, "creator") {
        Some(s) => s,
        None => {
            return None;
        },
    };
    let server_s = match lookup(pairs, "server") {
        Some(s) => s,
        None => {
            return None;
        },
    };
    let mode_s = match lookup(pairs, "mode") {
        Some(s) => s,
        None => {
            return None;
        },
    };
    let rank_s = match lookup(pairs, "rank") {
        Some(s) => s,
        None => {
            return None;
        },
    };
    let member_s = match lookup(pairs, "member") {
        Some(s) => s,
        None => {
            return None;
        },
    };
    let joined_s = match lookup(pairs, "joined") {
        Some(s) => s,
        None => {
            return None;
        },
    };
    let creator = match parse_u64(creator_s.as_str()) {
        Some(n) => n,
        None => {
            proof {
                assert forall|v: RosterView| !spec_record_matches(pairs@, v) by {
                    if spec_record_matches(pairs@, v) {
                        assert(creator_s@ == spec_u64_dec(v.creator as nat));
                    }
                }
            }
            return None;
        },
    };
    let server = match ApServer::from_str(server_s.as_str()) {
        Some(x) => x,
        None => {
            proof {
                assert forall|v: RosterView| !spec_record_matches(pairs@, v) by {
                    if spec_record_matches(pairs@, v) {
                        lemma_ap_server_label(v.server);
                    }
                }
            }
            return None;
        },
    };
    let mode = match Mode::from_str(mode_s.as_str()) {
        Some(x) => x,
        None => {
            proof {
                assert forall|v: RosterView| !spec_record_matches(pairs@, v) by {
                    if spec_record_matches(pairs@, v) {
                        lemma_mode_label(v.mode);
                    }
                }
            }
            return None;
        },
    };
    let rank: Option<Rank> = if str_eq(rank_s.as_str(), "None") {
        None
    } else {
        match Rank::from_str(rank_s.as_str()) {
            Some(x) => Some(x),
            None => {
                proof {
                    assert forall|v: RosterView| !spec_record_matches(pairs@, v) by {
                        if spec_record_matches(pairs@, v) {
                            if v.rank is Some {
                                lemma_rank_label(v.rank.unwrap());
                            }
                        }
                    }
                }
                return None;
            },
        }
    };
    let member = match Member::from_str(member_s.as_str()) {
        Some(x) => x,
        None => {
            proof {
                assert forall|v: RosterView| !spec_record_matches(pairs@, v) by {
                    if spec_record_matches(pairs@, v) {
                        lemma_member_label(v.member);
                    }
                }
            }
            return None;
        },
    };
    let joined = match parse_joined(joined_s.as_str()) {
        Some(ids) => ids,
        None => {
            proof {
                assert forall|v: RosterView| !spec_record_matches(pairs@, v) by {
                    if spec_record_matches(pairs@, v) {
                        assert(joined_s@ == spec_joined_str(v.joined));
                    }
                }
            }
            return None;
        },
    };
    let d = WebhookData { creator, server, mode, rank, member, joined };
    proof {
        lemma_dec_canonical(creator as nat);
        lemma_ap_server_label(server);
        lemma_mode_label(mode);
        lemma_member_label(member);
        match rank {
            Some(rk) => {
                lemma_rank_label(rk);
                lemma_rank_label_not_none(rk);
            },
            None => {},
        }
    }
    Some(d)
}

/// No rank label collides with the stored `None` sentinel.
proof fn lemma_rank_label_not_none(rk: Rank)
    ensures
        rk.spec_label() != "None"@,
{
    reveal_strlit("None");
    reveal_strlit("Unranked");
    reveal_strlit("Iron");
    reveal_strlit("Bronze");
    reveal_strlit("Silver");
    reveal_strlit("Gold");
    reveal_strlit("Platinum");
    reveal_strlit("Diamond");
    reveal_strlit("Ascendant");
    reveal_strlit("Immortal");
    reveal_strlit("Radiant");
    assert("None"@.len() == 4 && "None"@[0] == 'N');
    assert("Unranked"@.len() == 8);
    assert("Iron"@.len() == 4 && "Iron"@[0] == 'I');
    assert("Bronze"@.len() == 6);
    assert("Silver"@.len() == 6);
    assert("Gold"@.len() == 4 && "Gold"@[0] == 'G');
    assert("Platinum"@.len() == 8);
    assert("Diamond"@.len() == 7);
    assert("Ascendant"@.len() == 9);
    assert("Immortal"@.len() == 8);
    assert("Radiant"@.len() == 7);
}

/// The six field names of a stored record are pairwise distinct.
proof fn lemma_field_names_distinct()
    ensures
        "creator"@ != "server"@ && "creator"@ != "mode"@ && "creator"@ != "rank"@ && "creator"@
            != "member"@ && "creator"@ != "joined"@,
        "server"@ != "mode"@ && "server"@ != "rank"@ && "server"@ != "member"@ && "server"@
            != "joined"@,
        "mode"@ != "rank"@ && "mode"@ != "member"@ && "mode"@ != "joined"@,
        "rank"@ != "member"@ && "rank"@ != "joined"@,
        "member"@ != "joined"@,
{
    reveal_strlit("creator");
    reveal_strlit("server");
    reveal_strlit("mode");
    reveal_strlit("rank");
    reveal_strlit("member");
    reveal_strlit("joined");
    assert("creator"@.len() == 7);
    assert("server"@.len() == 6 && "server"@[0] == 's');
    assert("mode"@.len() == 4 && "mode"@[0] == 'm');
    assert("rank"@.len() == 4 && "rank"@[0] == 'r');
    assert("member"@.len() == 6 && "member"@[0] == 'm');
    assert("joined"@.len() == 6 && "joined"@[0] == 'j');
}

/// Law: a field map of the shape `encode_record` produces describes exactly
/// the recruitment it was rendered from, so reading the stored record back
/// recovers that recruitment and no other.
pub proof fn lemma_encoded_record_matches(pairs: Seq<(String, String)>, v: RosterView)
    requires
        pairs.len() == 6,
        pairs[0].0@ == "creator"@ && pairs[0].1@ == spec_u64_dec(v.creator as nat),
        pairs[1].0@ == "server"@ && pairs[1].1@ == v.server.spec_label(),
        pairs[2].0@ == "mode"@ && pairs[2].1@ == v.mode.spec_label(),
        pairs[3].0@ == "rank"@ && pairs[3].1@ == spec_rank_label(v.rank),
        pairs[4].0@ == "member"@ && pairs[4].1@ == v.member.spec_label(),
        pairs[5].0@ == "joined"@ && pairs[5].1@ == spec_joined_str(v.joined),
        v.joined.len() >= 1,
    ensures
        spec_record_matches(pairs, v),
{
    lemma_field_names_distinct();
    let p1 = pairs.drop_first();
    let p2 = p1.drop_first();
    let p3 = p2.drop_first();
    let p4 = p3.drop_first();
    let p5 = p4.drop_first();
    assert(p1[0] == pairs[1] && p1[1] == pairs[2] && p1[2] == pairs[3] && p1[3] == pairs[4]
        && p1[4] == pairs[5]);
    assert(p2[0] == pairs[2] && p2[1] == pairs[3] && p2[2] == pairs[4] && p2[3] == pairs[5]);
    assert(p3[0] == pairs[3] && p3[1] == pairs[4] && p3[2] == pairs[5]);
    assert(p4[0] == pairs[4] && p4[1] == pairs[5]);
    assert(p5[0] == pairs[5]);
    assert(spec_lookup(pairs, "creator"@) == Some(pairs[0].1@));
    assert(spec_lookup(pairs, "server"@) == spec_lookup(p1, "server"@));
    assert(spec_lookup(p1, "server"@) == Some(pairs[1].1@));
    assert(spec_lookup(pairs, "mode"@) == spec_lookup(p1, "mode"@));
    assert(spec_lookup(p1, "mode"@) == spec_lookup(p2, "mode"@));
    assert(spec_lookup(p2, "mode"@) == Some(pairs[2].1@));
    assert(spec_lookup(pairs, "rank"@) == spec_lookup(p1, "rank"@));
    assert(spec_lookup(p1, "rank"@) == spec_lookup(p2, "rank"@));
    assert(spec_lookup(p2, "rank"@) == spec_lookup(p3, "rank"@));
    assert(spec_lookup(p3, "rank"@) == Some(pairs[3].1@));
    assert(spec_lookup(pairs, "member"@) == spec_lookup(p1, "member"@));
    assert(spec_lookup(p1, "member"@) == spec_lookup(p2, "member"@));
    assert(spec_lookup(p2, "member"@) == spec_lookup(p3, "member"@));
    assert(spec_lookup(p3, "member"@) == spec_lookup(p4, "member"@));
    assert(spec_lookup(p4, "member"@) == Some(pairs[4].1@));
    assert(spec_lookup(pairs, "joined"@) == spec_lookup(p1, "joined"@));
    assert(spec_lookup(p1, "joined"@) == spec_lookup(p2, "joined"@));
    assert(spec_lookup(p2, "joined"@) == spec_lookup(p3, "joined"@));
    assert(spec_lookup(p3, "joined"@) == spec_lookup(p4, "joined"@));
    assert(spec_lookup(p4, "joined"@) == spec_lookup(p5, "joined"@));
    assert(spec_lookup(p5, "joined"@) == Some(pairs[5].1@));
}

/// A field map describes at most one recruitment: two recruitments matching
/// the same stored map are equal.
pub proof fn lemma_record_matches_unique(pairs: Seq<(String, String)>, a: RosterView, b: RosterView)
    requires
        spec_record_matches(pairs, a),
        spec_record_matches(pairs, b),
    ensures
        a == b,
{
    lemma_dec_injective(a.creator, b.creator);
    lemma_ap_server_label(a.server);
    lemma_ap_server_label(b.server);
    lemma_mode_label(a.mode);
    lemma_mode_label(b.mode);
    lemma_member_label(a.member);
    lemma_member_label(b.member);
    match (a.rank, b.rank) {
        (Some(x), Some(y)) => {
            lemma_rank_label(x);
            lemma_rank_label(y);
        },
        (Some(x), None) => {
            lemma_rank_label_not_none(x);
        },
        (None, Some(y)) => {
            lemma_rank_label_not_none(y);
        },
        (None, None) => {},
    }
    lemma_joined_str_injective(a.joined, b.joined);
    assert(a =~= b);
}

/// Distinct numbers have distinct decimal renderings.
pub proof fn lemma_dec_injective(a: u64, b: u64)
    requires
        spec_u64_dec(a as nat) == spec_u64_dec(b as nat),
    ensures
        a == b,
{
    lemma_dec_canonical(a as nat);
    lemma_dec_canonical(b as nat);
}

/// Distinct nonempty member lists have distinct stored forms.
pub proof fn lemma_joined_str_injective(a: Seq<u64>, b: Seq<u64>)
    requires
        a.len() >= 1,
        b.len() >= 1,
        spec_joined_str(a) == spec_joined_str(b),
    ensures
        a == b,
    decreases a.len(),
{
    let s = spec_joined_str(a);
    lemma_dec_canonical(a[0] as nat);
    lemma_dec_canonical(b[0] as nat);
    let da = spec_u64_dec(a[0] as nat);
    let db = spec_u64_dec(b[0] as nat);
    if a.len() == 1 && b.len() == 1 {
        lemma_dec_injective(a[0], b[0]);
        assert(a =~= b);
    } else if a.len() == 1 && b.len() > 1 {
        assert(s == db + seq![','] + spec_joined_str(b.drop_first()));
        assert(s[db.len() as int] == ((db + seq![',']) + spec_joined_str(b.drop_first()))[
            db.len() as int
        ]);
        assert(s[db.len() as int] == ',');
        assert(crate::text::spec_is_digit(s[db.len() as int]));
        assert(false);
    } else if a.len() > 1 && b.len() == 1 {
        assert(s == da + seq![','] + spec_joined_str(a.drop_first()));
        assert(s[da.len() as int] == ((da + seq![',']) + spec_joined_str(a.drop_first()))[
            da.len() as int
        ]);
        assert(s[da.len() as int] == ',');
        assert(crate::text::spec_is_digit(s[da.len() as int]));
        assert(false);
    } else {
        let ra = spec_joined_str(a.drop_first());
        let rb = spec_joined_str(b.drop_first());
        assert(s == da + seq![','] + ra);
        assert(s == db + seq![','] + rb);
        let ca = da.len() as int;
        assert(forall|j: int| 0 <= j < ca ==> crate::text::spec_is_digit(#[trigger] s[j]));
        assert(s[ca] == ((da + seq![',']) + ra)[ca]);
        assert(s[ca] == ',');
        assert forall|j: int| 0 <= j < ca implies crate::text::spec_is_digit(s[j]) by {
            assert(s[j] == ((da + seq![',']) + ra)[j]);
            assert(s[j] == da[j]);
        }
        assert forall|j: int| 0 <= j < ca implies s[j] != ',' by {
            assert(crate::text::spec_is_digit(s[j]));
        }
        crate::text::lemma_first_comma(s, db, rb, ca);
        assert(s.take(ca) == db);
        assert(s.take(ca) =~= da);
        lemma_dec_injective(a[0], b[0]);
        assert(s.skip(ca + 1) == rb);
        assert(s.skip(ca + 1) =~= ra);
        lemma_joined_str_injective(a.drop_first(), b.drop_first());
        assert(a =~= seq![a[0]] + a.drop_first());
        assert(b =~= seq![b[0]] + b.drop_first());
    }
}

} // verus!
