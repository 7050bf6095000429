//! Character-exact string helpers: comparison, decimal rendering and parsing
//! of identifiers, and the comma-separated identifier list used by the
//! persisted roster record.

use vstd::prelude::*;
use vstd::string::*;

verus! {

/// Character-by-character string equality.
pub fn str_eq(a: &str, b: &str) -> (r: bool)
    ensures
        r == (a@ == b@),
{
    let alen = a.unicode_len();
    let blen = b.unicode_len();
    if alen != blen {
        proof {
            assert(a@ != b@) by {
                assert(a@.len() != b@.len());
            }
        }
        return false;
    }
    let mut i: usize = 0;
    while i < alen
        invariant
            i <= alen,
            alen == a@.len(),
            blen == b@.len(),
            alen == blen,
            forall|j: int| 0 <= j < i ==> a@[j] == b@[j],
        decreases alen - i,
    {
        if a.get_char(i) != b.get_char(i) {
            return false;
        }
        i += 1;
    }
    proof {
        assert(a@ =~= b@);
    }
    true
}

/// The decimal digit character for a value below ten.
pub open spec fn spec_digit(d: nat) -> char {
    if d == 0 {
        '0'
    } else if d == 1 {
        '1'
    } else if d == 2 {
        '2'
    } else if d == 3 {
        '3'
    } else if d == 4 {
        '4'
    } else if d == 5 {
        '5'
    } else if d == 6 {
        '6'
    } else if d == 7 {
        '7'
    } else if d == 8 {
        '8'
    } else {
        '9'
    }
}

/// The canonical decimal rendering of a natural number: no sign, no leading
/// zero except for the number zero itself.
pub open spec fn spec_u64_dec(n: nat) -> Seq<char>
    decreases n,
{
    if n < 10 {
        seq![spec_digit(n)]
    } else {
        spec_u64_dec(n / 10).push(spec_digit(n % 10))
    }
}

fn digit_str(d: u64) -> (r: &'static str)
    requires
        d < 10,
    ensures
        r@ == seq![spec_digit(d as nat)],
{
    let s: &'static str = match d {
        0 => "0",
        1 => "1",
        2 => "2",
        3 => "3",
        4 => "4",
        5 => "5",
        6 => "6",
        7 => "7",
        8 => "8",
        _ => "9",
    };
    proof {
        reveal_strlit("0");
        reveal_strlit("1");
        reveal_strlit("2");
        reveal_strlit("3");
        reveal_strlit("4");
        reveal_strlit("5");
        reveal_strlit("6");
        reveal_strlit("7");
        reveal_strlit("8");
        reveal_strlit("9");
        assert(s@ =~= seq![spec_digit(d as nat)]);
    }
    s
}

/// `true` when `c` is a decimal digit.
pub open spec fn spec_is_digit(c: char) -> bool {
    '0' <= c && c <= '9'
}

/// The numeric value of a digit character.
pub open spec fn spec_digit_val(c: char) -> nat {
    (c as nat - '0' as nat) as nat
}

/// The value of a string of digit characters read as a decimal number.
pub open spec fn spec_dec_value(s: Seq<char>) -> nat
    decreases s.len(),
{
    if s.len() == 0 {
        0
    } else {
        spec_dec_value(s.drop_last()) * 10 + spec_digit_val(s.last())
    }
}

/// `true` when `s` is a canonical decimal string: nonempty, digits only, and
/// no leading zero unless the string is exactly "0".
pub open spec fn spec_is_canonical_dec(s: Seq<char>) -> bool {
    &&& s.len() >= 1
    &&& forall|i: int| 0 <= i < s.len() ==> spec_is_digit(#[trigger] s[i])
    &&& (s.len() > 1 ==> s[0] != '0')
}

pub proof fn lemma_digit_roundtrip(c: char)
    requires
        spec_is_digit(c),
    ensures
        spec_digit_val(c) < 10,
        spec_digit(spec_digit_val(c)) == c,
{
}

/// The canonical rendering of any number is a canonical decimal string whose
/// value is that number.
pub proof fn lemma_dec_canonical(n: nat)
    ensures
        spec_is_canonical_dec(spec_u64_dec(n)),
        spec_dec_value(spec_u64_dec(n)) == n,
        n >= 1 ==> spec_u64_dec(n)[0] != '0',
    decreases n,
{
    if n < 10 {
        let s1 = seq![spec_digit(n)];
        assert(spec_u64_dec(n) =~= s1);
        assert(s1.drop_last() =~= Seq::<char>::empty());
        assert(spec_dec_value(s1.drop_last()) == 0);
        assert(s1.last() == spec_digit(n));
        assert(spec_digit_val(spec_digit(n)) == n);
        assert(spec_is_digit(spec_digit(n)));
        assert forall|i: int| 0 <= i < s1.len() implies spec_is_digit(#[trigger] s1[i]) by {
            assert(s1[i] == spec_digit(n));
        }
    } else {
        lemma_dec_canonical(n / 10);
        let prefix = spec_u64_dec(n / 10);
        let whole = spec_u64_dec(n);
        assert(whole == prefix.push(spec_digit(n % 10)));
        assert(whole.drop_last() =~= prefix);
        assert(whole.last() == spec_digit(n % 10));
        assert(spec_digit_val(spec_digit(n % 10)) == n % 10);
        assert(spec_dec_value(whole) == (n / 10) * 10 + n % 10);
        assert((n / 10) * 10 + n % 10 == n) by {
            vstd::arithmetic::div_mod::lemma_fundamental_div_mod(n as int, 10);
        }
        assert forall|i: int| 0 <= i < whole.len() implies spec_is_digit(#[trigger] whole[i]) by {
            if i < prefix.len() {
                assert(whole[i] == prefix[i]);
            } else {
                assert(whole[i] == spec_digit(n % 10));
            }
        }
        assert(whole[0] == prefix[0]);
    }
}

/// A canonical decimal string is the rendering of its own value: rendering
/// and reading back are mutually inverse.
pub proof fn lemma_dec_value_roundtrip(s: Seq<char>)
    requires
        spec_is_canonical_dec(s),
    ensures
        spec_u64_dec(spec_dec_value(s)) == s,
    decreases s.len(),
{
    let v = spec_dec_value(s);
    if s.len() == 1 {
        lemma_digit_roundtrip(s[0]);
        assert(s.drop_last() =~= Seq::<char>::empty());
        assert(spec_dec_value(s.drop_last()) == 0);
        assert(s.last() == s[0]);
        assert(v == spec_digit_val(s[0]));
        assert(spec_u64_dec(v) =~= s);
    } else {
        let prefix = s.drop_last();
        let d = spec_digit_val(s.last());
        assert(forall|i: int| 0 <= i < prefix.len() ==> spec_is_digit(#[trigger] prefix[i]));
        assert(spec_is_canonical_dec(prefix));
        lemma_dec_value_roundtrip(prefix);
        let pv = spec_dec_value(prefix);
        lemma_digit_roundtrip(s.last());
        assert(v == pv * 10 + d);
        assert(pv >= 1) by {
            if pv == 0 {
                lemma_dec_canonical(0);
                assert(spec_u64_dec(0) =~= seq!['0']);
                assert(prefix =~= seq!['0']);
                assert(s[0] == '0');
            }
        }
        assert(v >= 10) by {
            assert(pv * 10 >= 10) by (nonlinear_arith)
                requires pv >= 1;
        }
        assert(v / 10 == pv && v % 10 == d) by {
            vstd::arithmetic::div_mod::lemma_fundamental_div_mod_converse(
                v as int, 10, pv as int, d as int);
        }
        assert(spec_u64_dec(v) == spec_u64_dec(pv).push(spec_digit(d)));
        assert(spec_u64_dec(v) =~= s);
    }
}

/// Reads a canonical decimal string back into a number. Returns `Some(n)`
/// exactly when `s` is the canonical decimal rendering of `n`.
pub fn parse_u64(s: &str) -> (r: Option<u64>)
    ensures
        match r {
            Some(n) => s@ == spec_u64_dec(n as nat),
            None => forall|n: u64| s@ != spec_u64_dec(n as nat),
        },
{
    let len = s.unicode_len();
    if len == 0 {
        proof {
            assert forall|n: u64| s@ != spec_u64_dec(n as nat) by {
                lemma_dec_canonical(n as nat);
            }
        }
        return None;
    }
    let first = s.get_char(0);
    if len > 1 && first == '0' {
        proof {
            assert forall|n: u64| s@ != spec_u64_dec(n as nat) by {
                lemma_dec_canonical(n as nat);
            }
        }
        return None;
    }
    let mut acc: u64 = 0;
    let mut i: usize = 0;
    while i < len
        invariant
            i <= len,
            len == s@.len(),
            len >= 1,
            len > 1 ==> s@[0] != '0',
            forall|j: int| 0 <= j < i ==> spec_is_digit(#[trigger] s@[j]),
            acc as nat == spec_dec_value(s@.take(i as int)),
        decreases len - i,
    {
        let c = s.get_char(i);
        if !('0' <= c && c <= '9') {
            proof {
                assert forall|n: u64| s@ != spec_u64_dec(n as nat) by {
                    lemma_dec_canonical(n as nat);
                    if s@ == spec_u64_dec(n as nat) {
                        assert(spec_is_digit(s@[i as int]));
                    }
                }
            }
            return None;
        }
        let d: u64 = (c as u32 as u64) - 48;
        proof {
            assert(d == spec_digit_val(c));
        }
        let shifted = match acc.checked_mul(10) {
            Some(x) => x,
            None => {
                proof {
                    lemma_parse_overflow(s@, i as int);
                }
                return None;
            },
        };
        let next = match shifted.checked_add(d) {
            Some(x) => x,
            None => {
                proof {
                    lemma_parse_overflow(s@, i as int);
                }
                return None;
            },
        };
        acc = next;
        i += 1;
        proof {
            assert(s@.take(i as int).drop_last() =~= s@.take(i as int - 1));
            assert(s@.take(i as int).last() == s@[i as int - 1]);
        }
    }
    proof {
        assert(s@.take(len as int) =~= s@);
        assert(spec_is_canonical_dec(s@));
        lemma_dec_value_roundtrip(s@);
    }
    Some(acc)
}

/// If the value of some digit prefix of `s` already exceeds `u64::MAX`, no
/// `u64` renders to `s`: decimal values only grow as digits are appended.
proof fn lemma_parse_overflow(s: Seq<char>, i: int)
    requires
        0 <= i < s.len(),
        forall|j: int| 0 <= j <= i ==> spec_is_digit(#[trigger] s[j]),
        spec_dec_value(s.take(i)) * 10 + spec_digit_val(s[i]) > u64::MAX,
    ensures
        forall|n: u64| s != spec_u64_dec(n as nat),
{
    assert forall|n: u64| s != spec_u64_dec(n as nat) by {
        if s == spec_u64_dec(n as nat) {
            lemma_dec_canonical(n as nat);
            lemma_dec_value_monotonic(s, i + 1);
            assert(spec_dec_value(s.take(i + 1)) == spec_dec_value(s.take(i + 1).drop_last()) * 10
                + spec_digit_val(s.take(i + 1).last())) by {
                assert(s.take(i + 1).len() >= 1);
            }
            assert(s.take(i + 1).drop_last() =~= s.take(i));
            assert(s.take(i + 1).last() == s[i]);
            assert(spec_dec_value(s.take(i + 1)) > u64::MAX);
            assert(spec_dec_value(s) == n as nat);
        }
    }
}

/// The value of a digit string is at least the value of any of its prefixes.
proof fn lemma_dec_value_monotonic(s: Seq<char>, i: int)
    requires
        0 <= i <= s.len(),
    ensures
        spec_dec_value(s) >= spec_dec_value(s.take(i)),
    decreases s.len() - i,
{
    if i < s.len() {
        lemma_dec_value_monotonic(s, i + 1);
        assert(s.take(i + 1).drop_last() =~= s.take(i));
        let p = spec_dec_value(s.take(i));
        assert(spec_dec_value(s.take(i + 1)) == p * 10 + spec_digit_val(s.take(i + 1).last()));
        assert(p * 10 >= p) by (nonlinear_arith);
    } else {
        assert(s.take(i) =~= s);
    }
}

/// The stored form of a nonempty member list: canonical decimal ids joined
/// by single commas, in list order.
pub open spec fn spec_joined_str(ids: Seq<u64>) -> Seq<char>
    decreases ids.len(),
{
    if ids.len() == 0 {
        Seq::empty()
    } else if ids.len() == 1 {
        spec_u64_dec(ids[0] as nat)
    } else {
        spec_u64_dec(ids[0] as nat) + seq![','] + spec_joined_str(ids.drop_first())
    }
}

fn encode_joined_from(ids: &Vec<u64>, from: usize) -> (r: String)
    requires
        from < ids.len(),
    ensures
        r@ == spec_joined_str(ids@.skip(from as int)),
    decreases ids.len() - from,
{
    let mut s = u64_to_string(ids[from]);
    if from + 1 < ids.len() {
        s.append(",");
        let rest = encode_joined_from(ids, from + 1);
        s.append(rest.as_str());
        proof {
            reveal_strlit(",");
            let tail = ids@.skip(from as int);
            assert(tail[0] == ids@[from as int]);
            assert(tail.drop_first() =~= ids@.skip(from as int + 1));
            assert(","@ =~= seq![',']);
            assert(s@ =~= spec_joined_str(tail));
        }
    } else {
        proof {
            let tail = ids@.skip(from as int);
            assert(tail.len() == 1);
            assert(tail[0] == ids@[from as int]);
        }
    }
    s
}

/// Renders a member list in its stored comma-separated form.
pub fn encode_joined(ids: &Vec<u64>) -> (r: String)
    ensures
        r@ == spec_joined_str(ids@),
{
    if ids.len() == 0 {
        let r = String::new();
        proof {
            assert(r@ =~= spec_joined_str(ids@));
        }
        r
    } else {
        let r = encode_joined_from(ids, 0);
        proof {
            assert(ids@.skip(0) =~= ids@);
        }
        r
    }
}

/// Reads the stored comma-separated form back into a member list. Returns
/// `Some(ids)` exactly when `s` is the stored form of the nonempty list
/// `ids`.
pub fn parse_joined(s: &str) -> (r: Option<Vec<u64>>)
    ensures
        match r {
            Some(ids) => ids@.len() >= 1 && s@ == spec_joined_str(ids@),
            None => forall|ids: Seq<u64>| ids.len() >= 1 ==> s@ != spec_joined_str(ids),
        },
    decreases s@.len(),
{
    let len = s.unicode_len();
    let mut i: usize = 0;
    let mut comma: usize = len;
    let mut found = false;
    while i < len
        invariant_except_break
            !found,
            comma == len,
        invariant
            i <= len,
            len == s@.len(),
            forall|j: int| 0 <= j < i ==> s@[j] != ',',
            found ==> comma == i && i < len && s@[comma as int] == ',',
        ensures
            found ==> comma < len && s@[comma as int] == ',' && forall|j: int|
                0 <= j < comma ==> s@[j] != ',',
            !found ==> forall|j: int| 0 <= j < len ==> s@[j] != ',',
        decreases len - i,
    {
        if s.get_char(i) == ',' {
            comma = i;
            found = true;
            break;
        }
        i += 1;
    }
    if !found {
        match parse_u64(s) {
            Some(n) => {
                let mut ids: Vec<u64> = Vec::new();
                ids.push(n);
                proof {
                    assert(ids@.len() == 1);
                    assert(spec_joined_str(ids@) == spec_u64_dec(n as nat));
                }
                Some(ids)
            },
            None => {
                proof {
                    assert forall|ids: Seq<u64>| ids.len() >= 1 implies s@ != spec_joined_str(
                        ids,
                    ) by {
                        if s@ == spec_joined_str(ids) {
                            if ids.len() == 1 {
                                assert(s@ == spec_u64_dec(ids[0] as nat));
                                assert(s@ != spec_u64_dec(ids[0] as nat));
                                assert(false);
                            } else {
                                lemma_dec_canonical(ids[0] as nat);
                                let d = spec_u64_dec(ids[0] as nat);
                                let mid = d + seq![','];
                                let rest = spec_joined_str(ids.drop_first());
                                assert(s@ == mid + rest);
                                assert(d.len() < s@.len());
                                assert(mid[d.len() as int] == ',');
                                assert(s@[d.len() as int] == mid[d.len() as int]);
                                assert(s@[d.len() as int] != ',');
                                assert(false);
                            }
                        }
                    }
                }
                None
            },
        }
    } else {
        let seg = s.substring_char(0, comma);
        let rest = s.substring_char(comma + 1, len);
        proof {
            assert(seg@ =~= s@.take(comma as int));
            assert(rest@ =~= s@.skip(comma as int + 1));
        }
        let head = parse_u64(seg);
        let tail = parse_joined(rest);
        match (head, tail) {
            (Some(n), Some(mut ids)) => {
                let ghost tail_view = ids@;
                ids.insert(0, n);
                proof {
                    let c = comma as int;
                    assert(s@ =~= s@.take(c) + seq![','] + s@.skip(c + 1));
                    assert(ids@.drop_first() =~= tail_view);
                    assert(ids@[0] == n);
                    assert(spec_joined_str(ids@) == spec_u64_dec(n as nat) + seq![',']
                        + spec_joined_str(tail_view));
                }
                Some(ids)
            },
            _ => {
                proof {
                    assert forall|ids: Seq<u64>| ids.len() >= 1 implies s@ != spec_joined_str(
                        ids,
                    ) by {
                        if s@ == spec_joined_str(ids) {
                            lemma_dec_canonical(ids[0] as nat);
                            let d = spec_u64_dec(ids[0] as nat);
                            if ids.len() == 1 {
                                assert(s@[comma as int] == ',');
                                assert(spec_is_digit(s@[comma as int]));
                            } else {
                                lemma_first_comma(s@, d, spec_joined_str(ids.drop_first()),
                                    comma as int);
                                assert(seg@ == d);
                                assert(rest@ =~= spec_joined_str(ids.drop_first()));
                            }
                        }
                    }
                }
                None
            },
        }
    }
}

/// In a string of the shape `digits + "," + rest`, a first comma at position
/// `c` must sit exactly at the end of the digit block.
pub proof fn lemma_first_comma(s: Seq<char>, d: Seq<char>, rest: Seq<char>, c: int)
    requires
        s == d + seq![','] + rest,
        forall|i: int| 0 <= i < d.len() ==> spec_is_digit(#[trigger] d[i]),
        0 <= c < s.len(),
        s[c] == ',',
        forall|j: int| 0 <= j < c ==> s[j] != ',',
    ensures
        c == d.len(),
        s.take(c) == d,
        s.skip(c + 1) == rest,
{
    if c < d.len() {
        assert(s[c] == d[c]);
        assert(spec_is_digit(d[c]));
        assert(false);
    }
    if c > d.len() {
        assert(s[d.len() as int] == ',');
        assert(false);
    }
    assert(s.take(c) =~= d);
    assert(s.skip(c + 1) =~= rest);
}

/// A user mention of the chat platform: `<@` + the decimal id + `>`.
pub open spec fn spec_mention(id: u64) -> Seq<char> {
    "<@"@ + spec_u64_dec(id as nat) + ">"@
}

/// Renders the platform mention of one user.
pub fn format_mention(id: u64) -> (r: String)
    ensures
        r@ == spec_mention(id),
{
    let mut s = String::from_str("<@");
    let digits = u64_to_string(id);
    s.append(digits.as_str());
    s.append(">");
    s
}

/// The mentions of every listed user, joined by `sep`, in list order.
pub open spec fn spec_mention_list(ids: Seq<u64>, sep: Seq<char>) -> Seq<char>
    decreases ids.len(),
{
    if ids.len() == 0 {
        Seq::empty()
    } else if ids.len() == 1 {
        spec_mention(ids[0])
    } else {
        spec_mention(ids[0]) + sep + spec_mention_list(ids.drop_first(), sep)
    }
}

fn mention_list_from(ids: &Vec<u64>, sep: &str, from: usize) -> (r: String)
    requires
        from < ids.len(),
    ensures
        r@ == spec_mention_list(ids@.skip(from as int), sep@),
    decreases ids.len() - from,
{
    let mut s = format_mention(ids[from]);
    if from + 1 < ids.len() {
        s.append(sep);
        let rest = mention_list_from(ids, sep, from + 1);
        s.append(rest.as_str());
        proof {
            let tail = ids@.skip(from as int);
            assert(tail[0] == ids@[from as int]);
            assert(tail.drop_first() =~= ids@.skip(from as int + 1));
            assert(s@ =~= spec_mention_list(tail, sep@));
        }
    } else {
        proof {
            let tail = ids@.skip(from as int);
            assert(tail.len() == 1);
            assert(tail[0] == ids@[from as int]);
        }
    }
    s
}

/// Renders the mentions of every listed user, joined by `sep`.
pub fn mention_list(ids: &Vec<u64>, sep: &str) -> (r: String)
    ensures
        r@ == spec_mention_list(ids@, sep@),
{
    if ids.len() == 0 {
        let r = String::new();
        proof {
            assert(r@ =~= spec_mention_list(ids@, sep@));
        }
        r
    } else {
        let r = mention_list_from(ids, sep, 0);
        proof {
            assert(ids@.skip(0) =~= ids@);
        }
        r
    }
}

/// The headline of a panel post: `(joined/capacity)`.
pub open spec fn spec_panel_title(joined: nat, capacity: nat) -> Seq<char> {
    "("@ + spec_u64_dec(joined) + "/"@ + spec_u64_dec(capacity) + ")"@
}

/// Renders the `(joined/capacity)` headline of a panel post.
pub fn panel_title(joined: usize, capacity: u8) -> (r: String)
    ensures
        r@ == spec_panel_title(joined as nat, capacity as nat),
{
    let mut s = String::from_str("(");
    let j = u64_to_string(joined as u64);
    s.append(j.as_str());
    s.append("/");
    let c = u64_to_string(capacity as u64);
    s.append(c.as_str());
    s.append(")");
    s
}

/// Renders `n` as its canonical decimal string.
pub fn u64_to_string(n: u64) -> (r: String)
    ensures
        r@ == spec_u64_dec(n as nat),
    decreases n,
{
    if n < 10 {
        String::from_str(digit_str(n))
    } else {
        let mut s = u64_to_string(n / 10);
        s.append(digit_str(n % 10));
        proof {
            assert(s@ =~= spec_u64_dec(n as nat));
        }
        s
    }
}

} // verus!
