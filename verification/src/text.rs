//! Character-level text helpers: decimal parsing and rendering, whitespace
//! trimming, and leading-token matching.
//!
//! The chat protocol is plain text, so every command handler starts from one
//! of these: the dispatcher matches the leading token of a message, `join`
//! parses a follow-up reply as a channel identifier, `play` trims the URL it
//! was given, and the replies embed channel identifiers rendered in decimal.

use vstd::prelude::*;

verus! {

// ---------------------------------------------------------------------------
// Decimal digits
// ---------------------------------------------------------------------------

/// `c` is one of the ten ASCII decimal digits.
pub open spec fn is_dec_digit(c: char) -> bool {
    48 <= c as u32 && c as u32 <= 57
}

/// Numeric value of a decimal digit character.
pub open spec fn digit_val(c: char) -> int {
    c as u32 - 48
}

/// Every character of `s` is a decimal digit.
pub open spec fn all_digits(s: Seq<char>) -> bool {
    forall|i: int| 0 <= i < s.len() ==> is_dec_digit(#[trigger] s[i])
}

/// The value of `s` read as a base-ten numeral, most significant digit first.
pub open spec fn digits_val(s: Seq<char>) -> int
    decreases s.len(),
{
    if s.len() == 0 {
        0
    } else {
        digits_val(s.drop_last()) * 10 + digit_val(s.last())
    }
}

proof fn lemma_digits_val_nonneg(s: Seq<char>)
    requires
        all_digits(s),
    ensures
        digits_val(s) >= 0,
    decreases s.len(),
{
    if s.len() > 0 {
        assert(all_digits(s.drop_last()));
        lemma_digits_val_nonneg(s.drop_last());
    }
}

/// Appending digits never decreases the numeral's value: the value of any
/// prefix bounds the value of the whole string from below.
proof fn lemma_digits_val_prefix_le(s: Seq<char>, k: int)
    requires
        all_digits(s),
        0 <= k <= s.len(),
    ensures
        digits_val(s.take(k)) <= digits_val(s),
    decreases s.len() - k,
{
    if k < s.len() {
        assert(s.take(k + 1).drop_last() =~= s.take(k));
        assert(s.take(k + 1).last() == s[k]);
        assert(all_digits(s.take(k)));
        lemma_digits_val_nonneg(s.take(k));
        assert(digits_val(s.take(k + 1)) == digits_val(s.take(k)) * 10 + digit_val(s[k]));
        assert(digits_val(s.take(k)) * 10 >= digits_val(s.take(k)));
        lemma_digits_val_prefix_le(s, k + 1);
    } else {
        assert(s.take(k) =~= s);
    }
}

// ---------------------------------------------------------------------------
// Parsing an unsigned decimal numeral
// ---------------------------------------------------------------------------

/// The inputs on which parsing succeeds, and the value produced: an optional
/// leading `'+'`, then at least one decimal digit, and a value that fits in
/// a `u64`. Anything else is rejected.
pub open spec fn parse_u64_spec(s: Seq<char>) -> Option<u64> {
    let d = if s.len() > 0 && s[0] == '+' {
        s.drop_first()
    } else {
        s
    };
    if d.len() > 0 && all_digits(d) && digits_val(d) <= u64::MAX {
        Some(digits_val(d) as u64)
    } else {
        None
    }
}

/// Parses `s` as an unsigned decimal numeral, exactly as `parse_u64_spec`
/// prescribes: `None` on an empty digit part, a non-digit character, or a
/// value beyond `u64::MAX`.
pub fn parse_u64(s: &str) -> (r: Option<u64>)
    ensures
        r == parse_u64_spec(s@),
{
    let n = s.unicode_len();
    let start: usize = if n > 0 && s.get_char(0) == '+' {
        1
    } else {
        0
    };
    let ghost d = if start == 1 {
        s@.drop_first()
    } else {
        s@
    };
    assert(d.len() == n - start);
    assert(forall|j: int| 0 <= j < d.len() ==> d[j] == s@[j + start]);
    if start == n {
        return None;
    }
    let mut i: usize = start;
    let mut acc: u64 = 0;
    while i < n
        invariant
            start <= i <= n,
            start <= 1,
            n == s@.len(),
            start == 1 ==> (n > 0 && s@[0] == '+' && d == s@.drop_first()),
            start == 0 ==> (d == s@ && !(n > 0 && s@[0] == '+')),
            d.len() == n - start,
            forall|j: int| 0 <= j < d.len() ==> d[j] == s@[j + start],
            all_digits(d.take(i - start)),
            acc == digits_val(d.take(i - start)),
        decreases n - i,
    {
        let c = s.get_char(i);
        let u = c as u32;
        if u < 48 || u > 57 {
            proof {
                assert(d[i - start] == s@[i as int]);
                assert(!is_dec_digit(d[i - start]));
            }
            return None;
        }
        let dv: u64 = (u - 48) as u64;
        proof {
            assert(d[i - start] == s@[i as int]);
            assert(is_dec_digit(d[i - start]));
            assert(d.take(i + 1 - start).drop_last() =~= d.take(i - start));
            assert(d.take(i + 1 - start).last() == d[i - start]);
            assert(digits_val(d.take(i + 1 - start)) == acc * 10 + dv);
            assert(all_digits(d.take(i + 1 - start)));
        }
        if acc > (u64::MAX - dv) / 10 {
            proof {
                let m = u64::MAX as int;
                vstd::arithmetic::div_mod::lemma_fundamental_div_mod(m - dv, 10);
                assert((m - dv) % 10 < 10) by {
                    vstd::arithmetic::div_mod::lemma_mod_bound(m - dv, 10);
                }
                assert(acc * 10 >= ((m - dv) / 10 + 1) * 10) by (nonlinear_arith)
                    requires
                        acc > (m - dv) / 10,
                ;
                assert(acc * 10 + dv > m);
                if all_digits(d) {
                    lemma_digits_val_prefix_le(d, i + 1 - start);
                    assert(digits_val(d) >= digits_val(d.take(i + 1 - start)));
                    assert(digits_val(d) > u64::MAX);
                }
            }
            return None;
        }
        proof {
            let m = u64::MAX as int;
            vstd::arithmetic::div_mod::lemma_fundamental_div_mod(m - dv, 10);
            assert((m - dv) % 10 >= 0) by {
                vstd::arithmetic::div_mod::lemma_mod_bound(m - dv, 10);
            }
            assert(acc * 10 <= ((m - dv) / 10) * 10) by (nonlinear_arith)
                requires
                    acc <= (m - dv) / 10,
            ;
            assert(acc * 10 + dv <= m);
        }
        acc = acc * 10 + dv;
        i = i + 1;
    }
    proof {
        assert(d.take(n - start) =~= d);
    }
    Some(acc)
}

// ---------------------------------------------------------------------------
// Rendering a number in decimal
// ---------------------------------------------------------------------------

/// The decimal digit character for a value below ten.
pub open spec fn digit_char(d: int) -> char {
    if d == 0 {
        '0'
    } else if d == 1 {
        '1'
    } else if d == 2 {
        '2'
    } else if d == 3 {
        '3'
    } else if d == 4 {
        '4'
    } else if d == 5 {
        '5'
    } else if d == 6 {
        '6'
    } else if d == 7 {
        '7'
    } else if d == 8 {
        '8'
    } else {
        '9'
    }
}

/// The base-ten numeral of `n`, most significant digit first, with no sign
/// and no leading zeros (a single `'0'` for zero).
pub open spec fn dec_of(n: nat) -> Seq<char>
    decreases n,
{
    if n < 10 {
        seq![digit_char(n as int)]
    } else {
        dec_of(n / 10).push(digit_char((n % 10) as int))
    }
}

/// The one-character string for a decimal digit value.
fn digit_str(d: u64) -> (r: String)
    requires
        d < 10,
    ensures
        r@ =~= seq![digit_char(d as int)],
{
    let s: &str = if d == 0 {
        "0"
    } else if d == 1 {
        "1"
    } else if d == 2 {
        "2"
    } else if d == 3 {
        "3"
    } else if d == 4 {
        "4"
    } else if d == 5 {
        "5"
    } else if d == 6 {
        "6"
    } else if d == 7 {
        "7"
    } else if d == 8 {
        "8"
    } else {
        "9"
    };
    proof {
        reveal_strlit("0");
        reveal_strlit("1");
        reveal_strlit("2");
        reveal_strlit("3");
        reveal_strlit("4");
        reveal_strlit("5");
        reveal_strlit("6");
        reveal_strlit("7");
        reveal_strlit("8");
        reveal_strlit("9");
    }
    String::from_str(s)
}

/// Renders `n` in decimal, exactly as `dec_of` prescribes.
pub fn u64_to_dec(n: u64) -> (r: String)
    ensures
        r@ == dec_of(n as nat),
    decreases n,
{
    if n < 10 {
        let r = digit_str(n);
        proof {
            assert(r@ =~= dec_of(n as nat));
        }
        r
    } else {
        let mut s = u64_to_dec(n / 10);
        let last = digit_str(n % 10);
        s.append(last.as_str());
        proof {
            assert(s@ =~= dec_of(n as nat));
        }
        s
    }
}

// ---------------------------------------------------------------------------
// Whitespace trimming
// ---------------------------------------------------------------------------

/// Unicode White_Space, the exact set `str::trim` strips: the ASCII
/// whitespace characters, next line, no-break space, ogham space mark, the
/// en-quad..hair-space range, line and paragraph separators, narrow no-break
/// space, medium mathematical space and ideographic space.
pub open spec fn is_space(c: char) -> bool {
    let u = c as u32;
    u == 0x09 || u == 0x0A || u == 0x0B || u == 0x0C || u == 0x0D || u == 0x20 || u == 0x85
        || u == 0xA0 || u == 0x1680 || (0x2000 <= u && u <= 0x200A) || u == 0x2028 || u == 0x2029
        || u == 0x202F || u == 0x205F || u == 0x3000
}

/// How many whitespace characters `s` begins with.
pub open spec fn lead_spaces(s: Seq<char>) -> int
    decreases s.len(),
{
    if s.len() == 0 {
        0
    } else if is_space(s[0]) {
        1 + lead_spaces(s.drop_first())
    } else {
        0
    }
}

/// How many whitespace characters `s` ends with.
pub open spec fn trail_spaces(s: Seq<char>) -> int
    decreases s.len(),
{
    if s.len() == 0 {
        0
    } else if is_space(s.last()) {
        1 + trail_spaces(s.drop_last())
    } else {
        0
    }
}

/// `s` with leading and trailing whitespace removed.
pub open spec fn trim_spec(s: Seq<char>) -> Seq<char> {
    if lead_spaces(s) == s.len() {
        Seq::empty()
    } else {
        s.subrange(lead_spaces(s), s.len() - trail_spaces(s))
    }
}

proof fn lemma_lead_spaces(s: Seq<char>)
    ensures
        0 <= lead_spaces(s) <= s.len(),
        forall|i: int| 0 <= i < lead_spaces(s) ==> is_space(#[trigger] s[i]),
        lead_spaces(s) < s.len() ==> !is_space(s[lead_spaces(s)]),
    decreases s.len(),
{
    if s.len() > 0 && is_space(s[0]) {
        lemma_lead_spaces(s.drop_first());
        assert forall|i: int| 0 <= i < lead_spaces(s) implies is_space(#[trigger] s[i]) by {
            if i > 0 {
                assert(s[i] == s.drop_first()[i - 1]);
            }
        }
        if lead_spaces(s) < s.len() {
            assert(s[lead_spaces(s)] == s.drop_first()[lead_spaces(s) - 1]);
        }
    }
}

proof fn lemma_trail_spaces(s: Seq<char>)
    ensures
        0 <= trail_spaces(s) <= s.len(),
        forall|i: int| s.len() - trail_spaces(s) <= i < s.len() ==> is_space(#[trigger] s[i]),
        trail_spaces(s) < s.len() ==> !is_space(s[s.len() - trail_spaces(s) - 1]),
    decreases s.len(),
{
    if s.len() > 0 && is_space(s.last()) {
        lemma_trail_spaces(s.drop_last());
        assert forall|i: int| s.len() - trail_spaces(s) <= i < s.len() implies is_space(
            #[trigger] s[i],
        ) by {
            if i < s.len() - 1 {
                assert(s[i] == s.drop_last()[i]);
            }
        }
        if trail_spaces(s) < s.len() {
            assert(s[s.len() - trail_spaces(s) - 1] == s.drop_last()[s.len() - trail_spaces(s)
                - 1]);
        }
    }
}

fn is_space_char(c: char) -> (r: bool)
    ensures
        r == is_space(c),
{
    let u = c as u32;
    u == 0x09 || u == 0x0A || u == 0x0B || u == 0x0C || u == 0x0D || u == 0x20 || u == 0x85
        || u == 0xA0 || u == 0x1680 || (0x2000 <= u && u <= 0x200A) || u == 0x2028 || u == 0x2029
        || u == 0x202F || u == 0x205F || u == 0x3000
}

/// Strips leading and trailing whitespace, exactly as `trim_spec` prescribes.
pub fn trim(s: &str) -> (r: &str)
    ensures
        r@ == trim_spec(s@),
{
    proof {
        lemma_lead_spaces(s@);
        lemma_trail_spaces(s@);
    }
    let n = s.unicode_len();
    let mut a: usize = 0;
    while a < n && is_space_char(s.get_char(a))
        invariant
            0 <= a <= n,
            n == s@.len(),
            forall|j: int| 0 <= j < a ==> is_space(#[trigger] s@[j]),
        decreases n - a,
    {
        a = a + 1;
    }
    if a == n {
        proof {
            if lead_spaces(s@) < s@.len() {
                assert(is_space(s@[lead_spaces(s@)]));
                assert(false);
            }
            reveal_strlit("");
            assert(""@ =~= trim_spec(s@));
        }
        return "";
    }
    proof {
        // `a` is the first non-whitespace index, so it equals the lead count.
        if lead_spaces(s@) < a {
            assert(is_space(s@[lead_spaces(s@)]));
            assert(false);
        }
        if lead_spaces(s@) > a {
            assert(is_space(s@[a as int]));
            assert(false);
        }
    }
    let mut b: usize = n;
    while b > a && is_space_char(s.get_char(b - 1))
        invariant
            a <= b <= n,
            n == s@.len(),
            !is_space(s@[a as int]),
            forall|j: int| b <= j < n ==> is_space(#[trigger] s@[j]),
        decreases b,
    {
        b = b - 1;
    }
    proof {
        // The loop cannot pass the non-whitespace character at `a`.
        assert(b > a);
        assert(!is_space(s@[b - 1]));
        // `n - b` trailing characters are whitespace, so it equals the trail count.
        let t = s@.len() - trail_spaces(s@);
        if t < b {
            assert(is_space(s@[b - 1]));
            assert(false);
        }
        if t > b {
            if trail_spaces(s@) == s@.len() {
                assert(is_space(s@[a as int]));
                assert(false);
            }
            assert(is_space(s@[t - 1]));
            assert(false);
        }
    }
    s.substring_char(a, b)
}

// ---------------------------------------------------------------------------
// Leading-token matching
// ---------------------------------------------------------------------------

/// The leading token of `s` — the text up to the first whitespace — is
/// exactly `tok`: the message is `tok` alone, or `tok` followed by a
/// whitespace character and the rest of the message.
pub open spec fn selects(s: Seq<char>, tok: Seq<char>) -> bool {
    &&& s.len() >= tok.len()
    &&& s.take(tok.len() as int) == tok
    &&& (s.len() == tok.len() || is_space(s[tok.len() as int]))
}

/// Decides whether the leading token of `s` is exactly `tok`, as `selects`
/// prescribes.
pub fn selects_token(s: &str, tok: &str) -> (r: bool)
    ensures
        r == selects(s@, tok@),
{
    let sl = s.unicode_len();
    let tl = tok.unicode_len();
    if sl < tl {
        return false;
    }
    let mut i: usize = 0;
    while i < tl
        invariant
            0 <= i <= tl,
            tl <= sl,
            sl == s@.len(),
            tl == tok@.len(),
            forall|j: int| 0 <= j < i ==> s@[j] == tok@[j],
        decreases tl - i,
    {
        if s.get_char(i) != tok.get_char(i) {
            proof {
                if s@.take(tl as int) == tok@ {
                    assert(s@.take(tl as int)[i as int] == s@[i as int]);
                    assert(false);
                }
            }
            return false;
        }
        i = i + 1;
    }
    proof {
        assert(s@.take(tl as int) =~= tok@);
    }
    if sl == tl {
        true
    } else {
        is_space_char(s.get_char(tl))
    }
}

} // verus!
