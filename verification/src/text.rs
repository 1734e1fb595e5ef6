//! Verified text utilities: substring and prefix search, decimal rendering
//! and parsing, and case-insensitive name comparison (the one operation that
//! leans on the standard library's Unicode case folding).

use vstd::prelude::*;

verus! {

/// What `str::to_lowercase` returns; the result depends on the characters
/// alone.
pub uninterp spec fn lower_of(s: Seq<char>) -> Seq<char>;

/// Relies on `str::to_lowercase`: Unicode lowercasing, a pure function of
/// the characters.
#[verifier::external_body]
pub(crate) fn lowercase(s: &str) -> (r: String)
    ensures
        r@ == lower_of(s@),
{
    s.to_lowercase()
}

/// Whether two channel names are the same under case-insensitive comparison,
/// the rule the cleanup scheduler resolves channels by.
pub fn channel_name_matches(a: &str, b: &str) -> (r: bool)
    ensures
        r == (lower_of(a@) == lower_of(b@)),
{
    let la = lowercase(a);
    let lb = lowercase(b);
    la == lb
}

/// Whether `p` occurs as a contiguous run inside `s`.
pub open spec fn contains_seq(s: Seq<char>, p: Seq<char>) -> bool {
    exists|i: int| 0 <= i <= s.len() - p.len() && #[trigger] s.subrange(i, i + p.len()) == p
}

/// Whether `p` is a prefix of `s`.
pub open spec fn has_prefix(s: Seq<char>, p: Seq<char>) -> bool {
    p.len() <= s.len() && s.subrange(0, p.len() as int) == p
}

/// Substring search: whether the pattern occurs anywhere in the haystack.
pub fn contains_str(s: &str, p: &str) -> (r: bool)
    ensures
        r == contains_seq(s@, p@),
{
    let n = s.unicode_len();
    let m = p.unicode_len();
    if m > n {
        proof {
            assert(!contains_seq(s@, p@));
        }
        return false;
    }
    if m == 0 {
        proof {
            assert(s@.subrange(0, 0 + p@.len() as int) =~= p@);
        }
        return true;
    }
    let mut i: usize = 0;
    while i <= n - m
        invariant
            1 <= m <= n,
            n == s@.len(),
            m == p@.len(),
            i <= n - m + 1,
            forall|k: int| 0 <= k < i ==> #[trigger] s@.subrange(k, k + p@.len()) != p@,
        decreases n - m + 1 - i,
    {
        let mut j: usize = 0;
        let mut matched = true;
        while j < m && matched
            invariant
                m <= n,
                n == s@.len(),
                m == p@.len(),
                i <= n - m,
                j <= m,
                matched ==> forall|l: int| 0 <= l < j ==> s@[i + l] == p@[l],
                !matched ==> s@.subrange(i as int, i + p@.len()) != p@,
            decreases m - j,
        {
            if s.get_char(i + j) != p.get_char(j) {
                matched = false;
                proof {
                    assert(s@.subrange(i as int, i + p@.len())[j as int] != p@[j as int]);
                }
            }
            j += 1;
        }
        if matched {
            proof {
                assert(s@.subrange(i as int, i + p@.len()) =~= p@);
            }
            return true;
        }
        i += 1;
    }
    proof {
        if contains_seq(s@, p@) {
            let k = choose|k: int|
                0 <= k <= s@.len() - p@.len() && #[trigger] s@.subrange(k, k + p@.len()) == p@;
            assert(s@.subrange(k, k + p@.len()) == p@);
        }
    }
    false
}

/// Prefix test: whether `s` starts with `p`.
pub fn starts_with_str(s: &str, p: &str) -> (r: bool)
    ensures
        r == has_prefix(s@, p@),
{
    let n = s.unicode_len();
    let m = p.unicode_len();
    if m > n {
        return false;
    }
    let mut j: usize = 0;
    while j < m
        invariant
            m <= n,
            n == s@.len(),
            m == p@.len(),
            j <= m,
            forall|l: int| 0 <= l < j ==> s@[l] == p@[l],
        decreases m - j,
    {
        if s.get_char(j) != p.get_char(j) {
            proof {
                assert(s@.subrange(0, p@.len() as int)[j as int] != p@[j as int]);
            }
            return false;
        }
        j += 1;
    }
    proof {
        assert(s@.subrange(0, p@.len() as int) =~= p@);
    }
    true
}

/// The character for a single decimal digit.
pub open spec fn digit_char(d: int) -> char {
    if d == 0 {
        '0'
    } else if d == 1 {
        '1'
    } else if d == 2 {
        '2'
    } else if d == 3 {
        '3'
    } else if d == 4 {
        '4'
    } else if d == 5 {
        '5'
    } else if d == 6 {
        '6'
    } else if d == 7 {
        '7'
    } else if d == 8 {
        '8'
    } else {
        '9'
    }
}

/// The decimal rendering of a nonnegative integer, most significant digit
/// first, no leading zeroes (except for zero itself).
pub open spec fn dec_digits(n: nat) -> Seq<char>
    decreases n,
{
    if n < 10 {
        seq![digit_char(n as int)]
    } else {
        dec_digits(n / 10).push(digit_char((n % 10) as int))
    }
}

/// The one-character string for a decimal digit.
fn digit_str(d: u64) -> (r: &'static str)
    requires
        d < 10,
    ensures
        r@ =~= seq![digit_char(d as int)],
{
    proof {
        reveal_strlit("0");
        reveal_strlit("1");
        reveal_strlit("2");
        reveal_strlit("3");
        reveal_strlit("4");
        reveal_strlit("5");
        reveal_strlit("6");
        reveal_strlit("7");
        reveal_strlit("8");
        reveal_strlit("9");
    }
    if d == 0 {
        "0"
    } else if d == 1 {
        "1"
    } else if d == 2 {
        "2"
    } else if d == 3 {
        "3"
    } else if d == 4 {
        "4"
    } else if d == 5 {
        "5"
    } else if d == 6 {
        "6"
    } else if d == 7 {
        "7"
    } else if d == 8 {
        "8"
    } else {
        "9"
    }
}

/// The digit characters of `ds` (least significant digit first) read back
/// most significant digit first.
spec fn lsb_chars(ds: Seq<u64>) -> Seq<char>
    decreases ds.len(),
{
    if ds.len() == 0 {
        Seq::empty()
    } else {
        seq![digit_char(ds.last() as int)] + lsb_chars(ds.drop_last())
    }
}

proof fn lemma_lsb_chars_len(ds: Seq<u64>)
    ensures
        lsb_chars(ds).len() == ds.len(),
    decreases ds.len(),
{
    if ds.len() > 0 {
        lemma_lsb_chars_len(ds.drop_last());
    }
}

proof fn lemma_lsb_chars_index(ds: Seq<u64>, k: int)
    requires
        0 <= k < ds.len(),
    ensures
        lsb_chars(ds)[k] == digit_char(ds[ds.len() - 1 - k] as int),
    decreases ds.len(),
{
    lemma_lsb_chars_len(ds);
    if k > 0 {
        lemma_lsb_chars_len(ds.drop_last());
        lemma_lsb_chars_index(ds.drop_last(), k - 1);
    }
}

/// Render a number in decimal.
pub fn u64_to_dec(n: u64) -> (s: String)
    ensures
        s@ == dec_digits(n as nat),
{
    let mut ds: Vec<u64> = Vec::new();
    let mut m: u64 = n;
    while m > 0
        invariant
            ds@.len() == 0 && m > 0 ==> m == n,
            ds@.len() > 0 && m > 0 ==> dec_digits(n as nat) =~= dec_digits(m as nat) + lsb_chars(
                ds@,
            ),
            m == 0 && n > 0 ==> ds@.len() > 0 && dec_digits(n as nat) =~= lsb_chars(ds@),
            n == 0 ==> ds@.len() == 0 && m == 0,
            forall|k: int| 0 <= k < ds@.len() ==> #[trigger] ds@[k] < 10,
        decreases m,
    {
        let d = m % 10;
        let next = m / 10;
        proof {
            let ghost dsp = ds@.push(d);
            assert(dsp.drop_last() =~= ds@);
            assert(dsp.last() == d);
            assert(lsb_chars(dsp) =~= seq![digit_char(d as int)] + lsb_chars(ds@));
            if m >= 10 {
                assert(dec_digits(m as nat) == dec_digits((m as nat) / 10).push(
                    digit_char(((m as nat) % 10) as int),
                ));
                assert(dec_digits((m as nat) / 10).push(digit_char(d as int)) + lsb_chars(ds@)
                    =~= dec_digits((m as nat) / 10) + lsb_chars(dsp));
            } else {
                assert(dec_digits(m as nat) =~= seq![digit_char(d as int)]);
            }
        }
        ds.push(d);
        m = next;
    }
    if n == 0 {
        proof {
            reveal_strlit("0");
            assert(dec_digits(0) =~= "0"@);
        }
        return String::from_str("0");
    }
    let len = ds.len();
    let mut s = String::new();
    let mut i: usize = len;
    proof {
        lemma_lsb_chars_len(ds@);
        assert forall|k: int| 0 <= k < ds@.len() implies #[trigger] lsb_chars(ds@)[k] == digit_char(
            ds@[ds@.len() - 1 - k] as int,
        ) by {
            lemma_lsb_chars_index(ds@, k);
        }
        assert(s@ =~= lsb_chars(ds@).subrange(0, 0));
    }
    while i > 0
        invariant
            i <= len,
            len == ds@.len(),
            lsb_chars(ds@).len() == ds@.len(),
            forall|k: int| 0 <= k < ds@.len() ==> #[trigger] lsb_chars(ds@)[k] == digit_char(
                ds@[ds@.len() - 1 - k] as int,
            ),
            forall|k: int| 0 <= k < ds@.len() ==> #[trigger] ds@[k] < 10,
            s@ =~= lsb_chars(ds@).subrange(0, len - i),
            dec_digits(n as nat) =~= lsb_chars(ds@),
        decreases i,
    {
        i -= 1;
        s.append(digit_str(ds[i]));
        proof {
            assert(s@ =~= lsb_chars(ds@).subrange(0, len - i));
        }
    }
    proof {
        assert(lsb_chars(ds@).subrange(0, len as int) =~= lsb_chars(ds@));
    }
    s
}

/// Whether a character is a decimal digit.
pub open spec fn is_digit(c: char) -> bool {
    48 <= c as int <= 57
}

/// The value of a decimal digit character.
pub open spec fn digit_val(c: char) -> int {
    c as int - 48
}

/// Whether every character is a decimal digit.
pub open spec fn all_digits(s: Seq<char>) -> bool {
    forall|i: int| 0 <= i < s.len() ==> is_digit(#[trigger] s[i])
}

/// The numeric value of a digit string, most significant digit first.
pub open spec fn dec_value(s: Seq<char>) -> int
    decreases s.len(),
{
    if s.len() == 0 {
        0
    } else {
        dec_value(s.drop_last()) * 10 + digit_val(s.last())
    }
}

proof fn lemma_dec_value_nonneg(s: Seq<char>)
    requires
        all_digits(s),
    ensures
        dec_value(s) >= 0,
    decreases s.len(),
{
    if s.len() > 0 {
        assert(all_digits(s.drop_last())) by {
            assert(forall|i: int| 0 <= i < s.len() - 1 ==> s.drop_last()[i] == s[i]);
        }
        lemma_dec_value_nonneg(s.drop_last());
    }
}

/// Extending a digit string never lowers its value.
proof fn lemma_dec_value_prefix_le(s: Seq<char>, k: int)
    requires
        all_digits(s),
        0 <= k <= s.len(),
    ensures
        dec_value(s.subrange(0, k)) <= dec_value(s),
    decreases s.len() - k,
{
    if k == s.len() {
        assert(s.subrange(0, k) =~= s);
    } else {
        let t = s.subrange(0, k + 1);
        assert(t.drop_last() =~= s.subrange(0, k));
        assert(all_digits(t)) by {
            assert(forall|i: int| 0 <= i < t.len() ==> t[i] == s[i]);
        }
        lemma_dec_value_nonneg(t.drop_last());
        assert(dec_value(t.drop_last()) * 10 >= dec_value(t.drop_last())) by (nonlinear_arith)
            requires
                dec_value(t.drop_last()) >= 0,
        ;
        assert(dec_value(s.subrange(0, k)) <= dec_value(t));
        lemma_dec_value_prefix_le(s, k + 1);
    }
}

/// The digit string a `u64` parse reads: everything after one optional
/// leading plus sign.
pub open spec fn parse_body(s: Seq<char>) -> Seq<char> {
    if s.len() > 0 && s[0] == '+' {
        s.skip(1)
    } else {
        s
    }
}

/// Parse an unsigned decimal integer the way the standard library does:
/// an optional leading `+`, then one or more digits, rejecting overflow.
pub fn parse_u64(s: &str) -> (r: Option<u64>)
    ensures
        r is Some <==> parse_body(s@).len() > 0 && all_digits(parse_body(s@)) && dec_value(
            parse_body(s@),
        ) <= u64::MAX,
        r matches Some(v) ==> v == dec_value(parse_body(s@)),
{
    let n = s.unicode_len();
    let start: usize = if n > 0 && s.get_char(0) == '+' {
        1
    } else {
        0
    };
    proof {
        assert(parse_body(s@) =~= s@.subrange(start as int, n as int));
    }
    let ghost body = parse_body(s@);
    if n == start {
        return None;
    }
    let mut acc: u64 = 0;
    let mut i: usize = start;
    proof {
        assert(body.subrange(0, 0) =~= Seq::<char>::empty());
    }
    while i < n
        invariant
            start <= i <= n,
            n == s@.len(),
            body == parse_body(s@),
            body =~= s@.subrange(start as int, n as int),
            all_digits(body.subrange(0, i - start)),
            acc == dec_value(body.subrange(0, i - start)),
        decreases n - i,
    {
        let c = s.get_char(i);
        let cv = c as u32;
        proof {
            assert(body[i - start] == c);
            assert(c as int == cv as int);
        }
        if cv < 48 || cv > 57 {
            proof {
                assert(!is_digit(c));
                assert(!all_digits(body));
            }
            return None;
        }
        let d: u64 = (cv - 48) as u64;
        proof {
            assert(is_digit(c));
            assert(digit_val(c) == d as int);
            let pre = body.subrange(0, i - start);
            let post = body.subrange(0, i + 1 - start);
            assert(post.drop_last() =~= pre);
            assert(post.last() == body[i - start]);
            assert(dec_value(post) == acc * 10 + d);
            assert(all_digits(post)) by {
                assert(forall|k: int| 0 <= k < post.len() - 1 ==> post[k] == pre[k]);
            }
            vstd::arithmetic::div_mod::lemma_fundamental_div_mod((u64::MAX - d) as int, 10);
        }
        if acc > (u64::MAX - d) / 10 {
            proof {
                let post = body.subrange(0, i + 1 - start);
                assert(acc * 10 + d > u64::MAX);
                assert(dec_value(post) > u64::MAX);
                if all_digits(body) {
                    lemma_dec_value_prefix_le(body, i + 1 - start);
                    assert(dec_value(body) > u64::MAX);
                }
            }
            return None;
        }
        proof {
            assert(acc * 10 + d <= u64::MAX);
        }
        acc = acc * 10 + d;
        i += 1;
    }
    proof {
        assert(body.subrange(0, n - start) =~= body);
    }
    Some(acc)
}

} // verus!
