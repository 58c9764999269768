//! Naming rules for buckets.
use vstd::prelude::*;
use crate::text::{
    chars_of, decimal, decimal_string, has_prefix, has_substring, has_suffix, is_digit_char,
    is_lower_char,
};

verus! {

/// The rules a bucket name is checked against, in the order they are checked.
#[derive(Clone, Copy, Debug, PartialEq, Eq, Structural)]
pub enum NameRule {
    /// Between 3 and 63 characters.
    Length,
    /// Only lowercase letters, digits, `.` and `-`.
    Charset,
    /// Starts with a letter or digit.
    Start,
    /// Ends with a letter or digit.
    End,
    /// No `..`.
    AdjacentPeriods,
    /// Not four dot-separated decimal octets.
    IpAddress,
    /// Does not start with `xn--`.
    XnPrefix,
    /// Does not end with `-s3alias`.
    AliasSuffix,
}

pub open spec fn is_name_char(c: char) -> bool {
    is_lower_char(c) || is_digit_char(c) || c == '.' || c == '-'
}

pub open spec fn is_alnum_char(c: char) -> bool {
    is_lower_char(c) || is_digit_char(c)
}

pub open spec fn digit_value(c: char) -> nat {
    if c == '0' { 0 } else if c == '1' { 1 } else if c == '2' { 2 } else if c == '3' { 3 }
    else if c == '4' { 4 } else if c == '5' { 5 } else if c == '6' { 6 } else if c == '7' { 7 }
    else if c == '8' { 8 } else { 9 }
}

/// The number that a string of digits denotes.
pub open spec fn digits_value(s: Seq<char>) -> nat
    decreases s.len(),
{
    if s.len() == 0 {
        0
    } else {
        digits_value(s.drop_last()) * 10 + digit_value(s.last())
    }
}

/// Non-empty, all digits, and at most 255: what parses as a `u8`.
pub open spec fn is_octet(s: Seq<char>) -> bool {
    &&& s.len() > 0
    &&& forall|i: int| 0 <= i < s.len() ==> is_digit_char(#[trigger] s[i])
    &&& digits_value(s) <= 255
}

/// The pieces of `s` between the periods (one more than there are periods).
pub open spec fn segments(s: Seq<char>) -> Seq<Seq<char>>
    decreases s.len(),
{
    if s.len() == 0 {
        seq![Seq::empty()]
    } else {
        let r = segments(s.drop_last());
        if s.last() == '.' {
            r.push(Seq::empty())
        } else {
            r.update(r.len() - 1, r.last().push(s.last()))
        }
    }
}

/// Four octets joined by periods, as an IPv4 address is written.
pub open spec fn is_ipv4_shaped(s: Seq<char>) -> bool {
    &&& segments(s).len() == 4
    &&& forall|j: int| 0 <= j < 4 ==> is_octet(#[trigger] segments(s)[j])
}

/// The first rule that `s` breaks, if any.
pub open spec fn first_violation(s: Seq<char>) -> Option<NameRule> {
    if s.len() < 3 || s.len() > 63 {
        Some(NameRule::Length)
    } else if exists|i: int| 0 <= i < s.len() && !is_name_char(#[trigger] s[i]) {
        Some(NameRule::Charset)
    } else if !is_alnum_char(s[0]) {
        Some(NameRule::Start)
    } else if !is_alnum_char(s.last()) {
        Some(NameRule::End)
    } else if has_substring(s, seq!['.', '.']) {
        Some(NameRule::AdjacentPeriods)
    } else if is_ipv4_shaped(s) {
        Some(NameRule::IpAddress)
    } else if has_prefix(s, seq!['x', 'n', '-', '-']) {
        Some(NameRule::XnPrefix)
    } else if has_suffix(s, seq!['-', 's', '3', 'a', 'l', 'i', 'a', 's']) {
        Some(NameRule::AliasSuffix)
    } else {
        None
    }
}

/// A valid bucket name breaks none of the rules.
pub open spec fn is_valid_bucket_name(s: Seq<char>) -> bool {
    first_violation(s) is None
}

/// The message that reports `rule` for a name of `len` characters.
pub open spec fn rule_message(rule: NameRule, len: nat) -> Seq<char> {
    match rule {
        NameRule::Length => "Bucket name must be between 3 and 63 characters long. Got "@ + decimal(len)
            + " characters."@,
        NameRule::Charset => "Bucket name can only contain lowercase letters, numbers, periods (.), and hyphens (-)"@,
        NameRule::Start => "Bucket name must begin with a letter or number"@,
        NameRule::End => "Bucket name must end with a letter or number"@,
        NameRule::AdjacentPeriods => "Bucket name must not contain two adjacent periods"@,
        NameRule::IpAddress => "Bucket name must not be formatted as an IP address"@,
        NameRule::XnPrefix => "Bucket name must not start with the prefix 'xn--'"@,
        NameRule::AliasSuffix => "Bucket name must not end with the suffix '-s3alias'"@,
    }
}

impl NameRule {
    /// The message that reports this rule for a name of `len` characters.
    pub fn message(&self, len: usize) -> (r: String)
        ensures
            r@ == rule_message(*self, len as nat),
    {
        match self {
            NameRule::Length => {
                let mut m = String::from_str("Bucket name must be between 3 and 63 characters long. Got ");
                m.append(decimal_string(len).as_str());
                m.append(" characters.");
                m
            },
            NameRule::Charset => String::from_str(
                "Bucket name can only contain lowercase letters, numbers, periods (.), and hyphens (-)",
            ),
            NameRule::Start => String::from_str("Bucket name must begin with a letter or number"),
            NameRule::End => String::from_str("Bucket name must end with a letter or number"),
            NameRule::AdjacentPeriods => String::from_str("Bucket name must not contain two adjacent periods"),
            NameRule::IpAddress => String::from_str("Bucket name must not be formatted as an IP address"),
            NameRule::XnPrefix => String::from_str("Bucket name must not start with the prefix 'xn--'"),
            NameRule::AliasSuffix => String::from_str("Bucket name must not end with the suffix '-s3alias'"),
        }
    }
}

fn is_lower(c: char) -> (r: bool)
    ensures
        r == is_lower_char(c),
{
    'a' <= c && c <= 'z'
}

fn is_digit(c: char) -> (r: bool)
    ensures
        r == is_digit_char(c),
{
    '0' <= c && c <= '9'
}

fn digit_of(c: char) -> (r: u32)
    ensures
        r as nat == digit_value(c),
{
    if c == '0' { 0 } else if c == '1' { 1 } else if c == '2' { 2 } else if c == '3' { 3 }
    else if c == '4' { 4 } else if c == '5' { 5 } else if c == '6' { 6 } else if c == '7' { 7 }
    else if c == '8' { 8 } else { 9 }
}

proof fn lemma_segments_nonempty(s: Seq<char>)
    ensures
        segments(s).len() >= 1,
    decreases s.len(),
{
    if s.len() > 0 {
        lemma_segments_nonempty(s.drop_last());
    }
}

/// Whether the characters form an IPv4-shaped name.
fn ipv4_shaped(s: &Vec<char>) -> (r: bool)
    requires
        s@.len() <= 63,
    ensures
        r == is_ipv4_shaped(s@),
{
    let n = s.len();
    let mut dots: usize = 0;
    let mut done_ok = true;
    let mut cur_len: usize = 0;
    let mut cur_digits = true;
    let mut cur_val: u32 = 0;
    let mut i: usize = 0;
    proof {
        assert(s@.subrange(0, 0) =~= Seq::<char>::empty());
    }
    while i < n
        invariant
            n == s@.len(),
            n <= 63,
            i <= n,
            dots <= i,
            cur_len <= i,
            segments(s@.subrange(0, i as int)).len() == dots + 1,
            done_ok == (forall|j: int|
                0 <= j < dots ==> is_octet(#[trigger] segments(s@.subrange(0, i as int))[j])),
            cur_len == segments(s@.subrange(0, i as int)).last().len(),
            cur_digits == (forall|k: int|
                0 <= k < cur_len ==> is_digit_char(
                    #[trigger] segments(s@.subrange(0, i as int)).last()[k],
                )),
            cur_val <= 256,
            cur_val as nat == if digits_value(segments(s@.subrange(0, i as int)).last()) < 256 {
                digits_value(segments(s@.subrange(0, i as int)).last())
            } else {
                256
            },
        decreases n - i,
    {
        let ghost pre = s@.subrange(0, i as int);
        let ghost next = s@.subrange(0, i + 1);
        let ghost old_segs = segments(pre);
        proof {
            assert(next.drop_last() =~= pre);
            assert(next.last() == s@[i as int]);
            lemma_segments_nonempty(pre);
        }
        let c = s[i];
        if c == '.' {
            let last_ok = cur_len > 0 && cur_digits && cur_val <= 255;
            let ghost new_done = done_ok && last_ok;
            proof {
                assert(segments(next) == old_segs.push(Seq::empty()));
                assert(last_ok == is_octet(old_segs.last()));
                assert forall|j: int| 0 <= j < dots + 1 implies #[trigger] segments(next)[j]
                    == old_segs[j] by {}
                if new_done {
                    assert forall|j: int| 0 <= j < dots + 1 implies is_octet(
                        #[trigger] segments(next)[j],
                    ) by {
                        if j < dots {
                            assert(is_octet(old_segs[j]));
                        }
                    }
                }
                if forall|j: int| 0 <= j < dots + 1 ==> is_octet(#[trigger] segments(next)[j]) {
                    assert(is_octet(segments(next)[dots as int]));
                    assert forall|j: int| 0 <= j < dots implies is_octet(#[trigger] old_segs[j]) by {
                        assert(is_octet(segments(next)[j]));
                    }
                }
            }
            done_ok = done_ok && last_ok;
            dots = dots + 1;
            cur_len = 0;
            cur_digits = true;
            cur_val = 0;
            proof {
                assert(segments(next).last() =~= Seq::<char>::empty());
            }
        } else {
            let d = digit_of(c);
            let ghost seg = old_segs.last();
            let ghost nseg = seg.push(c);
            proof {
                assert(segments(next) == old_segs.update(old_segs.len() - 1, nseg));
                assert(nseg.drop_last() =~= seg);
                assert(digits_value(nseg) == digits_value(seg) * 10 + digit_value(c));
                assert forall|j: int| 0 <= j < dots implies #[trigger] segments(next)[j]
                    == old_segs[j] by {}
                if done_ok {
                    assert forall|j: int| 0 <= j < dots implies is_octet(
                        #[trigger] segments(next)[j],
                    ) by {
                        assert(is_octet(old_segs[j]));
                    }
                }
                if forall|j: int| 0 <= j < dots ==> is_octet(#[trigger] segments(next)[j]) {
                    assert forall|j: int| 0 <= j < dots implies is_octet(#[trigger] old_segs[j]) by {
                        assert(is_octet(segments(next)[j]));
                    }
                }
                assert(forall|k: int| 0 <= k < cur_len ==> nseg[k] == seg[k]);
                assert(nseg[cur_len as int] == c);
                assert(segments(next).last() == nseg);
                let nd = cur_digits && is_digit_char(c);
                if nd {
                    assert forall|k: int| 0 <= k < cur_len + 1 implies is_digit_char(
                        #[trigger] nseg[k],
                    ) by {
                        if k < cur_len {
                            assert(is_digit_char(seg[k]));
                        }
                    }
                }
                if forall|k: int| 0 <= k < cur_len + 1 ==> is_digit_char(#[trigger] nseg[k]) {
                    assert(is_digit_char(nseg[cur_len as int]));
                    assert forall|k: int| 0 <= k < cur_len implies is_digit_char(#[trigger] seg[k]) by {
                        assert(is_digit_char(nseg[k]));
                    }
                }
                if digits_value(seg) >= 256 {
                    assert(digits_value(seg) * 10 >= 256) by (nonlinear_arith)
                        requires digits_value(seg) >= 256;
                }
            }
            cur_digits = cur_digits && is_digit(c);
            cur_len = cur_len + 1;
            if cur_val < 256 {
                let v = cur_val * 10 + d;
                cur_val = if v < 256 { v } else { 256 };
            }
        }
        i = i + 1;
    }
    proof {
        assert(s@.subrange(0, n as int) =~= s@);
        lemma_segments_nonempty(s@);
    }
    let last_ok = cur_len > 0 && cur_digits && cur_val <= 255;
    proof {
        let segs = segments(s@);
        assert(last_ok == is_octet(segs.last()));
        if dots == 3 && done_ok && last_ok {
            assert forall|j: int| 0 <= j < 4 implies is_octet(#[trigger] segs[j]) by {
                if j < 3 {
                } else {
                    assert(segs[j] == segs.last());
                }
            }
        }
        if is_ipv4_shaped(s@) {
            assert(is_octet(segs[3]));
            assert(segs[3] == segs.last());
            assert forall|j: int| 0 <= j < dots implies is_octet(#[trigger] segs[j]) by {
                assert(is_octet(segs[j]));
            }
        }
    }
    dots == 3 && done_ok && last_ok
}

/// The first rule that `name` breaks, if any.
#[verifier::loop_isolation(false)]
pub fn first_violated_rule(name: &str) -> (r: Option<NameRule>)
    ensures
        r == first_violation(name@),
{
    let n = name.unicode_len();
    if n < 3 || n > 63 {
        return Some(NameRule::Length);
    }
    let s = chars_of(name);
    let mut i: usize = 0;
    while i < n
        invariant
            s@ == name@,
            n == s@.len(),
            i <= n,
            forall|k: int| 0 <= k < i ==> is_name_char(#[trigger] s@[k]),
        decreases n - i,
    {
        let c = s[i];
        if !(is_lower(c) || is_digit(c) || c == '.' || c == '-') {
            assert(!is_name_char(name@[i as int]));
            assert(exists|k: int| 0 <= k < name@.len() && !is_name_char(#[trigger] name@[k]));
            return Some(NameRule::Charset);
        }
        i = i + 1;
    }
    let first = s[0];
    let last = s[n - 1];
    if !(is_lower(first) || is_digit(first)) {
        return Some(NameRule::Start);
    }
    if !(is_lower(last) || is_digit(last)) {
        return Some(NameRule::End);
    }
    assert(!(exists|k: int| 0 <= k < name@.len() && !is_name_char(#[trigger] name@[k])));
    let mut j: usize = 0;
    while j + 1 < n
        invariant
            s@ == name@,
            n == s@.len(),
            n >= 3,
            j + 1 <= n,
            forall|k: int| 0 <= k < j ==> !(#[trigger] s@[k] == '.' && s@[k + 1] == '.'),
        decreases n - j,
    {
        if s[j] == '.' && s[j + 1] == '.' {
            assert(s@.subrange(j as int, j + 2) =~= seq!['.', '.']);
            assert(crate::text::occurs_at(s@, seq!['.', '.'], j as int));
            return Some(NameRule::AdjacentPeriods);
        }
        j = j + 1;
    }
    assert(!has_substring(s@, seq!['.', '.'])) by {
        if exists|k: int| crate::text::occurs_at(s@, seq!['.', '.'], k) {
            let k = choose|k: int| crate::text::occurs_at(s@, seq!['.', '.'], k);
            assert(s@.subrange(k, k + 2)[0] == s@[k]);
            assert(s@.subrange(k, k + 2)[1] == s@[k + 1]);
        }
    }
    if ipv4_shaped(&s) {
        return Some(NameRule::IpAddress);
    }
    if s[0] == 'x' && s[1] == 'n' && s[2] == '-' && s[3] == '-' {
        assert(s@.subrange(0, 4) =~= seq!['x', 'n', '-', '-']);
        return Some(NameRule::XnPrefix);
    }
    assert(!has_prefix(s@, seq!['x', 'n', '-', '-'])) by {
        if has_prefix(s@, seq!['x', 'n', '-', '-']) {
            assert(s@.subrange(0, 4)[0] == s@[0]);
            assert(s@.subrange(0, 4)[1] == s@[1]);
            assert(s@.subrange(0, 4)[2] == s@[2]);
            assert(s@.subrange(0, 4)[3] == s@[3]);
        }
    }
    let suffix = ['-', 's', '3', 'a', 'l', 'i', 'a', 's'];
    let ghost suf = seq!['-', 's', '3', 'a', 'l', 'i', 'a', 's'];
    if n >= 8 {
        let base = n - 8;
        let mut k: usize = 0;
        let mut same = true;
        while k < 8
            invariant
                s@ == name@,
                n == s@.len(),
                base + 8 == n,
                k <= 8,
                suffix@ == suf,
                same == (forall|t: int| 0 <= t < k ==> s@[base + t] == suf[t]),
            decreases 8 - k,
        {
            same = same && s[base + k] == suffix[k];
            k = k + 1;
        }
        proof {
            if same {
                assert(s@.subrange(base as int, n as int) =~= suf);
            } else {
                if has_suffix(s@, suf) {
                    assert forall|t: int| 0 <= t < 8 implies s@[base + t] == suf[t] by {
                        assert(s@.subrange(base as int, n as int)[t] == s@[base + t]);
                    }
                }
            }
        }
        if same {
            return Some(NameRule::AliasSuffix);
        }
    }
    None
}

} // verus!
