//! Small verified helpers over strings and characters.

use vstd::prelude::*;

verus! {

/// Compares two string slices character by character.
pub fn str_eq(a: &str, b: &str) -> (r: bool)
    ensures
        r == (a@ == b@),
{
    let alen = a.unicode_len();
    let blen = b.unicode_len();
    if alen != blen {
        assert(a@ != b@) by {
            assert(a@.len() != b@.len());
        }
        return false;
    }
    let mut i: usize = 0;
    while i < alen
        invariant
            alen == a@.len(),
            blen == b@.len(),
            alen == blen,
            i <= alen,
            forall|j: int| 0 <= j < i ==> a@[j] == b@[j],
        decreases alen - i,
    {
        if a.get_char(i) != b.get_char(i) {
            return false;
        }
        i += 1;
    }
    assert(a@ =~= b@);
    true
}

/// Relies on std's `String::push`: appends one character at the end.
#[verifier::external_body]
pub(crate) fn push_char(s: &mut String, c: char)
    ensures
        final(s)@ == old(s)@.push(c),
{
    s.push(c)
}

/// An ASCII capital letter mapped to its small form; everything else kept.
pub open spec fn lower_char(c: char) -> char {
    if 65 <= c as u32 && c as u32 <= 90 {
        ((c as u32 + 32) as u8) as char
    } else {
        c
    }
}

/// An ASCII small letter mapped to its capital form; everything else kept.
pub open spec fn upper_char(c: char) -> char {
    if 97 <= c as u32 && c as u32 <= 122 {
        ((c as u32 - 32) as u8) as char
    } else {
        c
    }
}

/// A string with every ASCII capital letter lowered.
pub open spec fn lower_seq(s: Seq<char>) -> Seq<char> {
    s.map_values(|c: char| lower_char(c))
}

/// A string with every ASCII small letter raised.
pub open spec fn upper_seq(s: Seq<char>) -> Seq<char> {
    s.map_values(|c: char| upper_char(c))
}

/// ASCII-lowercases a string, character by character.
pub fn ascii_lower(s: &str) -> (r: String)
    ensures
        r@ == lower_seq(s@),
{
    let n = s.unicode_len();
    let mut out = String::new();
    let mut i: usize = 0;
    while i < n
        invariant
            n == s@.len(),
            i <= n,
            out@ == lower_seq(s@.take(i as int)),
        decreases n - i,
    {
        let c = s.get_char(i);
        let u = c as u32;
        let lc = if 65 <= u && u <= 90 {
            ((u + 32) as u8) as char
        } else {
            c
        };
        proof {
            assert(lc == lower_char(c));
        }
        push_char(&mut out, lc);
        proof {
            assert(s@.take(i + 1) =~= s@.take(i as int).push(c));
            assert(out@ =~= lower_seq(s@.take(i + 1)));
        }
        i += 1;
    }
    proof {
        assert(s@.take(n as int) =~= s@);
    }
    out
}

/// Concatenation on the left of nothing changes nothing.
pub proof fn lemma_cat_empty(a: Seq<char>)
    ensures
        a + Seq::<char>::empty() == a,
        Seq::<char>::empty() + a == a,
{
    assert(a + Seq::<char>::empty() =~= a);
    assert(Seq::<char>::empty() + a =~= a);
}

/// Regrouping a two-piece concatenation onto a base.
pub proof fn lemma_cat2(base: Seq<char>, a: Seq<char>, b: Seq<char>)
    ensures
        (base + a) + b == base + (a + b),
{
    assert((base + a) + b =~= base + (a + b));
}

/// Regrouping a three-piece concatenation onto a base.
pub proof fn lemma_cat3(base: Seq<char>, a: Seq<char>, b: Seq<char>, c: Seq<char>)
    ensures
        ((base + a) + b) + c == base + (a + b + c),
{
    assert(((base + a) + b) + c =~= base + (a + b + c));
}

/// The characters `trim` strips: ASCII blank, tab, newline, carriage return.
pub open spec fn is_ws_char(c: char) -> bool {
    c == ' ' || c == '\t' || c == '\n' || c == '\r'
}

/// How many leading whitespace characters a string has.
pub open spec fn ws_prefix_len(s: Seq<char>) -> int
    decreases s.len(),
{
    if s.len() > 0 && is_ws_char(s[0]) {
        1 + ws_prefix_len(s.drop_first())
    } else {
        0
    }
}

/// How many trailing whitespace characters a string has.
pub open spec fn ws_suffix_len(s: Seq<char>) -> int
    decreases s.len(),
{
    if s.len() > 0 && is_ws_char(s.last()) {
        1 + ws_suffix_len(s.drop_last())
    } else {
        0
    }
}

/// A string with leading and trailing whitespace stripped.
pub open spec fn trim_spec(s: Seq<char>) -> Seq<char> {
    s.skip(ws_prefix_len(s)).take(s.len() - ws_prefix_len(s) - ws_suffix_len(
        s.skip(ws_prefix_len(s)),
    ))
}

pub proof fn lemma_ws_prefix_at(s: Seq<char>, k: int)
    requires
        0 <= k <= s.len(),
        forall|j: int| 0 <= j < k ==> is_ws_char(s[j]),
        k < s.len() ==> !is_ws_char(s[k]),
    ensures
        ws_prefix_len(s) == k,
    decreases s.len(),
{
    if k > 0 {
        assert(is_ws_char(s[0]));
        assert forall|j: int| 0 <= j < k - 1 implies is_ws_char(s.drop_first()[j]) by {
            assert(is_ws_char(s[j + 1]));
        }
        lemma_ws_prefix_at(s.drop_first(), k - 1);
    }
}

proof fn lemma_ws_suffix_at(s: Seq<char>, k: int)
    requires
        0 <= k <= s.len(),
        forall|j: int| s.len() - k <= j < s.len() ==> is_ws_char(s[j]),
        k < s.len() ==> !is_ws_char(s[s.len() - k - 1]),
    ensures
        ws_suffix_len(s) == k,
    decreases s.len(),
{
    if k > 0 {
        assert(is_ws_char(s.last()));
        assert forall|j: int| s.len() - 1 - (k - 1) <= j < s.len() - 1 implies is_ws_char(
            s.drop_last()[j],
        ) by {
            assert(is_ws_char(s[j]));
        }
        lemma_ws_suffix_at(s.drop_last(), k - 1);
    }
}

/// Whether the character at `i` is whitespace.
pub fn ws_at(s: &str, i: usize) -> (r: bool)
    requires
        i < s@.len(),
    ensures
        r == is_ws_char(s@[i as int]),
{
    let c = s.get_char(i);
    c == ' ' || c == '\t' || c == '\n' || c == '\r'
}

/// Strips leading and trailing whitespace.
pub fn trim(s: &str) -> (r: &str)
    ensures
        r@ == trim_spec(s@),
{
    let len = s.unicode_len();
    let mut start: usize = 0;
    while start < len && ws_at(s, start)
        invariant
            len == s@.len(),
            start <= len,
            forall|j: int| 0 <= j < start ==> is_ws_char(s@[j]),
        decreases len - start,
    {
        start += 1;
    }
    let mut end: usize = len;
    while end > start && ws_at(s, end - 1)
        invariant
            len == s@.len(),
            start <= end <= len,
            forall|j: int| 0 <= j < start ==> is_ws_char(s@[j]),
            forall|j: int| end <= j < len ==> is_ws_char(s@[j]),
            start < len ==> !is_ws_char(s@[start as int]),
        decreases end,
    {
        end -= 1;
    }
    let r = s.substring_char(start, end);
    proof {
        lemma_ws_prefix_at(s@, start as int);
        let t = s@.skip(start as int);
        assert forall|j: int| t.len() - (len - end) <= j < t.len() implies is_ws_char(t[j]) by {
            assert(t[j] == s@[j + start]);
        }
        if end > start {
            assert(!is_ws_char(s@[end - 1]));
            assert(t[end - 1 - start] == s@[end - 1]);
        }
        lemma_ws_suffix_at(t, len - end);
        assert(r@ =~= trim_spec(s@));
    }
    r
}

/// An ASCII decimal digit.
pub open spec fn is_digit_char(c: char) -> bool {
    48 <= c as u32 && c as u32 <= 57
}

/// Whether the character at `i` is a decimal digit.
pub fn digit_at(s: &str, i: usize) -> (r: bool)
    requires
        i < s@.len(),
    ensures
        r == is_digit_char(s@[i as int]),
{
    let u = s.get_char(i) as u32;
    48 <= u && u <= 57
}

/// Whether every character of the string is an ASCII decimal digit.
pub fn all_digits(s: &str) -> (r: bool)
    ensures
        r == forall|i: int| 0 <= i < s@.len() ==> is_digit_char(s@[i]),
{
    let len = s.unicode_len();
    let mut i: usize = 0;
    while i < len
        invariant
            len == s@.len(),
            i <= len,
            forall|j: int| 0 <= j < i ==> is_digit_char(s@[j]),
        decreases len - i,
    {
        let u = s.get_char(i) as u32;
        if u < 48 || u > 57 {
            return false;
        }
        i += 1;
    }
    true
}

/// Whether `s` starts with `prefix`.
pub fn starts_with(s: &str, prefix: &str) -> (r: bool)
    ensures
        r == (s@.len() >= prefix@.len() && s@.take(prefix@.len() as int) == prefix@),
{
    let slen = s.unicode_len();
    let plen = prefix.unicode_len();
    if slen < plen {
        return false;
    }
    let mut i: usize = 0;
    while i < plen
        invariant
            slen == s@.len(),
            plen == prefix@.len(),
            plen <= slen,
            i <= plen,
            forall|j: int| 0 <= j < i ==> s@[j] == prefix@[j],
        decreases plen - i,
    {
        if s.get_char(i) != prefix.get_char(i) {
            proof {
                assert(s@.take(plen as int)[i as int] != prefix@[i as int]);
            }
            return false;
        }
        i += 1;
    }
    proof {
        assert(s@.take(plen as int) =~= prefix@);
    }
    true
}

/// The index of the first occurrence of `c`, or -1 if there is none.
pub open spec fn find_char_idx(s: Seq<char>, c: char) -> int
    decreases s.len(),
{
    if s.len() == 0 {
        -1
    } else if s[0] == c {
        0
    } else {
        let r = find_char_idx(s.drop_first(), c);
        if r < 0 {
            -1
        } else {
            1 + r
        }
    }
}

proof fn lemma_find_char_at(s: Seq<char>, c: char, k: int)
    requires
        0 <= k <= s.len(),
        forall|j: int| 0 <= j < k ==> s[j] != c,
        k < s.len() ==> s[k] == c,
    ensures
        k < s.len() ==> find_char_idx(s, c) == k,
        k == s.len() ==> find_char_idx(s, c) == -1,
    decreases s.len(),
{
    if s.len() > 0 && k > 0 {
        assert(s[0] != c);
        assert forall|j: int| 0 <= j < k - 1 implies s.drop_first()[j] != c by {
            assert(s[j + 1] != c);
        }
        lemma_find_char_at(s.drop_first(), c, k - 1);
    }
}

/// Whether and where `c` first occurs in `s`.
pub fn find_char(s: &str, c: char) -> (r: Option<usize>)
    ensures
        match r {
            Some(i) => i == find_char_idx(s@, c) && i < s@.len() && s@[i as int] == c,
            None => find_char_idx(s@, c) == -1 && forall|j: int| 0 <= j < s@.len() ==> s@[j] != c,
        },
{
    let len = s.unicode_len();
    let mut i: usize = 0;
    while i < len
        invariant
            len == s@.len(),
            i <= len,
            forall|j: int| 0 <= j < i ==> s@[j] != c,
        decreases len - i,
    {
        if s.get_char(i) == c {
            proof {
                lemma_find_char_at(s@, c, i as int);
            }
            return Some(i);
        }
        i += 1;
    }
    proof {
        lemma_find_char_at(s@, c, len as int);
    }
    None
}

/// The index of the first occurrence of `pat` as a substring, or -1 if
/// there is none or the pattern is empty.
pub open spec fn find_sub_idx(s: Seq<char>, pat: Seq<char>) -> int
    decreases s.len(),
{
    if pat.len() <= 0 || s.len() < pat.len() {
        -1
    } else if s.take(pat.len() as int) == pat {
        0
    } else {
        let r = find_sub_idx(s.drop_first(), pat);
        if r < 0 {
            -1
        } else {
            1 + r
        }
    }
}

proof fn lemma_find_sub_found(s: Seq<char>, pat: Seq<char>, k: int)
    requires
        pat.len() > 0,
        0 <= k,
        k + pat.len() <= s.len(),
        forall|j: int| #![trigger s.subrange(j, j + pat.len() as int)]
            0 <= j < k ==> s.subrange(j, j + pat.len() as int) != pat,
        s.subrange(k, k + pat.len() as int) == pat,
    ensures
        find_sub_idx(s, pat) == k,
    decreases s.len(),
{
    assert(s.subrange(0, 0 + pat.len() as int) =~= s.take(pat.len() as int));
    if k == 0 {
    } else {
        assert(s.subrange(0, 0 + pat.len() as int) != pat);
        assert(s.take(pat.len() as int) != pat);
        let t = s.drop_first();
        assert forall|j: int| #![trigger t.subrange(j, j + pat.len() as int)]
            0 <= j < k - 1 implies t.subrange(j, j + pat.len() as int) != pat by {
            assert(t.subrange(j, j + pat.len() as int) =~= s.subrange(
                j + 1,
                j + 1 + pat.len() as int,
            ));
        }
        assert(t.subrange(k - 1, k - 1 + pat.len() as int) =~= s.subrange(
            k,
            k + pat.len() as int,
        ));
        lemma_find_sub_found(t, pat, k - 1);
    }
}

proof fn lemma_find_sub_none(s: Seq<char>, pat: Seq<char>)
    requires
        pat.len() > 0,
        forall|j: int| #![trigger s.subrange(j, j + pat.len() as int)]
            0 <= j <= s.len() - pat.len() ==> s.subrange(j, j + pat.len() as int) != pat,
    ensures
        find_sub_idx(s, pat) == -1,
    decreases s.len(),
{
    if s.len() >= pat.len() {
        assert(s.subrange(0, 0 + pat.len() as int) =~= s.take(pat.len() as int));
        assert(s.subrange(0, 0 + pat.len() as int) != pat);
        assert(s.take(pat.len() as int) != pat);
        let t = s.drop_first();
        assert forall|j: int| #![trigger t.subrange(j, j + pat.len() as int)]
            0 <= j <= t.len() - pat.len() implies t.subrange(j, j + pat.len() as int) != pat by {
            assert(t.subrange(j, j + pat.len() as int) =~= s.subrange(
                j + 1,
                j + 1 + pat.len() as int,
            ));
        }
        lemma_find_sub_none(t, pat);
    }
}

/// Whether and where `pat` first occurs in `s` as a substring.
pub fn find_sub(s: &str, pat: &str) -> (r: Option<usize>)
    requires
        pat@.len() > 0,
    ensures
        match r {
            Some(i) => i == find_sub_idx(s@, pat@) && i + pat@.len() <= s@.len() && s@.subrange(
                i as int,
                i + pat@.len(),
            ) == pat@,
            None => find_sub_idx(s@, pat@) == -1,
        },
{
    let slen = s.unicode_len();
    let plen = pat.unicode_len();
    if slen < plen {
        return None;
    }
    let mut i: usize = 0;
    while i <= slen - plen
        invariant
            slen == s@.len(),
            plen == pat@.len(),
            0 < plen <= slen,
            i <= slen - plen + 1,
            forall|j: int| #![trigger s@.subrange(j, j + pat@.len() as int)]
                0 <= j < i ==> s@.subrange(j, j + pat@.len() as int) != pat@,
        decreases slen - i,
    {
        let mut m: usize = 0;
        let mut matches_here = true;
        while m < plen
            invariant
                slen == s@.len(),
                plen == pat@.len(),
                i + plen <= slen,
                m <= plen,
                matches_here == forall|j: int| 0 <= j < m ==> s@[i + j] == pat@[j],
            decreases plen - m,
        {
            if s.get_char(i + m) != pat.get_char(m) {
                proof {
                    assert(s@[i as int + m as int] != pat@[m as int]);
                }
                matches_here = false;
            }
            m += 1;
        }
        if matches_here {
            proof {
                assert(s@.subrange(i as int, i + pat@.len()) =~= pat@);
                lemma_find_sub_found(s@, pat@, i as int);
            }
            return Some(i);
        }
        proof {
            assert(s@.subrange(i as int, i + pat@.len()) != pat@) by {
                let j = choose|j: int| 0 <= j < pat@.len() && s@[i + j] != pat@[j];
                assert(s@.subrange(i as int, i + pat@.len())[j] == s@[i + j]);
            }
        }
        i += 1;
    }
    proof {
        lemma_find_sub_none(s@, pat@);
    }
    None
}

/// The pieces of `s` between occurrences of the separator `c`: splitting
/// keeps empty pieces, as `str::split` does.
pub open spec fn split_spec(s: Seq<char>, c: char) -> Seq<Seq<char>>
    decreases s.len(),
{
    let i = find_char_idx(s, c);
    if i < 0 || i >= s.len() {
        seq![s]
    } else {
        seq![s.take(i)] + split_spec(s.skip(i + 1), c)
    }
}

proof fn lemma_find_char_in_range(s: Seq<char>, c: char)
    ensures
        find_char_idx(s, c) >= 0 ==> find_char_idx(s, c) < s.len(),
    decreases s.len(),
{
    if s.len() > 0 && s[0] != c {
        lemma_find_char_in_range(s.drop_first(), c);
    }
}

/// The string with every occurrence of `pat` replaced by `repl`, scanning
/// left to right; the replacement text is not rescanned.
pub open spec fn replace_spec(s: Seq<char>, pat: Seq<char>, repl: Seq<char>) -> Seq<char>
    decreases s.len(),
{
    let i = find_sub_idx(s, pat);
    if pat.len() <= 0 || i < 0 || i + pat.len() > s.len() {
        s
    } else {
        s.take(i) + repl + replace_spec(s.skip(i + pat.len()), pat, repl)
    }
}

/// Replaces every occurrence of `pat` by `repl`, scanning left to right.
pub fn replace_sub(s: &str, pat: &str, repl: &str) -> (r: String)
    requires
        pat@.len() > 0,
    ensures
        r@ == replace_spec(s@, pat@, repl@),
    decreases s@.len(),
{
    let len = s.unicode_len();
    let plen = pat.unicode_len();
    match find_sub(s, pat) {
        None => s.to_owned(),
        Some(i) => {
            let head = s.substring_char(0, i);
            let tail = s.substring_char(i + plen, len);
            let rest = replace_sub(tail, pat, repl);
            let mut out = head.to_owned();
            out.append(repl);
            out.append(rest.as_str());
            proof {
                assert(tail@ == s@.skip(i + pat@.len()));
                assert(out@ == replace_spec(s@, pat@, repl@));
            }
            out
        },
    }
}

/// Splitting always yields at least one piece.
pub proof fn lemma_split_nonempty(s: Seq<char>, c: char)
    ensures
        split_spec(s, c).len() >= 1,
{
}

/// Splits `s` at every occurrence of `c`.
pub fn split_char(s: &str, c: char) -> (r: Vec<String>)
    ensures
        r@.len() == split_spec(s@, c).len(),
        forall|a: int| 0 <= a < r@.len() ==> r@[a]@ == split_spec(s@, c)[a],
    decreases s@.len(),
{
    let len = s.unicode_len();
    match find_char(s, c) {
        None => {
            let mut r: Vec<String> = Vec::new();
            r.push(s.to_owned());
            r
        },
        Some(i) => {
            let head = s.substring_char(0, i).to_owned();
            let tail = s.substring_char(i + 1, len);
            let mut rest = split_char(tail, c);
            rest.insert(0, head);
            proof {
                assert(tail@ =~= s@.skip(i + 1));
                assert forall|a: int| 0 <= a < rest@.len() implies rest@[a]@ == split_spec(
                    s@,
                    c,
                )[a] by {
                    if a > 0 {
                        assert(rest@[a]@ == split_spec(s@.skip(i + 1), c)[a - 1]);
                    }
                }
            }
            rest
        },
    }
}

/// The digit characters of `n` written in decimal.
pub open spec fn dec_spec(n: int) -> Seq<char>
    decreases n,
{
    if n < 10 {
        seq![((48 + n) as u8) as char]
    } else {
        dec_spec(n / 10).push(((48 + (n % 10)) as u8) as char)
    }
}

/// Appends the decimal form of `n`.
pub fn push_decimal(s: &mut String, n: u64)
    ensures
        final(s)@ == old(s)@ + dec_spec(n as int),
    decreases n,
{
    if n < 10 {
        push_char(s, (48 + n as u8) as char);
        proof {
            assert(s@ =~= old(s)@ + dec_spec(n as int));
        }
    } else {
        push_decimal(s, n / 10);
        push_char(s, (48 + (n % 10) as u8) as char);
        proof {
            assert(s@ =~= old(s)@ + dec_spec(n as int));
        }
    }
}

/// The decimal form of `n`.
pub fn u64_to_string(n: u64) -> (r: String)
    ensures
        r@ == dec_spec(n as int),
{
    let mut s = String::new();
    push_decimal(&mut s, n);
    proof {
        assert(Seq::<char>::empty() + dec_spec(n as int) =~= dec_spec(n as int));
    }
    s
}

/// The value of a digit string read in decimal.
pub open spec fn dec_value(s: Seq<char>) -> int
    decreases s.len(),
{
    if s.len() == 0 {
        0
    } else {
        dec_value(s.drop_last()) * 10 + (s.last() as u32 - 48)
    }
}

/// A non-empty run of ASCII decimal digits.
pub open spec fn is_digit_seq(s: Seq<char>) -> bool {
    s.len() > 0 && forall|i: int| 0 <= i < s.len() ==> is_digit_char(s[i])
}

/// Reads a decimal number below `bound`. The result is `Some` exactly when
/// the whole string is digits and its value stays below the bound.
pub fn parse_u64_below(s: &str, bound: u64) -> (r: Option<u64>)
    requires
        0 < bound <= 0xFFFF_FFFF_FFFF_FF00,
    ensures
        match r {
            Some(v) => is_digit_seq(s@) && v == dec_value(s@) && v < bound,
            None => !is_digit_seq(s@) || dec_value(s@) >= bound,
        },
{
    let len = s.unicode_len();
    if len == 0 {
        return None;
    }
    let mut acc: u64 = 0;
    let mut i: usize = 0;
    while i < len
        invariant
            len == s@.len(),
            0 < len,
            i <= len,
            0 < bound <= 0xFFFF_FFFF_FFFF_FF00,
            forall|j: int| 0 <= j < i ==> is_digit_char(s@[j]),
            acc == dec_value(s@.take(i as int)),
            acc < bound,
        decreases len - i,
    {
        let u = s.get_char(i) as u32;
        if u < 48 || u > 57 {
            return None;
        }
        let d = (u - 48) as u64;
        if acc > (bound - 1) / 10 {
            proof {
                if is_digit_seq(s@) {
                    lemma_dec_value_grows(s@, i as int, bound as int);
                }
            }
            return None;
        }
        proof {
            assert(acc * 10 <= ((bound - 1) / 10) * 10 <= bound - 1) by (nonlinear_arith)
                requires
                    acc <= (bound - 1) / 10,
                    bound > 0,
            ;
        }
        acc = acc * 10 + d;
        proof {
            assert(s@.take(i + 1).drop_last() =~= s@.take(i as int));
        }
        if acc >= bound {
            proof {
                if is_digit_seq(s@) {
                    lemma_dec_value_monotone(s@, i + 1, bound as int);
                }
            }
            return None;
        }
        i += 1;
    }
    proof {
        assert(s@.take(len as int) =~= s@);
    }
    Some(acc)
}

/// A digit string's value is never negative.
proof fn lemma_dec_value_nonneg(s: Seq<char>)
    requires
        forall|i: int| 0 <= i < s.len() ==> is_digit_char(s[i]),
    ensures
        dec_value(s) >= 0,
    decreases s.len(),
{
    if s.len() > 0 {
        lemma_dec_value_nonneg(s.drop_last());
        assert(is_digit_char(s.last()));
    }
}

/// Once a decimal prefix reaches `bound`, every longer prefix is at least as
/// large.
proof fn lemma_dec_value_monotone(s: Seq<char>, k: int, bound: int)
    requires
        0 < k <= s.len(),
        dec_value(s.take(k)) >= bound,
        forall|i: int| 0 <= i < s.len() ==> is_digit_char(s[i]),
    ensures
        dec_value(s) >= bound,
    decreases s.len() - k,
{
    if k < s.len() {
        assert(s.take(k + 1).drop_last() =~= s.take(k));
        assert(is_digit_char(s[k]));
        assert(s.take(k + 1).last() == s[k]);
        assert(dec_value(s.take(k + 1)) == dec_value(s.take(k)) * 10 + (s[k] as u32 - 48));
        assert forall|i: int| 0 <= i < s.take(k).len() implies is_digit_char(s.take(k)[i]) by {
            assert(s.take(k)[i] == s[i]);
        }
        lemma_dec_value_nonneg(s.take(k));
        assert(dec_value(s.take(k)) * 10 >= dec_value(s.take(k)));
        lemma_dec_value_monotone(s, k + 1, bound);
    } else {
        assert(s.take(k) =~= s);
    }
}

/// If a prefix's value already exceeds `(bound - 1) / 10`, appending any
/// digit pushes the value to `bound` or beyond.
proof fn lemma_dec_value_grows(s: Seq<char>, k: int, bound: int)
    requires
        0 <= k < s.len(),
        bound > 0,
        dec_value(s.take(k)) > (bound - 1) / 10,
        forall|i: int| 0 <= i < s.len() ==> is_digit_char(s[i]),
    ensures
        dec_value(s) >= bound,
{
    assert(s.take(k + 1).drop_last() =~= s.take(k));
    assert(s.take(k + 1).last() == s[k]);
    assert(dec_value(s.take(k)) >= (bound - 1) / 10 + 1);
    assert(dec_value(s.take(k + 1)) == dec_value(s.take(k)) * 10 + (s[k] as u32 - 48));
    assert(dec_value(s.take(k)) * 10 >= ((bound - 1) / 10 + 1) * 10) by (nonlinear_arith)
        requires
            dec_value(s.take(k)) >= (bound - 1) / 10 + 1,
    ;
    assert(((bound - 1) / 10) * 10 + 10 >= bound) by (nonlinear_arith)
        requires
            bound > 0,
    ;
    lemma_dec_value_monotone(s, k + 1, bound);
}

/// ASCII-uppercases a string, character by character.
pub fn ascii_upper(s: &str) -> (r: String)
    ensures
        r@ == upper_seq(s@),
{
    let n = s.unicode_len();
    let mut out = String::new();
    let mut i: usize = 0;
    while i < n
        invariant
            n == s@.len(),
            i <= n,
            out@ == upper_seq(s@.take(i as int)),
        decreases n - i,
    {
        let c = s.get_char(i);
        let u = c as u32;
        let uc = if 97 <= u && u <= 122 {
            ((u - 32) as u8) as char
        } else {
            c
        };
        proof {
            assert(uc == upper_char(c));
        }
        push_char(&mut out, uc);
        proof {
            assert(s@.take(i + 1) =~= s@.take(i as int).push(c));
            assert(out@ =~= upper_seq(s@.take(i + 1)));
        }
        i += 1;
    }
    proof {
        assert(s@.take(n as int) =~= s@);
    }
    out
}

} // verus!
