//! Character-level string helpers used by the datatype parser.

use vstd::prelude::*;

verus! {

/// Whether two string slices hold the same characters.
pub fn str_eq(a: &str, b: &str) -> (r: bool)
    ensures
        r == (a@ == b@),
{
    let na = a.unicode_len();
    let nb = b.unicode_len();
    if na != nb {
        proof {
            assert(a@ != b@) by {
                if a@ == b@ {
                    assert(a@.len() == b@.len());
                }
            }
        }
        return false;
    }
    let mut i: usize = 0;
    while i < na
        invariant
            na == a@.len(),
            nb == b@.len(),
            na == nb,
            0 <= i <= na,
            forall|j: int| 0 <= j < i ==> a@[j] == b@[j],
        decreases na - i,
    {
        if a.get_char(i) != b.get_char(i) {
            proof {
                assert(a@[i as int] != b@[i as int]);
            }
            return false;
        }
        i = i + 1;
    }
    proof {
        assert(a@ =~= b@);
    }
    true
}

/// Whether `c` occurs in `s`.
pub open spec fn contains_char(s: Seq<char>, c: char) -> bool {
    exists|i: int| 0 <= i < s.len() && s[i] == c
}

/// Index of the first occurrence of `c` in `s`, or `s.len()` if `c` does
/// not occur.
pub open spec fn first_index_of(s: Seq<char>, c: char) -> int
    decreases s.len(),
{
    if s.len() == 0 {
        0
    } else if s[0] == c {
        0
    } else {
        1 + first_index_of(s.drop_first(), c)
    }
}

/// Index of the last occurrence of `c` in `s`, or `-1` if `c` does not
/// occur.
pub open spec fn last_index_of(s: Seq<char>, c: char) -> int
    decreases s.len(),
{
    if s.len() == 0 {
        -1
    } else if s.last() == c {
        s.len() - 1
    } else {
        last_index_of(s.drop_last(), c)
    }
}

/// `first_index_of` really is the first occurrence.
pub proof fn lemma_first_index_of(s: Seq<char>, c: char)
    ensures
        contains_char(s, c) ==> {
            let i = first_index_of(s, c);
            &&& 0 <= i < s.len()
            &&& s[i] == c
            &&& forall|j: int| 0 <= j < i ==> s[j] != c
        },
        !contains_char(s, c) ==> first_index_of(s, c) == s.len(),
    decreases s.len(),
{
    if s.len() == 0 {
    } else if s[0] == c {
    } else {
        lemma_first_index_of(s.drop_first(), c);
        let rest = s.drop_first();
        assert(forall|j: int| 1 <= j < s.len() ==> s[j] == rest[j - 1]);
        if contains_char(rest, c) {
            assert(s[1 + first_index_of(rest, c)] == c);
        } else {
            assert(!contains_char(s, c)) by {
                if contains_char(s, c) {
                    let i = choose|i: int| 0 <= i < s.len() && s[i] == c;
                    assert(rest[i - 1] == c);
                }
            }
        }
    }
}

/// `last_index_of` really is the last occurrence.
pub proof fn lemma_last_index_of(s: Seq<char>, c: char)
    ensures
        contains_char(s, c) ==> {
            let i = last_index_of(s, c);
            &&& 0 <= i < s.len()
            &&& s[i] == c
            &&& forall|j: int| i < j < s.len() ==> s[j] != c
        },
        !contains_char(s, c) ==> last_index_of(s, c) == -1,
    decreases s.len(),
{
    if s.len() == 0 {
    } else if s.last() == c {
    } else {
        lemma_last_index_of(s.drop_last(), c);
        let rest = s.drop_last();
        assert(forall|j: int| 0 <= j < s.len() - 1 ==> s[j] == rest[j]);
        if contains_char(rest, c) {
            assert(s[last_index_of(rest, c)] == c);
        } else {
            assert(!contains_char(s, c)) by {
                if contains_char(s, c) {
                    let i = choose|i: int| 0 <= i < s.len() && s[i] == c;
                    assert(i < s.len() - 1 ==> rest[i] == c);
                }
            }
        }
    }
}

/// Scan for the first occurrence of `c`; yields `s.len()` when absent.
pub fn find_char(s: &str, c: char) -> (r: usize)
    ensures
        contains_char(s@, c) ==> r == first_index_of(s@, c) && r < s@.len() && s@[r as int] == c,
        !contains_char(s@, c) ==> r == s@.len(),
{
    let n = s.unicode_len();
    let mut i: usize = 0;
    while i < n
        invariant
            n == s@.len(),
            0 <= i <= n,
            forall|j: int| 0 <= j < i ==> s@[j] != c,
        decreases n - i,
    {
        if s.get_char(i) == c {
            proof {
                lemma_first_index_of(s@, c);
                assert(s@[i as int] == c);
                let f = first_index_of(s@, c);
                if f < i {
                    assert(s@[f] != c);
                }
                if (i as int) < f {
                    assert(s@[i as int] != c);
                }
            }
            return i;
        }
        i = i + 1;
    }
    proof {
        lemma_first_index_of(s@, c);
        assert(!contains_char(s@, c));
    }
    i
}

/// Scan for the last occurrence of `c`.
pub fn rfind_char(s: &str, c: char) -> (r: Option<usize>)
    ensures
        contains_char(s@, c) ==> (r matches Some(i) && i == last_index_of(s@, c) && i < s@.len()
            && s@[i as int] == c),
        !contains_char(s@, c) ==> r is None,
{
    let n = s.unicode_len();
    let mut i: usize = n;
    while i > 0
        invariant
            n == s@.len(),
            0 <= i <= n,
            forall|j: int| i <= j < n ==> s@[j] != c,
        decreases i,
    {
        i = i - 1;
        if s.get_char(i) == c {
            proof {
                lemma_last_index_of(s@, c);
                assert(s@[i as int] == c);
                let f = last_index_of(s@, c);
                if f < i {
                    assert(s@[i as int] != c);
                }
                if (i as int) < f {
                    assert(s@[f] != c);
                }
            }
            return Some(i);
        }
    }
    proof {
        lemma_last_index_of(s@, c);
        assert(!contains_char(s@, c));
    }
    None
}

/// The eight characters of the keyword `unsigned` start at `i` in `s`.
pub open spec fn unsigned_at(s: Seq<char>, i: int) -> bool {
    &&& 0 <= i
    &&& i + 8 <= s.len()
    &&& s[i] == 'u'
    &&& s[i + 1] == 'n'
    &&& s[i + 2] == 's'
    &&& s[i + 3] == 'i'
    &&& s[i + 4] == 'g'
    &&& s[i + 5] == 'n'
    &&& s[i + 6] == 'e'
    &&& s[i + 7] == 'd'
}

/// The keyword `unsigned` occurs somewhere in `s`.
pub open spec fn contains_unsigned(s: Seq<char>) -> bool {
    exists|i: int| unsigned_at(s, i)
}

/// Scan for the keyword `unsigned`.
pub fn find_unsigned(s: &str) -> (r: bool)
    ensures
        r == contains_unsigned(s@),
{
    let n = s.unicode_len();
    if n < 8 {
        proof {
            assert(!contains_unsigned(s@)) by {
                if contains_unsigned(s@) {
                    let i = choose|i: int| unsigned_at(s@, i);
                }
            }
        }
        return false;
    }
    let m = n - 8;
    let mut i: usize = 0;
    while i <= m
        invariant
            n == s@.len(),
            m == n - 8,
            0 <= i <= m + 1,
            forall|j: int| 0 <= j < i ==> !unsigned_at(s@, j),
        decreases m + 1 - i,
    {
        if s.get_char(i) == 'u' && s.get_char(i + 1) == 'n' && s.get_char(i + 2) == 's'
            && s.get_char(i + 3) == 'i' && s.get_char(i + 4) == 'g' && s.get_char(i + 5) == 'n'
            && s.get_char(i + 6) == 'e' && s.get_char(i + 7) == 'd' {
            proof {
                assert(unsigned_at(s@, i as int));
            }
            return true;
        }
        i = i + 1;
    }
    proof {
        assert(!contains_unsigned(s@)) by {
            if contains_unsigned(s@) {
                let j = choose|j: int| unsigned_at(s@, j);
                assert(j + 8 <= n);
                assert(j <= m);
                assert(j < i);
            }
        }
    }
    false
}

/// The segments of `s` between commas, in order. A string without commas
/// is one segment; every comma starts a new segment, so `",a,"` has three.
pub open spec fn split_commas(s: Seq<char>) -> Seq<Seq<char>>
    decreases s.len(),
    via split_commas_decreases
{
    if !contains_char(s, ',') {
        seq![s]
    } else {
        seq![s.subrange(0, first_index_of(s, ','))] + split_commas(
            s.subrange(first_index_of(s, ',') + 1, s.len() as int),
        )
    }
}

#[via_fn]
proof fn split_commas_decreases(s: Seq<char>) {
    lemma_first_index_of(s, ',');
}

/// Each segment with its surrounding quotes removed.
pub open spec fn trim_each(ss: Seq<Seq<char>>) -> Seq<Seq<char>> {
    Seq::new(ss.len(), |i: int| trim_quotes(ss[i]))
}

/// The comma-separated segments of `s`, each with surrounding quotes
/// removed.
pub open spec fn split_trimmed(s: Seq<char>) -> Seq<Seq<char>> {
    trim_each(split_commas(s))
}

/// Split `s` on commas and trim quotes from every segment.
pub fn split_options(s: &str) -> (r: Vec<String>)
    ensures
        r.deep_view() == split_trimmed(s@),
{
    let n = s.unicode_len();
    let mut out: Vec<String> = Vec::new();
    let mut p: usize = 0;
    let ghost mut done = Seq::<Seq<char>>::empty();
    proof {
        assert(s@.subrange(0, n as int) =~= s@);
        assert(done + split_commas(s@) =~= split_commas(s@));
    }
    loop
        invariant
            n == s@.len(),
            0 <= p <= n,
            split_commas(s@) =~= done + split_commas(s@.subrange(p as int, n as int)),
            out.deep_view() =~= trim_each(done),
        decreases n - p,
    {
        let rem = s.substring_char(p, n);
        let ghost remv = s@.subrange(p as int, n as int);
        let q = find_char(rem, ',');
        if q == n - p {
            proof {
                lemma_first_index_of(remv, ',');
                assert(!contains_char(remv, ','));
                assert(split_commas(remv) =~= seq![remv]);
            }
            let trimmed = trim_quotes_str(rem);
            let ghost prevout = out;
            let ghost prevdone = done;
            out.push(trimmed.to_owned());
            proof {
                done = done.push(remv);
                assert(split_commas(s@) =~= done);
                assert(prevout.deep_view() == trim_each(prevdone));
                assert(prevout.deep_view().len() == prevout@.len());
                assert(trim_each(prevdone).len() == prevdone.len());
                assert forall|j: int| 0 <= j < out.deep_view().len() implies out.deep_view()[j]
                    == trim_each(done)[j] by {
                    assert(out.deep_view()[j] == out@[j].deep_view());
                    if j < prevout@.len() {
                        assert(out@[j] == prevout@[j]);
                        assert(prevout.deep_view()[j] == prevout@[j].deep_view());
                        assert(done[j] == prevdone[j]);
                    }
                }
                assert(out.deep_view() =~= trim_each(done));
            }
            return out;
        } else {
            proof {
                lemma_first_index_of(remv, ',');
                assert(contains_char(remv, ','));
                assert(first_index_of(remv, ',') == q);
                assert(split_commas(remv) == seq![remv.subrange(0, q as int)] + split_commas(
                    remv.subrange(q as int + 1, remv.len() as int),
                ));
                assert(remv.subrange(q as int + 1, remv.len() as int) =~= s@.subrange(
                    p + q + 1 as int,
                    n as int,
                ));
            }
            let seg = rem.substring_char(0, q);
            let trimmed = trim_quotes_str(seg);
            let ghost prevout = out;
            let ghost prevdone = done;
            out.push(trimmed.to_owned());
            proof {
                done = done.push(remv.subrange(0, q as int));
                assert(split_commas(s@) =~= done + split_commas(
                    s@.subrange(p + q + 1 as int, n as int),
                ));
                assert(prevout.deep_view() == trim_each(prevdone));
                assert(prevout.deep_view().len() == prevout@.len());
                assert(trim_each(prevdone).len() == prevdone.len());
                assert forall|j: int| 0 <= j < out.deep_view().len() implies out.deep_view()[j]
                    == trim_each(done)[j] by {
                    assert(out.deep_view()[j] == out@[j].deep_view());
                    if j < prevout@.len() {
                        assert(out@[j] == prevout@[j]);
                        assert(prevout.deep_view()[j] == prevout@[j].deep_view());
                        assert(done[j] == prevdone[j]);
                    }
                }
                assert(out.deep_view() =~= trim_each(done));
            }
            p = p + q + 1;
        }
    }
}

/// `c` is an ASCII decimal digit.
pub open spec fn is_dec_digit(c: char) -> bool {
    48 <= c as u32 <= 57
}

/// Numeric value of the digit `c`.
pub open spec fn dec_digit_val(c: char) -> int {
    c as u32 - 48
}

/// All characters of `s` are ASCII decimal digits.
pub open spec fn all_dec_digits(s: Seq<char>) -> bool {
    forall|i: int| 0 <= i < s.len() ==> is_dec_digit(s[i])
}

/// Value of `s` read as a base-10 numeral.
pub open spec fn dec_val(s: Seq<char>) -> int
    decreases s.len(),
{
    if s.len() == 0 {
        0
    } else {
        dec_val(s.drop_last()) * 10 + dec_digit_val(s.last())
    }
}

/// A numeral's value is nonnegative.
pub proof fn lemma_dec_val_nonneg(s: Seq<char>)
    requires
        all_dec_digits(s),
    ensures
        dec_val(s) >= 0,
    decreases s.len(),
{
    if s.len() > 0 {
        assert(all_dec_digits(s.drop_last()));
        lemma_dec_val_nonneg(s.drop_last());
    }
}

/// Extending a numeral on the right never decreases its value.
pub proof fn lemma_dec_val_prefix(s: Seq<char>, i: int)
    requires
        all_dec_digits(s),
        0 <= i <= s.len(),
    ensures
        dec_val(s.subrange(0, i)) <= dec_val(s),
    decreases s.len(),
{
    if i == s.len() {
        assert(s.subrange(0, i) =~= s);
    } else {
        let shorter = s.drop_last();
        assert(all_dec_digits(shorter));
        assert(s.subrange(0, i) =~= shorter.subrange(0, i));
        lemma_dec_val_prefix(shorter, i);
        lemma_dec_val_nonneg(shorter);
    }
}

/// The value of `s` read the way `u32` reads a decimal string: an optional
/// leading `+`, then one or more ASCII digits, with the result fitting in
/// 32 bits; anything else fails.
pub open spec fn spec_parse_u32(s: Seq<char>) -> Option<u32> {
    let body = if s.len() > 0 && s[0] == '+' {
        s.drop_first()
    } else {
        s
    };
    if body.len() > 0 && all_dec_digits(body) && dec_val(body) <= u32::MAX {
        Some(dec_val(body) as u32)
    } else {
        None
    }
}

/// Read `s` as an unsigned 32-bit decimal numeral.
#[verifier::rlimit(50)]
pub fn parse_u32(s: &str) -> (r: Option<u32>)
    ensures
        r == spec_parse_u32(s@),
{
    let n = s.unicode_len();
    let start: usize = if n > 0 && s.get_char(0) == '+' {
        1
    } else {
        0
    };
    let ghost body = if s@.len() > 0 && s@[0] == '+' {
        s@.drop_first()
    } else {
        s@
    };
    proof {
        assert(body =~= s@.subrange(start as int, n as int));
    }
    if n == start {
        return None;
    }
    let mut val: u64 = 0;
    let mut i: usize = start;
    while i < n
        invariant
            n == s@.len(),
            start <= i <= n,
            body =~= s@.subrange(start as int, n as int),
            body == if s@.len() > 0 && s@[0] == '+' { s@.drop_first() } else { s@ },
            forall|j: int| start <= j < i ==> is_dec_digit(s@[j]),
            val == dec_val(s@.subrange(start as int, i as int)),
            val <= u32::MAX as u64,
        decreases n - i,
    {
        let c = s.get_char(i);
        let cv = c as u32;
        if cv < 48 || cv > 57 {
            proof {
                assert(!is_dec_digit(s@[i as int]));
                assert(body[i - start as int] == s@[i as int]);
                assert(!all_dec_digits(body));
            }
            return None;
        }
        let d = (cv - 48) as u64;
        let nv = val * 10 + d;
        proof {
            let pre = s@.subrange(start as int, i as int);
            let ext = s@.subrange(start as int, i as int + 1);
            assert(ext.drop_last() =~= pre);
            assert(ext.last() == s@[i as int]);
            assert(nv == dec_val(ext));
        }
        if nv > u32::MAX as u64 {
            proof {
                let ext = s@.subrange(start as int, i as int + 1);
                if all_dec_digits(body) {
                    assert(ext =~= body.subrange(0, i + 1 - start as int));
                    lemma_dec_val_prefix(body, i + 1 - start as int);
                    assert(dec_val(body) > u32::MAX);
                }
            }
            return None;
        }
        val = nv;
        i = i + 1;
    }
    proof {
        assert(s@.subrange(start as int, i as int) =~= body);
        assert(all_dec_digits(body)) by {
            assert(forall|j: int|
                0 <= j < body.len() ==> body[j] == s@[j + start as int] && is_dec_digit(
                    s@[j + start as int],
                ));
        }
    }
    Some(val as u32)
}

/// `c` is a single or double quote.
pub open spec fn is_quote_char(c: char) -> bool {
    c == '"' || c == '\''
}

/// Number of quote characters at the front of `s`.
pub open spec fn leading_quotes(s: Seq<char>) -> int
    decreases s.len(),
{
    if s.len() == 0 {
        0
    } else if !is_quote_char(s[0]) {
        0
    } else {
        1 + leading_quotes(s.drop_first())
    }
}

/// Number of quote characters at the back of `s`.
pub open spec fn trailing_quotes(s: Seq<char>) -> int
    decreases s.len(),
{
    if s.len() == 0 {
        0
    } else if !is_quote_char(s.last()) {
        0
    } else {
        1 + trailing_quotes(s.drop_last())
    }
}

/// `s` with every leading and trailing quote character removed.
pub open spec fn trim_quotes(s: Seq<char>) -> Seq<char> {
    let core = s.subrange(leading_quotes(s), s.len() as int);
    core.subrange(0, core.len() - trailing_quotes(core))
}

/// Characterization of `leading_quotes`.
pub proof fn lemma_leading_quotes(s: Seq<char>)
    ensures
        0 <= leading_quotes(s) <= s.len(),
        forall|j: int| 0 <= j < leading_quotes(s) ==> is_quote_char(s[j]),
        leading_quotes(s) < s.len() ==> !is_quote_char(s[leading_quotes(s)]),
    decreases s.len(),
{
    if s.len() == 0 {
    } else if !is_quote_char(s[0]) {
    } else {
        lemma_leading_quotes(s.drop_first());
        let rest = s.drop_first();
        assert(forall|j: int| 1 <= j < s.len() ==> s[j] == rest[j - 1]);
    }
}

/// Characterization of `trailing_quotes`.
pub proof fn lemma_trailing_quotes(s: Seq<char>)
    ensures
        0 <= trailing_quotes(s) <= s.len(),
        forall|j: int| s.len() - trailing_quotes(s) <= j < s.len() ==> is_quote_char(s[j]),
        trailing_quotes(s) < s.len() ==> !is_quote_char(s[s.len() - trailing_quotes(s) - 1]),
    decreases s.len(),
{
    if s.len() == 0 {
    } else if !is_quote_char(s.last()) {
    } else {
        lemma_trailing_quotes(s.drop_last());
        let rest = s.drop_last();
        assert(forall|j: int| 0 <= j < s.len() - 1 ==> s[j] == rest[j]);
    }
}

/// `s` with leading and trailing quote characters removed, as a slice of
/// the input.
pub fn trim_quotes_str<'a>(s: &'a str) -> (r: &'a str)
    ensures
        r@ == trim_quotes(s@),
{
    let n = s.unicode_len();
    let mut a: usize = 0;
    while a < n
        invariant
            n == s@.len(),
            0 <= a <= n,
            forall|j: int| 0 <= j < a ==> is_quote_char(s@[j]),
        ensures
            0 <= a <= n,
            forall|j: int| 0 <= j < a ==> is_quote_char(s@[j]),
            a < n ==> !is_quote_char(s@[a as int]),
        decreases n - a,
    {
        let c = s.get_char(a);
        if !(c == '"' || c == '\'') {
            break;
        }
        a = a + 1;
    }
    proof {
        lemma_leading_quotes(s@);
        let l = leading_quotes(s@);
        if l < a {
            assert(is_quote_char(s@[l]));
        }
        if a < l {
            assert(is_quote_char(s@[a as int]));
        }
        assert(a == l);
    }
    let mut b: usize = n;
    while b > a
        invariant
            n == s@.len(),
            a <= b <= n,
            a == leading_quotes(s@),
            forall|j: int| b <= j < n ==> is_quote_char(s@[j]),
        ensures
            a <= b <= n,
            forall|j: int| b <= j < n ==> is_quote_char(s@[j]),
            b > a ==> !is_quote_char(s@[b - 1]),
        decreases b,
    {
        let c = s.get_char(b - 1);
        if !(c == '"' || c == '\'') {
            break;
        }
        b = b - 1;
    }
    proof {
        let ghost core = s@.subrange(a as int, n as int);
        lemma_trailing_quotes(core);
        let t = trailing_quotes(core);
        assert(forall|j: int| 0 <= j < core.len() ==> core[j] == s@[j + a]);
        assert(t == n - b) by {
            if t < n - b {
                assert(is_quote_char(s@[(n - t - 1) as int]));
                assert(core[core.len() - t - 1] == s@[(n - t - 1) as int]);
            }
            if n - b < t {
                assert(is_quote_char(core[core.len() - (n - b) - 1]));
                assert(core[core.len() - (n - b) - 1] == s@[b - 1]);
            }
        }
        assert(trim_quotes(s@) =~= s@.subrange(a as int, b as int));
    }
    s.substring_char(a, b)
}

/// Whether some string in `v` holds the characters of `s`.
pub fn vec_contains_str(v: &Vec<String>, s: &str) -> (r: bool)
    ensures
        r == v.deep_view().contains(s@),
{
    let n = v.len();
    let mut i: usize = 0;
    while i < n
        invariant
            n == v@.len(),
            0 <= i <= n,
            forall|j: int| 0 <= j < i ==> v.deep_view()[j] != s@,
        decreases n - i,
    {
        if str_eq(v[i].as_str(), s) {
            proof {
                assert(v.deep_view()[i as int] == s@);
            }
            return true;
        }
        i = i + 1;
    }
    proof {
        if v.deep_view().contains(s@) {
            let j = choose|j: int| 0 <= j < v.deep_view().len() && v.deep_view()[j] == s@;
            assert(v.deep_view()[j] != s@);
        }
    }
    false
}

/// A copy of a vector of strings, preserving every character.
pub fn clone_string_vec(v: &Vec<String>) -> (r: Vec<String>)
    ensures
        r.deep_view() == v.deep_view(),
{
    let r = v.clone();
    proof {
        assert forall|i: int| 0 <= i < r@.len() implies r.deep_view()[i] == v.deep_view()[i] by {
            assert(cloned::<String>(v@[i], r@[i]));
        }
        assert(r.deep_view() =~= v.deep_view());
    }
    r
}

} // verus!
