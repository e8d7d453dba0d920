use vstd::prelude::*;
use vstd::string::{StrSliceExecFns, StringExecFns};

use crate::types::{decimal, digit_char, pr_url_of, PrRef};

verus! {

broadcast use vstd::string::group_string_axioms;

/// The address every pull request URL starts with.
pub open spec fn url_prefix() -> Seq<char> {
    "https://github.com/"@
}

/// A non-empty path segment: no slash in it.
pub open spec fn is_segment(s: Seq<char>) -> bool {
    s.len() > 0 && forall|i: int| 0 <= i < s.len() ==> s[i] != '/'
}

pub open spec fn is_digit(c: char) -> bool {
    '0' <= c && c <= '9'
}

/// A non-empty run of decimal digits.
pub open spec fn is_digits(s: Seq<char>) -> bool {
    s.len() > 0 && forall|i: int| 0 <= i < s.len() ==> is_digit(s[i])
}

/// The number that the decimal digits `s` write.
pub open spec fn digits_value(s: Seq<char>) -> nat
    decreases s.len(),
{
    if s.len() == 0 {
        0
    } else {
        digits_value(s.drop_last()) * 10 + (s.last() as int - '0' as int) as nat
    }
}

/// The text of a pull request URL with these parts.
pub open spec fn pr_url_text(owner: Seq<char>, repo: Seq<char>, digits: Seq<char>) -> Seq<char> {
    url_prefix() + owner + "/"@ + repo + "/pull/"@ + digits
}

/// `url` is the URL of pull request `digits` of `owner`/`repo`, with a number
/// that fits 64 bits.
pub open spec fn names_pr(url: Seq<char>, owner: Seq<char>, repo: Seq<char>, digits: Seq<char>) -> bool {
    &&& is_segment(owner)
    &&& is_segment(repo)
    &&& is_digits(digits)
    &&& digits_value(digits) <= u64::MAX
    &&& url == pr_url_text(owner, repo, digits)
}

proof fn lemma_layout(url: Seq<char>, o: Seq<char>, p: Seq<char>, d: Seq<char>)
    requires
        names_pr(url, o, p, d),
    ensures
        url.len() == 19 + o.len() as int + 1 + p.len() as int + 6 + d.len(),
        url.subrange(0, 19) == url_prefix(),
        forall|m: int| 19 <= m < 19 + o.len() ==> url[m] != '/',
        url[19 + o.len() as int] == '/',
        forall|m: int| 19 + o.len() as int + 1 <= m < 19 + o.len() as int + 1 + p.len() as int ==> url[m] != '/',
        url.subrange(19 + o.len() as int + 1 + p.len() as int, 19 + o.len() as int + 1 + p.len() as int + 6) == "/pull/"@,
        url.subrange(19 + o.len() as int, 19 + o.len() as int + 1) == "/"@,
        url.subrange(19, 19 + o.len() as int) == o,
        url.subrange(19 + o.len() as int + 1, 19 + o.len() as int + 1 + p.len() as int) == p,
        url.subrange(19 + o.len() as int + 1 + p.len() as int + 6, url.len() as int) == d,
{
    reveal_strlit("https://github.com/");
    reveal_strlit("/");
    reveal_strlit("/pull/");
    let a: int = 19 + o.len() as int;
    let b: int = a + 1 + p.len() as int;
    assert(url.subrange(0, 19) =~= url_prefix());
    assert(url.subrange(19, a) =~= o);
    assert(url.subrange(a, a + 1) =~= "/"@);
    assert(url.subrange(a + 1, b) =~= p);
    assert(url.subrange(b, b + 6) =~= "/pull/"@);
    assert(url.subrange(b + 6, url.len() as int) =~= d);
    assert forall|m: int| 19 <= m < a implies url[m] != '/' by {
        assert(url[m] == url.subrange(19, a)[m - 19]);
    }
    assert forall|m: int| a + 1 <= m < b implies url[m] != '/' by {
        assert(url[m] == url.subrange(a + 1, b)[m - a - 1]);
    }
    assert(url[a] == url.subrange(a, a + 1)[0]);
}

proof fn lemma_split_determined(url: Seq<char>, o: Seq<char>, p: Seq<char>, d: Seq<char>, a: int, b: int)
    requires
        names_pr(url, o, p, d),
        19 <= a <= url.len(),
        forall|m: int| 19 <= m < a ==> url[m] != '/',
        a < url.len() ==> url[a] == '/',
    ensures
        a == 19 + o.len(),
        a + 1 <= b <= url.len() && (forall|m: int| a + 1 <= m < b ==> url[m] != '/') && (b < url.len()
            ==> url[b] == '/') ==> b == a + 1 + p.len(),
{
    lemma_layout(url, o, p, d);
    if a < 19 + o.len() {
        assert(url[a] != '/');
    }
    if a > 19 + o.len() {
        assert(url[19 + o.len() as int] != '/');
    }
    reveal_strlit("/pull/");
    let e: int = 19 + o.len() as int + 1 + p.len() as int;
    assert(url[e] == url.subrange(e, e + 6)[0]);
}

proof fn lemma_prefix_value_bounded(s: Seq<char>, i: int)
    requires
        forall|m: int| 0 <= m < s.len() ==> is_digit(s[m]),
        0 <= i <= s.len(),
    ensures
        digits_value(s.subrange(0, i)) <= digits_value(s),
    decreases s.len(),
{
    if i < s.len() {
        let t = s.drop_last();
        lemma_prefix_value_bounded(t, i);
        assert(t.subrange(0, i) =~= s.subrange(0, i));
    } else {
        assert(s.subrange(0, i) =~= s);
    }
}

/// The index of the first slash in `s` at or after `from`, or the length.
fn find_slash(s: &str, n: usize, from: usize) -> (k: usize)
    requires
        n == s@.len(),
        from <= n,
    ensures
        from <= k <= n,
        forall|m: int| from <= m < k ==> s@[m] != '/',
        k < n ==> s@[k as int] == '/',
{
    let mut k = from;
    while k < n
        invariant
            from <= k <= n,
            n == s@.len(),
            forall|m: int| from <= m < k ==> s@[m] != '/',
        decreases n - k,
    {
        if s.get_char(k) == '/' {
            return k;
        }
        k = k + 1;
    }
    k
}

/// Reads the decimal number that `s` holds from index `start` up to `n`:
/// none unless that part is all digits and its value fits 64 bits.
pub(crate) fn read_number(s: &str, n: usize, start: usize) -> (r: Option<u64>)
    requires
        n <= s@.len(),
        start <= n,
    ensures
        r is Some <==> (forall|m: int| 0 <= m < n - start ==> is_digit(#[trigger] s@.subrange(start as int, n as int)[m]))
            && digits_value(s@.subrange(start as int, n as int)) <= u64::MAX,
        r matches Some(v) ==> v == digits_value(s@.subrange(start as int, n as int)),
{
    let ghost digits = s@.subrange(start as int, n as int);
    let mut v: u64 = 0;
    let mut i: usize = start;
    while i < n
        invariant
            start <= i <= n,
            n <= s@.len(),
            digits == s@.subrange(start as int, n as int),
            v as nat == digits_value(digits.subrange(0, i - start)),
            forall|m: int| 0 <= m < i - start ==> is_digit(digits[m]),
        decreases n - i,
    {
        let c = s.get_char(i);
        let ghost pre = digits.subrange(0, i - start);
        let ghost ext = digits.subrange(0, i + 1 - start);
        assert(ext.drop_last() =~= pre);
        assert(digits[i - start] == c);
        if !('0' <= c && c <= '9') {
            return None;
        }
        let dv: u64 = (c as u32 - '0' as u32) as u64;
        let next = match v.checked_mul(10) {
            Some(t) => t.checked_add(dv),
            None => None,
        };
        match next {
            Some(w) => {
                v = w;
            },
            None => {
                proof {
                    if forall|m: int| 0 <= m < n - start ==> is_digit(#[trigger] digits[m]) {
                        lemma_prefix_value_bounded(digits, i + 1 - start);
                    }
                }
                return None;
            },
        }
        i = i + 1;
    }
    assert(digits.subrange(0, n - start) =~= digits);
    Some(v)
}

impl PrRef {
    /// Reads a pull request URL `https://github.com/<owner>/<repo>/pull/<number>`.
    /// It succeeds exactly when the URL has that form, with non-empty owner and
    /// repository names free of slashes and a number that fits 64 bits.
    pub fn parse(url: &str) -> (r: Option<PrRef>)
        ensures
            r is Some <==> exists|o: Seq<char>, p: Seq<char>, d: Seq<char>| names_pr(url@, o, p, d),
            r matches Some(pr) ==> exists|d: Seq<char>|
                names_pr(url@, pr.owner@, pr.repo@, d) && digits_value(d) == pr.number,
    {
        let n = url.unicode_len();
        if n < 19 {
            proof {
                if exists|o: Seq<char>, p: Seq<char>, d: Seq<char>| names_pr(url@, o, p, d) {
                    let (o, p, d) = choose|o: Seq<char>, p: Seq<char>, d: Seq<char>| names_pr(url@, o, p, d);
                    lemma_layout(url@, o, p, d);
                }
            }
            return None;
        }
        let head = String::from_str(url.substring_char(0, 19));
        if !(head == String::from_str("https://github.com/")) {
            proof {
                if exists|o: Seq<char>, p: Seq<char>, d: Seq<char>| names_pr(url@, o, p, d) {
                    let (o, p, d) = choose|o: Seq<char>, p: Seq<char>, d: Seq<char>| names_pr(url@, o, p, d);
                    lemma_layout(url@, o, p, d);
                }
            }
            return None;
        }
        let a = find_slash(url, n, 19);
        let b = if a < n { find_slash(url, n, a + 1) } else { n };
        proof {
            if exists|o: Seq<char>, p: Seq<char>, d: Seq<char>| names_pr(url@, o, p, d) {
                let (o, p, d) = choose|o: Seq<char>, p: Seq<char>, d: Seq<char>| names_pr(url@, o, p, d);
                lemma_layout(url@, o, p, d);
                lemma_split_determined(url@, o, p, d, a as int, b as int);
            }
        }
        if a == 19 || a == n || b == a + 1 || b == n || n - b < 7 {
            proof {
                if exists|o: Seq<char>, p: Seq<char>, d: Seq<char>| names_pr(url@, o, p, d) {
                    let (o, p, d) = choose|o: Seq<char>, p: Seq<char>, d: Seq<char>| names_pr(url@, o, p, d);
                    lemma_layout(url@, o, p, d);
                    lemma_split_determined(url@, o, p, d, a as int, b as int);
                }
            }
            return None;
        }
        let mid = String::from_str(url.substring_char(b, b + 6));
        if !(mid == String::from_str("/pull/")) {
            proof {
                if exists|o: Seq<char>, p: Seq<char>, d: Seq<char>| names_pr(url@, o, p, d) {
                    let (o, p, d) = choose|o: Seq<char>, p: Seq<char>, d: Seq<char>| names_pr(url@, o, p, d);
                    lemma_layout(url@, o, p, d);
                    lemma_split_determined(url@, o, p, d, a as int, b as int);
                }
            }
            return None;
        }
        let ghost digits = url@.subrange(b + 6, n as int);
        let number = read_number(url, n, b + 6);
        proof {
            if exists|o: Seq<char>, p: Seq<char>, d: Seq<char>| names_pr(url@, o, p, d) {
                let (o, p, d) = choose|o: Seq<char>, p: Seq<char>, d: Seq<char>| names_pr(url@, o, p, d);
                lemma_layout(url@, o, p, d);
                lemma_split_determined(url@, o, p, d, a as int, b as int);
                assert(d == digits);
            }
        }
        let v = match number {
            Some(v) => v,
            None => {
                return None;
            },
        };
        let owner = String::from_str(url.substring_char(19, a));
        let repo = String::from_str(url.substring_char(a + 1, b));
        proof {
            reveal_strlit("https://github.com/");
            reveal_strlit("/");
            reveal_strlit("/pull/");
            assert(url@ =~= pr_url_text(owner@, repo@, digits));
            assert(names_pr(url@, owner@, repo@, digits));
        }
        Some(PrRef { owner, repo, number: v })
    }
}

proof fn lemma_decimal_digits(n: nat)
    ensures
        is_digits(decimal(n)),
        digits_value(decimal(n)) == n,
    decreases n,
{
    let d = n % 10;
    assert(digit_char(d) as int - '0' as int == d) by {
        assert(0 <= d < 10);
    }
    assert(is_digit(digit_char(d)));
    if n >= 10 {
        lemma_decimal_digits(n / 10);
        let s = decimal(n);
        assert(s.drop_last() =~= decimal(n / 10));
        assert(s.last() == digit_char(d));
        vstd::arithmetic::div_mod::lemma_fundamental_div_mod(n as int, 10);
        assert(digits_value(s) == digits_value(decimal(n / 10)) * 10 + d);
        assert(digits_value(decimal(n / 10)) == n / 10);
        assert(digits_value(s) == n);
    } else {
        let s = decimal(n);
        assert(s.drop_last() =~= Seq::<char>::empty());
        assert(s.last() == digit_char(d));
        assert(n % 10 == n);
        assert(digits_value(s.drop_last()) == 0);
    }
}

/// Reading back the URL of a pull request reference gives that reference:
/// for owner and repository names that are non-empty and free of slashes,
/// the URL names exactly them and the number, written in decimal.
pub proof fn lemma_url_reads_back(owner: Seq<char>, repo: Seq<char>, number: u64)
    requires
        is_segment(owner),
        is_segment(repo),
    ensures
        names_pr(pr_url_of(owner, repo, number as nat), owner, repo, decimal(number as nat)),
        digits_value(decimal(number as nat)) == number,
{
    lemma_decimal_digits(number as nat);
}

} // verus!
