//! Reading plain text: characters, white space, separators and unsigned
//! decimal numbers, with the meanings `str::trim` and the integer `from_str`
//! of the standard library give them.
use vstd::prelude::*;

verus! {

/// The Unicode `White_Space` characters, which `char::is_whitespace` and
/// `str::trim` recognise.
pub open spec fn is_white_space(c: char) -> bool {
    let n = c as u32;
    ||| (0x09 <= n && n <= 0x0d)
    ||| n == 0x20
    ||| n == 0x85
    ||| n == 0xa0
    ||| n == 0x1680
    ||| (0x2000 <= n && n <= 0x200a)
    ||| n == 0x2028
    ||| n == 0x2029
    ||| n == 0x202f
    ||| n == 0x205f
    ||| n == 0x3000
}

/// `s` without its leading white space.
pub open spec fn trim_start(s: Seq<char>) -> Seq<char>
    decreases s.len(),
{
    if s.len() > 0 && is_white_space(s[0]) {
        trim_start(s.drop_first())
    } else {
        s
    }
}

/// `s` without its trailing white space.
pub open spec fn trim_end(s: Seq<char>) -> Seq<char>
    decreases s.len(),
{
    if s.len() > 0 && is_white_space(s.last()) {
        trim_end(s.drop_last())
    } else {
        s
    }
}

/// `s` without leading and trailing white space, as `str::trim` gives it.
pub open spec fn trimmed(s: Seq<char>) -> Seq<char> {
    trim_end(trim_start(s))
}

pub open spec fn is_digit(c: char) -> bool {
    '0' <= c && c <= '9'
}

pub open spec fn digit_value(c: char) -> int {
    (c as int) - ('0' as int)
}

pub open spec fn all_digits(s: Seq<char>) -> bool {
    forall|i: int| 0 <= i < s.len() ==> is_digit(#[trigger] s[i])
}

/// The number that a string of decimal digits writes.
pub open spec fn digits_value(s: Seq<char>) -> int
    decreases s.len(),
{
    if s.len() == 0 {
        0
    } else {
        10 * digits_value(s.drop_last()) + digit_value(s.last())
    }
}

/// What `from_str` of an unsigned integer type whose largest value is `max`
/// reads from `s`: an optional `+`, then one or more decimal digits whose
/// number is at most `max`.
pub open spec fn unsigned_from_str(s: Seq<char>, max: int) -> Option<int> {
    let body = if s.len() > 0 && s[0] == '+' {
        s.drop_first()
    } else {
        s
    };
    if body.len() > 0 && all_digits(body) && digits_value(body) <= max {
        Some(digits_value(body))
    } else {
        None
    }
}

pub proof fn lemma_digits_value_nonneg(s: Seq<char>)
    requires
        all_digits(s),
    ensures
        digits_value(s) >= 0,
    decreases s.len(),
{
    if s.len() > 0 {
        assert(all_digits(s.drop_last())) by {
            assert forall|i: int| 0 <= i < s.drop_last().len() implies is_digit(
                #[trigger] s.drop_last()[i],
            ) by {
                assert(s.drop_last()[i] == s[i]);
            }
        }
        lemma_digits_value_nonneg(s.drop_last());
        assert(is_digit(s[s.len() - 1]));
    }
}

/// What `unsigned_from_str` reads is a number from 0 to `max`.
pub proof fn lemma_unsigned_from_str_range(s: Seq<char>, max: int)
    ensures
        unsigned_from_str(s, max) matches Some(v) ==> 0 <= v <= max,
{
    let body = if s.len() > 0 && s[0] == '+' {
        s.drop_first()
    } else {
        s
    };
    if body.len() > 0 && all_digits(body) {
        lemma_digits_value_nonneg(body);
    }
}

/// The position of the first `c` in `s`.
pub open spec fn first_index_of(s: Seq<char>, c: char) -> Option<int>
    decreases s.len(),
{
    if s.len() == 0 {
        None
    } else if s[0] == c {
        Some(0)
    } else {
        match first_index_of(s.drop_first(), c) {
            Some(i) => Some(i + 1),
            None => None,
        }
    }
}

pub fn is_white_space_char(c: char) -> (r: bool)
    ensures
        r == is_white_space(c),
{
    let n = c as u32;
    (0x09 <= n && n <= 0x0d) || n == 0x20 || n == 0x85 || n == 0xa0 || n == 0x1680 || (0x2000
        <= n && n <= 0x200a) || n == 0x2028 || n == 0x2029 || n == 0x202f || n == 0x205f || n
        == 0x3000
}

/// The characters of `s`.
pub fn chars_of(s: &str) -> (r: Vec<char>)
    ensures
        r@ == s@,
{
    broadcast use vstd::string::axiom_spec_iter;

    let mut r: Vec<char> = Vec::new();
    for c in it: s.chars()
        invariant
            it.seq() == s@,
            r@ == it.seq().take(it.index()),
    {
        r.push(c);
    }
    r
}

/// What `first_index_of` gives: the first position of `c`, or none at all.
pub proof fn lemma_first_index_of(s: Seq<char>, c: char)
    ensures
        match first_index_of(s, c) {
            Some(i) => 0 <= i < s.len() && s[i] == c && forall|j: int| 0 <= j < i ==> s[j] != c,
            None => forall|j: int| 0 <= j < s.len() ==> s[j] != c,
        },
    decreases s.len(),
{
    if s.len() > 0 && s[0] != c {
        lemma_first_index_of(s.drop_first(), c);
        match first_index_of(s.drop_first(), c) {
            Some(i) => {
                assert forall|j: int| 0 <= j < i + 1 implies s[j] != c by {
                    if j > 0 {
                        assert(s[j] == s.drop_first()[j - 1]);
                    }
                }
            },
            None => {
                assert forall|j: int| 0 <= j < s.len() implies s[j] != c by {
                    if j > 0 {
                        assert(s[j] == s.drop_first()[j - 1]);
                    }
                }
            },
        }
    }
}

/// The position of the first `c` in `s[lo..hi]`, counted from the start of `s`.
pub fn find_char(s: &Vec<char>, lo: usize, hi: usize, c: char) -> (r: Option<usize>)
    requires
        lo <= hi <= s.len(),
    ensures
        match first_index_of(s@.subrange(lo as int, hi as int), c) {
            Some(i) => r == Some((lo + i) as usize),
            None => r is None,
        },
{
    let ghost sub = s@.subrange(lo as int, hi as int);
    proof {
        lemma_first_index_of(sub, c);
    }
    let mut i = lo;
    while i < hi
        invariant
            lo <= i <= hi <= s.len(),
            sub == s@.subrange(lo as int, hi as int),
            forall|j: int| lo <= j < i ==> s@[j] != c,
        decreases hi - i,
    {
        if s[i] == c {
            proof {
                lemma_first_index_of(sub, c);
                assert(sub[i - lo] == c);
                assert forall|j: int| 0 <= j < i - lo implies sub[j] != c by {
                    assert(sub[j] == s@[lo + j]);
                }
                match first_index_of(sub, c) {
                    Some(k) => {
                        if k < i - lo {
                            assert(sub[k] != c);
                        }
                        if k > i - lo {
                            assert(sub[i - lo] != c);
                        }
                    },
                    None => {
                        assert(sub[i - lo] != c);
                    },
                }
            }
            return Some(i);
        }
        i += 1;
    }
    proof {
        lemma_first_index_of(sub, c);
        match first_index_of(sub, c) {
            Some(k) => {
                assert(sub[k] == s@[lo + k]);
            },
            None => {},
        }
    }
    None
}

/// Bounds `(lo, hi)` such that `s[lo..hi]` is `s` trimmed of white space.
pub fn trim_bounds(s: &Vec<char>) -> (r: (usize, usize))
    ensures
        r.0 <= r.1 <= s.len(),
        s@.subrange(r.0 as int, r.1 as int) == trimmed(s@),
{
    let n = s.len();
    let mut lo: usize = 0;
    assert(s@.subrange(0, n as int) == s@);
    while lo < n && is_white_space_char(s[lo])
        invariant
            lo <= n == s.len(),
            trim_start(s@) == trim_start(s@.subrange(lo as int, n as int)),
        decreases n - lo,
    {
        assert(s@.subrange(lo as int, n as int).drop_first() == s@.subrange(lo + 1, n as int));
        lo += 1;
    }
    let ghost t = s@.subrange(lo as int, n as int);
    assert(trim_start(s@) == t);
    let mut hi: usize = n;
    while hi > lo && is_white_space_char(s[hi - 1])
        invariant
            lo <= hi <= n == s.len(),
            t == s@.subrange(lo as int, n as int),
            trim_end(t) == trim_end(s@.subrange(lo as int, hi as int)),
        decreases hi,
    {
        assert(s@.subrange(lo as int, hi as int).drop_last() == s@.subrange(lo as int, hi - 1));
        hi -= 1;
    }
    if hi > lo {
        assert(s@.subrange(lo as int, hi as int).last() == s@[hi - 1]);
    }
    (lo, hi)
}

/// Reads `s[lo..hi]` as an unsigned integer no larger than `max`, as the
/// standard `from_str` of an unsigned integer type does.
pub fn parse_unsigned(s: &Vec<char>, lo: usize, hi: usize, max: u32) -> (r: Option<u32>)
    requires
        lo <= hi <= s.len(),
    ensures
        r is Some <==> unsigned_from_str(s@.subrange(lo as int, hi as int), max as int) is Some,
        r is Some ==> r->0 == unsigned_from_str(s@.subrange(lo as int, hi as int), max as int)->0,
{
    let ghost whole = s@.subrange(lo as int, hi as int);
    let mut start = lo;
    if start < hi && s[start] == '+' {
        start += 1;
        assert(whole.drop_first() == s@.subrange(start as int, hi as int));
    } else {
        assert(whole == s@.subrange(start as int, hi as int));
    }
    let ghost body = s@.subrange(start as int, hi as int);
    if start == hi {
        return None;
    }
    let cap: u64 = max as u64 + 1;
    let mut value: u64 = 0;
    let mut i = start;
    assert(s@.subrange(start as int, start as int) =~= Seq::<char>::empty());
    while i < hi
        invariant
            start <= i <= hi <= s.len(),
            cap == max + 1,
            body == s@.subrange(start as int, hi as int),
            whole == s@.subrange(lo as int, hi as int),
            body == (if whole.len() > 0 && whole[0] == '+' {
                whole.drop_first()
            } else {
                whole
            }),
            all_digits(s@.subrange(start as int, i as int)),
            digits_value(s@.subrange(start as int, i as int)) >= 0,
            value as int == if digits_value(s@.subrange(start as int, i as int)) < cap {
                digits_value(s@.subrange(start as int, i as int))
            } else {
                cap as int
            },
        decreases hi - i,
    {
        let c = s[i];
        if !('0' <= c && c <= '9') {
            assert(body[i - start] == c);
            assert(!is_digit(body[i - start]));
            return None;
        }
        let d = (c as u32 - '0' as u32) as u64;
        let ghost prev = s@.subrange(start as int, i as int);
        let ghost next = s@.subrange(start as int, i + 1);
        assert(next.drop_last() == prev);
        assert(next.last() == c);
        assert(digits_value(next) == 10 * digits_value(prev) + digit_value(c));
        if value >= cap {
            value = cap;
        } else {
            let v = value * 10 + d;
            value = if v >= cap {
                cap
            } else {
                v
            };
        }
        assert forall|j: int| 0 <= j < next.len() implies is_digit(#[trigger] next[j]) by {
            if j < prev.len() {
                assert(next[j] == prev[j]);
            }
        }
        i += 1;
    }
    assert(s@.subrange(start as int, i as int) == body);
    if value > max as u64 {
        None
    } else {
        Some(value as u32)
    }
}

/// Whether two strings hold the same characters.
pub fn str_matches(a: &str, b: &str) -> (r: bool)
    ensures
        r == (a@ == b@),
{
    let x = chars_of(a);
    let y = chars_of(b);
    if x.len() != y.len() {
        return false;
    }
    let mut i: usize = 0;
    while i < x.len()
        invariant
            x@ == a@,
            y@ == b@,
            x.len() == y.len(),
            i <= x.len(),
            forall|j: int| 0 <= j < i ==> x@[j] == y@[j],
        decreases x.len() - i,
    {
        if x[i] != y[i] {
            return false;
        }
        i += 1;
    }
    assert(x@ =~= y@);
    true
}

} // verus!
