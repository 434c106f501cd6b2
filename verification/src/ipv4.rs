use vstd::prelude::*;

verus! {

/// An ASCII decimal digit.
pub open spec fn is_ascii_digit(c: char) -> bool {
    '0' <= c && c <= '9'
}

/// Numeric value of an ASCII decimal digit.
pub open spec fn digit_value(c: char) -> int {
    (c as int) - ('0' as int)
}

/// Value of a run of decimal digits, most significant first.
pub open spec fn decimal_value(s: Seq<char>) -> int
    decreases s.len(),
{
    if s.len() == 0 {
        0
    } else {
        decimal_value(s.drop_last()) * 10 + digit_value(s.last())
    }
}

/// One component of a dotted-quad address: one to three ASCII digits, no
/// leading zero unless the component is "0" itself, and a value of at most 255.
pub open spec fn is_octet(s: Seq<char>) -> bool {
    &&& 1 <= s.len() <= 3
    &&& forall|i: int| 0 <= i < s.len() ==> is_ascii_digit(#[trigger] s[i])
    &&& (s.len() > 1 ==> s[0] != '0')
    &&& decimal_value(s) <= 255
}

/// `s` is four octets separated by dots at positions `a`, `b` and `c`.
pub open spec fn ipv4_split_at(s: Seq<char>, a: int, b: int, c: int) -> bool {
    &&& 0 <= a < b < c < s.len()
    &&& s[a] == '.'
    &&& s[b] == '.'
    &&& s[c] == '.'
    &&& is_octet(s.subrange(0, a))
    &&& is_octet(s.subrange(a + 1, b))
    &&& is_octet(s.subrange(b + 1, c))
    &&& is_octet(s.subrange(c + 1, s.len() as int))
}

/// `s` is an IPv4 address in dotted-decimal notation, as accepted by the
/// standard library's `Ipv4Addr` parser.
pub open spec fn is_ipv4(s: Seq<char>) -> bool {
    exists|a: int, b: int, c: int| ipv4_split_at(s, a, b, c)
}

/// The dots of a well-formed address are exactly its three separators, and
/// such an address has at most 15 characters.
proof fn lemma_split_dots(s: Seq<char>, a: int, b: int, c: int)
    requires
        ipv4_split_at(s, a, b, c),
    ensures
        s.len() <= 15,
        forall|p: int| 0 <= p < s.len() && s[p] == '.' ==> p == a || p == b || p == c,
{
    assert forall|p: int| 0 <= p < s.len() && s[p] == '.' implies p == a || p == b || p == c by {
        if p < a {
            assert(s.subrange(0, a)[p] == s[p]);
        } else if a < p < b {
            assert(s.subrange(a + 1, b)[p - a - 1] == s[p]);
        } else if b < p < c {
            assert(s.subrange(b + 1, c)[p - b - 1] == s[p]);
        } else if c < p {
            assert(s.subrange(c + 1, s.len() as int)[p - c - 1] == s[p]);
        }
    }
}

/// Whether `s[lo..hi]` is an octet.
fn check_octet(s: &str, lo: usize, hi: usize) -> (ok: bool)
    requires
        lo <= hi <= s@.len(),
    ensures
        ok == is_octet(s@.subrange(lo as int, hi as int)),
{
    let ghost seg = s@.subrange(lo as int, hi as int);
    if hi - lo < 1 || hi - lo > 3 {
        return false;
    }
    let mut value: u32 = 0;
    let mut i = lo;
    while i < hi
        invariant
            lo <= i <= hi <= s@.len(),
            1 <= hi - lo <= 3,
            seg == s@.subrange(lo as int, hi as int),
            forall|j: int| lo <= j < i ==> is_ascii_digit(#[trigger] s@[j]),
            value == decimal_value(s@.subrange(lo as int, i as int)),
            i - lo <= 1 ==> value <= 9,
            i - lo <= 2 ==> value <= 99,
            value <= 999,
        decreases hi - i,
    {
        let ch = s.get_char(i);
        if ch < '0' || ch > '9' {
            assert(seg[i - lo] == ch);
            return false;
        }
        let d = (ch as u32) - ('0' as u32);
        assert(s@.subrange(lo as int, i + 1).drop_last() =~= s@.subrange(lo as int, i as int));
        value = value * 10 + d;
        i = i + 1;
    }
    assert(s@.subrange(lo as int, i as int) =~= seg);
    assert forall|j: int| 0 <= j < seg.len() implies is_ascii_digit(#[trigger] seg[j]) by {
        assert(seg[j] == s@[lo + j]);
    }
    if hi - lo > 1 && s.get_char(lo) == '0' {
        assert(seg[0] == s@[lo as int]);
        return false;
    }
    value <= 255
}

/// Whether `s` is a dotted-decimal IPv4 address ("192.168.1.1").
pub fn is_valid_ipv4(s: &str) -> (ok: bool)
    ensures
        ok == is_ipv4(s@),
{
    let n = s.unicode_len();
    if n > 15 {
        proof {
            if is_ipv4(s@) {
                let (a, b, c) = choose|a: int, b: int, c: int| ipv4_split_at(s@, a, b, c);
                lemma_split_dots(s@, a, b, c);
            }
        }
        return false;
    }
    let mut dots: Vec<usize> = Vec::new();
    let mut i: usize = 0;
    while i < n
        invariant
            n == s@.len(),
            i <= n,
            dots.len() <= 3,
            forall|j: int| 0 <= j < dots.len() ==> dots[j] < i && s@[dots[j] as int] == '.',
            forall|j: int, k: int| 0 <= j < k < dots.len() ==> dots[j] < dots[k],
            forall|p: int| 0 <= p < i && s@[p] == '.' ==> dots@.contains(p as usize),
        decreases n - i,
    {
        let ghost old_dots = dots@;
        let is_dot = s.get_char(i) == '.';
        if is_dot {
            if dots.len() == 3 {
                proof {
                    if is_ipv4(s@) {
                        let (a, b, c) = choose|a: int, b: int, c: int| ipv4_split_at(s@, a, b, c);
                        lemma_split_dots(s@, a, b, c);
                        assert(dots[0] == a || dots[0] == b || dots[0] == c);
                        assert(dots[1] == a || dots[1] == b || dots[1] == c);
                        assert(dots[2] == a || dots[2] == b || dots[2] == c);
                        assert(i == a || i == b || i == c);
                    }
                }
                return false;
            }
            dots.push(i);
        }
        proof {
            assert forall|p: int| 0 <= p < i + 1 && s@[p] == '.' implies dots@.contains(
                p as usize,
            ) by {
                if p < i {
                    let j = choose|j: int| 0 <= j < old_dots.len() && old_dots[j] == p as usize;
                    assert(dots@[j] == old_dots[j]);
                } else {
                    assert(dots@[dots.len() - 1] == i);
                }
            }
        }
        i = i + 1;
    }
    proof {
        if is_ipv4(s@) {
            let (a, b, c) = choose|a: int, b: int, c: int| ipv4_split_at(s@, a, b, c);
            lemma_split_dots(s@, a, b, c);
            assert(dots@.contains(a as usize));
            assert(dots@.contains(b as usize));
            assert(dots@.contains(c as usize));
            let ia = choose|j: int| 0 <= j < dots.len() && dots[j] == a as usize;
            let ib = choose|j: int| 0 <= j < dots.len() && dots[j] == b as usize;
            let ic = choose|j: int| 0 <= j < dots.len() && dots[j] == c as usize;
            assert(ia < ib < ic);
            assert(dots.len() == 3 && dots[0] == a && dots[1] == b && dots[2] == c);
        }
    }
    if dots.len() != 3 {
        return false;
    }
    let a = dots[0];
    let b = dots[1];
    let c = dots[2];
    let ok = check_octet(s, 0, a) && check_octet(s, a + 1, b) && check_octet(s, b + 1, c)
        && check_octet(s, c + 1, n);
    proof {
        if ok {
            assert(ipv4_split_at(s@, a as int, b as int, c as int));
        }
    }
    ok
}

} // verus!
