//! Protocol versions `major.minor.patch`, and their text form `"1.0.0"`.

use vstd::prelude::*;

verus! {

/// The decimal digit for `d < 10`.
pub open spec fn digit_char(d: nat) -> char {
    ((48 + d) as u8) as char
}

pub open spec fn is_digit(c: char) -> bool {
    '0' <= c && c <= '9'
}

/// Decimal text of `n`, with no leading zeros.
pub open spec fn decimal_text(n: nat) -> Seq<char>
    decreases n,
{
    if n < 10 {
        seq![digit_char(n)]
    } else {
        decimal_text(n / 10).push(digit_char(n % 10))
    }
}

/// The number that a string of decimal digits spells.
pub open spec fn digits_value(s: Seq<char>) -> nat
    decreases s.len(),
{
    if s.len() == 0 {
        0
    } else {
        digits_value(s.drop_last()) * 10 + ((s.last() as u32) - 48) as nat
    }
}

/// A `u32` as `str::parse` reads it: an optional `+`, then one digit or more,
/// with a value that fits.
pub open spec fn u32_of_text(s: Seq<char>) -> Option<u32> {
    let d = unsigned_digits(s);
    if d.len() > 0 && all_digits(d) && digits_value(d) <= u32::MAX {
        Some(digits_value(d) as u32)
    } else {
        None
    }
}

pub open spec fn all_digits(s: Seq<char>) -> bool {
    forall|i: int| 0 <= i < s.len() ==> #[trigger] is_digit(s[i])
}

/// `s` without a leading `+`.
pub open spec fn unsigned_digits(s: Seq<char>) -> Seq<char> {
    if s.len() > 0 && s[0] == '+' {
        s.drop_first()
    } else {
        s
    }
}

/// The pieces of `s` between dots, as `str::split('.')` gives them.
pub open spec fn split_dots(s: Seq<char>) -> Seq<Seq<char>>
    decreases s.len(),
{
    if s.len() == 0 {
        seq![Seq::empty()]
    } else {
        let p = split_dots(s.drop_last());
        if s.last() == '.' {
            p.push(Seq::empty())
        } else {
            p.update(p.len() - 1, p.last().push(s.last()))
        }
    }
}

/// A protocol version of the chain that a fixture was generated for.
#[derive(Clone, Copy, Debug, PartialEq, Eq, Structural)]
pub struct ProtocolVersion {
    pub major: u32,
    pub minor: u32,
    pub patch: u32,
}

/// The text form of a version, `major.minor.patch`.
pub open spec fn version_text(v: ProtocolVersion) -> Seq<char> {
    decimal_text(v.major as nat) + seq!['.'] + decimal_text(v.minor as nat) + seq!['.']
        + decimal_text(v.patch as nat)
}

/// The version that text spells: three pieces between dots, each a `u32`.
pub open spec fn version_of_text(s: Seq<char>) -> Option<ProtocolVersion> {
    let t = split_dots(s);
    if t.len() == 3 {
        match (u32_of_text(t[0]), u32_of_text(t[1]), u32_of_text(t[2])) {
            (Some(a), Some(b), Some(c)) => Some(ProtocolVersion { major: a, minor: b, patch: c }),
            _ => None,
        }
    } else {
        None
    }
}

impl ProtocolVersion {
    pub fn new(major: u32, minor: u32, patch: u32) -> (r: ProtocolVersion)
        ensures
            r == (ProtocolVersion { major, minor, patch }),
    {
        ProtocolVersion { major, minor, patch }
    }

    /// The version as text, `"1.0.0"`.
    pub fn to_text(&self) -> (r: String)
        ensures
            r@ == version_text(*self),
    {
        let mut out = String::new();
        push_decimal(&mut out, self.major);
        out.push('.');
        push_decimal(&mut out, self.minor);
        out.push('.');
        push_decimal(&mut out, self.patch);
        assert(out@ =~= version_text(*self));
        out
    }

    /// Reads a version from its text; `None` where the text is not one.
    pub fn parse(s: &str) -> (r: Option<ProtocolVersion>)
        ensures
            r == version_of_text(s@),
    {
        let pieces = split_on_dots(s);
        if pieces.len() != 3 {
            return None;
        }
        let a = parse_u32(pieces[0].as_str());
        let b = parse_u32(pieces[1].as_str());
        let c = parse_u32(pieces[2].as_str());
        match (a, b, c) {
            (Some(a), Some(b), Some(c)) => Some(ProtocolVersion { major: a, minor: b, patch: c }),
            _ => None,
        }
    }
}

/// Appends the decimal text of `n`.
fn push_decimal(out: &mut String, n: u32)
    ensures
        final(out)@ == old(out)@ + decimal_text(n as nat),
    decreases n,
{
    if n >= 10 {
        push_decimal(out, n / 10);
    }
    let d = (n % 10) as u8;
    out.push((48 + d) as char);
    assert(out@ =~= old(out)@ + decimal_text(n as nat));
}

/// Splits text at each dot.
fn split_on_dots(s: &str) -> (r: Vec<String>)
    ensures
        r@.map_values(|p: String| p@) == split_dots(s@),
{
    let n = s.unicode_len();
    let mut done: Vec<String> = Vec::new();
    let mut cur = String::new();
    let mut i: usize = 0;
    while i < n
        invariant
            n == s@.len(),
            i <= n,
            done@.map_values(|p: String| p@).push(cur@) == split_dots(s@.subrange(0, i as int)),
        decreases n - i,
    {
        let c = s.get_char(i);
        let ghost before = s@.subrange(0, i as int);
        assert(s@.subrange(0, i + 1).drop_last() =~= before);
        if c == '.' {
            let piece = cur;
            done.push(piece);
            cur = String::new();
            assert(done@.map_values(|p: String| p@).push(cur@) =~= split_dots(before).push(
                Seq::empty(),
            ));
        } else {
            cur.push(c);
            assert(done@.map_values(|p: String| p@).push(cur@) =~= split_dots(before).update(
                split_dots(before).len() - 1,
                split_dots(before).last().push(c),
            ));
        }
        i = i + 1;
    }
    assert(s@.subrange(0, n as int) =~= s@);
    done.push(cur);
    assert(done@.map_values(|p: String| p@) =~= split_dots(s@));
    done
}

proof fn lemma_digits_value_grows(s: Seq<char>, k: int)
    requires
        0 <= k <= s.len(),
        forall|i: int| 0 <= i < s.len() ==> #[trigger] is_digit(s[i]),
    ensures
        digits_value(s.subrange(0, k)) <= digits_value(s),
    decreases s.len() - k,
{
    if k < s.len() {
        lemma_digits_value_grows(s, k + 1);
        assert(s.subrange(0, k + 1).drop_last() =~= s.subrange(0, k));
    } else {
        assert(s.subrange(0, k) =~= s);
    }
}

/// Reads a `u32` as `str::parse` does.
fn parse_u32(s: &str) -> (r: Option<u32>)
    ensures
        r == u32_of_text(s@),
{
    let n = s.unicode_len();
    let start: usize = if n > 0 && s.get_char(0) == '+' {
        1
    } else {
        0
    };
    let ghost d = unsigned_digits(s@);
    assert(d =~= s@.subrange(start as int, n as int));
    if start == n {
        return None;
    }
    let mut acc: u64 = 0;
    let mut i: usize = start;
    while i < n
        invariant
            n == s@.len(),
            start <= i <= n,
            d == s@.subrange(start as int, n as int),
            d == unsigned_digits(s@),
            forall|k: int| start <= k < i ==> #[trigger] is_digit(s@[k]),
            acc == digits_value(s@.subrange(start as int, i as int)),
            acc <= u32::MAX,
        decreases n - i,
    {
        let c = s.get_char(i);
        assert(s@.subrange(start as int, i + 1).drop_last() =~= s@.subrange(
            start as int,
            i as int,
        ));
        assert(d[i - start] == c);
        assert(s@.subrange(start as int, i + 1).last() == c);
        if !('0' <= c && c <= '9') {
            assert(!is_digit(d[i - start]));
            assert(!all_digits(d));
            assert(u32_of_text(s@).is_none());
            return None;
        }
        acc = acc * 10 + ((c as u32) - 48) as u64;
        assert(acc == digits_value(s@.subrange(start as int, i + 1)));
        if acc > u32::MAX as u64 {
            proof {
                if all_digits(d) {
                    lemma_digits_value_grows(d, i + 1 - start);
                    assert(d.subrange(0, i + 1 - start) =~= s@.subrange(start as int, i + 1));
                }
            }
            assert(u32_of_text(s@).is_none());
            return None;
        }
        i = i + 1;
    }
    assert(s@.subrange(start as int, n as int) =~= d);
    assert forall|k: int| 0 <= k < d.len() implies #[trigger] is_digit(d[k]) by {
        assert(d[k] == s@[k + start]);
    }
    Some(acc as u32)
}

proof fn lemma_decimal_text(n: nat)
    ensures
        decimal_text(n).len() > 0,
        all_digits(decimal_text(n)),
        digits_value(decimal_text(n)) == n,
    decreases n,
{
    let t = decimal_text(n);
    assert(((((48 + n % 10) as u8) as char) as u32) == 48 + n % 10);
    assert(t.last() == digit_char(n % 10));
    assert(((t.last() as u32) - 48) as nat == n % 10);
    assert(digits_value(t) == digits_value(t.drop_last()) * 10 + n % 10);
    if n < 10 {
        assert(t.drop_last() =~= Seq::<char>::empty());
        assert(digits_value(Seq::<char>::empty()) == 0);
    } else {
        lemma_decimal_text(n / 10);
        assert(t.drop_last() =~= decimal_text(n / 10));
        assert((n / 10) * 10 + n % 10 == n) by (nonlinear_arith);
        assert forall|i: int| 0 <= i < t.len() implies #[trigger] is_digit(t[i]) by {
            if i < t.len() - 1 {
                assert(t[i] == decimal_text(n / 10)[i]);
            }
        }
    }
}

proof fn lemma_split_no_dot(y: Seq<char>)
    requires
        all_digits(y),
    ensures
        split_dots(y) == seq![y],
    decreases y.len(),
{
    if y.len() > 0 {
        assert(is_digit(y[y.len() - 1]));
        assert(all_digits(y.drop_last()) ) by {
            assert forall|i: int| 0 <= i < y.drop_last().len() implies #[trigger] is_digit(
                y.drop_last()[i],
            ) by {
                assert(is_digit(y[i]));
            }
        }
        lemma_split_no_dot(y.drop_last());
        assert(y.drop_last().push(y.last()) =~= y);
        assert(split_dots(y) =~= seq![y]);
    } else {
        assert(y =~= Seq::<char>::empty());
        assert(split_dots(y) =~= seq![y]);
    }
}

proof fn lemma_split_dot(x: Seq<char>, y: Seq<char>)
    requires
        all_digits(y),
    ensures
        split_dots(x + seq!['.'] + y) == split_dots(x).push(y),
    decreases y.len(),
{
    let s = x + seq!['.'] + y;
    if y.len() == 0 {
        assert(y =~= Seq::<char>::empty());
        assert(s.last() == '.');
        assert(s.drop_last() =~= x);
        assert(split_dots(s) =~= split_dots(x).push(y));
    } else {
        let y0 = y.drop_last();
        assert(is_digit(y[y.len() - 1]));
        assert(all_digits(y0)) by {
            assert forall|i: int| 0 <= i < y0.len() implies #[trigger] is_digit(y0[i]) by {
                assert(is_digit(y[i]));
            }
        }
        lemma_split_dot(x, y0);
        assert(s.drop_last() =~= x + seq!['.'] + y0);
        assert(y0.push(y.last()) =~= y);
        assert(split_dots(s) =~= split_dots(x).push(y));
    }
}

proof fn lemma_u32_of_decimal(n: u32)
    ensures
        u32_of_text(decimal_text(n as nat)) == Some(n),
{
    lemma_decimal_text(n as nat);
    let t = decimal_text(n as nat);
    assert(is_digit(t[0]));
    assert(unsigned_digits(t) == t);
}

/// Writing a version as text and reading it back gives the same version.
pub proof fn lemma_version_round_trip(v: ProtocolVersion)
    ensures
        version_of_text(version_text(v)) == Some(v),
{
    let a = decimal_text(v.major as nat);
    let b = decimal_text(v.minor as nat);
    let c = decimal_text(v.patch as nat);
    lemma_decimal_text(v.major as nat);
    lemma_decimal_text(v.minor as nat);
    lemma_decimal_text(v.patch as nat);
    lemma_split_no_dot(a);
    lemma_split_dot(a, b);
    lemma_split_dot(a + seq!['.'] + b, c);
    assert(version_text(v) =~= (a + seq!['.'] + b) + seq!['.'] + c);
    let t = split_dots(version_text(v));
    assert(t =~= seq![a, b, c]);
    lemma_u32_of_decimal(v.major);
    lemma_u32_of_decimal(v.minor);
    lemma_u32_of_decimal(v.patch);
}

} // verus!
