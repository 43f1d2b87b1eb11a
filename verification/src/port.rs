//! The textual port-range utility: `"<start>-<end>"`, both bounds unsigned
//! 16-bit decimals with `start <= end`.
use vstd::prelude::*;
use vstd::string::StringSliceAdditionalSpecFns;

use crate::Error;

verus! {

/// Byte value of `-`, the separator between the two bounds.
pub const DASH: u8 = 0x2d;

/// Byte value of `+`, an accepted sign prefix on either bound.
pub const PLUS: u8 = 0x2b;

pub open spec fn is_dec_digit(b: u8) -> bool {
    0x30 <= b && b <= 0x39
}

pub open spec fn digit_val(b: u8) -> int {
    b - 0x30
}

pub open spec fn all_digits(s: Seq<u8>) -> bool {
    forall|k: int| 0 <= k < s.len() ==> is_dec_digit(#[trigger] s[k])
}

/// Numeric value of a digit string, most significant digit first.
pub open spec fn dec_value(s: Seq<u8>) -> int
    decreases s.len(),
{
    if s.len() == 0 {
        0
    } else {
        dec_value(s.drop_last()) * 10 + digit_val(s.last())
    }
}

/// The digit part of one bound: everything after an optional leading `+`
/// (which std's unsigned decimal parser accepts, and so does this one).
pub open spec fn unsigned_digits(s: Seq<u8>) -> Seq<u8> {
    if s.len() > 0 && s[0] == PLUS {
        s.skip(1)
    } else {
        s
    }
}

/// `s` spells an unsigned 16-bit number in decimal.
pub open spec fn is_u16_text(s: Seq<u8>) -> bool {
    let d = unsigned_digits(s);
    &&& d.len() > 0
    &&& all_digits(d)
    &&& dec_value(d) <= u16::MAX
}

pub open spec fn u16_text_value(s: Seq<u8>) -> int {
    dec_value(unsigned_digits(s))
}

/// The dash at position `i` is the only one in `s`, so `s` splits into
/// exactly two sections there.
pub open spec fn splits_at(s: Seq<u8>, i: int) -> bool {
    &&& 0 <= i < s.len()
    &&& s[i] == DASH
    &&& forall|k: int| 0 <= k < s.len() && k != i ==> #[trigger] s[k] != DASH
}

/// `s` spells a valid range: two unsigned 16-bit decimals around a single
/// dash, first bound at most the second.
pub open spec fn is_port_range_text(s: Seq<u8>) -> bool {
    exists|i: int|
        {
            &&& #[trigger] splits_at(s, i)
            &&& is_u16_text(s.take(i))
            &&& is_u16_text(s.skip(i + 1))
            &&& u16_text_value(s.take(i)) <= u16_text_value(s.skip(i + 1))
        }
}

proof fn lemma_dec_value_nonneg(s: Seq<u8>)
    requires
        all_digits(s),
    ensures
        dec_value(s) >= 0,
    decreases s.len(),
{
    if s.len() > 0 {
        assert forall|k: int| 0 <= k < s.drop_last().len() implies is_dec_digit(
            #[trigger] s.drop_last()[k],
        ) by {
            assert(s.drop_last()[k] == s[k]);
        }
        lemma_dec_value_nonneg(s.drop_last());
    }
}

/// A digit string is worth at least any of its prefixes.
proof fn lemma_dec_value_prefix_le(s: Seq<u8>, k: int)
    requires
        all_digits(s),
        0 <= k <= s.len(),
    ensures
        dec_value(s.take(k)) <= dec_value(s),
    decreases s.len() - k,
{
    assert forall|m: int| 0 <= m <= s.len() implies all_digits(s.take(m)) by {
        assert forall|j: int| 0 <= j < s.take(m).len() implies is_dec_digit(
            #[trigger] s.take(m)[j],
        ) by {
            assert(s.take(m)[j] == s[j]);
        }
    }
    if k == s.len() {
        assert(s.take(k) =~= s);
    } else {
        assert(s.take(k + 1).drop_last() =~= s.take(k));
        assert(s.take(k + 1).last() == s[k]);
        lemma_dec_value_nonneg(s.take(k));
        assert(dec_value(s.take(k + 1)) == dec_value(s.take(k)) * 10 + digit_val(s[k]));
        lemma_dec_value_prefix_le(s, k + 1);
    }
}

/// Reads one bound: an optional `+`, then decimal digits whose value fits
/// in 16 bits.
fn parse_u16(s: &[u8]) -> (r: Option<u16>)
    ensures
        r is Some <==> is_u16_text(s@),
        r matches Some(v) ==> v == u16_text_value(s@),
{
    let n: usize = s.len();
    let mut start: usize = 0;
    if n > 0 && s[0] == PLUS {
        start = 1;
    }
    let ghost d: Seq<u8> = unsigned_digits(s@);
    proof {
        assert(d =~= s@.skip(start as int));
    }
    if start >= n {
        return None;
    }
    let mut acc: u32 = 0;
    let mut j: usize = start;
    while j < n
        invariant
            start <= j <= n,
            n == s@.len(),
            start <= 1,
            d == unsigned_digits(s@),
            d == s@.skip(start as int),
            d.len() == n - start,
            all_digits(d.take(j - start)),
            acc == dec_value(d.take(j - start)),
            acc <= u16::MAX,
        decreases n - j,
    {
        let b = s[j];
        if b < 0x30 || b > 0x39 {
            proof {
                assert(d[j - start] == s@[j as int]);
                assert(!is_dec_digit(d[j - start]));
            }
            return None;
        }
        proof {
            assert(d.take(j - start + 1).drop_last() =~= d.take(j - start));
            assert(d.take(j - start + 1).last() == d[j - start]);
            assert(d[j - start] == s@[j as int]);
        }
        acc = acc * 10 + (b - 0x30) as u32;
        j = j + 1;
        if acc > 0xffff {
            proof {
                if all_digits(d) {
                    lemma_dec_value_prefix_le(d, j - start);
                }
            }
            return None;
        }
    }
    proof {
        assert(d.take(n - start) =~= d);
    }
    Some(acc as u16)
}

/// One inclusive range of port numbers, `start <= end`.
#[derive(Clone, Copy, Debug, PartialEq, Eq, Structural)]
pub struct PortRange {
    start: u16,
    end: u16,
}

impl PortRange {
    pub closed spec fn spec_start(&self) -> u16 {
        self.start
    }

    pub closed spec fn spec_end(&self) -> u16 {
        self.end
    }

    /// Builds a range, rejecting inverted bounds.
    pub fn new(start: u16, end: u16) -> (r: Result<PortRange, Error>)
        ensures
            start <= end ==> (r matches Ok(pr) && pr.spec_start() == start && pr.spec_end()
                == end),
            start > end ==> (r matches Err(e) && e == Error::InvalidPortRange),
    {
        if start > end {
            Err(Error::InvalidPortRange)
        } else {
            Ok(PortRange { start, end })
        }
    }

    /// First port of the range.
    pub fn start(&self) -> (r: u16)
        ensures
            r == self.spec_start(),
    {
        self.start
    }

    /// Last port of the range.
    pub fn end(&self) -> (r: u16)
        ensures
            r == self.spec_end(),
    {
        self.end
    }

    /// Parses `"<start>-<end>"`: succeeds exactly on well-formed, ordered
    /// ranges, and then returns the two parsed bounds.
    pub fn from(s: &str) -> (r: Result<PortRange, Error>)
        ensures
            r is Ok <==> is_port_range_text(s.spec_bytes()),
            r matches Ok(pr) ==> exists|i: int|
                {
                    &&& #[trigger] splits_at(s.spec_bytes(), i)
                    &&& pr.spec_start() == u16_text_value(s.spec_bytes().take(i))
                    &&& pr.spec_end() == u16_text_value(s.spec_bytes().skip(i + 1))
                    &&& pr.spec_start() <= pr.spec_end()
                },
            r matches Err(e) ==> e == Error::InvalidPortRange,
    {
        let bytes: &[u8] = s.as_bytes();
        let n: usize = bytes.len();
        let mut i: usize = 0;
        let mut dash: usize = n;  // `n` stands for "no dash seen yet"
        while i < n
            invariant
                0 <= i <= n,
                n == bytes@.len(),
                bytes@ == s.spec_bytes(),
                dash <= n,
                dash == n ==> forall|k: int| 0 <= k < i ==> #[trigger] bytes@[k] != DASH,
                dash < n ==> dash < i && bytes@[dash as int] == DASH && forall|k: int|
                    0 <= k < i && k != dash ==> #[trigger] bytes@[k] != DASH,
            decreases n - i,
        {
            if bytes[i] == DASH {
                if dash < n {
                    // a second dash: no position splits the string in two
                    proof {
                        assert forall|m: int| !splits_at(bytes@, m) by {
                            if splits_at(bytes@, m) {
                                if m == dash as int {
                                    assert(bytes@[i as int] == DASH);
                                } else {
                                    assert(bytes@[dash as int] == DASH);
                                }
                            }
                        }
                    }
                    return Err(Error::InvalidPortRange);
                }
                dash = i;
            }
            i = i + 1;
        }
        if dash == n {
            proof {
                assert forall|m: int| !splits_at(bytes@, m) by {
                    if splits_at(bytes@, m) {
                        assert(bytes@[m] == DASH);
                    }
                }
            }
            return Err(Error::InvalidPortRange);
        }
        proof {
            assert(splits_at(bytes@, dash as int));
            assert forall|m: int| splits_at(bytes@, m) implies m == dash as int by {
                if m != dash as int {
                    assert(bytes@[dash as int] == DASH);
                }
            }
            assert(bytes@.subrange(0, dash as int) =~= bytes@.take(dash as int));
            assert(bytes@.subrange(dash as int + 1, n as int) =~= bytes@.skip(dash as int + 1));
        }
        let head = parse_u16(&bytes[0..dash]);
        let tail = parse_u16(&bytes[dash + 1..n]);
        match (head, tail) {
            (Some(a), Some(b)) => {
                if a <= b {
                    Ok(PortRange { start: a, end: b })
                } else {
                    Err(Error::InvalidPortRange)
                }
            },
            _ => Err(Error::InvalidPortRange),
        }
    }
}

} // verus!
