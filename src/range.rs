use vstd::prelude::*;
use vstd::string::*;

verus! {

/// Largest port number.
pub const MAX_PORT: u32 = 65535;

/// Why a scan could not start.
#[derive(Debug, Clone, Copy, PartialEq, Eq, Structural)]
pub enum ScanError {
    /// The port specification is neither `N` nor `A-B` with decimal 16-bit numbers.
    InvalidPortSpec,
    /// The target is not an IP address literal.
    InvalidAddress,
}

pub open spec fn is_digit(c: char) -> bool {
    '0' <= c && c <= '9'
}

pub open spec fn digit_value(c: char) -> int {
    c as int - '0' as int
}

/// Value of a string of decimal digits, most significant first.
pub open spec fn decimal_value(s: Seq<char>) -> int
    decreases s.len(),
{
    if s.len() == 0 {
        0
    } else {
        decimal_value(s.drop_last()) * 10 + digit_value(s.last())
    }
}

pub open spec fn all_digits(s: Seq<char>) -> bool {
    forall|k: int| 0 <= k < s.len() ==> is_digit(#[trigger] s[k])
}

/// A non-empty run of decimal digits whose value fits a port number.
pub open spec fn is_port_number(s: Seq<char>) -> bool {
    s.len() > 0 && all_digits(s) && decimal_value(s) <= MAX_PORT
}

/// `s` reads `A-B`, with the hyphen at index `i`.
pub open spec fn is_range_at(s: Seq<char>, i: int) -> bool {
    0 <= i < s.len() && s[i] == '-' && is_port_number(s.subrange(0, i))
        && is_port_number(s.subrange(i + 1, s.len() as int))
}

pub open spec fn is_range_spec(s: Seq<char>) -> bool {
    exists|i: int| is_range_at(s, i)
}

/// The ports `a, a+1, ..., b`; empty when `a > b`.
pub open spec fn port_range(a: int, b: int) -> Seq<u16> {
    if a <= b {
        Seq::new((b - a + 1) as nat, |k: int| (a + k) as u16)
    } else {
        Seq::empty()
    }
}

/// The ports that a specification stands for, or `None` when it is malformed.
pub open spec fn resolve_spec(s: Seq<char>) -> Option<Seq<u16>> {
    if is_port_number(s) {
        Some(seq![decimal_value(s) as u16])
    } else if is_range_spec(s) {
        let i = choose|i: int| is_range_at(s, i);
        Some(
            port_range(
                decimal_value(s.subrange(0, i)),
                decimal_value(s.subrange(i + 1, s.len() as int)),
            ),
        )
    } else {
        None
    }
}

pub proof fn lemma_decimal_value_nonneg(s: Seq<char>)
    requires
        all_digits(s),
    ensures
        decimal_value(s) >= 0,
    decreases s.len(),
{
    if s.len() > 0 {
        assert(all_digits(s.drop_last())) by {
            assert forall|k: int| 0 <= k < s.drop_last().len() implies is_digit(
                #[trigger] s.drop_last()[k],
            ) by {
                assert(s.drop_last()[k] == s[k]);
            }
        }
        lemma_decimal_value_nonneg(s.drop_last());
        assert(is_digit(s[s.len() - 1]));
    }
}

/// Reads `s[from..to]` as a port number; `None` unless it is one.
fn parse_port(s: &str, from: usize, to: usize) -> (r: Option<u16>)
    requires
        from <= to <= s@.len(),
    ensures
        match r {
            Some(p) => is_port_number(s@.subrange(from as int, to as int)) && p as int
                == decimal_value(s@.subrange(from as int, to as int)),
            None => !is_port_number(s@.subrange(from as int, to as int)),
        },
{
    if from == to {
        return None;
    }
    let ghost full = s@.subrange(from as int, to as int);
    // `acc` is the value read so far, capped one above the largest port.
    let mut acc: u32 = 0;
    let mut i: usize = from;
    while i < to
        invariant
            from <= i <= to <= s@.len(),
            full == s@.subrange(from as int, to as int),
            all_digits(s@.subrange(from as int, i as int)),
            acc <= MAX_PORT + 1,
            acc as int == if decimal_value(s@.subrange(from as int, i as int)) <= MAX_PORT {
                decimal_value(s@.subrange(from as int, i as int))
            } else {
                MAX_PORT + 1
            },
        decreases to - i,
    {
        let c = s.get_char(i);
        let ghost pre = s@.subrange(from as int, i as int);
        let ghost next = s@.subrange(from as int, i as int + 1);
        assert(next.drop_last() =~= pre);
        assert(next.last() == c);
        if c < '0' || c > '9' {
            assert(full[i - from] == c);
            assert(!all_digits(full));
            return None;
        }
        let d: u32 = (c as u32) - ('0' as u32);
        proof {
            lemma_decimal_value_nonneg(pre);
            assert(decimal_value(next) == decimal_value(pre) * 10 + d);
        }
        if acc > MAX_PORT {
            acc = MAX_PORT + 1;
            assert(decimal_value(pre) > MAX_PORT);
            assert(decimal_value(next) > MAX_PORT) by (nonlinear_arith)
                requires
                    decimal_value(pre) > MAX_PORT,
                    decimal_value(next) == decimal_value(pre) * 10 + d,
                    d >= 0,
            ;
        } else {
            let v = acc * 10 + d;
            if v > MAX_PORT {
                acc = MAX_PORT + 1;
            } else {
                acc = v;
            }
        }
        assert(all_digits(next)) by {
            assert forall|k: int| 0 <= k < next.len() implies is_digit(#[trigger] next[k]) by {
                if k < pre.len() {
                    assert(next[k] == pre[k]);
                }
            }
        }
        i = i + 1;
    }
    assert(s@.subrange(from as int, i as int) =~= full);
    if acc > MAX_PORT {
        None
    } else {
        Some(acc as u16)
    }
}

/// Builds the vector of ports `a..=b`.
fn ports_between(a: u16, b: u16) -> (r: Vec<u16>)
    ensures
        r@ == port_range(a as int, b as int),
{
    let mut v: Vec<u16> = Vec::new();
    if a > b {
        return v;
    }
    let mut p: u32 = a as u32;
    while p <= b as u32
        invariant
            a <= b,
            a as u32 <= p <= b as u32 + 1,
            v@.len() == p - a,
            forall|k: int| 0 <= k < v@.len() ==> #[trigger] v@[k] as int == a as int + k,
        decreases b as u32 + 1 - p,
    {
        v.push(p as u16);
        p = p + 1;
    }
    assert(v@ =~= port_range(a as int, b as int));
    v
}

/// Turns a port specification (`N` or `A-B`) into the ports it names, in
/// ascending order. An inverted range `A-B` with `A > B` names no port.
pub fn parsear_rango(rango: &str) -> (r: Result<Vec<u16>, ScanError>)
    ensures
        match r {
            Ok(v) => resolve_spec(rango@) == Some(v@),
            Err(e) => e == ScanError::InvalidPortSpec && resolve_spec(rango@) is None,
        },
{
    let n = rango.unicode_len();
    let mut first: Option<usize> = None;
    let mut second: Option<usize> = None;
    let mut i: usize = 0;
    while i < n
        invariant
            n == rango@.len(),
            i <= n,
            match first {
                None => forall|k: int| 0 <= k < i ==> rango@[k] != '-',
                Some(a) => a < i && rango@[a as int] == '-' && match second {
                    None => forall|k: int| 0 <= k < i && k != a ==> rango@[k] != '-',
                    Some(b) => b < i && b != a && rango@[b as int] == '-',
                },
            },
            first is None ==> second is None,
        decreases n - i,
    {
        if rango.get_char(i) == '-' {
            match first {
                None => {
                    first = Some(i);
                },
                Some(_) => {
                    if second.is_none() {
                        second = Some(i);
                    }
                },
            }
        }
        i = i + 1;
    }
    let ghost s = rango@;
    match first {
        None => {
            assert(!is_range_spec(s));
            assert(s.subrange(0, n as int) =~= s);
            match parse_port(rango, 0, n) {
                Some(p) => Ok(vec![p]),
                None => Err(ScanError::InvalidPortSpec),
            }
        },
        Some(h) => {
            assert(!is_port_number(s)) by {
                assert(!is_digit(s[h as int]));
            }
            match second {
                Some(h2) => {
                    assert(!is_range_spec(s)) by {
                        assert forall|j: int| !is_range_at(s, j) by {
                            if 0 <= j < s.len() && s[j] == '-' {
                                let o = if j == h { h2 as int } else { h as int };
                                if o < j {
                                    assert(s.subrange(0, j)[o] == '-');
                                    assert(!all_digits(s.subrange(0, j)));
                                } else {
                                    assert(s.subrange(j + 1, s.len() as int)[o - j - 1] == '-');
                                    assert(!all_digits(s.subrange(j + 1, s.len() as int)));
                                }
                            }
                        }
                    }
                    Err(ScanError::InvalidPortSpec)
                },
                None => {
                    assert forall|j: int| #[trigger] is_range_at(s, j) implies j == h by {}
                    let left = parse_port(rango, 0, h);
                    let right = parse_port(rango, h + 1, n);
                    match (left, right) {
                        (Some(a), Some(b)) => {
                            assert(is_range_at(s, h as int));
                            Ok(ports_between(a, b))
                        },
                        _ => {
                            assert(!is_range_spec(s));
                            Err(ScanError::InvalidPortSpec)
                        },
                    }
                },
            }
        },
    }
}

} // verus!
