use vstd::prelude::*;

use crate::range::{
    all_digits, decimal_value, digit_value, is_digit, lemma_decimal_value_nonneg, is_port_number, is_range_at, is_range_spec, port_range,
    resolve_spec,
};
use crate::render::{decimal_text, digit_text};
use crate::scan::{any_open, closing_line, port_lines, ReportLine};
use crate::status::PortStatus;

verus! {

/// A specification written `A-B` resolves as the range between its two numbers.
proof fn lemma_joined(l: Seq<char>, r: Seq<char>)
    requires
        is_port_number(l),
        is_port_number(r),
    ensures
        resolve_spec(l + seq!['-'] + r) == Some(port_range(decimal_value(l), decimal_value(r))),
{
    let s = l + seq!['-'] + r;
    let h = l.len() as int;
    assert(s[h] == '-');
    assert(!is_port_number(s)) by {
        assert(!is_digit(s[h]));
    }
    assert(s.subrange(0, h) =~= l);
    assert(s.subrange(h + 1, s.len() as int) =~= r);
    assert(is_range_at(s, h));
    assert forall|j: int| #[trigger] is_range_at(s, j) implies j == h by {
        if j < h {
            assert(l[j] == s[j]);
        } else if j > h {
            assert(r[j - h - 1] == s[j]);
        }
    }
}

/// A single port number `N` resolves to exactly `[N]`.
pub proof fn law_single_number(s: Seq<char>)
    requires
        is_port_number(s),
    ensures
        resolve_spec(s) == Some(seq![decimal_value(s) as u16]),
{
}

/// `A-B` with `A <= B` resolves to `A, A+1, ..., B`: `B - A + 1` ports, ascending.
pub proof fn law_ascending_range(l: Seq<char>, r: Seq<char>)
    requires
        is_port_number(l),
        is_port_number(r),
        decimal_value(l) <= decimal_value(r),
    ensures
        resolve_spec(l + seq!['-'] + r) matches Some(v) && v.len() == decimal_value(r)
            - decimal_value(l) + 1 && (forall|k: int|
            0 <= k < v.len() ==> #[trigger] v[k] as int == decimal_value(l) + k) && (forall|
            k: int,
        |
            0 <= k < v.len() - 1 ==> #[trigger] v[k] < v[k + 1]),
{
    lemma_joined(l, r);
    lemma_decimal_value_nonneg(l);
    let v = port_range(decimal_value(l), decimal_value(r));
    assert forall|k: int| 0 <= k < v.len() implies #[trigger] v[k] as int == decimal_value(l)
        + k by {}
    assert forall|k: int| 0 <= k < v.len() - 1 implies #[trigger] v[k] < v[k + 1] by {
        assert(v[k + 1] as int == decimal_value(l) + k + 1);
    }
}

/// An inverted range `A-B` with `A > B` resolves, always, to no port at all.
pub proof fn law_inverted_range_is_empty(l: Seq<char>, r: Seq<char>)
    requires
        is_port_number(l),
        is_port_number(r),
        decimal_value(l) > decimal_value(r),
    ensures
        resolve_spec(l + seq!['-'] + r) == Some(Seq::<u16>::empty()),
{
    lemma_joined(l, r);
}

/// The empty specification names no port and is rejected.
pub proof fn law_empty_rejected()
    ensures
        resolve_spec(Seq::<char>::empty()) is None,
{
}

/// A specification with two hyphens or more is rejected.
pub proof fn law_two_hyphens_rejected(s: Seq<char>, i: int, j: int)
    requires
        0 <= i < j < s.len(),
        s[i] == '-',
        s[j] == '-',
    ensures
        resolve_spec(s) is None,
{
    assert(!is_digit(s[i]));
    assert forall|m: int| !is_range_at(s, m) by {
        if 0 <= m < s.len() && s[m] == '-' {
            let o = if m == i { j } else { i };
            if o < m {
                assert(s.subrange(0, m)[o] == '-');
                assert(!all_digits(s.subrange(0, m)));
            } else {
                assert(s.subrange(m + 1, s.len() as int)[o - m - 1] == '-');
                assert(!all_digits(s.subrange(m + 1, s.len() as int)));
            }
        }
    }
    assert(!is_range_spec(s));
}

/// A specification holding any character other than a digit or a hyphen is rejected.
pub proof fn law_foreign_character_rejected(s: Seq<char>, i: int)
    requires
        0 <= i < s.len(),
        !is_digit(s[i]),
        s[i] != '-',
    ensures
        resolve_spec(s) is None,
{
    assert forall|m: int| !is_range_at(s, m) by {
        if 0 <= m < s.len() && s[m] == '-' {
            if i < m {
                assert(s.subrange(0, m)[i] == s[i]);
                assert(!all_digits(s.subrange(0, m)));
            } else {
                assert(s.subrange(m + 1, s.len() as int)[i - m - 1] == s[i]);
                assert(!all_digits(s.subrange(m + 1, s.len() as int)));
            }
        }
    }
    assert(!is_range_spec(s));
}

/// Without the open-only filter, a run reports every probed port once, in the
/// order probed, with its outcome.
pub proof fn law_full_report(ports: Seq<u16>, statuses: Seq<PortStatus>)
    requires
        statuses.len() <= ports.len(),
    ensures
        port_lines(ports, statuses, false).len() == statuses.len(),
        forall|k: int|
            0 <= k < statuses.len() ==> #[trigger] port_lines(ports, statuses, false)[k]
                == ReportLine::Port(ports[k], statuses[k]),
    decreases statuses.len(),
{
    if statuses.len() > 0 {
        law_full_report(ports, statuses.drop_last());
        let before = port_lines(ports, statuses.drop_last(), false);
        assert forall|k: int| 0 <= k < statuses.len() implies #[trigger] port_lines(
            ports,
            statuses,
            false,
        )[k] == ReportLine::Port(ports[k], statuses[k]) by {
            if k < statuses.len() - 1 {
                assert(before[k] == ReportLine::Port(ports[k], statuses.drop_last()[k]));
            }
        }
    }
}

/// With the open-only filter, every line names an open port, and some line is
/// printed exactly when some port was open.
pub proof fn law_open_only_report(ports: Seq<u16>, statuses: Seq<PortStatus>)
    requires
        statuses.len() <= ports.len(),
    ensures
        forall|k: int|
            0 <= k < port_lines(ports, statuses, true).len() ==> (#[trigger] port_lines(
                ports,
                statuses,
                true,
            )[k] matches ReportLine::Port(_, st) && st == PortStatus::Open),
        port_lines(ports, statuses, true).len() > 0 <==> any_open(statuses),
    decreases statuses.len(),
{
    if statuses.len() > 0 {
        let pre = statuses.drop_last();
        law_open_only_report(ports, pre);
        let last = statuses.len() - 1;
        if any_open(pre) {
            let k = choose|k: int| 0 <= k < pre.len() && pre[k] == PortStatus::Open;
            assert(statuses[k] == pre[k]);
        }
        if any_open(statuses) && statuses[last] != PortStatus::Open {
            let k = choose|k: int| 0 <= k < statuses.len() && statuses[k] == PortStatus::Open;
            assert(pre[k] == statuses[k]);
        }
    }
}

/// A finished open-only run prints the closing notice exactly when it printed
/// no port; a run without the filter never prints it.
pub proof fn law_closing_notice(ports: Seq<u16>, statuses: Seq<PortStatus>, open_only: bool)
    requires
        statuses.len() <= ports.len(),
    ensures
        closing_line(statuses, open_only) is Some <==> (open_only && port_lines(
            ports,
            statuses,
            open_only,
        ).len() == 0),
{
    law_open_only_report(ports, statuses);
}

proof fn lemma_digit_text(d: int)
    requires
        0 <= d < 10,
    ensures
        digit_text(d).len() == 1,
        is_digit(digit_text(d)[0]),
        digit_value(digit_text(d)[0]) == d,
{
    reveal_strlit("0");
    reveal_strlit("1");
    reveal_strlit("2");
    reveal_strlit("3");
    reveal_strlit("4");
    reveal_strlit("5");
    reveal_strlit("6");
    reveal_strlit("7");
    reveal_strlit("8");
    reveal_strlit("9");
}

proof fn lemma_decimal_text(n: nat)
    ensures
        decimal_text(n).len() > 0,
        all_digits(decimal_text(n)),
        decimal_value(decimal_text(n)) == n,
    decreases n,
{
    let d = (n % 10) as int;
    lemma_digit_text(d);
    if n < 10 {
        let t = decimal_text(n);
        assert(t.drop_last() =~= Seq::<char>::empty());
        assert(decimal_value(Seq::<char>::empty()) == 0);
    } else {
        let q = n / 10;
        lemma_decimal_text(q);
        let t = decimal_text(n);
        assert(t == decimal_text(q) + digit_text(d));
        assert(t.drop_last() =~= decimal_text(q));
        assert(t.last() == digit_text(d)[0]);
        assert(all_digits(t)) by {
            assert forall|k: int| 0 <= k < t.len() implies is_digit(#[trigger] t[k]) by {
                if k < decimal_text(q).len() {
                    assert(t[k] == decimal_text(q)[k]);
                }
            }
        }
        assert(q * 10 + d == n);
    }
}

/// The decimal form of a port, as the report prints it, resolves to that port
/// alone; two such forms joined by a hyphen resolve to the range between them.
pub proof fn law_decimal_form_resolves(a: u16, b: u16)
    ensures
        resolve_spec(decimal_text(a as nat)) == Some(seq![a]),
        resolve_spec(decimal_text(a as nat) + seq!['-'] + decimal_text(b as nat)) == Some(
            port_range(a as int, b as int),
        ),
{
    lemma_decimal_text(a as nat);
    lemma_decimal_text(b as nat);
    lemma_joined(decimal_text(a as nat), decimal_text(b as nat));
}

} // verus!
