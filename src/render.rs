use vstd::prelude::*;
use vstd::string::*;

use crate::scan::ReportLine;
use crate::status::PortStatus;

verus! {

pub open spec fn digit_text(d: int) -> Seq<char> {
    if d == 0 {
        "0"@
    } else if d == 1 {
        "1"@
    } else if d == 2 {
        "2"@
    } else if d == 3 {
        "3"@
    } else if d == 4 {
        "4"@
    } else if d == 5 {
        "5"@
    } else if d == 6 {
        "6"@
    } else if d == 7 {
        "7"@
    } else if d == 8 {
        "8"@
    } else {
        "9"@
    }
}

/// The decimal form of `n`, without leading zeros.
pub open spec fn decimal_text(n: nat) -> Seq<char>
    decreases n,
{
    if n < 10 {
        digit_text(n as int)
    } else {
        decimal_text(n / 10) + digit_text((n % 10) as int)
    }
}

/// The text printed for a report line.
pub open spec fn line_text(line: ReportLine) -> Seq<char> {
    match line {
        ReportLine::Port(p, PortStatus::Open) => "✅ Puerto "@ + decimal_text(p as nat)
            + " ABIERTO"@,
        ReportLine::Port(p, PortStatus::Filtered) => "⚠️  Puerto "@ + decimal_text(p as nat)
            + " FILTRADO o sin respuesta"@,
        ReportLine::Port(p, PortStatus::Closed) => "❌ Puerto "@ + decimal_text(p as nat)
            + " CERRADO"@,
        ReportLine::NoOpenPorts => "❌ No se encontraron puertos abiertos en el rango especificado."@,
    }
}

fn digit_str(d: u16) -> (r: &'static str)
    requires
        d < 10,
    ensures
        r@ == digit_text(d as int),
{
    match d {
        0 => "0",
        1 => "1",
        2 => "2",
        3 => "3",
        4 => "4",
        5 => "5",
        6 => "6",
        7 => "7",
        8 => "8",
        _ => "9",
    }
}

/// Appends the decimal form of `n` to `out`.
fn push_decimal(out: &mut String, n: u16)
    ensures
        final(out)@ == old(out)@ + decimal_text(n as nat),
    decreases n,
{
    if n >= 10 {
        push_decimal(out, n / 10);
    }
    out.append(digit_str(n % 10));
}

impl ReportLine {
    /// The line as printed.
    pub fn text(&self) -> (r: String)
        ensures
            r@ == line_text(*self),
    {
        match *self {
            ReportLine::Port(p, status) => {
                let (head, tail) = match status {
                    PortStatus::Open => ("✅ Puerto ", " ABIERTO"),
                    PortStatus::Filtered => ("⚠️  Puerto ", " FILTRADO o sin respuesta"),
                    PortStatus::Closed => ("❌ Puerto ", " CERRADO"),
                };
                let mut out = String::from_str(head);
                push_decimal(&mut out, p);
                out.append(tail);
                out
            },
            ReportLine::NoOpenPorts => String::from_str(
                "❌ No se encontraron puertos abiertos en el rango especificado.",
            ),
        }
    }
}

} // verus!
