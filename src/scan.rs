use vstd::prelude::*;

use crate::range::{parsear_rango, resolve_spec, ScanError};
use crate::status::PortStatus;

verus! {

/// An IP address literal, held as its numeric parts.
#[derive(Debug, Clone, Copy, PartialEq, Eq, Structural)]
pub enum IpAddress {
    V4(u8, u8, u8, u8),
    V6(u16, u16, u16, u16, u16, u16, u16, u16),
}

/// What one run scans and how; fixed once built.
#[derive(Debug)]
pub struct ScanConfig {
    pub target: IpAddress,
    pub ports: Vec<u16>,
    pub timeout_ms: u64,
    pub open_only: bool,
}

impl ScanConfig {
    /// Builds the configuration of a run. `target` is the address as read from
    /// the user's text, `None` when that text was no IP literal. A bad port
    /// specification is reported first, then a bad address.
    pub fn new(target: Option<IpAddress>, ports: &str, timeout_ms: u64, open_only: bool) -> (r:
        Result<ScanConfig, ScanError>)
        ensures
            match r {
                Ok(c) => target == Some(c.target) && resolve_spec(ports@) == Some(c.ports@)
                    && c.timeout_ms == timeout_ms && c.open_only == open_only,
                Err(e) => {
                    &&& resolve_spec(ports@) is None ==> e == ScanError::InvalidPortSpec
                    &&& resolve_spec(ports@) is Some ==> (target is None && e
                        == ScanError::InvalidAddress)
                },
            },
    {
        let resolved = parsear_rango(ports);
        match resolved {
            Err(e) => Err(e),
            Ok(list) => match target {
                None => Err(ScanError::InvalidAddress),
                Some(t) => Ok(ScanConfig { target: t, ports: list, timeout_ms, open_only }),
            },
        }
    }
}

/// One line of the report.
#[derive(Debug, Clone, Copy, PartialEq, Eq, Structural)]
pub enum ReportLine {
    /// A port and what its probe concluded.
    Port(u16, PortStatus),
    /// Open-only mode found no open port.
    NoOpenPorts,
}

/// The line printed for one probe, if any: in open-only mode only open ports show.
pub open spec fn line_for(open_only: bool, port: u16, status: PortStatus) -> Option<ReportLine> {
    if !open_only || status == PortStatus::Open {
        Some(ReportLine::Port(port, status))
    } else {
        None
    }
}

/// The per-port lines of a run that probed `ports[0..statuses.len()]`.
pub open spec fn port_lines(ports: Seq<u16>, statuses: Seq<PortStatus>, open_only: bool) -> Seq<
    ReportLine,
>
    decreases statuses.len(),
{
    if statuses.len() == 0 {
        Seq::empty()
    } else {
        let k = statuses.len() - 1;
        let before = port_lines(ports, statuses.drop_last(), open_only);
        match line_for(open_only, ports[k], statuses[k]) {
            Some(l) => before.push(l),
            None => before,
        }
    }
}

pub open spec fn any_open(statuses: Seq<PortStatus>) -> bool {
    exists|k: int| 0 <= k < statuses.len() && statuses[k] == PortStatus::Open
}

/// The closing line of a finished run, if any.
pub open spec fn closing_line(statuses: Seq<PortStatus>, open_only: bool) -> Option<ReportLine> {
    if open_only && !any_open(statuses) {
        Some(ReportLine::NoOpenPorts)
    } else {
        None
    }
}

/// The state of a run, seen as the ports to probe and the outcomes so far.
pub ghost struct ScanView {
    pub ports: Seq<u16>,
    pub open_only: bool,
    pub statuses: Seq<PortStatus>,
}

impl ScanView {
    /// The lines printed so far, one per recorded probe that shows.
    pub open spec fn lines(self) -> Seq<ReportLine> {
        port_lines(self.ports, self.statuses, self.open_only)
    }
}

/// A run in progress: probes the configured ports one at a time, in order.
pub struct Scan {
    config: ScanConfig,
    done: usize,
    found_open: bool,
    statuses: Ghost<Seq<PortStatus>>,
}

impl View for Scan {
    type V = ScanView;

    closed spec fn view(&self) -> ScanView {
        ScanView {
            ports: self.config.ports@,
            open_only: self.config.open_only,
            statuses: self.statuses@,
        }
    }
}

impl Scan {
    pub closed spec fn wf(&self) -> bool {
        &&& self.done == self.statuses@.len()
        &&& self.done <= self.config.ports@.len()
        &&& self.found_open == any_open(self.statuses@)
    }

    /// Starts a run of `config`; nothing is probed yet.
    pub fn new(config: ScanConfig) -> (r: Scan)
        ensures
            r.wf(),
            r@.ports == config.ports@,
            r@.open_only == config.open_only,
            r@.statuses == Seq::<PortStatus>::empty(),
    {
        Scan { config, done: 0, found_open: false, statuses: Ghost(Seq::empty()) }
    }

    /// The configuration that this run follows.
    pub fn config(&self) -> (r: &ScanConfig)
        ensures
            r.ports@ == self@.ports,
            r.open_only == self@.open_only,
    {
        &self.config
    }

    /// The port to probe next, or `None` once every port has been probed.
    pub fn next_port(&self) -> (r: Option<u16>)
        requires
            self.wf(),
        ensures
            self@.statuses.len() < self@.ports.len() ==> r == Some(
                self@.ports[self@.statuses.len() as int],
            ),
            self@.statuses.len() == self@.ports.len() ==> r is None,
    {
        if self.done < self.config.ports.len() {
            Some(self.config.ports[self.done])
        } else {
            None
        }
    }

    /// Records the outcome of probing the next port and returns the line to
    /// print for it now, if any.
    pub fn record(&mut self, status: PortStatus) -> (r: Option<ReportLine>)
        requires
            old(self).wf(),
            old(self)@.statuses.len() < old(self)@.ports.len(),
        ensures
            final(self).wf(),
            final(self)@.ports == old(self)@.ports,
            final(self)@.open_only == old(self)@.open_only,
            final(self)@.statuses == old(self)@.statuses.push(status),
            r == line_for(
                old(self)@.open_only,
                old(self)@.ports[old(self)@.statuses.len() as int],
                status,
            ),
            final(self)@.lines() == match r {
                Some(l) => old(self)@.lines().push(l),
                None => old(self)@.lines(),
            },
    {
        let n = self.config.ports.len();
        let port = self.config.ports[self.done];
        let ghost before = self.statuses@;
        assert(self.done < n);
        self.done = self.done + 1;
        self.statuses = Ghost(self.statuses@.push(status));
        let is_open = status == PortStatus::Open;
        proof {
            let after = self.statuses@;
            assert(after.drop_last() =~= before);
            if is_open {
                assert(after[before.len() as int] == PortStatus::Open);
            } else {
                if any_open(after) {
                    let k = choose|k: int| 0 <= k < after.len() && after[k] == PortStatus::Open;
                    assert(k < before.len());
                    assert(before[k] == after[k]);
                }
                if any_open(before) {
                    let k = choose|k: int| 0 <= k < before.len() && before[k] == PortStatus::Open;
                    assert(after[k] == before[k]);
                }
            }
        }
        self.found_open = self.found_open || is_open;
        if !self.config.open_only || is_open {
            Some(ReportLine::Port(port, status))
        } else {
            None
        }
    }

    /// The line that closes a finished run, if any.
    pub fn finish(&self) -> (r: Option<ReportLine>)
        requires
            self.wf(),
            self@.statuses.len() == self@.ports.len(),
        ensures
            r == closing_line(self@.statuses, self@.open_only),
    {
        if self.config.open_only && !self.found_open {
            Some(ReportLine::NoOpenPorts)
        } else {
            None
        }
    }
}

} // verus!
