use portscan::range::ScanError;
use portscan::scan::{IpAddress, ReportLine, Scan, ScanConfig};
use portscan::status::{classify, ConnectOutcome, PortStatus};

const LOCALHOST: IpAddress = IpAddress::V4(127, 0, 0, 1);

/// Runs a whole scan, answering each probe with `outcome(port)`.
fn run(spec: &str, open_only: bool, outcome: impl Fn(u16) -> ConnectOutcome) -> Vec<ReportLine> {
    let config = ScanConfig::new(Some(LOCALHOST), spec, 200, open_only).unwrap();
    let mut scan = Scan::new(config);
    let mut lines = Vec::new();
    while let Some(port) = scan.next_port() {
        if let Some(line) = scan.record(classify(outcome(port))) {
            lines.push(line);
        }
    }
    lines.extend(scan.finish());
    lines
}

#[test]
fn classify_outcomes() {
    assert_eq!(classify(ConnectOutcome::Connected), PortStatus::Open);
    assert_eq!(classify(ConnectOutcome::Failed), PortStatus::Closed);
    assert_eq!(classify(ConnectOutcome::TimedOut), PortStatus::Filtered);
}

#[test]
fn config_errors() {
    assert_eq!(ScanConfig::new(Some(LOCALHOST), "abc", 500, false).unwrap_err(), ScanError::InvalidPortSpec);
    assert_eq!(ScanConfig::new(None, "abc", 500, false).unwrap_err(), ScanError::InvalidPortSpec);
    assert_eq!(ScanConfig::new(None, "80", 500, false).unwrap_err(), ScanError::InvalidAddress);
    let c = ScanConfig::new(Some(LOCALHOST), "20-22", 500, true).unwrap();
    assert_eq!(c.ports, vec![20, 21, 22]);
    assert_eq!(c.target, LOCALHOST);
    assert_eq!(c.timeout_ms, 500);
    assert!(c.open_only);
}

#[test]
fn all_closed_range_reports_each_port_in_order() {
    let lines = run("20-22", false, |_| ConnectOutcome::Failed);
    assert_eq!(
        lines,
        vec![
            ReportLine::Port(20, PortStatus::Closed),
            ReportLine::Port(21, PortStatus::Closed),
            ReportLine::Port(22, PortStatus::Closed),
        ]
    );
}

#[test]
fn open_only_single_open_port() {
    let lines = run("80", true, |_| ConnectOutcome::Connected);
    assert_eq!(lines, vec![ReportLine::Port(80, PortStatus::Open)]);
}

#[test]
fn inverted_range_gives_empty_report() {
    assert_eq!(run("1-0", false, |_| ConnectOutcome::Connected), vec![]);
    assert_eq!(run("1-0", false, |_| ConnectOutcome::Connected), vec![]);
    assert_eq!(run("1-0", true, |_| ConnectOutcome::Connected), vec![ReportLine::NoOpenPorts]);
}

#[test]
fn open_only_filters_and_notices() {
    let mixed = |p: u16| match p {
        21 => ConnectOutcome::Connected,
        22 => ConnectOutcome::TimedOut,
        _ => ConnectOutcome::Failed,
    };
    assert_eq!(run("20-23", true, mixed), vec![ReportLine::Port(21, PortStatus::Open)]);
    assert_eq!(
        run("20-23", false, mixed),
        vec![
            ReportLine::Port(20, PortStatus::Closed),
            ReportLine::Port(21, PortStatus::Open),
            ReportLine::Port(22, PortStatus::Filtered),
            ReportLine::Port(23, PortStatus::Closed),
        ]
    );
    assert_eq!(run("20-23", true, |_| ConnectOutcome::TimedOut), vec![ReportLine::NoOpenPorts]);
}

#[test]
fn scan_steps() {
    let mut scan = Scan::new(ScanConfig::new(Some(LOCALHOST), "5-6", 100, false).unwrap());
    assert_eq!(scan.config().ports, vec![5, 6]);
    assert_eq!(scan.next_port(), Some(5));
    assert_eq!(scan.record(PortStatus::Filtered), Some(ReportLine::Port(5, PortStatus::Filtered)));
    assert_eq!(scan.next_port(), Some(6));
    assert_eq!(scan.record(PortStatus::Open), Some(ReportLine::Port(6, PortStatus::Open)));
    assert_eq!(scan.next_port(), None);
    assert_eq!(scan.finish(), None);
}

#[test]
fn line_text() {
    assert_eq!(ReportLine::Port(80, PortStatus::Open).text(), "✅ Puerto 80 ABIERTO");
    assert_eq!(ReportLine::Port(0, PortStatus::Closed).text(), "❌ Puerto 0 CERRADO");
    assert_eq!(
        ReportLine::Port(65535, PortStatus::Filtered).text(),
        "⚠️  Puerto 65535 FILTRADO o sin respuesta"
    );
    assert_eq!(ReportLine::Port(1024, PortStatus::Closed).text(), "❌ Puerto 1024 CERRADO");
    assert_eq!(
        ReportLine::NoOpenPorts.text(),
        "❌ No se encontraron puertos abiertos en el rango especificado."
    );
}
