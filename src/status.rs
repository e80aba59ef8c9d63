use vstd::prelude::*;

verus! {

/// What a single probe of one port concluded.
#[derive(Debug, Clone, Copy, PartialEq, Eq, Structural)]
pub enum PortStatus {
    /// The peer accepted the connection.
    Open,
    /// The attempt was rejected, or failed for any reason other than a timeout.
    Closed,
    /// No answer came before the timeout elapsed.
    Filtered,
}

/// How a bounded connection attempt ended, as seen by the caller that made it.
#[derive(Debug, Clone, Copy, PartialEq, Eq, Structural)]
pub enum ConnectOutcome {
    /// The handshake completed within the timeout.
    Connected,
    /// The timeout elapsed with no answer.
    TimedOut,
    /// Any other failure: refused, unreachable, out of resources.
    Failed,
}

pub open spec fn classify_spec(o: ConnectOutcome) -> PortStatus {
    match o {
        ConnectOutcome::Connected => PortStatus::Open,
        ConnectOutcome::TimedOut => PortStatus::Filtered,
        ConnectOutcome::Failed => PortStatus::Closed,
    }
}

/// Maps the end of a connection attempt to one of the three port states.
pub fn classify(o: ConnectOutcome) -> (r: PortStatus)
    ensures
        r == classify_spec(o),
{
    match o {
        ConnectOutcome::Connected => PortStatus::Open,
        ConnectOutcome::TimedOut => PortStatus::Filtered,
        ConnectOutcome::Failed => PortStatus::Closed,
    }
}

} // verus!
