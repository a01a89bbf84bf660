//! Metrics: the labels that counters are kept by, and the provider that
//! records nothing when monitoring is off.
use vstd::prelude::*;

verus! {

/// The label of a packet processing error counter.
#[derive(Debug, Hash, PartialEq, Eq)]
pub struct ErrorLabels {
    pub error_type: String,
}

/// The label of a client version counter.
#[derive(Debug, Hash, PartialEq, Eq)]
pub struct VersionLabels {
    pub version: String,
}

/// The labels of a packet traffic counter.
#[derive(Debug, Hash, PartialEq, Eq)]
pub struct PacketLabels {
    pub name: String,
    pub state: String,
    pub direction: String,
}

impl ErrorLabels {
    pub fn new(error_type: &str) -> (r: Self)
        ensures
            r.error_type@ == error_type@,
    {
        Self { error_type: error_type.to_owned() }
    }
}

impl VersionLabels {
    pub fn new(version: &str) -> (r: Self)
        ensures
            r.version@ == version@,
    {
        Self { version: version.to_owned() }
    }
}

impl PacketLabels {
    /// The labels of a packet received in connection state `state`.
    pub fn received(name: &str, state: &str) -> (r: Self)
        ensures
            r.name@ == name@,
            r.state@ == state@,
            r.direction@ == "received"@,
    {
        Self { name: name.to_owned(), state: state.to_owned(), direction: "received".to_owned() }
    }

    /// The labels of a packet sent in connection state `state`.
    pub fn sent(name: &str, state: &str) -> (r: Self)
        ensures
            r.name@ == name@,
            r.state@ == state@,
            r.direction@ == "sent"@,
    {
        Self { name: name.to_owned(), state: state.to_owned(), direction: "sent".to_owned() }
    }
}

impl Clone for ErrorLabels {
    fn clone(&self) -> (r: Self)
        ensures
            r == *self,
    {
        Self { error_type: self.error_type.clone() }
    }
}

impl Clone for VersionLabels {
    fn clone(&self) -> (r: Self)
        ensures
            r == *self,
    {
        Self { version: self.version.clone() }
    }
}

impl Clone for PacketLabels {
    fn clone(&self) -> (r: Self)
        ensures
            r == *self,
    {
        Self {
            name: self.name.clone(),
            state: self.state.clone(),
            direction: self.direction.clone(),
        }
    }
}

/// What the server reports as it runs. The connection state is passed as
/// its name.
pub trait MetricsProvider {
    fn inc_total_connections(&self);

    fn inc_connected_clients(&self);

    fn dec_connected_clients(&self);

    fn inc_packets_received(&self, packet_name: &str, state: &str);

    fn inc_packets_sent(&self, packet_name: &str, state: &str);

    fn inc_client_version(&self, version: &str);

    fn inc_packet_processing_error(&self, error_type: &str);
}

/// The provider used when monitoring is off: it records nothing.
pub struct NoOpMetrics;

impl MetricsProvider for NoOpMetrics {
    fn inc_total_connections(&self) {
    }

    fn inc_connected_clients(&self) {
    }

    fn dec_connected_clients(&self) {
    }

    fn inc_packets_received(&self, packet_name: &str, state: &str) {
    }

    fn inc_packets_sent(&self, packet_name: &str, state: &str) {
    }

    fn inc_client_version(&self, version: &str) {
    }

    fn inc_packet_processing_error(&self, error_type: &str) {
    }
}

} // verus!
