//! The fixed-field forms and states of the earlier panel layout (TCP and UDP benchmarks,
//! qualification), and the about panel.

use vstd::prelude::*;

use crate::report::stats::UdpStreamStats;
use crate::tui::input::InputField;

verus! {

/// What a UDP benchmark task of the earlier layout reports.
pub enum BenchmarkUdpEvent {
    Done { client: Vec<UdpStreamStats>, server: Vec<UdpStreamStats> },
    Error(String),
}

/// Where a UDP benchmark panel of the earlier layout is.
pub enum BenchmarkUdpPanelState {
    Idle,
    Running,
    Done,
    Error(String),
}

/// Where the qualification panel is.
pub enum QualifyPanelState {
    Idle,
    Running { step: u8 },
    Done,
    Error(String),
}

/// An empty field with its label and placeholder.
pub open spec fn blank_field(f: InputField, label: &'static str, default: Seq<char>, placeholder: &'static str) -> bool {
    f.label == label && f.value@ == default && f.placeholder == placeholder && !f.focused
}

/// The fixed TCP benchmark form: server, port, time and stream count.
pub struct BenchmarkTcpInputs {
    pub server: InputField,
    pub port: InputField,
    pub time: InputField,
    pub n_streams: InputField,
    pub focused: usize,
}

impl BenchmarkTcpInputs {
    /// The form as it starts: empty server, port and time, one stream, focus on the server.
    pub fn new() -> (r: Self)
        ensures
            blank_field(r.server, "server", ""@, "192.168.1.11"),
            blank_field(r.port, "port", ""@, "9000"),
            blank_field(r.time, "time", ""@, "10s"),
            blank_field(r.n_streams, "streams", "1"@, "1"),
            r.focused == 0,
    {
        BenchmarkTcpInputs {
            server: InputField::new("server", "", "192.168.1.11"),
            port: InputField::new("port", "", "9000"),
            time: InputField::new("time", "", "10s"),
            n_streams: InputField::new("streams", "1", "1"),
            focused: 0,
        }
    }
}

/// The fixed UDP benchmark form: server, port, time, stream count, bandwidth and length.
pub struct BenchmarkUdpInputs {
    pub server: InputField,
    pub port: InputField,
    pub time: InputField,
    pub n_streams: InputField,
    pub bandwidth: InputField,
    pub length: InputField,
    pub focused: usize,
}

impl BenchmarkUdpInputs {
    /// The form as it starts: empty server, port, time and bandwidth, one stream, 1400-byte
    /// payloads, focus on the server.
    pub fn new() -> (r: Self)
        ensures
            blank_field(r.server, "server", ""@, "192.168.1.11"),
            blank_field(r.port, "port", ""@, "9000"),
            blank_field(r.time, "time", ""@, "10s"),
            blank_field(r.n_streams, "streams", "1"@, "1"),
            blank_field(r.bandwidth, "bandwidth", ""@, "10M"),
            blank_field(r.length, "length", "1400"@, "1400"),
            r.focused == 0,
    {
        BenchmarkUdpInputs {
            server: InputField::new("server", "", "192.168.1.11"),
            port: InputField::new("port", "", "9000"),
            time: InputField::new("time", "", "10s"),
            n_streams: InputField::new("streams", "1", "1"),
            bandwidth: InputField::new("bandwidth", "", "10M"),
            length: InputField::new("length", "1400", "1400"),
            focused: 0,
        }
    }
}

/// The qualification form: server and port.
pub struct QualifyInputs {
    pub server: InputField,
    pub port: InputField,
    pub focused: usize,
}

impl QualifyInputs {
    /// The form as it starts: empty server and port, focus on the server.
    pub fn new() -> (r: Self)
        ensures
            blank_field(r.server, "server", ""@, "192.168.1.11"),
            blank_field(r.port, "port", ""@, "9000"),
            r.focused == 0,
    {
        QualifyInputs {
            server: InputField::new("server", "", "192.168.1.11"),
            port: InputField::new("port", "", "9000"),
            focused: 0,
        }
    }
}

/// The about panel; it has no state.
pub struct AboutPanel;

impl AboutPanel {
    /// The about panel.
    pub fn new() -> (r: Self)
        ensures
            r == AboutPanel,
    {
        AboutPanel
    }
}

} // verus!
