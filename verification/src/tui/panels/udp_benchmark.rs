//! The UDP benchmark panel: its form, its keys and the parameters it starts a benchmark with.

use vstd::prelude::*;

use crate::parser::{
    bandwidth_in_range, bandwidth_spec, duration_checked_spec, parse_bandwidth_checked,
    parse_duration_checked, parse_server_ipv4, server_ipv4_spec, TimeSpan,
};
use crate::report::stats::UdpStreamStats;
use crate::text::{chars_of, concat2, is_digit_spec, trim_spec};
use crate::tui::footer::FooterItem;
use crate::tui::input::{
    focus_rank, focus_set, list_after_key, nth_focusable_key, separator, text, text_under,
    InputList, PanelInputEntry,
};
use crate::tui::key::Key;
use crate::tui::panels::{
    byte_len, byte_len_below, is_ascii_digit, key_text, lemma_field_bound_kept, parse_u16_field, shorter_than, trimmed, u16_field,
    BenchmarkPhase, PanelCommand, PanelFooter,
};

verus! {

/// What a UDP benchmark task reports.
pub enum UdpBenchmarkEvent {
    /// Per-stream results of both ends.
    Done { client: Vec<UdpStreamStats>, server: Vec<UdpStreamStats> },
    Error(String),
}

/// The parameters of a UDP benchmark.
#[derive(Debug, Clone, Copy, PartialEq, Eq, Structural)]
pub struct UdpBenchmarkParams {
    /// The server's IPv4 address, as a big-endian integer.
    pub server: u32,
    pub port: u16,
    pub duration: TimeSpan,
    pub n_streams: u16,
    /// Bandwidth in bit/s.
    pub bandwidth: u64,
    pub payload_size: u16,
}

/// The form: server, port, time, stream count, bandwidth and payload length.
pub fn udp_panel_inputs() -> (r: InputList)
    ensures
        r.focus() == 0,
        r@.len() == 7,
        r@[0].key == "server" && r@[1].key == "port" && r@[3].key == "time",
        r@[4].key == "stream count" && r@[5].key == "bandwidth" && r@[6].key == "payload length",
        r@[2].kind is Separator,
{
    let mut v: Vec<PanelInputEntry> = Vec::new();
    v.push(text("server", "", "192.168.1.11", true));
    v.push(text("port", "", "9000", true));
    v.push(separator());
    v.push(text("time", "10s", "10s", true));
    v.push(text("stream count", "1", "1", true));
    v.push(text("bandwidth", "", "10M", true));
    v.push(text("payload length", "1400", "1400", true));
    let ghost vs = v@;
    let r = InputList::new(v);
    proof {
        assert(focus_set(vs[0], r@[0], vs[0].focusable() && focus_rank(vs, 0) == 0));
        assert(focus_set(vs[1], r@[1], vs[1].focusable() && focus_rank(vs, 1) == 0));
        assert(focus_set(vs[2], r@[2], vs[2].focusable() && focus_rank(vs, 2) == 0));
        assert(focus_set(vs[3], r@[3], vs[3].focusable() && focus_rank(vs, 3) == 0));
        assert(focus_set(vs[4], r@[4], vs[4].focusable() && focus_rank(vs, 4) == 0));
        assert(focus_set(vs[5], r@[5], vs[5].focusable() && focus_rank(vs, 5) == 0));
        assert(focus_set(vs[6], r@[6], vs[6].focusable() && focus_rank(vs, 6) == 0));
    }
    r
}

/// Whether the form takes a character for the field with key `focused`: the server takes digits
/// and dots up to 15 bytes, the port digits up to 5, the stream count digits up to 2, the payload
/// length digits up to 4; other fields take anything.
pub open spec fn udp_char_allowed(es: Seq<PanelInputEntry>, focused: Seq<char>, c: char) -> bool {
    if focused == "server"@ {
        (is_digit_spec(c) || c == '.') && shorter_than(es, "server"@, 15)
    } else if focused == "port"@ {
        is_digit_spec(c) && shorter_than(es, "port"@, 5)
    } else if focused == "stream count"@ {
        is_digit_spec(c) && shorter_than(es, "stream count"@, 2)
    } else if focused == "payload length"@ {
        is_digit_spec(c) && shorter_than(es, "payload length"@, 4)
    } else {
        true
    }
}

/// Whether the form takes a key: characters per `udp_char_allowed` for the focused field, any
/// other key always.
pub open spec fn udp_key_allowed(es: Seq<PanelInputEntry>, focus: nat, key: Key) -> bool {
    match key {
        Key::Char(c) => udp_char_allowed(es, key_text(nth_focusable_key(es, focus, 0)), c),
        _ => true,
    }
}

/// Whether the form takes a key.
pub fn udp_key_valid(inputs: &InputList, key: Key) -> (r: bool)
    ensures
        r == udp_key_allowed(inputs@, inputs.focus(), key),
{
    match key {
        Key::Char(c) => {
            let focused = match inputs.focused_key() {
                Some(k) => k,
                None => {
                    proof {
                        reveal_strlit("");
                    }
                    ""
                },
            };
            assert(focused@ == key_text(nth_focusable_key(inputs@, inputs.focus(), 0)));
            if crate::text::str_eq(focused, "server") {
                let digit = is_ascii_digit(c);
                let short = byte_len_below(inputs.get_text("server"), 15);
                (digit || c == '.') && short
            } else if crate::text::str_eq(focused, "port") {
                let digit = is_ascii_digit(c);
                let short = byte_len_below(inputs.get_text("port"), 5);
                digit && short
            } else if crate::text::str_eq(focused, "stream count") {
                let digit = is_ascii_digit(c);
                let short = byte_len_below(inputs.get_text("stream count"), 2);
                digit && short
            } else if crate::text::str_eq(focused, "payload length") {
                let digit = is_ascii_digit(c);
                let short = byte_len_below(inputs.get_text("payload length"), 4);
                digit && short
            } else {
                true
            }
        },
        _ => true,
    }
}

/// Handles a key on the idle form: the key goes to the form when the form takes it.
pub fn udp_form_on_key(inputs: &mut InputList, key: Key)
    ensures
        udp_key_allowed(old(inputs)@, old(inputs).focus(), key) ==> list_after_key(old(inputs)@,
            old(inputs).focus(), final(inputs)@, final(inputs).focus(), key),
        !udp_key_allowed(old(inputs)@, old(inputs).focus(), key) ==> final(inputs)@ == old(inputs)@
            && final(inputs).focus() == old(inputs).focus(),
        udp_fields_bounded(old(inputs)@) ==> udp_fields_bounded(final(inputs)@),
{
    let ghost before = inputs@;
    let ghost bf = inputs.focus();
    if udp_key_valid(inputs, key) {
        inputs.on_key(key);
    }
    proof {
        if udp_fields_bounded(before) {
            lemma_udp_fields_stay_bounded(before, bf, inputs@, inputs.focus(), key);
        }
    }
}

/// The form's text fields within the lengths the form lets them grow to: server 15 bytes, port 5,
/// stream count 2, payload length 4.
pub open spec fn udp_fields_bounded(es: Seq<PanelInputEntry>) -> bool {
    &&& byte_len(text_under(es, "server"@)) <= 15
    &&& byte_len(text_under(es, "port"@)) <= 5
    &&& byte_len(text_under(es, "stream count"@)) <= 2
    &&& byte_len(text_under(es, "payload length"@)) <= 4
}

/// Keys keep the form's fields within their lengths: a form whose fields are within them before
/// `udp_form_on_key` is within them after it.
pub proof fn lemma_udp_fields_stay_bounded(old: Seq<PanelInputEntry>, of: nat, new: Seq<PanelInputEntry>, nf: nat, key: Key)
    requires
        udp_fields_bounded(old),
        udp_key_allowed(old, of, key) ==> list_after_key(old, of, new, nf, key),
        !udp_key_allowed(old, of, key) ==> new == old && nf == of,
    ensures
        udp_fields_bounded(new),
{
    if udp_key_allowed(old, of, key) {
        reveal_strlit("server");
        reveal_strlit("port");
        reveal_strlit("stream count");
        reveal_strlit("payload length");
        assert("port"@.len() == 4 && "server"@.len() == 6 && "stream count"@.len() == 12);
        assert("port"@ != "server"@);
        assert("stream count"@ != "server"@ && "stream count"@ != "port"@);
        assert("payload length"@ != "server"@ && "payload length"@ != "port"@ && "payload length"@ != "stream count"@);
        lemma_field_bound_kept(old, of, new, nf, key, "server"@, 15);
        lemma_field_bound_kept(old, of, new, nf, key, "port"@, 5);
        lemma_field_bound_kept(old, of, new, nf, key, "stream count"@, 2);
        lemma_field_bound_kept(old, of, new, nf, key, "payload length"@, 4);
    }
}

/// What a key does in each phase: Enter starts from the idle form; Esc goes back from the
/// results or an error; `r` retries from the results; other keys edit the idle form.
pub open spec fn udp_command(phase: BenchmarkPhase, key: Key) -> PanelCommand {
    match key {
        Key::Enter => if phase == BenchmarkPhase::Idle { PanelCommand::Start } else { PanelCommand::Ignore },
        Key::Esc => if phase == BenchmarkPhase::Done || phase == BenchmarkPhase::Error {
            PanelCommand::Reset
        } else {
            PanelCommand::Ignore
        },
        Key::Char('r') => if phase == BenchmarkPhase::Done { PanelCommand::Start } else { PanelCommand::Ignore },
        _ => if phase == BenchmarkPhase::Idle { PanelCommand::Edit(key) } else { PanelCommand::Ignore },
    }
}

/// Decides what the UDP benchmark panel does with a key.
pub fn udp_panel_command(phase: BenchmarkPhase, key: Key) -> (r: PanelCommand)
    ensures
        r == udp_command(phase, key),
{
    match key {
        Key::Enter => if phase == BenchmarkPhase::Idle { PanelCommand::Start } else { PanelCommand::Ignore },
        Key::Esc => if phase == BenchmarkPhase::Done || phase == BenchmarkPhase::Error {
            PanelCommand::Reset
        } else {
            PanelCommand::Ignore
        },
        Key::Char('r') => if phase == BenchmarkPhase::Done { PanelCommand::Start } else { PanelCommand::Ignore },
        _ => if phase == BenchmarkPhase::Idle { PanelCommand::Edit(key) } else { PanelCommand::Ignore },
    }
}

/// The bandwidth read from its (trimmed) text; a number whose product with its unit factor does
/// not fit in 64 bits is above the limit.
pub open spec fn panel_bandwidth_spec(t: Seq<char>) -> Result<u64, Seq<char>> {
    if !bandwidth_in_range(t) {
        Err("bandwidth exceeds maximum allowed limit of 5 Gbit/s"@)
    } else {
        bandwidth_spec(t)
    }
}

/// What starting a UDP benchmark gives for the form's texts: the parameters, or the error shown.
pub open spec fn udp_start_spec(
    server: Seq<char>,
    port: Seq<char>,
    time: Seq<char>,
    streams: Seq<char>,
    bandwidth: Seq<char>,
    length: Seq<char>,
) -> Result<UdpBenchmarkParams, Seq<char>> {
    match server_ipv4_spec(trim_spec(server)) {
        Err(e) => Err("invalid server address: "@ + e),
        Ok(ip) => match u16_field(port) {
            None => Err("invalid port: "@ + port),
            Some(p) => match duration_checked_spec(trim_spec(time)) {
                Err(e) => Err("invalid time: "@ + e),
                Ok(d) => match u16_field(streams) {
                    None => Err("invalid streams: "@ + streams),
                    Some(n) => if !(1 <= n <= 32) {
                        Err("streams must be between 1 and 32"@)
                    } else {
                        match panel_bandwidth_spec(trim_spec(bandwidth)) {
                            Err(e) => Err("invalid bandwidth: "@ + e),
                            Ok(b) => match u16_field(length) {
                                None => Err("invalid payload length: "@ + length),
                                Some(l) => if l == 0 {
                                    Err("payload length must be at least 1"@)
                                } else {
                                    Ok(UdpBenchmarkParams {
                                        server: ip,
                                        port: p,
                                        duration: d,
                                        n_streams: n,
                                        bandwidth: b,
                                        payload_size: l,
                                    })
                                },
                            },
                        }
                    },
                },
            },
        },
    }
}

/// Reads the form into the parameters of a UDP benchmark, or the error to show.
pub fn udp_start_params(inputs: &InputList) -> (r: Result<UdpBenchmarkParams, String>)
    ensures
        match r {
            Ok(p) => udp_start_spec(text_under(inputs@, "server"@), text_under(inputs@, "port"@),
                text_under(inputs@, "time"@), text_under(inputs@, "stream count"@),
                text_under(inputs@, "bandwidth"@), text_under(inputs@, "payload length"@))
                == Ok::<UdpBenchmarkParams, Seq<char>>(p),
            Err(e) => udp_start_spec(text_under(inputs@, "server"@), text_under(inputs@, "port"@),
                text_under(inputs@, "time"@), text_under(inputs@, "stream count"@),
                text_under(inputs@, "bandwidth"@), text_under(inputs@, "payload length"@))
                == Err::<UdpBenchmarkParams, Seq<char>>(e@),
        },
{
    let server_text = trimmed(inputs.get_text("server"));
    let server = match parse_server_ipv4(server_text.as_str()) {
        Ok(a) => a,
        Err(e) => {
            let ec = chars_of(e.as_str());
            return Err(concat2("invalid server address: ", ec.as_slice()));
        },
    };
    let port_text = inputs.get_text("port");
    let port = match parse_u16_field(port_text) {
        Some(p) => p,
        None => {
            let pc = chars_of(port_text);
            return Err(concat2("invalid port: ", pc.as_slice()));
        },
    };
    let time_text = trimmed(inputs.get_text("time"));
    let duration = match parse_duration_checked(time_text.as_str()) {
        Ok(d) => d,
        Err(e) => {
            let ec = chars_of(e.as_str());
            return Err(concat2("invalid time: ", ec.as_slice()));
        },
    };
    let streams_text = inputs.get_text("stream count");
    let n_streams = match parse_u16_field(streams_text) {
        Some(n) => n,
        None => {
            let sc = chars_of(streams_text);
            return Err(concat2("invalid streams: ", sc.as_slice()));
        },
    };
    if !(1 <= n_streams && n_streams <= 32) {
        return Err(String::from_str("streams must be between 1 and 32"));
    }
    let bandwidth_text = trimmed(inputs.get_text("bandwidth"));
    let bandwidth = match parse_bandwidth_checked(bandwidth_text.as_str()) {
        Some(Ok(b)) => b,
        Some(Err(e)) => {
            let ec = chars_of(e.as_str());
            return Err(concat2("invalid bandwidth: ", ec.as_slice()));
        },
        None => {
            let ec = chars_of("bandwidth exceeds maximum allowed limit of 5 Gbit/s");
            return Err(concat2("invalid bandwidth: ", ec.as_slice()));
        },
    };
    let length_text = inputs.get_text("payload length");
    let payload_size = match parse_u16_field(length_text) {
        Some(l) => l,
        None => {
            let lc = chars_of(length_text);
            return Err(concat2("invalid payload length: ", lc.as_slice()));
        },
    };
    if payload_size == 0 {
        return Err(String::from_str("payload length must be at least 1"));
    }
    Ok(UdpBenchmarkParams { server, port, duration, n_streams, bandwidth, payload_size })
}

/// The footer shortcuts of the UDP benchmark panel in each phase.
pub open spec fn udp_footer(phase: BenchmarkPhase) -> Seq<FooterItem> {
    match phase {
        BenchmarkPhase::Idle => seq![
            FooterItem { key: "enter", label: "run", enabled: true },
            FooterItem { key: "tab", label: "switch field", enabled: true },
        ],
        BenchmarkPhase::Running => Seq::empty(),
        BenchmarkPhase::Done => seq![
            FooterItem { key: "esc", label: "back", enabled: true },
            FooterItem { key: "r", label: "retry", enabled: true },
        ],
        BenchmarkPhase::Error => seq![FooterItem { key: "esc", label: "back", enabled: true }],
    }
}

/// The phase of the UDP benchmark panel.
#[derive(Debug, Clone, Copy, PartialEq, Eq, Structural)]
pub struct UdpPanelPhase(pub BenchmarkPhase);

impl PanelFooter for UdpPanelPhase {
    fn footer_items(&self) -> (r: Vec<FooterItem>)
        ensures
            r@ == udp_footer(self.0),
    {
        let mut v: Vec<FooterItem> = Vec::new();
        match self.0 {
            BenchmarkPhase::Idle => {
                v.push(FooterItem::new("enter", "run"));
                v.push(FooterItem::new("tab", "switch field"));
            },
            BenchmarkPhase::Running => {},
            BenchmarkPhase::Done => {
                v.push(FooterItem::new("esc", "back"));
                v.push(FooterItem::new("r", "retry"));
            },
            BenchmarkPhase::Error => {
                v.push(FooterItem::new("esc", "back"));
            },
        }
        proof {
            assert(v@ =~= udp_footer(self.0));
        }
        v
    }
}

} // verus!
