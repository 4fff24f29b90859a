//! The TCP benchmark panel: its form, its keys and the parameters it starts a benchmark with.

use vstd::prelude::*;

use crate::parser::{duration_checked_spec, parse_duration_checked, parse_server_ipv4, server_ipv4_spec, TimeSpan};
use crate::report::stats::TcpStreamStats;
use crate::text::{chars_of, concat2, is_digit_spec, trim_spec};
use crate::tui::footer::FooterItem;
use crate::tui::input::{
    lemma_optional_entries, list_after_key, nth_focusable_key, optional_entry, separator, text, text_under, toggle_under,
    toggle, InputKind, InputList, PanelInputEntry,
};
use crate::tui::key::Key;
use crate::tui::panels::{
    byte_len, byte_len_below, is_ascii_digit, key_text, lemma_field_bound_kept, parse_u16_field, shorter_than, trimmed, u16_field, BenchmarkPhase,
    PanelCommand, PanelFooter,
};

verus! {

/// What a TCP benchmark task reports.
pub enum BenchmarkTcpEvent {
    /// Per-stream results of both ends.
    Done { client: Vec<TcpStreamStats>, server: Vec<TcpStreamStats> },
    Error(String),
}

/// The data verified with integrity checking on a single stream: 1 GiB.
pub const VERIFY_INTEGRITY_BYTES: u64 = 1073741824;

/// The parameters of a TCP benchmark.
#[derive(Debug, Clone, Copy, PartialEq, Eq, Structural)]
pub struct TcpBenchmarkParams {
    /// The server's IPv4 address, as a big-endian integer.
    pub server: u32,
    pub port: u16,
    pub duration: TimeSpan,
    pub n_streams: u16,
    /// The amount of data whose integrity is verified, when verification is on.
    pub verify_integrity: Option<u64>,
}

/// The form: server, port, time, stream count, and the integrity toggle with its separator.
pub fn tcp_panel_inputs() -> (r: InputList)
    ensures
        r.focus() == 0,
        r@.len() == 7,
        r@[0].key == "server" && r@[1].key == "port" && r@[3].key == "time",
        r@[4].key == "stream count" && r@[5].key == "sep_verify" && r@[6].key == "verify",
        r@[2].kind is Separator && r@[5].kind is Separator,
        r@[6].kind matches InputKind::Toggle { value, .. } && !value,
{
    let mut v: Vec<PanelInputEntry> = Vec::new();
    v.push(text("server", "", "192.168.1.11", true));
    v.push(text("port", "", "9000", true));
    v.push(separator());
    v.push(text("time", "10s", "10s", true));
    v.push(text("stream count", "1", "1", true));
    v.push(PanelInputEntry { key: "sep_verify", kind: InputKind::Separator, tui_visible: true });
    v.push(crate::tui::input::toggle("verify", "verify integrity", false, true));
    let ghost vs = v@;
    let r = InputList::new(v);
    proof {
        assert(crate::tui::input::focus_set(vs[0], r@[0], vs[0].focusable() && crate::tui::input::focus_rank(vs, 0) == 0));
        assert(crate::tui::input::focus_set(vs[1], r@[1], vs[1].focusable() && crate::tui::input::focus_rank(vs, 1) == 0));
        assert(crate::tui::input::focus_set(vs[2], r@[2], vs[2].focusable() && crate::tui::input::focus_rank(vs, 2) == 0));
        assert(crate::tui::input::focus_set(vs[3], r@[3], vs[3].focusable() && crate::tui::input::focus_rank(vs, 3) == 0));
        assert(crate::tui::input::focus_set(vs[4], r@[4], vs[4].focusable() && crate::tui::input::focus_rank(vs, 4) == 0));
        assert(crate::tui::input::focus_set(vs[5], r@[5], vs[5].focusable() && crate::tui::input::focus_rank(vs, 5) == 0));
        assert(crate::tui::input::focus_set(vs[6], r@[6], vs[6].focusable() && crate::tui::input::focus_rank(vs, 6) == 0));
    }
    r
}

/// Whether the form takes a character for the field with key `focused`: the server takes
/// digits and dots up to 15 bytes, the port digits up to 5, the stream count digits up to 2;
/// other fields take anything.
pub open spec fn tcp_char_allowed(es: Seq<PanelInputEntry>, focused: Seq<char>, c: char) -> bool {
    if focused == "server"@ {
        (is_digit_spec(c) || c == '.') && shorter_than(es, "server"@, 15)
    } else if focused == "port"@ {
        is_digit_spec(c) && shorter_than(es, "port"@, 5)
    } else if focused == "stream count"@ {
        is_digit_spec(c) && shorter_than(es, "stream count"@, 2)
    } else {
        true
    }
}

/// Whether the form takes a key: characters per `tcp_char_allowed` for the focused field, any
/// other key always.
pub open spec fn tcp_key_allowed(es: Seq<PanelInputEntry>, focus: nat, key: Key) -> bool {
    match key {
        Key::Char(c) => tcp_char_allowed(es, key_text(nth_focusable_key(es, focus, 0)), c),
        _ => true,
    }
}

/// Whether the stream count asks for more than one stream.
pub open spec fn multi_stream(es: Seq<PanelInputEntry>) -> bool {
    match u16_field(text_under(es, "stream count"@)) {
        Some(n) => n > 1,
        None => false,
    }
}

/// Whether the form takes a key.
pub fn tcp_key_valid(inputs: &InputList, key: Key) -> (r: bool)
    ensures
        r == tcp_key_allowed(inputs@, inputs.focus(), key),
{
    match key {
        Key::Char(c) => {
            let focused = match inputs.focused_key() {
                Some(k) => k,
                None => {
                    proof {
                        reveal_strlit("");
                    }
                    ""
                },
            };
            assert(focused@ == key_text(nth_focusable_key(inputs@, inputs.focus(), 0)));
            if crate::text::str_eq(focused, "server") {
                let digit = is_ascii_digit(c);
                let short = byte_len_below(inputs.get_text("server"), 15);
                (digit || c == '.') && short
            } else if crate::text::str_eq(focused, "port") {
                let digit = is_ascii_digit(c);
                let short = byte_len_below(inputs.get_text("port"), 5);
                digit && short
            } else if crate::text::str_eq(focused, "stream count") {
                let digit = is_ascii_digit(c);
                let short = byte_len_below(inputs.get_text("stream count"), 2);
                digit && short
            } else {
                true
            }
        },
        _ => true,
    }
}

/// The form step from `old` (focus `of`) to `new` (focus `nf`) through `mid` (focus `mf`): the
/// key goes to the form when the form takes it, then the integrity toggle and its separator are
/// hidden (and the toggle switched off) when more than one stream is asked for, shown otherwise.
pub open spec fn tcp_form_step(
    old: Seq<PanelInputEntry>,
    of: nat,
    mid: Seq<PanelInputEntry>,
    mf: nat,
    new: Seq<PanelInputEntry>,
    nf: nat,
    key: Key,
) -> bool {
    &&& (if tcp_key_allowed(old, of, key) {
        list_after_key(old, of, mid, mf, key)
    } else {
        mid == old && mf == of
    })
    &&& nf == mf
    &&& new.len() == mid.len()
    &&& forall|i: int| 0 <= i < mid.len() ==> optional_entry(mid[i], #[trigger] new[i],
        "verify"@, "sep_verify"@, !multi_stream(mid))
}

/// Handles a key on the idle form, as `tcp_form_step` says.
pub fn tcp_form_on_key(inputs: &mut InputList, key: Key)
    ensures
        exists|mid: Seq<PanelInputEntry>, mf: nat|
            tcp_form_step(old(inputs)@, old(inputs).focus(), mid, mf, final(inputs)@, final(inputs).focus(), key),
        forall|i: int| 0 <= i < final(inputs)@.len() && ((#[trigger] final(inputs)@[i]).key@ == "verify"@
            || final(inputs)@[i].key@ == "sep_verify"@) ==> final(inputs)@[i].tui_visible == !multi_stream(final(inputs)@),
        multi_stream(final(inputs)@) ==> !toggle_under(final(inputs)@, "verify"@),
        tcp_fields_bounded(old(inputs)@) ==> tcp_fields_bounded(final(inputs)@),
{
    let ghost before = inputs@;
    let ghost bf = inputs.focus();
    if tcp_key_valid(inputs, key) {
        inputs.on_key(key);
    }
    let ghost mid = inputs@;
    let ghost mf = inputs.focus();
    let multi = match parse_u16_field(inputs.get_text("stream count")) {
        Some(n) => n > 1,
        None => false,
    };
    assert(multi == multi_stream(mid));
    inputs.show_optional("verify", "sep_verify", !multi);
    proof {
        assert(tcp_key_allowed(before, bf, key) ==> list_after_key(before, bf, mid, mf, key));
        assert(!tcp_key_allowed(before, bf, key) ==> mid == before && mf == bf);
        assert(inputs.focus() == mf);
        assert(forall|i: int| 0 <= i < mid.len() ==> optional_entry(mid[i], #[trigger] inputs@[i],
            "verify"@, "sep_verify"@, !multi_stream(mid)));
        assert(tcp_form_step(before, bf, mid, mf, inputs@, inputs.focus(), key));
        lemma_tcp_form_rules(before, bf, mid, mf, inputs@, inputs.focus(), key);
    }
}

/// The form's text fields within the lengths the form lets them grow to: server 15 bytes, port 5,
/// stream count 2.
pub open spec fn tcp_fields_bounded(es: Seq<PanelInputEntry>) -> bool {
    &&& byte_len(text_under(es, "server"@)) <= 15
    &&& byte_len(text_under(es, "port"@)) <= 5
    &&& byte_len(text_under(es, "stream count"@)) <= 2
}

/// After any key on the idle form, the integrity toggle and its separator are shown exactly when
/// the stream count does not ask for more than one stream, the toggle is off whenever it does,
/// and the fields stay within their lengths when they were before.
pub proof fn lemma_tcp_form_rules(
    old: Seq<PanelInputEntry>,
    of: nat,
    mid: Seq<PanelInputEntry>,
    mf: nat,
    new: Seq<PanelInputEntry>,
    nf: nat,
    key: Key,
)
    requires
        tcp_form_step(old, of, mid, mf, new, nf, key),
    ensures
        forall|i: int| 0 <= i < new.len() && ((#[trigger] new[i]).key@ == "verify"@ || new[i].key@ == "sep_verify"@)
            ==> new[i].tui_visible == !multi_stream(new),
        multi_stream(new) ==> !toggle_under(new, "verify"@),
        tcp_fields_bounded(old) ==> tcp_fields_bounded(new),
{
    reveal_strlit("server");
    reveal_strlit("port");
    reveal_strlit("stream count");
    reveal_strlit("verify");
    reveal_strlit("sep_verify");
    assert("port"@.len() == 4 && "server"@.len() == 6 && "stream count"@.len() == 12);
    assert("verify"@.len() == 6 && "sep_verify"@.len() == 10);
    assert("port"@ != "server"@);
    assert("stream count"@ != "server"@ && "stream count"@ != "port"@);
    assert("server"@[0] != "verify"@[0]);
    assert("server"@ != "verify"@ && "server"@ != "sep_verify"@);
    assert("port"@ != "verify"@ && "port"@ != "sep_verify"@);
    assert("stream count"@ != "verify"@ && "stream count"@ != "sep_verify"@);
    let shown = !multi_stream(mid);
    lemma_optional_entries(mid, new, "verify"@, "sep_verify"@, shown, "stream count"@);
    lemma_optional_entries(mid, new, "verify"@, "sep_verify"@, shown, "verify"@);
    lemma_optional_entries(mid, new, "verify"@, "sep_verify"@, shown, "server"@);
    lemma_optional_entries(mid, new, "verify"@, "sep_verify"@, shown, "port"@);
    assert(multi_stream(new) == multi_stream(mid));
    assert forall|i: int| 0 <= i < new.len() && ((#[trigger] new[i]).key@ == "verify"@ || new[i].key@ == "sep_verify"@)
        implies new[i].tui_visible == !multi_stream(new) by {
        assert(optional_entry(mid[i], new[i], "verify"@, "sep_verify"@, shown));
    }
    if tcp_fields_bounded(old) {
        if tcp_key_allowed(old, of, key) {
            lemma_field_bound_kept(old, of, mid, mf, key, "server"@, 15);
            lemma_field_bound_kept(old, of, mid, mf, key, "port"@, 5);
            lemma_field_bound_kept(old, of, mid, mf, key, "stream count"@, 2);
        }
    }
}

/// What a key does in each phase: Enter starts from the idle form; Esc goes back from the
/// results or an error; `r` retries from the results or an error; other keys edit the idle form.
pub open spec fn tcp_command(phase: BenchmarkPhase, key: Key) -> PanelCommand {
    match key {
        Key::Enter => if phase == BenchmarkPhase::Idle { PanelCommand::Start } else { PanelCommand::Ignore },
        Key::Esc => if phase == BenchmarkPhase::Done || phase == BenchmarkPhase::Error {
            PanelCommand::Reset
        } else {
            PanelCommand::Ignore
        },
        Key::Char('r') => if phase == BenchmarkPhase::Done || phase == BenchmarkPhase::Error {
            PanelCommand::Start
        } else {
            PanelCommand::Ignore
        },
        _ => if phase == BenchmarkPhase::Idle { PanelCommand::Edit(key) } else { PanelCommand::Ignore },
    }
}

/// Decides what the TCP benchmark panel does with a key.
pub fn tcp_panel_command(phase: BenchmarkPhase, key: Key) -> (r: PanelCommand)
    ensures
        r == tcp_command(phase, key),
{
    let back = phase == BenchmarkPhase::Done || phase == BenchmarkPhase::Error;
    match key {
        Key::Enter => if phase == BenchmarkPhase::Idle { PanelCommand::Start } else { PanelCommand::Ignore },
        Key::Esc => if back { PanelCommand::Reset } else { PanelCommand::Ignore },
        Key::Char('r') => if back { PanelCommand::Start } else { PanelCommand::Ignore },
        _ => if phase == BenchmarkPhase::Idle { PanelCommand::Edit(key) } else { PanelCommand::Ignore },
    }
}

/// What starting a TCP benchmark gives for the form's texts: the parameters, or the error shown.
pub open spec fn tcp_start_spec(server: Seq<char>, port: Seq<char>, time: Seq<char>, streams: Seq<char>, verify: bool) -> Result<TcpBenchmarkParams, Seq<char>> {
    match server_ipv4_spec(trim_spec(server)) {
        Err(e) => Err("invalid server address: "@ + e),
        Ok(ip) => match u16_field(port) {
            None => Err("invalid port: "@ + port),
            Some(p) => match duration_checked_spec(trim_spec(time)) {
                Err(e) => Err("invalid time: "@ + e),
                Ok(d) => match u16_field(streams) {
                    None => Err("invalid streams: "@ + streams),
                    Some(n) => if !(1 <= n <= 32) {
                        Err("streams must be between 1 and 32"@)
                    } else if verify && n > 1 {
                        Err("verify integrity requires a single stream"@)
                    } else {
                        Ok(TcpBenchmarkParams {
                            server: ip,
                            port: p,
                            duration: d,
                            n_streams: n,
                            verify_integrity: if verify { Some(VERIFY_INTEGRITY_BYTES) } else { None },
                        })
                    },
                },
            },
        },
    }
}

/// Reads the form into the parameters of a TCP benchmark, or the error to show.
pub fn tcp_start_params(inputs: &InputList) -> (r: Result<TcpBenchmarkParams, String>)
    ensures
        match r {
            Ok(p) => tcp_start_spec(text_under(inputs@, "server"@), text_under(inputs@, "port"@),
                text_under(inputs@, "time"@), text_under(inputs@, "stream count"@),
                toggle_under(inputs@, "verify"@)) == Ok::<TcpBenchmarkParams, Seq<char>>(p),
            Err(e) => tcp_start_spec(text_under(inputs@, "server"@), text_under(inputs@, "port"@),
                text_under(inputs@, "time"@), text_under(inputs@, "stream count"@),
                toggle_under(inputs@, "verify"@)) == Err::<TcpBenchmarkParams, Seq<char>>(e@),
        },
{
    let server_text = trimmed(inputs.get_text("server"));
    let server = match parse_server_ipv4(server_text.as_str()) {
        Ok(a) => a,
        Err(e) => {
            let ec = chars_of(e.as_str());
            return Err(concat2("invalid server address: ", ec.as_slice()));
        },
    };
    let port_text = inputs.get_text("port");
    let port = match parse_u16_field(port_text) {
        Some(p) => p,
        None => {
            let pc = chars_of(port_text);
            return Err(concat2("invalid port: ", pc.as_slice()));
        },
    };
    let time_text = trimmed(inputs.get_text("time"));
    let duration = match parse_duration_checked(time_text.as_str()) {
        Ok(d) => d,
        Err(e) => {
            let ec = chars_of(e.as_str());
            return Err(concat2("invalid time: ", ec.as_slice()));
        },
    };
    let streams_text = inputs.get_text("stream count");
    let n_streams = match parse_u16_field(streams_text) {
        Some(n) => n,
        None => {
            let sc = chars_of(streams_text);
            return Err(concat2("invalid streams: ", sc.as_slice()));
        },
    };
    if !(1 <= n_streams && n_streams <= 32) {
        return Err(String::from_str("streams must be between 1 and 32"));
    }
    let verify = inputs.get_toggle("verify");
    if verify && n_streams > 1 {
        return Err(String::from_str("verify integrity requires a single stream"));
    }
    Ok(TcpBenchmarkParams {
        server,
        port,
        duration,
        n_streams,
        verify_integrity: if verify { Some(VERIFY_INTEGRITY_BYTES) } else { None },
    })
}

/// The footer shortcuts of the TCP benchmark panel in each phase.
pub open spec fn tcp_footer(phase: BenchmarkPhase) -> Seq<FooterItem> {
    match phase {
        BenchmarkPhase::Idle => seq![
            FooterItem { key: "enter", label: "run", enabled: true },
            FooterItem { key: "tab", label: "switch field", enabled: true },
            FooterItem { key: "space", label: "toggle", enabled: true },
        ],
        BenchmarkPhase::Running => Seq::empty(),
        _ => seq![
            FooterItem { key: "esc", label: "back", enabled: true },
            FooterItem { key: "r", label: "retry", enabled: true },
        ],
    }
}

/// The phase of the TCP benchmark panel.
#[derive(Debug, Clone, Copy, PartialEq, Eq, Structural)]
pub struct TcpPanelPhase(pub BenchmarkPhase);

impl PanelFooter for TcpPanelPhase {
    fn footer_items(&self) -> (r: Vec<FooterItem>)
        ensures
            r@ == tcp_footer(self.0),
    {
        let mut v: Vec<FooterItem> = Vec::new();
        match self.0 {
            BenchmarkPhase::Idle => {
                v.push(FooterItem::new("enter", "run"));
                v.push(FooterItem::new("tab", "switch field"));
                v.push(FooterItem::new("space", "toggle"));
            },
            BenchmarkPhase::Running => {},
            _ => {
                v.push(FooterItem::new("esc", "back"));
                v.push(FooterItem::new("r", "retry"));
            },
        }
        proof {
            assert(v@ =~= tcp_footer(self.0));
        }
        v
    }
}

} // verus!
