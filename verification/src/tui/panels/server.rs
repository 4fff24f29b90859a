//! The server panel: its form, its keys and the parameters it starts a server with.

use vstd::prelude::*;

use crate::parser::{ipv4_spec, parse_ipv4, parse_udp_buf_mem_size, udp_buf_spec};
use crate::text::{chars_of, concat2, is_digit_spec, push_chars, trim_chars, trim_spec};
use crate::tui::footer::FooterItem;
use crate::tui::input::{
    focus_rank, focus_set, list_after_key, separator, text, text_under, toggle, toggle_under,
    visible_seq, InputKind, InputList, PanelInputEntry,
};
use crate::tui::key::Key;
use crate::tui::panels::{byte_len_below, is_ascii_digit, parse_u16_field, shorter_than, u16_field, PanelCommand, PanelFooter};

verus! {

/// Where the server panel is.
pub enum ServerPanelState {
    Idle,
    /// Listening on this address.
    Running { addr: String },
    Error(String),
}

/// The parameters the server starts with.
#[derive(Debug, Clone, Copy, PartialEq, Eq, Structural)]
pub struct ServerParams {
    /// The IPv4 address to bind, as a big-endian integer.
    pub bind: u32,
    pub port: u16,
    /// The UDP receive buffer size, in bytes.
    pub udp_recv_buffer: u64,
    /// Serve one session, then stop.
    pub once: bool,
}

/// The form: bind address, port, UDP receive buffer, and the (hidden) single-session toggle.
pub fn server_panel_inputs() -> (r: InputList)
    ensures
        r.focus() == 0,
        r@.len() == 6,
        r@[0].key == "bind" && r@[1].key == "port" && r@[3].key == "UDP recv. buffer" && r@[5].key == "once",
        r@[2].kind is Separator && r@[4].kind is Separator,
        r@[5].kind matches InputKind::Toggle { value, .. } && !value,
        !r@[5].tui_visible,
{
    let mut v: Vec<PanelInputEntry> = Vec::new();
    v.push(text("bind", "", "0.0.0.0", true));
    v.push(text("port", "", "9000", true));
    v.push(separator());
    v.push(text("UDP recv. buffer", "16M", "16M", true));
    v.push(separator());
    v.push(toggle("once", "once", false, false));
    let ghost vs = v@;
    let r = InputList::new(v);
    proof {
        assert(focus_set(vs[0], r@[0], vs[0].focusable() && focus_rank(vs, 0) == 0));
        assert(focus_set(vs[1], r@[1], vs[1].focusable() && focus_rank(vs, 1) == 0));
        assert(focus_set(vs[2], r@[2], vs[2].focusable() && focus_rank(vs, 2) == 0));
        assert(focus_set(vs[3], r@[3], vs[3].focusable() && focus_rank(vs, 3) == 0));
        assert(focus_set(vs[4], r@[4], vs[4].focusable() && focus_rank(vs, 4) == 0));
        assert(focus_set(vs[5], r@[5], vs[5].focusable() && focus_rank(vs, 5) == 0));
    }
    r
}

/// The key of the field the server panel treats as focused: the shown entry at the focus
/// position (separators counted), empty when there is none.
pub open spec fn server_focused_key(es: Seq<PanelInputEntry>, focus: nat) -> Seq<char> {
    if focus < visible_seq(es).len() {
        visible_seq(es)[focus as int].key@
    } else {
        Seq::empty()
    }
}

/// Whether the form takes a key: the bind address takes digits, dots and colons up to 15 bytes,
/// the port digits up to 5; other fields and keys are always taken.
pub open spec fn server_key_allowed(es: Seq<PanelInputEntry>, focus: nat, key: Key) -> bool {
    match key {
        Key::Char(c) => {
            let focused = server_focused_key(es, focus);
            if focused == "bind"@ {
                (is_digit_spec(c) || c == '.' || c == ':') && shorter_than(es, "bind"@, 15)
            } else if focused == "port"@ {
                is_digit_spec(c) && shorter_than(es, "port"@, 5)
            } else {
                true
            }
        },
        _ => true,
    }
}

/// Whether the form takes a key.
pub fn server_key_valid(inputs: &InputList, key: Key) -> (r: bool)
    ensures
        r == server_key_allowed(inputs@, inputs.focus(), key),
{
    match key {
        Key::Char(c) => {
            let shown = inputs.visible_entries();
            let index = inputs.focused_index();
            let focused = if index < shown.len() {
                shown[index].key
            } else {
                proof {
                    reveal_strlit("");
                }
                ""
            };
            assert(focused@ == server_focused_key(inputs@, inputs.focus()));
            if crate::text::str_eq(focused, "bind") {
                let digit = is_ascii_digit(c);
                let short = byte_len_below(inputs.get_text("bind"), 15);
                (digit || c == '.' || c == ':') && short
            } else if crate::text::str_eq(focused, "port") {
                let digit = is_ascii_digit(c);
                let short = byte_len_below(inputs.get_text("port"), 5);
                digit && short
            } else {
                true
            }
        },
        _ => true,
    }
}

/// Handles a key on the idle form: the key goes to the form when the form takes it.
pub fn server_form_on_key(inputs: &mut InputList, key: Key)
    ensures
        server_key_allowed(old(inputs)@, old(inputs).focus(), key) ==> list_after_key(old(inputs)@,
            old(inputs).focus(), final(inputs)@, final(inputs).focus(), key),
        !server_key_allowed(old(inputs)@, old(inputs).focus(), key) ==> final(inputs)@ == old(inputs)@
            && final(inputs).focus() == old(inputs).focus(),
{
    if server_key_valid(inputs, key) {
        inputs.on_key(key);
    }
}

/// What a key does in each state: Enter starts from the idle form; Esc stops a running server or
/// goes back from an error; other keys edit the idle form.
pub open spec fn server_command(state: ServerPanelState, key: Key) -> PanelCommand {
    match key {
        Key::Enter => if state is Idle { PanelCommand::Start } else { PanelCommand::Ignore },
        Key::Esc => if state is Running {
            PanelCommand::Stop
        } else if state is Error {
            PanelCommand::Reset
        } else {
            PanelCommand::Ignore
        },
        _ => if state is Idle { PanelCommand::Edit(key) } else { PanelCommand::Ignore },
    }
}

impl ServerPanelState {
    /// Decides what the server panel does with a key.
    pub fn command(&self, key: Key) -> (r: PanelCommand)
        ensures
            r == server_command(*self, key),
    {
        match key {
            Key::Enter => match self {
                ServerPanelState::Idle => PanelCommand::Start,
                _ => PanelCommand::Ignore,
            },
            Key::Esc => match self {
                ServerPanelState::Running { .. } => PanelCommand::Stop,
                ServerPanelState::Error(_) => PanelCommand::Reset,
                ServerPanelState::Idle => PanelCommand::Ignore,
            },
            _ => match self {
                ServerPanelState::Idle => PanelCommand::Edit(key),
                _ => PanelCommand::Ignore,
            },
        }
    }

    /// Whether a server is running.
    pub fn is_busy(&self) -> (r: bool)
        ensures
            r == (*self is Running),
    {
        matches!(self, ServerPanelState::Running { .. })
    }
}

/// What starting the server gives for the form's texts: the parameters, or the error shown.
pub open spec fn server_start_spec(bind: Seq<char>, port: Seq<char>, buffer: Seq<char>, once: bool) -> Result<ServerParams, Seq<char>> {
    match ipv4_spec(trim_spec(bind)) {
        None => Err("invalid bind address: "@ + bind),
        Some(b) => match u16_field(port) {
            None => Err("invalid port: "@ + port),
            Some(p) => match udp_buf_spec(buffer) {
                Err(e) => Err("invalid UDP recv. buffer value: "@ + buffer + " ("@ + e + ")"@),
                Ok(size) => Ok(ServerParams { bind: b, port: p, udp_recv_buffer: size, once }),
            },
        },
    }
}

/// Reads the form into the parameters of the server, or the error to show.
pub fn server_start_params(inputs: &InputList) -> (r: Result<ServerParams, String>)
    ensures
        match r {
            Ok(p) => server_start_spec(text_under(inputs@, "bind"@), text_under(inputs@, "port"@),
                text_under(inputs@, "UDP recv. buffer"@), toggle_under(inputs@, "once"@))
                == Ok::<ServerParams, Seq<char>>(p),
            Err(e) => server_start_spec(text_under(inputs@, "bind"@), text_under(inputs@, "port"@),
                text_under(inputs@, "UDP recv. buffer"@), toggle_under(inputs@, "once"@))
                == Err::<ServerParams, Seq<char>>(e@),
        },
{
    let bind_text = inputs.get_text("bind");
    let bc = chars_of(bind_text);
    let bt = trim_chars(bc.as_slice());
    let bind = match parse_ipv4(bt.as_slice()) {
        Some(b) => b,
        None => {
            return Err(concat2("invalid bind address: ", bc.as_slice()));
        },
    };
    let port_text = inputs.get_text("port");
    let port = match parse_u16_field(port_text) {
        Some(p) => p,
        None => {
            let pc = chars_of(port_text);
            return Err(concat2("invalid port: ", pc.as_slice()));
        },
    };
    let buffer_text = inputs.get_text("UDP recv. buffer");
    let udp_recv_buffer = match parse_udp_buf_mem_size(buffer_text) {
        Ok(v) => v,
        Err(e) => {
            let uc = chars_of(buffer_text);
            let ec = chars_of(e.as_str());
            let mut m = concat2("invalid UDP recv. buffer value: ", uc.as_slice());
            m.append(" (");
            push_chars(&mut m, ec.as_slice());
            m.append(")");
            return Err(m);
        },
    };
    Ok(ServerParams { bind, port, udp_recv_buffer, once: inputs.get_toggle("once") })
}

/// The footer shortcuts of the server panel in each state.
pub open spec fn server_footer(state: ServerPanelState) -> Seq<FooterItem> {
    match state {
        ServerPanelState::Idle => seq![
            FooterItem { key: "enter", label: "start", enabled: true },
            FooterItem { key: "tab", label: "switch field", enabled: true },
            FooterItem { key: "space", label: "toggle", enabled: true },
        ],
        ServerPanelState::Running { .. } => seq![FooterItem { key: "esc", label: "stop server", enabled: true }],
        ServerPanelState::Error(_) => seq![FooterItem { key: "esc", label: "back to idle", enabled: true }],
    }
}

impl PanelFooter for ServerPanelState {
    fn footer_items(&self) -> (r: Vec<FooterItem>)
        ensures
            r@ == server_footer(*self),
    {
        let mut v: Vec<FooterItem> = Vec::new();
        match self {
            ServerPanelState::Idle => {
                v.push(FooterItem::new("enter", "start"));
                v.push(FooterItem::new("tab", "switch field"));
                v.push(FooterItem::new("space", "toggle"));
            },
            ServerPanelState::Running { .. } => {
                v.push(FooterItem::new("esc", "stop server"));
            },
            ServerPanelState::Error(_) => {
                v.push(FooterItem::new("esc", "back to idle"));
            },
        }
        proof {
            assert(v@ =~= server_footer(*self));
        }
        v
    }
}

} // verus!
