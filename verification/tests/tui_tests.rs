use aether_wire::tui::display::{border_line, build_bar, footer_bar, footer_items, menu_lines, percent_label, visible_log, LogLineKind, Tone};
use aether_wire::tui::footer::FooterItem;
use aether_wire::tui::input::{separator, text, text_labeled, toggle, InputField, InputKind, InputList, PanelInputEntry};
use aether_wire::tui::key::Key;
use aether_wire::tui::menu::{app_on_key, AppAction, MENU_LEN};
use aether_wire::tui::panels::legacy::{AboutPanel, BenchmarkTcpInputs, BenchmarkUdpInputs, QualifyInputs};
use aether_wire::tui::panels::server::{server_key_valid, server_panel_inputs, server_start_params, ServerPanelState, ServerParams};
use aether_wire::tui::panels::session::{benchmark_outcome_step, benchmark_task_finished, BenchmarkOutcome, ServerEvent, ServerSession, SessionClock};
use aether_wire::tui::panels::tcp_benchmark::{tcp_form_on_key, tcp_panel_command, tcp_panel_inputs, tcp_start_params, TcpBenchmarkParams, TcpPanelPhase};
use aether_wire::tui::panels::udp_benchmark::{udp_form_on_key, udp_panel_command, udp_panel_inputs, udp_start_params, UdpPanelPhase};
use aether_wire::tui::panels::{BenchmarkPhase, PanelCommand, PanelFooter};
use aether_wire::tui::spinner::get_spinner_char;
use aether_wire::parser::TimeSpan;

fn type_text(list: &mut InputList, s: &str) {
    for c in s.chars() {
        list.on_key(Key::Char(c));
    }
}

fn focused_count(list: &InputList) -> usize {
    list.entries
        .iter()
        .filter(|e| match &e.kind {
            InputKind::Text(f) => f.focused,
            InputKind::Toggle { focused, .. } => *focused,
            InputKind::Separator => false,
        })
        .count()
}

#[test]
fn input_field_editing() {
    let mut f = InputField::new("port", "90", "9000");
    f.on_key(Key::Char('0'));
    assert_eq!(f.value, "900");
    f.on_key(Key::Backspace);
    f.on_key(Key::Backspace);
    assert_eq!(f.value, "9");
    f.on_key(Key::Backspace);
    f.on_key(Key::Backspace);
    assert_eq!(f.value, "");
    f.on_key(Key::Enter);
    assert_eq!(f.value, "");
}

#[test]
fn input_list_focus_and_values() {
    let mut list = InputList::new(vec![
        text("server", "", "192.168.1.11", true),
        separator(),
        text("port", "9000", "9000", true),
        toggle("verify", "verify integrity", false, true),
        text("hidden", "", "", false),
    ]);
    assert_eq!(list.focused_index(), 0);
    assert_eq!(list.focused_key(), Some("server"));
    assert_eq!(list.focusable_count(), 3);
    assert_eq!(list.visible_count(), 4);
    assert_eq!(list.visible_entries().len(), 4);
    assert_eq!(focused_count(&list), 1);
    type_text(&mut list, "10.0.0.1");
    assert_eq!(list.get_text("server"), "10.0.0.1");
    list.on_key(Key::Tab);
    assert_eq!(list.focused_key(), Some("port"));
    assert_eq!(focused_count(&list), 1);
    list.on_key(Key::Tab);
    list.on_key(Key::Char(' '));
    assert!(list.get_toggle("verify"));
    list.on_key(Key::Tab);
    assert_eq!(list.focused_index(), 0);
    assert_eq!(list.get_text("port"), "9000");
    assert_eq!(list.get_text("verify"), "");
    assert_eq!(list.get_text("missing"), "");
    assert!(!list.get_toggle("server"));
}

#[test]
fn input_list_without_focusable_entries() {
    let mut list = InputList::new(vec![separator(), text("x", "", "", false)]);
    assert_eq!(list.focusable_count(), 0);
    list.on_key(Key::Tab);
    assert_eq!(list.focused_index(), 0);
    assert_eq!(list.focused_key(), None);
}

#[test]
fn entry_constructors() {
    let e: PanelInputEntry = text_labeled("key", "label", "v", "p", true);
    assert_eq!(e.key, "key");
    match e.kind {
        InputKind::Text(f) => {
            assert_eq!(f.label, "label");
            assert_eq!(f.value, "v");
        },
        _ => panic!("expected a text field"),
    }
    let s = separator();
    assert_eq!(s.key, "");
    assert!(s.tui_visible);
}

#[test]
fn menu_navigation() {
    assert_eq!(app_on_key(0, false, Key::Down), AppAction::Select(1));
    assert_eq!(app_on_key(4, false, Key::Down), AppAction::Select(0));
    assert_eq!(app_on_key(0, false, Key::Up), AppAction::Select(MENU_LEN - 1));
    assert_eq!(app_on_key(2, true, Key::Up), AppAction::Select(2));
    assert_eq!(app_on_key(2, false, Key::Char('q')), AppAction::Quit);
    assert_eq!(app_on_key(2, false, Key::Enter), AppAction::Panel(Key::Enter));
    for i in 0..MENU_LEN {
        if let AppAction::Select(n) = app_on_key(i, false, Key::Down) {
            assert_eq!(app_on_key(n, false, Key::Up), AppAction::Select(i));
        }
    }
}

#[test]
fn spinner_frames() {
    assert_eq!(get_spinner_char(0), "⠋");
    assert_eq!(get_spinner_char(79), "⠋");
    assert_eq!(get_spinner_char(80), "⠙");
    assert_eq!(get_spinner_char(800), "⠋");
    assert_eq!(get_spinner_char(9 * 80), "⠏");
}

#[test]
fn tcp_panel_flow() {
    let mut inputs = tcp_panel_inputs();
    assert_eq!(inputs.get_text("time"), "10s");
    tcp_form_on_key(&mut inputs, Key::Char('x'));
    assert_eq!(inputs.get_text("server"), "");
    for c in "192.168.1.11".chars() {
        tcp_form_on_key(&mut inputs, Key::Char(c));
    }
    assert_eq!(inputs.get_text("server"), "192.168.1.11");
    tcp_form_on_key(&mut inputs, Key::Tab);
    for c in "9000".chars() {
        tcp_form_on_key(&mut inputs, Key::Char(c));
    }
    tcp_form_on_key(&mut inputs, Key::Char('0'));
    tcp_form_on_key(&mut inputs, Key::Char('0'));
    assert_eq!(inputs.get_text("port"), "90000");
    tcp_form_on_key(&mut inputs, Key::Backspace);
    assert_eq!(
        tcp_start_params(&inputs),
        Ok(TcpBenchmarkParams {
            server: 0xc0a8010b,
            port: 9000,
            duration: TimeSpan { secs: 10, nanos: 0 },
            n_streams: 1,
            verify_integrity: None,
        })
    );
    tcp_form_on_key(&mut inputs, Key::Tab);
    tcp_form_on_key(&mut inputs, Key::Tab);
    tcp_form_on_key(&mut inputs, Key::Tab);
    assert_eq!(inputs.focused_key(), Some("verify"));
    tcp_form_on_key(&mut inputs, Key::Char(' '));
    assert!(inputs.get_toggle("verify"));
    assert_eq!(tcp_start_params(&inputs).unwrap().verify_integrity, Some(1 << 30));
    for _ in 0..4 {
        tcp_form_on_key(&mut inputs, Key::Tab);
    }
    assert_eq!(inputs.focused_key(), Some("stream count"));
    tcp_form_on_key(&mut inputs, Key::Char('2'));
    assert_eq!(inputs.get_text("stream count"), "12");
    assert!(!inputs.get_toggle("verify"));
    assert!(!inputs.entries[6].tui_visible);
    assert!(!inputs.entries[5].tui_visible);
    assert_eq!(tcp_start_params(&inputs).unwrap().n_streams, 12);
    tcp_form_on_key(&mut inputs, Key::Char('3'));
    assert_eq!(inputs.get_text("stream count"), "12");
    tcp_form_on_key(&mut inputs, Key::Backspace);
    tcp_form_on_key(&mut inputs, Key::Backspace);
    assert!(inputs.entries[6].tui_visible);
    assert_eq!(tcp_start_params(&inputs), Err("invalid streams: ".to_string()));
    assert_eq!(tcp_panel_command(BenchmarkPhase::Idle, Key::Enter), PanelCommand::Start);
    assert_eq!(tcp_panel_command(BenchmarkPhase::Running, Key::Enter), PanelCommand::Ignore);
    assert_eq!(tcp_panel_command(BenchmarkPhase::Error, Key::Char('r')), PanelCommand::Start);
    assert_eq!(tcp_panel_command(BenchmarkPhase::Done, Key::Esc), PanelCommand::Reset);
    assert_eq!(tcp_panel_command(BenchmarkPhase::Idle, Key::Char('r')), PanelCommand::Ignore);
    assert_eq!(tcp_panel_command(BenchmarkPhase::Idle, Key::Char('5')), PanelCommand::Edit(Key::Char('5')));
    assert_eq!(TcpPanelPhase(BenchmarkPhase::Running).footer_items().len(), 0);
    assert_eq!(TcpPanelPhase(BenchmarkPhase::Idle).footer_items()[0].key, "enter");
}

#[test]
fn tcp_start_errors() {
    let inputs = tcp_panel_inputs();
    assert_eq!(tcp_start_params(&inputs), Err("invalid server address:  is not a valid IPv4 address".to_string()));
}

#[test]
fn udp_panel_flow() {
    let mut inputs = udp_panel_inputs();
    for c in "10.0.0.2".chars() {
        udp_form_on_key(&mut inputs, Key::Char(c));
    }
    udp_form_on_key(&mut inputs, Key::Tab);
    for c in "9000".chars() {
        udp_form_on_key(&mut inputs, Key::Char(c));
    }
    assert_eq!(udp_start_params(&inputs), Err("invalid bandwidth: bandwidth cannot be empty".to_string()));
    udp_form_on_key(&mut inputs, Key::Tab);
    udp_form_on_key(&mut inputs, Key::Tab);
    udp_form_on_key(&mut inputs, Key::Tab);
    assert_eq!(inputs.focused_key(), Some("bandwidth"));
    for c in "10M".chars() {
        udp_form_on_key(&mut inputs, Key::Char(c));
    }
    let p = udp_start_params(&inputs).unwrap();
    assert_eq!(p.bandwidth, 10_000_000);
    assert_eq!(p.payload_size, 1400);
    assert_eq!(udp_panel_command(BenchmarkPhase::Error, Key::Char('r')), PanelCommand::Ignore);
    assert_eq!(udp_panel_command(BenchmarkPhase::Done, Key::Char('r')), PanelCommand::Start);
    assert_eq!(UdpPanelPhase(BenchmarkPhase::Error).footer_items().len(), 1);
}

#[test]
fn server_panel_flow() {
    let mut inputs = server_panel_inputs();
    assert!(server_key_valid(&inputs, Key::Char(':')));
    assert!(!server_key_valid(&inputs, Key::Char('a')));
    inputs.on_key(Key::Char('0'));
    inputs.on_key(Key::Char('.'));
    inputs.on_key(Key::Char('0'));
    inputs.on_key(Key::Char('.'));
    inputs.on_key(Key::Char('0'));
    inputs.on_key(Key::Char('.'));
    inputs.on_key(Key::Char('0'));
    assert_eq!(server_start_params(&inputs), Err("invalid port: ".to_string()));
    inputs.on_key(Key::Tab);
    inputs.on_key(Key::Char('9'));
    assert_eq!(
        server_start_params(&inputs),
        Ok(ServerParams { bind: 0, port: 9, udp_recv_buffer: 16 * 1024 * 1024, once: false })
    );
    let state = ServerPanelState::Running { addr: "0.0.0.0:9".to_string() };
    assert_eq!(state.command(Key::Esc), PanelCommand::Stop);
    assert!(state.is_busy());
    assert_eq!(state.footer_items()[0].label, "stop server");
    assert_eq!(ServerPanelState::Error("e".to_string()).command(Key::Esc), PanelCommand::Reset);
}

#[test]
fn benchmark_outcomes() {
    let mut log = vec!["old".to_string()];
    let phase = benchmark_outcome_step(&mut log, BenchmarkOutcome::Done { client: vec!["  c".to_string()], server: vec!["  s".to_string()] });
    assert_eq!(phase, BenchmarkPhase::Done);
    assert_eq!(log, vec!["old", "> sender (client)", "  c", "", "> receiver (server)", "  s"]);
    let mut log = Vec::new();
    assert_eq!(benchmark_outcome_step(&mut log, BenchmarkOutcome::Error("boom".to_string())), BenchmarkPhase::Error);
    assert_eq!(log, vec!["! boom"]);
    assert_eq!(benchmark_task_finished(BenchmarkPhase::Running), BenchmarkPhase::Idle);
    assert_eq!(benchmark_task_finished(BenchmarkPhase::Done), BenchmarkPhase::Done);
}

#[test]
fn server_session_events() {
    let mut s = ServerSession { state: ServerPanelState::Idle, log: Vec::new(), session_in_progress: false };
    assert_eq!(s.on_event(ServerEvent::Listening { addr: "0.0.0.0:9000".to_string() }), SessionClock::Keep);
    assert!(s.state.is_busy());
    assert_eq!(s.on_event(ServerEvent::SessionStarted { peer: "10.0.0.2:5000".to_string(), session_type: "TCP".to_string() }), SessionClock::Start);
    assert!(s.session_in_progress);
    s.on_event(ServerEvent::SessionResult(vec!["  line".to_string()]));
    assert_eq!(s.on_event(ServerEvent::SessionEnded { peer: "10.0.0.2:5000".to_string() }), SessionClock::Stop);
    s.on_event(ServerEvent::SessionStarted { peer: "p".to_string(), session_type: "UDP".to_string() });
    assert_eq!(s.log, vec!["+ 10.0.0.2:5000  [TCP]", "  line", "> 10.0.0.2:5000  done", "", "+ p  [UDP]"]);
    s.on_event(ServerEvent::Error("lost".to_string()));
    assert!(matches!(&s.state, ServerPanelState::Error(e) if e == "lost"));
    assert!(!s.session_in_progress);
    s.on_task_finished();
    assert!(matches!(s.state, ServerPanelState::Error(_)));
}

#[test]
fn legacy_forms() {
    let t = BenchmarkTcpInputs::new();
    assert_eq!(t.n_streams.value, "1");
    assert_eq!(t.server.placeholder, "192.168.1.11");
    let u = BenchmarkUdpInputs::new();
    assert_eq!(u.length.value, "1400");
    let q = QualifyInputs::new();
    assert_eq!(q.port.placeholder, "9000");
    let _ = AboutPanel::new();
}

#[test]
fn display_pieces() {
    let f = InputField::new("port", "", "9000");
    let p = f.pieces(8);
    assert_eq!(p.len(), 2);
    assert_eq!(p[0].text, "port:   ");
    assert_eq!(p[1].text, "9000");
    assert_eq!(p[1].tone, Tone::Placeholder);
    let mut g = InputField::new("port", "", "9000");
    g.focused = true;
    let q = g.pieces(4);
    assert_eq!(q[0].text, "port:");
    assert_eq!(q[1].text, "9");
    assert_eq!(q[1].tone, Tone::Cursor);
    assert_eq!(q[2].text, "000");
    g.on_key(Key::Char('1'));
    assert_eq!(g.pieces(0)[1].text, "1█");
    let t = toggle("once", "once", true, true);
    assert_eq!(t.pieces(10)[0].text, "● once");
    assert_eq!(build_bar(12, 4), "█▌  ");
    assert_eq!(build_bar(40, 4), "█████");
    assert_eq!(percent_label(7), "   7%");
    assert_eq!(border_line('╭', '╮', 5), "╭───╮");
    let lines = menu_lines(1);
    assert_eq!(lines[1].0, " > UDP benchmark");
    assert_eq!(lines[0].0, "   TCP benchmark");
    let items = footer_items(true, vec![FooterItem::new("esc", "back")]);
    assert!(!items[0].enabled);
    assert_eq!(items[2].label, "back");
    let bar = footer_bar(&items, 2);
    assert_eq!(bar.len(), 1 + 2 + 3 + 3 + 1);
    assert_eq!(bar[3].text, " • ");
    assert_eq!(bar[9].text, "  ");
    let log = vec!["> sender".to_string(), "  data".to_string(), String::new()];
    let shown = visible_log(&log, 4);
    assert_eq!(shown.len(), 2);
    assert_eq!(shown[0].1, LogLineKind::Data);
    assert_eq!(shown[1].1, LogLineKind::Blank);
}

#[test]
fn udp_form_fields_stay_within_their_lengths() {
    let mut inputs = udp_panel_inputs();
    for _ in 0..20 {
        udp_form_on_key(&mut inputs, Key::Char('1'));
    }
    assert_eq!(inputs.get_text("server").len(), 15);
    udp_form_on_key(&mut inputs, Key::Tab);
    for _ in 0..9 {
        udp_form_on_key(&mut inputs, Key::Char('9'));
    }
    assert_eq!(inputs.get_text("port"), "99999");
}

#[test]
fn tcp_form_hides_verify_for_many_streams() {
    let mut inputs = tcp_panel_inputs();
    for _ in 0..3 {
        tcp_form_on_key(&mut inputs, Key::Tab);
    }
    tcp_form_on_key(&mut inputs, Key::Backspace);
    tcp_form_on_key(&mut inputs, Key::Char('4'));
    assert_eq!(inputs.get_text("stream count"), "4");
    assert!(!inputs.get_toggle("verify"));
    assert!(inputs.entries.iter().filter(|e| e.key == "verify" || e.key == "sep_verify").all(|e| !e.tui_visible));
    tcp_form_on_key(&mut inputs, Key::Backspace);
    tcp_form_on_key(&mut inputs, Key::Char('1'));
    assert!(inputs.entries.iter().filter(|e| e.key == "verify" || e.key == "sep_verify").all(|e| e.tui_visible));
}

#[test]
fn list_keeps_a_single_focus() {
    let mut inputs = udp_panel_inputs();
    for k in [Key::Tab, Key::Char('1'), Key::Tab, Key::Tab, Key::Backspace, Key::Tab, Key::Tab, Key::Tab, Key::Tab] {
        inputs.on_key(k);
        let focused = inputs.entries.iter().filter(|e| match &e.kind {
            InputKind::Text(f) => f.focused,
            InputKind::Toggle { focused, .. } => *focused,
            InputKind::Separator => false,
        }).count();
        assert_eq!(focused, 1);
        assert!(inputs.focused_index() < inputs.focusable_count());
    }
}

#[test]
fn udp_panel_starts_with_zero_padded_time() {
    let mut inputs = udp_panel_inputs();
    type_text(&mut inputs, "10.0.0.1");
    inputs.on_key(Key::Tab);
    type_text(&mut inputs, "9000");
    inputs.on_key(Key::Tab);
    for _ in 0..3 {
        inputs.on_key(Key::Backspace);
    }
    type_text(&mut inputs, "000000000010s");
    inputs.on_key(Key::Tab);
    inputs.on_key(Key::Tab);
    type_text(&mut inputs, "10M");
    assert_eq!(inputs.get_text("time"), "000000000010s");
    let p = udp_start_params(&inputs).unwrap();
    assert_eq!(p.duration, TimeSpan { secs: 10, nanos: 0 });
    assert_eq!(p.n_streams, 1);
    assert_eq!(p.bandwidth, 10_000_000);
    assert_eq!(p.payload_size, 1400);
}
