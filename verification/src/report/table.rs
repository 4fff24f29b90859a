//! The report tables: rows of preformatted cells, column widths that ignore ANSI escape
//! sequences, padded rendering, and the lines of a report.

use vstd::prelude::*;

use crate::report::colors::{BLUE, BOLD, MAROON, NO_BOLD, PINK, RESET};
use crate::text::{
    chars_of, concat2, pad_left_spec, pad_right_spec, push_chars, push_padded_left,
    push_padded_right, push_repeat, repeat_spec,
};

verus! {

/// How many characters of `s`, from index `i` on, show on a terminal: an escape sequence from
/// ESC through the next `m` shows nothing (`in_escape`: inside one).
pub open spec fn visible_from(s: Seq<char>, i: int, in_escape: bool) -> nat
    decreases s.len() - i,
{
    if i < 0 || i >= s.len() {
        0
    } else if in_escape {
        visible_from(s, i + 1, s[i] != 'm')
    } else if s[i] == '\x1b' {
        visible_from(s, i + 1, true)
    } else {
        1 + visible_from(s, i + 1, false)
    }
}

/// How many characters of `s` show on a terminal.
pub open spec fn visible_width_spec(s: Seq<char>) -> nat {
    visible_from(s, 0, false)
}

/// No more characters show than there are.
pub proof fn lemma_visible_from_le(s: Seq<char>, i: int, in_escape: bool)
    requires
        0 <= i <= s.len(),
    ensures
        visible_from(s, i, in_escape) <= s.len() - i,
    decreases s.len() - i,
{
    if i < s.len() {
        lemma_visible_from_le(s, i + 1, s[i] != 'm');
        lemma_visible_from_le(s, i + 1, true);
        lemma_visible_from_le(s, i + 1, false);
    }
}

/// Whether, after the characters of `s` from index `i` on, a terminal is inside an escape
/// sequence (`in_escape`: inside one at `i`).
pub open spec fn escape_after(s: Seq<char>, i: int, in_escape: bool) -> bool
    decreases s.len() - i,
{
    if i < 0 || i >= s.len() {
        in_escape
    } else if in_escape {
        escape_after(s, i + 1, s[i] != 'm')
    } else if s[i] == '\x1b' {
        escape_after(s, i + 1, true)
    } else {
        escape_after(s, i + 1, false)
    }
}

/// A text without escape character.
pub open spec fn plain(s: Seq<char>) -> bool {
    forall|i: int| 0 <= i < s.len() ==> s[i] != '\x1b'
}

/// Reading past the end of `a` in `a + b` is reading `b`.
proof fn lemma_visible_shift(a: Seq<char>, b: Seq<char>, j: int, e: bool)
    requires
        0 <= j <= b.len(),
    ensures
        visible_from(a + b, a.len() + j, e) == visible_from(b, j, e),
        escape_after(a + b, a.len() + j, e) == escape_after(b, j, e),
    decreases b.len() - j,
{
    if j < b.len() {
        assert((a + b)[a.len() + j] == b[j]);
        lemma_visible_shift(a, b, j + 1, b[j] != 'm');
        lemma_visible_shift(a, b, j + 1, true);
        lemma_visible_shift(a, b, j + 1, false);
    }
}

/// The visible width of a concatenation: that of the first part, plus that of the second read
/// in the state the first leaves.
pub proof fn lemma_visible_concat(a: Seq<char>, b: Seq<char>, i: int, e: bool)
    requires
        0 <= i <= a.len(),
    ensures
        visible_from(a + b, i, e) == visible_from(a, i, e) + visible_from(b, 0, escape_after(a, i, e)),
        escape_after(a + b, i, e) == escape_after(b, 0, escape_after(a, i, e)),
    decreases a.len() - i,
{
    if i == a.len() {
        lemma_visible_shift(a, b, 0, e);
    } else {
        assert((a + b)[i] == a[i]);
        lemma_visible_concat(a, b, i + 1, a[i] != 'm');
        lemma_visible_concat(a, b, i + 1, true);
        lemma_visible_concat(a, b, i + 1, false);
    }
}

/// All of a plain text shows, and it leaves the terminal outside escape sequences.
pub proof fn lemma_plain_visible(s: Seq<char>, i: int)
    requires
        plain(s),
        0 <= i <= s.len(),
    ensures
        visible_from(s, i, false) == s.len() - i,
        !escape_after(s, i, false),
    decreases s.len() - i,
{
    if i < s.len() {
        lemma_plain_visible(s, i + 1);
    }
}

/// An escape sequence (ESC, then anything but `m`, then `m`) shows nothing and leaves the
/// terminal outside escape sequences.
pub proof fn lemma_escape_invisible(s: Seq<char>, i: int)
    requires
        s.len() >= 2,
        s[0] == '\x1b',
        s.last() == 'm',
        forall|j: int| 1 <= j < s.len() - 1 ==> s[j] != 'm',
        1 <= i < s.len(),
    ensures
        visible_from(s, i, true) == 0,
        !escape_after(s, i, true),
    decreases s.len() - i,
{
    if i < s.len() - 1 {
        assert(s[i] != 'm');
        lemma_escape_invisible(s, i + 1);
    } else if i == s.len() - 1 {
        assert(s[i] == s.last());
        assert(visible_from(s, i + 1, false) == 0);
        assert(escape_after(s, i + 1, false) == false);
        assert(escape_after(s, i, true) == escape_after(s, i + 1, false));
    }
}

/// The number of characters of a string that show on a terminal, ANSI escape sequences left out.
pub fn visible_width(s: &str) -> (r: usize)
    ensures
        r == visible_width_spec(s@),
{
    let cs = chars_of(s);
    let mut width: usize = 0;
    let mut in_escape = false;
    let mut i: usize = 0;
    while i < cs.len()
        invariant
            i <= cs@.len(),
            cs@ == s@,
            width <= i,
            visible_width_spec(s@) == width + visible_from(cs@, i as int, in_escape),
        decreases cs@.len() - i,
    {
        let c = cs[i];
        if in_escape {
            in_escape = c != 'm';
        } else if c == '\x1b' {
            in_escape = true;
        } else {
            width = width + 1;
        }
        i = i + 1;
    }
    width
}

/// One row of the TCP report, its cells already formatted.
#[derive(Debug, Clone)]
pub struct TcpRow {
    pub stream: String,
    pub direction: String,
    pub bytes: String,
    pub bitrate: String,
    pub is_total: bool,
}

/// The text of a TCP row.
pub struct TcpRowView {
    pub stream: Seq<char>,
    pub direction: Seq<char>,
    pub bytes: Seq<char>,
    pub bitrate: Seq<char>,
    pub is_total: bool,
}

impl View for TcpRow {
    type V = TcpRowView;

    open spec fn view(&self) -> TcpRowView {
        TcpRowView {
            stream: self.stream@,
            direction: self.direction@,
            bytes: self.bytes@,
            bitrate: self.bitrate@,
            is_total: self.is_total,
        }
    }
}

/// The texts of TCP rows.
pub open spec fn tcp_row_views(rows: Seq<TcpRow>) -> Seq<TcpRowView> {
    rows.map_values(|r: TcpRow| r@)
}

/// The column widths of the TCP report.
#[derive(Debug, Clone, Copy, PartialEq, Eq, Structural)]
pub struct TcpWidths {
    pub stream: usize,
    pub direction: usize,
    pub bytes: usize,
    pub bitrate: usize,
}

/// The text of a TCP row's cell in column `col` (stream, direction, bytes, bit rate).
pub open spec fn tcp_cell(r: TcpRowView, col: int) -> Seq<char> {
    if col == 0 {
        r.stream
    } else if col == 1 {
        r.direction
    } else if col == 2 {
        r.bytes
    } else {
        r.bitrate
    }
}

/// The width of column `col` of the TCP report: its widest visible cell.
pub open spec fn tcp_col_width(rows: Seq<TcpRowView>, col: int) -> nat
    decreases rows.len(),
{
    if rows.len() == 0 {
        0
    } else {
        let prev = tcp_col_width(rows.drop_last(), col);
        let w = visible_width_spec(tcp_cell(rows.last(), col));
        if w > prev {
            w
        } else {
            prev
        }
    }
}

/// The widths of a TCP report's columns.
pub open spec fn tcp_widths_of(rows: Seq<TcpRowView>) -> TcpWidths {
    TcpWidths {
        stream: tcp_col_width(rows, 0) as usize,
        direction: tcp_col_width(rows, 1) as usize,
        bytes: tcp_col_width(rows, 2) as usize,
        bitrate: tcp_col_width(rows, 3) as usize,
    }
}

/// The larger of two widths.
fn wider(a: usize, b: usize) -> (r: usize)
    ensures
        r == (if b > a { b } else { a }),
{
    if b > a {
        b
    } else {
        a
    }
}

/// The widths of the TCP report's columns: in each, the widest visible cell.
pub fn compute_tcp_widths(rows: &[TcpRow]) -> (r: TcpWidths)
    ensures
        r.stream == tcp_col_width(tcp_row_views(rows@), 0),
        r.direction == tcp_col_width(tcp_row_views(rows@), 1),
        r.bytes == tcp_col_width(tcp_row_views(rows@), 2),
        r.bitrate == tcp_col_width(tcp_row_views(rows@), 3),
{
    let mut w = TcpWidths { stream: 0, direction: 0, bytes: 0, bitrate: 0 };
    let mut i: usize = 0;
    while i < rows.len()
        invariant
            i <= rows@.len(),
            w.stream == tcp_col_width(tcp_row_views(rows@.take(i as int)), 0),
            w.direction == tcp_col_width(tcp_row_views(rows@.take(i as int)), 1),
            w.bytes == tcp_col_width(tcp_row_views(rows@.take(i as int)), 2),
            w.bitrate == tcp_col_width(tcp_row_views(rows@.take(i as int)), 3),
        decreases rows@.len() - i,
    {
        proof {
            assert(tcp_row_views(rows@.take(i + 1)).drop_last() =~= tcp_row_views(rows@.take(i as int)));
        }
        let r = &rows[i];
        w.stream = wider(w.stream, visible_width(r.stream.as_str()));
        w.direction = wider(w.direction, visible_width(r.direction.as_str()));
        w.bytes = wider(w.bytes, visible_width(r.bytes.as_str()));
        w.bitrate = wider(w.bitrate, visible_width(r.bitrate.as_str()));
        i = i + 1;
    }
    assert(rows@.take(rows@.len() as int) =~= rows@);
    w
}

/// The width of the whole TCP table: the columns and their separators.
pub open spec fn tcp_table_width_spec(w: TcpWidths) -> nat {
    (w.stream + 3 + w.direction + 3 + w.bytes + 3 + w.bitrate) as nat
}

/// The width of the whole TCP table.
pub fn tcp_table_width(w: TcpWidths) -> (r: usize)
    requires
        tcp_table_width_spec(w) <= usize::MAX,
    ensures
        r == tcp_table_width_spec(w),
{
    w.stream + 3 + w.direction + 3 + w.bytes + 3 + w.bitrate
}

/// How a TCP row renders: the stream left-aligned, the other cells right-aligned, separated by
/// `│`, the total row in bold pink.
pub open spec fn tcp_row_text(r: TcpRowView, w: TcpWidths) -> Seq<char> {
    let prefix = if r.is_total { BOLD@ + PINK@ } else { MAROON@ };
    let rate_color = if r.is_total { PINK@ } else { BLUE@ };
    prefix + pad_right_spec(r.stream, w.stream as nat) + BLUE@ + " │ "@
        + pad_left_spec(r.direction, w.direction as nat, ' ') + " │ "@
        + pad_left_spec(r.bytes, w.bytes as nat, ' ') + " │ "@ + rate_color + BOLD@
        + pad_left_spec(r.bitrate, w.bitrate as nat, ' ') + NO_BOLD@ + BLUE@ + RESET@
}

/// Renders one TCP row.
pub fn render_tcp_row(row: &TcpRow, w: TcpWidths) -> (r: String)
    ensures
        r@ == tcp_row_text(row@, w),
{
    let mut s = String::new();
    if row.is_total {
        s.append(BOLD);
        s.append(PINK);
    } else {
        s.append(MAROON);
    }
    let stream = chars_of(row.stream.as_str());
    push_padded_right(&mut s, stream.as_slice(), w.stream);
    s.append(BLUE);
    s.append(" │ ");
    let direction = chars_of(row.direction.as_str());
    push_padded_left(&mut s, direction.as_slice(), w.direction, ' ');
    s.append(" │ ");
    let bytes = chars_of(row.bytes.as_str());
    push_padded_left(&mut s, bytes.as_slice(), w.bytes, ' ');
    s.append(" │ ");
    if row.is_total {
        s.append(PINK);
    } else {
        s.append(BLUE);
    }
    s.append(BOLD);
    let bitrate = chars_of(row.bitrate.as_str());
    push_padded_left(&mut s, bitrate.as_slice(), w.bitrate, ' ');
    s.append(NO_BOLD);
    s.append(BLUE);
    s.append(RESET);
    proof {
        let prefix = if row.is_total { BOLD@ + PINK@ } else { MAROON@ };
        assert(Seq::<char>::empty() + prefix =~= prefix);
        assert(s@ =~= tcp_row_text(row@, w));
    }
    s
}

/// The indentation of report lines.
pub const INDENT: &'static str = "      ";

/// The views of a list of strings.
pub open spec fn views(v: Seq<String>) -> Seq<Seq<char>> {
    v.map_values(|s: String| s@)
}

/// A rule of `═` as wide as the table, with the role centred in it (an odd leftover goes
/// right).
pub open spec fn header_line(role: Seq<char>, width: nat) -> Seq<char> {
    let title = seq![' '] + role + seq![' '];
    let inner: nat = if width > title.len() { (width - title.len()) as nat } else { 0 };
    let left = inner / 2;
    repeat_spec('═', left) + title + repeat_spec('═', (inner - left) as nat)
}

/// The header line of a report, as printed.
pub open spec fn header_text(role: Seq<char>, width: nat) -> Seq<char> {
    INDENT@ + BOLD@ + BLUE@ + header_line(role, width) + RESET@ + NO_BOLD@
}

/// Renders the header of a report `width` columns wide.
pub fn responsive_header(role: &str, width: usize) -> (r: String)
    ensures
        r@ == header_text(role@, width as nat),
{
    let rc = chars_of(role);
    let title_len: usize = if rc.len() <= usize::MAX - 2 { rc.len() + 2 } else { usize::MAX };
    let inner: usize = if width > title_len { width - title_len } else { 0 };
    let left = inner / 2;
    let mut s = String::new();
    s.append(INDENT);
    s.append(BOLD);
    s.append(BLUE);
    push_repeat(&mut s, '═', left);
    s.append(" ");
    push_chars(&mut s, rc.as_slice());
    s.append(" ");
    push_repeat(&mut s, '═', inner - left);
    s.append(RESET);
    s.append(NO_BOLD);
    proof {
        reveal_strlit(" ");
        assert(s@ =~= header_text(role@, width as nat));
    }
    s
}

/// The rule printed above a total row.
pub open spec fn rule_text(width: nat) -> Seq<char> {
    INDENT@ + BLUE@ + repeat_spec('─', width) + RESET@
}

/// Renders the rule above a total row.
fn rule_line(width: usize) -> (r: String)
    ensures
        r@ == rule_text(width as nat),
{
    let mut s = String::from_str(INDENT);
    s.append(BLUE);
    push_repeat(&mut s, '─', width);
    s.append(RESET);
    s
}

/// A text printed with the report indentation.
fn indented(t: String) -> (r: String)
    ensures
        r@ == INDENT@ + t@,
{
    let mut s = String::from_str(INDENT);
    s.append(t.as_str());
    s
}

/// The width a TCP table of these rows takes, in columns.
pub open spec fn tcp_rows_width(rows: Seq<TcpRowView>) -> nat {
    tcp_col_width(rows, 0) + 3 + tcp_col_width(rows, 1) + 3 + tcp_col_width(rows, 2) + 3 + tcp_col_width(rows, 3)
}

/// The lines for the TCP rows: each row, with a rule above a total row that follows others.
pub open spec fn tcp_body(rows: Seq<TcpRowView>, w: TcpWidths, width: nat) -> Seq<Seq<char>>
    decreases rows.len(),
{
    if rows.len() == 0 {
        Seq::empty()
    } else {
        let r = rows.last();
        let rule: Seq<Seq<char>> = if r.is_total && rows.len() > 1 { seq![rule_text(width)] } else { Seq::empty() };
        tcp_body(rows.drop_last(), w, width) + rule + seq![INDENT@ + tcp_row_text(r, w)]
    }
}

/// The lines of the TCP report: a blank line, the header, the rows, a blank line.
pub open spec fn tcp_report(role: Seq<char>, rows: Seq<TcpRowView>) -> Seq<Seq<char>> {
    let w = tcp_widths_of(rows);
    let width = tcp_rows_width(rows);
    seq![Seq::empty(), header_text(role, width)] + tcp_body(rows, w, width) + seq![Seq::<char>::empty()]
}

/// The lines of the TCP results table for these rows (printing them is the caller's).
pub fn tcp_report_lines(role: &str, rows: &[TcpRow]) -> (r: Vec<String>)
    requires
        tcp_rows_width(tcp_row_views(rows@)) <= usize::MAX,
    ensures
        views(r@) == tcp_report(role@, tcp_row_views(rows@)),
{
    let w = compute_tcp_widths(rows);
    let width = tcp_table_width(w);
    let mut lines: Vec<String> = Vec::new();
    lines.push(String::new());
    lines.push(responsive_header(role, width));
    let ghost head = seq![Seq::<char>::empty(), header_text(role@, width as nat)];
    assert(views(lines@) =~= head);
    let mut i: usize = 0;
    while i < rows.len()
        invariant
            i <= rows@.len(),
            w == tcp_widths_of(tcp_row_views(rows@)),
            width == tcp_rows_width(tcp_row_views(rows@)),
            head == seq![Seq::<char>::empty(), header_text(role@, width as nat)],
            views(lines@) == head + tcp_body(tcp_row_views(rows@.take(i as int)), w, width as nat),
        decreases rows@.len() - i,
    {
        proof {
            assert(tcp_row_views(rows@.take(i + 1)).drop_last() =~= tcp_row_views(rows@.take(i as int)));
        }
        let ghost before = lines@;
        if rows[i].is_total && i > 0 {
            lines.push(rule_line(width));
        }
        lines.push(indented(render_tcp_row(&rows[i], w)));
        proof {
            let rule: Seq<Seq<char>> = if rows@[i as int].is_total && i + 1 > 1 { seq![rule_text(width as nat)] } else { Seq::empty() };
            assert(views(lines@) =~= views(before) + rule + seq![INDENT@ + tcp_row_text(rows@[i as int]@, w)]);
            assert(views(lines@) =~= head + tcp_body(tcp_row_views(rows@.take(i + 1)), w, width as nat));
        }
        i = i + 1;
    }
    let ghost before = lines@;
    lines.push(String::new());
    proof {
        assert(rows@.take(rows@.len() as int) =~= rows@);
        assert(views(lines@) =~= views(before) + seq![Seq::<char>::empty()]);
    }
    lines
}

/// One row of the UDP report, its cells already formatted; the receiver's rows carry the
/// jitter, out-of-order and duplicate counts shown on a detail line.
#[derive(Debug, Clone)]
pub struct UdpRow {
    pub stream: String,
    pub packets: String,
    pub bytes: String,
    pub bitrate: String,
    pub loss: String,
    pub jitter: Option<String>,
    pub ooo: Option<String>,
    pub dup: Option<String>,
    pub is_total: bool,
}

/// The text of a UDP row.
pub struct UdpRowView {
    pub stream: Seq<char>,
    pub packets: Seq<char>,
    pub bytes: Seq<char>,
    pub bitrate: Seq<char>,
    pub loss: Seq<char>,
    pub jitter: Option<Seq<char>>,
    pub ooo: Option<Seq<char>>,
    pub dup: Option<Seq<char>>,
    pub is_total: bool,
}

impl View for UdpRow {
    type V = UdpRowView;

    open spec fn view(&self) -> UdpRowView {
        UdpRowView {
            stream: self.stream@,
            packets: self.packets@,
            bytes: self.bytes@,
            bitrate: self.bitrate@,
            loss: self.loss@,
            jitter: opt_view(self.jitter),
            ooo: opt_view(self.ooo),
            dup: opt_view(self.dup),
            is_total: self.is_total,
        }
    }
}

/// The text of an optional string.
pub open spec fn opt_view(o: Option<String>) -> Option<Seq<char>> {
    match o {
        Some(s) => Some(s@),
        None => None,
    }
}

/// The texts of UDP rows.
pub open spec fn udp_row_views(rows: Seq<UdpRow>) -> Seq<UdpRowView> {
    rows.map_values(|r: UdpRow| r@)
}

/// The column widths of the UDP report.
#[derive(Debug, Clone, Copy, PartialEq, Eq, Structural)]
pub struct UdpWidths {
    pub stream: usize,
    pub packets: usize,
    pub bytes: usize,
    pub bitrate: usize,
    pub loss: usize,
}

/// The visible width of a labelled optional detail (0 when absent).
pub open spec fn detail_width(label: Seq<char>, d: Option<Seq<char>>) -> nat {
    match d {
        Some(t) => visible_width_spec(label + t),
        None => 0,
    }
}

/// The larger of two widths.
pub open spec fn max_width(a: nat, b: nat) -> nat {
    if b > a {
        b
    } else {
        a
    }
}

/// The width a UDP row needs in column `col` (stream, packets, bytes or jitter, bit rate or
/// out-of-order, loss or duplicates).
pub open spec fn udp_cell_width(r: UdpRowView, col: int) -> nat {
    if col == 0 {
        visible_width_spec(r.stream)
    } else if col == 1 {
        visible_width_spec(r.packets)
    } else if col == 2 {
        max_width(visible_width_spec(r.bytes), detail_width("jit: "@, r.jitter))
    } else if col == 3 {
        max_width(visible_width_spec(r.bitrate), detail_width("ooo: "@, r.ooo))
    } else {
        max_width(visible_width_spec("loss "@ + r.loss), detail_width("dup: "@, r.dup))
    }
}

/// The width of column `col` of the UDP report: what its widest row needs.
pub open spec fn udp_col_width(rows: Seq<UdpRowView>, col: int) -> nat
    decreases rows.len(),
{
    if rows.len() == 0 {
        0
    } else {
        max_width(udp_col_width(rows.drop_last(), col), udp_cell_width(rows.last(), col))
    }
}

/// The widths of a UDP report's columns.
pub open spec fn udp_widths_of(rows: Seq<UdpRowView>) -> UdpWidths {
    UdpWidths {
        stream: udp_col_width(rows, 0) as usize,
        packets: udp_col_width(rows, 1) as usize,
        bytes: udp_col_width(rows, 2) as usize,
        bitrate: udp_col_width(rows, 3) as usize,
        loss: udp_col_width(rows, 4) as usize,
    }
}

/// The visible width of a labelled optional detail.
fn detail_visible_width(label: &str, d: &Option<String>) -> (r: usize)
    ensures
        r == detail_width(label@, opt_view(*d)),
{
    match d {
        Some(t) => {
            let tc = chars_of(t.as_str());
            let joined = concat2(label, tc.as_slice());
            visible_width(joined.as_str())
        },
        None => 0,
    }
}

/// The widths of the UDP report's columns: in each, what the widest row needs, its detail line
/// included.
pub fn compute_udp_widths(rows: &[UdpRow]) -> (r: UdpWidths)
    ensures
        r.stream == udp_col_width(udp_row_views(rows@), 0),
        r.packets == udp_col_width(udp_row_views(rows@), 1),
        r.bytes == udp_col_width(udp_row_views(rows@), 2),
        r.bitrate == udp_col_width(udp_row_views(rows@), 3),
        r.loss == udp_col_width(udp_row_views(rows@), 4),
{
    let mut w = UdpWidths { stream: 0, packets: 0, bytes: 0, bitrate: 0, loss: 0 };
    let mut i: usize = 0;
    while i < rows.len()
        invariant
            i <= rows@.len(),
            w.stream == udp_col_width(udp_row_views(rows@.take(i as int)), 0),
            w.packets == udp_col_width(udp_row_views(rows@.take(i as int)), 1),
            w.bytes == udp_col_width(udp_row_views(rows@.take(i as int)), 2),
            w.bitrate == udp_col_width(udp_row_views(rows@.take(i as int)), 3),
            w.loss == udp_col_width(udp_row_views(rows@.take(i as int)), 4),
        decreases rows@.len() - i,
    {
        proof {
            assert(udp_row_views(rows@.take(i + 1)).drop_last() =~= udp_row_views(rows@.take(i as int)));
        }
        let r = &rows[i];
        w.stream = wider(w.stream, visible_width(r.stream.as_str()));
        w.packets = wider(w.packets, visible_width(r.packets.as_str()));
        let bytes = wider(visible_width(r.bytes.as_str()), detail_visible_width("jit: ", &r.jitter));
        w.bytes = wider(w.bytes, bytes);
        let bitrate = wider(visible_width(r.bitrate.as_str()), detail_visible_width("ooo: ", &r.ooo));
        w.bitrate = wider(w.bitrate, bitrate);
        let lc = chars_of(r.loss.as_str());
        let loss_cell = concat2("loss ", lc.as_slice());
        let loss = wider(visible_width(loss_cell.as_str()), detail_visible_width("dup: ", &r.dup));
        w.loss = wider(w.loss, loss);
        i = i + 1;
    }
    assert(rows@.take(rows@.len() as int) =~= rows@);
    w
}

/// The width of the whole UDP table: the columns and their separators.
pub open spec fn udp_table_width_spec(w: UdpWidths) -> nat {
    (w.stream + 3 + w.packets + 3 + w.bytes + 3 + w.bitrate + 3 + w.loss) as nat
}

/// The width of the whole UDP table.
pub fn udp_table_width(w: UdpWidths) -> (r: usize)
    requires
        udp_table_width_spec(w) <= usize::MAX,
    ensures
        r == udp_table_width_spec(w),
{
    w.stream + 3 + w.packets + 3 + w.bytes + 3 + w.bitrate + 3 + w.loss
}

/// How a UDP row renders: the stream left-aligned, the other cells right-aligned, separated by
/// `│`, the loss labelled, the total row in bold pink.
pub open spec fn udp_row_text(r: UdpRowView, w: UdpWidths) -> Seq<char> {
    let prefix = if r.is_total { BOLD@ + PINK@ } else { MAROON@ };
    let rate_color = if r.is_total { PINK@ } else { BLUE@ };
    prefix + pad_right_spec(r.stream, w.stream as nat) + BLUE@ + " │ "@
        + pad_left_spec(r.packets, w.packets as nat, ' ') + " │ "@
        + pad_left_spec(r.bytes, w.bytes as nat, ' ') + " │ "@ + rate_color + BOLD@
        + pad_left_spec(r.bitrate, w.bitrate as nat, ' ') + NO_BOLD@ + BLUE@ + " │ "@
        + pad_left_spec("loss "@ + r.loss, w.loss as nat, ' ') + RESET@
}

/// Renders one UDP row.
pub fn render_udp_row(row: &UdpRow, w: UdpWidths) -> (r: String)
    ensures
        r@ == udp_row_text(row@, w),
{
    let mut s = String::new();
    if row.is_total {
        s.append(BOLD);
        s.append(PINK);
    } else {
        s.append(MAROON);
    }
    let stream = chars_of(row.stream.as_str());
    push_padded_right(&mut s, stream.as_slice(), w.stream);
    s.append(BLUE);
    s.append(" │ ");
    let packets = chars_of(row.packets.as_str());
    push_padded_left(&mut s, packets.as_slice(), w.packets, ' ');
    s.append(" │ ");
    let bytes = chars_of(row.bytes.as_str());
    push_padded_left(&mut s, bytes.as_slice(), w.bytes, ' ');
    s.append(" │ ");
    if row.is_total {
        s.append(PINK);
    } else {
        s.append(BLUE);
    }
    s.append(BOLD);
    let bitrate = chars_of(row.bitrate.as_str());
    push_padded_left(&mut s, bitrate.as_slice(), w.bitrate, ' ');
    s.append(NO_BOLD);
    s.append(BLUE);
    s.append(" │ ");
    let lc = chars_of(row.loss.as_str());
    let loss_cell = concat2("loss ", lc.as_slice());
    let loss = chars_of(loss_cell.as_str());
    push_padded_left(&mut s, loss.as_slice(), w.loss, ' ');
    s.append(RESET);
    proof {
        let prefix = if row.is_total { BOLD@ + PINK@ } else { MAROON@ };
        assert(Seq::<char>::empty() + prefix =~= prefix);
        assert(s@ =~= udp_row_text(row@, w));
    }
    s
}

/// How a receiver row's detail line renders: jitter, out-of-order and duplicates under the
/// bytes, bit rate and loss columns; rows without all three have none.
pub open spec fn udp_detail_text(r: UdpRowView, w: UdpWidths) -> Option<Seq<char>> {
    match (r.jitter, r.ooo, r.dup) {
        (Some(j), Some(o), Some(d)) => Some(BLUE@ + pad_right_spec(Seq::empty(), w.stream as nat) + " │ "@
            + pad_left_spec(Seq::empty(), w.packets as nat, ' ') + " │ "@
            + pad_left_spec("jit: "@ + j, w.bytes as nat, ' ') + " │ "@
            + pad_left_spec("ooo: "@ + o, w.bitrate as nat, ' ') + " │ "@
            + pad_left_spec("dup: "@ + d, w.loss as nat, ' ') + RESET@),
        _ => None,
    }
}

/// Renders the detail line of a UDP row, if it has one.
pub fn render_udp_detail_row(row: &UdpRow, w: UdpWidths) -> (r: Option<String>)
    ensures
        match r {
            Some(t) => udp_detail_text(row@, w) == Some(t@),
            None => udp_detail_text(row@, w) is None,
        },
{
    match (&row.jitter, &row.ooo, &row.dup) {
        (Some(j), Some(o), Some(d)) => {
            let mut s = String::from_str(BLUE);
            let empty: Vec<char> = Vec::new();
            push_padded_right(&mut s, empty.as_slice(), w.stream);
            s.append(" │ ");
            push_padded_left(&mut s, empty.as_slice(), w.packets, ' ');
            s.append(" │ ");
            let jc = chars_of(j.as_str());
            let jit = concat2("jit: ", jc.as_slice());
            let jit_c = chars_of(jit.as_str());
            push_padded_left(&mut s, jit_c.as_slice(), w.bytes, ' ');
            s.append(" │ ");
            let oc = chars_of(o.as_str());
            let ooo = concat2("ooo: ", oc.as_slice());
            let ooo_c = chars_of(ooo.as_str());
            push_padded_left(&mut s, ooo_c.as_slice(), w.bitrate, ' ');
            s.append(" │ ");
            let dc = chars_of(d.as_str());
            let dup = concat2("dup: ", dc.as_slice());
            let dup_c = chars_of(dup.as_str());
            push_padded_left(&mut s, dup_c.as_slice(), w.loss, ' ');
            s.append(RESET);
            proof {
                assert(empty@ =~= Seq::<char>::empty());
                assert(udp_detail_text(row@, w) == Some(s@));
            }
            Some(s)
        },
        _ => None,
    }
}

/// The width a UDP table of these rows takes, in columns.
pub open spec fn udp_rows_width(rows: Seq<UdpRowView>) -> nat {
    udp_col_width(rows, 0) + 3 + udp_col_width(rows, 1) + 3 + udp_col_width(rows, 2) + 3
        + udp_col_width(rows, 3) + 3 + udp_col_width(rows, 4)
}

/// The lines for the UDP rows: each row, with a rule above a total row that follows others, and
/// its detail line when it has one.
pub open spec fn udp_body(rows: Seq<UdpRowView>, w: UdpWidths, width: nat) -> Seq<Seq<char>>
    decreases rows.len(),
{
    if rows.len() == 0 {
        Seq::empty()
    } else {
        let r = rows.last();
        let rule: Seq<Seq<char>> = if r.is_total && rows.len() > 1 { seq![rule_text(width)] } else { Seq::empty() };
        let detail: Seq<Seq<char>> = match udp_detail_text(r, w) {
            Some(d) => seq![INDENT@ + d],
            None => Seq::empty(),
        };
        udp_body(rows.drop_last(), w, width) + rule + seq![INDENT@ + udp_row_text(r, w)] + detail
    }
}

/// The lines of the UDP report: a blank line, the header, the rows, a blank line.
pub open spec fn udp_report(role: Seq<char>, rows: Seq<UdpRowView>) -> Seq<Seq<char>> {
    let w = udp_widths_of(rows);
    let width = udp_rows_width(rows);
    seq![Seq::empty(), header_text(role, width)] + udp_body(rows, w, width) + seq![Seq::<char>::empty()]
}

/// The lines of the UDP results table for these rows (printing them is the caller's).
pub fn udp_report_lines(role: &str, rows: &[UdpRow]) -> (r: Vec<String>)
    requires
        udp_rows_width(udp_row_views(rows@)) <= usize::MAX,
    ensures
        views(r@) == udp_report(role@, udp_row_views(rows@)),
{
    let w = compute_udp_widths(rows);
    let width = udp_table_width(w);
    let mut lines: Vec<String> = Vec::new();
    lines.push(String::new());
    lines.push(responsive_header(role, width));
    let ghost head = seq![Seq::<char>::empty(), header_text(role@, width as nat)];
    assert(views(lines@) =~= head);
    let mut i: usize = 0;
    while i < rows.len()
        invariant
            i <= rows@.len(),
            w == udp_widths_of(udp_row_views(rows@)),
            width == udp_rows_width(udp_row_views(rows@)),
            head == seq![Seq::<char>::empty(), header_text(role@, width as nat)],
            views(lines@) == head + udp_body(udp_row_views(rows@.take(i as int)), w, width as nat),
        decreases rows@.len() - i,
    {
        proof {
            assert(udp_row_views(rows@.take(i + 1)).drop_last() =~= udp_row_views(rows@.take(i as int)));
        }
        let ghost before = lines@;
        if rows[i].is_total && i > 0 {
            lines.push(rule_line(width));
        }
        let ghost mid = lines@;
        lines.push(indented(render_udp_row(&rows[i], w)));
        let ghost after_row = lines@;
        match render_udp_detail_row(&rows[i], w) {
            Some(d) => {
                lines.push(indented(d));
            },
            None => {},
        }
        proof {
            let r = rows@[i as int]@;
            let rule: Seq<Seq<char>> = if r.is_total && i + 1 > 1 { seq![rule_text(width as nat)] } else { Seq::empty() };
            let detail: Seq<Seq<char>> = match udp_detail_text(r, w) {
                Some(d) => seq![INDENT@ + d],
                None => Seq::empty(),
            };
            assert(views(mid) =~= views(before) + rule);
            assert(views(after_row) =~= views(mid) + seq![INDENT@ + udp_row_text(r, w)]);
            assert(views(lines@) =~= views(after_row) + detail);
            assert(views(lines@) =~= head + udp_body(udp_row_views(rows@.take(i + 1)), w, width as nat));
        }
        i = i + 1;
    }
    let ghost before = lines@;
    lines.push(String::new());
    proof {
        assert(rows@.take(rows@.len() as int) =~= rows@);
        assert(views(lines@) =~= views(before) + seq![Seq::<char>::empty()]);
    }
    lines
}

/// A text that leaves the terminal outside escape sequences.
pub open spec fn settled(s: Seq<char>) -> bool {
    !escape_after(s, 0, false)
}

/// A complete ANSI escape sequence: ESC, then anything but `m`, then `m`.
pub open spec fn escape_sequence(s: Seq<char>) -> bool {
    &&& s.len() >= 2
    &&& s[0] == '\x1b'
    &&& s.last() == 'm'
    &&& forall|j: int| 1 <= j < s.len() - 1 ==> s[j] != 'm'
}

/// An escape sequence shows nothing and leaves the terminal settled.
pub proof fn lemma_escape_sequence(s: Seq<char>)
    requires
        escape_sequence(s),
    ensures
        visible_width_spec(s) == 0,
        settled(s),
{
    lemma_escape_invisible(s, 1);
}

/// A plain text shows all its characters and leaves the terminal settled.
pub proof fn lemma_plain(s: Seq<char>)
    requires
        plain(s),
    ensures
        visible_width_spec(s) == s.len(),
        settled(s),
{
    lemma_plain_visible(s, 0);
}

/// Joining two settled texts adds their visible widths.
pub proof fn lemma_join(a: Seq<char>, b: Seq<char>)
    requires
        settled(a),
        settled(b),
    ensures
        visible_width_spec(a + b) == visible_width_spec(a) + visible_width_spec(b),
        settled(a + b),
{
    lemma_visible_concat(a, b, 0, false);
}

/// The report colors are escape sequences.
pub proof fn lemma_colors()
    ensures
        escape_sequence(BLUE@),
        escape_sequence(MAROON@),
        escape_sequence(PINK@),
        escape_sequence(BOLD@),
        escape_sequence(NO_BOLD@),
        escape_sequence(RESET@),
{
    reveal_strlit("\x1b[38;2;137;180;250m");
    reveal_strlit("\x1b[38;2;235;160;172m");
    reveal_strlit("\x1b[38;2;245;194;231m");
    reveal_strlit("\x1b[1m");
    reveal_strlit("\x1b[22m");
    reveal_strlit("\x1b[0m");
}

/// Padding a plain text with spaces keeps it plain and makes it as long as the width at least.
pub proof fn lemma_pad_plain(s: Seq<char>, w: nat)
    requires
        plain(s),
    ensures
        plain(pad_left_spec(s, w, ' ')),
        plain(pad_right_spec(s, w)),
        pad_left_spec(s, w, ' ').len() == if s.len() >= w { s.len() } else { w },
        pad_right_spec(s, w).len() == if s.len() >= w { s.len() } else { w },
{
    if s.len() < w {
        let r = repeat_spec(' ', (w - s.len()) as nat);
        assert(plain(r + s)) by {
            assert forall|i: int| 0 <= i < (r + s).len() implies (r + s)[i] != '\x1b' by {
                if i >= r.len() {
                    assert((r + s)[i] == s[i - r.len()]);
                }
            }
        }
        assert(plain(s + r)) by {
            assert forall|i: int| 0 <= i < (s + r).len() implies (s + r)[i] != '\x1b' by {
                if i < s.len() {
                    assert((s + r)[i] == s[i]);
                }
            }
        }
    }
}

/// A column of the TCP table is as wide as any of its cells.
pub proof fn lemma_tcp_col_width_ge(rows: Seq<TcpRowView>, col: int, k: int)
    requires
        0 <= k < rows.len(),
    ensures
        tcp_col_width(rows, col) >= visible_width_spec(tcp_cell(rows[k], col)),
    decreases rows.len(),
{
    if k < rows.len() - 1 {
        lemma_tcp_col_width_ge(rows.drop_last(), col, k);
        assert(rows.drop_last()[k] == rows[k]);
    }
}

/// A plain cell padded to its column's width is exactly that wide.
proof fn lemma_padded_cell(cell: Seq<char>, w: nat)
    requires
        plain(cell),
        visible_width_spec(cell) <= w,
    ensures
        visible_width_spec(pad_left_spec(cell, w, ' ')) == w,
        visible_width_spec(pad_right_spec(cell, w)) == w,
        settled(pad_left_spec(cell, w, ' ')),
        settled(pad_right_spec(cell, w)),
{
    lemma_plain(cell);
    lemma_pad_plain(cell, w);
    lemma_plain(pad_left_spec(cell, w, ' '));
    lemma_plain(pad_right_spec(cell, w));
}

/// The TCP table's columns line up: when no cell holds an escape character, every row shows as
/// many characters as the table is wide (the header line's width).
pub proof fn lemma_tcp_row_aligned(rows: Seq<TcpRowView>, k: int)
    requires
        0 <= k < rows.len(),
        forall|i: int, col: int| 0 <= i < rows.len() && 0 <= col < 4 ==> plain(#[trigger] tcp_cell(rows[i], col)),
        tcp_rows_width(rows) <= usize::MAX,
    ensures
        visible_width_spec(tcp_row_text(rows[k], tcp_widths_of(rows))) == tcp_rows_width(rows),
{
    let r = rows[k];
    let w = tcp_widths_of(rows);
    lemma_colors();
    lemma_escape_sequence(BLUE@);
    lemma_escape_sequence(MAROON@);
    lemma_escape_sequence(PINK@);
    lemma_escape_sequence(BOLD@);
    lemma_escape_sequence(NO_BOLD@);
    lemma_escape_sequence(RESET@);
    reveal_strlit(" │ ");
    assert(plain(" │ "@));
    lemma_plain(" │ "@);
    lemma_join(BOLD@, PINK@);
    let prefix = if r.is_total { BOLD@ + PINK@ } else { MAROON@ };
    let rate_color = if r.is_total { PINK@ } else { BLUE@ };
    assert(visible_width_spec(prefix) == 0 && settled(prefix));
    assert(visible_width_spec(rate_color) == 0 && settled(rate_color));
    assert(plain(tcp_cell(r, 0)));
    assert(plain(tcp_cell(r, 1)));
    assert(plain(tcp_cell(r, 2)));
    assert(plain(tcp_cell(r, 3)));
    lemma_tcp_col_width_ge(rows, 0, k);
    lemma_tcp_col_width_ge(rows, 1, k);
    lemma_tcp_col_width_ge(rows, 2, k);
    lemma_tcp_col_width_ge(rows, 3, k);
    let a = pad_right_spec(r.stream, w.stream as nat);
    let b = pad_left_spec(r.direction, w.direction as nat, ' ');
    let c = pad_left_spec(r.bytes, w.bytes as nat, ' ');
    let d = pad_left_spec(r.bitrate, w.bitrate as nat, ' ');
    lemma_padded_cell(r.stream, w.stream as nat);
    lemma_padded_cell(r.direction, w.direction as nat);
    lemma_padded_cell(r.bytes, w.bytes as nat);
    lemma_padded_cell(r.bitrate, w.bitrate as nat);
    let t1 = prefix + a;
    lemma_join(prefix, a);
    let t2 = t1 + BLUE@;
    lemma_join(t1, BLUE@);
    let t3 = t2 + " │ "@;
    lemma_join(t2, " │ "@);
    let t4 = t3 + b;
    lemma_join(t3, b);
    let t5 = t4 + " │ "@;
    lemma_join(t4, " │ "@);
    let t6 = t5 + c;
    lemma_join(t5, c);
    let t7 = t6 + " │ "@;
    lemma_join(t6, " │ "@);
    let t8 = t7 + rate_color;
    lemma_join(t7, rate_color);
    let t9 = t8 + BOLD@;
    lemma_join(t8, BOLD@);
    let t10 = t9 + d;
    lemma_join(t9, d);
    let t11 = t10 + NO_BOLD@;
    lemma_join(t10, NO_BOLD@);
    let t12 = t11 + BLUE@;
    lemma_join(t11, BLUE@);
    let t13 = t12 + RESET@;
    lemma_join(t12, RESET@);
    assert(t13 == tcp_row_text(r, w));
}

/// The header line is as wide as the table, when the role is plain and fits.
pub proof fn lemma_header_width(role: Seq<char>, width: nat)
    requires
        plain(role),
        role.len() + 2 <= width,
    ensures
        visible_width_spec(header_line(role, width)) == width,
{
    let title = seq![' '] + role + seq![' '];
    let inner: nat = (width - title.len()) as nat;
    let left = inner / 2;
    let l = repeat_spec('═', left);
    let r = repeat_spec('═', (inner - left) as nat);
    assert(plain(title)) by {
        assert forall|i: int| 0 <= i < title.len() implies title[i] != '\x1b' by {
            if 1 <= i < title.len() - 1 {
                assert(title[i] == role[i - 1]);
            }
        }
    }
    assert(plain(l));
    assert(plain(r));
    lemma_plain(l);
    lemma_plain(r);
    lemma_plain(title);
    lemma_join(l, title);
    lemma_join(l + title, r);
}

/// The rule above the total row is as wide as the table.
pub proof fn lemma_rule_width(width: nat)
    ensures
        visible_width_spec(repeat_spec('─', width)) == width,
{
    assert(plain(repeat_spec('─', width)));
    lemma_plain(repeat_spec('─', width));
}

/// A UDP row whose texts hold no escape character.
pub open spec fn udp_row_plain(r: UdpRowView) -> bool {
    &&& plain(r.stream)
    &&& plain(r.packets)
    &&& plain(r.bytes)
    &&& plain(r.bitrate)
    &&& plain(r.loss)
    &&& (r.jitter matches Some(j) ==> plain(j))
    &&& (r.ooo matches Some(o) ==> plain(o))
    &&& (r.dup matches Some(d) ==> plain(d))
}

/// A column of the UDP table is as wide as any of its rows needs.
pub proof fn lemma_udp_col_width_ge(rows: Seq<UdpRowView>, col: int, k: int)
    requires
        0 <= k < rows.len(),
    ensures
        udp_col_width(rows, col) >= udp_cell_width(rows[k], col),
    decreases rows.len(),
{
    if k < rows.len() - 1 {
        lemma_udp_col_width_ge(rows.drop_last(), col, k);
        assert(rows.drop_last()[k] == rows[k]);
    }
}

/// A label joined to a plain text is plain.
proof fn lemma_labelled_plain(label: Seq<char>, t: Seq<char>)
    requires
        plain(label),
        plain(t),
    ensures
        plain(label + t),
{
    assert forall|i: int| 0 <= i < (label + t).len() implies (label + t)[i] != '\x1b' by {
        if i < label.len() {
            assert((label + t)[i] == label[i]);
        } else {
            assert((label + t)[i] == t[i - label.len()]);
        }
    }
}

/// The UDP table's columns line up: when no text holds an escape character, every row and
/// every detail line shows as many characters as the table is wide.
pub proof fn lemma_udp_row_aligned(rows: Seq<UdpRowView>, k: int)
    requires
        0 <= k < rows.len(),
        forall|i: int| 0 <= i < rows.len() ==> udp_row_plain(#[trigger] rows[i]),
        udp_rows_width(rows) <= usize::MAX,
    ensures
        visible_width_spec(udp_row_text(rows[k], udp_widths_of(rows))) == udp_rows_width(rows),
        udp_detail_text(rows[k], udp_widths_of(rows)) matches Some(t) ==> visible_width_spec(t) == udp_rows_width(rows),
{
    let r = rows[k];
    let w = udp_widths_of(rows);
    assert(udp_row_plain(r));
    lemma_colors();
    lemma_escape_sequence(BLUE@);
    lemma_escape_sequence(MAROON@);
    lemma_escape_sequence(PINK@);
    lemma_escape_sequence(BOLD@);
    lemma_escape_sequence(NO_BOLD@);
    lemma_escape_sequence(RESET@);
    reveal_strlit(" │ ");
    reveal_strlit("loss ");
    reveal_strlit("jit: ");
    reveal_strlit("ooo: ");
    reveal_strlit("dup: ");
    assert(plain(" │ "@));
    assert(plain("loss "@));
    assert(plain("jit: "@));
    assert(plain("ooo: "@));
    assert(plain("dup: "@));
    lemma_plain(" │ "@);
    lemma_join(BOLD@, PINK@);
    let prefix = if r.is_total { BOLD@ + PINK@ } else { MAROON@ };
    let rate_color = if r.is_total { PINK@ } else { BLUE@ };
    lemma_udp_col_width_ge(rows, 0, k);
    lemma_udp_col_width_ge(rows, 1, k);
    lemma_udp_col_width_ge(rows, 2, k);
    lemma_udp_col_width_ge(rows, 3, k);
    lemma_udp_col_width_ge(rows, 4, k);
    lemma_labelled_plain("loss "@, r.loss);
    let a = pad_right_spec(r.stream, w.stream as nat);
    let b = pad_left_spec(r.packets, w.packets as nat, ' ');
    let c = pad_left_spec(r.bytes, w.bytes as nat, ' ');
    let d = pad_left_spec(r.bitrate, w.bitrate as nat, ' ');
    let e = pad_left_spec("loss "@ + r.loss, w.loss as nat, ' ');
    lemma_padded_cell(r.stream, w.stream as nat);
    lemma_padded_cell(r.packets, w.packets as nat);
    lemma_padded_cell(r.bytes, w.bytes as nat);
    lemma_padded_cell(r.bitrate, w.bitrate as nat);
    lemma_padded_cell("loss "@ + r.loss, w.loss as nat);
    let t1 = prefix + a;
    lemma_join(prefix, a);
    let t2 = t1 + BLUE@;
    lemma_join(t1, BLUE@);
    let t3 = t2 + " │ "@;
    lemma_join(t2, " │ "@);
    let t4 = t3 + b;
    lemma_join(t3, b);
    let t5 = t4 + " │ "@;
    lemma_join(t4, " │ "@);
    let t6 = t5 + c;
    lemma_join(t5, c);
    let t7 = t6 + " │ "@;
    lemma_join(t6, " │ "@);
    let t8 = t7 + rate_color;
    lemma_join(t7, rate_color);
    let t9 = t8 + BOLD@;
    lemma_join(t8, BOLD@);
    let t10 = t9 + d;
    lemma_join(t9, d);
    let t11 = t10 + NO_BOLD@;
    lemma_join(t10, NO_BOLD@);
    let t12 = t11 + BLUE@;
    lemma_join(t11, BLUE@);
    let t13 = t12 + " │ "@;
    lemma_join(t12, " │ "@);
    let t14 = t13 + e;
    lemma_join(t13, e);
    let t15 = t14 + RESET@;
    lemma_join(t14, RESET@);
    assert(t15 == udp_row_text(r, w));
    match (r.jitter, r.ooo, r.dup) {
        (Some(j), Some(o), Some(dd)) => {
            let empty = Seq::<char>::empty();
            assert(plain(empty));
            lemma_plain(empty);
            lemma_labelled_plain("jit: "@, j);
            lemma_labelled_plain("ooo: "@, o);
            lemma_labelled_plain("dup: "@, dd);
            lemma_plain("jit: "@ + j);
            lemma_plain("ooo: "@ + o);
            lemma_plain("dup: "@ + dd);
            let p = pad_right_spec(empty, w.stream as nat);
            let q = pad_left_spec(empty, w.packets as nat, ' ');
            let x = pad_left_spec("jit: "@ + j, w.bytes as nat, ' ');
            let y = pad_left_spec("ooo: "@ + o, w.bitrate as nat, ' ');
            let z = pad_left_spec("dup: "@ + dd, w.loss as nat, ' ');
            lemma_padded_cell(empty, w.stream as nat);
            lemma_padded_cell(empty, w.packets as nat);
            lemma_padded_cell("jit: "@ + j, w.bytes as nat);
            lemma_padded_cell("ooo: "@ + o, w.bitrate as nat);
            lemma_padded_cell("dup: "@ + dd, w.loss as nat);
            let u1 = BLUE@ + p;
            lemma_join(BLUE@, p);
            let u2 = u1 + " │ "@;
            lemma_join(u1, " │ "@);
            let u3 = u2 + q;
            lemma_join(u2, q);
            let u4 = u3 + " │ "@;
            lemma_join(u3, " │ "@);
            let u5 = u4 + x;
            lemma_join(u4, x);
            let u6 = u5 + " │ "@;
            lemma_join(u5, " │ "@);
            let u7 = u6 + y;
            lemma_join(u6, y);
            let u8 = u7 + " │ "@;
            lemma_join(u7, " │ "@);
            let u9 = u8 + z;
            lemma_join(u8, z);
            let u10 = u9 + RESET@;
            lemma_join(u9, RESET@);
            assert(udp_detail_text(r, w) == Some(u10));
        },
        _ => {},
    }
}

} // verus!
