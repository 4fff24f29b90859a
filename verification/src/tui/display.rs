//! What the UI shows, apart from drawing it: the styled texts of input fields, toggles, the
//! footer, the menu and the borders.

use vstd::prelude::*;

use crate::text::{chars_of, push_padded_right, push_repeat, repeat_spec, pad_right_spec, string_of};
use crate::tui::footer::FooterItem;
use crate::tui::input::{InputField, InputKind, PanelInputEntry};
use crate::tui::menu::{menu_entry, menu_item, MENU_LEN};

verus! {

/// The tones texts are shown in.
#[derive(Debug, Clone, Copy, PartialEq, Eq, Structural)]
pub enum Tone {
    /// Focused label or text.
    Pink,
    /// Unfocused label or text.
    Maroon,
    /// Placeholder text.
    Placeholder,
    /// The placeholder's first character under the cursor.
    Cursor,
    /// A footer shortcut key that is enabled.
    KeyOn,
    /// A footer label or separator that is enabled.
    LabelOn,
    /// A footer key, label or separator that is disabled.
    Off,
    /// A separator between footer shortcuts that is disabled.
    SeparatorOff,
    /// Plain text.
    Plain,
}

/// A piece of text in a tone.
#[derive(Debug, Clone)]
pub struct Styled {
    pub text: String,
    pub tone: Tone,
}

/// The text of a styled piece, with its tone.
pub open spec fn styled_views(v: Seq<Styled>) -> Seq<(Seq<char>, Tone)> {
    v.map_values(|s: Styled| (s.text@, s.tone))
}

/// The pieces a text field shows: its label and a colon padded to `label_width`, then its text
/// (with a block cursor when focused), or its placeholder when empty (the first character under
/// the cursor when focused).
pub open spec fn field_pieces(f: InputField, label_width: nat) -> Seq<(Seq<char>, Tone)> {
    let tone = if f.focused { Tone::Pink } else { Tone::Maroon };
    let label = (pad_right_spec(f.label@ + ":"@, label_width), tone);
    if f.value@.len() == 0 {
        if f.focused {
            let p = f.placeholder@;
            let first = if p.len() > 0 { seq![p[0]] } else { seq![' '] };
            let rest = if p.len() > 0 { p.drop_first() } else { Seq::empty() };
            seq![label, (first, Tone::Cursor), (rest, Tone::Placeholder)]
        } else {
            seq![label, (f.placeholder@, Tone::Placeholder)]
        }
    } else {
        seq![label, (if f.focused { f.value@.push('█') } else { f.value@ }, tone)]
    }
}

impl InputField {
    /// The pieces the field shows, per `field_pieces`.
    pub fn pieces(&self, label_width: usize) -> (r: Vec<Styled>)
        ensures
            styled_views(r@) == field_pieces(*self, label_width as nat),
    {
        let tone = if self.focused { Tone::Pink } else { Tone::Maroon };
        let mut label_text = String::from_str(self.label);
        label_text.append(":");
        let lc = chars_of(label_text.as_str());
        let mut padded = String::new();
        push_padded_right(&mut padded, lc.as_slice(), label_width);
        let mut v: Vec<Styled> = Vec::new();
        v.push(Styled { text: padded, tone });
        let value = chars_of(self.value.as_str());
        if value.len() == 0 {
            if self.focused {
                let p = chars_of(self.placeholder);
                let (first, rest) = if p.len() > 0 {
                    let mut f = String::new();
                    crate::text::push_char(&mut f, p[0]);
                    let tail = &p.as_slice()[1..p.len()];
                    assert(tail@ =~= p@.drop_first());
                    let r = string_of(tail);
                    (f, r)
                } else {
                    let mut f = String::new();
                    crate::text::push_char(&mut f, ' ');
                    (f, String::new())
                };
                v.push(Styled { text: first, tone: Tone::Cursor });
                v.push(Styled { text: rest, tone: Tone::Placeholder });
            } else {
                v.push(Styled { text: String::from_str(self.placeholder), tone: Tone::Placeholder });
            }
        } else {
            let mut t = self.value.clone();
            if self.focused {
                crate::text::push_char(&mut t, '█');
            }
            v.push(Styled { text: t, tone });
        }
        proof {
            assert(styled_views(v@) =~= field_pieces(*self, label_width as nat));
        }
        v
    }
}

/// The pieces an entry shows: a text field's, a toggle's bullet (filled when on) and label, or
/// nothing for a separator.
pub open spec fn entry_pieces(e: PanelInputEntry, label_width: nat) -> Seq<(Seq<char>, Tone)> {
    match e.kind {
        InputKind::Text(f) => field_pieces(f, label_width),
        InputKind::Toggle { label, value, focused } => seq![(
            (if value { "●"@ } else { "○"@ }) + " "@ + label@,
            if focused { Tone::Pink } else { Tone::Maroon },
        )],
        InputKind::Separator => Seq::empty(),
    }
}

impl PanelInputEntry {
    /// The pieces the entry shows, per `entry_pieces`.
    pub fn pieces(&self, label_width: usize) -> (r: Vec<Styled>)
        ensures
            styled_views(r@) == entry_pieces(*self, label_width as nat),
    {
        match &self.kind {
            InputKind::Text(f) => f.pieces(label_width),
            InputKind::Toggle { label, value, focused } => {
                let mut t = if *value { String::from_str("●") } else { String::from_str("○") };
                t.append(" ");
                t.append(label);
                let mut v: Vec<Styled> = Vec::new();
                v.push(Styled { text: t, tone: if *focused { Tone::Pink } else { Tone::Maroon } });
                proof {
                    assert(styled_views(v@) =~= entry_pieces(*self, label_width as nat));
                }
                v
            },
            InputKind::Separator => {
                let v: Vec<Styled> = Vec::new();
                assert(styled_views(v@) =~= Seq::empty());
                v
            },
        }
    }
}

/// The pieces of the footer: a leading space, then each shortcut's key and label (after a `•`
/// separator from the second on), in the enabled or disabled tones, then `width` spaces of
/// background.
pub open spec fn footer_pieces_from(items: Seq<FooterItem>, n: int) -> Seq<(Seq<char>, Tone)>
    decreases n,
{
    if n <= 0 {
        seq![(" "@, Tone::Plain)]
    } else {
        let item = items[n - 1];
        let sep: Seq<(Seq<char>, Tone)> = if n > 1 {
            seq![(" • "@, if item.enabled { Tone::LabelOn } else { Tone::SeparatorOff })]
        } else {
            Seq::empty()
        };
        footer_pieces_from(items, n - 1) + sep + seq![
            (item.key@, if item.enabled { Tone::KeyOn } else { Tone::Off }),
            (" "@ + item.label@, if item.enabled { Tone::LabelOn } else { Tone::Off }),
        ]
    }
}

/// The pieces of a footer `width` columns wide.
pub open spec fn footer_pieces(items: Seq<FooterItem>, width: nat) -> Seq<(Seq<char>, Tone)> {
    footer_pieces_from(items, items.len() as int).push((repeat_spec(' ', width), Tone::Plain))
}

/// The pieces of the footer bar, per `footer_pieces`.
pub fn footer_bar(items: &[FooterItem], width: usize) -> (r: Vec<Styled>)
    ensures
        styled_views(r@) == footer_pieces(items@, width as nat),
{
    let mut v: Vec<Styled> = Vec::new();
    v.push(Styled { text: String::from_str(" "), tone: Tone::Plain });
    assert(styled_views(v@) =~= footer_pieces_from(items@, 0));
    let mut i: usize = 0;
    while i < items.len()
        invariant
            i <= items@.len(),
            styled_views(v@) == footer_pieces_from(items@, i as int),
        decreases items@.len() - i,
    {
        let ghost before = v@;
        let item = items[i];
        if i > 0 {
            v.push(Styled { text: String::from_str(" • "), tone: if item.enabled { Tone::LabelOn } else { Tone::SeparatorOff } });
        }
        v.push(Styled { text: String::from_str(item.key), tone: if item.enabled { Tone::KeyOn } else { Tone::Off } });
        let mut label = String::from_str(" ");
        label.append(item.label);
        v.push(Styled { text: label, tone: if item.enabled { Tone::LabelOn } else { Tone::Off } });
        proof {
            let sep: Seq<(Seq<char>, Tone)> = if i + 1 > 1 {
                seq![(" • "@, if item.enabled { Tone::LabelOn } else { Tone::SeparatorOff })]
            } else {
                Seq::empty()
            };
            assert(styled_views(v@) =~= styled_views(before) + sep + seq![
                (item.key@, if item.enabled { Tone::KeyOn } else { Tone::Off }),
                (" "@ + item.label@, if item.enabled { Tone::LabelOn } else { Tone::Off }),
            ]);
        }
        i = i + 1;
    }
    let ghost before = v@;
    let mut fill = String::new();
    push_repeat(&mut fill, ' ', width);
    v.push(Styled { text: fill, tone: Tone::Plain });
    assert(styled_views(v@) =~= styled_views(before).push((repeat_spec(' ', width as nat), Tone::Plain)));
    v
}

/// A box border line `width` columns wide: the corners with `─` between them.
pub open spec fn border_text(left: char, right: char, width: nat) -> Seq<char> {
    seq![left] + repeat_spec('─', if width >= 2 { (width - 2) as nat } else { 0 }) + seq![right]
}

/// A box border line `width` columns wide.
pub fn border_line(left: char, right: char, width: u16) -> (r: String)
    ensures
        r@ == border_text(left, right, width as nat),
{
    let mut s = String::new();
    crate::text::push_char(&mut s, left);
    let n: usize = if width >= 2 { (width - 2) as usize } else { 0 };
    push_repeat(&mut s, '─', n);
    crate::text::push_char(&mut s, right);
    assert(s@ =~= border_text(left, right, width as nat));
    s
}

/// The sidebar's top border after its `╭─ menu` title: a space, `─` to 9 columns short of the
/// width, and the corner.
pub open spec fn menu_border_tail(width: nat) -> Seq<char> {
    " "@ + repeat_spec('─', if width >= 9 { (width - 9) as nat } else { 0 }) + "╮"@
}

/// The sidebar's top border after its title.
pub fn menu_border(width: u16) -> (r: String)
    ensures
        r@ == menu_border_tail(width as nat),
{
    let mut s = String::from_str(" ");
    let n: usize = if width >= 9 { (width - 9) as usize } else { 0 };
    push_repeat(&mut s, '─', n);
    s.append("╮");
    s
}

/// A menu line: ` > ` before the selected entry, three spaces before the others.
pub open spec fn menu_line_text(i: int, selected: usize) -> Seq<char> {
    (if i == selected { " > "@ } else { "   "@ }) + menu_entry(i)@
}

/// The menu lines, each with whether it is the selected one.
pub fn menu_lines(selected: usize) -> (r: Vec<(String, bool)>)
    ensures
        r@.len() == MENU_LEN,
        forall|i: int| 0 <= i < MENU_LEN ==> (#[trigger] r@[i]).0@ == menu_line_text(i, selected)
            && r@[i].1 == (i == selected),
{
    let mut v: Vec<(String, bool)> = Vec::new();
    let mut i: usize = 0;
    while i < MENU_LEN
        invariant
            i <= MENU_LEN,
            v@.len() == i,
            forall|j: int| 0 <= j < i ==> (#[trigger] v@[j]).0@ == menu_line_text(j, selected) && v@[j].1 == (j == selected),
        decreases MENU_LEN - i,
    {
        let mut s = if i == selected { String::from_str(" > ") } else { String::from_str("   ") };
        s.append(menu_item(i));
        v.push((s, i == selected));
        i = i + 1;
    }
    v
}

/// The partial block for `n` eighths of a cell (none for zero).
pub open spec fn partial_block(n: int) -> Seq<char> {
    if n == 1 {
        "▏"@
    } else if n == 2 {
        "▎"@
    } else if n == 3 {
        "▍"@
    } else if n == 4 {
        "▌"@
    } else if n == 5 {
        "▋"@
    } else if n == 6 {
        "▊"@
    } else if n == 7 {
        "▉"@
    } else {
        Seq::empty()
    }
}

/// A progress bar of `eighths` eighths of a cell, `width` cells wide: full blocks, then the
/// partial block, then spaces up to the width.
pub open spec fn bar_text(eighths: nat, width: nat) -> Seq<char> {
    let full = eighths / 8;
    let partial = eighths % 8;
    let used = full + if partial > 0 { 1nat } else { 0nat };
    repeat_spec('█', full) + partial_block(partial as int) + (if used < width {
        repeat_spec(' ', (width - used) as nat)
    } else {
        Seq::empty()
    })
}

/// Builds a progress bar filled to `eighths` eighths of a cell, `width` cells wide.
pub fn build_bar(eighths: usize, width: usize) -> (r: String)
    ensures
        r@ == bar_text(eighths as nat, width as nat),
{
    let full = eighths / 8;
    let partial = eighths % 8;
    let mut bar = String::new();
    push_repeat(&mut bar, '█', full);
    if partial == 1 {
        bar.append("▏");
    } else if partial == 2 {
        bar.append("▎");
    } else if partial == 3 {
        bar.append("▍");
    } else if partial == 4 {
        bar.append("▌");
    } else if partial == 5 {
        bar.append("▋");
    } else if partial == 6 {
        bar.append("▊");
    } else if partial == 7 {
        bar.append("▉");
    }
    let used = full + if partial > 0 { 1usize } else { 0usize };
    if used < width {
        push_repeat(&mut bar, ' ', width - used);
    }
    proof {
        assert(bar@ =~= bar_text(eighths as nat, width as nat));
    }
    bar
}

/// The percentage after a progress bar: a space, the number right-aligned on three columns, `%`.
pub open spec fn percent_text(p: u8) -> Seq<char> {
    " "@ + crate::text::pad_left_spec(crate::text::decimal_spec(p as nat), 3, ' ') + "%"@
}

/// Renders the percentage after a progress bar.
pub fn percent_label(p: u8) -> (r: String)
    ensures
        r@ == percent_text(p),
{
    let mut s = String::from_str(" ");
    let d = crate::text::decimal_chars(p as u64);
    crate::text::push_padded_left(&mut s, d.as_slice(), 3, ' ');
    s.append("%");
    s
}

/// The footer shortcuts: menu navigation (disabled while the active panel is busy), quit, then
/// the active panel's own.
pub open spec fn footer_with_nav(busy: bool, panel: Seq<FooterItem>) -> Seq<FooterItem> {
    seq![FooterItem { key: "↑↓", label: "menu", enabled: !busy }, FooterItem { key: "q", label: "quit", enabled: true }]
        + panel
}

/// Builds the footer shortcuts from the active panel's own.
pub fn footer_items(busy: bool, panel: Vec<FooterItem>) -> (r: Vec<FooterItem>)
    ensures
        r@ == footer_with_nav(busy, panel@),
{
    let mut v: Vec<FooterItem> = Vec::new();
    v.push(FooterItem { key: "↑↓", label: "menu", enabled: !busy });
    v.push(FooterItem::new("q", "quit"));
    let mut i: usize = 0;
    while i < panel.len()
        invariant
            i <= panel@.len(),
            v@ == footer_with_nav(busy, panel@.take(i as int)),
        decreases panel@.len() - i,
    {
        v.push(panel[i]);
        i = i + 1;
        assert(v@ =~= footer_with_nav(busy, panel@.take(i as int)));
    }
    assert(panel@.take(panel@.len() as int) =~= panel@);
    v
}

/// How a results log line shows: blank, a stream data row (starts with two spaces), or a
/// section label.
#[derive(Debug, Clone, Copy, PartialEq, Eq, Structural)]
pub enum LogLineKind {
    Blank,
    Data,
    Label,
}

/// The kind of a results log line.
pub open spec fn log_line_kind(line: Seq<char>) -> LogLineKind {
    if line.len() == 0 {
        LogLineKind::Blank
    } else if line.len() >= 2 && line[0] == ' ' && line[1] == ' ' {
        LogLineKind::Data
    } else {
        LogLineKind::Label
    }
}

/// The results log lines that fit under the two header lines of an area `height` rows high:
/// the last ones, each with its kind.
pub open spec fn log_window(log: Seq<Seq<char>>, height: nat) -> Seq<(Seq<char>, LogLineKind)> {
    let room: nat = if height >= 2 { (height - 2) as nat } else { 0 };
    let skip: int = if log.len() > room { log.len() - room } else { 0 };
    log.skip(skip).map_values(|l: Seq<char>| (l, log_line_kind(l)))
}

/// The kind of a results log line.
pub fn classify_log_line(line: &str) -> (r: LogLineKind)
    ensures
        r == log_line_kind(line@),
{
    let cs = chars_of(line);
    if cs.len() == 0 {
        LogLineKind::Blank
    } else if cs.len() >= 2 && cs[0] == ' ' && cs[1] == ' ' {
        LogLineKind::Data
    } else {
        LogLineKind::Label
    }
}

/// The results log lines shown in an area `height` rows high, per `log_window`.
pub fn visible_log(log: &[String], height: u16) -> (r: Vec<(String, LogLineKind)>)
    ensures
        r@.map_values(|p: (String, LogLineKind)| (p.0@, p.1)) == log_window(log@.map_values(|l: String| l@), height as nat),
{
    let room: usize = if height >= 2 { (height - 2) as usize } else { 0 };
    let skip: usize = if log.len() > room { log.len() - room } else { 0 };
    let ghost ls = log@.map_values(|l: String| l@);
    let ghost expected = log_window(ls, height as nat);
    let mut v: Vec<(String, LogLineKind)> = Vec::new();
    let mut i: usize = skip;
    while i < log.len()
        invariant
            skip <= i <= log@.len(),
            ls == log@.map_values(|l: String| l@),
            expected == log_window(ls, height as nat),
            expected.len() == log@.len() - skip,
            v@.len() == i - skip,
            forall|j: int| 0 <= j < v@.len() ==> ((#[trigger] v@[j]).0@, v@[j].1) == expected[j],
        decreases log@.len() - i,
    {
        assert(ls[i as int] == log@[i as int]@);
        let kind = classify_log_line(log[i].as_str());
        v.push((log[i].clone(), kind));
        i = i + 1;
    }
    assert(v@.map_values(|p: (String, LogLineKind)| (p.0@, p.1)) =~= expected);
    v
}

} // verus!
