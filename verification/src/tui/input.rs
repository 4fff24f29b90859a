//! Ordered, visibility-aware list of panel input fields.

use vstd::prelude::*;

use crate::text::{chars_of, push_char, str_eq, string_of};
use crate::tui::key::Key;

verus! {

/// A single-line text input field.
pub struct InputField {
    pub label: &'static str,
    pub value: String,
    pub placeholder: &'static str,
    pub focused: bool,
}

/// What a key does to the text of a field: a character is appended, Backspace removes the last
/// character (if any), any other key leaves the text alone.
pub open spec fn text_after_key(v: Seq<char>, key: Key) -> Seq<char> {
    match key {
        Key::Char(c) => v.push(c),
        Key::Backspace => if v.len() > 0 {
            v.drop_last()
        } else {
            v
        },
        _ => v,
    }
}

impl InputField {
    /// A field with the given label, initial text and placeholder, not focused.
    pub fn new(label: &'static str, default: &str, placeholder: &'static str) -> (r: Self)
        ensures
            r.label == label,
            r.value@ == default@,
            r.placeholder == placeholder,
            !r.focused,
    {
        let cs = chars_of(default);
        InputField { label, value: string_of(cs.as_slice()), placeholder, focused: false }
    }

    /// Edits the text: a character is appended, Backspace removes the last one.
    pub fn on_key(&mut self, key: Key)
        ensures
            final(self).value@ == text_after_key(old(self).value@, key),
            final(self).label == old(self).label,
            final(self).placeholder == old(self).placeholder,
            final(self).focused == old(self).focused,
    {
        match key {
            Key::Char(c) => {
                push_char(&mut self.value, c);
            },
            Key::Backspace => {
                let cs = chars_of(self.value.as_str());
                if cs.len() > 0 {
                    let kept = &cs.as_slice()[0..cs.len() - 1];
                    assert(kept@ =~= cs@.drop_last());
                    self.value = string_of(kept);
                }
            },
            _ => {},
        }
    }
}

/// The kinds of panel input.
pub enum InputKind {
    Text(InputField),
    Toggle { label: &'static str, value: bool, focused: bool },
    Separator,
}

/// A panel entry: an input under a key, shown in the UI or not.
pub struct PanelInputEntry {
    pub key: &'static str,
    pub kind: InputKind,
    pub tui_visible: bool,
}

impl PanelInputEntry {
    /// Whether the entry can take focus: it is shown and is not a separator.
    pub open spec fn focusable(self) -> bool {
        self.tui_visible && !(self.kind is Separator)
    }

    /// Whether the entry shows focus.
    pub open spec fn has_focus(self) -> bool {
        match self.kind {
            InputKind::Text(f) => f.focused,
            InputKind::Toggle { focused, .. } => focused,
            InputKind::Separator => false,
        }
    }

    /// Whether the entry can take focus.
    pub fn is_focusable(&self) -> (r: bool)
        ensures
            r == self.focusable(),
    {
        self.tui_visible && !matches!(self.kind, InputKind::Separator)
    }

    /// Gives the entry focus, or takes it away.
    pub fn set_focus(&mut self, flag: bool)
        ensures
            focus_set(*old(self), *final(self), flag),
    {
        match &mut self.kind {
            InputKind::Text(f) => {
                f.focused = flag;
            },
            InputKind::Toggle { focused, .. } => {
                *focused = flag;
            },
            InputKind::Separator => {},
        }
    }

    /// Switches a toggle off; other entries are left alone.
    pub fn switch_off(&mut self)
        ensures
            final(self).key == old(self).key,
            final(self).tui_visible == old(self).tui_visible,
            final(self).kind == switched_off(old(self).kind),
    {
        match &mut self.kind {
            InputKind::Toggle { value, .. } => {
                *value = false;
            },
            _ => {},
        }
    }

    /// Handles a key: a text field edits its text, a toggle flips on the space bar.
    pub fn on_key(&mut self, key: Key)
        ensures
            key_applied(*old(self), *final(self), key),
    {
        match &mut self.kind {
            InputKind::Text(field) => {
                field.on_key(key);
            },
            InputKind::Toggle { value, .. } => {
                if key == Key::Char(' ') {
                    *value = !*value;
                }
            },
            InputKind::Separator => {},
        }
    }
}

/// A toggle switched off; other kinds unchanged.
pub open spec fn switched_off(k: InputKind) -> InputKind {
    match k {
        InputKind::Toggle { label, focused, .. } => InputKind::Toggle { label, value: false, focused },
        _ => k,
    }
}

/// Entry `new` is `old` after showing (or hiding) the entries under `toggle_key` and `sep_key`;
/// a hidden toggle under `toggle_key` is switched off, other entries are unchanged.
pub open spec fn optional_entry(old: PanelInputEntry, new: PanelInputEntry, toggle_key: Seq<char>, sep_key: Seq<char>, shown: bool) -> bool {
    if old.key@ == toggle_key || old.key@ == sep_key {
        &&& new.key == old.key
        &&& new.tui_visible == shown
        &&& new.kind == (if old.key@ == toggle_key && !shown { switched_off(old.kind) } else { old.kind })
    } else {
        new == old
    }
}

/// `new` is `old` with its focus flag set to `flag` (a separator has none), all else kept.
pub open spec fn focus_set(old: PanelInputEntry, new: PanelInputEntry, flag: bool) -> bool {
    &&& new.key == old.key
    &&& new.tui_visible == old.tui_visible
    &&& match (old.kind, new.kind) {
        (InputKind::Text(a), InputKind::Text(b)) => b.label == a.label && b.value == a.value
            && b.placeholder == a.placeholder && b.focused == flag,
        (InputKind::Toggle { label: l1, value: v1, .. }, InputKind::Toggle { label: l2, value: v2, focused: f2 }) =>
            l1 == l2 && v1 == v2 && f2 == flag,
        (InputKind::Separator, InputKind::Separator) => true,
        _ => false,
    }
}

/// `new` is `old` after the key: a text field's text per `text_after_key`, a toggle flipped by the
/// space bar, all else kept.
pub open spec fn key_applied(old: PanelInputEntry, new: PanelInputEntry, key: Key) -> bool {
    &&& new.key == old.key
    &&& new.tui_visible == old.tui_visible
    &&& match (old.kind, new.kind) {
        (InputKind::Text(a), InputKind::Text(b)) => b.label == a.label && b.placeholder == a.placeholder
            && b.focused == a.focused && b.value@ == text_after_key(a.value@, key),
        (InputKind::Toggle { label: l1, value: v1, focused: f1 }, InputKind::Toggle { label: l2, value: v2, focused: f2 }) =>
            l1 == l2 && f1 == f2 && v2 == (if key == Key::Char(' ') { !v1 } else { v1 }),
        (InputKind::Separator, InputKind::Separator) => true,
        _ => false,
    }
}

/// The number of entries that can take focus.
pub open spec fn count_focusable(es: Seq<PanelInputEntry>) -> nat
    decreases es.len(),
{
    if es.len() == 0 {
        0
    } else {
        count_focusable(es.drop_last()) + if es.last().focusable() { 1nat } else { 0nat }
    }
}

/// The number of entries shown.
pub open spec fn count_visible(es: Seq<PanelInputEntry>) -> nat
    decreases es.len(),
{
    if es.len() == 0 {
        0
    } else {
        count_visible(es.drop_last()) + if es.last().tui_visible { 1nat } else { 0nat }
    }
}

/// The entries shown, in order.
pub open spec fn visible_seq(es: Seq<PanelInputEntry>) -> Seq<PanelInputEntry>
    decreases es.len(),
{
    if es.len() == 0 {
        Seq::empty()
    } else if es.last().tui_visible {
        visible_seq(es.drop_last()).push(es.last())
    } else {
        visible_seq(es.drop_last())
    }
}

/// How many focusable entries come before entry `i`.
pub open spec fn focus_rank(es: Seq<PanelInputEntry>, i: int) -> nat {
    count_focusable(es.take(i))
}

/// Entry `i` is the focusable entry of rank `n`.
pub open spec fn is_nth_focusable(es: Seq<PanelInputEntry>, i: int, n: nat) -> bool {
    0 <= i < es.len() && es[i].focusable() && focus_rank(es, i) == n
}

/// The key of the focusable entry of rank `n` among those from index `from` on.
pub open spec fn nth_focusable_key(es: Seq<PanelInputEntry>, n: nat, from: int) -> Option<&'static str>
    decreases es.len() - from,
{
    if from < 0 || from >= es.len() {
        None
    } else if es[from].focusable() {
        if n == 0 {
            Some(es[from].key)
        } else {
            nth_focusable_key(es, (n - 1) as nat, from + 1)
        }
    } else {
        nth_focusable_key(es, n, from + 1)
    }
}

/// The focus index after clamping to the focusable entries (left alone when none is focusable).
pub open spec fn clamp_focus(focused: nat, count: nat) -> nat {
    if count > 0 && focused >= count {
        (count - 1) as nat
    } else {
        focused
    }
}

/// The index of the first entry under `key`, from index `from` on.
pub open spec fn key_index(es: Seq<PanelInputEntry>, key: Seq<char>, from: int) -> Option<int>
    decreases es.len() - from,
{
    if from < 0 || from >= es.len() {
        None
    } else if es[from].key@ == key {
        Some(from)
    } else {
        key_index(es, key, from + 1)
    }
}

/// The text under `key`: that of the first entry under it if that entry is a text field, else
/// empty.
pub open spec fn text_under(es: Seq<PanelInputEntry>, key: Seq<char>) -> Seq<char> {
    match key_index(es, key, 0) {
        Some(i) => match es[i].kind {
            InputKind::Text(f) => f.value@,
            _ => Seq::empty(),
        },
        None => Seq::empty(),
    }
}

/// The toggle under `key`: that of the first entry under it if that entry is a toggle, else off.
pub open spec fn toggle_under(es: Seq<PanelInputEntry>, key: Seq<char>) -> bool {
    match key_index(es, key, 0) {
        Some(i) => match es[i].kind {
            InputKind::Toggle { value, .. } => value,
            _ => false,
        },
        None => false,
    }
}

proof fn lemma_take_last(es: Seq<PanelInputEntry>, i: int)
    requires
        0 <= i < es.len(),
    ensures
        es.take(i + 1).drop_last() == es.take(i),
        es.take(i + 1).last() == es[i],
{
    assert(es.take(i + 1).drop_last() =~= es.take(i));
}

/// Ranks never decrease along the list, and a focusable entry has a smaller rank than any
/// entry after it.
pub proof fn lemma_rank_monotone(es: Seq<PanelInputEntry>, i: int, j: int)
    requires
        0 <= i <= j <= es.len(),
    ensures
        focus_rank(es, i) <= focus_rank(es, j),
        i < j && es[i].focusable() ==> focus_rank(es, i) < focus_rank(es, j),
    decreases j - i,
{
    if i < j {
        lemma_rank_monotone(es, i, j - 1);
        lemma_take_last(es, j - 1);
        if i == j - 1 {
        } else {
            lemma_rank_monotone(es, i, j - 1);
        }
    }
}

/// Every rank below the number of focusable entries belongs to a focusable entry.
pub proof fn lemma_rank_exists(es: Seq<PanelInputEntry>, n: nat)
    requires
        n < count_focusable(es),
    ensures
        exists|i: int| is_nth_focusable(es, i, n),
    decreases es.len(),
{
    let p = es.drop_last();
    assert(es.take(es.len() - 1) =~= p);
    if n < count_focusable(p) {
        lemma_rank_exists(p, n);
        let i = choose|i: int| is_nth_focusable(p, i, n);
        assert(es.take(i) =~= p.take(i));
        assert(is_nth_focusable(es, i, n));
    } else {
        assert(is_nth_focusable(es, es.len() - 1, n));
    }
}

/// An ordered list of panel entries with one focus position among the focusable ones.
pub struct InputList {
    pub entries: Vec<PanelInputEntry>,
    focused: usize,
}

impl View for InputList {
    type V = Seq<PanelInputEntry>;

    /// The entries, in order.
    closed spec fn view(&self) -> Seq<PanelInputEntry> {
        self.entries@
    }
}

impl InputList {
    /// The focus position.
    pub closed spec fn focus(self) -> nat {
        self.focused as nat
    }

    /// `new` holds the entries of `old`, each with focus exactly when it is the focusable
    /// entry of rank `f`.
    pub open spec fn focus_synced(old: Seq<PanelInputEntry>, new: Seq<PanelInputEntry>, f: nat) -> bool {
        &&& new.len() == old.len()
        &&& forall|i: int| 0 <= i < old.len() ==> focus_set(#[trigger] old[i], new[i],
            old[i].focusable() && focus_rank(old, i) == f)
    }

    /// A list over the given entries, focus on the first focusable one.
    pub fn new(entries: Vec<PanelInputEntry>) -> (r: Self)
        ensures
            r.focus() == 0,
            Self::focus_synced(entries@, r@, 0),
            focus_consistent(r@, r.focus()),
    {
        let mut list = InputList { entries, focused: 0 };
        list.sync_focus();
        proof {
            lemma_synced_consistent(entries@, list@, 0);
        }
        list
    }

    /// The text under `key` (empty when the first entry under it is no text field, or there is
    /// none).
    pub fn get_text(&self, key: &str) -> (r: &str)
        ensures
            r@ == text_under(self@, key@),
    {
        let mut i: usize = 0;
        while i < self.entries.len()
            invariant
                i <= self@.len(),
                key_index(self@, key@, 0) == key_index(self@, key@, i as int),
            decreases self@.len() - i,
        {
            if str_eq(self.entries[i].key, key) {
                match &self.entries[i].kind {
                    InputKind::Text(f) => {
                        return f.value.as_str();
                    },
                    _ => {
                        proof {
                            reveal_strlit("");
                        }
                        return "";
                    },
                }
            }
            i = i + 1;
        }
        proof {
            reveal_strlit("");
        }
        ""
    }

    /// The toggle under `key` (off when the first entry under it is no toggle, or there is none).
    pub fn get_toggle(&self, key: &str) -> (r: bool)
        ensures
            r == toggle_under(self@, key@),
    {
        let mut i: usize = 0;
        while i < self.entries.len()
            invariant
                i <= self@.len(),
                key_index(self@, key@, 0) == key_index(self@, key@, i as int),
            decreases self@.len() - i,
        {
            if str_eq(self.entries[i].key, key) {
                return match &self.entries[i].kind {
                    InputKind::Toggle { value, .. } => *value,
                    _ => false,
                };
            }
            i = i + 1;
        }
        false
    }

    /// The key of the focused entry, if the focus position names a focusable entry.
    pub fn focused_key(&self) -> (r: Option<&'static str>)
        ensures
            r == nth_focusable_key(self@, self.focus(), 0),
    {
        let mut count: usize = 0;
        let mut i: usize = 0;
        while i < self.entries.len()
            invariant
                i <= self@.len(),
                count <= self.focused,
                nth_focusable_key(self@, self.focus(), 0) == nth_focusable_key(self@, (self.focused - count) as nat, i as int),
            decreases self@.len() - i,
        {
            if self.entries[i].is_focusable() {
                if count == self.focused {
                    return Some(self.entries[i].key);
                }
                count = count + 1;
            }
            i = i + 1;
        }
        None
    }

    /// The focus position.
    pub fn focused_index(&self) -> (r: usize)
        ensures
            r == self.focus(),
    {
        self.focused
    }

    /// The entries shown, in order.
    pub fn visible_entries(&self) -> (r: Vec<&PanelInputEntry>)
        ensures
            r@.len() == visible_seq(self@).len(),
            forall|j: int| 0 <= j < r@.len() ==> *(#[trigger] r@[j]) == visible_seq(self@)[j],
    {
        let mut r: Vec<&PanelInputEntry> = Vec::new();
        let mut i: usize = 0;
        while i < self.entries.len()
            invariant
                i <= self@.len(),
                r@.len() == visible_seq(self@.take(i as int)).len(),
                forall|j: int| 0 <= j < r@.len() ==> *(#[trigger] r@[j]) == visible_seq(self@.take(i as int))[j],
            decreases self@.len() - i,
        {
            proof {
                lemma_take_last(self@, i as int);
            }
            if self.entries[i].tui_visible {
                r.push(&self.entries[i]);
            }
            i = i + 1;
        }
        assert(self@.take(self@.len() as int) =~= self@);
        r
    }

    /// The number of entries shown.
    pub fn visible_count(&self) -> (r: usize)
        ensures
            r == count_visible(self@),
    {
        let mut n: usize = 0;
        let mut i: usize = 0;
        while i < self.entries.len()
            invariant
                i <= self@.len(),
                n == count_visible(self@.take(i as int)),
                n <= i,
            decreases self@.len() - i,
        {
            proof {
                lemma_take_last(self@, i as int);
            }
            if self.entries[i].tui_visible {
                n = n + 1;
            }
            i = i + 1;
        }
        assert(self@.take(self@.len() as int) =~= self@);
        n
    }

    /// The number of entries that can take focus.
    pub fn focusable_count(&self) -> (r: usize)
        ensures
            r == count_focusable(self@),
    {
        let mut n: usize = 0;
        let mut i: usize = 0;
        while i < self.entries.len()
            invariant
                i <= self@.len(),
                n == count_focusable(self@.take(i as int)),
                n <= i,
            decreases self@.len() - i,
        {
            proof {
                lemma_take_last(self@, i as int);
            }
            if self.entries[i].is_focusable() {
                n = n + 1;
            }
            i = i + 1;
        }
        assert(self@.take(self@.len() as int) =~= self@);
        n
    }

    /// Gives focus to the focusable entry of rank `focus` (clamped to the last focusable entry)
    /// and takes it from all others.
    pub fn sync_focus(&mut self)
        ensures
            final(self).focus() == clamp_focus(old(self).focus(), count_focusable(old(self)@)),
            Self::focus_synced(old(self)@, final(self)@, final(self).focus()),
    {
        let count = self.focusable_count();
        if count > 0 && self.focused >= count {
            self.focused = count - 1;
        }
        let focused = self.focused;
        let ghost orig = self@;
        let mut idx: usize = 0;
        let mut i: usize = 0;
        while i < self.entries.len()
            invariant
                i <= self@.len(),
                self@.len() == orig.len(),
                self.focused == focused,
                idx == focus_rank(orig, i as int),
                idx <= i,
                forall|j: int| i <= j < orig.len() ==> self@[j] == orig[j],
                forall|j: int| 0 <= j < i ==> focus_set(#[trigger] orig[j], self@[j],
                    orig[j].focusable() && focus_rank(orig, j) == focused),
            decreases self@.len() - i,
        {
            proof {
                lemma_take_last(orig, i as int);
            }
            let focusable = self.entries[i].is_focusable();
            self.entries[i].set_focus(focusable && idx == focused);
            if focusable {
                idx = idx + 1;
            }
            i = i + 1;
        }
    }

    /// Shows or hides the optional entries under `toggle_key` and `sep_key`, switching the toggle
    /// off when it is hidden. The focus position is kept.
    pub fn show_optional(&mut self, toggle_key: &str, sep_key: &str, shown: bool)
        ensures
            final(self).focus() == old(self).focus(),
            final(self)@.len() == old(self)@.len(),
            forall|i: int| 0 <= i < old(self)@.len() ==> optional_entry(old(self)@[i], #[trigger] final(self)@[i],
                toggle_key@, sep_key@, shown),
    {
        let ghost orig = self@;
        let mut i: usize = 0;
        while i < self.entries.len()
            invariant
                i <= self@.len(),
                self@.len() == orig.len(),
                self.focused == old(self).focused,
                orig == old(self)@,
                forall|j: int| i <= j < orig.len() ==> self@[j] == orig[j],
                forall|j: int| 0 <= j < i ==> optional_entry(orig[j], #[trigger] self@[j], toggle_key@, sep_key@, shown),
            decreases self@.len() - i,
        {
            let is_toggle = str_eq(self.entries[i].key, toggle_key);
            let is_sep = str_eq(self.entries[i].key, sep_key);
            if is_toggle || is_sep {
                self.entries[i].tui_visible = shown;
                if is_toggle && !shown {
                    self.entries[i].switch_off();
                }
            }
            i = i + 1;
        }
    }

    /// Moves focus to the next focusable entry, wrapping around; nothing happens when no entry
    /// can take focus.
    pub fn tab_next(&mut self)
        ensures
            count_focusable(old(self)@) == 0 ==> *final(self) == *old(self),
            count_focusable(old(self)@) > 0 ==> {
                &&& final(self).focus() == (old(self).focus() + 1) % count_focusable(old(self)@)
                &&& Self::focus_synced(old(self)@, final(self)@, final(self).focus())
            },
    {
        let count = self.focusable_count();
        if count == 0 {
            return;
        }
        self.focused = (self.focused % count + 1) % count;
        proof {
            let f = old(self).focused as int;
            let c = count as int;
            assert((f % c + 1) % c == (f + 1) % c) by (nonlinear_arith)
                requires
                    c > 0,
                    f >= 0,
            {
                vstd::arithmetic::div_mod::lemma_add_mod_noop(f, 1, c);
                vstd::arithmetic::div_mod::lemma_mod_twice(f, c);
            }
        }
        self.sync_focus();
    }

    /// Handles a key: Tab moves focus, any other key goes to the focused entry.
    pub fn on_key(&mut self, key: Key)
        ensures
            list_after_key(old(self)@, old(self).focus(), final(self)@, final(self).focus(), key),
    {
        if key == Key::Tab {
            self.tab_next();
            return;
        }
        let ghost orig = self@;
        let focused = self.focused;
        let mut count: usize = 0;
        let mut i: usize = 0;
        while i < self.entries.len()
            invariant_except_break
                i <= self@.len(),
                self@.len() == orig.len(),
                self.focused == focused,
                count == focus_rank(orig, i as int),
                count <= focused,
                count <= i,
                forall|j: int| 0 <= j < orig.len() ==> self@[j] == orig[j],
                forall|j: int| 0 <= j < i ==> !#[trigger] is_nth_focusable(orig, j, focused as nat),
            ensures
                self@.len() == orig.len(),
                self.focused == focused,
                forall|j: int| 0 <= j < orig.len() ==> if is_nth_focusable(orig, j, focused as nat) {
                    key_applied(orig[j], #[trigger] self@[j], key)
                } else {
                    self@[j] == orig[j]
                },
            decreases self@.len() - i,
        {
            proof {
                lemma_take_last(orig, i as int);
            }
            if self.entries[i].is_focusable() {
                if count == focused {
                    self.entries[i].on_key(key);
                    proof {
                        assert(is_nth_focusable(orig, i as int, focused as nat));
                        assert forall|j: int| 0 <= j < orig.len() && j != i implies !is_nth_focusable(orig, j, focused as nat) by {
                            if j > i {
                                lemma_rank_monotone(orig, i as int, j);
                            }
                        }
                    }
                    break;
                }
                count = count + 1;
            }
            i = i + 1;
        }
    }
}

/// The entries `new` with focus position `nf` are what a key makes of `old` with focus position
/// `of`: Tab moves the focus to the next focusable entry (wrapping around, nothing when none is
/// focusable), any other key goes to the focused entry alone.
pub open spec fn list_after_key(old: Seq<PanelInputEntry>, of: nat, new: Seq<PanelInputEntry>, nf: nat, key: Key) -> bool {
    if key == Key::Tab {
        if count_focusable(old) == 0 {
            new == old && nf == of
        } else {
            nf == (of + 1) % count_focusable(old) && InputList::focus_synced(old, new, nf)
        }
    } else {
        &&& nf == of
        &&& new.len() == old.len()
        &&& forall|i: int| 0 <= i < old.len() ==> if is_nth_focusable(old, i, of) {
            key_applied(old[i], #[trigger] new[i], key)
        } else {
            new[i] == old[i]
        }
    }
}

/// After focus is synced over a list with a focusable entry and a focus position among them,
/// exactly one entry has focus: the focusable entry at the focus position.
pub proof fn lemma_single_focus(old: Seq<PanelInputEntry>, new: Seq<PanelInputEntry>, f: nat)
    requires
        InputList::focus_synced(old, new, f),
        f < count_focusable(old),
    ensures
        exists|i: int| is_nth_focusable(old, i, f) && new[i].has_focus(),
        forall|i: int, j: int| 0 <= i < new.len() && 0 <= j < new.len() && #[trigger] new[i].has_focus()
            && #[trigger] new[j].has_focus() ==> i == j,
{
    lemma_rank_exists(old, f);
    let k = choose|i: int| is_nth_focusable(old, i, f);
    assert(focus_set(old[k], new[k], true));
    assert forall|i: int, j: int| 0 <= i < new.len() && 0 <= j < new.len() && #[trigger] new[i].has_focus()
        && #[trigger] new[j].has_focus() implies i == j by {
        assert(focus_set(old[i], new[i], old[i].focusable() && focus_rank(old, i) == f));
        assert(focus_set(old[j], new[j], old[j].focusable() && focus_rank(old, j) == f));
        if i < j {
            lemma_rank_monotone(old, i, j);
        } else if j < i {
            lemma_rank_monotone(old, j, i);
        }
    }
}

/// The entries show focus as a list at focus position `f` should: the position is below the
/// number of focusable entries (when there is one), and an entry has focus exactly when it is
/// the focusable entry of rank `f`.
pub open spec fn focus_consistent(es: Seq<PanelInputEntry>, f: nat) -> bool {
    &&& count_focusable(es) > 0 ==> f < count_focusable(es)
    &&& forall|i: int| 0 <= i < es.len() ==> (#[trigger] es[i].has_focus() <==> is_nth_focusable(es, i, f))
}

/// Two lists of one length whose entries agree, index by index, on whether they can take focus
/// have the same focus ranks.
proof fn lemma_same_ranks(a: Seq<PanelInputEntry>, b: Seq<PanelInputEntry>, k: int)
    requires
        a.len() == b.len(),
        0 <= k <= a.len(),
        forall|i: int| 0 <= i < a.len() ==> (#[trigger] a[i].focusable()) == b[i].focusable(),
    ensures
        focus_rank(a, k) == focus_rank(b, k),
    decreases k,
{
    if k > 0 {
        lemma_same_ranks(a, b, k - 1);
        lemma_take_last(a, k - 1);
        lemma_take_last(b, k - 1);
    }
}

/// A consistent focus makes exactly one entry show focus when any entry can take it, and none
/// otherwise.
pub proof fn lemma_consistent_single_focus(es: Seq<PanelInputEntry>, f: nat)
    requires
        focus_consistent(es, f),
    ensures
        count_focusable(es) > 0 ==> exists|i: int| 0 <= i < es.len() && #[trigger] es[i].has_focus(),
        count_focusable(es) == 0 ==> forall|i: int| 0 <= i < es.len() ==> !#[trigger] es[i].has_focus(),
        forall|i: int, j: int| 0 <= i < es.len() && 0 <= j < es.len() && #[trigger] es[i].has_focus()
            && #[trigger] es[j].has_focus() ==> i == j,
{
    if count_focusable(es) > 0 {
        lemma_rank_exists(es, f);
        let k = choose|i: int| is_nth_focusable(es, i, f);
        assert(es[k].has_focus());
    } else {
        assert forall|i: int| 0 <= i < es.len() implies !#[trigger] es[i].has_focus() by {
            if es[i].has_focus() {
                lemma_rank_monotone(es, i, es.len() as int);
                assert(es.take(es.len() as int) =~= es);
            }
        }
    }
    assert forall|i: int, j: int| 0 <= i < es.len() && 0 <= j < es.len() && #[trigger] es[i].has_focus()
        && #[trigger] es[j].has_focus() implies i == j by {
        if i < j {
            lemma_rank_monotone(es, i, j);
        } else if j < i {
            lemma_rank_monotone(es, j, i);
        }
    }
}

/// Syncing focus at a position below the number of focusable entries (or at 0) makes the focus
/// consistent.
pub proof fn lemma_synced_consistent(old: Seq<PanelInputEntry>, new: Seq<PanelInputEntry>, f: nat)
    requires
        InputList::focus_synced(old, new, f),
        count_focusable(old) > 0 ==> f < count_focusable(old),
    ensures
        focus_consistent(new, f),
        count_focusable(new) == count_focusable(old),
{
    assert forall|i: int| 0 <= i < old.len() implies (#[trigger] old[i].focusable()) == new[i].focusable() by {
        assert(focus_set(old[i], new[i], old[i].focusable() && focus_rank(old, i) == f));
    }
    lemma_same_ranks(old, new, old.len() as int);
    assert(old.take(old.len() as int) =~= old);
    assert(new.take(new.len() as int) =~= new);
    assert forall|i: int| 0 <= i < new.len() implies (#[trigger] new[i].has_focus() <==> is_nth_focusable(new, i, f)) by {
        lemma_same_ranks(old, new, i);
        assert(focus_set(old[i], new[i], old[i].focusable() && focus_rank(old, i) == f));
    }
}

/// A key keeps the focus consistent: a list whose focus is consistent before `on_key` is
/// consistent after it, so at most one entry shows focus, and it is the focusable entry at the
/// focus position.
pub proof fn lemma_on_key_keeps_focus(old: Seq<PanelInputEntry>, of: nat, new: Seq<PanelInputEntry>, nf: nat, key: Key)
    requires
        focus_consistent(old, of),
        list_after_key(old, of, new, nf, key),
    ensures
        focus_consistent(new, nf),
        count_focusable(new) == count_focusable(old),
{
    assert(new.len() == old.len());
    assert forall|i: int| 0 <= i < old.len() implies (#[trigger] old[i].focusable()) == new[i].focusable() by {
        if key == Key::Tab {
            if count_focusable(old) > 0 {
                assert(focus_set(old[i], new[i], old[i].focusable() && focus_rank(old, i) == nf));
            }
        } else if is_nth_focusable(old, i, of) {
            assert(key_applied(old[i], new[i], key));
        }
    }
    lemma_same_ranks(old, new, old.len() as int);
    assert(old.take(old.len() as int) =~= old);
    assert(new.take(new.len() as int) =~= new);
    assert forall|i: int| 0 <= i < new.len() implies (#[trigger] new[i].has_focus() <==> is_nth_focusable(new, i, nf)) by {
        lemma_same_ranks(old, new, i);
        assert(old[i].focusable() == new[i].focusable());
        assert(old[i].has_focus() <==> is_nth_focusable(old, i, of));
        if key == Key::Tab {
            if count_focusable(old) > 0 {
                assert(focus_set(old[i], new[i], old[i].focusable() && focus_rank(old, i) == nf));
            } else {
                assert(new[i] == old[i]);
            }
        } else if is_nth_focusable(old, i, of) {
            assert(key_applied(old[i], new[i], key));
            assert(new[i].has_focus() == old[i].has_focus());
        } else {
            assert(new[i] == old[i]);
        }
    }
    if key == Key::Tab && count_focusable(old) > 0 {
        assert(nf < count_focusable(old)) by (nonlinear_arith)
            requires
                nf == (of + 1) % count_focusable(old),
                count_focusable(old) > 0,
        ;
    }
}

/// Within a list, the focusable entry `i` whose rank counted from `from` is `n` is the one
/// `nth_focusable_key(es, n, from)` names.
proof fn lemma_nth_key_from(es: Seq<PanelInputEntry>, i: int, n: nat, from: int)
    requires
        0 <= from <= i < es.len(),
        es[i].focusable(),
        focus_rank(es, i) == focus_rank(es, from) + n,
    ensures
        nth_focusable_key(es, n, from) == Some(es[i].key),
    decreases i - from,
{
    if from < i {
        lemma_take_last(es, from);
        if es[from].focusable() {
            lemma_rank_monotone(es, from, i);
            lemma_nth_key_from(es, i, (n - 1) as nat, from + 1);
        } else {
            lemma_nth_key_from(es, i, n, from + 1);
        }
    }
}

/// The focusable entry of rank `n` is the one `nth_focusable_key(es, n, 0)` names.
pub proof fn lemma_nth_key(es: Seq<PanelInputEntry>, i: int, n: nat)
    requires
        is_nth_focusable(es, i, n),
    ensures
        nth_focusable_key(es, n, 0) == Some(es[i].key),
{
    assert(es.take(0) =~= Seq::<PanelInputEntry>::empty());
    lemma_nth_key_from(es, i, n, 0);
}

/// Lists whose entries have the same keys, index by index, find a key at the same index.
proof fn lemma_same_key_index(a: Seq<PanelInputEntry>, b: Seq<PanelInputEntry>, key: Seq<char>, from: int)
    requires
        a.len() == b.len(),
        forall|i: int| 0 <= i < a.len() ==> (#[trigger] a[i]).key == b[i].key,
    ensures
        key_index(a, key, from) == key_index(b, key, from),
    decreases a.len() - from,
{
    if 0 <= from < a.len() {
        assert(a[from].key == b[from].key);
        lemma_same_key_index(a, b, key, from + 1);
    }
}

/// What a key does to the text under `key`: when the entry first under `key` takes the key, its
/// text becomes `text_after_key` of the old text; otherwise the text stays.
pub proof fn lemma_text_after_list_key(old: Seq<PanelInputEntry>, of: nat, new: Seq<PanelInputEntry>, nf: nat, k: Key, key: Seq<char>)
    requires
        list_after_key(old, of, new, nf, k),
    ensures
        key_index(new, key, 0) == key_index(old, key, 0),
        text_under(new, key) == (match key_index(old, key, 0) {
            Some(i) => if k != Key::Tab && is_nth_focusable(old, i, of) && old[i].kind is Text {
                text_after_key(text_under(old, key), k)
            } else {
                text_under(old, key)
            },
            None => text_under(old, key),
        }),
        (match key_index(old, key, 0) {
            Some(i) => 0 <= i < old.len() && old[i].key@ == key && (k != Key::Tab && is_nth_focusable(old, i, of)
                ==> nth_focusable_key(old, of, 0) == Some(old[i].key)),
            None => true,
        }),
{
    lemma_key_index_range(old, key, 0);
    assert forall|i: int| 0 <= i < old.len() implies (#[trigger] old[i]).key == new[i].key by {
        if k == Key::Tab {
            if count_focusable(old) > 0 {
                assert(focus_set(old[i], new[i], old[i].focusable() && focus_rank(old, i) == nf));
            }
        } else if is_nth_focusable(old, i, of) {
            assert(key_applied(old[i], new[i], k));
        } else {
            assert(new[i] == old[i]);
        }
    }
    lemma_same_key_index(old, new, key, 0);
    match key_index(old, key, 0) {
        Some(i) => {
            lemma_key_index_range(old, key, 0);
            if k == Key::Tab {
                if count_focusable(old) > 0 {
                    assert(focus_set(old[i], new[i], old[i].focusable() && focus_rank(old, i) == nf));
                }
            } else if is_nth_focusable(old, i, of) {
                assert(key_applied(old[i], new[i], k));
                lemma_nth_key(old, i, of);
            } else {
                assert(new[i] == old[i]);
            }
        },
        None => {},
    }
}

/// A key index lies within the list.
proof fn lemma_key_index_range(es: Seq<PanelInputEntry>, key: Seq<char>, from: int)
    ensures
        key_index(es, key, from) matches Some(i) ==> 0 <= from <= i < es.len() && es[i].key@ == key,
    decreases es.len() - from,
{
    if 0 <= from < es.len() && es[from].key@ != key {
        lemma_key_index_range(es, key, from + 1);
    }
}

/// Showing or hiding the optional entries keeps every key, leaves the text and toggle under any
/// other key as they were, and a hidden toggle reads as off.
pub proof fn lemma_optional_entries(
    old: Seq<PanelInputEntry>,
    new: Seq<PanelInputEntry>,
    toggle_key: Seq<char>,
    sep_key: Seq<char>,
    shown: bool,
    key: Seq<char>,
)
    requires
        new.len() == old.len(),
        forall|i: int| 0 <= i < old.len() ==> optional_entry(old[i], #[trigger] new[i], toggle_key, sep_key, shown),
    ensures
        key_index(new, key, 0) == key_index(old, key, 0),
        key != toggle_key && key != sep_key ==> text_under(new, key) == text_under(old, key)
            && toggle_under(new, key) == toggle_under(old, key),
        key == toggle_key && !shown ==> !toggle_under(new, key),
{
    assert forall|i: int| 0 <= i < old.len() implies (#[trigger] old[i]).key == new[i].key by {
        assert(optional_entry(old[i], new[i], toggle_key, sep_key, shown));
    }
    lemma_same_key_index(old, new, key, 0);
    lemma_key_index_range(old, key, 0);
    match key_index(old, key, 0) {
        Some(i) => {
            assert(optional_entry(old[i], new[i], toggle_key, sep_key, shown));
        },
        None => {},
    }
}

/// A text entry under `key`, labelled by its key.
pub fn text(key: &'static str, default: &str, placeholder: &'static str, visible: bool) -> (r: PanelInputEntry)
    ensures
        r.key == key,
        r.tui_visible == visible,
        r.kind matches InputKind::Text(f) && f.label == key && f.value@ == default@
            && f.placeholder == placeholder && !f.focused,
{
    PanelInputEntry { key, kind: InputKind::Text(InputField::new(key, default, placeholder)), tui_visible: visible }
}

/// A text entry under `key` with a label of its own.
pub fn text_labeled(
    key: &'static str,
    label: &'static str,
    default: &str,
    placeholder: &'static str,
    visible: bool,
) -> (r: PanelInputEntry)
    ensures
        r.key == key,
        r.tui_visible == visible,
        r.kind matches InputKind::Text(f) && f.label == label && f.value@ == default@
            && f.placeholder == placeholder && !f.focused,
{
    PanelInputEntry { key, kind: InputKind::Text(InputField::new(label, default, placeholder)), tui_visible: visible }
}

/// A toggle entry under `key`.
pub fn toggle(key: &'static str, label: &'static str, default: bool, visible: bool) -> (r: PanelInputEntry)
    ensures
        r.key == key,
        r.tui_visible == visible,
        r.kind == (InputKind::Toggle { label, value: default, focused: false }),
{
    PanelInputEntry { key, kind: InputKind::Toggle { label, value: default, focused: false }, tui_visible: visible }
}

/// An empty row, shown.
pub fn separator() -> (r: PanelInputEntry)
    ensures
        r.key@ == Seq::<char>::empty(),
        r.tui_visible,
        r.kind is Separator,
{
    proof {
        reveal_strlit("");
    }
    PanelInputEntry { key: "", kind: InputKind::Separator, tui_visible: true }
}

} // verus!
