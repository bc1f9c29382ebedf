//! The editor state behind the cycle-order settings: a text buffer the
//! user edits, loaded from the profile's cycle group by joining it with
//! newlines, and saved back by splitting on newlines, trimming each
//! line, and dropping empty ones.

use vstd::prelude::*;

use crate::classify::string_views;
use crate::config::Profile;

verus! {

/// The characters trimmed from either end of an entered line.
pub open spec fn is_line_ws(c: char) -> bool {
    c == ' ' || c == '\t' || c == '\r'
}

/// A sequence without its leading whitespace.
pub open spec fn spec_trim_front(s: Seq<char>) -> Seq<char>
    decreases s.len(),
{
    if s.len() > 0 && is_line_ws(s[0]) {
        spec_trim_front(s.drop_first())
    } else {
        s
    }
}

/// A sequence without its trailing whitespace.
pub open spec fn spec_trim_back(s: Seq<char>) -> Seq<char>
    decreases s.len(),
{
    if s.len() > 0 && is_line_ws(s.last()) {
        spec_trim_back(s.drop_last())
    } else {
        s
    }
}

/// A sequence without leading and trailing whitespace.
pub open spec fn spec_trim(s: Seq<char>) -> Seq<char> {
    spec_trim_back(spec_trim_front(s))
}

/// The trimmed line, kept only when something remains of it.
pub open spec fn spec_kept_line(cur: Seq<char>) -> Seq<Seq<char>> {
    if spec_trim(cur).len() > 0 {
        seq![spec_trim(cur)]
    } else {
        Seq::empty()
    }
}

/// The entries parsed out of the buffer from position `i` on, with the
/// current line read so far being `cur` and `acc` already parsed.
pub open spec fn spec_parse_rec(
    s: Seq<char>,
    i: int,
    cur: Seq<char>,
    acc: Seq<Seq<char>>,
) -> Seq<Seq<char>>
    decreases s.len() - i,
{
    if i < 0 || i >= s.len() {
        acc + spec_kept_line(cur)
    } else if s[i] == '\n' {
        spec_parse_rec(s, i + 1, Seq::empty(), acc + spec_kept_line(cur))
    } else {
        spec_parse_rec(s, i + 1, cur.push(s[i]), acc)
    }
}

/// The cycle group a buffer denotes: its lines, trimmed, without the
/// empty ones.
pub open spec fn spec_parse_lines(s: Seq<char>) -> Seq<Seq<char>> {
    spec_parse_rec(s, 0, Seq::empty(), Seq::empty())
}

/// The buffer that displays a cycle group: the entries joined by
/// newlines.
pub open spec fn spec_join_lines(items: Seq<Seq<char>>) -> Seq<char>
    decreases items.len(),
{
    if items.len() == 0 {
        Seq::empty()
    } else if items.len() == 1 {
        items[0]
    } else {
        spec_join_lines(items.drop_last()) + seq!['\n'] + items.last()
    }
}

/// How the cycle order is being edited.
#[derive(Clone, Copy, Debug, PartialEq, Eq, Structural)]
pub enum EditorMode {
    /// The free-text buffer, one identity per line.
    TextEdit,
    /// The drag-and-drop list.
    DragDrop,
}

/// Which tab of the editor is showing.
#[derive(Clone, Copy, Debug, PartialEq, Eq, Structural)]
pub enum ViewTab {
    CycleGroup,
    PerCharacterHotkeys,
}

/// State for the cycle order editor.
pub struct CycleOrderSettingsState {
    /// The text buffer: one identity per line.
    pub cycle_group_text: String,
    /// How the order is being edited.
    pub editor_mode: EditorMode,
    /// Whether the add-characters dialog is open.
    pub show_add_characters_popup: bool,
    /// The dialog's selection, one flag per identity.
    pub character_selections: Vec<(String, bool)>,
    /// The tab showing.
    pub active_tab: ViewTab,
}

impl CycleOrderSettingsState {
    pub fn new() -> (r: CycleOrderSettingsState)
        ensures
            r.cycle_group_text@.len() == 0,
            r.editor_mode == EditorMode::DragDrop,
            !r.show_add_characters_popup,
            r.character_selections@.len() == 0,
            r.active_tab == ViewTab::CycleGroup,
    {
        CycleOrderSettingsState {
            cycle_group_text: String::new(),
            editor_mode: EditorMode::DragDrop,
            show_add_characters_popup: false,
            character_selections: Vec::new(),
            active_tab: ViewTab::CycleGroup,
        }
    }

    /// Loads the profile's cycle group into the text buffer, one entry
    /// per line.
    pub fn load_from_profile(&mut self, profile: &Profile)
        ensures
            final(self).cycle_group_text@ == spec_join_lines(
                string_views(profile.hotkey_cycle_group@),
            ),
            final(self).editor_mode == old(self).editor_mode,
            final(self).show_add_characters_popup == old(self).show_add_characters_popup,
            final(self).character_selections == old(self).character_selections,
            final(self).active_tab == old(self).active_tab,
    {
        self.cycle_group_text = join_lines(&profile.hotkey_cycle_group);
    }

    /// Parses the text buffer back into the profile's cycle group: one
    /// entry per non-empty trimmed line.
    pub fn save_to_profile(&self, profile: &mut Profile)
        ensures
            string_views(final(profile).hotkey_cycle_group@) == spec_parse_lines(
                self.cycle_group_text@,
            ),
            final(profile).character_thumbnails == old(profile).character_thumbnails,
            final(profile).custom_source_thumbnails == old(profile).custom_source_thumbnails,
            final(profile).custom_windows == old(profile).custom_windows,
            final(profile).character_hotkey_order == old(profile).character_hotkey_order,
            final(profile).character_hotkeys == old(profile).character_hotkeys,
    {
        profile.hotkey_cycle_group = parse_lines(&self.cycle_group_text);
    }
}

impl Default for CycleOrderSettingsState {
    /// The default editor state equals a freshly constructed one.
    fn default() -> (r: CycleOrderSettingsState)
        ensures
            r.cycle_group_text@.len() == 0,
            r.editor_mode == EditorMode::DragDrop,
            !r.show_add_characters_popup,
            r.character_selections@.len() == 0,
            r.active_tab == ViewTab::CycleGroup,
    {
        CycleOrderSettingsState::new()
    }
}

/// An entry the editor shows verbatim: non-empty, no surrounding
/// whitespace, no newline.
pub open spec fn spec_clean_entry(x: Seq<char>) -> bool {
    &&& x.len() > 0
    &&& spec_trim(x) == x
    &&& forall|j: int| 0 <= j < x.len() ==> x[j] != '\n'
}

/// Joining from the front: the first entry, a newline, then the rest.
proof fn lemma_join_front(items: Seq<Seq<char>>)
    requires
        items.len() >= 2,
    ensures
        spec_join_lines(items) == items[0] + seq!['\n'] + spec_join_lines(items.drop_first()),
    decreases items.len(),
{
    if items.len() == 2 {
        assert(items.drop_last() =~= seq![items[0]]);
        assert(items.drop_first() =~= seq![items[1]]);
        assert(spec_join_lines(seq![items[0]]) == items[0]);
        assert(spec_join_lines(seq![items[1]]) == items[1]);
    } else {
        let body = items.drop_last();
        lemma_join_front(body);
        assert(body.drop_first() =~= items.drop_first().drop_last());
        assert(items.drop_first().len() >= 2);
        assert(items.drop_first().last() == items.last());
        assert(spec_join_lines(items) == body[0] + seq!['\n'] + spec_join_lines(
            items.drop_first().drop_last(),
        ) + seq!['\n'] + items.last());
        assert(items[0] + seq!['\n'] + spec_join_lines(items.drop_first()) =~= body[0] + seq![
            '\n',
        ] + spec_join_lines(items.drop_first().drop_last()) + seq!['\n'] + items.last());
    }
}

/// Parsing a newline-free tail folds it into the current line.
proof fn lemma_parse_tail(s: Seq<char>, i: int, cur: Seq<char>, acc: Seq<Seq<char>>)
    requires
        0 <= i <= s.len(),
        forall|j: int| i <= j < s.len() ==> s[j] != '\n',
    ensures
        spec_parse_rec(s, i, cur, acc) == acc + spec_kept_line(cur + s.subrange(i, s.len() as int)),
    decreases s.len() - i,
{
    if i >= s.len() {
        assert(cur + s.subrange(i, s.len() as int) =~= cur);
    } else {
        lemma_parse_tail(s, i + 1, cur.push(s[i]), acc);
        assert(cur.push(s[i]) + s.subrange(i + 1, s.len() as int) =~= cur + s.subrange(
            i,
            s.len() as int,
        ));
    }
}

/// Parsing up to the next newline closes the current line there.
proof fn lemma_parse_to_newline(s: Seq<char>, i: int, k: int, cur: Seq<char>, acc: Seq<Seq<char>>)
    requires
        0 <= i <= k < s.len(),
        forall|j: int| i <= j < k ==> s[j] != '\n',
        s[k] == '\n',
    ensures
        spec_parse_rec(s, i, cur, acc) == spec_parse_rec(
            s,
            k + 1,
            Seq::empty(),
            acc + spec_kept_line(cur + s.subrange(i, k)),
        ),
    decreases k - i,
{
    if i == k {
        assert(cur + s.subrange(i, k) =~= cur);
    } else {
        lemma_parse_to_newline(s, i + 1, k, cur.push(s[i]), acc);
        assert(cur.push(s[i]) + s.subrange(i + 1, k) =~= cur + s.subrange(i, k));
    }
}

/// Parsing a joined suffix of clean entries appends exactly those
/// entries.
proof fn lemma_parse_join_suffix(s: Seq<char>, i: int, acc: Seq<Seq<char>>, items: Seq<Seq<char>>)
    requires
        0 <= i <= s.len(),
        s.subrange(i, s.len() as int) == spec_join_lines(items),
        forall|m: int| 0 <= m < items.len() ==> #[trigger] spec_clean_entry(items[m]),
    ensures
        spec_parse_rec(s, i, Seq::empty(), acc) == acc + items,
    decreases items.len(),
{
    let suffix = s.subrange(i, s.len() as int);
    if items.len() == 0 {
        assert(suffix.len() == 0);
        assert(spec_trim(Seq::<char>::empty()).len() == 0);
        assert(acc + spec_kept_line(Seq::empty()) =~= acc);
        assert(acc + items =~= acc);
    } else if items.len() == 1 {
        assert(suffix == items[0]);
        assert(spec_clean_entry(items[0]));
        assert forall|j: int| i <= j < s.len() implies s[j] != '\n' by {
            assert(suffix[j - i] == s[j]);
        }
        lemma_parse_tail(s, i, Seq::empty(), acc);
        assert(Seq::<char>::empty() + suffix =~= items[0]);
        assert(spec_kept_line(items[0]) == seq![items[0]]);
        assert(acc + seq![items[0]] =~= acc + items);
    } else {
        lemma_join_front(items);
        let head = items[0];
        let k = i + head.len();
        assert(suffix == head + seq!['\n'] + spec_join_lines(items.drop_first()));
        assert(spec_clean_entry(head));
        assert forall|j: int| i <= j < k implies s[j] != '\n' by {
            assert(s[j] == suffix[j - i]);
            assert(suffix[j - i] == head[j - i]);
        }
        assert(s[k] == suffix[k - i]);
        assert(suffix[head.len() as int] == '\n');
        assert(s.subrange(i, k) =~= head);
        lemma_parse_to_newline(s, i, k, Seq::empty(), acc);
        assert(Seq::<char>::empty() + s.subrange(i, k) =~= head);
        assert(spec_kept_line(head) == seq![head]);
        let rest = spec_join_lines(items.drop_first());
        assert(suffix.len() == head.len() + 1 + rest.len());
        assert forall|j: int| 0 <= j < s.len() - (k + 1) implies s.subrange(
            k + 1,
            s.len() as int,
        )[j] == rest[j] by {
            assert(s.subrange(k + 1, s.len() as int)[j] == s[k + 1 + j]);
            assert(s[k + 1 + j] == suffix[k + 1 + j - i]);
            assert(suffix[k + 1 + j - i] == rest[j]);
        }
        assert(s.subrange(k + 1, s.len() as int) =~= rest);
        assert(forall|m: int|
            0 <= m < items.drop_first().len() ==> #[trigger] spec_clean_entry(
                items.drop_first()[m],
            ));
        lemma_parse_join_suffix(s, k + 1, acc + seq![head], items.drop_first());
        assert(acc + seq![head] + items.drop_first() =~= acc + items);
    }
}

/// Saving after loading is the identity: a cycle group whose entries
/// are non-empty, trimmed and newline-free survives the trip through
/// the text buffer unchanged.
pub proof fn lemma_cycle_group_round_trip(items: Seq<Seq<char>>)
    requires
        forall|m: int| 0 <= m < items.len() ==> #[trigger] spec_clean_entry(items[m]),
    ensures
        spec_parse_lines(spec_join_lines(items)) == items,
{
    let t = spec_join_lines(items);
    assert(t.subrange(0, t.len() as int) =~= t);
    lemma_parse_join_suffix(t, 0, Seq::empty(), items);
    assert(Seq::<Seq<char>>::empty() + items =~= items);
}

/// Moves one cycle entry to another spot, as the drag-and-drop editor
/// does: the entry at `from` is taken out, and when the drop point lay
/// behind it, the target index shifts down by the removal.
pub fn reorder_cycle_entry(group: &mut Vec<String>, from: usize, to: usize)
    ensures
        ({
            let old_g = old(group)@;
            if from < old_g.len() {
                let adjusted: int = if from < to {
                    to - 1
                } else {
                    to as int
                };
                if adjusted == from {
                    final(group)@ == old_g
                } else {
                    let without = old_g.remove(from as int);
                    let dest: int = if adjusted > without.len() {
                        without.len() as int
                    } else {
                        adjusted
                    };
                    final(group)@ == without.insert(dest, old_g[from as int])
                }
            } else {
                final(group)@ == old_g
            }
        }),
{
    if from >= group.len() {
        return ;
    }
    let adjusted: usize = if from < to {
        to - 1
    } else {
        to
    };
    if adjusted == from {
        return ;
    }
    let item = group.remove(from);
    let dest: usize = if adjusted > group.len() {
        group.len()
    } else {
        adjusted
    };
    group.insert(dest, item);
}

/// Whether some selected entry bears this identity.
pub open spec fn spec_selected_name(selections: Seq<(String, bool)>, x: Seq<char>) -> bool {
    exists|k: int| 0 <= k < selections.len() && selections[k].1 && selections[k].0@ == x
}

/// Adds every selected identity that the cycle group does not already
/// hold, in selection order; everything else in the profile stays put.
pub fn add_selected_to_group(profile: &mut Profile, selections: &Vec<(String, bool)>)
    ensures
        ({
            let old_g = crate::classify::string_views(old(profile).hotkey_cycle_group@);
            let new_g = crate::classify::string_views(final(profile).hotkey_cycle_group@);
            &&& new_g.len() >= old_g.len()
            &&& forall|j: int| 0 <= j < old_g.len() ==> new_g[j] == old_g[j]
            &&& forall|j: int|
                old_g.len() <= j < new_g.len() ==> #[trigger] spec_selected_name(
                    selections@,
                    new_g[j],
                )
            &&& forall|k: int|
                0 <= k < selections@.len() && (#[trigger] selections@[k].1) ==> crate::cycle::spec_name_in(
                    new_g,
                    selections@[k].0@,
                )
        }),
        final(profile).character_thumbnails == old(profile).character_thumbnails,
        final(profile).custom_source_thumbnails == old(profile).custom_source_thumbnails,
        final(profile).custom_windows == old(profile).custom_windows,
        final(profile).character_hotkeys == old(profile).character_hotkeys,
{
    let ghost old_g = crate::classify::string_views(profile.hotkey_cycle_group@);
    let mut k: usize = 0;
    while k < selections.len()
        invariant
            k <= selections@.len(),
            ({
                let new_g = crate::classify::string_views(profile.hotkey_cycle_group@);
                &&& new_g.len() >= old_g.len()
                &&& forall|j: int| 0 <= j < old_g.len() ==> new_g[j] == old_g[j]
                &&& forall|j: int|
                    old_g.len() <= j < new_g.len() ==> #[trigger] spec_selected_name(
                        selections@,
                        new_g[j],
                    )
                &&& forall|m: int|
                    0 <= m < k && (#[trigger] selections@[m].1) ==> crate::cycle::spec_name_in(
                        new_g,
                        selections@[m].0@,
                    )
            }),
            profile.character_thumbnails == old(profile).character_thumbnails,
            profile.custom_source_thumbnails == old(profile).custom_source_thumbnails,
            profile.custom_windows == old(profile).custom_windows,
            profile.character_hotkeys == old(profile).character_hotkeys,
            profile.character_hotkey_order == old(profile).character_hotkey_order,
        decreases selections@.len() - k,
    {
        let ghost pre_g = crate::classify::string_views(profile.hotkey_cycle_group@);
        let selected = selections[k].1;
        if selected {
            let name = selections[k].0.clone();
            if !group_contains(&profile.hotkey_cycle_group, name.as_str()) {
                profile.hotkey_cycle_group.push(name);
                proof {
                    let new_g = crate::classify::string_views(profile.hotkey_cycle_group@);
                    assert(new_g =~= pre_g.push(selections@[k as int].0@));
                    assert(new_g.last() == selections@[k as int].0@);
                    assert(spec_selected_name(selections@, new_g.last()));
                    assert forall|m: int|
                        0 <= m <= k && (#[trigger] selections@[m].1) implies crate::cycle::spec_name_in(
                        new_g,
                        selections@[m].0@,
                    ) by {
                        if m < k {
                            let w = choose|w: int|
                                0 <= w < pre_g.len() && pre_g[w] == selections@[m].0@;
                            assert(new_g[w] == selections@[m].0@);
                        } else {
                            assert(new_g[new_g.len() - 1] == selections@[m].0@);
                        }
                    }
                }
            } else {
                proof {
                    assert(crate::cycle::spec_name_in(pre_g, selections@[k as int].0@));
                }
            }
        }
        k = k + 1;
    }
}

fn group_contains(group: &Vec<String>, name: &str) -> (r: bool)
    ensures
        r == crate::cycle::spec_name_in(crate::classify::string_views(group@), name@),
{
    let ghost views = crate::classify::string_views(group@);
    let mut i: usize = 0;
    while i < group.len()
        invariant
            i <= views.len(),
            views == crate::classify::string_views(group@),
            forall|j: int| 0 <= j < i ==> views[j] != name@,
        decreases views.len() - i,
    {
        if crate::text::str_eq(group[i].as_str(), name) {
            assert(views[i as int] == name@);
            return true;
        }
        i = i + 1;
    }
    false
}

/// Joins identities into a newline-separated buffer.
fn join_lines(items: &Vec<String>) -> (r: String)
    ensures
        r@ == spec_join_lines(string_views(items@)),
{
    let ghost iv = string_views(items@);
    let mut out = String::new();
    let mut i: usize = 0;
    while i < items.len()
        invariant
            i <= iv.len(),
            iv == string_views(items@),
            out@ == spec_join_lines(iv.subrange(0, i as int)),
        decreases iv.len() - i,
    {
        let ghost pre = out@;
        if i > 0 {
            out.append("\n");
        }
        out.append(items[i].as_str());
        proof {
            reveal_strlit("\n");
            let next = iv.subrange(0, i + 1);
            assert(next.drop_last() =~= iv.subrange(0, i as int));
            assert(next.last() == iv[i as int]);
            if i == 0 {
                assert(next.len() == 1);
                assert(out@ =~= next[0]);
            } else {
                assert(out@ =~= spec_join_lines(iv.subrange(0, i as int)) + seq!['\n']
                    + iv[i as int]);
            }
        }
        i = i + 1;
    }
    proof {
        assert(iv.subrange(0, iv.len() as int) =~= iv);
    }
    out
}

fn is_ws_char(c: char) -> (r: bool)
    ensures
        r == is_line_ws(c),
{
    c == ' ' || c == '\t' || c == '\r'
}

/// Leading whitespace determines `spec_trim_front` as a skip.
proof fn lemma_trim_front_skip(s: Seq<char>, k: int)
    requires
        0 <= k <= s.len(),
        forall|j: int| 0 <= j < k ==> is_line_ws(s[j]),
        k < s.len() ==> !is_line_ws(s[k]),
    ensures
        spec_trim_front(s) == s.skip(k),
    decreases k,
{
    if k == 0 {
        if s.len() > 0 && is_line_ws(s[0]) {
            assert(false);
        }
        assert(s.skip(0) =~= s);
    } else {
        assert(is_line_ws(s[0]));
        let s1 = s.drop_first();
        assert(forall|j: int| 0 <= j < k - 1 ==> s1[j] == s[j + 1] && is_line_ws(s1[j]));
        lemma_trim_front_skip(s1, k - 1);
        assert(s1.skip(k - 1) =~= s.skip(k));
    }
}

/// Trailing whitespace determines `spec_trim_back` as a take.
proof fn lemma_trim_back_take(s: Seq<char>, k: int)
    requires
        0 <= k <= s.len(),
        forall|j: int| k <= j < s.len() ==> is_line_ws(s[j]),
        k > 0 ==> !is_line_ws(s[k - 1]),
    ensures
        spec_trim_back(s) == s.take(k),
    decreases s.len(),
{
    if s.len() == 0 {
        assert(s.take(0) =~= s);
    } else if k == s.len() {
        assert(!is_line_ws(s.last()));
        assert(s.take(k) =~= s);
    } else {
        assert(is_line_ws(s.last()));
        let s1 = s.drop_last();
        assert(forall|j: int| k <= j < s1.len() ==> s1[j] == s[j]);
        lemma_trim_back_take(s1, k);
        assert(s1.take(k) =~= s.take(k));
    }
}

/// Trims a segment `[start, end)` of `text`, returning the boundaries of
/// the trimmed content.
fn trim_bounds(text: &str, start: usize, end: usize) -> (r: (usize, usize))
    requires
        start <= end <= text@.len(),
    ensures
        start <= r.0 <= r.1 <= end,
        text@.subrange(r.0 as int, r.1 as int) == spec_trim(
            text@.subrange(start as int, end as int),
        ),
{
    let ghost seg = text@.subrange(start as int, end as int);
    let mut lo = start;
    while lo < end && is_ws_char(text.get_char(lo))
        invariant
            start <= lo <= end,
            end <= text@.len(),
            seg == text@.subrange(start as int, end as int),
            forall|j: int| start <= j < lo ==> is_line_ws(text@[j]),
        decreases end - lo,
    {
        lo = lo + 1;
    }
    let mut hi = end;
    while hi > lo && is_ws_char(text.get_char(hi - 1))
        invariant
            lo <= hi <= end,
            end <= text@.len(),
            forall|j: int| hi <= j < end ==> is_line_ws(text@[j]),
        decreases hi - lo,
    {
        hi = hi - 1;
    }
    proof {
        assert(forall|j: int| 0 <= j < seg.len() ==> seg[j] == text@[start + j]);
        lemma_trim_front_skip(seg, lo - start);
        let front = seg.skip(lo - start);
        assert(forall|j: int| 0 <= j < front.len() ==> front[j] == text@[lo + j]);
        lemma_trim_back_take(front, hi - lo);
        assert(front.take(hi - lo) =~= text@.subrange(lo as int, hi as int));
    }
    (lo, hi)
}

/// Splits the buffer on newlines, trims each line, and keeps the
/// non-empty results in order.
fn parse_lines(text: &String) -> (r: Vec<String>)
    ensures
        string_views(r@) == spec_parse_lines(text@),
{
    let s = text.as_str();
    let len = s.unicode_len();
    let mut acc: Vec<String> = Vec::new();
    let mut start: usize = 0;
    let mut i: usize = 0;
    proof {
        assert(text@.subrange(0, 0) =~= Seq::<char>::empty());
        assert(string_views(acc@) =~= Seq::<Seq<char>>::empty());
    }
    while i < len
        invariant
            start <= i <= len,
            len == text@.len(),
            s@ == text@,
            spec_parse_lines(text@) == spec_parse_rec(
                text@,
                i as int,
                text@.subrange(start as int, i as int),
                string_views(acc@),
            ),
        decreases len - i,
    {
        let c = s.get_char(i);
        if c == '\n' {
            let ghost cur = text@.subrange(start as int, i as int);
            let ghost acc0 = string_views(acc@);
            let (lo, hi) = trim_bounds(s, start, i);
            if lo < hi {
                let piece = s.substring_char(lo, hi);
                acc.push(piece.to_owned());
                proof {
                    assert(string_views(acc@) =~= acc0.push(text@.subrange(lo as int, hi as int)));
                    assert(spec_trim(cur).len() > 0);
                    assert(string_views(acc@) =~= acc0 + spec_kept_line(cur));
                }
            } else {
                proof {
                    assert(spec_trim(cur).len() == 0);
                    assert(string_views(acc@) =~= acc0 + spec_kept_line(cur));
                }
            }
            start = i + 1;
            proof {
                assert(text@.subrange(start as int, start as int) =~= Seq::<char>::empty());
            }
        } else {
            proof {
                assert(text@.subrange(start as int, i + 1) =~= text@.subrange(
                    start as int,
                    i as int,
                ).push(text@[i as int]));
            }
        }
        i = i + 1;
    }
    let ghost cur = text@.subrange(start as int, len as int);
    let ghost acc0 = string_views(acc@);
    let (lo, hi) = trim_bounds(s, start, len);
    if lo < hi {
        let piece = s.substring_char(lo, hi);
        acc.push(piece.to_owned());
        proof {
            assert(string_views(acc@) =~= acc0.push(text@.subrange(lo as int, hi as int)));
            assert(spec_trim(cur).len() > 0);
            assert(string_views(acc@) =~= acc0 + spec_kept_line(cur));
        }
    } else {
        proof {
            assert(spec_trim(cur).len() == 0);
            assert(string_views(acc@) =~= acc0 + spec_kept_line(cur));
        }
    }
    acc
}

} // verus!
