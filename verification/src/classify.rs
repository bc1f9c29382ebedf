//! The window classification pipeline.
//!
//! Given a snapshot of what the display server and the process table say
//! about a top-level window — class, title, owning process — the
//! classifier decides whether the window is a trackable client and which
//! identity it carries.  Three gates guard the game-client path: the
//! window class must be a configured known class or the owning process
//! must carry a Wine/Proton marker, the process must not be our own, and
//! the title must carry the exact known prefix (whose stripped suffix is
//! the character name) or be the exact logged-out title.  Custom sources
//! are matched against the configured rules, first match first.

use vstd::prelude::*;

use crate::text::{
    seq_contains, seq_has_prefix, seq_has_suffix, str_contains, str_eq, str_has_prefix,
    str_has_suffix, str_tail_owned,
};

verus! {

/// The identity a tracked window carries.
#[derive(Clone, Debug, PartialEq, Eq)]
pub enum ClientWindowClass {
    /// A game client with a logged-in character of the given name.
    LoggedIn(String),
    /// A game client sitting at the login screen.
    LoggedOut,
    /// A window matched by a custom source rule, carrying the rule's alias.
    CustomSource(String),
}

/// The mathematical value of a classification result.
pub enum ClientClassView {
    LoggedIn(Seq<char>),
    LoggedOut,
    CustomSource(Seq<char>),
}

impl View for ClientWindowClass {
    type V = ClientClassView;

    open spec fn view(&self) -> ClientClassView {
        match self {
            ClientWindowClass::LoggedIn(n) => ClientClassView::LoggedIn(n@),
            ClientWindowClass::LoggedOut => ClientClassView::LoggedOut,
            ClientWindowClass::CustomSource(a) => ClientClassView::CustomSource(a@),
        }
    }
}

impl ClientWindowClass {
    /// The identity under which downstream state is keyed: the character
    /// name, the rule alias, or the empty logged-out sentinel.
    pub open spec fn spec_identity(self) -> Seq<char> {
        match self {
            ClientWindowClass::LoggedIn(n) => n@,
            ClientWindowClass::LoggedOut => Seq::empty(),
            ClientWindowClass::CustomSource(a) => a@,
        }
    }

    pub fn identity(&self) -> (r: String)
        ensures
            r@ == self.spec_identity(),
    {
        match self {
            ClientWindowClass::LoggedIn(n) => n.clone(),
            ClientWindowClass::LoggedOut => String::new(),
            ClientWindowClass::CustomSource(a) => a.clone(),
        }
    }
}

/// What the daemon observed about one top-level window: the window
/// properties, and what the process table says about the owning process
/// (absent where the property or file could not be read).
pub struct WindowSnapshot {
    pub class: Option<String>,
    pub title: Option<String>,
    pub pid: Option<u32>,
    pub exe_path: Option<String>,
    pub cmdline: Option<String>,
    pub environ: Option<String>,
}

pub struct SnapshotView {
    pub class: Option<Seq<char>>,
    pub title: Option<Seq<char>>,
    pub pid: Option<u32>,
    pub exe_path: Option<Seq<char>>,
    pub cmdline: Option<Seq<char>>,
    pub environ: Option<Seq<char>>,
}

pub open spec fn view_opt_string(s: Option<String>) -> Option<Seq<char>> {
    match s {
        Some(v) => Some(v@),
        None => None,
    }
}

impl View for WindowSnapshot {
    type V = SnapshotView;

    open spec fn view(&self) -> SnapshotView {
        SnapshotView {
            class: view_opt_string(self.class),
            title: view_opt_string(self.title),
            pid: self.pid,
            exe_path: view_opt_string(self.exe_path),
            cmdline: view_opt_string(self.cmdline),
            environ: view_opt_string(self.environ),
        }
    }
}

/// A configured custom source: patterns and defaults for a non-game
/// window worth a thumbnail.
#[derive(Clone, Debug, PartialEq, Eq)]
pub struct CustomWindowRule {
    pub alias: String,
    pub class_pattern: Option<String>,
    pub title_pattern: Option<String>,
    pub default_width: u16,
    pub default_height: u16,
    pub limit: bool,
}

pub struct RuleView {
    pub alias: Seq<char>,
    pub class_pattern: Option<Seq<char>>,
    pub title_pattern: Option<Seq<char>>,
    pub default_width: u16,
    pub default_height: u16,
    pub limit: bool,
}

impl View for CustomWindowRule {
    type V = RuleView;

    open spec fn view(&self) -> RuleView {
        RuleView {
            alias: self.alias@,
            class_pattern: view_opt_string(self.class_pattern),
            title_pattern: view_opt_string(self.title_pattern),
            default_width: self.default_width,
            default_height: self.default_height,
            limit: self.limit,
        }
    }
}

pub open spec fn string_views(ss: Seq<String>) -> Seq<Seq<char>> {
    ss.map_values(|s: String| s@)
}

pub open spec fn rule_views(rs: Seq<CustomWindowRule>) -> Seq<RuleView> {
    rs.map_values(|r: CustomWindowRule| r@)
}

/// The exact title prefix of a logged-in game client; the suffix after it
/// is the character name.
pub open spec fn title_prefix() -> Seq<char> {
    "EVE - "@
}

/// The exact title of a client sitting at the login screen.
pub open spec fn logged_out_title() -> Seq<char> {
    "EVE"@
}

/// Titles carrying this generic container marker are never accepted.
pub open spec fn container_marker() -> Seq<char> {
    "steam_app_"@
}

/// The title gate: a title with the known prefix and without the
/// container marker names a logged-in character; the exact logged-out
/// title names the logged-out client; everything else is rejected.
pub open spec fn spec_classify_title(t: Seq<char>) -> Option<ClientClassView> {
    if seq_has_prefix(t, title_prefix()) {
        if seq_contains(t.skip(title_prefix().len() as int), container_marker()) {
            None
        } else {
            Some(ClientClassView::LoggedIn(t.skip(title_prefix().len() as int)))
        }
    } else if t == logged_out_title() {
        Some(ClientClassView::LoggedOut)
    } else {
        None
    }
}

/// Classifies a window title alone.
pub fn is_window_eve(title: &str) -> (r: Option<ClientWindowClass>)
    ensures
        match r {
            Some(c) => spec_classify_title(title@) == Some(c@),
            None => spec_classify_title(title@) is None,
        },
{
    if str_has_prefix(title, "EVE - ") {
        let from = "EVE - ".unicode_len();
        let name = str_tail_owned(title, from);
        if str_contains(name.as_str(), "steam_app_") {
            None
        } else {
            Some(ClientWindowClass::LoggedIn(name))
        }
    } else if str_eq(title, "EVE") {
        Some(ClientWindowClass::LoggedOut)
    } else {
        None
    }
}

/// Whether the window class is one of the configured known client classes.
pub open spec fn spec_known_class(c: Seq<char>, known: Seq<Seq<char>>) -> bool {
    exists|i: int| 0 <= i < known.len() && known[i] == c
}

pub fn is_eve_window_class(class: &str, known_classes: &Vec<String>) -> (r: bool)
    ensures
        r == spec_known_class(class@, string_views(known_classes@)),
{
    let mut i: usize = 0;
    while i < known_classes.len()
        invariant
            i <= known_classes@.len(),
            forall|j: int| 0 <= j < i ==> string_views(known_classes@)[j] != class@,
        decreases known_classes@.len() - i,
    {
        if str_eq(known_classes[i].as_str(), class) {
            assert(string_views(known_classes@)[i as int] == class@);
            return true;
        }
        i = i + 1;
    }
    false
}

/// The Wine/Proton evidence in what the process table shows of the
/// owning process: a wine or proton component in the executable path, the
/// known client executable as the executable or on the command line, or a
/// Wine environment variable in the process environment.
pub open spec fn spec_wine_process(
    exe_path: Option<Seq<char>>,
    cmdline: Option<Seq<char>>,
    environ: Option<Seq<char>>,
) -> bool {
    ||| (exe_path matches Some(p) && (seq_contains(p, "wine"@) || seq_contains(p, "proton"@)
        || seq_has_suffix(p, "exefile.exe"@)))
    ||| (cmdline matches Some(c) && seq_contains(c, "exefile.exe"@))
    ||| (environ matches Some(e) && (seq_contains(e, "WINELOADER="@) || seq_contains(
        e,
        "WINEPREFIX="@,
    ) || seq_contains(e, "PROTON_VERSION="@)))
}

/// Decides from the process-table evidence whether a process runs under
/// Wine/Proton or is the known client executable.
pub fn is_wine_process(
    exe_path: &Option<String>,
    cmdline: &Option<String>,
    environ: &Option<String>,
) -> (r: bool)
    ensures
        r == spec_wine_process(
            view_opt_string(*exe_path),
            view_opt_string(*cmdline),
            view_opt_string(*environ),
        ),
{
    let by_exe = match exe_path {
        Some(p) => str_contains(p.as_str(), "wine") || str_contains(p.as_str(), "proton")
            || str_has_suffix(p.as_str(), "exefile.exe"),
        None => false,
    };
    if by_exe {
        return true;
    }
    let by_cmdline = match cmdline {
        Some(c) => str_contains(c.as_str(), "exefile.exe"),
        None => false,
    };
    if by_cmdline {
        return true;
    }
    match environ {
        Some(e) => str_contains(e.as_str(), "WINELOADER=") || str_contains(
            e.as_str(),
            "WINEPREFIX=",
        ) || str_contains(e.as_str(), "PROTON_VERSION="),
        None => false,
    }
}

/// The class and process gates, then the title gate.
///
/// A window of our own process is never tracked.  With a resolved foreign
/// process, Wine/Proton evidence admits the window to title verification;
/// a matching known class admits it as the container fallback even when
/// the process evidence fails.  Without a resolved process only the class
/// gate admits.
pub open spec fn spec_check_eve_window(
    s: SnapshotView,
    own_pid: u32,
    known: Seq<Seq<char>>,
) -> Option<ClientClassView> {
    let known_class = s.class matches Some(c) && spec_known_class(c, known);
    let title_class = match s.title {
        Some(t) => spec_classify_title(t),
        None => None,
    };
    match s.pid {
        Some(p) => {
            if p == own_pid {
                None
            } else if spec_wine_process(s.exe_path, s.cmdline, s.environ) || known_class {
                title_class
            } else {
                None
            }
        },
        None => {
            if known_class {
                title_class
            } else {
                None
            }
        },
    }
}

/// Runs the game-client gates over a window snapshot.
pub fn check_eve_window(snap: &WindowSnapshot, own_pid: u32, known_classes: &Vec<String>) -> (r:
    Option<ClientWindowClass>)
    ensures
        match r {
            Some(c) => spec_check_eve_window(snap@, own_pid, string_views(known_classes@)) == Some(
                c@,
            ),
            None => spec_check_eve_window(snap@, own_pid, string_views(known_classes@)) is None,
        },
{
    let known_class = match &snap.class {
        Some(c) => is_eve_window_class(c.as_str(), known_classes),
        None => false,
    };
    let admitted = match snap.pid {
        Some(p) => {
            if p == own_pid {
                return None;
            }
            is_wine_process(&snap.exe_path, &snap.cmdline, &snap.environ) || known_class
        },
        None => known_class,
    };
    if !admitted {
        return None;
    }
    match &snap.title {
        Some(t) => is_window_eve(t.as_str()),
        None => None,
    }
}

/// Whether one custom source rule matches the window: every given
/// pattern must occur in the corresponding property, and a rule without
/// any pattern matches nothing.
pub open spec fn spec_rule_matches(s: SnapshotView, r: RuleView) -> bool {
    &&& (r.class_pattern is Some || r.title_pattern is Some)
    &&& (r.class_pattern matches Some(p) ==> s.class matches Some(c) && seq_contains(c, p))
    &&& (r.title_pattern matches Some(p) ==> s.title matches Some(t) && seq_contains(t, p))
}

/// The alias of the first matching rule.
pub open spec fn spec_first_matching_alias(s: SnapshotView, rules: Seq<RuleView>) -> Option<
    Seq<char>,
>
    decreases rules.len(),
{
    if rules.len() == 0 {
        None
    } else if spec_rule_matches(s, rules[0]) {
        Some(rules[0].alias)
    } else {
        spec_first_matching_alias(s, rules.drop_first())
    }
}

fn rule_matches(snap: &WindowSnapshot, rule: &CustomWindowRule) -> (r: bool)
    ensures
        r == spec_rule_matches(snap@, rule@),
{
    let class_ok = match &rule.class_pattern {
        Some(p) => match &snap.class {
            Some(c) => str_contains(c.as_str(), p.as_str()),
            None => false,
        },
        None => true,
    };
    let title_ok = match &rule.title_pattern {
        Some(p) => match &snap.title {
            Some(t) => str_contains(t.as_str(), p.as_str()),
            None => false,
        },
        None => true,
    };
    let has_pattern = rule.class_pattern.is_some() || rule.title_pattern.is_some();
    has_pattern && class_ok && title_ok
}

/// The full classifier: the game-client gates first, then the custom
/// source rules in order.
pub open spec fn spec_classify_window(
    s: SnapshotView,
    own_pid: u32,
    known: Seq<Seq<char>>,
    rules: Seq<RuleView>,
) -> Option<ClientClassView> {
    match spec_check_eve_window(s, own_pid, known) {
        Some(c) => Some(c),
        None => match spec_first_matching_alias(s, rules) {
            Some(a) => Some(ClientClassView::CustomSource(a)),
            None => None,
        },
    }
}

/// Decides whether the window is a trackable client and which identity
/// it carries.  The decision is a function of the snapshot alone.
pub fn classify_window(
    snap: &WindowSnapshot,
    own_pid: u32,
    known_classes: &Vec<String>,
    rules: &Vec<CustomWindowRule>,
) -> (r: Option<ClientWindowClass>)
    ensures
        ({
            let s = spec_classify_window(
                snap@,
                own_pid,
                string_views(known_classes@),
                rule_views(rules@),
            );
            match r {
                Some(c) => s == Some(c@),
                None => s is None,
            }
        }),
{
    let eve = check_eve_window(snap, own_pid, known_classes);
    match eve {
        Some(c) => {
            return Some(c);
        },
        None => {},
    }
    assert(spec_check_eve_window(snap@, own_pid, string_views(known_classes@)) is None);
    let ghost rv = rule_views(rules@);
    proof {
        assert(rv.skip(0) =~= rv);
    }
    let mut i: usize = 0;
    while i < rules.len()
        invariant
            i <= rules@.len(),
            rv == rule_views(rules@),
            spec_check_eve_window(snap@, own_pid, string_views(known_classes@)) is None,
            spec_first_matching_alias(snap@, rv) == spec_first_matching_alias(
                snap@,
                rv.skip(i as int),
            ),
        decreases rules@.len() - i,
    {
        proof {
            assert(rv.skip(i as int).len() > 0);
            assert(rv.skip(i as int)[0] == rv[i as int]);
            assert(rv[i as int] == rules@[i as int]@);
        }
        if rule_matches(snap, &rules[i]) {
            proof {
                assert(spec_first_matching_alias(snap@, rv.skip(i as int)) == Some(
                    rv[i as int].alias,
                ));
            }
            return Some(ClientWindowClass::CustomSource(rules[i].alias.clone()));
        }
        proof {
            assert(rv.skip(i as int).drop_first() =~= rv.skip(i + 1));
        }
        i = i + 1;
    }
    proof {
        assert(rv.skip(rules@.len() as int).len() == 0);
    }
    None
}

/// The index of the first NUL byte, or the length when there is none.
pub open spec fn spec_nul_index(s: Seq<u8>) -> int
    decreases s.len(),
{
    if s.len() == 0 {
        0
    } else if s[0] == 0 {
        0
    } else {
        1 + spec_nul_index(s.drop_first())
    }
}

/// A NUL-free prefix of length `k`, NUL-terminated or exhausting the
/// bytes, places the first NUL at `k`.
proof fn lemma_nul_index_at(s: Seq<u8>, k: int)
    requires
        0 <= k <= s.len(),
        forall|j: int| 0 <= j < k ==> s[j] != 0,
        k < s.len() ==> s[k] == 0,
    ensures
        spec_nul_index(s) == k,
    decreases k,
{
    if k == 0 {
    } else {
        assert(s[0] != 0);
        let s1 = s.drop_first();
        assert(forall|j: int| 0 <= j < k - 1 ==> s1[j] == s[j + 1] && s1[j] != 0);
        assert(k - 1 < s1.len() ==> s1[k - 1] == s[k]);
        lemma_nul_index_at(s1, k - 1);
    }
}

/// The class field of a WM_CLASS property value: the second
/// NUL-separated field — the class name proper — when it is present and
/// non-empty, the first field — the instance name — otherwise.
pub open spec fn spec_wm_class_field(s: Seq<u8>) -> Seq<u8> {
    let n1 = spec_nul_index(s);
    if n1 == s.len() {
        s
    } else {
        let rest = s.skip(n1 + 1);
        let f1 = rest.take(spec_nul_index(rest));
        if f1.len() > 0 {
            f1
        } else {
            s.take(n1)
        }
    }
}

/// The position of the first NUL at or after `from`, or the length.
fn nul_index_from(bytes: &Vec<u8>, from: usize) -> (r: usize)
    requires
        from <= bytes@.len(),
    ensures
        from <= r <= bytes@.len(),
        r - from == spec_nul_index(bytes@.skip(from as int)),
{
    let len = bytes.len();
    let mut i = from;
    while i < len && bytes[i] != 0
        invariant
            from <= i <= len,
            len == bytes@.len(),
            forall|j: int| from <= j < i ==> bytes@[j] != 0,
        decreases len - i,
    {
        i = i + 1;
    }
    proof {
        let suffix = bytes@.skip(from as int);
        assert(forall|j: int| 0 <= j < i - from ==> suffix[j] == bytes@[from + j]);
        assert(i < len ==> suffix[i - from] == bytes@[i as int]);
        lemma_nul_index_at(suffix, i - from);
    }
    i
}

fn bytes_range(bytes: &Vec<u8>, a: usize, b: usize) -> (r: Vec<u8>)
    requires
        a <= b <= bytes@.len(),
    ensures
        r@ == bytes@.subrange(a as int, b as int),
{
    let mut r: Vec<u8> = Vec::new();
    let mut i = a;
    while i < b
        invariant
            a <= i <= b,
            b <= bytes@.len(),
            r@ =~= bytes@.subrange(a as int, i as int),
        decreases b - i,
    {
        r.push(bytes[i]);
        proof {
            assert(bytes@.subrange(a as int, i + 1) =~= bytes@.subrange(a as int, i as int).push(
                bytes@[i as int],
            ));
        }
        i = i + 1;
    }
    r
}

/// Selects the class field out of a raw WM_CLASS property value.
pub fn wm_class_field(value: &Vec<u8>) -> (r: Vec<u8>)
    ensures
        r@ == spec_wm_class_field(value@),
{
    proof {
        assert(value@.skip(0) =~= value@);
    }
    let len = value.len();
    let n1 = nul_index_from(value, 0);
    if n1 == len {
        let r = bytes_range(value, 0, len);
        proof {
            assert(value@.subrange(0, len as int) =~= value@);
        }
        return r;
    }
    let rest_start = n1 + 1;
    let n2 = nul_index_from(value, rest_start);
    proof {
        let rest = value@.skip(rest_start as int);
        assert(rest.take(spec_nul_index(rest)) =~= value@.subrange(rest_start as int, n2 as int));
        assert(value@.take(n1 as int) =~= value@.subrange(0, n1 as int));
    }
    if n2 > rest_start {
        bytes_range(value, rest_start, n2)
    } else {
        bytes_range(value, 0, n1)
    }
}

/// Classifier determinism: the outcome is a function of the snapshot and
/// the configuration, so two classifications of the same observed state
/// agree.
pub proof fn lemma_classifier_deterministic(
    s: SnapshotView,
    own_pid: u32,
    known: Seq<Seq<char>>,
    rules: Seq<RuleView>,
    r1: Option<ClientClassView>,
    r2: Option<ClientClassView>,
)
    requires
        r1 == spec_classify_window(s, own_pid, known, rules),
        r2 == spec_classify_window(s, own_pid, known, rules),
    ensures
        r1 == r2,
{
}

} // verus!
