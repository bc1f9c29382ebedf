//! Hotkey cycling: the current anchor identity, the user's skip list,
//! and the forward/backward walk through the configured cycle group.

use vstd::prelude::*;

use crate::classify::string_views;
use crate::text::str_eq;

verus! {

/// Membership of an identity in a list of identities.
pub open spec fn spec_name_in(names: Seq<Seq<char>>, x: Seq<char>) -> bool {
    exists|i: int| 0 <= i < names.len() && names[i] == x
}

/// The index of the first occurrence of `x` in `names`.
pub open spec fn spec_first_index(names: Seq<Seq<char>>, x: Seq<char>) -> Option<int>
    decreases names.len(),
{
    if names.len() == 0 {
        None
    } else if names[0] == x {
        Some(0)
    } else {
        match spec_first_index(names.drop_first(), x) {
            Some(i) => Some(i + 1),
            None => None,
        }
    }
}

/// One walk step through the group: the next index with wrap-around.
pub open spec fn spec_step(i: int, n: int, forward: bool) -> int
    recommends
        n > 0,
        0 <= i < n,
{
    if forward {
        if i + 1 == n {
            0
        } else {
            i + 1
        }
    } else {
        if i == 0 {
            n - 1
        } else {
            i - 1
        }
    }
}

/// The first non-skipped identity reached from `pos`, walking at most
/// `remaining` entries.
pub open spec fn spec_walk(
    group: Seq<Seq<char>>,
    skipped: Seq<Seq<char>>,
    pos: int,
    forward: bool,
    remaining: nat,
) -> Option<Seq<char>>
    recommends
        group.len() > 0,
        0 <= pos < group.len(),
    decreases remaining,
{
    if remaining == 0 {
        None
    } else if !spec_name_in(skipped, group[pos]) {
        Some(group[pos])
    } else {
        spec_walk(group, skipped, spec_step(pos, group.len() as int, forward), forward, (
        remaining - 1) as nat)
    }
}

/// Where the walk begins: just past the anchor's first occurrence in the
/// walking direction, or at the group's first entry in that direction
/// when the anchor is absent.
pub open spec fn spec_walk_start(group: Seq<Seq<char>>, anchor: Option<Seq<char>>, forward: bool) -> int
    recommends
        group.len() > 0,
{
    match anchor {
        Some(a) => match spec_first_index(group, a) {
            Some(i) => spec_step(i, group.len() as int, forward),
            None => if forward {
                0
            } else {
                group.len() - 1
            },
        },
        None => if forward {
            0
        } else {
            group.len() - 1
        },
    }
}

/// The identity a cycle hotkey selects: from the anchor, walk the group
/// in the given direction, wrapping at either end, and take the first
/// identity not on the skip list; nothing when the group is empty or
/// everything is skipped.
pub open spec fn spec_cycle_next(
    group: Seq<Seq<char>>,
    anchor: Option<Seq<char>>,
    skipped: Seq<Seq<char>>,
    forward: bool,
) -> Option<Seq<char>> {
    if group.len() == 0 {
        None
    } else {
        spec_walk(group, skipped, spec_walk_start(group, anchor, forward), forward, group.len())
    }
}

/// The walk only ever selects an entry of the group that is not on the
/// skip list.
proof fn lemma_walk_selects_unskipped(
    group: Seq<Seq<char>>,
    skipped: Seq<Seq<char>>,
    pos: int,
    forward: bool,
    remaining: nat,
)
    requires
        group.len() > 0,
        0 <= pos < group.len(),
    ensures
        spec_walk(group, skipped, pos, forward, remaining) matches Some(n) ==> spec_name_in(
            group,
            n,
        ) && !spec_name_in(skipped, n),
    decreases remaining,
{
    if remaining > 0 {
        if !spec_name_in(skipped, group[pos]) {
            assert(spec_name_in(group, group[pos]));
        } else {
            lemma_walk_selects_unskipped(
                group,
                skipped,
                spec_step(pos, group.len() as int, forward),
                forward,
                (remaining - 1) as nat,
            );
        }
    }
}

/// A cycle hotkey never lands on a skipped identity, and always lands
/// on an identity of the configured group.
pub proof fn lemma_cycle_next_respects_skip(
    group: Seq<Seq<char>>,
    anchor: Option<Seq<char>>,
    skipped: Seq<Seq<char>>,
    forward: bool,
)
    ensures
        spec_cycle_next(group, anchor, skipped, forward) matches Some(n) ==> spec_name_in(
            group,
            n,
        ) && !spec_name_in(skipped, n),
{
    if group.len() > 0 {
        lemma_walk_start_in_range(group, anchor, forward);
        lemma_walk_selects_unskipped(
            group,
            skipped,
            spec_walk_start(group, anchor, forward),
            forward,
            group.len(),
        );
    }
}

/// The walk's starting index stays on the group.
proof fn lemma_walk_start_in_range(group: Seq<Seq<char>>, anchor: Option<Seq<char>>, forward: bool)
    requires
        group.len() > 0,
    ensures
        0 <= spec_walk_start(group, anchor, forward) < group.len(),
{
    match anchor {
        Some(a) => {
            lemma_first_index_in_range(group, a);
        },
        None => {},
    }
}

/// A found first occurrence lies inside the sequence.
proof fn lemma_first_index_in_range(names: Seq<Seq<char>>, x: Seq<char>)
    ensures
        spec_first_index(names, x) matches Some(i) ==> 0 <= i < names.len(),
    decreases names.len(),
{
    if names.len() > 0 && names[0] != x {
        lemma_first_index_in_range(names.drop_first(), x);
    }
}

/// The cycle anchor, the window expected to take focus next, and the
/// skip list.
pub struct CycleState {
    pub current: Option<String>,
    pub current_window: Option<u32>,
    pub skipped: Vec<String>,
}

impl CycleState {
    pub fn new() -> (r: CycleState)
        ensures
            r.current is None,
            r.current_window is None,
            r.skipped@.len() == 0,
    {
        CycleState { current: None, current_window: None, skipped: Vec::new() }
    }

    /// Makes an identity the cycle anchor and records which window the
    /// daemon now expects to take focus.
    pub fn set_current(&mut self, name: &str, window: u32)
        ensures
            final(self).current matches Some(c) && c@ == name@,
            final(self).current_window == Some(window),
            final(self).skipped == old(self).skipped,
    {
        self.current = Some(name.to_owned());
        self.current_window = Some(window);
    }

    /// Clears the anchor, e.g. when its window disappears.
    pub fn clear_current(&mut self)
        ensures
            final(self).current is None,
            final(self).current_window is None,
            final(self).skipped == old(self).skipped,
    {
        self.current = None;
        self.current_window = None;
    }

    pub fn get_current_window(&self) -> (r: Option<u32>)
        ensures
            r == self.current_window,
    {
        self.current_window
    }

    /// Whether the user has put this identity on the skip list.
    pub fn is_skipped(&self, name: &str) -> (r: bool)
        ensures
            r == spec_name_in(string_views(self.skipped@), name@),
    {
        let ghost views = string_views(self.skipped@);
        let mut i: usize = 0;
        while i < self.skipped.len()
            invariant
                i <= views.len(),
                views == string_views(self.skipped@),
                forall|j: int| 0 <= j < i ==> views[j] != name@,
            decreases views.len() - i,
        {
            if str_eq(self.skipped[i].as_str(), name) {
                assert(views[i as int] == name@);
                return true;
            }
            i = i + 1;
        }
        false
    }

    /// Adds or removes an identity from the skip list; afterwards the
    /// identity is skipped exactly when it was not before.
    pub fn toggle_skip(&mut self, name: &str)
        ensures
            spec_name_in(string_views(final(self).skipped@), name@) == !spec_name_in(
                string_views(old(self).skipped@),
                name@,
            ),
            final(self).current == old(self).current,
            final(self).current_window == old(self).current_window,
            forall|x: Seq<char>|
                x != name@ ==> spec_name_in(string_views(final(self).skipped@), x) == spec_name_in(
                    string_views(old(self).skipped@),
                    x,
                ),
    {
        let ghost orig = string_views(self.skipped@);
        if self.is_skipped(name) {
            let mut kept: Vec<String> = Vec::new();
            let mut i: usize = 0;
            while i < self.skipped.len()
                invariant
                    i <= self.skipped@.len(),
                    orig == string_views(self.skipped@),
                    self.skipped == old(self).skipped,
                    forall|j: int|
                        0 <= j < kept@.len() ==> kept@[j]@ != name@ && spec_name_in(
                            orig,
                            kept@[j]@,
                        ),
                    forall|x: Seq<char>|
                        x != name@ && spec_name_in(orig.subrange(0, i as int), x) ==> spec_name_in(
                            string_views(kept@),
                            x,
                        ),
                decreases self.skipped@.len() - i,
            {
                let ghost pre = orig.subrange(0, i as int);
                let ghost kept_pre = kept@;
                proof {
                    assert(orig[i as int] == self.skipped@[i as int]@);
                }
                let keep = !str_eq(self.skipped[i].as_str(), name);
                if keep {
                    let entry = self.skipped[i].clone();
                    kept.push(entry);
                }
                proof {
                    if keep {
                        assert(string_views(kept@) =~= string_views(kept_pre).push(
                            orig[i as int],
                        ));
                        assert forall|j: int| 0 <= j < kept@.len() implies kept@[j]@ != name@
                            && spec_name_in(orig, kept@[j]@) by {
                            if j < kept_pre.len() {
                                assert(kept@[j] == kept_pre[j]);
                            } else {
                                assert(kept@[j]@ == orig[i as int]);
                                assert(spec_name_in(orig, orig[i as int]));
                            }
                        }
                    } else {
                        assert(orig[i as int] == name@);
                    }
                    assert forall|x: Seq<char>|
                        x != name@ && spec_name_in(orig.subrange(0, i + 1), x) implies spec_name_in(
                        string_views(kept@),
                        x,
                    ) by {
                        let w = choose|w: int|
                            0 <= w < orig.subrange(0, i + 1).len() && #[trigger] orig.subrange(
                                0,
                                i + 1,
                            )[w] == x;
                        if w < i {
                            assert(pre[w] == x);
                            assert(spec_name_in(orig.subrange(0, i as int), x));
                            assert(spec_name_in(string_views(kept_pre), x));
                            let j = choose|j: int|
                                0 <= j < string_views(kept_pre).len() && string_views(
                                    kept_pre,
                                )[j] == x;
                            if keep {
                                assert(string_views(kept@)[j] == x);
                            } else {
                                assert(kept@ == kept_pre);
                            }
                            assert(spec_name_in(string_views(kept@), x));
                        } else {
                            assert(orig[i as int] == x);
                            assert(keep);
                            assert(string_views(kept@)[kept_pre.len() as int] == x);
                            assert(spec_name_in(string_views(kept@), x));
                        }
                    }
                }
                i = i + 1;
            }
            proof {
                assert(orig.subrange(0, orig.len() as int) =~= orig);
            }
            self.skipped = kept;
            proof {
                assert forall|x: Seq<char>| spec_name_in(string_views(self.skipped@), x)
                    implies x != name@ && spec_name_in(orig, x) by {
                    let j = choose|j: int|
                        0 <= j < string_views(self.skipped@).len() && string_views(
                            self.skipped@,
                        )[j] == x;
                    assert(self.skipped@[j]@ == x);
                }
            }
        } else {
            let ghost pre = self.skipped@;
            self.skipped.push(name.to_owned());
            proof {
                assert(string_views(self.skipped@) =~= string_views(pre).push(name@));
                assert(string_views(self.skipped@).last() == name@);
                assert(spec_name_in(string_views(self.skipped@), name@));
                assert forall|x: Seq<char>|
                    x != name@ implies spec_name_in(string_views(self.skipped@), x)
                    == spec_name_in(string_views(pre), x) by {
                    if spec_name_in(string_views(self.skipped@), x) {
                        let j = choose|j: int|
                            0 <= j < string_views(self.skipped@).len() && string_views(
                                self.skipped@,
                            )[j] == x;
                        assert(j < pre.len());
                        assert(string_views(pre)[j] == x);
                    }
                    if spec_name_in(string_views(pre), x) {
                        let j = choose|j: int|
                            0 <= j < string_views(pre).len() && string_views(pre)[j] == x;
                        assert(string_views(self.skipped@)[j] == x);
                    }
                }
            }
        }
    }

    /// Selects the identity a forward or backward cycle hotkey lands on.
    pub fn cycle_next(&self, group: &Vec<String>, forward: bool) -> (r: Option<String>)
        ensures
            ({
                let anchor = match self.current {
                    Some(c) => Some(c@),
                    None => None,
                };
                let s = spec_cycle_next(
                    string_views(group@),
                    anchor,
                    string_views(self.skipped@),
                    forward,
                );
                match r {
                    Some(name) => s == Some(name@),
                    None => s is None,
                }
            }),
    {
        cycle_select(group, &self.current, &self.skipped, forward)
    }
}

/// Whether one of the listed identities bears this name.
fn name_listed(names: &Vec<String>, x: &str) -> (r: bool)
    ensures
        r == spec_name_in(string_views(names@), x@),
{
    let ghost views = string_views(names@);
    let mut i: usize = 0;
    while i < names.len()
        invariant
            i <= views.len(),
            views == string_views(names@),
            forall|j: int| 0 <= j < i ==> views[j] != x@,
        decreases views.len() - i,
    {
        if str_eq(names[i].as_str(), x) {
            assert(views[i as int] == x@);
            return true;
        }
        i = i + 1;
    }
    false
}

/// The walk itself, against an explicit skip list: from the anchor, the
/// first entry of the group not on the list, wrapping at either end.
pub fn cycle_select(
    group: &Vec<String>,
    anchor: &Option<String>,
    skipped: &Vec<String>,
    forward: bool,
) -> (r: Option<String>)
    ensures
        ({
            let a = match anchor {
                Some(c) => Some(c@),
                None => None,
            };
            let s = spec_cycle_next(string_views(group@), a, string_views(skipped@), forward);
            match r {
                Some(name) => s == Some(name@),
                None => s is None,
            }
        }),
{
    let n = group.len();
    if n == 0 {
        return None;
    }
    let ghost gv = string_views(group@);
    let ghost a: Option<Seq<char>> = match anchor {
        Some(c) => Some(c@),
        None => None,
    };
    let start: usize = match anchor {
        Some(entry) => match first_index(group, entry.as_str()) {
            Some(i) => step_exec(i, n, forward),
            None => if forward {
                0
            } else {
                n - 1
            },
        },
        None => if forward {
            0
        } else {
            n - 1
        },
    };
    assert(start as int == spec_walk_start(gv, a, forward));
    let mut pos: usize = start;
    let mut remaining: usize = n;
    while remaining > 0
        invariant
            n == gv.len(),
            n == group@.len(),
            n > 0,
            gv == string_views(group@),
            a == (match anchor {
                Some(c) => Some(c@),
                None => None,
            }),
            start as int == spec_walk_start(gv, a, forward),
            0 <= pos < n,
            remaining <= n,
            spec_walk(gv, string_views(skipped@), start as int, forward, n as nat) == spec_walk(
                gv,
                string_views(skipped@),
                pos as int,
                forward,
                remaining as nat,
            ),
        decreases remaining,
    {
        if !name_listed(skipped, group[pos].as_str()) {
            assert(gv[pos as int] == group@[pos as int]@);
            return Some(group[pos].clone());
        }
        assert(gv[pos as int] == group@[pos as int]@);
        pos = step_exec(pos, n, forward);
        remaining = remaining - 1;
    }
    None
}

fn step_exec(i: usize, n: usize, forward: bool) -> (r: usize)
    requires
        n > 0,
        i < n,
    ensures
        r < n,
        r as int == spec_step(i as int, n as int, forward),
{
    if forward {
        if i + 1 == n {
            0
        } else {
            i + 1
        }
    } else {
        if i == 0 {
            n - 1
        } else {
            i - 1
        }
    }
}

/// The first index bearing `x`, scanning front to back.
fn first_index(names: &Vec<String>, x: &str) -> (r: Option<usize>)
    ensures
        ({
            let s = spec_first_index(string_views(names@), x@);
            match r {
                Some(i) => i < names@.len() && s == Some(i as int),
                None => s is None,
            }
        }),
{
    let ghost nv = string_views(names@);
    proof {
        assert(nv.skip(0) =~= nv);
    }
    let mut i: usize = 0;
    while i < names.len()
        invariant
            i <= nv.len(),
            nv == string_views(names@),
            ({
                let s = spec_first_index(nv, x@);
                let t = spec_first_index(nv.skip(i as int), x@);
                match t {
                    Some(j) => s == Some(j + i),
                    None => s is None,
                }
            }),
        decreases nv.len() - i,
    {
        proof {
            assert(nv.skip(i as int)[0] == nv[i as int]);
        }
        if str_eq(names[i].as_str(), x) {
            return Some(i);
        }
        proof {
            assert(nv.skip(i as int).drop_first() =~= nv.skip(i + 1));
        }
        i = i + 1;
    }
    proof {
        assert(nv.skip(nv.len() as int).len() == 0);
    }
    None
}

} // verus!
