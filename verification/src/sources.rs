//! The editor state behind the custom-sources tab: the rule being
//! composed, the detected-windows list it is filled from, and the rule
//! validity gate.

use vstd::prelude::*;

use crate::classify::CustomWindowRule;
use crate::config::Profile;
use crate::text::str_eq;

verus! {

/// One detected top-level window, as offered in the picker.
#[derive(Clone, Debug)]
pub struct WindowInfo {
    pub class: String,
    pub title: String,
}

/// Two picker entries showing the same class and title.
pub open spec fn spec_same_entry(a: WindowInfo, b: WindowInfo) -> bool {
    a.class@ == b.class@ && a.title@ == b.title@
}

/// The picker list with consecutive duplicates removed.
pub open spec fn spec_dedup(s: Seq<WindowInfo>) -> Seq<WindowInfo>
    decreases s.len(),
{
    if s.len() == 0 {
        Seq::empty()
    } else if s.len() == 1 {
        s
    } else {
        let rest = spec_dedup(s.drop_last());
        if spec_same_entry(s.last(), s[s.len() - 2]) {
            rest
        } else {
            rest.push(s.last())
        }
    }
}

/// Removes consecutive duplicates from the detected-windows list, as
/// the picker shows it.
pub fn dedup_windows(apps: Vec<WindowInfo>) -> (r: Vec<WindowInfo>)
    ensures
        r@ == spec_dedup(apps@),
{
    let mut out: Vec<WindowInfo> = Vec::new();
    let ghost full = apps@;
    proof {
        assert(full.subrange(0, 0) =~= Seq::<WindowInfo>::empty());
    }
    let mut i: usize = 0;
    while i < apps.len()
        invariant
            i <= full.len(),
            full == apps@,
            out@ == spec_dedup(full.subrange(0, i as int)),
        decreases full.len() - i,
    {
        let keep = if i == 0 {
            true
        } else {
            !(str_eq(apps[i].class.as_str(), apps[i - 1].class.as_str()) && str_eq(
                apps[i].title.as_str(),
                apps[i - 1].title.as_str(),
            ))
        };
        if keep {
            let entry = WindowInfo { class: apps[i].class.clone(), title: apps[i].title.clone() };
            out.push(entry);
        }
        proof {
            let next = full.subrange(0, i + 1);
            assert(next.drop_last() =~= full.subrange(0, i as int));
            assert(next.last() == full[i as int]);
            if i > 0 {
                assert(next[next.len() - 2] == full[i - 1]);
            }
            if keep {
                assert(out@.last().class@ == full[i as int].class@ && out@.last().title@ == full[
                    i as int
                ].title@);
                assert(out@ =~= spec_dedup(full.subrange(0, i as int)).push(out@.last()));
            }
        }
        i = i + 1;
    }
    proof {
        assert(full.subrange(0, full.len() as int) =~= full);
    }
    out
}

/// State for the custom-sources editor.
pub struct SourcesTab {
    /// The rule being composed.
    pub new_rule: CustomWindowRule,
    /// The detected windows offered by the picker, once fetched.
    pub running_apps: Option<Vec<WindowInfo>>,
    /// The picker selection.
    pub selected_app_idx: Option<usize>,
    /// The last fetch failure, shown to the user.
    pub error_msg: Option<String>,
}

impl Default for SourcesTab {
    fn default() -> (r: SourcesTab)
        ensures
            r.new_rule.alias@.len() == 0,
            r.new_rule.class_pattern is None,
            r.new_rule.title_pattern is None,
            r.new_rule.default_width == 320,
            r.new_rule.default_height == 180,
            !r.new_rule.limit,
            r.running_apps is None,
            r.selected_app_idx is None,
            r.error_msg is None,
    {
        SourcesTab {
            new_rule: CustomWindowRule {
                alias: String::new(),
                class_pattern: None,
                title_pattern: None,
                default_width: 320,
                default_height: 180,
                limit: false,
            },
            running_apps: None,
            selected_app_idx: None,
            error_msg: None,
        }
    }
}

impl SourcesTab {
    /// A rule can be added once it has a name and at least one pattern.
    pub fn rule_is_valid(&self) -> (r: bool)
        ensures
            r == (self.new_rule.alias@.len() > 0 && (self.new_rule.class_pattern is Some
                || self.new_rule.title_pattern is Some)),
    {
        !self.new_rule.alias.as_str().is_empty() && (self.new_rule.class_pattern.is_some()
            || self.new_rule.title_pattern.is_some())
    }

    /// Fills the form from a picked window: the class doubles as the
    /// alias and the class pattern, and no title pattern is set, since
    /// titles change under the application's feet.
    pub fn select_app(&mut self, idx: usize)
        ensures
            match old(self).running_apps {
                Some(apps) => {
                    if idx < apps@.len() {
                        &&& final(self).selected_app_idx == Some(idx)
                        &&& final(self).new_rule.alias@ == apps@[idx as int].class@
                        &&& final(self).new_rule.class_pattern matches Some(p) && p@ == apps@[
                            idx as int
                        ].class@
                        &&& final(self).new_rule.title_pattern is None
                    } else {
                        *final(self) == *old(self)
                    }
                },
                None => *final(self) == *old(self),
            },
    {
        let apps = match &self.running_apps {
            Some(apps) => apps,
            None => {
                return ;
            },
        };
        if idx >= apps.len() {
            return ;
        }
        let class = apps[idx].class.clone();
        self.selected_app_idx = Some(idx);
        self.new_rule.alias = class.clone();
        self.new_rule.class_pattern = Some(class);
        self.new_rule.title_pattern = None;
    }

    /// Adds the composed rule to the profile and resets the form;
    /// refused while the rule is not valid.
    pub fn add_rule_to_profile(&mut self, profile: &mut Profile) -> (added: bool)
        ensures
            if old(self).new_rule.alias@.len() > 0 && (old(self).new_rule.class_pattern is Some
                || old(self).new_rule.title_pattern is Some) {
                &&& added
                &&& final(profile).custom_windows@ == old(profile).custom_windows@.push(
                    old(self).new_rule,
                )
                &&& final(self).new_rule.alias@.len() == 0
                &&& final(self).new_rule.class_pattern is None
                &&& final(self).new_rule.title_pattern is None
                &&& !final(self).new_rule.limit
            } else {
                &&& !added
                &&& *final(self) == *old(self)
                &&& final(profile).custom_windows == old(profile).custom_windows
            },
            final(profile).character_thumbnails == old(profile).character_thumbnails,
            final(profile).custom_source_thumbnails == old(profile).custom_source_thumbnails,
            final(profile).hotkey_cycle_group == old(profile).hotkey_cycle_group,
            final(profile).character_hotkeys == old(profile).character_hotkeys,
    {
        if !self.rule_is_valid() {
            return false;
        }
        let width = self.new_rule.default_width;
        let height = self.new_rule.default_height;
        let mut rule = CustomWindowRule {
            alias: String::new(),
            class_pattern: None,
            title_pattern: None,
            default_width: width,
            default_height: height,
            limit: false,
        };
        core::mem::swap(&mut rule, &mut self.new_rule);
        profile.custom_windows.push(rule);
        true
    }
}

} // verus!
