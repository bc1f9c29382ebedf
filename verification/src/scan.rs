//! Tracking windows: turning an accepted classification into a
//! registered thumbnail, and dropping a tracked window again.

use vstd::prelude::*;

use crate::classify::{ClientClassView, ClientWindowClass, CustomWindowRule, WindowSnapshot};
use crate::config::DaemonConfig;
use crate::cycle::CycleState;
use crate::geometry::{Dimensions, Position};
use crate::session::SessionState;
use crate::store::lookup_by_name;
use crate::thumbs::{
    spec_has_identity, spec_index_of_src, spec_tracks_src, ClientRegistry, Thumbnail,
    ThumbnailState,
};

verus! {

/// The identity a classification keys downstream state by.
pub open spec fn spec_identity_of_class(c: ClientClassView) -> Seq<char> {
    match c {
        ClientClassView::LoggedIn(n) => n,
        ClientClassView::LoggedOut => Seq::empty(),
        ClientClassView::CustomSource(a) => a,
    }
}

/// The first custom source rule bearing this alias.
pub open spec fn spec_rule_for_alias(rules: Seq<CustomWindowRule>, alias: Seq<char>) -> Option<
    CustomWindowRule,
>
    decreases rules.len(),
{
    if rules.len() == 0 {
        None
    } else if rules[0].alias@ == alias {
        Some(rules[0])
    } else {
        spec_rule_for_alias(rules.drop_first(), alias)
    }
}

fn rule_for_alias(rules: &Vec<CustomWindowRule>, alias: &str) -> (r: Option<(u16, u16)>)
    ensures
        match spec_rule_for_alias(rules@, alias@) {
            Some(rule) => r == Some((rule.default_width, rule.default_height)),
            None => r is None,
        },
{
    let ghost rs = rules@;
    proof {
        assert(rs.skip(0) =~= rs);
    }
    let mut i: usize = 0;
    while i < rules.len()
        invariant
            i <= rs.len(),
            rs == rules@,
            spec_rule_for_alias(rs, alias@) == spec_rule_for_alias(rs.skip(i as int), alias@),
        decreases rs.len() - i,
    {
        proof {
            assert(rs.skip(i as int)[0] == rs[i as int]);
        }
        if crate::text::str_eq(rules[i].alias.as_str(), alias) {
            return Some((rules[i].default_width, rules[i].default_height));
        }
        proof {
            assert(rs.skip(i as int).drop_first() =~= rs.skip(i + 1));
        }
        i = i + 1;
    }
    proof {
        assert(rs.skip(rs.len() as int).len() == 0);
    }
    None
}

/// Where a fresh thumbnail starts: its identity's persisted position,
/// inherited or not, and the origin as the last resort.
pub open spec fn spec_creation_position(
    config: &DaemonConfig,
    session: &SessionState,
    c: ClientClassView,
    window: u32,
) -> Position {
    let name = spec_identity_of_class(c);
    match c {
        ClientClassView::CustomSource(a) => match lookup_by_name(
            config.profile.custom_source_thumbnails.entries@,
            a,
        ) {
            Some(s) => s.spec_position(),
            None => Position { x: 0 as i16, y: 0 as i16 },
        },
        _ => match crate::session::spec_starting_position(
            name,
            window,
            config.profile.character_thumbnails.entries@,
            session.last_character_by_window.entries@,
            config.profile.thumbnail_preserve_position_on_swap,
        ) {
            Some(p) => p,
            None => Position { x: 0 as i16, y: 0 as i16 },
        },
    }
}

/// The size a fresh thumbnail gets: saved dimensions where they are set;
/// for a custom source the rule's default size; else the profile default
/// scaled to the screen.
pub open spec fn spec_creation_dims(
    config: &DaemonConfig,
    c: ClientClassView,
    screen_w: u16,
    screen_h: u16,
) -> Dimensions {
    match c {
        ClientClassView::CustomSource(a) => {
            let saved = lookup_by_name(config.profile.custom_source_thumbnails.entries@, a);
            if saved matches Some(s) && s.width > 0 && s.height > 0 {
                Dimensions { width: saved->0.width, height: saved->0.height }
            } else {
                match spec_rule_for_alias(config.profile.custom_windows@, a) {
                    Some(rule) => Dimensions {
                        width: rule.default_width,
                        height: rule.default_height,
                    },
                    None => {
                        let d = config.spec_default_thumbnail_size(screen_w, screen_h);
                        Dimensions { width: d.0, height: d.1 }
                    },
                }
            }
        },
        _ => config.spec_thumbnail_dimensions(
            lookup_by_name(
                config.profile.character_thumbnails.entries@,
                spec_identity_of_class(c),
            ),
            screen_w,
            screen_h,
        ),
    }
}

/// Registers a thumbnail for a freshly classified window.
///
/// A non-empty identity is recorded on the window for later position
/// inheritance; the logged-out sentinel never overwrites the record, so
/// a character leaving a window does not destroy what the next one may
/// inherit.  No thumbnail is registered when the window is already
/// tracked or when the (non-empty) identity is already carried by
/// another tracked window — which also limits a custom source to a
/// single instance.  With rendering disabled the window is still
/// registered for hotkey use, but its overlay stays unmapped.
pub fn create_tracked_window(
    reg: &mut ClientRegistry,
    session: &mut SessionState,
    config: &DaemonConfig,
    class: &ClientWindowClass,
    window: u32,
    overlay: u32,
    screen_w: u16,
    screen_h: u16,
    minimized: bool,
) -> (created: bool)
    requires
        old(reg).wf(),
    ensures
        final(reg).wf(),
        ({
            let name = spec_identity_of_class(class@);
            &&& (name.len() > 0 ==> final(session).last_character_by_window.spec_get(window)
                == Some(name) && forall|w2: u32|
                w2 != window ==> final(session).last_character_by_window.spec_get(w2) == old(
                    session,
                ).last_character_by_window.spec_get(w2))
            &&& (name.len() == 0 ==> final(session).last_character_by_window == old(
                session,
            ).last_character_by_window)
            &&& final(session).saved_positions == old(session).saved_positions
            &&& final(session).focus_loss_deadline == old(session).focus_loss_deadline
            &&& if spec_tracks_src(old(reg).thumbs@, window) || (name.len() > 0
                && spec_has_identity(old(reg).thumbs@, name)) {
                !created && final(reg).thumbs@ == old(reg).thumbs@
            } else {
                &&& created
                &&& final(reg).thumbs@.len() == old(reg).thumbs@.len() + 1
                &&& forall|j: int|
                    0 <= j < old(reg).thumbs@.len() ==> final(reg).thumbs@[j] == old(
                        reg,
                    ).thumbs@[j]
                &&& ({
                    let t = final(reg).thumbs@.last();
                    &&& t.src == window
                    &&& t.overlay == overlay
                    &&& t.character_name@ == name
                    &&& t.position == spec_creation_position(config, old(session), class@, window)
                    &&& t.dimensions == spec_creation_dims(config, class@, screen_w, screen_h)
                    &&& t.state == if minimized {
                        ThumbnailState::Minimized
                    } else if !config.enabled {
                        ThumbnailState::Hidden
                    } else {
                        ThumbnailState::Normal { focused: false }
                    }
                    &&& t.visible == config.enabled
                    &&& !t.input_state.dragging
                })
            }
        }),
{
    let name = class.identity();
    let is_custom = matches!(class, ClientWindowClass::CustomSource(_));
    let position: Position = if is_custom {
        match config.profile.custom_source_thumbnails.get(name.as_str()) {
            Some(s) => s.position(),
            None => Position { x: 0, y: 0 },
        }
    } else {
        let looked = session.get_position(
            name.as_str(),
            window,
            &config.profile.character_thumbnails,
            config.profile.thumbnail_preserve_position_on_swap,
        );
        match looked {
            Some(p) => p,
            None => Position { x: 0, y: 0 },
        }
    };
    if !name.as_str().is_empty() {
        session.update_last_character(window, name.as_str());
    }
    if reg.tracks(window) {
        return false;
    }
    if !name.as_str().is_empty() && reg.has_identity(name.as_str()) {
        return false;
    }
    let dimensions: Dimensions = if is_custom {
        let saved = config.profile.custom_source_thumbnails.get(name.as_str());
        let saved_ok = match saved {
            Some(s) => s.width > 0 && s.height > 0,
            None => false,
        };
        if saved_ok {
            match saved {
                Some(s) => Dimensions { width: s.width, height: s.height },
                None => Dimensions { width: 0, height: 0 },
            }
        } else {
            match rule_for_alias(&config.profile.custom_windows, name.as_str()) {
                Some((w, h)) => Dimensions { width: w, height: h },
                None => {
                    let d = config.default_thumbnail_size(screen_w, screen_h);
                    Dimensions { width: d.0, height: d.1 }
                },
            }
        }
    } else {
        let saved = config.profile.character_thumbnails.get(name.as_str());
        config.thumbnail_dimensions(&saved, screen_w, screen_h)
    };
    let t = Thumbnail {
        src: window,
        overlay,
        character_name: name,
        position,
        dimensions,
        state: if minimized {
            ThumbnailState::Minimized
        } else if !config.enabled {
            ThumbnailState::Hidden
        } else {
            ThumbnailState::Normal { focused: false }
        },
        visible: config.enabled,
        input_state: crate::thumbs::InputState::idle(),
    };
    reg.insert(t);
    true
}

/// Whether some tracked thumbnail carries this non-empty identity.
pub open spec fn spec_named_tracked(ts: Seq<Thumbnail>, k: Seq<char>) -> bool {
    k.len() > 0 && exists|j: int| 0 <= j < ts.len() && ts[j].character_name@ == k
}

/// The settings a thumbnail's current geometry persists as.
pub open spec fn spec_geometry_settings(t: Thumbnail) -> crate::config::CharacterSettings {
    crate::config::CharacterSettings {
        x: t.position.x,
        y: t.position.y,
        width: t.dimensions.width,
        height: t.dimensions.height,
        override_render_preview: None,
        exempt_from_minimize: false,
    }
}

/// After the initial scan, persists every named thumbnail's geometry in
/// the character settings and says whether the configuration layer
/// should be asked to save: exactly when automatic saving is configured
/// and anything is tracked.
pub fn record_initial_positions(config: &mut DaemonConfig, reg: &ClientRegistry) -> (save: bool)
    requires
        reg.wf(),
    ensures
        save == (old(config).profile.thumbnail_auto_save_position && reg.thumbs@.len() > 0),
        forall|j: int|
            0 <= j < reg.thumbs@.len() && (#[trigger] reg.thumbs@[j]).character_name@.len() > 0
                ==> final(config).profile.character_thumbnails.spec_get(
                reg.thumbs@[j].character_name@,
            ) == Some(spec_geometry_settings(reg.thumbs@[j])),
        forall|k: Seq<char>|
            !spec_named_tracked(reg.thumbs@, k)
                ==> final(config).profile.character_thumbnails.spec_get(k)
                == old(config).profile.character_thumbnails.spec_get(k),
        final(config).profile.custom_source_thumbnails
            == old(config).profile.custom_source_thumbnails,
        crate::dispatch::spec_config_same_but_stores(old(config), final(config)),
{
    let ghost ts = reg.thumbs@;
    let ghost cfg0 = *config;
    let mut i: usize = 0;
    while i < reg.thumbs.len()
        invariant
            i <= ts.len(),
            ts == reg.thumbs@,
            crate::thumbs::wf_thumbs(ts),
            cfg0 == *old(config),
            forall|j: int|
                0 <= j < i && (#[trigger] ts[j]).character_name@.len() > 0
                    ==> config.profile.character_thumbnails.spec_get(ts[j].character_name@)
                    == Some(spec_geometry_settings(ts[j])),
            forall|k: Seq<char>|
                !spec_named_tracked(ts.subrange(0, i as int), k)
                    ==> config.profile.character_thumbnails.spec_get(k)
                    == cfg0.profile.character_thumbnails.spec_get(k),
            config.profile.custom_source_thumbnails == cfg0.profile.custom_source_thumbnails,
            crate::dispatch::spec_config_same_but_stores(&cfg0, config),
        decreases ts.len() - i,
    {
        let t = &reg.thumbs[i];
        let ghost pre = *config;
        if !t.character_name.as_str().is_empty() {
            let settings = crate::config::CharacterSettings::new(
                t.position.x,
                t.position.y,
                t.dimensions.width,
                t.dimensions.height,
            );
            let name = t.character_name.clone();
            config.profile.character_thumbnails.insert(name, settings);
            proof {
                assert(config.profile.character_thumbnails.spec_get(ts[i as int].character_name@)
                    == Some(spec_geometry_settings(ts[i as int])));
                assert forall|j: int|
                    0 <= j < i && (#[trigger] ts[j]).character_name@.len() > 0 implies
                    config.profile.character_thumbnails.spec_get(ts[j].character_name@) == Some(
                    spec_geometry_settings(ts[j]),
                ) by {
                    assert(ts[j].character_name@ != ts[i as int].character_name@);
                }
            }
        }
        proof {
            assert forall|k: Seq<char>| !spec_named_tracked(ts.subrange(0, i + 1), k) implies
                config.profile.character_thumbnails.spec_get(k)
                == cfg0.profile.character_thumbnails.spec_get(k) by {
                assert forall|j: int| 0 <= j < i implies !(k.len() > 0 && ts.subrange(
                    0,
                    i as int,
                )[j].character_name@ == k) by {
                    if k.len() > 0 && ts.subrange(0, i as int)[j].character_name@ == k {
                        assert(ts.subrange(0, i + 1)[j].character_name@ == k);
                        assert(spec_named_tracked(ts.subrange(0, i + 1), k));
                    }
                }
                assert(!spec_named_tracked(ts.subrange(0, i as int), k));
                if k.len() > 0 && ts[i as int].character_name@ == k {
                    assert(ts.subrange(0, i + 1)[i as int].character_name@ == k);
                    assert(spec_named_tracked(ts.subrange(0, i + 1), k));
                }
                assert(pre.profile.character_thumbnails.spec_get(k)
                    == cfg0.profile.character_thumbnails.spec_get(k));
            }
        }
        i = i + 1;
    }
    proof {
        assert(ts.subrange(0, ts.len() as int) =~= ts);
        assert forall|k: Seq<char>| !spec_named_tracked(ts, k) implies
            config.profile.character_thumbnails.spec_get(k)
            == cfg0.profile.character_thumbnails.spec_get(k) by {
            assert forall|j: int| 0 <= j < ts.len() implies !(k.len() > 0 && ts.subrange(
                0,
                ts.len() as int,
            )[j].character_name@ == k) by {
                if k.len() > 0 && ts.subrange(0, ts.len() as int)[j].character_name@ == k {
                    assert(ts[j].character_name@ == k);
                    assert(spec_named_tracked(ts, k));
                }
            }
            assert(!spec_named_tracked(ts.subrange(0, ts.len() as int), k));
        }
    }
    config.profile.thumbnail_auto_save_position && reg.thumbs.len() > 0
}

/// Untracks a destroyed window and clears the cycle anchor if it pointed
/// there.
pub fn handle_destroyed_window(reg: &mut ClientRegistry, cyc: &mut CycleState, window: u32) -> (r:
    Option<Thumbnail>)
    requires
        old(reg).wf(),
    ensures
        final(reg).wf(),
        !spec_tracks_src(final(reg).thumbs@, window),
        match spec_index_of_src(old(reg).thumbs@, window) {
            Some(i) => r matches Some(t) && t == old(reg).thumbs@[i] && final(reg).thumbs@ == old(
                reg,
            ).thumbs@.remove(i),
            None => r is None && final(reg).thumbs@ == old(reg).thumbs@,
        },
        if old(cyc).current_window == Some(window) {
            final(cyc).current is None && final(cyc).current_window is None && final(cyc).skipped
                == old(cyc).skipped
        } else {
            *final(cyc) == *old(cyc)
        },
{
    let r = reg.remove_by_src(window);
    match cyc.get_current_window() {
        Some(w) => {
            if w == window {
                cyc.clear_current();
            }
        },
        None => {},
    }
    r
}

} // verus!
