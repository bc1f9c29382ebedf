//! The window-manager client messages the daemon sends: activation,
//! minimize and restore, planned as plain data for the shell to emit.
//!
//! Minimize and restore each send two messages for compatibility across
//! window managers: the EWMH state change first, then the ICCCM state
//! change.

use vstd::prelude::*;

verus! {

/// The EWMH source indication for a pager/taskbar-initiated request.
pub const ACTIVE_WINDOW_SOURCE_PAGER: u32 = 2;

/// The EWMH action value adding a state atom.
pub const NET_WM_STATE_ADD: u32 = 1;

/// The EWMH action value removing a state atom.
pub const NET_WM_STATE_REMOVE: u32 = 0;

/// The ICCCM iconic window state.
pub const ICONIC_STATE: u32 = 3;

/// The ICCCM normal window state.
pub const NORMAL_STATE: u32 = 1;

/// The atoms the message plans name.
#[derive(Clone, Copy, Debug, PartialEq, Eq, Structural)]
pub struct WmAtoms {
    pub net_active_window: u32,
    pub net_wm_state: u32,
    pub net_wm_state_hidden: u32,
    pub wm_change_state: u32,
}

/// One 32-bit-format client message aimed at a window.
#[derive(Clone, Copy, Debug, PartialEq, Eq, Structural)]
pub struct WmMessage {
    pub window: u32,
    pub msg_type: u32,
    pub d0: u32,
    pub d1: u32,
    pub d2: u32,
    pub d3: u32,
    pub d4: u32,
}

/// The active-window request: source indication pager and the
/// timestamp of the input event that provoked it.
pub fn plan_activate(atoms: &WmAtoms, window: u32, timestamp: u32) -> (r: WmMessage)
    ensures
        r == (WmMessage {
            window,
            msg_type: atoms.net_active_window,
            d0: ACTIVE_WINDOW_SOURCE_PAGER,
            d1: timestamp,
            d2: 0,
            d3: 0,
            d4: 0,
        }),
{
    WmMessage {
        window,
        msg_type: atoms.net_active_window,
        d0: ACTIVE_WINDOW_SOURCE_PAGER,
        d1: timestamp,
        d2: 0,
        d3: 0,
        d4: 0,
    }
}

/// The minimize request: the EWMH add-hidden message first, then the
/// ICCCM iconify message, in that order.
pub fn plan_minimize(atoms: &WmAtoms, window: u32) -> (r: Vec<WmMessage>)
    ensures
        r@.len() == 2,
        r@[0] == (WmMessage {
            window,
            msg_type: atoms.net_wm_state,
            d0: NET_WM_STATE_ADD,
            d1: atoms.net_wm_state_hidden,
            d2: 0,
            d3: ACTIVE_WINDOW_SOURCE_PAGER,
            d4: 0,
        }),
        r@[1] == (WmMessage {
            window,
            msg_type: atoms.wm_change_state,
            d0: ICONIC_STATE,
            d1: 0,
            d2: 0,
            d3: 0,
            d4: 0,
        }),
{
    let mut r: Vec<WmMessage> = Vec::new();
    r.push(
        WmMessage {
            window,
            msg_type: atoms.net_wm_state,
            d0: NET_WM_STATE_ADD,
            d1: atoms.net_wm_state_hidden,
            d2: 0,
            d3: ACTIVE_WINDOW_SOURCE_PAGER,
            d4: 0,
        },
    );
    r.push(
        WmMessage {
            window,
            msg_type: atoms.wm_change_state,
            d0: ICONIC_STATE,
            d1: 0,
            d2: 0,
            d3: 0,
            d4: 0,
        },
    );
    r
}

/// The restore request: the EWMH remove-hidden message first, then the
/// ICCCM normal-state message, in that order.
pub fn plan_unminimize(atoms: &WmAtoms, window: u32) -> (r: Vec<WmMessage>)
    ensures
        r@.len() == 2,
        r@[0] == (WmMessage {
            window,
            msg_type: atoms.net_wm_state,
            d0: NET_WM_STATE_REMOVE,
            d1: atoms.net_wm_state_hidden,
            d2: 0,
            d3: ACTIVE_WINDOW_SOURCE_PAGER,
            d4: 0,
        }),
        r@[1] == (WmMessage {
            window,
            msg_type: atoms.wm_change_state,
            d0: NORMAL_STATE,
            d1: 0,
            d2: 0,
            d3: 0,
            d4: 0,
        }),
{
    let mut r: Vec<WmMessage> = Vec::new();
    r.push(
        WmMessage {
            window,
            msg_type: atoms.net_wm_state,
            d0: NET_WM_STATE_REMOVE,
            d1: atoms.net_wm_state_hidden,
            d2: 0,
            d3: ACTIVE_WINDOW_SOURCE_PAGER,
            d4: 0,
        },
    );
    r.push(
        WmMessage {
            window,
            msg_type: atoms.wm_change_state,
            d0: NORMAL_STATE,
            d1: 0,
            d2: 0,
            d3: 0,
            d4: 0,
        },
    );
    r
}

/// Whether the window-manager state properties show an iconified
/// window: the EWMH hidden atom among the state atoms, or the ICCCM
/// iconic value as the fallback.
pub open spec fn spec_minimized_state(
    state_atoms: Seq<u32>,
    hidden_atom: u32,
    wm_state_value: Option<u32>,
) -> bool {
    state_atoms.contains(hidden_atom) || wm_state_value == Some(ICONIC_STATE)
}

/// Decides from the two state properties whether a window is iconified.
pub fn is_minimized_state(
    state_atoms: &Vec<u32>,
    hidden_atom: u32,
    wm_state_value: Option<u32>,
) -> (r: bool)
    ensures
        r == spec_minimized_state(state_atoms@, hidden_atom, wm_state_value),
{
    let mut i: usize = 0;
    while i < state_atoms.len()
        invariant
            i <= state_atoms@.len(),
            forall|j: int| 0 <= j < i ==> state_atoms@[j] != hidden_atom,
        decreases state_atoms@.len() - i,
    {
        if state_atoms[i] == hidden_atom {
            assert(state_atoms@[i as int] == hidden_atom);
            return true;
        }
        i = i + 1;
    }
    match wm_state_value {
        Some(v) => v == ICONIC_STATE,
        None => false,
    }
}

/// Reads the 32-bit words of an X11 property value, the form window
/// lists and atom lists arrive in.  The bytes are taken little-endian,
/// the byte order the connection negotiates on the platforms this
/// daemon targets.
pub fn property_words(bytes: &Vec<u8>) -> (r: Vec<u32>)
    ensures
        r@.len() == bytes@.len() / 4,
        forall|i: int|
            0 <= i < r@.len() ==> r@[i] == bytes@[4 * i] + bytes@[4 * i + 1] * 0x100 + bytes@[4 * i
                + 2] * 0x10000 + bytes@[4 * i + 3] * 0x1000000,
{
    let blen = bytes.len();
    let n = blen / 4;
    let mut r: Vec<u32> = Vec::new();
    let mut i: usize = 0;
    while i < n
        invariant
            i <= n,
            blen == bytes@.len(),
            n == blen / 4,
            r@.len() == i,
            forall|j: int|
                0 <= j < i ==> r@[j] == bytes@[4 * j] + bytes@[4 * j + 1] * 0x100 + bytes@[4 * j
                    + 2] * 0x10000 + bytes@[4 * j + 3] * 0x1000000,
        decreases n - i,
    {
        proof {
            assert(4 * i + 3 < blen) by (nonlinear_arith)
                requires
                    i < n,
                    n == blen / 4,
            ;
        }
        let b0 = bytes[4 * i] as u32;
        let b1 = bytes[4 * i + 1] as u32;
        let b2 = bytes[4 * i + 2] as u32;
        let b3 = bytes[4 * i + 3] as u32;
        let w: u32 = b0 + b1 * 0x100 + b2 * 0x10000 + b3 * 0x1000000;
        r.push(w);
        i = i + 1;
    }
    r
}

} // verus!
