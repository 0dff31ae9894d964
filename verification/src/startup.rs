//! What the client settles before its window opens.

use vstd::prelude::*;

use crate::client_config::{PresentModeConfig, WindowModeConfig};
use crate::text::concat;

verus! {

/// The largest client id that scripts can hold: they count in signed 64 bits.
pub const LUA_SAFE_CLIENT_ID_MAX: u64 = 0x7fff_ffff_ffff_ffff;

/// Where the client stands: in the lobby, or in a game.
#[derive(Clone, Copy, PartialEq, Eq, Structural, Debug)]
pub enum AppState {
    Lobby,
    InGame,
}

impl Default for AppState {
    fn default() -> (r: Self)
        ensures
            r == AppState::Lobby,
    {
        AppState::Lobby
    }
}

/// The client id for an id of any size: one that scripts can hold stays, of a
/// larger one the top bit goes, and none becomes 0.
pub open spec fn clamped_id(id: u64) -> u64 {
    if id <= LUA_SAFE_CLIENT_ID_MAX {
        id
    } else if id == LUA_SAFE_CLIENT_ID_MAX + 1 {
        1
    } else {
        (id - LUA_SAFE_CLIENT_ID_MAX - 1) as u64
    }
}

pub fn clamp_client_id(id: u64) -> (r: u64)
    ensures
        r == clamped_id(id),
{
    if id <= LUA_SAFE_CLIENT_ID_MAX {
        return id;
    }
    let clamped: u64 = id & LUA_SAFE_CLIENT_ID_MAX;
    proof {
        assert(id > 0x7fff_ffff_ffff_ffff ==> (id & 0x7fff_ffff_ffff_ffff) == id
            - 0x8000_0000_0000_0000) by (bit_vector);
    }
    if clamped == 0 {
        1
    } else {
        clamped
    }
}

/// A fresh client id from the clock, in nanoseconds, and the process number.
pub fn fresh_client_id(nanos: u64, pid: u32) -> (r: u64)
    ensures
        r == clamped_id(
            ((((nanos as nat * 1_000_003) % 0x1_0000_0000_0000_0000) + pid as nat)
                % 0x1_0000_0000_0000_0000) as u64,
        ),
{
    let raw: u64 = nanos.wrapping_mul(1_000_003).wrapping_add(pid as u64);
    clamp_client_id(raw)
}

/// The client id to connect with: the saved one, or a fresh one where none is
/// saved.
pub fn starting_client_id(saved: u64, nanos: u64, pid: u32) -> (r: u64)
    ensures
        saved != 0 ==> r == clamped_id(saved),
        saved == 0 ==> r == clamped_id(
            ((((nanos as nat * 1_000_003) % 0x1_0000_0000_0000_0000) + pid as nat)
                % 0x1_0000_0000_0000_0000) as u64,
        ),
{
    let raw: u64 = if saved == 0 {
        fresh_client_id(nanos, pid)
    } else {
        saved
    };
    proof {
        law_clamp_settles(saved);
        if saved == 0 {
            law_clamp_settles(
                ((((nanos as nat * 1_000_003) % 0x1_0000_0000_0000_0000) + pid as nat)
                    % 0x1_0000_0000_0000_0000) as u64,
            );
        }
    }
    clamp_client_id(raw)
}

/// A clamped id can be held by scripts, is 0 only where the id was, and stays
/// as it is when clamped again.
pub proof fn law_clamp_settles(id: u64)
    ensures
        clamped_id(id) <= LUA_SAFE_CLIENT_ID_MAX,
        clamped_id(id) == 0 <==> id == 0,
        clamped_id(clamped_id(id)) == clamped_id(id),
{
}

/// Which monitor a fullscreen window takes.
#[derive(Clone, Copy, PartialEq, Eq, Structural, Debug)]
pub enum MonitorSelection {
    Primary,
    Index(u32),
}

#[derive(Clone, Copy, PartialEq, Eq, Structural, Debug)]
pub enum WindowMode {
    Windowed,
    BorderlessFullscreen(MonitorSelection),
    /// With the video mode that the monitor shows.
    Fullscreen(MonitorSelection),
}

/// The mode of the window; monitor 0 is the primary one.
pub fn window_mode(mode: WindowModeConfig, monitor_index: u32) -> (r: WindowMode)
    ensures
        ({
            let monitor = if monitor_index == 0 {
                MonitorSelection::Primary
            } else {
                MonitorSelection::Index(monitor_index)
            };
            r == match mode {
                WindowModeConfig::Windowed => WindowMode::Windowed,
                WindowModeConfig::BorderlessFullscreen => WindowMode::BorderlessFullscreen(monitor),
                WindowModeConfig::Fullscreen => WindowMode::Fullscreen(monitor),
            }
        }),
{
    let monitor = if monitor_index == 0 {
        MonitorSelection::Primary
    } else {
        MonitorSelection::Index(monitor_index)
    };
    match mode {
        WindowModeConfig::Windowed => WindowMode::Windowed,
        WindowModeConfig::BorderlessFullscreen => WindowMode::BorderlessFullscreen(monitor),
        WindowModeConfig::Fullscreen => WindowMode::Fullscreen(monitor),
    }
}

#[derive(Clone, Copy, PartialEq, Eq, Structural, Debug)]
pub enum PresentMode {
    AutoVsync,
    Fifo,
    Mailbox,
    Immediate,
}

pub fn present_mode(p: PresentModeConfig) -> (r: PresentMode)
    ensures
        r == match p {
            PresentModeConfig::Auto => PresentMode::AutoVsync,
            PresentModeConfig::Fifo => PresentMode::Fifo,
            PresentModeConfig::Mailbox => PresentMode::Mailbox,
            PresentModeConfig::Immediate => PresentMode::Immediate,
        },
{
    match p {
        PresentModeConfig::Auto => PresentMode::AutoVsync,
        PresentModeConfig::Fifo => PresentMode::Fifo,
        PresentModeConfig::Mailbox => PresentMode::Mailbox,
        PresentModeConfig::Immediate => PresentMode::Immediate,
    }
}

/// How the frame rate is held.
#[derive(Clone, Copy, PartialEq, Eq, Structural, Debug)]
pub enum FrameLimit {
    /// By the monitor alone.
    Auto,
    /// At this many frames per second.
    Cap(u32),
}

/// The limit for a configured cap, where 0 leaves it to the screen.
pub fn frame_limit(fps_cap: u32) -> (r: FrameLimit)
    ensures
        r == if fps_cap > 0 {
            FrameLimit::Cap(fps_cap)
        } else {
            FrameLimit::Auto
        },
{
    if fps_cap > 0 {
        FrameLimit::Cap(fps_cap)
    } else {
        FrameLimit::Auto
    }
}

/// What is written of a panic: where it happened, what it says and how the
/// program came there.
pub fn panic_report(
    thread: &str,
    location: Option<&str>,
    message: &str,
    backtrace: &str,
) -> (r: String)
    ensures
        r@ == "[host_client] PANIC thread='"@ + thread@ + "' location="@ + (match location {
            Some(place) => place@,
            None => "<unknown>"@,
        }) + "\nmessage: "@ + message@ + "\nbacktrace:\n"@ + backtrace@ + "\n"@,
{
    let mut r = concat("[host_client] PANIC thread='", thread);
    r.append("' location=");
    match location {
        Some(place) => r.append(place),
        None => r.append("<unknown>"),
    }
    r.append("\nmessage: ");
    r.append(message);
    r.append("\nbacktrace:\n");
    r.append(backtrace);
    r.append("\n");
    r
}

/// A client id fits the numbers of scripts: a small one stays, and of a large one
/// the lower sixty-three bits are left, one in place of none.
pub proof fn law_client_id(id: u64, r: u64)
    requires
        call_ensures(clamp_client_id, (id,), r),
    ensures
        r <= 0x7fff_ffff_ffff_ffff,
        id <= 0x7fff_ffff_ffff_ffff ==> r == id,
        id > 0x8000_0000_0000_0000 ==> r + 0x8000_0000_0000_0000 == id,
        id == 0x8000_0000_0000_0000 ==> r == 1,
{
}

/// The id to connect with is the saved one where there is one, and else one from
/// the clock and the process, both in bounds. A fresh id is the clock times
/// 1000003 and the process, in sixty-four bits.
pub proof fn law_starting_id(
    saved: u64,
    nanos: u64,
    pid: u32,
    mixed: u64,
    r: u64,
    clamped: u64,
    fresh: u64,
    q: u64,
)
    requires
        call_ensures(starting_client_id, (saved, nanos, pid), r),
        call_ensures(clamp_client_id, (saved,), clamped),
        call_ensures(fresh_client_id, (nanos, pid), fresh),
        call_ensures(clamp_client_id, (mixed,), q),
        exists|k: int|
            mixed == nanos * 1_000_003 + pid - #[trigger] (k * 0x1_0000_0000_0000_0000),
    ensures
        saved != 0 ==> r == clamped,
        saved == 0 ==> r == fresh,
        fresh == q,
{
    let m: int = 0x1_0000_0000_0000_0000;
    let k = choose|k: int|
        mixed == nanos * 1_000_003 + pid - #[trigger] (k * 0x1_0000_0000_0000_0000);
    let a = nanos as int * 1_000_003;
    vstd::arithmetic::div_mod::lemma_fundamental_div_mod(a, m);
    let left = a % m + pid as int;
    vstd::arithmetic::div_mod::lemma_fundamental_div_mod(left, m);
    assert(a % m + pid as int - m * (left / m) == left % m);
    assert(mixed as int == left % m) by {
        let d = mixed as int - left % m;
        assert(d == m * (a / m + left / m - k)) by (nonlinear_arith)
            requires
                d == mixed as int - left % m,
                mixed as int == a + pid as int - k * m,
                a == m * (a / m) + a % m,
                left == a % m + pid as int,
                left == m * (left / m) + left % m,
        ;
        assert(-m < d < m);
        let t = a / m + left / m - k;
        assert(t == 0) by (nonlinear_arith)
            requires
                d == m * t,
                -m < d < m,
                m > 0,
        ;
        assert(d == 0) by (nonlinear_arith)
            requires
                d == m * t,
                t == 0,
        ;
    }
}

/// The window's mode is the configured one, on the primary monitor for the number
/// zero and on the one of the number otherwise.
pub proof fn law_window_mode(mode: WindowModeConfig, monitor: u32, r: WindowMode)
    requires
        call_ensures(window_mode, (mode, monitor), r),
    ensures
        mode is Windowed <==> r is Windowed,
        mode is BorderlessFullscreen && monitor == 0 ==> r == WindowMode::BorderlessFullscreen(
            MonitorSelection::Primary,
        ),
        mode is BorderlessFullscreen && monitor > 0 ==> r == WindowMode::BorderlessFullscreen(
            MonitorSelection::Index(monitor),
        ),
        mode is Fullscreen && monitor == 0 ==> r == WindowMode::Fullscreen(
            MonitorSelection::Primary,
        ),
        mode is Fullscreen && monitor > 0 ==> r == WindowMode::Fullscreen(
            MonitorSelection::Index(monitor),
        ),
{
}

/// Every configured way to present has its own, and a cap of zero is none.
pub proof fn law_presentation(p: PresentModeConfig, r: PresentMode, cap: u32, limit: FrameLimit)
    requires
        call_ensures(present_mode, (p,), r),
        call_ensures(frame_limit, (cap,), limit),
    ensures
        p is Auto <==> r is AutoVsync,
        p is Fifo <==> r is Fifo,
        p is Mailbox <==> r is Mailbox,
        p is Immediate <==> r is Immediate,
        cap == 0 <==> limit is Auto,
        limit matches FrameLimit::Cap(n) ==> n == cap,
{
}

/// What is written of a panic, and where the program starts.
pub proof fn law_panic_report(
    thread: &str,
    location: Option<&str>,
    message: &str,
    backtrace: &str,
    r: String,
    state: AppState,
)
    requires
        call_ensures(panic_report, (thread, location, message, backtrace), r),
        call_ensures(AppState::default, (), state),
    ensures
        location matches Some(place) ==> r@ == "[host_client] PANIC thread='"@ + thread@
            + "' location="@ + place@ + "\nmessage: "@ + message@ + "\nbacktrace:\n"@ + backtrace@
            + "\n"@,
        location is None ==> r@ == "[host_client] PANIC thread='"@ + thread@
            + "' location=<unknown>\nmessage: "@ + message@ + "\nbacktrace:\n"@ + backtrace@
            + "\n"@,
        state is Lobby,
{
    if location is None {
        reveal_strlit("' location=<unknown>\nmessage: ");
        reveal_strlit("' location=");
        reveal_strlit("<unknown>");
        reveal_strlit("\nmessage: ");
        assert("' location=<unknown>\nmessage: "@ =~= "' location="@ + "<unknown>"@
            + "\nmessage: "@);
        let front = "[host_client] PANIC thread='"@ + thread@;
        assert(front + "' location="@ + "<unknown>"@ + "\nmessage: "@ =~= front
            + "' location=<unknown>\nmessage: "@);
    }
}

} // verus!
