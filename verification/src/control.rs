//! The visualizer's decisions around the window, the GPU surface and the
//! preset files: what an input event asks for, which surface format and
//! present mode to use, how to recover from a surface error, and when a
//! preset shader changed on disk.

use vstd::prelude::*;

verus! {

/// A key, as far as the visualizer tells keys apart.
pub enum Key {
    Escape,
    ArrowRight,
    ArrowLeft,
    /// A key that produces text.
    Character(String),
    Other,
}

/// A window event, as far as the visualizer reacts to it.
pub enum WindowInput {
    CloseRequested,
    /// The window's inner size in physical pixels.
    Resized { width: u32, height: u32 },
    /// A key went down.
    KeyPressed(Key),
    RedrawRequested,
    Other,
}

/// What the application does in response to a window event.
#[derive(Debug, PartialEq, Eq)]
pub enum Reaction {
    /// Leave the event loop.
    Exit,
    /// Move through the preset catalogue by this many places.
    SwitchPreset(i32),
    /// Compile and bind the current preset again, from disk.
    ReloadPreset,
    /// Reconfigure the surface and the offscreen targets to this size.
    Resize { width: u32, height: u32 },
    /// Check the shader for changes on disk, then analyse and render a frame.
    Redraw,
    /// Nothing to do.
    Ignore,
}

/// A dimension of the surface: at least one pixel.
pub open spec fn at_least_one(v: u32) -> u32 {
    if v == 0 {
        1
    } else {
        v
    }
}

/// The reaction to a key press: `Esc`/`Q` quit, `→`/`N` next preset,
/// `←`/`P` previous preset, `R` reload the current shader.
pub open spec fn key_reaction(key: Key) -> Reaction {
    match key {
        Key::Escape => Reaction::Exit,
        Key::ArrowRight => Reaction::SwitchPreset(1i32),
        Key::ArrowLeft => Reaction::SwitchPreset(-1i32),
        Key::Character(c) => if c@ == "q"@ || c@ == "Q"@ {
            Reaction::Exit
        } else if c@ == "n"@ || c@ == "N"@ {
            Reaction::SwitchPreset(1i32)
        } else if c@ == "p"@ || c@ == "P"@ {
            Reaction::SwitchPreset(-1i32)
        } else if c@ == "r"@ || c@ == "R"@ {
            Reaction::ReloadPreset
        } else {
            Reaction::Ignore
        },
        Key::Other => Reaction::Ignore,
    }
}

/// The reaction to a window event.
pub open spec fn reaction_to(input: WindowInput) -> Reaction {
    match input {
        WindowInput::CloseRequested => Reaction::Exit,
        WindowInput::Resized { width, height } => Reaction::Resize {
            width: at_least_one(width),
            height: at_least_one(height),
        },
        WindowInput::KeyPressed(key) => key_reaction(key),
        WindowInput::RedrawRequested => Reaction::Redraw,
        WindowInput::Other => Reaction::Ignore,
    }
}

/// Every resize asks for a resize to the new size, each dimension raised to
/// at least one pixel.
pub proof fn lemma_resize_reaction(width: u32, height: u32)
    ensures
        reaction_to(WindowInput::Resized { width, height }) == (Reaction::Resize {
            width: if width < 1 {
                1u32
            } else {
                width
            },
            height: if height < 1 {
                1u32
            } else {
                height
            },
        }),
{
}

/// The key letters are eight different texts.
proof fn lemma_letters_distinct()
    ensures
        "q"@ != "n"@ && "q"@ != "N"@ && "q"@ != "p"@ && "q"@ != "P"@ && "q"@ != "r"@ && "q"@
            != "R"@,
        "Q"@ != "n"@ && "Q"@ != "N"@ && "Q"@ != "p"@ && "Q"@ != "P"@ && "Q"@ != "r"@ && "Q"@
            != "R"@,
        "n"@ != "p"@ && "n"@ != "P"@ && "n"@ != "r"@ && "n"@ != "R"@,
        "N"@ != "p"@ && "N"@ != "P"@ && "N"@ != "r"@ && "N"@ != "R"@,
        "p"@ != "r"@ && "p"@ != "R"@ && "P"@ != "r"@ && "P"@ != "R"@,
{
    reveal_strlit("q");
    reveal_strlit("Q");
    reveal_strlit("n");
    reveal_strlit("N");
    reveal_strlit("p");
    reveal_strlit("P");
    reveal_strlit("r");
    reveal_strlit("R");
    assert("q"@[0] == 'q' && "Q"@[0] == 'Q' && "n"@[0] == 'n' && "N"@[0] == 'N');
    assert("p"@[0] == 'p' && "P"@[0] == 'P' && "r"@[0] == 'r' && "R"@[0] == 'R');
}

/// The key bindings: `→` and `N` go to the next preset, `←` and `P` to the
/// previous one, `R` reloads the current shader, `Esc` and `Q` quit, either
/// letter case; every other key is ignored. Closing the window quits and a
/// redraw request draws a frame.
pub proof fn lemma_key_bindings(c: String)
    ensures
        reaction_to(WindowInput::KeyPressed(Key::ArrowRight)) == Reaction::SwitchPreset(1i32),
        reaction_to(WindowInput::KeyPressed(Key::ArrowLeft)) == Reaction::SwitchPreset(-1i32),
        reaction_to(WindowInput::KeyPressed(Key::Escape)) == Reaction::Exit,
        reaction_to(WindowInput::KeyPressed(Key::Other)) == Reaction::Ignore,
        (c@ == "n"@ || c@ == "N"@) ==> reaction_to(WindowInput::KeyPressed(Key::Character(c)))
            == Reaction::SwitchPreset(1i32),
        (c@ == "p"@ || c@ == "P"@) ==> reaction_to(WindowInput::KeyPressed(Key::Character(c)))
            == Reaction::SwitchPreset(-1i32),
        (c@ == "r"@ || c@ == "R"@) ==> reaction_to(WindowInput::KeyPressed(Key::Character(c)))
            == Reaction::ReloadPreset,
        (c@ == "q"@ || c@ == "Q"@) ==> reaction_to(WindowInput::KeyPressed(Key::Character(c)))
            == Reaction::Exit,
        (c@ != "n"@ && c@ != "N"@ && c@ != "p"@ && c@ != "P"@ && c@ != "r"@ && c@ != "R"@ && c@
            != "q"@ && c@ != "Q"@) ==> reaction_to(WindowInput::KeyPressed(Key::Character(c)))
            == Reaction::Ignore,
        reaction_to(WindowInput::CloseRequested) == Reaction::Exit,
        reaction_to(WindowInput::RedrawRequested) == Reaction::Redraw,
        reaction_to(WindowInput::Other) == Reaction::Ignore,
{
    lemma_letters_distinct();
}

/// The surface size for a window size: each dimension at least one pixel.
pub fn surface_extent(width: u32, height: u32) -> (extent: (u32, u32))
    ensures
        extent == (at_least_one(width), at_least_one(height)),
{
    let w = if width == 0 {
        1
    } else {
        width
    };
    let h = if height == 0 {
        1
    } else {
        height
    };
    (w, h)
}

/// Whether the text of a key is one of two letters.
fn key_is(c: &String, lower: &str, upper: &str) -> (r: bool)
    ensures
        r == (c@ == lower@ || c@ == upper@),
{
    *c == String::from_str(lower) || *c == String::from_str(upper)
}

/// Decide what a window event asks the application to do.
pub fn react(input: &WindowInput) -> (reaction: Reaction)
    ensures
        reaction == reaction_to(*input),
{
    match input {
        WindowInput::CloseRequested => Reaction::Exit,
        WindowInput::Resized { width, height } => {
            let (w, h) = surface_extent(*width, *height);
            Reaction::Resize { width: w, height: h }
        },
        WindowInput::KeyPressed(key) => match key {
            Key::Escape => Reaction::Exit,
            Key::ArrowRight => Reaction::SwitchPreset(1),
            Key::ArrowLeft => Reaction::SwitchPreset(-1),
            Key::Character(c) => {
                if key_is(c, "q", "Q") {
                    Reaction::Exit
                } else if key_is(c, "n", "N") {
                    Reaction::SwitchPreset(1)
                } else if key_is(c, "p", "P") {
                    Reaction::SwitchPreset(-1)
                } else if key_is(c, "r", "R") {
                    Reaction::ReloadPreset
                } else {
                    Reaction::Ignore
                }
            },
            Key::Other => Reaction::Ignore,
        },
        WindowInput::RedrawRequested => Reaction::Redraw,
        WindowInput::Other => Reaction::Ignore,
    }
}

/// A surface's presentation mode, as the GPU layer names them.
#[derive(Debug, Clone, Copy, PartialEq, Eq)]
pub enum PresentMode {
    AutoVsync,
    AutoNoVsync,
    Fifo,
    FifoRelaxed,
    Immediate,
    Mailbox,
}

/// Whether a mode presents without waiting for vertical sync.
pub open spec fn uncapped(m: PresentMode) -> bool {
    m == PresentMode::Mailbox || m == PresentMode::Immediate
}

/// The present mode to use: FIFO with vsync; without it, the first supported
/// uncapped mode (mailbox or immediate), falling back to FIFO.
pub fn choose_present_mode(vsync: bool, supported: &Vec<PresentMode>) -> (mode: PresentMode)
    ensures
        vsync ==> mode == PresentMode::Fifo,
        !vsync ==> if exists|i: int| 0 <= i < supported@.len() && uncapped(supported@[i]) {
            exists|i: int|
                0 <= i < supported@.len() && mode == supported@[i] && uncapped(mode) && forall|
                    k: int,
                | 0 <= k < i ==> !uncapped(#[trigger] supported@[k])
        } else {
            mode == PresentMode::Fifo
        },
{
    if vsync {
        return PresentMode::Fifo;
    }
    let mut i: usize = 0;
    while i < supported.len()
        invariant
            !vsync,
            i <= supported@.len(),
            forall|k: int| 0 <= k < i ==> !uncapped(#[trigger] supported@[k]),
        decreases supported.len() - i,
    {
        let m = supported[i];
        match m {
            PresentMode::Mailbox | PresentMode::Immediate => {
                return m;
            },
            _ => {},
        }
        i = i + 1;
    }
    PresentMode::Fifo
}

/// Index of the surface format to use among the supported ones, given which
/// of them are sRGB: the first sRGB format, else the first format.
pub fn choose_format(is_srgb: &Vec<bool>) -> (index: usize)
    requires
        is_srgb@.len() > 0,
    ensures
        index < is_srgb@.len(),
        (exists|i: int| 0 <= i < is_srgb@.len() && is_srgb@[i]) ==> is_srgb@[index as int] && forall|
            k: int,
        | 0 <= k < index ==> !is_srgb@[k],
        !(exists|i: int| 0 <= i < is_srgb@.len() && is_srgb@[i]) ==> index == 0,
{
    let mut i: usize = 0;
    while i < is_srgb.len()
        invariant
            i <= is_srgb@.len(),
            forall|k: int| 0 <= k < i ==> !is_srgb@[k],
        decreases is_srgb.len() - i,
    {
        if is_srgb[i] {
            return i;
        }
        i = i + 1;
    }
    0
}

/// Why the surface could not hand out a frame, as the GPU layer reports it.
#[derive(Debug, Clone, Copy, PartialEq, Eq)]
pub enum SurfaceFault {
    Timeout,
    Outdated,
    Lost,
    OutOfMemory,
    Other,
}

/// How the application deals with a surface fault.
#[derive(Debug, PartialEq, Eq)]
pub enum SurfaceRecovery {
    /// Configure the surface again and skip this frame.
    Reconfigure,
    /// Report that the GPU is out of memory.
    ReportOutOfMemory,
    /// Warn and skip this frame.
    Warn,
}

/// The recovery for a surface fault: a lost or outdated surface is
/// configured again, running out of memory is reported, anything else is a
/// warning.
pub fn surface_recovery(fault: SurfaceFault) -> (recovery: SurfaceRecovery)
    ensures
        (fault == SurfaceFault::Lost || fault == SurfaceFault::Outdated) ==> recovery
            == SurfaceRecovery::Reconfigure,
        fault == SurfaceFault::OutOfMemory ==> recovery == SurfaceRecovery::ReportOutOfMemory,
        (fault == SurfaceFault::Timeout || fault == SurfaceFault::Other) ==> recovery
            == SurfaceRecovery::Warn,
{
    match fault {
        SurfaceFault::Lost | SurfaceFault::Outdated => SurfaceRecovery::Reconfigure,
        SurfaceFault::OutOfMemory => SurfaceRecovery::ReportOutOfMemory,
        _ => SurfaceRecovery::Warn,
    }
}

/// Whether the active shader changed on disk: only when both its current and
/// its last seen modification times are known and the current one is later.
/// Times are nanoseconds relative to a fixed epoch.
pub fn shader_changed(modified: Option<i128>, last_seen: Option<i128>) -> (changed: bool)
    ensures
        changed == (modified is Some && last_seen is Some && modified->0 > last_seen->0),
{
    match (modified, last_seen) {
        (Some(m), Some(p)) => m > p,
        _ => false,
    }
}

} // verus!
