//! The Wayland surface that every sink draws into.
//!
//! One toplevel is shared by the page and by every clip. It needs a buffer of
//! its own, since a subsurface is shown only once its parent is mapped: a
//! full-size opaque black one, attached once and never touched again. What is
//! asked of the compositor, and in which order, is decided here.

use crate::decimal::{decimal, write_u64};
use crate::text::same;
use vstd::prelude::*;

verus! {

/// A global of the compositor that the surface needs.
#[derive(Debug, Clone, Copy, PartialEq, Eq, Structural)]
pub enum Global {
    Compositor,
    Shm,
    WmBase,
}

impl Global {
    /// The name of its interface.
    pub open spec fn interface_name(self) -> Seq<char> {
        match self {
            Global::Compositor => "wl_compositor"@,
            Global::Shm => "wl_shm"@,
            Global::WmBase => "xdg_wm_base"@,
        }
    }

    /// The error where the compositor does not have it.
    pub fn missing_message(self) -> (r: &'static str)
        ensures
            r@ == match self {
                Global::Compositor => "no wl_compositor"@,
                Global::Shm => "no wl_shm"@,
                Global::WmBase => "no xdg_wm_base"@,
            },
    {
        match self {
            Global::Compositor => "no wl_compositor",
            Global::Shm => "no wl_shm",
            Global::WmBase => "no xdg_wm_base",
        }
    }
}

/// An event from the compositor.
pub enum Event {
    /// It has a global.
    Global { name: u32, interface: String, version: u32 },
    /// It asks whether the client is alive.
    Ping { serial: u32 },
    /// It has configured the surface.
    Configure { serial: u32 },
    /// It suggests a size for the toplevel.
    ToplevelConfigure { width: i32, height: i32 },
    /// It closes the toplevel.
    Close,
    /// Anything else.
    Other,
}

/// What an event is answered with.
#[derive(Debug, Clone, Copy, PartialEq, Eq, Structural)]
pub enum Response {
    /// Nothing.
    Nothing,
    /// The global with this name is bound in this version.
    Bind { global: Global, name: u32, version: u32 },
    /// The client is alive.
    Pong { serial: u32 },
    /// The configuration is acknowledged, and the surface committed where it
    /// is there: an acknowledgement only takes effect on the next commit.
    Acknowledge { serial: u32, commit: bool },
    /// The size is noted, and not followed: a surface of another size than the
    /// output would break the mapping of pixels one to one.
    NoteSize { width: i32, height: i32 },
}

/// What is known of the connection: which globals are bound, whether the
/// surface is there, and whether the compositor has closed the toplevel.
#[derive(Debug, Clone, Copy, PartialEq, Eq, Structural)]
pub struct State {
    pub compositor: bool,
    pub shm: bool,
    pub wm_base: bool,
    pub surface: bool,
    pub closed: bool,
}

/// The earlier of two versions.
pub open spec fn min_version(a: u32, b: u32) -> u32 {
    if a < b {
        a
    } else {
        b
    }
}

/// The global that an interface stands for, and the version in which it is
/// bound where the compositor has `version`.
pub open spec fn binding(interface: Seq<char>, version: u32) -> Option<(Global, u32)> {
    if interface == Global::Compositor.interface_name() {
        Some((Global::Compositor, min_version(version, 4)))
    } else if interface == Global::Shm.interface_name() {
        Some((Global::Shm, 1))
    } else if interface == Global::WmBase.interface_name() {
        Some((Global::WmBase, min_version(version, 3)))
    } else {
        None
    }
}

impl State {
    /// A state with one global more.
    pub open spec fn with_global(self, global: Global) -> State {
        match global {
            Global::Compositor => State { compositor: true, ..self },
            Global::Shm => State { shm: true, ..self },
            Global::WmBase => State { wm_base: true, ..self },
        }
    }

    /// Whether a global is bound.
    pub open spec fn has(self, global: Global) -> bool {
        match global {
            Global::Compositor => self.compositor,
            Global::Shm => self.shm,
            Global::WmBase => self.wm_base,
        }
    }

    /// The state after an event, and the answer to it.
    pub open spec fn after(self, event: Event) -> (State, Response) {
        match event {
            Event::Global { name, interface, version } => match binding(interface@, version) {
                Some((global, version)) => (
                    self.with_global(global),
                    Response::Bind { global, name, version },
                ),
                None => (self, Response::Nothing),
            },
            Event::Ping { serial } => (self, Response::Pong { serial }),
            Event::Configure { serial } => (
                self,
                Response::Acknowledge { serial, commit: self.surface },
            ),
            Event::ToplevelConfigure { width, height } => if width > 0 && height > 0 {
                (self, Response::NoteSize { width, height })
            } else {
                (self, Response::Nothing)
            },
            Event::Close => (State { closed: true, ..self }, Response::Nothing),
            Event::Other => (self, Response::Nothing),
        }
    }

    /// The first of the needed globals that is not bound.
    pub open spec fn lacks(self) -> Option<Global> {
        if !self.compositor {
            Some(Global::Compositor)
        } else if !self.shm {
            Some(Global::Shm)
        } else if !self.wm_base {
            Some(Global::WmBase)
        } else {
            None
        }
    }

    /// The state of a new connection.
    pub fn new() -> (r: State)
        ensures
            r == (State {
                compositor: false,
                shm: false,
                wm_base: false,
                surface: false,
                closed: false,
            }),
    {
        State { compositor: false, shm: false, wm_base: false, surface: false, closed: false }
    }

    /// Takes note that the surface is there.
    pub fn surface_created(&mut self)
        ensures
            *final(self) == (State { surface: true, ..*old(self) }),
    {
        self.surface = true;
    }

    /// Takes an event from the compositor and says what to answer.
    pub fn event(&mut self, event: Event) -> (r: Response)
        ensures
            (*final(self), r) == old(self).after(event),
    {
        match event {
            Event::Global { name, interface, version } => {
                let interface = interface.as_str();
                if same(interface, "wl_compositor") {
                    self.compositor = true;
                    let version: u32 = if version < 4 {
                        version
                    } else {
                        4
                    };
                    Response::Bind { global: Global::Compositor, name, version }
                } else if same(interface, "wl_shm") {
                    self.shm = true;
                    Response::Bind { global: Global::Shm, name, version: 1 }
                } else if same(interface, "xdg_wm_base") {
                    self.wm_base = true;
                    let version: u32 = if version < 3 {
                        version
                    } else {
                        3
                    };
                    Response::Bind { global: Global::WmBase, name, version }
                } else {
                    Response::Nothing
                }
            },
            Event::Ping { serial } => Response::Pong { serial },
            Event::Configure { serial } => Response::Acknowledge { serial, commit: self.surface },
            Event::ToplevelConfigure { width, height } => if width > 0 && height > 0 {
                Response::NoteSize { width, height }
            } else {
                Response::Nothing
            },
            Event::Close => {
                self.closed = true;
                Response::Nothing
            },
            Event::Other => Response::Nothing,
        }
    }

    /// The first of the needed globals that the compositor does not have.
    pub fn missing(&self) -> (r: Option<Global>)
        ensures
            r == self.lacks(),
    {
        if !self.compositor {
            Some(Global::Compositor)
        } else if !self.shm {
            Some(Global::Shm)
        } else if !self.wm_base {
            Some(Global::WmBase)
        } else {
            None
        }
    }

    /// Whether dispatching ends after a round of it, which may have failed.
    pub fn dispatch_ends(&self, failed: bool) -> (r: bool)
        ensures
            r == (failed || self.closed),
    {
        failed || self.closed
    }
}

/// A step on the way to a mapped toplevel.
#[derive(Debug, Clone, Copy, PartialEq, Eq, Structural)]
pub enum Step {
    /// Connect, and ask for the registry.
    Connect,
    /// A round trip, which delivers the globals.
    Globals,
    /// A round trip, which delivers the events from binding them.
    Bindings,
    /// Create the toplevel and commit it, without a buffer.
    Toplevel,
    /// A round trip, which delivers the first configuration.
    Configure,
    /// Ask for fullscreen, and attach and commit the background.
    Background,
    /// A round trip, which maps it.
    Present,
    /// Start dispatching.
    Dispatch,
    /// The surface is ready.
    Ready,
}

/// The step after one that went well. The toplevel is created only where all
/// the globals are there; nothing is asked of it before its configuration has
/// come.
pub open spec fn following(step: Step, state: State) -> Result<Step, Global> {
    match step {
        Step::Connect => Ok(Step::Globals),
        Step::Globals => Ok(Step::Bindings),
        Step::Bindings => match state.lacks() {
            Some(global) => Err(global),
            None => Ok(Step::Toplevel),
        },
        Step::Toplevel => Ok(Step::Configure),
        Step::Configure => Ok(Step::Background),
        Step::Background => Ok(Step::Present),
        Step::Present => Ok(Step::Dispatch),
        Step::Dispatch => Ok(Step::Ready),
        Step::Ready => Ok(Step::Ready),
    }
}

/// What a step could not do, where it fails; nothing for a step that cannot
/// fail by itself.
pub open spec fn failure_of(step: Step) -> Seq<char> {
    match step {
        Step::Connect => "connecting to the Wayland compositor (is WAYLAND_DISPLAY set?)"@,
        Step::Globals => "the initial Wayland round trip"@,
        Step::Bindings => "the second Wayland round trip"@,
        Step::Toplevel => ""@,
        Step::Configure => "waiting for the first xdg configure"@,
        Step::Background => "creating the background buffer"@,
        Step::Present => "committing the background buffer"@,
        Step::Dispatch => "starting the Wayland dispatch thread"@,
        Step::Ready => ""@,
    }
}

impl Step {
    /// The step after this one, or the global for want of which there is none.
    pub fn next(self, state: &State) -> (r: Result<Step, Global>)
        ensures
            r == following(self, *state),
    {
        match self {
            Step::Connect => Ok(Step::Globals),
            Step::Globals => Ok(Step::Bindings),
            Step::Bindings => match state.missing() {
                Some(global) => Err(global),
                None => Ok(Step::Toplevel),
            },
            Step::Toplevel => Ok(Step::Configure),
            Step::Configure => Ok(Step::Background),
            Step::Background => Ok(Step::Present),
            Step::Present => Ok(Step::Dispatch),
            Step::Dispatch => Ok(Step::Ready),
            Step::Ready => Ok(Step::Ready),
        }
    }

    /// What this step could not do, where it fails; nothing for a step that
    /// cannot fail by itself.
    pub fn failure(self) -> (r: &'static str)
        ensures
            r@ == failure_of(self),
    {
        match self {
            Step::Connect => "connecting to the Wayland compositor (is WAYLAND_DISPLAY set?)",
            Step::Globals => "the initial Wayland round trip",
            Step::Bindings => "the second Wayland round trip",
            Step::Toplevel => "",
            Step::Configure => "waiting for the first xdg configure",
            Step::Background => "creating the background buffer",
            Step::Present => "committing the background buffer",
            Step::Dispatch => "starting the Wayland dispatch thread",
            Step::Ready => "",
        }
    }
}

/// How a buffer of pixels of four bytes each lies in shared memory.
#[derive(Debug, Clone, Copy, PartialEq, Eq, Structural)]
pub struct BufferLayout {
    /// The bytes from one row to the next.
    pub stride: i32,
    /// The length of the file behind it.
    pub len: u64,
    /// The size of the pool made of that file.
    pub pool_size: i32,
}

/// A size as the length of a file, in 64 bits without a sign.
pub open spec fn file_len(size: int) -> int {
    if size >= 0 {
        size
    } else {
        size + 0x1_0000_0000_0000_0000
    }
}

/// How the background lies in shared memory.
///
/// The sizes count in 32 bits. A negative one gives a file length that no file
/// can have.
pub fn background_layout(width: i32, height: i32) -> (r: BufferLayout)
    requires
        i32::MIN <= width * 4 <= i32::MAX,
        i32::MIN <= (width * 4) * height <= i32::MAX,
    ensures
        r.stride == width * 4,
        r.pool_size == (width * 4) * height,
        r.len == file_len((width * 4) * height),
        width >= 0 && height >= 0 ==> r.len == r.stride * height,
{
    let stride: i32 = width * 4;
    let size: i32 = stride * height;
    let len: u64 = #[verifier::truncate] (size as u64);
    assert(size < 0 ==> size as u64 == size + 0x1_0000_0000_0000_0000) by (bit_vector);
    assert(width >= 0 && height >= 0 ==> (width * 4) * height >= 0) by (nonlinear_arith);
    BufferLayout { stride, len, pool_size: size }
}

/// Where the file behind the background is created: the one place that is
/// sure to be a tmpfs.
pub fn background_path(pid: u32) -> (r: String)
    ensures
        r@ == "/dev/shm/gaxibo-bg-"@ + decimal(pid as int),
{
    let mut r = "/dev/shm/gaxibo-bg-".to_owned();
    r.append(write_u64(pid as u64).as_str());
    r
}

/// A global once bound stays bound, and a toplevel once closed stays closed,
/// whatever the compositor says.
pub proof fn law_state_only_grows(state: State, event: Event, global: Global)
    ensures
        state.has(global) ==> state.after(event).0.has(global),
        state.closed ==> state.after(event).0.closed,
        state.after(event).0.surface == state.surface,
{
}

/// No global is bound in a later version than the compositor has, provided it
/// has one at all.
pub proof fn law_versions_are_had(state: State, name: u32, interface: String, version: u32)
    requires
        version >= 1,
    ensures
        state.after(Event::Global { name, interface, version }).1 matches Response::Bind {
            version: bound,
            ..
        } ==> 1 <= bound <= version,
{
}

/// Every ping is answered with its serial, in every state.
pub proof fn law_pings_are_answered(state: State, serial: u32)
    ensures
        state.after(Event::Ping { serial }) == (state, Response::Pong { serial }),
{
}

/// In every state, whatever is bound, a configuration is acknowledged by its
/// serial, and the surface is committed exactly where it is there; the state
/// stays as it was.
pub proof fn law_configurations_are_acknowledged(
    compositor: bool,
    shm: bool,
    wm_base: bool,
    surface: bool,
    closed: bool,
    serial: u32,
)
    ensures
        ({
            let state = State { compositor, shm, wm_base, surface, closed };
            state.after(Event::Configure { serial }) == (
                state,
                Response::Acknowledge { serial, commit: surface },
            )
        }),
{
}

/// In every state a global that the surface needs is bound under the name it
/// was given, in its version but no later one than the surface knows, and
/// nothing else of the state changes; any other global is left alone.
pub proof fn law_needed_globals_are_bound(
    state: State,
    name: u32,
    interface: String,
    version: u32,
)
    ensures
        ({
            let (next, response) = state.after(Event::Global { name, interface, version });
            &&& next.surface == state.surface
            &&& next.closed == state.closed
            &&& next.compositor == (state.compositor || interface@ == "wl_compositor"@)
            &&& next.shm == (state.shm || interface@ == "wl_shm"@)
            &&& next.wm_base == (state.wm_base || interface@ == "xdg_wm_base"@)
            &&& interface@ == "wl_compositor"@ ==> {
                &&& version <= 4 ==> response == (Response::Bind {
                    global: Global::Compositor,
                    name,
                    version,
                })
                &&& version > 4 ==> response == (Response::Bind {
                    global: Global::Compositor,
                    name,
                    version: 4,
                })
            }
            &&& interface@ == "wl_shm"@ ==> response == (Response::Bind {
                global: Global::Shm,
                name,
                version: 1,
            })
            &&& interface@ == "xdg_wm_base"@ ==> {
                &&& version <= 3 ==> response == (Response::Bind {
                    global: Global::WmBase,
                    name,
                    version,
                })
                &&& version > 3 ==> response == (Response::Bind {
                    global: Global::WmBase,
                    name,
                    version: 3,
                })
            }
            &&& interface@ != "wl_compositor"@ && interface@ != "wl_shm"@ && interface@
                != "xdg_wm_base"@ ==> response is Nothing
        }),
{
    reveal_strlit("wl_compositor");
    reveal_strlit("wl_shm");
    reveal_strlit("xdg_wm_base");
    assert("wl_compositor"@.len() == 13);
    assert("wl_shm"@.len() == 6);
    assert("xdg_wm_base"@.len() == 11);
}

/// A global is bound exactly where the state says so, and the first of those
/// that are missing is the compositor's, then the shared memory's, then the
/// window manager's.
pub proof fn law_missing_globals_come_in_order(state: State)
    ensures
        state.has(Global::Compositor) == state.compositor,
        state.has(Global::Shm) == state.shm,
        state.has(Global::WmBase) == state.wm_base,
        state.lacks() == Some(Global::Compositor) <==> !state.compositor,
        state.lacks() == Some(Global::Shm) <==> state.compositor && !state.shm,
        state.lacks() == Some(Global::WmBase) <==> state.compositor && state.shm && !state.wm_base,
        state.lacks() is None <==> state.compositor && state.shm && state.wm_base,
{
}

/// In every state a size that is suggested is noted where both its sides are
/// positive and ignored otherwise, closing the toplevel is noted and answered
/// with nothing, and any other event changes nothing.
pub proof fn law_other_events_are_noted_at_most(state: State, width: i32, height: i32)
    ensures
        ({
            let (next, response) = state.after(Event::ToplevelConfigure { width, height });
            &&& next == state
            &&& width > 0 && height > 0 ==> response == (Response::NoteSize { width, height })
            &&& width <= 0 || height <= 0 ==> response is Nothing
        }),
        ({
            let (next, response) = state.after(Event::Close);
            &&& next.closed
            &&& next.compositor == state.compositor
            &&& next.shm == state.shm
            &&& next.wm_base == state.wm_base
            &&& next.surface == state.surface
            &&& response is Nothing
        }),
        state.after(Event::Other) == (state, Response::Nothing),
{
}

/// Where the needed globals are there, the steps come in their order, and the
/// last is the one to stay at. The state makes a difference only behind the
/// second round trip, and there the missing global is the error.
pub proof fn law_steps_come_in_order(state: State)
    ensures
        following(Step::Connect, state) == Ok::<Step, Global>(Step::Globals),
        following(Step::Globals, state) == Ok::<Step, Global>(Step::Bindings),
        state.compositor && state.shm && state.wm_base ==> following(Step::Bindings, state) == Ok::<
            Step,
            Global,
        >(Step::Toplevel),
        !state.compositor ==> following(Step::Bindings, state) == Err::<Step, Global>(
            Global::Compositor,
        ),
        state.compositor && !state.shm ==> following(Step::Bindings, state) == Err::<Step, Global>(
            Global::Shm,
        ),
        state.compositor && state.shm && !state.wm_base ==> following(Step::Bindings, state)
            == Err::<Step, Global>(Global::WmBase),
        following(Step::Toplevel, state) == Ok::<Step, Global>(Step::Configure),
        following(Step::Configure, state) == Ok::<Step, Global>(Step::Background),
        following(Step::Background, state) == Ok::<Step, Global>(Step::Present),
        following(Step::Present, state) == Ok::<Step, Global>(Step::Dispatch),
        following(Step::Dispatch, state) == Ok::<Step, Global>(Step::Ready),
        following(Step::Ready, state) == Ok::<Step, Global>(Step::Ready),
{
}

/// Every step that can fail by itself says what it could not do, in words of
/// its own, and the two that cannot say nothing.
pub proof fn law_failures_name_their_step(step: Step, other: Step)
    ensures
        failure_of(step).len() == 0 <==> step == Step::Toplevel || step == Step::Ready,
        failure_of(step) == failure_of(other) && failure_of(step).len() > 0 ==> step == other,
        failure_of(Step::Connect)
            == "connecting to the Wayland compositor (is WAYLAND_DISPLAY set?)"@,
        failure_of(Step::Globals) == "the initial Wayland round trip"@,
        failure_of(Step::Bindings) == "the second Wayland round trip"@,
        failure_of(Step::Configure) == "waiting for the first xdg configure"@,
        failure_of(Step::Background) == "creating the background buffer"@,
        failure_of(Step::Present) == "committing the background buffer"@,
        failure_of(Step::Dispatch) == "starting the Wayland dispatch thread"@,
{
    reveal_strlit("");
    reveal_strlit("connecting to the Wayland compositor (is WAYLAND_DISPLAY set?)");
    reveal_strlit("the initial Wayland round trip");
    reveal_strlit("the second Wayland round trip");
    reveal_strlit("waiting for the first xdg configure");
    reveal_strlit("creating the background buffer");
    reveal_strlit("committing the background buffer");
    reveal_strlit("starting the Wayland dispatch thread");
    assert(failure_of(Step::Connect)[1] == 'o');
    assert(failure_of(Step::Globals)[4] == 'i');
    assert(failure_of(Step::Bindings)[4] == 's');
    assert(failure_of(Step::Configure)[0] == 'w');
    assert(failure_of(Step::Background)[0] == 'c');
    assert(failure_of(Step::Background)[1] == 'r');
    assert(failure_of(Step::Dispatch)[0] == 's');
}

/// A size is the length of a file as it is, where it is not negative; a
/// negative one counts back from all that 64 bits can hold.
pub proof fn law_file_lengths_have_no_sign(size: i32)
    ensures
        0 <= file_len(size as int) <= u64::MAX,
        size >= 0 ==> file_len(size as int) == size,
        size < 0 ==> file_len(size as int) - size == u64::MAX + 1,
{
}

/// The steps that are taken one after the other, each of which went well, as
/// long as the globals are there.
pub open spec fn step_at(n: nat, state: State) -> Step
    decreases n,
{
    if n == 0 {
        Step::Connect
    } else {
        match following(step_at((n - 1) as nat, state), state) {
            Ok(step) => step,
            Err(_) => step_at((n - 1) as nat, state),
        }
    }
}

/// Where all the globals are there the surface is ready after eight steps;
/// where one is missing no toplevel is ever created.
pub proof fn law_setup_ends(state: State, n: nat)
    ensures
        state.lacks() is None ==> step_at(8, state) == Step::Ready,
        state.lacks() is Some ==> step_at(n, state) == Step::Connect || step_at(n, state)
            == Step::Globals || step_at(n, state) == Step::Bindings,
    decreases n,
{
    reveal_with_fuel(step_at, 9);
    if n > 0 {
        law_setup_ends(state, (n - 1) as nat);
    }
}

/// Fullscreen is asked for, and the background attached, only in the step
/// right after the round trip that delivers the first configuration.
pub proof fn law_nothing_before_the_configuration(step: Step, state: State)
    requires
        following(step, state) == Ok::<Step, Global>(Step::Background),
    ensures
        step == Step::Configure,
{
}

} // verus!
