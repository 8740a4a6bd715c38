//! What the GStreamer renderer shows and does.
//!
//! The renderer drives one pipeline for the life of the player: a WebKit source
//! that renders the layouts, and a sink. Navigation is a change of a property
//! of the live source, never a new pipeline. The texts that go into the pipeline
//! and the reactions to what comes out of it are decided here.

use crate::bridge::{BridgeMsg, Call};
use crate::decimal::{decimal, low_i32, wrapped_i32, write_i64, write_u64};
use crate::query::text_of;
use vstd::prelude::*;

verus! {

/// The splash layout, built into the embedded web server.
pub const SPLASH: &'static str = "0.xlf.html";

/// Where the embedded web server is found.
pub open spec fn server_uri(port: u16) -> Seq<char> {
    "http://localhost:"@ + decimal(port as int) + "/"@
}

/// Where the embedded web server is found.
pub fn base_uri(port: u16) -> (r: String)
    ensures
        r@ == server_uri(port),
{
    let mut r = "http://localhost:".to_owned();
    r.append(write_u64(port as u64).as_str());
    r.append("/");
    r
}

/// One side of the surface: the size asked for, or `screen` where none is. A
/// size of zero means that of the screen.
pub open spec fn side(size: int, screen: int) -> int {
    if size > 0 {
        wrapped_i32(size)
    } else {
        screen
    }
}

/// The size of the surface that the page is rendered into.
pub fn surface_size(size_x: i64, size_y: i64) -> (r: (i32, i32))
    ensures
        r.0 == side(size_x as int, 1920),
        r.1 == side(size_y as int, 1080),
{
    let width: i32 = if size_x > 0 {
        low_i32(size_x)
    } else {
        1920
    };
    let height: i32 = if size_y > 0 {
        low_i32(size_y)
    } else {
        1080
    };
    (width, height)
}

/// The pipeline in GStreamer's own notation.
pub open spec fn pipeline(base_uri: Seq<char>, width: i32, height: i32) -> Seq<char> {
    "wpevideosrc name=src location="@ + base_uri + SPLASH@ + " ! video/x-raw,width="@ + decimal(
        width as int,
    ) + ",height="@ + decimal(height as int)
        + ",framerate=60/1 ! queue max-size-buffers=3 leaky=downstream ! videoconvert ! waylandsink name=sink"@
}

/// Describes the pipeline to GStreamer. It starts with the splash layout.
///
/// The source is asked for plain video at the size of the surface, so nothing
/// is scaled on its way to the screen. The queue decouples its render thread
/// from the sink. The sink is not asked to be fullscreen: its window does not
/// exist yet when the pipeline is built.
pub fn pipeline_description(base_uri: &str, width: i32, height: i32) -> (r: String)
    ensures
        r@ == pipeline(base_uri@, width, height),
{
    let mut r = "wpevideosrc name=src location=".to_owned();
    r.append(base_uri);
    r.append(SPLASH);
    r.append(" ! video/x-raw,width=");
    r.append(write_i64(width as i64).as_str());
    r.append(",height=");
    r.append(write_i64(height as i64).as_str());
    r.append(
        ",framerate=60/1 ! queue max-size-buffers=3 leaky=downstream ! videoconvert ! waylandsink name=sink",
    );
    r
}

/// The file name of a layout.
pub open spec fn layout_file(id: i64) -> Seq<char> {
    decimal(id as int) + ".xlf.html"@
}

/// Where a layout is found.
pub fn layout_url(base_uri: &str, id: i64) -> (r: String)
    ensures
        r@ == base_uri@ + layout_file(id),
{
    let mut r = base_uri.to_owned();
    r.append(write_i64(id).as_str());
    r.append(".xlf.html");
    assert(r@ =~= base_uri@ + layout_file(id));
    r
}

/// Where the layout to show is found, if there is one to show.
pub open spec fn shown(base_uri: Seq<char>, id: Option<i64>) -> Option<Seq<char>> {
    match id {
        Some(id) => Some(base_uri + layout_file(id)),
        None => None,
    }
}

/// Where to navigate to when the schedule has named a layout, if it has.
pub fn show(base_uri: &str, id: Option<i64>) -> (r: Option<String>)
    ensures
        text_of(r) == shown(base_uri@, id),
{
    match id {
        Some(id) => Some(layout_url(base_uri, id)),
        None => None,
    }
}

/// What formatting a text with `{:?}` gives.
pub uninterp spec fn debug_quoted(s: Seq<char>) -> Seq<char>;

/// A text in double quotes, with what needs it escaped (`format!` of std with
/// `{:?}` on a text). No more is said of the result than that it depends on the
/// text alone.
#[verifier::external_body]
fn quote(s: &str) -> (r: String)
    ensures
        r@ == debug_quoted(s@),
{
    format!("{:?}", s)
}

/// The script that hands a trigger code, given as a literal, to the page.
pub open spec fn trigger_call(literal: Seq<char>) -> Seq<char> {
    "window.arexibo.trigger("@ + literal + ");"@
}

/// The script that hands a trigger code, given as a literal, to the page.
pub fn trigger_script(literal: &str) -> (r: String)
    ensures
        r@ == trigger_call(literal@),
{
    let mut r = "window.arexibo.trigger(".to_owned();
    r.append(literal);
    r.append(");");
    r
}

/// The script that passes a webhook on to the page.
pub fn webhook_script(code: &str) -> (r: String)
    ensures
        r@ == trigger_call(debug_quoted(code@)),
{
    let literal = quote(code);
    trigger_script(literal.as_str())
}

/// A message from the player.
pub enum PlayerMessage {
    /// The schedule has changed; it names the layout to show now, if that
    /// changes.
    Layouts(Option<i64>),
    /// A webhook was triggered, with this code.
    WebHook(String),
    /// The settings have changed.
    Settings,
    /// A screenshot is wanted.
    Screenshot,
}

/// The contents of a [`PlayerMessage`].
pub enum PlayerMessageView {
    Layouts(Option<i64>),
    WebHook(Seq<char>),
    Settings,
    Screenshot,
}

impl View for PlayerMessage {
    type V = PlayerMessageView;

    open spec fn view(&self) -> PlayerMessageView {
        match *self {
            PlayerMessage::Layouts(id) => PlayerMessageView::Layouts(id),
            PlayerMessage::WebHook(code) => PlayerMessageView::WebHook(code@),
            PlayerMessage::Settings => PlayerMessageView::Settings,
            PlayerMessage::Screenshot => PlayerMessageView::Screenshot,
        }
    }
}

/// What the renderer does about a message from the player. There is no other
/// effect that one can have.
#[derive(Debug, PartialEq, Eq)]
pub enum PlayerAction {
    /// Nothing, but for a line in the log.
    Ignore,
    /// Navigate to this URL.
    Navigate(String),
    /// Run this script in the page.
    RunScript(String),
}

/// The contents of a [`PlayerAction`].
pub enum PlayerActionView {
    Ignore,
    Navigate(Seq<char>),
    RunScript(Seq<char>),
}

impl View for PlayerAction {
    type V = PlayerActionView;

    open spec fn view(&self) -> PlayerActionView {
        match *self {
            PlayerAction::Ignore => PlayerActionView::Ignore,
            PlayerAction::Navigate(url) => PlayerActionView::Navigate(url@),
            PlayerAction::RunScript(script) => PlayerActionView::RunScript(script@),
        }
    }
}

/// What the renderer does about a message from the player.
///
/// Settings do not apply: the surface is fullscreen and has no decoration to
/// title. Screenshots cannot be taken yet.
pub open spec fn obeyed(base_uri: Seq<char>, msg: PlayerMessageView) -> PlayerActionView {
    match msg {
        PlayerMessageView::Layouts(id) => match shown(base_uri, id) {
            Some(url) => PlayerActionView::Navigate(url),
            None => PlayerActionView::Ignore,
        },
        PlayerMessageView::WebHook(code) => PlayerActionView::RunScript(
            trigger_call(debug_quoted(code)),
        ),
        PlayerMessageView::Settings => PlayerActionView::Ignore,
        PlayerMessageView::Screenshot => PlayerActionView::Ignore,
    }
}

/// Says what to do about a message from the player.
pub fn obey(base_uri: &str, msg: PlayerMessage) -> (r: PlayerAction)
    ensures
        r@ == obeyed(base_uri@, msg@),
{
    match msg {
        PlayerMessage::Layouts(id) => match show(base_uri, id) {
            Some(url) => PlayerAction::Navigate(url),
            None => PlayerAction::Ignore,
        },
        PlayerMessage::WebHook(code) => PlayerAction::RunScript(webhook_script(code.as_str())),
        PlayerMessage::Settings => PlayerAction::Ignore,
        PlayerMessage::Screenshot => PlayerAction::Ignore,
    }
}

/// How a running shell command is stopped.
#[derive(Debug, Clone, Copy, PartialEq, Eq, Structural)]
pub enum Kill {
    /// It is left to finish.
    No,
    /// It is asked to terminate.
    Terminate,
    /// It is killed.
    Kill,
}

/// The way to stop a shell command that a kill mode stands for.
pub open spec fn kill_of(mode: u8) -> Kill {
    if mode == 0 {
        Kill::No
    } else if mode == 1 {
        Kill::Terminate
    } else {
        Kill::Kill
    }
}

/// What the renderer does about a call from the page.
#[derive(Debug, PartialEq, Eq)]
pub enum Action {
    /// Nothing.
    Ignore,
    /// Tell the player that this layout is showing.
    Announce(i64),
    /// Ask the schedule for the next layout, and go on by [`advance`].
    Advance,
    /// Ask the schedule for the previous layout, and go on by [`show`].
    GoBack,
    /// Navigate to this URL.
    Navigate(String),
    /// Have the player run this command.
    Command(String),
    /// Have the player run this shell command, through a shell or not.
    Shell(String, bool),
    /// Have the player stop the running shell command.
    StopShell(Kill),
    /// Report that the renderer does not play the video of this widget yet.
    CannotPlay(String),
    /// Report this line of diagnostics.
    Report(String),
}

/// The contents of an [`Action`].
pub enum ActionView {
    Ignore,
    Announce(i64),
    Advance,
    GoBack,
    Navigate(Seq<char>),
    Command(Seq<char>),
    Shell(Seq<char>, bool),
    StopShell(Kill),
    CannotPlay(Seq<char>),
    Report(Seq<char>),
}

impl View for Action {
    type V = ActionView;

    open spec fn view(&self) -> ActionView {
        match *self {
            Action::Ignore => ActionView::Ignore,
            Action::Announce(id) => ActionView::Announce(id),
            Action::Advance => ActionView::Advance,
            Action::GoBack => ActionView::GoBack,
            Action::Navigate(url) => ActionView::Navigate(url@),
            Action::Command(code) => ActionView::Command(code@),
            Action::Shell(cmd, with_shell) => ActionView::Shell(cmd@, with_shell),
            Action::StopShell(kill) => ActionView::StopShell(kill),
            Action::CannotPlay(mid) => ActionView::CannotPlay(mid@),
            Action::Report(line) => ActionView::Report(line@),
        }
    }
}

/// What the renderer does about a call.
///
/// The splash layout has id zero and is not announced: it is not one of the
/// layouts that the player was given to show.
pub open spec fn reaction(base_uri: Seq<char>, call: Call) -> ActionView {
    match call {
        Call::LayoutInit { id, .. } => if id > 0 {
            ActionView::Announce(id)
        } else {
            ActionView::Ignore
        },
        Call::LayoutDone { .. } => ActionView::Advance,
        Call::LayoutPrev { .. } => ActionView::GoBack,
        Call::LayoutJump { target, .. } => ActionView::Navigate(base_uri + layout_file(target)),
        Call::Command(code) => ActionView::Command(code),
        Call::Shell(cmd, with_shell) => ActionView::Shell(cmd, with_shell),
        Call::StopShell(mode) => ActionView::StopShell(kill_of(mode)),
        Call::VideoPlay { mid, .. } => ActionView::CannotPlay(mid),
        Call::VideoStop { .. } => ActionView::Ignore,
        Call::Log(line) => ActionView::Report(line),
    }
}

/// Says what to do about a call from the page.
pub fn react(base_uri: &str, msg: BridgeMsg) -> (r: Action)
    ensures
        r@ == reaction(base_uri@, msg@),
{
    match msg {
        BridgeMsg::LayoutInit { id, width: _, height: _ } => if id > 0 {
            Action::Announce(id)
        } else {
            Action::Ignore
        },
        BridgeMsg::LayoutDone { id: _ } => Action::Advance,
        BridgeMsg::LayoutPrev { id: _ } => Action::GoBack,
        BridgeMsg::LayoutJump { id: _, target } => Action::Navigate(layout_url(base_uri, target)),
        BridgeMsg::Command(code) => Action::Command(code),
        BridgeMsg::Shell(cmd, with_shell) => Action::Shell(cmd, with_shell),
        BridgeMsg::StopShell(mode) => {
            let kill = if mode == 0 {
                Kill::No
            } else if mode == 1 {
                Kill::Terminate
            } else {
                Kill::Kill
            };
            Action::StopShell(kill)
        },
        BridgeMsg::VideoPlay { mid, uri: _, x: _, y: _, w: _, h: _, muted: _ } => {
            Action::CannotPlay(mid)
        },
        BridgeMsg::VideoStop { mid: _ } => Action::Ignore,
        BridgeMsg::Log(line) => Action::Report(line),
    }
}

/// What follows the end of a layout.
#[derive(Debug, PartialEq, Eq)]
pub enum Advance {
    /// Navigate to this URL.
    Navigate(String),
    /// Tell the schedule that its only layout has played through.
    MarkDone,
}

/// Says what follows the end of a layout, given what the schedule has next.
pub fn advance(base_uri: &str, next: Option<i64>) -> (r: Advance)
    ensures
        match next {
            Some(id) => r matches Advance::Navigate(url) && url@ == base_uri@ + layout_file(id),
            None => r is MarkDone,
        },
{
    match next {
        Some(id) => Advance::Navigate(layout_url(base_uri, id)),
        None => Advance::MarkDone,
    }
}

/// A message from the pipeline.
#[derive(Debug, Clone, Copy, PartialEq, Eq, Structural)]
pub enum BusMessage {
    /// An element has failed.
    Error,
    /// An element, or the pipeline itself, has changed its state.
    StateChanged,
    /// An element complains.
    Warning,
    /// The stream has ended. The source is live, so this means that its web
    /// view went away.
    Eos,
    /// Anything else.
    Other,
}

/// Whether a message from the pipeline means that it has stopped.
pub fn stops(msg: BusMessage) -> (r: bool)
    ensures
        r == (msg is Error || msg is Eos),
{
    match msg {
        BusMessage::Error => true,
        BusMessage::Eos => true,
        _ => false,
    }
}

} // verus!
