//! What the renderer does about each message, said of every one.

use crate::bridge::Call;
use crate::decimal::{decimal, wrapped_i32};
use crate::wpe::{
    debug_quoted, kill_of, layout_file, obeyed, pipeline, reaction, server_uri, shown, side,
    trigger_call, Action, ActionView, Kill, PlayerAction, PlayerActionView, PlayerMessage,
    PlayerMessageView,
};
use vstd::prelude::*;

verus! {

/// A shell command is run with its own text and with the flag it came with,
/// whatever they are.
pub proof fn law_shell_commands_are_run_as_asked(
    base_uri: Seq<char>,
    cmd: Seq<char>,
    with_shell: bool,
)
    ensures
        reaction(base_uri, Call::Shell(cmd, with_shell)) == ActionView::Shell(cmd, with_shell),
{
}

/// A command is handed on with its own text, and a line of diagnostics is
/// reported as it is.
pub proof fn law_texts_are_handed_on(base_uri: Seq<char>, text: Seq<char>)
    ensures
        reaction(base_uri, Call::Command(text)) == ActionView::Command(text),
        reaction(base_uri, Call::Log(text)) == ActionView::Report(text),
{
}

/// A layout that ends asks for the next one and a step back for the one before,
/// whatever its id; a jump goes to its own target, whatever it comes from; and
/// a layout that mounts is announced under its own id where that is positive,
/// whatever its size, and else ignored.
pub proof fn law_layout_calls_move_the_schedule(
    base_uri: Seq<char>,
    id: i64,
    target: i64,
    width: i32,
    height: i32,
)
    ensures
        reaction(base_uri, Call::LayoutDone { id }) is Advance,
        reaction(base_uri, Call::LayoutPrev { id }) is GoBack,
        reaction(base_uri, Call::LayoutJump { id, target }) == ActionView::Navigate(
            base_uri + decimal(target as int) + ".xlf.html"@,
        ),
        id > 0 ==> reaction(base_uri, Call::LayoutInit { id, width, height })
            == ActionView::Announce(id),
        id <= 0 ==> reaction(base_uri, Call::LayoutInit { id, width, height }) is Ignore,
{
    assert(base_uri + layout_file(target) =~= base_uri + decimal(target as int) + ".xlf.html"@);
}

/// A running shell command is left to finish in mode zero, asked to terminate
/// in mode one, and killed in any other.
pub proof fn law_stop_modes(base_uri: Seq<char>, mode: u8)
    ensures
        reaction(base_uri, Call::StopShell(0)) == ActionView::StopShell(Kill::No),
        reaction(base_uri, Call::StopShell(1)) == ActionView::StopShell(Kill::Terminate),
        mode >= 2 ==> reaction(base_uri, Call::StopShell(mode)) == ActionView::StopShell(
            Kill::Kill,
        ),
        kill_of(mode) == Kill::No <==> mode == 0,
        kill_of(mode) == Kill::Terminate <==> mode == 1,
{
}

/// No video is played: it is reported under the name of its widget, wherever it
/// would stand and whether muted or not. Stopping one has no effect.
pub proof fn law_videos_are_not_played(
    base_uri: Seq<char>,
    mid: Seq<char>,
    uri: Seq<char>,
    x: i32,
    y: i32,
    w: i32,
    h: i32,
    muted: bool,
)
    ensures
        reaction(base_uri, Call::VideoPlay { mid, uri, x, y, w, h, muted })
            == ActionView::CannotPlay(mid),
        reaction(base_uri, Call::VideoStop { mid }) is Ignore,
{
}

/// The server is found on this machine under its port, and a layout under its
/// id: where one is to be shown, the URL is that of the server and the file
/// name, and where none is, there is none.
pub proof fn law_layouts_are_found_on_the_server(port: u16, base_uri: Seq<char>, id: i64)
    ensures
        server_uri(port) == "http://localhost:"@ + decimal(port as int) + seq!['/'],
        layout_file(id) == decimal(id as int) + ".xlf.html"@,
        shown(base_uri, Some(id)) == Some(base_uri + decimal(id as int) + ".xlf.html"@),
        shown(base_uri, None) is None,
{
    reveal_strlit("/");
    assert("/"@ =~= seq!['/']);
    assert(base_uri + layout_file(id) =~= base_uri + decimal(id as int) + ".xlf.html"@);
}

/// A schedule that names a layout leads to it, one that names none has no
/// effect, and a webhook runs the page's trigger on its own code, quoted.
pub proof fn law_player_messages_lead_where_they_say(
    base_uri: Seq<char>,
    id: i64,
    code: Seq<char>,
    literal: Seq<char>,
)
    ensures
        obeyed(base_uri, PlayerMessageView::Layouts(Some(id))) == PlayerActionView::Navigate(
            base_uri + decimal(id as int) + ".xlf.html"@,
        ),
        obeyed(base_uri, PlayerMessageView::Layouts(None)) is Ignore,
        obeyed(base_uri, PlayerMessageView::WebHook(code)) == PlayerActionView::RunScript(
            "window.arexibo.trigger("@ + debug_quoted(code) + seq![')', ';'],
        ),
        obeyed(base_uri, PlayerMessageView::Settings) is Ignore,
        obeyed(base_uri, PlayerMessageView::Screenshot) is Ignore,
        trigger_call(literal) == "window.arexibo.trigger("@ + literal + seq![')', ';'],
{
    reveal_strlit(");");
    assert(");"@ =~= seq![')', ';']);
    assert(base_uri + layout_file(id) =~= base_uri + decimal(id as int) + ".xlf.html"@);
}

/// A side of the surface is that of the screen exactly where no positive size
/// is asked for; a size is kept up to 32 bits, and of a larger one the low 32
/// bits are.
pub proof fn law_sides_are_as_asked(size: int, screen: int)
    ensures
        size <= 0 ==> side(size, screen) == screen,
        0 < size <= i32::MAX ==> side(size, screen) == size,
        size > i32::MAX ==> side(size, screen) == wrapped_i32(size),
{
}

/// The pipeline renders the splash layout of the server first, at the width and
/// the height given, and ends in the sink.
pub proof fn law_pipeline_starts_with_the_splash(base_uri: Seq<char>, width: i32, height: i32)
    ensures
        pipeline(base_uri, width, height) == "wpevideosrc name=src location="@ + (base_uri
            + "0.xlf.html"@) + " ! video/x-raw,width="@ + decimal(width as int) + ",height="@
            + decimal(height as int)
            + ",framerate=60/1 ! queue max-size-buffers=3 leaky=downstream ! videoconvert ! waylandsink name=sink"@,
{
    assert("wpevideosrc name=src location="@ + base_uri + "0.xlf.html"@
        =~= "wpevideosrc name=src location="@ + (base_uri + "0.xlf.html"@));
}

/// What is said of an action is what it holds.
pub proof fn law_actions_are_what_they_hold(action: Action)
    ensures
        action is Ignore ==> action@ is Ignore,
        action matches Action::Announce(id) ==> action@ == ActionView::Announce(id),
        action is Advance ==> action@ is Advance,
        action is GoBack ==> action@ is GoBack,
        action matches Action::Navigate(url) ==> action@ == ActionView::Navigate(url@),
        action matches Action::Command(code) ==> action@ == ActionView::Command(code@),
        action matches Action::Shell(cmd, with_shell) ==> action@ == ActionView::Shell(
            cmd@,
            with_shell,
        ),
        action matches Action::StopShell(kill) ==> action@ == ActionView::StopShell(kill),
        action matches Action::CannotPlay(mid) ==> action@ == ActionView::CannotPlay(mid@),
        action matches Action::Report(line) ==> action@ == ActionView::Report(line@),
{
}

/// What is said of a message from the player, and of what is done about it, is
/// what they hold.
pub proof fn law_player_messages_are_what_they_hold(msg: PlayerMessage, action: PlayerAction)
    ensures
        msg matches PlayerMessage::Layouts(id) ==> msg@ == PlayerMessageView::Layouts(id),
        msg matches PlayerMessage::WebHook(code) ==> msg@ == PlayerMessageView::WebHook(code@),
        msg is Settings ==> msg@ is Settings,
        msg is Screenshot ==> msg@ is Screenshot,
        action is Ignore ==> action@ is Ignore,
        action matches PlayerAction::Navigate(url) ==> action@ == PlayerActionView::Navigate(url@),
        action matches PlayerAction::RunScript(script) ==> action@ == PlayerActionView::RunScript(
            script@,
        ),
{
}

} // verus!
