//! Calls from the rendered page to the player.
//!
//! The page has no native channel to the player, so it posts its calls to the
//! embedded web server. A shim script, served next to the layouts, gives the
//! page the `window.arexiboGui` object that the generated HTML expects; its
//! methods post to [`BRIDGE_PREFIX`]. The other direction, from the player to
//! the page, does not come through here.

use crate::decimal::{low_i32, number_i64, read_i64, wrapped_i32};
use crate::search::{replace_all, replace_every};
use crate::split::{join, join_strings, pieces, split_at};
use crate::text::{after_prefix, same, trim, trimmed, views};
use vstd::prelude::*;

verus! {

/// The URL prefix the shim posts to. Kept distinct from any layout filename.
pub const BRIDGE_PREFIX: &'static str = "/arexibo/";

/// Where the shim itself is served from.
pub const BRIDGE_SCRIPT_PATH: &'static str = "/arexibo-bridge.js";

/// The Qt transport that the generated HTML asks for, and for which the shim
/// is substituted.
pub const QT_TRANSPORT_SRC: &'static str = "qrc:///qtwebchannel/qwebchannel.js";

/// A call made by the page.
#[derive(Debug, PartialEq, Eq)]
pub enum BridgeMsg {
    /// The page has mounted a layout and reports its id and natural size.
    LayoutInit { id: i64, width: i32, height: i32 },
    /// Every region of this layout has finished; advance the schedule.
    LayoutDone { id: i64 },
    /// Go back one layout.
    LayoutPrev { id: i64 },
    /// Jump to a specific layout.
    LayoutJump { id: i64, target: i64 },
    /// Run a player command.
    Command(String),
    /// Run a shell command, optionally through a shell.
    Shell(String, bool),
    /// Stop a running shell command.
    StopShell(u8),
    /// A video widget wants to play. The renderer decodes it outside the page.
    VideoPlay { mid: String, uri: String, x: i32, y: i32, w: i32, h: i32, muted: bool },
    /// A video widget was hidden or paused.
    VideoStop { mid: String },
    /// A line of diagnostics from the page, whose console nobody can read.
    Log(String),
}

/// A call made by the page, with its texts as sequences of characters.
pub enum Call {
    LayoutInit { id: i64, width: i32, height: i32 },
    LayoutDone { id: i64 },
    LayoutPrev { id: i64 },
    LayoutJump { id: i64, target: i64 },
    Command(Seq<char>),
    Shell(Seq<char>, bool),
    StopShell(u8),
    VideoPlay { mid: Seq<char>, uri: Seq<char>, x: i32, y: i32, w: i32, h: i32, muted: bool },
    VideoStop { mid: Seq<char> },
    Log(Seq<char>),
}

impl View for BridgeMsg {
    type V = Call;

    open spec fn view(&self) -> Call {
        match *self {
            BridgeMsg::LayoutInit { id, width, height } => Call::LayoutInit { id, width, height },
            BridgeMsg::LayoutDone { id } => Call::LayoutDone { id },
            BridgeMsg::LayoutPrev { id } => Call::LayoutPrev { id },
            BridgeMsg::LayoutJump { id, target } => Call::LayoutJump { id, target },
            BridgeMsg::Command(code) => Call::Command(code@),
            BridgeMsg::Shell(cmd, with_shell) => Call::Shell(cmd@, with_shell),
            BridgeMsg::StopShell(mode) => Call::StopShell(mode),
            BridgeMsg::VideoPlay { mid, uri, x, y, w, h, muted } => Call::VideoPlay {
                mid: mid@,
                uri: uri@,
                x,
                y,
                w,
                h,
                muted,
            },
            BridgeMsg::VideoStop { mid } => Call::VideoStop { mid: mid@ },
            BridgeMsg::Log(line) => Call::Log(line@),
        }
    }
}

/// The call that an optional message stands for.
pub open spec fn call_of(msg: Option<BridgeMsg>) -> Option<Call> {
    match msg {
        Some(m) => Some(m@),
        None => None,
    }
}

/// The arguments in the body of a call: one to a line, and none where the body
/// is empty.
pub open spec fn arguments(body: Seq<char>) -> Seq<Seq<char>> {
    if body.len() == 0 {
        seq![]
    } else {
        pieces(body, set!['\n'])
    }
}

/// An argument as a whole number, if it is there and is one.
pub open spec fn number_at(args: Seq<Seq<char>>, i: int) -> Option<i64> {
    if i < args.len() {
        number_i64(trimmed(args[i]))
    } else {
        None
    }
}

/// An argument as a length or place on the screen: zero where there is none,
/// and its low 32 bits where it is too large.
pub open spec fn pixels_at(args: Seq<Seq<char>>, i: int) -> i32 {
    match number_at(args, i) {
        Some(n) => wrapped_i32(n as int) as i32,
        None => 0,
    }
}

/// Whether an argument is the given text, white space around it aside.
pub open spec fn says(args: Seq<Seq<char>>, i: int, word: Seq<char>) -> bool {
    i < args.len() && trimmed(args[i]) == word
}

/// A number brought into the range from zero to two.
pub open spec fn kill_mode(n: int) -> u8 {
    if n < 0 {
        0
    } else if n > 2 {
        2
    } else {
        n as u8
    }
}

/// The call that a method name and its arguments stand for. There is none
/// where the method is unknown or an argument it cannot do without is missing.
pub open spec fn call(method: Seq<char>, args: Seq<Seq<char>>) -> Option<Call> {
    if method == "layoutInit"@ {
        match number_at(args, 0) {
            Some(id) => Some(
                Call::LayoutInit { id, width: pixels_at(args, 1), height: pixels_at(args, 2) },
            ),
            None => None,
        }
    } else if method == "layoutDone"@ {
        match number_at(args, 0) {
            Some(id) => Some(Call::LayoutDone { id }),
            None => None,
        }
    } else if method == "layoutPrev"@ {
        match number_at(args, 0) {
            Some(id) => Some(Call::LayoutPrev { id }),
            None => None,
        }
    } else if method == "layoutJump"@ {
        match (number_at(args, 0), number_at(args, 1)) {
            (Some(id), Some(target)) => Some(Call::LayoutJump { id, target }),
            _ => None,
        }
    } else if method == "command"@ {
        if args.len() > 0 {
            Some(Call::Command(args[0]))
        } else {
            None
        }
    } else if method == "shell"@ {
        if args.len() > 0 {
            Some(Call::Shell(args[0], says(args, 1, "1"@) || says(args, 1, "true"@)))
        } else {
            None
        }
    } else if method == "stopShell"@ {
        Some(
            Call::StopShell(
                match number_at(args, 0) {
                    Some(n) => kill_mode(n as int),
                    None => 0,
                },
            ),
        )
    } else if method == "videoPlay"@ {
        if args.len() > 1 {
            Some(
                Call::VideoPlay {
                    mid: args[0],
                    uri: args[1],
                    x: pixels_at(args, 2),
                    y: pixels_at(args, 3),
                    w: pixels_at(args, 4),
                    h: pixels_at(args, 5),
                    muted: args.len() <= 6 || says(args, 6, "1"@),
                },
            )
        } else {
            None
        }
    } else if method == "videoStop"@ {
        if args.len() > 0 {
            Some(Call::VideoStop { mid: args[0] })
        } else {
            None
        }
    } else if method == "log"@ {
        Some(Call::Log(join(args, " "@)))
    } else {
        None
    }
}

/// The call that a request stands for, if it is one.
pub open spec fn parsed(path: Seq<char>, body: Seq<char>) -> Option<Call> {
    if BRIDGE_PREFIX@.is_prefix_of(path) {
        call(path.skip(BRIDGE_PREFIX@.len() as int), arguments(body))
    } else {
        None
    }
}

fn num(args: &Vec<String>, i: usize) -> (r: Option<i64>)
    ensures
        r == number_at(views(args@), i as int),
{
    if i < args.len() {
        let word = trim(args[i].as_str());
        read_i64(word.as_str())
    } else {
        None
    }
}

fn pixels(args: &Vec<String>, i: usize) -> (r: i32)
    ensures
        r == pixels_at(views(args@), i as int),
{
    match num(args, i) {
        Some(n) => low_i32(n),
        None => 0,
    }
}

fn is_word(args: &Vec<String>, i: usize, word: &str) -> (r: bool)
    ensures
        r == says(views(args@), i as int, word@),
{
    if i < args.len() {
        let arg = trim(args[i].as_str());
        same(arg.as_str(), word)
    } else {
        false
    }
}

/// Parses a call. `path` is the full request URL, `body` its body.
///
/// Arguments come as newline-separated values.
pub fn parse(path: &str, body: &str) -> (r: Option<BridgeMsg>)
    ensures
        call_of(r) == parsed(path@, body@),
{
    let method = match after_prefix(path, BRIDGE_PREFIX) {
        Some(method) => method,
        None => {
            return None;
        },
    };
    let args: Vec<String> = if body.is_empty() {
        Vec::new()
    } else {
        split_at(body, '\n')
    };
    proof {
        if body@.len() == 0 {
            assert(views(args@) =~= seq![]);
        }
    }
    dispatch(method.as_str(), &args)
}

fn dispatch(method: &str, args: &Vec<String>) -> (r: Option<BridgeMsg>)
    ensures
        call_of(r) == call(method@, views(args@)),
{
    if same(method, "layoutInit") {
        match num(args, 0) {
            Some(id) => Some(
                BridgeMsg::LayoutInit { id, width: pixels(args, 1), height: pixels(args, 2) },
            ),
            None => None,
        }
    } else if same(method, "layoutDone") {
        match num(args, 0) {
            Some(id) => Some(BridgeMsg::LayoutDone { id }),
            None => None,
        }
    } else if same(method, "layoutPrev") {
        match num(args, 0) {
            Some(id) => Some(BridgeMsg::LayoutPrev { id }),
            None => None,
        }
    } else if same(method, "layoutJump") {
        match (num(args, 0), num(args, 1)) {
            (Some(id), Some(target)) => Some(BridgeMsg::LayoutJump { id, target }),
            _ => None,
        }
    } else if same(method, "command") {
        if args.len() > 0 {
            Some(BridgeMsg::Command(args[0].clone()))
        } else {
            None
        }
    } else if same(method, "shell") {
        // A missing second argument means "no shell".
        if args.len() > 0 {
            let with_shell = is_word(args, 1, "1") || is_word(args, 1, "true");
            Some(BridgeMsg::Shell(args[0].clone(), with_shell))
        } else {
            None
        }
    } else if same(method, "stopShell") {
        let mode: u8 = match num(args, 0) {
            Some(n) => if n < 0 {
                0
            } else if n > 2 {
                2
            } else {
                n as u8
            },
            None => 0,
        };
        Some(BridgeMsg::StopShell(mode))
    } else if same(method, "videoPlay") {
        // mid, uri, x, y, w, h, muted
        if args.len() > 1 {
            Some(
                BridgeMsg::VideoPlay {
                    mid: args[0].clone(),
                    uri: args[1].clone(),
                    x: pixels(args, 2),
                    y: pixels(args, 3),
                    w: pixels(args, 4),
                    h: pixels(args, 5),
                    muted: args.len() <= 6 || is_word(args, 6, "1"),
                },
            )
        } else {
            None
        }
    } else if same(method, "videoStop") {
        if args.len() > 0 {
            Some(BridgeMsg::VideoStop { mid: args[0].clone() })
        } else {
            None
        }
    } else if same(method, "log") {
        Some(BridgeMsg::Log(join_strings(args, " ")))
    } else {
        None
    }
}

/// Generated layout HTML with the shim in place of Qt's transport.
pub open spec fn rewritten(html: Seq<char>) -> Seq<char> {
    replace_all(html, QT_TRANSPORT_SRC@, BRIDGE_SCRIPT_PATH@)
}

/// Rewrites generated layout HTML so that it loads the shim instead of Qt's
/// transport.
///
/// Done on the way out, so that the same file on disk serves both renderers.
pub fn rewrite_html(html: &str) -> (r: String)
    ensures
        r@ == rewritten(html@),
{
    proof {
        reveal_strlit("qrc:///qtwebchannel/qwebchannel.js");
    }
    replace_every(html, QT_TRANSPORT_SRC, BRIDGE_SCRIPT_PATH)
}

/// The shim served at [`BRIDGE_SCRIPT_PATH`].
///
/// The callback of a real `QWebChannel` is asynchronous, and the generated
/// HTML defines `window.arexibo` after the script block that constructs the
/// channel. A synchronous callback would throw and the layout would never
/// start. Hence the `setTimeout`.
pub const BRIDGE_SCRIPT: &'static str = r#"
// Gaxibo bridge shim -- stands in for qwebchannel.js under the WPE renderer.
(function () {
  function post(method, args) {
    try {
      var body = (args || []).map(function (a) { return String(a); }).join("\n");
      // keepalive so a navigation triggered by this very call cannot cancel it
      fetch("/arexibo/" + method, { method: "POST", body: body, keepalive: true })
        .catch(function (e) { console.warn("gaxibo bridge " + method + ": " + e); });
    } catch (e) {
      console.warn("gaxibo bridge " + method + " threw: " + e);
    }
  }
  var gui = {
    jsLayoutInit: function (id, w, h) { post("layoutInit", [id, w, h]); },
    jsLayoutDone: function (id) { post("layoutDone", [id]); },
    jsLayoutPrev: function (id) { post("layoutPrev", [id]); },
    jsLayoutJump: function (id, target) { post("layoutJump", [id, target]); },
    jsCommand: function (code) { post("command", [code]); },
    jsShell: function (cmd, withShell) { post("shell", [cmd, withShell ? 1 : 0]); },
    jsStopShell: function (kill) { post("stopShell", [kill]); }
  };
  window.qt = { webChannelTransport: {} };
  window.QWebChannel = function (transport, callback) {
    // deferred: window.arexibo is defined by a later script block
    setTimeout(function () {
      try {
        callback({ objects: { arexibo: gui } });
      } catch (e) {
        console.error("gaxibo bridge init failed: " + e);
      }
    }, 0);
  };
  window.arexiboGui = gui;

  // ---- video: decoded by the host, not by the page ----
  //
  // QtWebEngine cannot reach the VPU, and neither can WPE's media stack here.
  // So a video widget's frames come from a GStreamer branch instead, and the
  // element in the page becomes a hole.
  //
  // This intercepts HTMLVideoElement.prototype.play rather than changing what
  // layout.rs emits, for three reasons: the generated HTML stays identical for
  // both renderers, the translator's version marker need not move, and the
  // sequencing logic that decides *when* a widget plays is untouched -- it
  // still calls play(), and still waits for `ended`.
  //
  // Deliberately HTMLVideoElement, not HTMLMediaElement: Arexibo has an audio
  // widget type, and the host cannot route audio yet, so <audio> must keep
  // working the way it does today.
  gui.log = function (msg) { post("log", [msg]); };

  // Stop the page fetching the media at all, and do it *before* the fetch
  // starts.
  //
  // The host decodes the clip, so the element only needs to exist as a
  // placeholder. Two things go wrong if it is left alone:
  //
  //  - WPE downloads the file itself. For the 228 MB stress clip that
  //    saturated the loopback server for about a minute, and the bridge POST
  //    announcing the video queued behind it -- so the clip started roughly
  //    60 seconds late, every time, with nothing in any log to say why.
  //  - Removing the `src` attribute afterwards does not abort a media load
  //    that is already in flight, so cleaning up on DOMContentLoaded is too
  //    late to help.
  //
  // Hence a MutationObserver installed from the document head, before the body
  // is parsed: each <video> is stripped as it appears, so no fetch is ever
  // started. The DOMContentLoaded sweep stays as a backstop for anything the
  // observer misses.
  function strip(v) {
    if (!v || v.dataset.gaxiboSrc) return false;
    var s = v.getAttribute("src") || "";
    if (s) {
      v.dataset.gaxiboSrc = s;
      v.removeAttribute("src");
      // load() makes the element forget the resource selection it had already
      // begun, which removeAttribute alone does not.
      try { v.load(); } catch (e) {}
    }
    v.preload = "none";
    return true;
  }
  try {
    new MutationObserver(function (recs) {
      for (var i = 0; i < recs.length; i++) {
        var added = recs[i].addedNodes;
        for (var j = 0; j < added.length; j++) {
          var n = added[j];
          if (!n.tagName) continue;
          if (n.tagName === "VIDEO") strip(n);
          else if (n.querySelectorAll) {
            var vs = n.querySelectorAll("video");
            for (var k = 0; k < vs.length; k++) strip(vs[k]);
          }
        }
      }
    }).observe(document.documentElement, { childList: true, subtree: true });
  } catch (e) {
    post("log", ["MutationObserver unavailable: " + e]);
  }
  function neutralise() {
    var vids = document.querySelectorAll("video"), n = 0;
    for (var i = 0; i < vids.length; i++) if (strip(vids[i])) n++;
    post("log", ["swept " + vids.length + " video element(s), " + n + " newly stripped"]);
  }
  if (document.readyState === "loading") {
    document.addEventListener("DOMContentLoaded", neutralise);
  } else {
    neutralise();
  }
  window.addEventListener("load", function () { post("log", ["window load fired"]); });

  var origPlay = HTMLVideoElement.prototype.play;
  var origPause = HTMLVideoElement.prototype.pause;
  HTMLVideoElement.prototype.play = function () {
    post("log", ["play() intercepted for " + this.id]);
    try {
      var r = this.getBoundingClientRect();
      // The host needs a stable name for the file; the page's src is relative
      // to the embedded server, so the basename is what identifies it.
      var src = (this.dataset.gaxiboSrc || this.getAttribute("src") ||
                 this.currentSrc || "").split("/").pop();
      // Make the element a hole so the host's frames show through. Opacity
      // rather than visibility: the sequencing code sets visibility itself,
      // and fighting it would mean tracking its state.
      this.style.opacity = "0";
      post("videoPlay", [this.id, src,
                         Math.round(r.left), Math.round(r.top),
                         Math.round(r.width), Math.round(r.height),
                         this.muted ? 1 : 0]);
      window.__gaxiboHostVideo = window.__gaxiboHostVideo || {};
      window.__gaxiboHostVideo[this.id] = true;
      return Promise.resolve();
    } catch (e) {
      console.warn("gaxibo videoPlay failed, falling back to the page: " + e);
      return origPlay.call(this);
    }
  };
  HTMLVideoElement.prototype.pause = function () {
    try {
      if (window.__gaxiboHostVideo && window.__gaxiboHostVideo[this.id]) {
        delete window.__gaxiboHostVideo[this.id];
        post("videoStop", [this.id]);
        return;
      }
    } catch (e) {
      console.warn("gaxibo videoStop failed: " + e);
    }
    return origPause.call(this);
  };

  // Called by the host when its decoder reaches the end of the clip, so the
  // page's own sequencing (which waits for `ended`) advances exactly as it
  // would have if the page had decoded the video itself.
  window.__gaxiboVideoEnded = function (mid) {
    var el = document.getElementById(mid);
    if (el) el.dispatchEvent(new Event("ended"));
  };
})();
"#;

} // verus!
