//! What the embedded web server answers.
//!
//! The server reads requests, resolves and reads files and sends answers; what
//! it does with each of them is decided here, in steps. Between two steps
//! stands what only the server can do: [`begin`] looks at a request and says
//! what to do first, [`answer_call`] takes the body of a call, [`look_up`]
//! takes what was found in the cache directory, and the `*_reply` functions
//! take what was read from there.

use crate::bridge::{
    call_of, parse, parsed, rewrite_html, rewritten, BridgeMsg, Call, BRIDGE_PREFIX, BRIDGE_SCRIPT,
    BRIDGE_SCRIPT_PATH,
};
use crate::decimal::{decimal, write_u64};
use crate::encoding::{from_utf8, utf8_text};
use crate::query::{
    find_parameter, lookup, pair_views, parameters, path_of, raw_parameters, text_of, url_parameters,
    url_path,
};
use crate::range::{parse_range, range_of, RangeError};
use crate::search::{push_bytes, replace_all, replace_every, replace_first, replace_once};
use crate::text::{
    after_prefix, from_chars, has_suffix, same, same_items, to_chars, trim_end, trimmed_end,
};
use vstd::prelude::*;
use vstd::utf8::{encode_utf8, is_ascii_chars};

verus! {

/// A request, as far as its answer depends on it.
pub struct Request {
    /// The path and query asked for.
    pub url: String,
    /// The header fields and their values, in order.
    pub headers: Vec<(String, String)>,
}

/// What an answer consists of.
#[derive(Debug, PartialEq, Eq)]
pub enum Body {
    /// Nothing.
    Empty,
    /// A text.
    Text(String),
    /// Bytes.
    Bytes(Vec<u8>),
    /// The splash image.
    Splash,
    /// The whole of the file that was opened.
    File,
    /// `size` bytes of the file that was opened, from the byte `from` on.
    Part { from: u64, size: u64 },
}

/// An answer to a request.
#[derive(Debug, PartialEq, Eq)]
pub struct Reply {
    /// The HTTP status.
    pub status: u16,
    /// The `Content-Type`, where one is given.
    pub content_type: Option<&'static str>,
    /// The `Content-Range`, where one is given.
    pub content_range: Option<String>,
    /// The body.
    pub body: Body,
}

/// The contents of a [`Body`].
pub enum BodyView {
    Empty,
    Text(Seq<char>),
    Bytes(Seq<u8>),
    Splash,
    File,
    Part { from: u64, size: u64 },
}

/// The contents of a [`Reply`].
pub struct ReplyView {
    pub status: u16,
    pub content_type: Option<Seq<char>>,
    pub content_range: Option<Seq<char>>,
    pub body: BodyView,
}

impl View for Body {
    type V = BodyView;

    open spec fn view(&self) -> BodyView {
        match *self {
            Body::Empty => BodyView::Empty,
            Body::Text(text) => BodyView::Text(text@),
            Body::Bytes(data) => BodyView::Bytes(data@),
            Body::Splash => BodyView::Splash,
            Body::File => BodyView::File,
            Body::Part { from, size } => BodyView::Part { from, size },
        }
    }
}

impl View for Reply {
    type V = ReplyView;

    open spec fn view(&self) -> ReplyView {
        ReplyView {
            status: self.status,
            content_type: match self.content_type {
                Some(t) => Some(t@),
                None => None,
            },
            content_range: text_of(self.content_range),
            body: self.body@,
        }
    }
}

/// An answer that is no more than a status.
pub open spec fn bare(status: u16) -> ReplyView {
    ReplyView { status, content_type: None, content_range: None, body: BodyView::Empty }
}

/// A successful answer.
pub open spec fn success(content_type: Option<Seq<char>>, body: BodyView) -> ReplyView {
    ReplyView { status: 200, content_type, content_range: None, body }
}

fn bare_reply(status: u16) -> (r: Reply)
    ensures
        r@ == bare(status),
{
    Reply { status, content_type: None, content_range: None, body: Body::Empty }
}

fn success_reply(content_type: Option<&'static str>, body: Body) -> (r: Reply)
    ensures
        r@ == success(
            match content_type {
                Some(t) => Some(t@),
                None => None,
            },
            body@,
        ),
{
    Reply { status: 200, content_type, content_range: None, body }
}

/// The answer to a request that could not be processed.
pub fn failure_reply() -> (r: Reply)
    ensures
        r@ == bare(500),
{
    bare_reply(500)
}

/// The page shown before the first layout.
pub const SPLASH_HTML: &'static str = r#"<!DOCTYPE html>
<html>
<head>
<script src="qrc:///qtwebchannel/qwebchannel.js"></script>
<script>
new QWebChannel(qt.webChannelTransport, function(channel) {
  window.arexiboGui = channel.objects.arexibo;
  window.arexiboGui.jsLayoutInit(0, 1920, 1080);
});
</script>
</head>
<body style="margin: 0">
<img style="display: block; width: 100%; height: 100%" src="splash.jpg">
</body>
</html>
"#;

/// What to do first about a request.
#[derive(Debug, PartialEq, Eq)]
pub enum First {
    /// Answer it.
    Respond(Reply),
    /// Read its body: it is a call from the page.
    ReadBody,
    /// Look this path up in the cache directory.
    Locate(String),
}

/// The contents of a [`First`].
pub enum FirstView {
    Respond(ReplyView),
    ReadBody,
    Locate(Seq<char>),
}

impl View for First {
    type V = FirstView;

    open spec fn view(&self) -> FirstView {
        match *self {
            First::Respond(reply) => FirstView::Respond(reply@),
            First::ReadBody => FirstView::ReadBody,
            First::Locate(path) => FirstView::Locate(path@),
        }
    }
}

/// The answer to a URL that stands for something built in.
///
/// The bridge's script is there only where the bridge is. The duration
/// callbacks are acknowledged and have no effect.
pub open spec fn built_in(bridge: bool, url: Seq<char>) -> Option<ReplyView> {
    if bridge && url == BRIDGE_SCRIPT_PATH@ {
        Some(success(Some("application/javascript"@), BodyView::Text(BRIDGE_SCRIPT@)))
    } else if url == "/favicon.ico"@ {
        Some(success(None, BodyView::Empty))
    } else if url == "/splash.jpg"@ {
        Some(success(None, BodyView::Splash))
    } else if url == "/0.xlf.html"@ {
        Some(success(None, BodyView::Text(SPLASH_HTML@)))
    } else if url == "/duration/set"@ || url == "/duration/extend"@ || url == "/duration/expire"@ {
        Some(success(Some("application/json"@), BodyView::Text("{}"@)))
    } else {
        None
    }
}

/// Whether a URL is that of a call from the page.
pub open spec fn is_call(bridge: bool, url: Seq<char>) -> bool {
    bridge && BRIDGE_PREFIX@.is_prefix_of(url)
}

/// Whether a URL is looked up in the cache directory.
pub open spec fn is_static(bridge: bool, url: Seq<char>) -> bool {
    !is_call(bridge, url) && built_in(bridge, url) is None
}

/// Whether a URL has a path to look up: it begins with one ASCII character,
/// which stands for the root, before any `?`.
pub open spec fn has_path(url: Seq<char>) -> bool {
    path_of(url).len() > 0 && path_of(url)[0] as u32 <= 0x7f
}

/// What to do first about a URL.
pub open spec fn begun(bridge: bool, url: Seq<char>) -> FirstView {
    if is_call(bridge, url) {
        FirstView::ReadBody
    } else {
        match built_in(bridge, url) {
            Some(reply) => FirstView::Respond(reply),
            None => FirstView::Locate(path_of(url).skip(1)),
        }
    }
}

/// Whether a URL is looked up in the cache directory without a path to look
/// up.
pub fn lacks_path(bridge: bool, url: &str) -> (r: bool)
    ensures
        r == (is_static(bridge, url@) && !has_path(url@)),
{
    if bridge && after_prefix(url, BRIDGE_PREFIX).is_some() {
        return false;
    }
    if built_in_reply(bridge, url).is_some() {
        return false;
    }
    let path = url_path(url);
    let v = to_chars(path.as_str());
    v.len() == 0 || v[0] as u32 > 0x7f
}

fn built_in_reply(bridge: bool, url: &str) -> (r: Option<Reply>)
    ensures
        match r {
            Some(reply) => built_in(bridge, url@) == Some(reply@),
            None => built_in(bridge, url@) is None,
        },
{
    if bridge && same(url, BRIDGE_SCRIPT_PATH) {
        Some(success_reply(Some("application/javascript"), Body::Text(BRIDGE_SCRIPT.to_owned())))
    } else if same(url, "/favicon.ico") {
        Some(success_reply(None, Body::Empty))
    } else if same(url, "/splash.jpg") {
        Some(success_reply(None, Body::Splash))
    } else if same(url, "/0.xlf.html") {
        Some(success_reply(None, Body::Text(SPLASH_HTML.to_owned())))
    } else if same(url, "/duration/set") || same(url, "/duration/extend") || same(
        url,
        "/duration/expire",
    ) {
        Some(success_reply(Some("application/json"), Body::Text("{}".to_owned())))
    } else {
        None
    }
}

/// Says what to do first about a request. `bridge` tells whether the page's
/// calls are taken.
///
/// The bridge comes before the cache directory: its paths never fall through
/// to it.
pub fn begin(bridge: bool, req: &Request) -> (r: First)
    requires
        is_static(bridge, req.url@) ==> has_path(req.url@),
    ensures
        r@ == begun(bridge, req.url@),
{
    let url = req.url.as_str();
    if bridge && after_prefix(url, BRIDGE_PREFIX).is_some() {
        return First::ReadBody;
    }
    match built_in_reply(bridge, url) {
        Some(reply) => First::Respond(reply),
        None => {
            let path = url_path(url);
            let v = to_chars(path.as_str());
            let below = from_chars(&v, 1, v.len());
            assert(below@ =~= path_of(url@).skip(1));
            First::Locate(below)
        },
    }
}

/// The answer to a call from the page, and the message for the renderer.
pub struct Answer {
    pub reply: Reply,
    pub msg: Option<BridgeMsg>,
}

/// The answer to a call: the body, where it could be read, is parsed without
/// the white space at its end. A malformed body is the page's problem and an
/// unknown call is refused.
pub open spec fn answered(url: Seq<char>, body: Option<Seq<char>>) -> (ReplyView, Option<Call>) {
    match body {
        Some(text) => match parsed(url, trimmed_end(text)) {
            Some(c) => (bare(204), Some(c)),
            None => (bare(404), None),
        },
        None => (bare(400), None),
    }
}

/// Answers a call from the page. `body` is `None` where it could not be read.
///
/// The message, if there is one, goes to the renderer, and the answer is the
/// same whether or not the renderer takes it.
pub fn answer_call(url: &str, body: Option<&str>) -> (r: Answer)
    ensures
        (r.reply@, call_of(r.msg)) == answered(
            url@,
            match body {
                Some(text) => Some(text@),
                None => None,
            },
        ),
{
    match body {
        Some(text) => {
            let text = trim_end(text);
            match parse(url, text.as_str()) {
                Some(msg) => Answer { reply: bare_reply(204), msg: Some(msg) },
                None => Answer { reply: bare_reply(404), msg: None },
            }
        },
        None => Answer { reply: bare_reply(400), msg: None },
    }
}

/// What was found where a path points to.
pub enum Found {
    /// The path cannot be resolved.
    Missing,
    /// It points out of the cache directory.
    Outside,
    /// It points to something in the cache directory: a file or not, with the
    /// last component of its resolved path for a name.
    Inside { is_file: bool, name: Vec<u8> },
}

/// The names of a list of path components.
pub open spec fn components(path: Seq<Vec<u8>>) -> Seq<Seq<u8>> {
    Seq::new(path.len(), |i: int| path[i]@)
}

/// Whether a resolved path lies under a resolved directory, or is that
/// directory: its components begin with those of the directory.
pub fn lies_under(path: &Vec<Vec<u8>>, dir: &Vec<Vec<u8>>) -> (r: bool)
    ensures
        r == components(dir@).is_prefix_of(components(path@)),
{
    let ghost p = components(path@);
    let ghost d = components(dir@);
    if dir.len() > path.len() {
        return false;
    }
    let mut i: usize = 0;
    while i < dir.len()
        invariant
            i <= dir@.len() <= path@.len(),
            p == components(path@),
            d == components(dir@),
            forall|j: int| 0 <= j < i ==> p[j] == d[j],
        decreases dir@.len() - i,
    {
        if !same_items(&path[i], &dir[i]) {
            assert(p.subrange(0, d.len() as int)[i as int] != d[i as int]);
            return false;
        }
        i = i + 1;
    }
    assert(p.subrange(0, d.len() as int) =~= d);
    true
}

/// The place of the last dot in a name.
pub open spec fn last_dot(name: Seq<u8>) -> Option<nat>
    decreases name.len(),
{
    if name.len() == 0 {
        None
    } else if name.last() == 0x2e {
        Some((name.len() - 1) as nat)
    } else {
        last_dot(name.drop_last())
    }
}

/// The extension of a name: what follows its last dot, if that is text. A dot
/// at the start of a name begins no extension, and `..` has none.
pub open spec fn extension(name: Seq<u8>) -> Option<Seq<char>> {
    match last_dot(name) {
        Some(i) => if i == 0 || name == seq![0x2eu8, 0x2eu8] {
            None
        } else {
            utf8_text(name.skip(i as int + 1))
        },
        None => None,
    }
}

/// The extension of a name.
pub fn name_extension(name: &Vec<u8>) -> (r: Option<String>)
    ensures
        text_of(r) == extension(name@),
{
    let n: usize = name.len();
    let mut i: usize = n;
    assert(name@.take(n as int) =~= name@);
    while i > 0 && name[i - 1] != 0x2e
        invariant
            i <= n == name@.len(),
            last_dot(name@.take(i as int)) == last_dot(name@),
        decreases i,
    {
        assert(name@.take(i as int).drop_last() =~= name@.take(i - 1));
        i = i - 1;
    }
    if i <= 1 {
        return None;
    }
    assert(last_dot(name@) == Some((i - 1) as nat));
    if n == 2 && name[0] == 0x2e {
        assert(name@ =~= seq![0x2eu8, 0x2eu8]);
        return None;
    }
    let mut rest: Vec<u8> = Vec::new();
    push_bytes(&mut rest, name.as_slice(), i, n);
    assert(rest@ =~= name@.skip(i as int));
    assert(n == 2 ==> name@[0] != 0x2e);
    from_utf8(&rest)
}

/// The extension of what was found.
pub open spec fn extension_of(found: Found) -> Option<Seq<char>> {
    match found {
        Found::Inside { name, .. } => extension(name@),
        _ => None,
    }
}

/// What to do about what was found.
#[derive(Debug, PartialEq, Eq)]
pub enum Next {
    /// Refuse the request.
    Refuse(Reply),
    /// Open the file, read it as text and answer by [`layout_reply`] with this
    /// width.
    ReadLayout(Option<String>),
    /// Open the file, read it and answer by [`viewport_reply`] with this width.
    ReadPage(String),
    /// Open the file, measure it and answer by [`range_reply`] with this range.
    Measure(String),
    /// Open the file and answer with it.
    SendFile(Reply),
}

/// The contents of a [`Next`].
pub enum NextView {
    Refuse(ReplyView),
    ReadLayout(Option<Seq<char>>),
    ReadPage(Seq<char>),
    Measure(Seq<char>),
    SendFile(ReplyView),
}

impl View for Next {
    type V = NextView;

    open spec fn view(&self) -> NextView {
        match *self {
            Next::Refuse(reply) => NextView::Refuse(reply@),
            Next::ReadLayout(width) => NextView::ReadLayout(text_of(width)),
            Next::ReadPage(width) => NextView::ReadPage(width@),
            Next::Measure(range) => NextView::Measure(range@),
            Next::SendFile(reply) => NextView::SendFile(reply@),
        }
    }
}

/// A character with capital ASCII letters made small.
pub open spec fn lower(c: char) -> char {
    if 'A' <= c <= 'Z' {
        (c as u32 + 32) as char
    } else {
        c
    }
}

/// Whether two texts are the same but for the case of ASCII letters.
pub open spec fn same_but_case(a: Seq<char>, b: Seq<char>) -> bool {
    a.len() == b.len() && forall|i: int| 0 <= i < a.len() ==> lower(#[trigger] a[i]) == lower(b[i])
}

/// The value of the first header field of a name, whatever its case.
pub open spec fn header_value(
    headers: Seq<(Seq<char>, Seq<char>)>,
    name: Seq<char>,
) -> Option<Seq<char>>
    decreases headers.len(),
{
    if headers.len() == 0 {
        None
    } else if same_but_case(headers[0].0, name) {
        Some(headers[0].1)
    } else {
        header_value(headers.skip(1), name)
    }
}

/// Whether a header field has a given name (`HeaderField::equiv` of `tiny_http`,
/// on the field that `HeaderField::from_bytes` makes of the text): it is the
/// same text but for the case of ASCII letters. A field is made of ASCII text
/// only.
#[verifier::external_body]
fn field_equiv(field: &str, name: &'static str) -> (r: bool)
    requires
        is_ascii_chars(field@),
    ensures
        r == same_but_case(field@, name@),
{
    tiny_http::HeaderField::from_bytes(field.as_bytes()).unwrap().equiv(name)
}

fn is_range_field(field: &str) -> (r: bool)
    ensures
        r == same_but_case(field@, "Range"@),
{
    proof {
        reveal_strlit("Range");
        if !is_ascii_chars(field@) && same_but_case(field@, "Range"@) {
            assert forall|i: int| 0 <= i < field@.len() implies 0 <= #[trigger] field@[i] < 128 by {
                assert(lower(field@[i]) == lower("Range"@[i]));
            }
        }
    }
    field.is_ascii() && field_equiv(field, "Range")
}

fn range_header(headers: &Vec<(String, String)>) -> (r: Option<String>)
    ensures
        text_of(r) == header_value(pair_views(headers@), "Range"@),
{
    let ghost all = pair_views(headers@);
    let mut i: usize = 0;
    assert(all.skip(0) =~= all);
    while i < headers.len()
        invariant
            i <= headers@.len(),
            all == pair_views(headers@),
            header_value(all.skip(i as int), "Range"@) == header_value(all, "Range"@),
        decreases headers@.len() - i,
    {
        assert(all.skip(i as int)[0] == all[i as int]);
        assert(all.skip(i as int).skip(1) =~= all.skip(i + 1));
        if is_range_field(headers[i].0.as_str()) {
            return Some(headers[i].1.clone());
        }
        i = i + 1;
    }
    None
}

/// The type of a file's contents, guessed by the extension of its name.
pub open spec fn content_type(extension: Option<Seq<char>>) -> Seq<char> {
    match extension {
        Some(ext) => if ext == "html"@ {
            "text/html"@
        } else if ext == "js"@ || ext == "mjs"@ {
            "text/javascript"@
        } else if ext == "ttf"@ || ext == "otf"@ {
            "application/font-sfnt"@
        } else if ext == "jpg"@ || ext == "jpeg"@ {
            "image/jpeg"@
        } else if ext == "png"@ {
            "image/png"@
        } else if ext == "pdf"@ {
            "application/pdf"@
        } else if ext == "mp4"@ {
            "video/mp4"@
        } else if ext == "avi"@ {
            "video/avi"@
        } else if ext == "ogv"@ {
            "video/ogg"@
        } else if ext == "webm"@ {
            "video/webm"@
        } else {
            ""@
        },
        None => ""@,
    }
}

/// Guesses the type of a file's contents by the extension of its name.
pub fn guess_content_type(extension: &Option<String>) -> (r: &'static str)
    ensures
        r@ == content_type(text_of(*extension)),
{
    match extension {
        Some(ext) => {
            let ext = ext.as_str();
            if same(ext, "html") {
                "text/html"
            } else if same(ext, "js") || same(ext, "mjs") {
                "text/javascript"
            } else if same(ext, "ttf") || same(ext, "otf") {
                "application/font-sfnt"
            } else if same(ext, "jpg") || same(ext, "jpeg") {
                "image/jpeg"
            } else if same(ext, "png") {
                "image/png"
            } else if same(ext, "pdf") {
                "application/pdf"
            } else if same(ext, "mp4") {
                "video/mp4"
            } else if same(ext, "avi") {
                "video/avi"
            } else if same(ext, "ogv") {
                "video/ogg"
            } else if same(ext, "webm") {
                "video/webm"
            } else {
                ""
            }
        },
        None => "",
    }
}

/// What to do about what was found, where the width asked for is known.
///
/// Layouts go through the bridge's rewriting where the bridge is there. Other
/// pages have the width filled in where it was asked for. Of anything else a
/// part is sent where one was asked for, and else the whole.
pub open spec fn looked_up(
    bridge: bool,
    url: Seq<char>,
    headers: Seq<(Seq<char>, Seq<char>)>,
    found: Found,
    width: Option<Seq<char>>,
) -> NextView {
    match found {
        Found::Outside => NextView::Refuse(bare(403)),
        Found::Missing => NextView::Refuse(bare(404)),
        Found::Inside { is_file, .. } => if !is_file {
            NextView::Refuse(bare(404))
        } else if bridge && ".xlf.html"@.is_suffix_of(path_of(url)) {
            NextView::ReadLayout(width)
        } else if extension_of(found) == Some("html"@) && width is Some {
            NextView::ReadPage(width->0)
        } else {
            match header_value(headers, "Range"@) {
                Some(range) => NextView::Measure(range),
                None => NextView::SendFile(
                    success(Some(content_type(extension_of(found))), BodyView::File),
                ),
            }
        },
    }
}

/// Says what to do about what was found where the path of a request points to.
pub fn look_up(bridge: bool, req: &Request, found: Found) -> (r: Next)
    ensures
        r@ == looked_up(
            bridge,
            req.url@,
            pair_views(req.headers@),
            found,
            lookup(parameters(req.url@), "w"@),
        ),
        !req.url@.contains('%') ==> r@ == looked_up(
            bridge,
            req.url@,
            pair_views(req.headers@),
            found,
            lookup(raw_parameters(req.url@), "w"@),
        ),
{
    let params = url_parameters(req.url.as_str());
    let width = find_parameter(&params, "w");
    look_up_with_width(bridge, req, found, width)
}

/// Says what to do about what was found, where the width asked for is known.
pub fn look_up_with_width(
    bridge: bool,
    req: &Request,
    found: Found,
    width: Option<String>,
) -> (r: Next)
    ensures
        r@ == looked_up(bridge, req.url@, pair_views(req.headers@), found, text_of(width)),
{
    match found {
        Found::Outside => Next::Refuse(bare_reply(403)),
        Found::Missing => Next::Refuse(bare_reply(404)),
        Found::Inside { is_file, name } => {
            if !is_file {
                return Next::Refuse(bare_reply(404));
            }
            let path = url_path(req.url.as_str());
            if bridge && has_suffix(path.as_str(), ".xlf.html") {
                return Next::ReadLayout(width);
            }
            let extension = name_extension(&name);
            let is_html = match &extension {
                Some(ext) => same(ext.as_str(), "html"),
                None => false,
            };
            if is_html {
                if let Some(width) = width {
                    return Next::ReadPage(width);
                }
            }
            match range_header(&req.headers) {
                Some(range) => Next::Measure(range),
                None => {
                    let ctype = guess_content_type(&extension);
                    Next::SendFile(success_reply(Some(ctype), Body::File))
                },
            }
        },
    }
}

/// The place in a page where the width of the viewport goes.
pub const VIEWPORT_WIDTH: &'static str = "[[ViewPortWidth]]";

/// A layout as the page is to load it: with the width filled in everywhere, if
/// one was asked for, and with the shim in place of Qt's transport.
pub open spec fn layout_page(text: Seq<char>, width: Option<Seq<char>>) -> Seq<char> {
    match width {
        Some(w) => rewritten(replace_all(text, VIEWPORT_WIDTH@, w)),
        None => rewritten(text),
    }
}

/// The answer with a layout that was read.
pub fn layout_reply(text: &str, width: &Option<String>) -> (r: Reply)
    ensures
        r@ == success(
            Some("text/html"@),
            BodyView::Text(layout_page(text@, text_of(*width))),
        ),
{
    proof {
        reveal_strlit("[[ViewPortWidth]]");
    }
    let page = match width {
        Some(w) => {
            let filled = replace_every(text, VIEWPORT_WIDTH, w.as_str());
            rewrite_html(filled.as_str())
        },
        None => rewrite_html(text),
    };
    success_reply(Some("text/html"), Body::Text(page))
}

/// The answer with a page that was read, with the width filled in once.
pub fn viewport_reply(data: &Vec<u8>, width: &str) -> (r: Reply)
    ensures
        r@ == success(
            Some("text/html"@),
            BodyView::Bytes(
                replace_first(data@, encode_utf8(VIEWPORT_WIDTH@), encode_utf8(width@)),
            ),
        ),
{
    let page = replace_once(data, VIEWPORT_WIDTH.as_bytes(), width.as_bytes());
    success_reply(Some("text/html"), Body::Bytes(page))
}

/// The `Content-Range` of a part of a file.
pub open spec fn content_range(from: u64, to: u64, total_size: u64) -> Seq<char> {
    "bytes "@ + decimal(from as int) + "-"@ + decimal(to as int) + "/"@ + decimal(
        total_size as int,
    )
}

/// The answer to a request for a part of a file of `total_size` bytes.
pub fn range_reply(total_size: u64, range: &str) -> (r: Result<Reply, RangeError>)
    ensures
        match range_of(total_size, range@) {
            Ok((from, to, size)) => r matches Ok(reply) && reply@ == (ReplyView {
                status: 206,
                content_type: Some("video/mp4"@),
                content_range: Some(content_range(from, to, total_size)),
                body: BodyView::Part { from, size },
            }),
            Err(e) => r == Err::<Reply, RangeError>(e),
        },
{
    match parse_range(total_size, range) {
        Ok((from, to, size)) => {
            let mut text = "bytes ".to_owned();
            text.append(write_u64(from).as_str());
            text.append("-");
            text.append(write_u64(to).as_str());
            text.append("/");
            text.append(write_u64(total_size).as_str());
            Ok(
                Reply {
                    status: 206,
                    content_type: Some("video/mp4"),
                    content_range: Some(text),
                    body: Body::Part { from, size },
                },
            )
        },
        Err(e) => Err(e),
    }
}

} // verus!
