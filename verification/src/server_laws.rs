//! What holds of the web server and the renderer as a whole.

use crate::bridge::{Call, BRIDGE_PREFIX, BRIDGE_SCRIPT, BRIDGE_SCRIPT_PATH, QT_TRANSPORT_SRC};
use crate::bridge_laws::{
    body_of, is_plain, law_call_arrives, law_rewriting_removes_the_transport,
    lemma_decimal_on_the_wire, posted, url_of,
};
use crate::decimal::{decimal, is_digit, lemma_numeral, numeral};
use crate::encoding::lemma_no_ascii_byte;
use crate::query::{
    has_key, law_given_keys_are_found, lookup, parameters, path_of, raw_parameters,
};
use crate::search::{law_replace_without_occurrence, occurs, replace_all};
use crate::server::{
    answered, bare, begun, built_in, content_type, extension, extension_of, has_path, header_value,
    is_call, is_static, last_dot, layout_page, looked_up, success, BodyView, FirstView, Found, NextView,
    VIEWPORT_WIDTH,
};
use crate::split::{free_of, join, lemma_pieces_step, lemma_pieces_whole};
use crate::text::{is_space, lemma_trimmed_end_fixed};
use crate::wpe::{
    layout_file, obeyed, reaction, server_uri, shown, side, ActionView, PlayerActionView,
    PlayerMessageView,
};
use vstd::prelude::*;
use vstd::utf8::{decode_utf8, encode_utf8};

verus! {

/// The paths of the bridge never fall through to the cache directory: a
/// request under its prefix is taken for a call, and the shim is answered with
/// its text.
pub proof fn law_bridge_paths_never_reach_the_cache(url: Seq<char>)
    ensures
        BRIDGE_PREFIX@.is_prefix_of(url) ==> begun(true, url) == FirstView::ReadBody,
        url == BRIDGE_SCRIPT_PATH@ ==> begun(true, url) == FirstView::Respond(
            success(Some("application/javascript"@), BodyView::Text(BRIDGE_SCRIPT@)),
        ),
{
    if url == BRIDGE_SCRIPT_PATH@ && BRIDGE_PREFIX@.is_prefix_of(url) {
        reveal_strlit("/arexibo/");
        reveal_strlit("/arexibo-bridge.js");
        assert(url.subrange(0, 9)[8] == url[8]);
    }
}

/// Every URL with a meaning of its own is told by the character after its
/// slash, and has no query.
pub proof fn lemma_named_urls()
    ensures
        BRIDGE_PREFIX@.len() == 9,
        BRIDGE_PREFIX@[0] == '/',
        BRIDGE_PREFIX@[1] == 'a',
        BRIDGE_SCRIPT_PATH@.len() > 1,
        BRIDGE_SCRIPT_PATH@[1] == 'a',
        "/favicon.ico"@[1] == 'f',
        "/splash.jpg"@[1] == 's',
        "/0.xlf.html"@[1] == '0',
        "/duration/set"@[1] == 'd',
        "/duration/extend"@[1] == 'd',
        "/duration/expire"@[1] == 'd',
        free_of(BRIDGE_PREFIX@, set!['?']),
        free_of(BRIDGE_SCRIPT_PATH@, set!['?']),
        free_of("/favicon.ico"@, set!['?']),
        free_of("/splash.jpg"@, set!['?']),
        free_of("/0.xlf.html"@, set!['?']),
        free_of("/duration/set"@, set!['?']),
        free_of("/duration/extend"@, set!['?']),
        free_of("/duration/expire"@, set!['?']),
{
    reveal_strlit("/arexibo/");
    reveal_strlit("/arexibo-bridge.js");
    reveal_strlit("/favicon.ico");
    reveal_strlit("/splash.jpg");
    reveal_strlit("/0.xlf.html");
    reveal_strlit("/duration/set");
    reveal_strlit("/duration/extend");
    reveal_strlit("/duration/expire");
}

/// Without the bridge its routes are not served at all: no request is taken
/// for a call, and the bridge's paths are like any other file's.
pub proof fn law_without_the_bridge_there_are_no_routes(url: Seq<char>)
    ensures
        begun(false, url) != FirstView::ReadBody,
        BRIDGE_PREFIX@.is_prefix_of(url) || url == BRIDGE_SCRIPT_PATH@ ==> begun(false, url)
            == FirstView::Locate(path_of(url).skip(1)),
{
    lemma_named_urls();
    if BRIDGE_PREFIX@.is_prefix_of(url) {
        assert(url.subrange(0, 9)[1] == url[1]);
    }
}

/// The answer for a file with a query in which no width is given is the one
/// without the query. A query gives no width where its decoded keys, or where
/// nothing in it is escaped its keys as they are written, do not have it.
pub proof fn law_query_without_a_width_makes_no_difference(
    bridge: bool,
    path: Seq<char>,
    query: Seq<char>,
    headers: Seq<(Seq<char>, Seq<char>)>,
    found: Found,
)
    requires
        free_of(path, set!['?']),
        is_static(bridge, path),
    ensures
        begun(bridge, path + seq!['?'] + query) == begun(bridge, path),
        !has_key(parameters(path + seq!['?'] + query), "w"@) ==> looked_up(
            bridge,
            path + seq!['?'] + query,
            headers,
            found,
            lookup(parameters(path + seq!['?'] + query), "w"@),
        ) == looked_up(bridge, path, headers, found, lookup(parameters(path), "w"@)),
        !has_key(raw_parameters(path + seq!['?'] + query), "w"@) ==> looked_up(
            bridge,
            path + seq!['?'] + query,
            headers,
            found,
            lookup(raw_parameters(path + seq!['?'] + query), "w"@),
        ) == looked_up(bridge, path, headers, found, lookup(raw_parameters(path), "w"@)),
{
    let url = path + seq!['?'] + query;
    let n = path.len() as int;
    lemma_named_urls();
    assert(url[n] == '?');
    if BRIDGE_PREFIX@.is_prefix_of(url) {
        let k = BRIDGE_PREFIX@.len() as int;
        if n < k {
            assert(url.subrange(0, k)[n] == '?');
        } else {
            assert(path.subrange(0, k) =~= url.subrange(0, k));
        }
    }
    lemma_pieces_step(path, '?', query, set!['?']);
    lemma_pieces_whole(path, set!['?']);
    law_given_keys_are_found(parameters(url), "w"@);
    law_given_keys_are_found(raw_parameters(url), "w"@);
    assert(raw_parameters(path) =~= seq![]);
    assert(parameters(path) =~= seq![]);
}

/// Without the bridge, where neither a width nor a part is asked for, every
/// file in the cache directory, layouts among them, is sent whole and as it
/// is, under the name that the path gives; what is not there or not a file is
/// refused with 404, what lies outside with 403.
pub proof fn law_without_the_bridge_files_are_sent_as_they_are(
    name: Seq<char>,
    url: Seq<char>,
    headers: Seq<(Seq<char>, Seq<char>)>,
    found: Found,
)
    requires
        path_of(url) == seq!['/'] + name,
        built_in(false, url) is None,
        header_value(headers, "Range"@) is None,
    ensures
        begun(false, url) == FirstView::Locate(name),
        !has_key(parameters(url), "w"@) ==> looked_up(
            false,
            url,
            headers,
            found,
            lookup(parameters(url), "w"@),
        ) == file_or_refusal(found),
        !has_key(raw_parameters(url), "w"@) ==> looked_up(
            false,
            url,
            headers,
            found,
            lookup(raw_parameters(url), "w"@),
        ) == file_or_refusal(found),
{
    assert((seq!['/'] + name).skip(1) =~= name);
    law_given_keys_are_found(parameters(url), "w"@);
    law_given_keys_are_found(raw_parameters(url), "w"@);
}

/// The whole file that was found, or the refusal where there is none to send.
pub open spec fn file_or_refusal(found: Found) -> NextView {
    match found {
        Found::Outside => NextView::Refuse(bare(403)),
        Found::Inside { is_file: true, .. } => NextView::SendFile(
            success(Some(content_type(extension_of(found))), BodyView::File),
        ),
        _ => NextView::Refuse(bare(404)),
    }
}

/// The path under which a layout is requested.
pub open spec fn layout_path(id: i64) -> Seq<char> {
    seq!['/'] + layout_file(id)
}

proof fn lemma_layout_path(id: i64)
    ensures
        path_of(layout_path(id)) == layout_path(id),
        is_digit(layout_path(id)[1]) || layout_path(id)[1] == '-',
        layout_path(id).len() == decimal(id as int).len() + 10,
{
    let d = decimal(id as int);
    let url = layout_path(id);
    reveal_strlit(".xlf.html");
    if id < 0 {
        lemma_numeral((-(id as int)) as nat);
    } else {
        lemma_numeral(id as nat);
        assert(is_digit(d[0]));
    }
    assert(url[1] == d[0]);
    assert forall|i: int| 0 <= i < url.len() implies !set!['?'].contains(#[trigger] url[i]) by {
        if 1 <= i < 1 + d.len() {
            assert(url[i] == d[i - 1]);
            if id < 0 {
                if i > 1 {
                    assert(d[i - 1] == numeral((-(id as int)) as nat)[i - 2]);
                    assert(is_digit(numeral((-(id as int)) as nat)[i - 2]));
                }
            } else {
                assert(is_digit(d[i - 1]));
            }
        } else if i > d.len() {
            assert(url[i] == ".xlf.html"@[i - 1 - d.len()]);
        }
    }
    lemma_pieces_whole(url, set!['?']);
}

/// No layout is taken for a path of the bridge: with the bridge or without, a
/// layout is looked up in the cache directory under its file name, but for the
/// splash layout, which is built in.
pub proof fn law_layouts_are_no_bridge_paths(bridge: bool, id: i64)
    ensures
        id != 0 ==> is_static(bridge, layout_path(id)) && has_path(layout_path(id)) && begun(
            bridge,
            layout_path(id),
        ) == FirstView::Locate(layout_file(id)),
        id == 0 ==> begun(bridge, layout_path(id)) == FirstView::Respond(
            success(None, BodyView::Text(crate::server::SPLASH_HTML@)),
        ),
{
    let url = layout_path(id);
    lemma_layout_path(id);
    lemma_named_urls();
    reveal_strlit("/0.xlf.html");
    reveal_strlit(".xlf.html");
    if is_call(bridge, url) {
        assert(url.subrange(0, 9)[1] == url[1]);
    }
    if id == 0 {
        assert(url =~= "/0.xlf.html"@);
    } else {
        if url == "/0.xlf.html"@ {
            let d = decimal(id as int);
            assert(d.len() == 1);
            assert(d[0] == url[1]);
            crate::decimal::law_number_undoes_decimal(id as int);
            crate::decimal::law_number_undoes_decimal(0);
            assert(d =~= decimal(0));
        }
        assert(url.skip(1) =~= layout_file(id));
    }
}

/// Navigating to a layout asks the embedded web server for it under its path.
pub proof fn law_navigation_asks_for_the_layout(port: u16, id: i64)
    ensures
        shown(server_uri(port), Some(id)) == Some(
            "http://localhost:"@ + decimal(port as int) + layout_path(id),
        ),
        reaction(server_uri(port), Call::LayoutJump { id: 0, target: id }) == ActionView::Navigate(
            "http://localhost:"@ + decimal(port as int) + layout_path(id),
        ),
{
    reveal_strlit("/");
    let head = "http://localhost:"@ + decimal(port as int);
    assert("/"@ =~= seq!['/']);
    assert(server_uri(port) + layout_file(id) =~= head + layout_path(id));
}

/// Whether a call ends on the wire with something that is no white space.
pub open spec fn ends_in_ink(c: Call) -> bool {
    match c {
        Call::Command(s) => s.len() > 0 && !is_space(s.last()),
        Call::VideoStop { mid } => mid.len() > 0 && !is_space(mid.last()),
        Call::Log(s) => s.len() > 0 ==> !is_space(s.last()),
        _ => true,
    }
}

proof fn lemma_last_of_join(parts: Seq<Seq<char>>, sep: Seq<char>)
    requires
        parts.len() > 0,
        parts.last().len() > 0,
    ensures
        join(parts, sep).len() > 0,
        join(parts, sep).last() == parts.last().last(),
    decreases parts.len(),
{
    if parts.len() > 1 {
        assert(parts.skip(1).last() == parts.last());
        lemma_last_of_join(parts.skip(1), sep);
        let tail = join(parts.skip(1), sep);
        assert(join(parts, sep) =~= parts[0] + sep + tail);
    }
}

/// A call that the page makes reaches the renderer: it is accepted, and the
/// message is the call. This holds of plain calls that do not end in white
/// space.
pub proof fn law_call_is_delivered(c: Call)
    requires
        is_plain(c),
        ends_in_ink(c),
    ensures
        is_call(true, url_of(c)),
        answered(url_of(c), Some(body_of(c))) == (bare(204), Some(c)),
{
    law_call_arrives(c);
    assert(url_of(c).subrange(0, BRIDGE_PREFIX@.len() as int) =~= BRIDGE_PREFIX@);
    let args = posted(c);
    lemma_decimal_on_the_wire(0);
    lemma_decimal_on_the_wire(1);
    match c {
        Call::LayoutInit { height, .. } => lemma_decimal_on_the_wire(height as int),
        Call::LayoutDone { id } => lemma_decimal_on_the_wire(id as int),
        Call::LayoutPrev { id } => lemma_decimal_on_the_wire(id as int),
        Call::LayoutJump { target, .. } => lemma_decimal_on_the_wire(target as int),
        Call::StopShell(mode) => lemma_decimal_on_the_wire(mode as int),
        _ => {},
    }
    if args.last().len() > 0 {
        lemma_last_of_join(args, seq!['\n']);
    }
    lemma_trimmed_end_fixed(body_of(c));
}

/// White space after the body of a call makes no difference.
pub proof fn law_white_space_after_a_call_is_ignored(url: Seq<char>, body: Seq<char>, c: char)
    requires
        is_space(c),
    ensures
        answered(url, Some(body.push(c))) == answered(url, Some(body)),
{
    assert(body.push(c).drop_last() =~= body);
}

/// A call is accepted exactly where a message comes of it, and refused
/// otherwise: with 404 where it is not recognised, with 400 where its body
/// could not be read.
pub proof fn law_calls_are_accepted_or_refused(url: Seq<char>, body: Option<Seq<char>>)
    ensures
        answered(url, body).1 is Some <==> answered(url, body).0 == bare(204),
        answered(url, body).1 is None ==> answered(url, body).0 == if body is Some {
            bare(404)
        } else {
            bare(400)
        },
        answered(url, body).1 is Some ==> body is Some && BRIDGE_PREFIX@.is_prefix_of(url),
{
}

/// Only files in the cache directory are opened: whatever was asked for, what
/// lies outside is refused with 403, and what is not there or not a file with
/// 404.
pub proof fn law_only_files_in_the_cache_are_opened(
    bridge: bool,
    url: Seq<char>,
    headers: Seq<(Seq<char>, Seq<char>)>,
    found: Found,
    width: Option<Seq<char>>,
)
    ensures
        (looked_up(bridge, url, headers, found, width) is Refuse) <==> !(found matches Found::Inside {
            is_file: true,
            ..
        }),
        found is Outside ==> looked_up(bridge, url, headers, found, width) == NextView::Refuse(
            bare(403),
        ),
        !(found is Outside) && !(found matches Found::Inside { is_file: true, .. }) ==> looked_up(
            bridge,
            url,
            headers,
            found,
            width,
        ) == NextView::Refuse(bare(404)),
{
}

/// With the bridge, every layout file is read as text and sent without Qt's
/// transport in it.
pub proof fn law_layouts_are_sent_without_the_transport(
    id: i64,
    headers: Seq<(Seq<char>, Seq<char>)>,
    name: Vec<u8>,
    width: Option<Seq<char>>,
    text: Seq<char>,
)
    ensures
        looked_up(
            true,
            layout_path(id),
            headers,
            Found::Inside { is_file: true, name },
            width,
        ) == NextView::ReadLayout(width),
        !occurs(layout_page(text, width), QT_TRANSPORT_SRC@),
{
    lemma_layout_path(id);
    reveal_strlit(".xlf.html");
    let url = layout_path(id);
    assert(url.subrange(url.len() - 9, url.len() as int) =~= ".xlf.html"@);
    match width {
        Some(w) => law_rewriting_removes_the_transport(replace_all(text, VIEWPORT_WIDTH@, w)),
        None => law_rewriting_removes_the_transport(text),
    }
}

/// A layout with neither the transport nor, where a width was asked for, a
/// place for it is sent as it is.
pub proof fn law_other_layouts_are_sent_as_they_are(text: Seq<char>, width: Option<Seq<char>>)
    requires
        !occurs(text, QT_TRANSPORT_SRC@),
        width is Some ==> !occurs(text, VIEWPORT_WIDTH@),
    ensures
        layout_page(text, width) == text,
{
    reveal_strlit("[[ViewPortWidth]]");
    crate::bridge_laws::law_rewriting_leaves_other_documents(text);
    if let Some(w) = width {
        law_replace_without_occurrence(text, VIEWPORT_WIDTH@, w);
    }
}

/// A name made of a stem, a dot and bytes without dots has its last dot behind
/// the stem.
pub proof fn lemma_last_dot(stem: Seq<u8>, rest: Seq<u8>)
    requires
        forall|i: int| 0 <= i < rest.len() ==> #[trigger] rest[i] != 0x2e,
    ensures
        last_dot(stem + seq![0x2eu8] + rest) == Some(stem.len()),
    decreases rest.len(),
{
    let name = stem + seq![0x2eu8] + rest;
    if rest.len() > 0 {
        let shorter = rest.drop_last();
        assert forall|i: int| 0 <= i < shorter.len() implies #[trigger] shorter[i] != 0x2e by {
            assert(shorter[i] == rest[i]);
        }
        lemma_last_dot(stem, shorter);
        assert(name.last() == rest[rest.len() - 1]);
        assert(name.drop_last() =~= stem + seq![0x2eu8] + shorter);
    }
}

/// A name made of a stem, a dot and a text without dots has that text for its
/// extension. The stem is not empty, and the name is not `..`.
pub proof fn law_extension_follows_the_last_dot(stem: Seq<u8>, ext: Seq<char>)
    requires
        stem.len() > 0,
        !ext.contains('.'),
        !(stem == seq![0x2eu8] && ext.len() == 0),
    ensures
        extension(stem + seq![0x2eu8] + encode_utf8(ext)) == Some(ext),
{
    let bytes = encode_utf8(ext);
    let name = stem + seq![0x2eu8] + bytes;
    lemma_no_ascii_byte(ext, '.');
    lemma_last_dot(stem, bytes);
    vstd::utf8::encode_utf8_valid_utf8(ext);
    vstd::utf8::encode_utf8_decode_utf8(ext);
    assert(name.skip(stem.len() as int + 1) =~= bytes);
    if name == seq![0x2eu8, 0x2eu8] {
        assert(stem.len() == 1 && bytes.len() == 0);
        assert(stem[0] == name[0]);
        assert(stem =~= seq![0x2eu8]);
        assert(decode_utf8(bytes).len() == 0);
    }
}

/// A name without a dot, or with one at its start only, has no extension,
/// and a file of such a name is sent without a type.
pub proof fn law_names_without_an_extension(name: Seq<u8>)
    requires
        forall|i: int| 0 < i < name.len() ==> #[trigger] name[i] != 0x2e,
    ensures
        extension(name) is None,
        content_type(extension(name)) == ""@,
{
    lemma_no_late_dot(name);
}

proof fn lemma_no_late_dot(name: Seq<u8>)
    requires
        forall|i: int| 0 < i < name.len() ==> #[trigger] name[i] != 0x2e,
    ensures
        last_dot(name) is None || last_dot(name) == Some(0nat),
    decreases name.len(),
{
    if name.len() > 0 {
        assert(name.len() > 1 ==> name[name.len() - 1] != 0x2e);
        let shorter = name.drop_last();
        assert forall|i: int| 0 < i < shorter.len() implies #[trigger] shorter[i] != 0x2e by {
            assert(shorter[i] == name[i]);
        }
        lemma_no_late_dot(shorter);
    }
}

/// Settings that change and screenshots that are asked for have no effect: the
/// location and the surface stay, and no script is run. A new schedule has one
/// exactly where it names a layout to show, and a webhook always.
pub proof fn law_only_schedules_and_webhooks_have_an_effect(
    base_uri: Seq<char>,
    msg: PlayerMessageView,
)
    ensures
        obeyed(base_uri, PlayerMessageView::Settings) == PlayerActionView::Ignore,
        obeyed(base_uri, PlayerMessageView::Screenshot) == PlayerActionView::Ignore,
        obeyed(base_uri, msg) != PlayerActionView::Ignore <==> (msg matches PlayerMessageView::Layouts(
            Some(_),
        )) || msg is WebHook,
        (obeyed(base_uri, msg) is Navigate) <==> (msg matches PlayerMessageView::Layouts(Some(_))),
        (obeyed(base_uri, msg) is RunScript) <==> msg is WebHook,
        forall|id: i64| #[trigger]
            obeyed(base_uri, PlayerMessageView::Layouts(Some(id))) == PlayerActionView::Navigate(
                base_uri + layout_file(id),
            ),
{
}

/// The splash layout is never announced, and every other layout is, under the
/// id it gives.
pub proof fn law_the_splash_is_not_announced(
    base_uri: Seq<char>,
    id: i64,
    width: i32,
    height: i32,
)
    ensures
        id > 0 <==> reaction(base_uri, Call::LayoutInit { id, width, height })
            == ActionView::Announce(id),
        reaction(base_uri, Call::LayoutInit { id: 0, width, height }) == ActionView::Ignore,
{
}

/// The surface has the size asked for, or that of the screen where none is
/// asked for; it is never empty. Sizes count up to 32 bits.
pub proof fn law_surface_is_not_empty(size: int, screen: int)
    requires
        size <= i32::MAX,
        0 < screen,
    ensures
        side(size, screen) > 0,
        size > 0 ==> side(size, screen) == size,
{
}

} // verus!
