//! What the web server answers to each request, said of every one.

use crate::bridge::{parsed, rewritten, Call, BRIDGE_SCRIPT};
use crate::encoding::utf8_text;
use crate::query::path_of;
use crate::request_laws::{
    law_first_header_of_a_name_counts, law_no_header_only_where_none_has_the_name,
};
use crate::search::{law_replace_without_occurrence, occurs, replace_all};
use crate::server::{
    answered, bare, begun, components, content_type, extension, extension_of, is_call, is_static,
    layout_page, looked_up, same_but_case, success, Body, BodyView, First, FirstView, Found, Next,
    NextView, Reply, ReplyView, SPLASH_HTML,
};
use crate::server_laws::{law_extension_follows_the_last_dot, lemma_last_dot, lemma_named_urls};
use crate::text::trimmed_end;
use crate::text_laws::law_replacement_stands_at_the_first_occurrence;
use vstd::prelude::*;
use vstd::utf8::{encode_utf8, valid_utf8};

verus! {

/// An answer with a status alone has no body and no headers; one that succeeds
/// has status 200, the type and the body given, and is no part of anything.
pub proof fn law_answers_with_and_without_a_body(
    status: u16,
    content_type: Option<Seq<char>>,
    body: BodyView,
)
    ensures
        bare(status).status == status,
        bare(status).content_type is None,
        bare(status).content_range is None,
        bare(status).body is Empty,
        success(content_type, body).status == 200,
        success(content_type, body).content_type == content_type,
        success(content_type, body).content_range is None,
        success(content_type, body).body == body,
{
}

/// What is said of an answer is what it holds: its status, its headers, and its
/// body with the text, the bytes or the part in it.
pub proof fn law_answers_are_what_they_hold(reply: Reply, body: Body, ctype: &'static str)
    ensures
        reply@.status == reply.status,
        reply.content_type == Some(ctype) ==> reply@.content_type == Some(ctype@),
        reply.content_type is None ==> reply@.content_type is None,
        reply.content_range matches Some(range) ==> reply@.content_range == Some(range@),
        reply.content_range is None ==> reply@.content_range is None,
        reply@.body == reply.body@,
        body is Empty <==> body@ is Empty,
        body is Splash <==> body@ is Splash,
        body is File <==> body@ is File,
        body matches Body::Text(text) ==> body@ == BodyView::Text(text@),
        body matches Body::Bytes(data) ==> body@ == BodyView::Bytes(data@),
        body matches Body::Part { from, size } ==> body@ == (BodyView::Part { from, size }),
{
}

/// What is said of a step is what it holds: the answer to send, or what is to
/// be read or looked up.
pub proof fn law_steps_are_what_they_hold(first: First, next: Next)
    ensures
        first matches First::Respond(reply) ==> first@ == FirstView::Respond(reply@),
        first is ReadBody ==> first@ is ReadBody,
        first matches First::Locate(path) ==> first@ == FirstView::Locate(path@),
        next matches Next::Refuse(reply) ==> next@ == NextView::Refuse(reply@),
        next matches Next::ReadLayout(Some(width)) ==> next@ == NextView::ReadLayout(Some(width@)),
        next matches Next::ReadLayout(None) ==> next@ == NextView::ReadLayout(None),
        next matches Next::ReadPage(width) ==> next@ == NextView::ReadPage(width@),
        next matches Next::Measure(range) ==> next@ == NextView::Measure(range@),
        next matches Next::SendFile(reply) ==> next@ == NextView::SendFile(reply@),
{
}

/// The URLs with an answer built in, and their types and bodies. The shim is
/// there only where the bridge is.
pub open spec fn built_in_pages(bridge: bool) -> Seq<(Seq<char>, Option<Seq<char>>, BodyView)> {
    let pages = seq![
        ("/favicon.ico"@, None, BodyView::Empty),
        ("/splash.jpg"@, None, BodyView::Splash),
        ("/0.xlf.html"@, None, BodyView::Text(SPLASH_HTML@)),
        ("/duration/set"@, Some("application/json"@), BodyView::Text(seq!['{', '}'])),
        ("/duration/extend"@, Some("application/json"@), BodyView::Text(seq!['{', '}'])),
        ("/duration/expire"@, Some("application/json"@), BodyView::Text(seq!['{', '}'])),
    ];
    if bridge {
        pages.push(
            (
                "/arexibo-bridge.js"@,
                Some("application/javascript"@),
                BodyView::Text(BRIDGE_SCRIPT@),
            ),
        )
    } else {
        pages
    }
}

proof fn lemma_built_in_urls()
    ensures
        "/favicon.ico"@.len() == 12,
        "/splash.jpg"@.len() == 11 && "/splash.jpg"@[1] == 's',
        "/0.xlf.html"@.len() == 11 && "/0.xlf.html"@[1] == '0',
        "/duration/set"@.len() == 13,
        "/duration/extend"@.len() == 16 && "/duration/extend"@[12] == 't',
        "/duration/expire"@.len() == 16 && "/duration/expire"@[12] == 'p',
        "/arexibo-bridge.js"@.len() == 18 && "/arexibo-bridge.js"@[8] == '-',
        "/arexibo/"@.len() == 9 && "/arexibo/"@[1] == 'a' && "/arexibo/"@[8] == '/',
        "{}"@ == seq!['{', '}'],
{
    reveal_strlit("/favicon.ico");
    reveal_strlit("/splash.jpg");
    reveal_strlit("/0.xlf.html");
    reveal_strlit("/duration/set");
    reveal_strlit("/duration/extend");
    reveal_strlit("/duration/expire");
    reveal_strlit("/arexibo-bridge.js");
    reveal_strlit("/arexibo/");
    reveal_strlit("{}");
    assert("{}"@ =~= seq!['{', '}']);
}

/// Every URL with an answer built in is answered with it, in full and with
/// status 200, whether the bridge is there or not.
pub proof fn law_built_in_pages_are_answered(bridge: bool, i: int)
    requires
        0 <= i < built_in_pages(bridge).len(),
    ensures
        begun(bridge, built_in_pages(bridge)[i].0) == FirstView::Respond(
            ReplyView {
                status: 200,
                content_type: built_in_pages(bridge)[i].1,
                content_range: None,
                body: built_in_pages(bridge)[i].2,
            },
        ),
        !is_static(bridge, built_in_pages(bridge)[i].0),
{
    lemma_built_in_urls();
    lemma_named_urls();
    let url = built_in_pages(bridge)[i].0;
    if "/arexibo/"@.is_prefix_of(url) {
        assert(url.subrange(0, 9)[1] == url[1]);
        assert(url.subrange(0, 9)[8] == url[8]);
    }
}

/// What follows the prefix of the bridge is a call where the bridge is there,
/// and nothing else is.
pub proof fn law_calls_are_what_follows_the_prefix(bridge: bool, url: Seq<char>, method: Seq<char>)
    ensures
        begun(true, "/arexibo/"@ + method) == FirstView::ReadBody,
        is_call(true, "/arexibo/"@ + method),
        !is_static(true, "/arexibo/"@ + method),
        is_call(bridge, url) <==> bridge && "/arexibo/"@.is_prefix_of(url),
        begun(bridge, url) == FirstView::ReadBody <==> bridge && "/arexibo/"@.is_prefix_of(url),
{
    let u = "/arexibo/"@ + method;
    assert(u.subrange(0, "/arexibo/"@.len() as int) =~= "/arexibo/"@);
}

/// Every URL that neither is built in nor a call is looked up in the cache
/// directory, under its path without the root.
pub proof fn law_everything_else_is_looked_up(bridge: bool, url: Seq<char>)
    requires
        !(bridge && "/arexibo/"@.is_prefix_of(url)),
        forall|i: int|
            0 <= i < built_in_pages(bridge).len() ==> (#[trigger] built_in_pages(bridge)[i]).0
                != url,
    ensures
        begun(bridge, url) == FirstView::Locate(path_of(url).skip(1)),
        is_static(bridge, url),
{
    let pages = built_in_pages(bridge);
    assert(pages[0].0 != url);
    assert(pages[1].0 != url);
    assert(pages[2].0 != url);
    assert(pages[3].0 != url);
    assert(pages[4].0 != url);
    assert(pages[5].0 != url);
    if bridge {
        assert(pages[6].0 != url);
    }
}

/// The answer to a call that was read is 204 where the body, but for the white
/// space at its end, is a call, and then that call is handed on; it is 404
/// where it is none. A body that could not be read is answered with 400. No
/// answer has a body.
pub proof fn law_calls_are_answered_by_what_they_are(url: Seq<char>, text: Seq<char>, c: Call)
    ensures
        parsed(url, trimmed_end(text)) == Some(c) ==> answered(url, Some(text)) == (
            ReplyView { status: 204, content_type: None, content_range: None, body: BodyView::Empty },
            Some(c),
        ),
        parsed(url, trimmed_end(text)) is None ==> answered(url, Some(text)) == (
            ReplyView { status: 404, content_type: None, content_range: None, body: BodyView::Empty },
            None::<Call>,
        ),
        answered(url, None) == (
            ReplyView { status: 400, content_type: None, content_range: None, body: BodyView::Empty },
            None::<Call>,
        ),
{
}

/// The extensions with a type, and their types.
pub open spec fn types() -> Seq<(Seq<char>, Seq<char>)> {
    seq![
        ("html"@, "text/html"@),
        ("js"@, "text/javascript"@),
        ("mjs"@, "text/javascript"@),
        ("ttf"@, "application/font-sfnt"@),
        ("otf"@, "application/font-sfnt"@),
        ("jpg"@, "image/jpeg"@),
        ("jpeg"@, "image/jpeg"@),
        ("png"@, "image/png"@),
        ("pdf"@, "application/pdf"@),
        ("mp4"@, "video/mp4"@),
        ("avi"@, "video/avi"@),
        ("ogv"@, "video/ogg"@),
        ("webm"@, "video/webm"@),
    ]
}

proof fn lemma_extensions()
    ensures
        "html"@.len() == 4 && "html"@[0] == 'h',
        "js"@.len() == 2,
        "mjs"@.len() == 3 && "mjs"@[1] == 'j',
        "ttf"@.len() == 3 && "ttf"@[0] == 't' && "ttf"@[1] == 't',
        "otf"@.len() == 3 && "otf"@[0] == 'o' && "otf"@[1] == 't',
        "jpg"@.len() == 3 && "jpg"@[0] == 'j' && "jpg"@[1] == 'p',
        "jpeg"@.len() == 4 && "jpeg"@[0] == 'j',
        "png"@.len() == 3 && "png"@[1] == 'n',
        "pdf"@.len() == 3 && "pdf"@[1] == 'd',
        "mp4"@.len() == 3 && "mp4"@[0] == 'm' && "mp4"@[1] == 'p',
        "avi"@.len() == 3 && "avi"@[1] == 'v',
        "ogv"@.len() == 3 && "ogv"@[1] == 'g',
        "webm"@.len() == 4 && "webm"@[0] == 'w',
        forall|i: int| 0 <= i < types().len() ==> !(#[trigger] types()[i]).0.contains('.'),
        ""@.len() == 0,
{
    reveal_strlit("");
    reveal_strlit("html");
    reveal_strlit("js");
    reveal_strlit("mjs");
    reveal_strlit("ttf");
    reveal_strlit("otf");
    reveal_strlit("jpg");
    reveal_strlit("jpeg");
    reveal_strlit("png");
    reveal_strlit("pdf");
    reveal_strlit("mp4");
    reveal_strlit("avi");
    reveal_strlit("ogv");
    reveal_strlit("webm");
}

/// Each extension with a type has that type, and a file of any other, or of
/// none, is sent with an empty one.
pub proof fn law_types_go_by_extension(ext: Seq<char>)
    ensures
        forall|i: int|
            0 <= i < types().len() ==> content_type(Some((#[trigger] types()[i]).0)) == types()[i].1,
        (forall|i: int| 0 <= i < types().len() ==> (#[trigger] types()[i]).0 != ext)
            ==> content_type(Some(ext)) == Seq::<char>::empty(),
        content_type(None) == Seq::<char>::empty(),
{
    lemma_extensions();
    assert(""@ =~= Seq::<char>::empty());
    let t = types();
    if forall|i: int| 0 <= i < types().len() ==> (#[trigger] types()[i]).0 != ext {
        assert(t[0].0 != ext && t[1].0 != ext && t[2].0 != ext && t[3].0 != ext && t[4].0 != ext);
        assert(t[5].0 != ext && t[6].0 != ext && t[7].0 != ext && t[8].0 != ext && t[9].0 != ext);
        assert(t[10].0 != ext && t[11].0 != ext && t[12].0 != ext);
    }
}

/// Whether a list of headers has none that asks for a part of a file.
pub open spec fn asks_for_no_part(headers: Seq<(Seq<char>, Seq<char>)>) -> bool {
    forall|i: int| 0 <= i < headers.len() ==> !same_but_case((#[trigger] headers[i]).0, "Range"@)
}

/// With the bridge as without it, a file found in the cache directory is sent
/// whole, with status 200 and the type of its extension, where no part of it is
/// asked for; but for layouts where the bridge is there, and pages where a
/// width is asked for.
pub proof fn law_files_are_sent_whole_with_their_type(
    bridge: bool,
    url: Seq<char>,
    headers: Seq<(Seq<char>, Seq<char>)>,
    name: Vec<u8>,
    width: Option<Seq<char>>,
)
    requires
        !(bridge && ".xlf.html"@.is_suffix_of(path_of(url))),
        width is None || extension(name@) != Some("html"@),
        asks_for_no_part(headers),
    ensures
        looked_up(bridge, url, headers, Found::Inside { is_file: true, name }, width)
            == NextView::SendFile(
            ReplyView {
                status: 200,
                content_type: Some(content_type(extension(name@))),
                content_range: None,
                body: BodyView::File,
            },
        ),
{
    law_no_header_only_where_none_has_the_name(headers, "Range"@);
}

/// A file that is sent whole under a name that ends in a dot and one of the
/// extensions with a type has that type, with the bridge as without it.
pub proof fn law_named_files_are_sent_with_their_type(
    bridge: bool,
    url: Seq<char>,
    headers: Seq<(Seq<char>, Seq<char>)>,
    stem: Seq<u8>,
    i: int,
    name: Vec<u8>,
)
    requires
        !(bridge && ".xlf.html"@.is_suffix_of(path_of(url))),
        asks_for_no_part(headers),
        0 <= i < types().len(),
        stem.len() > 0,
        name@ == stem + seq![0x2eu8] + encode_utf8(types()[i].0),
    ensures
        looked_up(bridge, url, headers, Found::Inside { is_file: true, name }, None)
            == NextView::SendFile(
            ReplyView {
                status: 200,
                content_type: Some(types()[i].1),
                content_range: None,
                body: BodyView::File,
            },
        ),
{
    lemma_extensions();
    assert(!types()[i].0.contains('.'));
    assert(types()[i].0.len() > 0);
    law_extension_follows_the_last_dot(stem, types()[i].0);
    law_types_go_by_extension(types()[i].0);
    assert(content_type(Some(types()[i].0)) == types()[i].1);
    law_files_are_sent_whole_with_their_type(bridge, url, headers, name, None);
}

/// With the bridge every file whose path ends like a layout's is read as one,
/// with the width asked for, whatever else is asked for; without it none is.
pub proof fn law_layouts_are_read_where_the_bridge_is(
    url: Seq<char>,
    headers: Seq<(Seq<char>, Seq<char>)>,
    name: Vec<u8>,
    width: Option<Seq<char>>,
    stem: Seq<char>,
)
    requires
        path_of(url) == stem + ".xlf.html"@,
    ensures
        looked_up(true, url, headers, Found::Inside { is_file: true, name }, width)
            == NextView::ReadLayout(width),
        !(looked_up(false, url, headers, Found::Inside { is_file: true, name }, width)
            is ReadLayout),
{
    let path = path_of(url);
    assert(path.subrange(path.len() - ".xlf.html"@.len(), path.len() as int) =~= ".xlf.html"@);
}

/// A page that is no layout to the bridge is read where a width is asked for,
/// with that width, even where a part of it is asked for too.
pub proof fn law_pages_are_read_where_a_width_is_asked_for(
    bridge: bool,
    url: Seq<char>,
    headers: Seq<(Seq<char>, Seq<char>)>,
    name: Vec<u8>,
    width: Seq<char>,
)
    requires
        !(bridge && ".xlf.html"@.is_suffix_of(path_of(url))),
        extension(name@) == Some("html"@),
    ensures
        looked_up(bridge, url, headers, Found::Inside { is_file: true, name }, Some(width))
            == NextView::ReadPage(width),
{
}

/// Of any other file the part is sent that the first header field of that name
/// asks for, wherever in the list it stands, with the bridge as without it.
pub proof fn law_parts_are_sent_where_asked_for(
    bridge: bool,
    url: Seq<char>,
    headers: Seq<(Seq<char>, Seq<char>)>,
    name: Vec<u8>,
    width: Option<Seq<char>>,
    i: int,
)
    requires
        !(bridge && ".xlf.html"@.is_suffix_of(path_of(url))),
        width is None || extension(name@) != Some("html"@),
        0 <= i < headers.len(),
        same_but_case(headers[i].0, "Range"@),
        forall|j: int| 0 <= j < i ==> !same_but_case((#[trigger] headers[j]).0, "Range"@),
    ensures
        looked_up(bridge, url, headers, Found::Inside { is_file: true, name }, width)
            == NextView::Measure(headers[i].1),
{
    law_first_header_of_a_name_counts(headers, "Range"@, i);
}

/// What lies outside the cache directory is refused with 403, and what is not
/// there or no file with 404, without a body, whatever was asked for.
pub proof fn law_refusals_are_bare(
    bridge: bool,
    url: Seq<char>,
    headers: Seq<(Seq<char>, Seq<char>)>,
    name: Vec<u8>,
    width: Option<Seq<char>>,
)
    ensures
        looked_up(bridge, url, headers, Found::Outside, width) == NextView::Refuse(
            ReplyView { status: 403, content_type: None, content_range: None, body: BodyView::Empty },
        ),
        looked_up(bridge, url, headers, Found::Missing, width) == NextView::Refuse(
            ReplyView { status: 404, content_type: None, content_range: None, body: BodyView::Empty },
        ),
        looked_up(bridge, url, headers, Found::Inside { is_file: false, name }, width)
            == NextView::Refuse(
            ReplyView { status: 404, content_type: None, content_range: None, body: BodyView::Empty },
        ),
{
}

/// What follows the last dot of a name is its extension only where it is text.
pub proof fn law_extensions_are_text(stem: Seq<u8>, rest: Seq<u8>)
    requires
        forall|i: int| 0 <= i < rest.len() ==> #[trigger] rest[i] != 0x2e,
        forall|s: Seq<char>| rest != #[trigger] encode_utf8(s),
    ensures
        extension(stem + seq![0x2eu8] + rest) is None,
{
    lemma_last_dot(stem, rest);
    let whole = stem + seq![0x2eu8] + rest;
    assert(whole.skip(stem.len() as int + 1) =~= rest);
    if valid_utf8(rest) {
        vstd::utf8::decode_utf8_encode_utf8(rest);
        assert(rest == encode_utf8(vstd::utf8::decode_utf8(rest)));
    }
    assert(utf8_text(rest) is None);
}

/// What was found has the extension of its name, and what is not in the cache
/// directory has none. The name `..` has no extension.
pub proof fn law_what_is_found_has_the_extension_of_its_name(is_file: bool, name: Vec<u8>)
    ensures
        extension_of(Found::Inside { is_file, name }) == extension(name@),
        extension_of(Found::Missing) is None,
        extension_of(Found::Outside) is None,
        name@.len() == 2 && name@[0] == 0x2e && name@[1] == 0x2e ==> extension(name@) is None,
{
    if name@.len() == 2 && name@[0] == 0x2e && name@[1] == 0x2e {
        assert(name@ =~= seq![0x2eu8, 0x2eu8]);
    }
}

/// A layout is sent rewritten, and where a width is asked for that stands in
/// every place for it first: the first place is filled in, and those behind it
/// in the same way. Without a width, or without a place for it, it is only
/// rewritten.
pub proof fn law_widths_are_filled_into_layouts(
    a: Seq<char>,
    b: Seq<char>,
    text: Seq<char>,
    w: Seq<char>,
)
    requires
        forall|j: int|
            0 <= j < a.len() ==> #[trigger] (a + "[[ViewPortWidth]]"@ + b).subrange(
                j,
                j + "[[ViewPortWidth]]"@.len(),
            ) != "[[ViewPortWidth]]"@,
    ensures
        layout_page(a + "[[ViewPortWidth]]"@ + b, Some(w)) == rewritten(
            a + w + replace_all(b, "[[ViewPortWidth]]"@, w),
        ),
        !occurs(text, "[[ViewPortWidth]]"@) ==> layout_page(text, Some(w)) == rewritten(text),
        layout_page(text, None) == rewritten(text),
{
    reveal_strlit("[[ViewPortWidth]]");
    law_replacement_stands_at_the_first_occurrence(a, "[[ViewPortWidth]]"@, b, w);
    if !occurs(text, "[[ViewPortWidth]]"@) {
        law_replace_without_occurrence(text, "[[ViewPortWidth]]"@, w);
    }
}

/// The components of a path are the names in it, each in its place.
pub proof fn law_components_are_the_names(path: Seq<Vec<u8>>)
    ensures
        components(path).len() == path.len(),
        forall|i: int| 0 <= i < path.len() ==> #[trigger] components(path)[i] == path[i]@,
{
}

} // verus!
