use gaxibo::bridge::{BridgeMsg, BRIDGE_SCRIPT, BRIDGE_SCRIPT_PATH};
use gaxibo::encoding::from_utf8;
use gaxibo::query::{find_parameter, percent_decode, url_parameters, url_path};
use gaxibo::range::{parse_range, RangeError};
use gaxibo::server::{
    answer_call, begin, failure_reply, guess_content_type, lacks_path, layout_reply, lies_under,
    look_up, look_up_with_width, name_extension, range_reply, viewport_reply, Body, First, Found, Next, Reply, Request,
    SPLASH_HTML,
};

fn get(url: &str) -> Request {
    Request { url: url.to_string(), headers: Vec::new() }
}

fn with_header(url: &str, field: &str, value: &str) -> Request {
    Request { url: url.to_string(), headers: vec![(field.to_string(), value.to_string())] }
}

fn file(ext: &str) -> Found {
    Found::Inside { is_file: true, name: format!("x.{ext}").into_bytes() }
}

fn bare(status: u16) -> Reply {
    Reply { status, content_type: None, content_range: None, body: Body::Empty }
}

#[test]
fn bridge_routes_serve_and_dispatch() {
    // the shim is served
    match begin(true, &get(BRIDGE_SCRIPT_PATH)) {
        First::Respond(reply) => {
            assert_eq!(reply.status, 200);
            assert_eq!(reply.content_type, Some("application/javascript"));
            match reply.body {
                Body::Text(body) => assert!(body.contains("jsLayoutInit")),
                other => panic!("expected the shim, got {other:?}"),
            }
        }
        other => panic!("expected an answer, got {other:?}"),
    }

    // a layout is rewritten to use it, and nothing else is disturbed
    let req = get("/14.xlf.html");
    assert_eq!(begin(true, &req), First::Locate("14.xlf.html".into()));
    assert_eq!(look_up(true, &req, file("html")), Next::ReadLayout(None));
    let reply = layout_reply(
        "<script src='qrc:///qtwebchannel/qwebchannel.js'></script><img src='42.png'>",
        &None,
    );
    assert_eq!(reply.status, 200);
    match reply.body {
        Body::Text(body) => {
            assert!(body.contains(BRIDGE_SCRIPT_PATH));
            assert!(!body.contains("qrc:///"));
            assert!(body.contains("42.png"));
        }
        other => panic!("expected a page, got {other:?}"),
    }

    // a call from the page reaches the renderer
    assert_eq!(begin(true, &get("/arexibo/layoutInit")), First::ReadBody);
    let answer = answer_call("/arexibo/layoutInit", Some("14\n1920\n1024"));
    assert_eq!(answer.reply.status, 204);
    assert_eq!(answer.msg, Some(BridgeMsg::LayoutInit { id: 14, width: 1920, height: 1024 }));

    // an unknown bridge call is refused rather than falling through to the
    // cache directory
    assert_eq!(begin(true, &get("/arexibo/nonsense")), First::ReadBody);
    let answer = answer_call("/arexibo/nonsense", Some(""));
    assert_eq!(answer.reply, bare(404));
    assert_eq!(answer.msg, None);
}

#[test]
fn built_in_files() {
    assert_eq!(begin(false, &get("/favicon.ico")), First::Respond(bare(200)));
    match begin(true, &get("/splash.jpg")) {
        First::Respond(reply) => assert_eq!(reply.body, Body::Splash),
        other => panic!("expected an answer, got {other:?}"),
    }
    match begin(true, &get("/0.xlf.html")) {
        First::Respond(reply) => {
            assert_eq!(reply.content_type, None);
            assert_eq!(reply.body, Body::Text(SPLASH_HTML.into()));
        }
        other => panic!("expected an answer, got {other:?}"),
    }
    for url in ["/duration/set", "/duration/extend", "/duration/expire"] {
        match begin(false, &get(url)) {
            First::Respond(reply) => {
                assert_eq!(reply.status, 200);
                assert_eq!(reply.content_type, Some("application/json"));
                assert_eq!(reply.body, Body::Text("{}".into()));
            }
            other => panic!("expected an answer, got {other:?}"),
        }
    }
}

#[test]
fn without_the_bridge_its_paths_are_files() {
    assert_eq!(begin(false, &get(BRIDGE_SCRIPT_PATH)),
               First::Locate("arexibo-bridge.js".into()));
    assert_eq!(begin(false, &get("/arexibo/layoutDone")),
               First::Locate("arexibo/layoutDone".into()));
}

#[test]
fn layouts_are_no_bridge_paths() {
    for id in [-1i64, 1, 14, i64::MAX, i64::MIN] {
        let name = format!("{id}.xlf.html");
        assert_eq!(begin(true, &get(&format!("/{name}"))), First::Locate(name));
    }
}

#[test]
fn paths_to_look_up() {
    assert_eq!(begin(true, &get("/a/b.png?x=1?y")), First::Locate("a/b.png".into()));
    assert_eq!(begin(true, &get("*")), First::Locate("".into()));
    assert_eq!(begin(true, &get("//etc/passwd")), First::Locate("/etc/passwd".into()));
    assert!(lacks_path(true, ""));
    assert!(lacks_path(true, "?w=1"));
    assert!(lacks_path(false, "é"));
    assert!(!lacks_path(false, "/"));
    assert!(!lacks_path(true, "/arexibo/?"));
    assert!(!lacks_path(false, "/favicon.ico"));
}

#[test]
fn bodies_of_calls() {
    // white space at the end is ignored
    let answer = answer_call("/arexibo/command", Some("reboot \r\n\n"));
    assert_eq!(answer.reply, bare(204));
    assert_eq!(answer.msg, Some(BridgeMsg::Command("reboot".into())));
    // a body that could not be read is the page's problem
    let answer = answer_call("/arexibo/command", None);
    assert_eq!(answer.reply, bare(400));
    assert_eq!(answer.msg, None);
    // nothing but white space is no argument
    assert_eq!(answer_call("/arexibo/command", Some(" \n")).reply, bare(404));
}

#[test]
fn only_files_in_the_cache_are_sent() {
    let req = get("/x.png");
    assert_eq!(look_up(true, &req, Found::Outside), Next::Refuse(bare(403)));
    assert_eq!(look_up(true, &req, Found::Missing), Next::Refuse(bare(404)));
    let dir = Found::Inside { is_file: false, name: b"x.png".to_vec() };
    assert_eq!(look_up(true, &req, dir), Next::Refuse(bare(404)));
    match look_up(false, &req, file("png")) {
        Next::SendFile(reply) => {
            assert_eq!(reply.status, 200);
            assert_eq!(reply.content_type, Some("image/png"));
            assert_eq!(reply.content_range, None);
            assert_eq!(reply.body, Body::File);
        }
        other => panic!("expected the file, got {other:?}"),
    }
    assert_eq!(failure_reply(), bare(500));
}

#[test]
fn what_lies_under_the_cache_directory() {
    let path = |names: &[&str]| names.iter().map(|n| n.as_bytes().to_vec()).collect::<Vec<_>>();
    let dir = path(&["/", "var", "cache"]);
    assert!(lies_under(&path(&["/", "var", "cache", "14.xlf.html"]), &dir));
    assert!(lies_under(&path(&["/", "var", "cache", "a", "b"]), &dir));
    assert!(lies_under(&dir, &dir));
    assert!(!lies_under(&path(&["/", "var"]), &dir));
    // a name that merely begins with that of the directory is another
    assert!(!lies_under(&path(&["/", "var", "cache2", "x"]), &dir));
    assert!(!lies_under(&path(&["/", "etc", "passwd"]), &dir));
    assert!(!lies_under(&path(&["/", "var", "cach"]), &dir));
}

#[test]
fn a_query_without_a_width_makes_no_difference() {
    for bridge in [false, true] {
        for (path, ext) in [("/7.html", "html"), ("/14.xlf.html", "html"), ("/a/b.png", "png")] {
            let plain = get(path);
            for query in ["", "x=1", "W=9", "x=w&y", "x?w=9", "%78=1", "ww=9"] {
                let asked = get(&format!("{path}?{query}"));
                assert_eq!(begin(bridge, &asked), begin(bridge, &plain));
                assert_eq!(look_up(bridge, &asked, file(ext)), look_up(bridge, &plain, file(ext)));
                assert_eq!(look_up(bridge, &asked, Found::Missing), Next::Refuse(bare(404)));
            }
        }
    }
    // a width that is given, escaped or not, does
    for query in ["w=9", "%77=9", "x&w=9"] {
        let asked = get(&format!("/7.html?{query}"));
        assert_eq!(look_up(false, &asked, file("html")), Next::ReadPage("9".into()));
    }
}

#[test]
fn without_the_bridge_files_are_sent_as_they_are() {
    for name in ["14.xlf.html", "arexibo-bridge.js", "arexibo/layoutDone"] {
        let req = get(&format!("/{name}"));
        assert_eq!(begin(false, &req), First::Locate(name.into()));
        match look_up(false, &req, file("html")) {
            Next::SendFile(reply) => {
                assert_eq!(reply.status, 200);
                assert_eq!(reply.content_type, Some("text/html"));
                assert_eq!(reply.body, Body::File);
            }
            other => panic!("expected the file, got {other:?}"),
        }
        assert_eq!(look_up(false, &req, Found::Missing), Next::Refuse(bare(404)));
    }
}

#[test]
fn extensions_are_those_of_the_standard_library() {
    for name in ["x.html", "14.xlf.html", "x", "", ".html", "..", "...", ".a.b", "a.", "a..",
                 "x.é", "x.y z", "é.png", "..a", ".x.", "/"] {
        let expected = std::path::Path::new(name).extension().and_then(|e| e.to_str()).map(str::to_string);
        assert_eq!(name_extension(&name.as_bytes().to_vec()), expected, "{name:?}");
    }
    assert_eq!(name_extension(&b"14.xlf.html".to_vec()), Some("html".into()));
    assert_eq!(name_extension(&b"x.\xff".to_vec()), None);
    assert_eq!(name_extension(&b"\xff.png".to_vec()), Some("png".into()));
    // the type goes by the name of what was found, not by the path asked for
    let bare_name = Found::Inside { is_file: true, name: b".html".to_vec() };
    match look_up(false, &get("/.html?w=1"), bare_name) {
        Next::SendFile(reply) => assert_eq!(reply.content_type, Some("")),
        other => panic!("expected the file, got {other:?}"),
    }
}

#[test]
fn valid_utf8_and_no_other() {
    for bytes in [&b""[..], b"plain", "é€𝄞".as_bytes(), "\u{fffd}".as_bytes(), b"\xff",
                  b"a\xc3", b"\xed\xa0\x80", b"\xc0\xaf", b"\xf4\x90\x80\x80"] {
        assert_eq!(from_utf8(&bytes.to_vec()), String::from_utf8(bytes.to_vec()).ok());
    }
}

#[test]
fn content_types() {
    let guess = |ext: &str| guess_content_type(&Some(ext.to_string()));
    assert_eq!(guess("html"), "text/html");
    assert_eq!(guess("js"), "text/javascript");
    assert_eq!(guess("mjs"), "text/javascript");
    assert_eq!(guess("ttf"), "application/font-sfnt");
    assert_eq!(guess("otf"), "application/font-sfnt");
    assert_eq!(guess("jpg"), "image/jpeg");
    assert_eq!(guess("jpeg"), "image/jpeg");
    assert_eq!(guess("png"), "image/png");
    assert_eq!(guess("pdf"), "application/pdf");
    assert_eq!(guess("mp4"), "video/mp4");
    assert_eq!(guess("avi"), "video/avi");
    assert_eq!(guess("ogv"), "video/ogg");
    assert_eq!(guess("webm"), "video/webm");
    assert_eq!(guess("PNG"), "");
    assert_eq!(guess_content_type(&None), "");
}

#[test]
fn layouts_and_pages_get_their_width() {
    let layout = get("/14.xlf.html?w=1280");
    assert_eq!(look_up(true, &layout, file("html")), Next::ReadLayout(Some("1280".into())));
    // without the bridge a layout is a page like any other
    assert_eq!(look_up(false, &layout, file("html")), Next::ReadPage("1280".into()));
    let page = get("/7.html?w=1280&w=%36%40%25&x=1");
    assert_eq!(look_up(true, &page, file("html")), Next::ReadPage("6@%".into()));
    // without a width, or with another extension, it is a file
    assert!(matches!(look_up(true, &get("/7.html"), file("html")), Next::SendFile(_)));
    assert!(matches!(look_up(true, &get("/7.htm?w=1"), file("htm")), Next::SendFile(_)));
    assert_eq!(look_up_with_width(true, &get("/7.html"), file("html"), Some("9".into())),
               Next::ReadPage("9".into()));

    // a layout has every place filled in, a page the first
    let text = "<[[ViewPortWidth]]> [[ViewPortWidth]] qrc:///qtwebchannel/qwebchannel.js";
    assert_eq!(layout_reply(text, &Some("640".into())).body,
               Body::Text("<640> 640 /arexibo-bridge.js".into()));
    assert_eq!(layout_reply(text, &None).body,
               Body::Text("<[[ViewPortWidth]]> [[ViewPortWidth]] /arexibo-bridge.js".into()));
    let reply = viewport_reply(&text.as_bytes().to_vec(), "640");
    assert_eq!(reply.status, 200);
    assert_eq!(reply.content_type, Some("text/html"));
    assert_eq!(reply.body, Body::Bytes(
        b"<640> [[ViewPortWidth]] qrc:///qtwebchannel/qwebchannel.js".to_vec()));
    assert_eq!(viewport_reply(&vec![0xff, 0x5b, 0x5b], "640").body,
               Body::Bytes(vec![0xff, 0x5b, 0x5b]));
}

#[test]
fn range_headers_are_found_whatever_their_case() {
    for field in ["Range", "range", "RANGE"] {
        let req = with_header("/41.mp4", field, "bytes=0-");
        assert_eq!(look_up(true, &req, file("mp4")), Next::Measure("bytes=0-".into()));
    }
    for field in ["Ranges", "Rang", "If-Range", "Rängé", ""] {
        let req = with_header("/41.mp4", field, "bytes=0-");
        assert!(matches!(look_up(true, &req, file("mp4")), Next::SendFile(_)));
    }
    // the first one counts, and a page with a width comes before it
    let req = Request {
        url: "/41.mp4".into(),
        headers: vec![("Host".into(), "x".into()), ("Range".into(), "a".into()),
                      ("Range".into(), "b".into())],
    };
    assert_eq!(look_up(true, &req, file("mp4")), Next::Measure("a".into()));
    let req = with_header("/7.html?w=1", "Range", "bytes=0-");
    assert_eq!(look_up(true, &req, file("html")), Next::ReadPage("1".into()));
}

#[test]
fn ranges() {
    assert_eq!(parse_range(100, "bytes=10-19"), Ok((10, 19, 10)));
    assert_eq!(parse_range(100, "bytes=10-"), Ok((10, 99, 90)));
    assert_eq!(parse_range(100, "bytes=0-99"), Ok((0, 99, 100)));
    assert_eq!(parse_range(100, "bytes=-5"), Ok((0, 5, 6)));
    assert_eq!(parse_range(100, "bytes=x-y"), Ok((0, 99, 100)));
    assert_eq!(parse_range(100, "bytes=0-5,7-9"), Ok((0, 99, 100)));
    assert_eq!(parse_range(u64::MAX, "bytes=18446744073709551614-18446744073709551615"),
               Err(RangeError::InvalidBounds));
    assert_eq!(parse_range(u64::MAX, "bytes=18446744073709551613-18446744073709551614"),
               Ok((18446744073709551613, 18446744073709551614, 2)));
    assert_eq!(parse_range(100, "bytes=20-10"), Err(RangeError::InvalidBounds));
    assert_eq!(parse_range(100, "bytes=10-100"), Err(RangeError::InvalidBounds));
    assert_eq!(parse_range(100, "bytes=100-"), Err(RangeError::InvalidBounds));
    assert_eq!(parse_range(100, "items=0-5"), Err(RangeError::InvalidHeader));
    assert_eq!(parse_range(100, "bytes=5"), Err(RangeError::InvalidHeader));
    assert_eq!(parse_range(0, "bytes"), Err(RangeError::InvalidHeader));
    // nothing of an empty file can be served
    assert_eq!(parse_range(0, "bytes=0-"), Err(RangeError::InvalidBounds));
    assert_eq!(parse_range(0, "bytes=0-0"), Err(RangeError::InvalidBounds));
    assert_eq!(parse_range(0, "bytes=-"), Err(RangeError::InvalidBounds));
    assert_eq!(RangeError::InvalidHeader.message(), "invalid Range header");
    assert_eq!(RangeError::InvalidBounds.message(), "invalid Range from/to");
}

#[test]
fn range_answers() {
    let reply = range_reply(100, "bytes=10-19").unwrap();
    assert_eq!(reply.status, 206);
    assert_eq!(reply.content_type, Some("video/mp4"));
    assert_eq!(reply.content_range, Some("bytes 10-19/100".into()));
    assert_eq!(reply.body, Body::Part { from: 10, size: 10 });
    assert_eq!(range_reply(0, "bytes=0-"), Err(RangeError::InvalidBounds));
    assert_eq!(range_reply(100, "bytes=9-1"), Err(RangeError::InvalidBounds));
    assert_eq!(range_reply(100, ""), Err(RangeError::InvalidHeader));
}

#[test]
fn queries() {
    assert_eq!(url_path("/a?b?c"), "/a");
    assert_eq!(url_path("?b"), "");
    assert_eq!(url_parameters("/a"), vec![]);
    assert_eq!(url_parameters("/a?"), vec![("".into(), "".into())]);
    let params = url_parameters("/a?w=1&x&w=2=3&%77=c%C3%A9+%zz%4?w=9");
    assert_eq!(params, vec![
        ("w".into(), "1".into()),
        ("x".into(), "".into()),
        ("w".into(), "2".into()),
        ("w".into(), "cé+%zz%4".into()),
    ]);
    assert_eq!(find_parameter(&params, "w"), Some("cé+%zz%4".into()));
    assert_eq!(find_parameter(&params, "x"), Some("".into()));
    assert_eq!(find_parameter(&params, "y"), None);
    assert_eq!(percent_decode("%ff!"), "\u{fffd}!");
    assert_eq!(percent_decode("plain é"), "plain é");
    assert_eq!(percent_decode("%e2%82%ac"), "€");
}

#[test]
fn the_shim_defers_its_callback() {
    assert!(BRIDGE_SCRIPT.contains("setTimeout(function () {"));
}
