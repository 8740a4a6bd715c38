use gaxibo::bridge::{parse, rewrite_html, BridgeMsg, BRIDGE_SCRIPT};

#[test]
fn parses_each_method() {
    assert_eq!(parse("/arexibo/layoutInit", "14\n1920\n1024"),
               Some(BridgeMsg::LayoutInit { id: 14, width: 1920, height: 1024 }));
    assert_eq!(parse("/arexibo/layoutDone", "14"), Some(BridgeMsg::LayoutDone { id: 14 }));
    assert_eq!(parse("/arexibo/layoutPrev", "14"), Some(BridgeMsg::LayoutPrev { id: 14 }));
    assert_eq!(parse("/arexibo/layoutJump", "14\n24"),
               Some(BridgeMsg::LayoutJump { id: 14, target: 24 }));
    assert_eq!(parse("/arexibo/command", "reboot"),
               Some(BridgeMsg::Command("reboot".into())));
    assert_eq!(parse("/arexibo/shell", "ls\n1"),
               Some(BridgeMsg::Shell("ls".into(), true)));
    assert_eq!(parse("/arexibo/shell", "ls\n0"),
               Some(BridgeMsg::Shell("ls".into(), false)));
    assert_eq!(parse("/arexibo/stopShell", "2"), Some(BridgeMsg::StopShell(2)));
}

#[test]
fn parses_video_calls_and_intercepts_only_video() {
    assert_eq!(parse("/arexibo/videoPlay", "m5\n41.mp4\n0\n0\n1920\n1024\n1"),
               Some(BridgeMsg::VideoPlay { mid: "m5".into(), uri: "41.mp4".into(),
                                           x: 0, y: 0, w: 1920, h: 1024, muted: true }));
    assert_eq!(parse("/arexibo/videoStop", "m5"),
               Some(BridgeMsg::VideoStop { mid: "m5".into() }));
    // an unmuted clip must not be forced silent
    match parse("/arexibo/videoPlay", "m5\n41.mp4\n0\n0\n16\n9\n0") {
        Some(BridgeMsg::VideoPlay { muted, .. }) => assert!(!muted),
        other => panic!("expected VideoPlay, got {other:?}"),
    }
    // the player cannot route audio, so the shim must leave <audio> to the page
    assert!(BRIDGE_SCRIPT.contains("HTMLVideoElement.prototype.play"));
    assert!(!BRIDGE_SCRIPT.contains("HTMLMediaElement.prototype.play"));
    // and the player must be able to end a clip the page is waiting on
    assert!(BRIDGE_SCRIPT.contains("__gaxiboVideoEnded"));
    // the observer is what stops the page fetching the media at all
    assert!(BRIDGE_SCRIPT.contains("MutationObserver"),
            "video elements must be stripped before their fetch starts");
}

#[test]
fn rejects_junk_without_panicking() {
    // not our prefix, unknown method, missing required argument
    assert_eq!(parse("/14.xlf.html", ""), None);
    assert_eq!(parse("/arexibo/nonsense", "1"), None);
    assert_eq!(parse("/arexibo/layoutDone", ""), None);
    assert_eq!(parse("/arexibo/layoutJump", "14"), None);
    // out-of-range kill mode is clamped, not panicked on
    assert_eq!(parse("/arexibo/stopShell", "99"), Some(BridgeMsg::StopShell(2)));
}

#[test]
fn rewrites_only_the_transport_and_defers_the_callback() {
    let html = "<script src='qrc:///qtwebchannel/qwebchannel.js'></script><img src='42.png'>";
    let out = rewrite_html(html);
    assert!(out.contains("/arexibo-bridge.js"));
    assert!(!out.contains("qrc:///"));
    assert!(out.contains("42.png"), "must not disturb the rest of the document");
    // the shim's deferral is what makes the generated HTML work at all
    assert!(BRIDGE_SCRIPT.contains("setTimeout"));
}

#[test]
fn numbers_are_trimmed_signed_and_cut_to_size() {
    assert_eq!(parse("/arexibo/layoutInit", " -7 \n+1920\n\t1024\r"),
               Some(BridgeMsg::LayoutInit { id: -7, width: 1920, height: 1024 }));
    // a size that is missing or no number is zero
    assert_eq!(parse("/arexibo/layoutInit", "14\nwide"),
               Some(BridgeMsg::LayoutInit { id: 14, width: 0, height: 0 }));
    // a size beyond 32 bits keeps its low bits
    assert_eq!(parse("/arexibo/layoutInit", "1\n4294967297\n2147483648"),
               Some(BridgeMsg::LayoutInit { id: 1, width: 1, height: i32::MIN }));
    // an id that is missing, no number or too large is no call
    assert_eq!(parse("/arexibo/layoutInit", "x\n1\n1"), None);
    assert_eq!(parse("/arexibo/layoutPrev", "9223372036854775808"), None);
    assert_eq!(parse("/arexibo/layoutPrev", "-9223372036854775808"),
               Some(BridgeMsg::LayoutPrev { id: i64::MIN }));
    assert_eq!(parse("/arexibo/layoutDone", "-"), None);
    assert_eq!(parse("/arexibo/layoutDone", "+"), None);
    assert_eq!(parse("/arexibo/layoutDone", "1 4"), None);
}

#[test]
fn kill_modes_are_clamped() {
    assert_eq!(parse("/arexibo/stopShell", "-5"), Some(BridgeMsg::StopShell(0)));
    assert_eq!(parse("/arexibo/stopShell", "1"), Some(BridgeMsg::StopShell(1)));
    assert_eq!(parse("/arexibo/stopShell", ""), Some(BridgeMsg::StopShell(0)));
    assert_eq!(parse("/arexibo/stopShell", "what"), Some(BridgeMsg::StopShell(0)));
    assert_eq!(parse("/arexibo/stopShell", "9223372036854775807"), Some(BridgeMsg::StopShell(2)));
}

#[test]
fn shell_flags() {
    let shell = |body: &str| parse("/arexibo/shell", body);
    assert_eq!(shell("ls"), Some(BridgeMsg::Shell("ls".into(), false)));
    assert_eq!(shell("ls\n true "), Some(BridgeMsg::Shell("ls".into(), true)));
    assert_eq!(shell("ls\nTRUE"), Some(BridgeMsg::Shell("ls".into(), false)));
    assert_eq!(shell("\n1"), Some(BridgeMsg::Shell("".into(), true)));
    assert_eq!(shell(""), None);
    assert_eq!(parse("/arexibo/command", ""), None);
}

#[test]
fn video_calls_without_everything() {
    assert_eq!(parse("/arexibo/videoPlay", "m5"), None);
    assert_eq!(parse("/arexibo/videoStop", ""), None);
    // without the flag a clip is silent
    assert_eq!(parse("/arexibo/videoPlay", "m5\n41.mp4"),
               Some(BridgeMsg::VideoPlay { mid: "m5".into(), uri: "41.mp4".into(),
                                           x: 0, y: 0, w: 0, h: 0, muted: true }));
}

#[test]
fn log_lines_are_joined() {
    assert_eq!(parse("/arexibo/log", "a\nb\n\nc"), Some(BridgeMsg::Log("a b  c".into())));
    assert_eq!(parse("/arexibo/log", ""), Some(BridgeMsg::Log("".into())));
}

#[test]
fn method_names_are_exact() {
    assert_eq!(parse("/arexibo/layoutDone/", "14"), None);
    assert_eq!(parse("/arexibo/LayoutDone", "14"), None);
    assert_eq!(parse("/arexibo/", "14"), None);
    assert_eq!(parse("/arexibo", "14"), None);
    assert_eq!(parse("", ""), None);
}

#[test]
fn what_the_shim_posts_is_parsed_as_the_call() {
    let wire = |args: &[&str]| args.join("\n");
    assert_eq!(parse("/arexibo/layoutInit", &wire(&["-3", "-1", "2147483647"])),
               Some(BridgeMsg::LayoutInit { id: -3, width: -1, height: i32::MAX }));
    assert_eq!(parse("/arexibo/videoPlay", &wire(&["m é", "a b.mp4", "1", "-2", "3", "4", "0"])),
               Some(BridgeMsg::VideoPlay { mid: "m é".into(), uri: "a b.mp4".into(),
                                           x: 1, y: -2, w: 3, h: 4, muted: false }));
}

#[test]
fn rewriting_is_thorough_and_stable() {
    let qt = "qrc:///qtwebchannel/qwebchannel.js";
    let html = format!("é{qt}{qt} qrc:///qtwebchannel/qrc:///qtwebchannel/qwebchannel.js{qt}");
    let out = rewrite_html(&html);
    assert_eq!(out, html.replace(qt, "/arexibo-bridge.js"));
    assert!(!out.contains(qt));
    assert_eq!(rewrite_html(&out), out);
    assert_eq!(rewrite_html("<p>no script</p>"), "<p>no script</p>");
    assert_eq!(rewrite_html(""), "");
}
