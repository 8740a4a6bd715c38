use gaxibo::bridge::BridgeMsg;
use gaxibo::wayland::{
    background_layout, background_path, BufferLayout, Event, Global, Response, State, Step,
};
use gaxibo::wpe::{
    advance, base_uri, layout_url, obey, pipeline_description, react, show, stops, surface_size,
    trigger_script, webhook_script, Action, Advance, BusMessage, Kill, PlayerAction, PlayerMessage,
};

const BASE: &str = "http://localhost:9696/";

#[test]
fn urls_and_the_pipeline() {
    assert_eq!(base_uri(9696), BASE);
    assert_eq!(base_uri(0), "http://localhost:0/");
    assert_eq!(layout_url(BASE, 14), "http://localhost:9696/14.xlf.html");
    assert_eq!(layout_url(BASE, -2), "http://localhost:9696/-2.xlf.html");
    assert_eq!(
        pipeline_description(BASE, 1920, 1024),
        "wpevideosrc name=src location=http://localhost:9696/0.xlf.html \
         ! video/x-raw,width=1920,height=1024,framerate=60/1 \
         ! queue max-size-buffers=3 leaky=downstream \
         ! videoconvert \
         ! waylandsink name=sink"
    );
}

#[test]
fn zero_means_the_size_of_the_screen() {
    assert_eq!(surface_size(0, 0), (1920, 1080));
    assert_eq!(surface_size(800, -1), (800, 1080));
    assert_eq!(surface_size(-1, 600), (1920, 600));
    assert_eq!(surface_size(4294967297, 2147483647), (1, i32::MAX));
}

#[test]
fn webhooks_become_scripts() {
    assert_eq!(trigger_script("\"x\""), "window.arexibo.trigger(\"x\");");
    assert_eq!(webhook_script("go"), "window.arexibo.trigger(\"go\");");
    assert_eq!(webhook_script("a\"b\\\n"), "window.arexibo.trigger(\"a\\\"b\\\\\\n\");");
}

#[test]
fn calls_from_the_page() {
    // the splash is not announced
    assert_eq!(react(BASE, BridgeMsg::LayoutInit { id: 0, width: 1920, height: 1080 }),
               Action::Ignore);
    assert_eq!(react(BASE, BridgeMsg::LayoutInit { id: -1, width: 1, height: 1 }), Action::Ignore);
    assert_eq!(react(BASE, BridgeMsg::LayoutInit { id: 14, width: 1, height: 1 }),
               Action::Announce(14));
    assert_eq!(react(BASE, BridgeMsg::LayoutDone { id: 14 }), Action::Advance);
    assert_eq!(react(BASE, BridgeMsg::LayoutPrev { id: 14 }), Action::GoBack);
    assert_eq!(react(BASE, BridgeMsg::LayoutJump { id: 14, target: 24 }),
               Action::Navigate("http://localhost:9696/24.xlf.html".into()));
    assert_eq!(react(BASE, BridgeMsg::Command("reboot".into())), Action::Command("reboot".into()));
    assert_eq!(react(BASE, BridgeMsg::Shell("ls".into(), true)), Action::Shell("ls".into(), true));
    assert_eq!(react(BASE, BridgeMsg::StopShell(0)), Action::StopShell(Kill::No));
    assert_eq!(react(BASE, BridgeMsg::StopShell(1)), Action::StopShell(Kill::Terminate));
    assert_eq!(react(BASE, BridgeMsg::StopShell(2)), Action::StopShell(Kill::Kill));
    assert_eq!(react(BASE, BridgeMsg::Log("hello".into())), Action::Report("hello".into()));
    assert_eq!(react(BASE, BridgeMsg::VideoStop { mid: "m5".into() }), Action::Ignore);
    assert_eq!(react(BASE, BridgeMsg::VideoPlay { mid: "m5".into(), uri: "41.mp4".into(),
                                                  x: 0, y: 0, w: 1, h: 1, muted: true }),
               Action::CannotPlay("m5".into()));
}

#[test]
fn the_schedule_decides_what_is_shown() {
    assert_eq!(advance(BASE, Some(3)), Advance::Navigate("http://localhost:9696/3.xlf.html".into()));
    assert_eq!(advance(BASE, None), Advance::MarkDone);
    assert_eq!(show(BASE, Some(3)), Some("http://localhost:9696/3.xlf.html".into()));
    assert_eq!(show(BASE, None), None);
}

#[test]
fn messages_from_the_player() {
    assert_eq!(obey(BASE, PlayerMessage::Layouts(Some(3))),
               PlayerAction::Navigate("http://localhost:9696/3.xlf.html".into()));
    assert_eq!(obey(BASE, PlayerMessage::Layouts(None)), PlayerAction::Ignore);
    assert_eq!(obey(BASE, PlayerMessage::WebHook("a\"b".into())),
               PlayerAction::RunScript("window.arexibo.trigger(\"a\\\"b\");".into()));
    // the surface stays as it is, and no screenshot is taken
    assert_eq!(obey(BASE, PlayerMessage::Settings), PlayerAction::Ignore);
    assert_eq!(obey(BASE, PlayerMessage::Screenshot), PlayerAction::Ignore);
}

#[test]
fn the_pipeline_stops_on_errors_and_at_the_end() {
    assert!(stops(BusMessage::Error));
    assert!(stops(BusMessage::Eos));
    assert!(!stops(BusMessage::Warning));
    assert!(!stops(BusMessage::StateChanged));
    assert!(!stops(BusMessage::Other));
}

fn global(interface: &str, version: u32) -> Event {
    Event::Global { name: 7, interface: interface.to_string(), version }
}

#[test]
fn globals_are_bound_in_versions_the_compositor_has() {
    let mut state = State::new();
    assert_eq!(state.missing(), Some(Global::Compositor));
    assert_eq!(state.event(global("wl_compositor", 6)),
               Response::Bind { global: Global::Compositor, name: 7, version: 4 });
    assert_eq!(state.missing(), Some(Global::Shm));
    assert_eq!(state.event(global("wl_shm", 2)),
               Response::Bind { global: Global::Shm, name: 7, version: 1 });
    assert_eq!(state.missing(), Some(Global::WmBase));
    assert_eq!(state.event(global("wl_seat", 9)), Response::Nothing);
    assert_eq!(state.missing(), Some(Global::WmBase));
    assert_eq!(state.event(global("xdg_wm_base", 2)),
               Response::Bind { global: Global::WmBase, name: 7, version: 2 });
    assert_eq!(state.missing(), None);
    assert_eq!(state.event(global("xdg_wm_base", 5)),
               Response::Bind { global: Global::WmBase, name: 7, version: 3 });
    assert_eq!(state.event(global("wl_compositor", 1)),
               Response::Bind { global: Global::Compositor, name: 7, version: 1 });
    assert_eq!(Global::Compositor.missing_message(), "no wl_compositor");
    assert_eq!(Global::Shm.missing_message(), "no wl_shm");
    assert_eq!(Global::WmBase.missing_message(), "no xdg_wm_base");
}

#[test]
fn the_compositor_is_answered() {
    let mut state = State::new();
    assert_eq!(state.event(Event::Ping { serial: 5 }), Response::Pong { serial: 5 });
    assert_eq!(state.event(Event::Configure { serial: 6 }),
               Response::Acknowledge { serial: 6, commit: false });
    state.surface_created();
    assert_eq!(state.event(Event::Configure { serial: 7 }),
               Response::Acknowledge { serial: 7, commit: true });
    assert_eq!(state.event(Event::ToplevelConfigure { width: 0, height: 9 }), Response::Nothing);
    assert_eq!(state.event(Event::ToplevelConfigure { width: 8, height: 9 }),
               Response::NoteSize { width: 8, height: 9 });
    assert_eq!(state.event(Event::Other), Response::Nothing);
    assert!(!state.dispatch_ends(false));
    assert!(state.dispatch_ends(true));
    assert_eq!(state.event(Event::Close), Response::Nothing);
    assert!(state.closed);
    assert!(state.dispatch_ends(false));
}

#[test]
fn the_surface_is_set_up_in_order() {
    let mut state = State::new();
    assert_eq!(Step::Bindings.next(&state), Err(Global::Compositor));
    for name in ["wl_compositor", "wl_shm", "xdg_wm_base"] {
        state.event(global(name, 3));
    }
    let mut step = Step::Connect;
    for expected in [Step::Globals, Step::Bindings, Step::Toplevel, Step::Configure,
                     Step::Background, Step::Present, Step::Dispatch, Step::Ready] {
        step = step.next(&state).unwrap();
        assert_eq!(step, expected);
    }
    assert_eq!(Step::Globals.failure(), "the initial Wayland round trip");
    assert_eq!(Step::Configure.failure(), "waiting for the first xdg configure");
}

#[test]
fn the_background_fills_its_file() {
    assert_eq!(background_layout(1920, 1080),
               BufferLayout { stride: 7680, len: 8294400, pool_size: 8294400 });
    assert_eq!(background_layout(0, 5), BufferLayout { stride: 0, len: 0, pool_size: 0 });
    assert_eq!(background_layout(1, -1),
               BufferLayout { stride: 4, len: (-4i32) as u64, pool_size: -4 });
    assert_eq!(background_path(4242), "/dev/shm/gaxibo-bg-4242");
}
