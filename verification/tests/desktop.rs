use euthergate::desktop::{
    desktop_launch_terminal, desktop_start, desktop_stop, hyprctl, launch_found, launch_reply,
    list_command, DesktopManager, DesktopSelection, HyprReply, HyprRun, LaunchStep, StartStep, StopStep,
};
use euthergate::error::DesktopError;
use euthergate::monitors::{
    find_workspace, monitor_workspace, parse_outputs, HyprMonitor, HyprWorkspace, Json,
};
use euthergate::number::Binary64;
use euthergate::reply::{Body, Reply, Scalar};
use euthergate::signaling::{
    desktop_socket, helper_arguments, SignalAction, SignalEvent, FAREWELL, FAREWELL_SECONDS,
};

fn read_monitors(text: &str) -> Option<Vec<HyprMonitor>> {
    let value: serde_json::Value = serde_json::from_str(text).ok()?;
    let small = |value: &serde_json::Value| u32::try_from(value.as_u64().unwrap()).unwrap();
    let items = value.as_array()?;
    Some(
        items
            .iter()
            .map(|item| HyprMonitor {
                name: item["name"].as_str().unwrap().to_string(),
                description: item["description"].as_str().unwrap_or("").to_string(),
                width: small(&item["width"]),
                height: small(&item["height"]),
                refresh_rate: Binary64 { bits: item["refreshRate"].as_f64().unwrap().to_bits() },
                active_workspace: HyprWorkspace { id: small(&item["activeWorkspace"]["id"]) },
            })
            .collect(),
    )
}

fn monitor(name: &str, workspace: u32) -> HyprMonitor {
    HyprMonitor {
        name: name.to_string(),
        description: "d".to_string(),
        width: 1280,
        height: 720,
        refresh_rate: Binary64 { bits: 59.94f64.to_bits() },
        active_workspace: HyprWorkspace { id: workspace },
    }
}

fn listing(names: &[&str]) -> HyprReply {
    HyprReply::Printed {
        text: String::new(),
        monitors: Some(names.iter().enumerate().map(|(i, n)| monitor(n, i as u32 + 1)).collect()),
    }
}

fn done() -> HyprReply {
    HyprReply::Printed { text: "ok".to_string(), monitors: None }
}

fn failed() -> HyprReply {
    HyprReply::Failed("no".to_string())
}

fn desktop() -> DesktopManager {
    DesktopManager::new("EUTHERGATE-1".to_string(), "1280x720@30".to_string())
}

fn run_start(
    desktop: &mut DesktopManager,
    requested: Option<&str>,
    replies: Vec<HyprReply>,
) -> (Vec<String>, Result<DesktopSelection, DesktopError>) {
    let mut commands = Vec::new();
    let mut step = desktop.start(true, "helper.py", requested);
    let mut replies = replies.into_iter();
    loop {
        match step {
            StartStep::Done(result) => {
                assert!(replies.next().is_none());
                return (commands, result);
            }
            StartStep::Run { args, next } => {
                commands.push(args.join(" "));
                step = desktop.start_reply(next, &replies.next().unwrap());
            }
        }
    }
}

fn error_text(reply: &Reply) -> String {
    assert_eq!(reply.status, 503);
    match &reply.body {
        Body::Object(members) => {
            assert_eq!(members.len(), 1);
            assert_eq!(members[0].name, "error");
            match &members[0].value {
                Scalar::Text(text) => text.clone(),
                _ => panic!("no text"),
            }
        }
        _ => panic!("no object"),
    }
}

#[test]
fn monitor_workspace_finds_the_headless_output() {
    let monitors = r#"[
            {"name":"DP-1","activeWorkspace":{"id":2}},
            {"name":"EUTHERGATE-1","activeWorkspace":{"id":50}}
        ]"#;
    assert_eq!(monitor_workspace(monitors, "EUTHERGATE-1").unwrap(), 50);
    assert!(monitor_workspace(monitors, "MISSING").is_err());
}

#[test]
fn output_parser_distinguishes_physical_and_virtual_outputs() {
    let monitors = r#"[
            {
                "name":"DP-1",
                "description":"DisplayPort monitor",
                "width":1600,
                "height":900,
                "refreshRate":60.0,
                "activeWorkspace":{"id":2}
            },
            {
                "name":"EUTHERGATE-1",
                "description":"",
                "width":1280,
                "height":720,
                "refreshRate":30.0,
                "activeWorkspace":{"id":3}
            }
        ]"#;
    let outputs = parse_outputs(&read_monitors(monitors), "EUTHERGATE-1").unwrap();

    assert_eq!(outputs[0].name, "DP-1");
    assert_eq!(outputs[0].mode, "1600x900@60");
    assert_eq!(outputs[0].workspace, 2);
    assert!(!outputs[0].virtual_output);
    assert_eq!(outputs[1].description, "Virtual output");
    assert!(outputs[1].virtual_output);
}

#[test]
fn both_readings_of_a_listing_agree() {
    let text = r#"[
        {"name":"DP-1","width":1600,"height":900,"refreshRate":60.0,"activeWorkspace":{"id":2}},
        {"name":"DP-2","width":800,"height":600,"refreshRate":75.0,"activeWorkspace":{"id":9}},
        {"name":"DP-2","width":640,"height":480,"refreshRate":60.0,"activeWorkspace":{"id":4}}
    ]"#;
    let outputs = parse_outputs(&read_monitors(text), "EUTHERGATE-1").unwrap();
    for name in ["DP-1", "DP-2", "DP-3"] {
        let shown = outputs.iter().find(|output| output.name == name);
        match monitor_workspace(text, name) {
            Ok(id) => assert_eq!(shown.map(|output| output.workspace), Some(id)),
            Err(DesktopError::NoWorkspace(missed)) => {
                assert_eq!(missed, name);
                assert!(shown.is_none());
            }
            Err(_) => panic!("another error"),
        }
    }
    assert_eq!(outputs[1].workspace, 9);
}

#[test]
fn workspaces_are_looked_up_in_the_first_monitor_of_that_name() {
    let missing = |text: &str| match monitor_workspace(text, "A").unwrap_err() {
        DesktopError::NoWorkspace(name) => assert_eq!(name, "A"),
        _ => panic!("another error"),
    };
    missing("[]");
    missing("{}");
    missing("3");
    missing(r#"[{"name":"A"}]"#);
    missing(r#"[{"name":"A","activeWorkspace":7}]"#);
    missing(r#"[{"name":"A","activeWorkspace":{"id":"7"}}]"#);
    missing(r#"[{"name":"A","activeWorkspace":{"id":-1}}]"#);
    missing(r#"[{"name":"A","activeWorkspace":{"id":4294967296}}]"#);
    missing(r#"[{"name":"A","activeWorkspace":{"id":1.5}}]"#);
    missing(r#"[{"name":"A"},{"name":"A","activeWorkspace":{"id":1}}]"#);
    missing(r#"[["name","A"],null,true,{"name":["A"]}]"#);
    let text = r#"[{"name":"B"},7,{"activeWorkspace":{"id":4294967295,"name":"4"},"name":"A"}]"#;
    assert_eq!(monitor_workspace(text, "A").unwrap(), 4294967295);
    assert!(matches!(monitor_workspace("[", "A"), Err(DesktopError::InvalidMonitors)));
    assert!(matches!(monitor_workspace("", "A"), Err(DesktopError::InvalidMonitors)));
    let object = |name: &str, value: Json| Json::Object(vec![(name.to_string(), value)]);
    let item = Json::Object(vec![
        ("activeWorkspace".to_string(), object("id", Json::Number(Some(9)))),
        ("name".to_string(), Json::Text("A".to_string())),
    ]);
    assert_eq!(find_workspace(&Json::List(vec![Json::Null, item]), "A"), Some(9));
    assert_eq!(find_workspace(&Json::Bool(true), "A"), None);
}

#[test]
fn modes_hold_the_rounded_rate() {
    let outputs = parse_outputs(&Some(vec![monitor("DP-2", 4)]), "V").unwrap();
    assert_eq!(outputs[0].mode, "1280x720@60");
    assert_eq!(outputs[0].description, "d");
    assert!(matches!(parse_outputs(&None, "V"), Err(DesktopError::InvalidMonitors)));
}

#[test]
fn the_virtual_output_can_always_be_chosen() {
    let desktop = desktop();
    let outputs = desktop.outputs(&listing(&["DP-1"])).unwrap();
    assert_eq!(outputs.len(), 2);
    assert_eq!(outputs[0].name, "EUTHERGATE-1");
    assert_eq!(outputs[0].description, "Virtual Forge output");
    assert_eq!(outputs[0].mode, "1280x720@30");
    assert_eq!(outputs[0].workspace, 0);
    assert!(outputs[0].virtual_output);
    assert_eq!(outputs[1].name, "DP-1");
    let outputs = desktop.outputs(&listing(&["DP-1", "EUTHERGATE-1"])).unwrap();
    assert_eq!(outputs.len(), 2);
    assert_eq!(outputs[0].name, "DP-1");
    assert!(matches!(desktop.outputs(&failed()), Err(DesktopError::Hyprctl(m)) if m == "no"));
    assert!(matches!(desktop.outputs(&done()), Err(DesktopError::InvalidMonitors)));
}

#[test]
fn starting_the_virtual_output_creates_and_configures_it() {
    let mut desktop = desktop();
    let (commands, result) = run_start(
        &mut desktop,
        None,
        vec![listing(&["DP-1"]), done(), done(), listing(&["DP-1", "EUTHERGATE-1"])],
    );
    assert_eq!(
        commands,
        vec![
            "monitors all -j",
            "output create headless EUTHERGATE-1",
            "keyword monitor EUTHERGATE-1,1280x720@30,auto,1",
            "monitors all -j",
        ]
    );
    let selection = result.unwrap();
    assert_eq!(selection.output, "EUTHERGATE-1");
    assert_eq!(selection.mode, "1280x720@60");
    assert_eq!(selection.workspace, 2);
    assert!(selection.virtual_output);
    assert!(desktop.active);
    assert_eq!(desktop.selection().workspace, 2);
}

#[test]
fn starting_a_physical_output_only_lists() {
    let mut desktop = desktop();
    let (commands, result) =
        run_start(&mut desktop, Some("DP-1"), vec![listing(&["DP-1"]), listing(&["DP-1"])]);
    assert_eq!(commands, vec!["monitors all -j", "monitors all -j"]);
    let selection = result.unwrap();
    assert_eq!(selection.output, "DP-1");
    assert!(!selection.virtual_output);
    assert!(desktop.active);
}

#[test]
fn starts_fail_without_a_trace() {
    let mut desktop = desktop();
    let mut fails = |requested: Option<&str>, replies: Vec<HyprReply>| {
        let (commands, result) = run_start(&mut desktop, requested, replies);
        assert!(!desktop.active);
        assert_eq!(desktop.selection.output, "EUTHERGATE-1");
        assert_eq!(desktop.selection.workspace, 0);
        (commands.len(), commands.last().unwrap().clone(), result.unwrap_err().message())
    };
    assert_eq!(fails(None, vec![failed()]), (1, "monitors all -j".to_string(), "no".to_string()));
    assert_eq!(fails(None, vec![done()]).2, "hyprctl returned invalid monitor JSON");
    assert_eq!(fails(None, vec![listing(&[]), failed()]).1, "output create headless EUTHERGATE-1");
    assert_eq!(
        fails(None, vec![listing(&["EUTHERGATE-1"]), failed(), done()]),
        (3, "output remove EUTHERGATE-1".to_string(), "no".to_string())
    );
    assert_eq!(
        fails(
            None,
            vec![
                listing(&["EUTHERGATE-1"]),
                failed(),
                HyprReply::Failed("another".to_string())
            ]
        )
        .2,
        "no"
    );
    assert_eq!(
        fails(None, vec![listing(&["EUTHERGATE-1"]), done(), listing(&[])]).2,
        "Wayland output EUTHERGATE-1 disappeared"
    );
    assert_eq!(
        fails(Some("DP-9"), vec![listing(&["DP-1"])]).2,
        "Wayland output DP-9 does not exist"
    );
    assert_eq!(
        fails(Some("DP-1"), vec![listing(&["DP-1"]), failed()]).2,
        "no"
    );
    match desktop.start(false, "scripts/x.py", None) {
        StartStep::Done(Err(error)) => {
            assert_eq!(error.message(), "WebRTC helper not found at scripts/x.py")
        }
        _ => panic!("helper is missing"),
    }
}

#[test]
fn no_switch_while_a_viewer_watches() {
    let mut desktop = desktop();
    run_start(&mut desktop, Some("DP-1"), vec![listing(&["DP-1"]), listing(&["DP-1"])]).1.unwrap();
    assert!(desktop.desktop_ws().is_none());
    match desktop.start(true, "h", None) {
        StartStep::Done(Err(error)) => assert_eq!(
            error.message(),
            "disconnect the current viewer before switching output"
        ),
        _ => panic!("refused"),
    }
    assert!(matches!(desktop.start(true, "h", Some("DP-1")), StartStep::Run { .. }));
    desktop.viewer_left();
    assert!(matches!(desktop.start(true, "h", None), StartStep::Run { .. }));
}

#[test]
fn one_viewer_watches_at_a_time() {
    let mut desktop = desktop();
    let text = |refusal: Option<Reply>| {
        let reply = refusal.unwrap();
        assert_eq!(reply.status, 409);
        match reply.body {
            Body::Text(text) => text,
            _ => panic!("no text"),
        }
    };
    assert_eq!(text(desktop.desktop_ws()), "desktop capture is not active");
    run_start(&mut desktop, Some("DP-1"), vec![listing(&["DP-1"]), listing(&["DP-1"])]).1.unwrap();
    assert!(desktop.desktop_ws().is_none());
    assert_eq!(text(desktop.desktop_ws()), "a desktop viewer is already connected");
    desktop.viewer_left();
    assert!(desktop.desktop_ws().is_none());
}

#[test]
fn stopping_removes_the_virtual_output_once() {
    let mut desktop = desktop();
    assert!(matches!(desktop.stop(), StopStep::Done(Ok(()))));
    desktop.active = true;
    let next = match desktop.stop() {
        StopStep::Run { args, next } => {
            assert_eq!(args.join(" "), "monitors all -j");
            next
        }
        _ => panic!("lists first"),
    };
    assert!(!desktop.active);
    assert!(matches!(desktop.stop_reply(next, &listing(&["DP-1"])), StopStep::Done(Ok(()))));
    assert!(matches!(desktop.stop_reply(next, &failed()), StopStep::Done(Err(_))));
    match desktop.stop_reply(next, &listing(&["EUTHERGATE-1"])) {
        StopStep::Run { args, next } => {
            assert_eq!(args.join(" "), "output remove EUTHERGATE-1");
            assert!(matches!(desktop.stop_reply(next, &done()), StopStep::Done(Ok(()))));
            assert!(matches!(desktop.stop_reply(next, &failed()), StopStep::Done(Err(_))));
        }
        _ => panic!("removes"),
    }
    assert!(matches!(desktop.stop(), StopStep::Done(Ok(()))));
    assert!(desktop.desktop_ws().is_some());
    assert!(matches!(desktop.launch_terminal(), LaunchStep::Done(Err(DesktopError::NotActive))));
    assert_eq!(list_command().join(" "), "monitors all -j");
}

#[test]
fn a_terminal_opens_on_the_active_workspace() {
    let mut desktop = desktop();
    match desktop.launch_terminal() {
        LaunchStep::Done(Err(error)) => {
            assert_eq!(error.message(), "start a desktop capture first")
        }
        _ => panic!("not active"),
    }
    desktop.active = true;
    let listed = HyprReply::Printed {
        text: r#"[{"name":"EUTHERGATE-1","activeWorkspace":{"id":12}}]"#.to_string(),
        monitors: None,
    };
    let next = match desktop.launch_terminal() {
        LaunchStep::Run { args, next } => {
            assert_eq!(args.join(" "), "monitors all -j");
            next
        }
        _ => panic!("lists first"),
    };
    match launch_reply(next, &listed) {
        LaunchStep::Run { args, next } => {
            assert_eq!(args.len(), 3);
            assert_eq!(args[0], "dispatch");
            assert_eq!(args[1], "exec");
            assert_eq!(
                args[2],
                "[workspace 12 silent] kitty --title EutherGate-Remote-Forge"
            );
            assert!(matches!(launch_reply(next, &done()), LaunchStep::Done(Ok(12))));
        }
        _ => panic!("launches"),
    }
    match desktop.launch_terminal() {
        LaunchStep::Run { next, .. } => match launch_reply(next, &done()) {
            LaunchStep::Done(Err(error)) => {
                assert_eq!(error.message(), "hyprctl returned invalid monitor JSON")
            }
            _ => panic!("no list"),
        },
        _ => panic!("lists first"),
    }
    match launch_found(Err(DesktopError::NoWorkspace("X".to_string()))) {
        LaunchStep::Done(Err(error)) => {
            assert_eq!(error.message(), "Hyprland output X has no active workspace")
        }
        _ => panic!("no workspace"),
    }
}

#[test]
fn hyprctl_runs_are_judged() {
    let args = vec!["monitors".to_string(), "all".to_string()];
    let exited = |success| HyprRun::Exited {
        success,
        stdout: " [] \n".to_string(),
        stderr: "\u{a0}broken\n".to_string(),
    };
    assert_eq!(hyprctl(&args, &exited(true)), Ok("[]".to_string()));
    assert_eq!(
        hyprctl(&args, &exited(false)),
        Err("hyprctl monitors all failed: broken".to_string())
    );
    assert_eq!(
        hyprctl(&args, &HyprRun::NotStarted),
        Err("could not run hyprctl monitors all".to_string())
    );
}

#[test]
fn answers_tell_how_requests_went() {
    let selection = DesktopSelection {
        output: "DP-1".to_string(),
        mode: "m".to_string(),
        workspace: 7,
        virtual_output: false,
    };
    let reply = desktop_start(Ok(selection));
    assert_eq!(reply.status, 200);
    match reply.body {
        Body::Object(members) => {
            assert_eq!(members.len(), 3);
            assert!(members[0].name == "active" && matches!(members[0].value, Scalar::Bool(true)));
            assert!(members[1].name == "output");
            assert!(matches!(&members[1].value, Scalar::Text(text) if text == "DP-1"));
            assert!(members[2].name == "workspace");
            assert!(matches!(members[2].value, Scalar::Number(7)));
        }
        _ => panic!("no object"),
    }
    assert_eq!(
        error_text(&desktop_start(Err(DesktopError::InvalidMonitors))),
        "hyprctl returned invalid monitor JSON"
    );
    let reply = desktop_stop(Ok(()));
    assert!(matches!(reply.body, Body::Object(m) if m.len() == 1 && m[0].name == "active"
        && matches!(m[0].value, Scalar::Bool(false))));
    assert_eq!(error_text(&desktop_stop(Err(DesktopError::Hyprctl("e".to_string())))), "e");
    let reply = desktop_launch_terminal(Ok(3));
    assert!(matches!(reply.body, Body::Object(m) if m.len() == 1 && m[0].name == "workspace"
        && matches!(m[0].value, Scalar::Number(3))));
    assert_eq!(
        error_text(&desktop_launch_terminal(Err(DesktopError::NotActive))),
        "start a desktop capture first"
    );
}

#[test]
fn status_tells_how_the_desktop_stands() {
    let desktop = desktop();
    let told = desktop.desktop_status(true, desktop.outputs(&listing(&[])));
    assert!(told.available && !told.active && !told.viewer_connected && told.virtual_output);
    assert_eq!(told.output, "EUTHERGATE-1");
    assert_eq!(told.mode, "1280x720@30");
    assert_eq!(told.workspace, 0);
    assert_eq!(told.transport, "WebRTC/VP8");
    assert_eq!(told.input, "WebRTC DataChannel");
    assert_eq!(told.outputs.len(), 1);
    let told = desktop.desktop_status(false, Err(DesktopError::InvalidMonitors));
    assert!(!told.available && told.outputs.is_empty());
}

#[test]
fn signaling_goes_through() {
    assert!(matches!(
        desktop_socket(SignalEvent::HelperLine("{}".to_string())),
        SignalAction::Send(text) if text == "{}"
    ));
    assert!(matches!(
        desktop_socket(SignalEvent::ViewerText("{}".to_string())),
        SignalAction::Write(text) if text == "{}\n"
    ));
    assert!(matches!(desktop_socket(SignalEvent::ViewerOther), SignalAction::Wait));
    for event in [
        SignalEvent::HelperClosed,
        SignalEvent::ViewerClosed,
        SignalEvent::ViewerFailed,
        SignalEvent::SendFailed,
    ] {
        assert!(matches!(desktop_socket(event), SignalAction::Finish));
    }
    assert!(matches!(desktop_socket(SignalEvent::Farewell(true)), SignalAction::Close));
    assert!(matches!(desktop_socket(SignalEvent::Farewell(false)), SignalAction::Kill));
    let message = |event| match desktop_socket(event) {
        SignalAction::Fail(message) => message,
        _ => panic!("fails"),
    };
    assert_eq!(message(SignalEvent::HelperReadFailed), "could not read WebRTC helper output");
    assert_eq!(message(SignalEvent::HelperWaitFailed), "could not wait for WebRTC helper");
    assert_eq!(
        message(SignalEvent::HelperExited("exit status: 1".to_string())),
        "WebRTC helper exited with exit status: 1"
    );
    assert_eq!(message(SignalEvent::WriteFailed("pipe".to_string())), "pipe");
    assert_eq!(FAREWELL, "{\"type\":\"stop\"}\n");
    assert_eq!(FAREWELL_SECONDS, 2);
    assert_eq!(
        helper_arguments(&desktop().selection()).join(" "),
        "--output EUTHERGATE-1 --mode 1280x720@30"
    );
}
