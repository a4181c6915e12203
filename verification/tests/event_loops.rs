use hbb_common::tray::{event_action, quit_requested, state_after_click, TrayAction, TrayEvent, TrayState};
use hbb_common::webview::{ipc_action, IpcAction, WindowAction, WindowCommand, WindowState};

fn cmd(event: i32, x: i32, y: i32, w: i32, h: i32, url: &str) -> WindowCommand {
    WindowCommand { event, x, y, w, h, url: url.to_string() }
}

fn keys(actions: &[WindowAction]) -> Vec<String> {
    actions
        .iter()
        .map(|a| match a {
            WindowAction::Place { key, x, y, width, height } => format!("place {} {} {} {} {}", key, x, y, width, height),
            WindowAction::Create { key, url } => format!("create {} {}", key, url),
            WindowAction::Show { key } => format!("show {}", key),
            WindowAction::Hide { key } => format!("hide {}", key),
            WindowAction::OpenMaximized { url } => format!("max {}", url),
            WindowAction::CloseMaximized => "close max".to_string(),
        })
        .collect()
}

#[test]
fn ipc_requests() {
    assert!(matches!(ipc_action("new-window"), IpcAction::NewWindow));
    assert!(matches!(ipc_action("close"), IpcAction::Close));
    match ipc_action("change-title:Hello") {
        IpcAction::ChangeTitle(t) => assert_eq!(t, "Hello"),
        _ => panic!("expected a title"),
    }
    match ipc_action("change-title") {
        IpcAction::ChangeTitle(t) => assert_eq!(t, "change-title"),
        _ => panic!("expected a title"),
    }
    assert!(matches!(ipc_action("closed"), IpcAction::Ignore));
    assert!(matches!(ipc_action(""), IpcAction::Ignore));
}

#[test]
fn window_commands() {
    let mut s = WindowState::new();
    assert!(keys(&s.handle_command(&cmd(0, 1, 2, 3, 4, ""))).is_empty());
    assert_eq!(keys(&s.handle_command(&cmd(1, 7, 0, 0, 0, "http://a"))), vec!["create 7 http://a"]);
    assert_eq!(keys(&s.handle_command(&cmd(2, 7, 0, 0, 0, ""))), vec!["show 7"]);
    assert_eq!(keys(&s.handle_command(&cmd(7, 10, 20, 5, 6, ""))), Vec::<String>::new());
    assert_eq!(keys(&s.handle_command(&cmd(0, 100, 200, 800, 600, ""))), vec!["place 7 110 220 785 574"]);
    assert_eq!(keys(&s.handle_command(&cmd(2, 8, 0, 0, 0, ""))), vec!["hide 7"]);
    assert_eq!(keys(&s.handle_command(&cmd(5, 0, 0, 0, 0, ""))), vec!["show 7"]);
    assert_eq!(keys(&s.handle_command(&cmd(6, 0, 0, 0, 0, ""))), vec!["hide 7"]);
    assert_eq!(keys(&s.handle_command(&cmd(3, 0, 0, 0, 0, ""))), vec!["hide 7"]);
    assert!(keys(&s.handle_command(&cmd(3, 0, 0, 0, 0, ""))).is_empty());
    assert!(keys(&s.handle_command(&cmd(5, 0, 0, 0, 0, ""))).is_empty());
    assert!(keys(&s.handle_command(&cmd(4, 0, 0, 0, 0, ""))).is_empty());
    assert_eq!(keys(&s.handle_command(&cmd(4, 0, 0, 0, 0, "http://m"))), vec!["max http://m"]);
    assert!(matches!(s.handle_escape(), Some(WindowAction::CloseMaximized)));
    assert!(s.handle_escape().is_none());
    assert!(keys(&s.handle_command(&cmd(9, 0, 0, 0, 0, "x"))).is_empty());
}

#[test]
fn negative_sizes_wrap_like_a_cast() {
    let mut s = WindowState::new();
    s.handle_command(&cmd(1, 1, 0, 0, 0, "u"));
    s.handle_command(&cmd(2, 1, 0, 0, 0, ""));
    s.handle_command(&cmd(7, 10, 10, 10, 10, ""));
    assert_eq!(keys(&s.handle_command(&cmd(0, 0, 0, 5, 30, ""))), vec![format!("place 1 10 10 {} 10", (-15i32) as u32)]);
}

#[test]
fn tray_ticks() {
    let mut t = TrayState::new();
    let first = t.tick(false, None);
    assert!(!first.exit && first.rebuild_menu && first.run_main && !first.check_quit_file);
    let second = t.tick(false, Some(""));
    assert!(!second.rebuild_menu && !second.run_main);
    let stopped = t.tick(false, Some("Y"));
    assert!(stopped.rebuild_menu);
    let mut checks = 0;
    for _ in 0..198 {
        let o = t.tick(false, Some("Y"));
        assert!(!o.run_main && !o.rebuild_menu);
        if o.check_quit_file {
            checks += 1;
        }
    }
    assert_eq!(checks, 2);
    let closed = t.tick(true, None);
    assert!(closed.exit && !closed.run_main && !closed.rebuild_menu && !closed.check_quit_file);
}

#[test]
fn tray_events_and_state_file() {
    assert_eq!(event_action(TrayEvent::MaxSize), TrayAction::CheckStateFile);
    assert_eq!(event_action(TrayEvent::DoubleClickTrayIcon), TrayAction::RequestMaximize);
    assert_eq!(event_action(TrayEvent::StopService), TrayAction::WriteExitAndQuit);
    assert_eq!(event_action(TrayEvent::StartService), TrayAction::ClearStopService);
    assert_eq!(state_after_click(""), Some("minsize".to_string()));
    assert_eq!(state_after_click("maxsize"), None);
    assert!(quit_requested("app_quit"));
    assert!(!quit_requested("app_quit\n"));
}
