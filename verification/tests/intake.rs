use osvwm::apps::{App, AppInfo, AppList, DaemonClient, Request, Response};

fn app(name: &str, generic: Option<&str>, keywords: &[&str]) -> App {
    App {
        name: name.to_string(),
        generic_name: generic.map(|g| g.to_string()),
        command: name.to_lowercase(),
        icon: None,
        keywords: keywords.iter().map(|k| k.to_string()).collect(),
        terminal: false,
        desktop_file: format!("/usr/share/applications/{}.desktop", name.to_lowercase()),
    }
}

#[test]
fn desktop_files_are_parsed() {
    let content = "[Desktop Entry]\nName=Firefox\nGenericName=Web Browser\nExec=firefox %u --new-window\nIcon=firefox\nKeywords=web;browser;;internet;\nTerminal=false\n\n[Desktop Action new]\nName=New Window\nExec=firefox --new\n";
    let a = AppList::parse_desktop_file(content, "/usr/share/applications/firefox.desktop").unwrap();
    assert_eq!(a.name, "Firefox");
    assert_eq!(a.generic_name, Some("Web Browser".to_string()));
    assert_eq!(a.command, "firefox --new-window");
    assert_eq!(a.icon, Some("firefox".to_string()));
    assert_eq!(a.keywords, vec!["web", "browser", "internet"]);
    assert!(!a.terminal);
    assert_eq!(a.desktop_file, "/usr/share/applications/firefox.desktop");
}

#[test]
fn hidden_or_incomplete_entries_are_skipped() {
    assert!(AppList::parse_desktop_file("[Desktop Entry]\nName=X\nExec=x\nNoDisplay=true\n", "p").is_none());
    assert!(AppList::parse_desktop_file("[Desktop Entry]\nName=X\nExec=x\nHidden=true\n", "p").is_none());
    assert!(AppList::parse_desktop_file("[Desktop Entry]\nName=X\n", "p").is_none());
    assert!(AppList::parse_desktop_file("[Other]\nName=X\nExec=x\n", "p").is_none());
    let t = AppList::parse_desktop_file("[Desktop Entry]\n Name = Top \nExec=htop\nTerminal=true\nName=Htop\n", "p").unwrap();
    assert_eq!(t.name, "Htop");
    assert!(t.terminal);
}

#[test]
fn the_list_is_sorted_by_name_and_deduplicated() {
    let list = AppList::from_apps(vec![
        app("zed", None, &[]),
        app("Alacritty", None, &[]),
        app("firefox", None, &[]),
        app("Firefox", None, &[]),
        app("firefox", None, &[]),
    ]);
    let names: Vec<String> = (0..list.len()).map(|i| list.get(i).unwrap().name.clone()).collect();
    assert_eq!(names, vec!["Alacritty", "firefox", "Firefox", "firefox", "zed"]);
    assert!(list.get(list.len()).is_none());

    let dup = AppList::from_apps(vec![app("Files", None, &[]), app("Files", None, &[])]);
    assert_eq!(dup.len(), 1);
}

#[test]
fn search_ranks_matches() {
    let list = AppList::from_apps(vec![
        app("Firefox", Some("Web Browser"), &["internet"]),
        app("Files", Some("File Manager"), &[]),
        app("Terminal", None, &["shell", "console"]),
    ]);
    assert_eq!(list.search(""), vec![0, 1, 2]);
    let r = list.search("firefox");
    assert_eq!(r, vec![1]);
    assert_eq!(list.get(r[0]).unwrap().name, "Firefox");
    assert!(list.search("qqqqzzzz").is_empty());
    let shell = list.search("shell");
    assert_eq!(shell.len(), 1);
    assert_eq!(list.get(shell[0]).unwrap().name, "Terminal");
}

#[test]
fn scores_are_ranked_best_first_and_stable() {
    let r = AppList::rank_matches(&vec![Some(10), None, Some(30), Some(10), Some(30)]);
    assert_eq!(r, vec![2, 4, 0, 3]);
    assert!(AppList::rank_matches(&vec![None, None]).is_empty());
}

#[test]
fn the_daemon_answers_requests() {
    let list = AppList::from_apps(vec![app("Firefox", None, &[]), app("Files", None, &[])]);
    match list.respond(&Request::Ping) {
        Response::Pong => {}
        _ => panic!("expected a pong"),
    }
    match list.respond(&Request::List) {
        Response::Results { apps } => {
            assert_eq!(apps.len(), 2);
            assert_eq!(apps[0].name, "Files");
        }
        _ => panic!("expected results"),
    }
    match list.respond(&Request::Search { query: "fire".to_string() }) {
        Response::Results { apps } => {
            assert_eq!(apps[0].name, "Firefox");
            assert_eq!(apps[0].command, "firefox");
        }
        _ => panic!("expected results"),
    }
}

#[test]
fn listing_stops_at_a_hundred() {
    let apps: Vec<App> = (0..150).map(|i| app(&format!("app{:03}", i), None, &[])).collect();
    let list = AppList::from_apps(apps);
    match list.respond(&Request::List) {
        Response::Results { apps } => assert_eq!(apps.len(), 100),
        _ => panic!("expected results"),
    }
}

#[test]
fn client_requests_and_answers() {
    assert!(matches!(DaemonClient::search(""), Request::List));
    match DaemonClient::search("term") {
        Request::Search { query } => assert_eq!(query, "term"),
        _ => panic!("expected a search"),
    }
    let info = AppInfo {
        name: "Files".to_string(),
        generic_name: None,
        command: "nautilus".to_string(),
        icon: None,
        terminal: false,
        desktop_file: "/usr/share/applications/files.desktop".to_string(),
    };
    let ok = DaemonClient::search_outcome(Response::Results { apps: vec![info] }).unwrap();
    assert_eq!(ok[0].command, "nautilus");
    assert_eq!(
        DaemonClient::search_outcome(Response::Error { message: "boom".to_string() }).unwrap_err(),
        "Daemon error: boom"
    );
    assert_eq!(DaemonClient::search_outcome(Response::Pong).unwrap_err(), "Unexpected response");
    assert!(DaemonClient::ping_outcome(&Response::Pong));
    assert!(!DaemonClient::ping_outcome(&Response::Results { apps: vec![] }));
}
