use comic_reader::browser::{launch_plan, BrowserChoice, LaunchPlan, Platform};

const URL: &str = "http://127.0.0.1:4000";

fn spawn_parts(p: LaunchPlan) -> (String, Vec<String>, bool) {
    match p {
        LaunchPlan::Spawn { program, args, fallback_to_default } => {
            (program, args, fallback_to_default)
        }
        LaunchPlan::DefaultBrowser => panic!("expected a spawned command"),
    }
}

#[test]
fn default_choice_asks_the_default_opener() {
    for platform in [Platform::MacOs, Platform::Windows, Platform::Other] {
        assert!(matches!(
            launch_plan(BrowserChoice::Default, platform, URL),
            LaunchPlan::DefaultBrowser
        ));
    }
}

#[test]
fn edge_on_macos_opens_the_named_app() {
    let (program, args, fallback) = spawn_parts(launch_plan(BrowserChoice::Edge, Platform::MacOs, URL));
    assert_eq!(program, "open");
    assert_eq!(args, vec!["-a".to_string(), "Microsoft Edge".to_string(), URL.to_string()]);
    assert!(!fallback);
}

#[test]
fn edge_on_windows_starts_the_url_scheme() {
    let (program, args, fallback) =
        spawn_parts(launch_plan(BrowserChoice::Edge, Platform::Windows, URL));
    assert_eq!(program, "cmd");
    assert_eq!(
        args,
        vec![
            "/C".to_string(),
            "start".to_string(),
            format!("microsoft-edge:{URL}")
        ]
    );
    assert!(!fallback);
}

#[test]
fn edge_elsewhere_tries_the_binary_with_fallback() {
    let (program, args, fallback) = spawn_parts(launch_plan(BrowserChoice::Edge, Platform::Other, URL));
    assert_eq!(program, "microsoft-edge");
    assert_eq!(args, vec![URL.to_string()]);
    assert!(fallback);
}

#[test]
fn brave_on_macos_opens_the_named_app() {
    let (program, args, fallback) =
        spawn_parts(launch_plan(BrowserChoice::Brave, Platform::MacOs, URL));
    assert_eq!(program, "open");
    assert_eq!(args, vec!["-a".to_string(), "Brave Browser".to_string(), URL.to_string()]);
    assert!(!fallback);
}

#[test]
fn brave_on_windows_starts_the_url() {
    let (program, args, fallback) =
        spawn_parts(launch_plan(BrowserChoice::Brave, Platform::Windows, URL));
    assert_eq!(program, "cmd");
    assert_eq!(args, vec!["/C".to_string(), "start".to_string(), URL.to_string()]);
    assert!(!fallback);
}

#[test]
fn brave_elsewhere_tries_the_binary_with_fallback() {
    let (program, args, fallback) =
        spawn_parts(launch_plan(BrowserChoice::Brave, Platform::Other, URL));
    assert_eq!(program, "brave-browser");
    assert_eq!(args, vec![URL.to_string()]);
    assert!(fallback);
}
