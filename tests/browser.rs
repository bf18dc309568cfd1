use lumina_browser::bounds::{Bounds, HIDDEN_COORD};
use lumina_browser::engine::{EngineCommand, HostEvent, Script, SurfaceId};
use lumina_browser::error::AppError;
use lumina_browser::interceptor::{intercept_new_window, BrowserNewTabEventPayload, NewWindowDecision};
use lumina_browser::model::{BackendMode, Lifecycle};
use lumina_browser::registry::TabRegistry;
use lumina_browser::weburl::{scheme_is_web, WebUrl};

fn s(text: &str) -> String {
    text.to_string()
}

fn b(x: i64, y: i64, w: i64, h: i64) -> Bounds {
    Bounds::new(x, y, w, h)
}

fn open(reg: &mut TabRegistry, id: &str, url: &str, bounds: Bounds) -> Vec<EngineCommand> {
    let cmds = reg.create(&s(id), url, bounds).expect("create");
    reg.finish_create(&s(id), true).expect("confirm");
    cmds
}

#[test]
fn create_multi_instance_asks_for_one_surface() {
    let mut reg = TabRegistry::new(BackendMode::MultiInstance);
    let cmds = reg.create(&s("t1"), "https://a", b(10, 20, 300, 200)).unwrap();
    assert_eq!(
        cmds,
        vec![EngineCommand::CreateSurface {
            surface: SurfaceId::Tab(s("t1")),
            url: s("https://a/"),
            bounds: b(10, 20, 300, 200),
        }]
    );
    assert_eq!(reg.state_of(&s("t1")), Some(Lifecycle::Initializing));
    assert!(reg.tab_exists(&s("t1")));
    assert_eq!(reg.finish_create(&s("t1"), true), Ok(()));
    assert_eq!(reg.state_of(&s("t1")), Some(Lifecycle::Active));
    assert_eq!(reg.len(), 1);
}

#[test]
fn create_twice_is_refused_without_second_surface() {
    let mut reg = TabRegistry::new(BackendMode::MultiInstance);
    open(&mut reg, "t", "https://a", b(0, 0, 100, 100));
    let second = reg.create(&s("t"), "https://b", b(5, 5, 50, 50));
    assert_eq!(second, Err(AppError::AlreadyExists(s("t"))));
    assert_eq!(reg.len(), 1);
    assert_eq!(reg.snapshot(&s("t")), Some((s("https://a/"), s(""))));
    assert_eq!(reg.last_applied_bounds(&s("t")), Some(b(0, 0, 100, 100)));
}

#[test]
fn create_with_malformed_url_is_refused() {
    let mut reg = TabRegistry::new(BackendMode::MultiInstance);
    let r = reg.create(&s("t"), "not a url", b(0, 0, 10, 10));
    assert_eq!(r, Err(AppError::InvalidUrl(s("not a url"))));
    assert!(!reg.tab_exists(&s("t")));
    assert_eq!(reg.len(), 0);
}

#[test]
fn failed_create_removes_the_tab() {
    let mut reg = TabRegistry::new(BackendMode::MultiInstance);
    reg.create(&s("t"), "https://a", b(0, 0, 10, 10)).unwrap();
    assert_eq!(reg.finish_create(&s("t"), false), Err(AppError::BackendError(s("t"))));
    assert!(!reg.tab_exists(&s("t")));
    // A later answer for the same id concerns no tab.
    assert_eq!(reg.finish_create(&s("t"), false), Ok(()));
    // The id can be used again.
    assert!(reg.create(&s("t"), "https://a", b(0, 0, 10, 10)).is_ok());
}

#[test]
fn set_bounds_after_create_is_last_applied() {
    let mut reg = TabRegistry::new(BackendMode::MultiInstance);
    let b1 = b(0, 0, 100, 100);
    let b2 = b(10, 10, 400, 300);
    reg.create(&s("t"), "https://a", b1).unwrap();
    let cmds = reg.set_bounds(&s("t"), b2);
    assert_eq!(cmds, vec![EngineCommand::SetBounds { surface: SurfaceId::Tab(s("t")), bounds: b2 }]);
    assert_eq!(reg.last_applied_bounds(&s("t")), Some(b2));
}

#[test]
fn redundant_bounds_are_not_sent() {
    let mut reg = TabRegistry::new(BackendMode::MultiInstance);
    open(&mut reg, "t", "https://a", b(0, 0, 100, 100));
    assert!(reg.set_bounds(&s("t"), b(0, 0, 100, 100)).is_empty());
}

#[test]
fn freeze_moves_offscreen_and_unfreeze_restores() {
    let mut reg = TabRegistry::new(BackendMode::MultiInstance);
    let layout = b(12, 34, 640, 480);
    open(&mut reg, "t", "https://a", layout);
    let before = reg.last_applied_bounds(&s("t"));
    let cmds = reg.freeze(&s("t"));
    let hidden = b(HIDDEN_COORD, HIDDEN_COORD, 640, 480);
    assert_eq!(
        cmds,
        vec![
            EngineCommand::Eval { surface: SurfaceId::Tab(s("t")), script: Script::Freeze },
            EngineCommand::SetBounds { surface: SurfaceId::Tab(s("t")), bounds: hidden },
        ]
    );
    assert_eq!(reg.state_of(&s("t")), Some(Lifecycle::Frozen));
    assert_eq!(reg.last_applied_bounds(&s("t")), Some(hidden));
    let cmds = reg.unfreeze(&s("t"));
    assert_eq!(
        cmds,
        vec![
            EngineCommand::Eval { surface: SurfaceId::Tab(s("t")), script: Script::Unfreeze },
            EngineCommand::SetBounds { surface: SurfaceId::Tab(s("t")), bounds: layout },
        ]
    );
    assert_eq!(reg.last_applied_bounds(&s("t")), before);
    assert_eq!(reg.state_of(&s("t")), Some(Lifecycle::Active));
}

#[test]
fn freeze_twice_is_freeze_once() {
    let mut reg = TabRegistry::new(BackendMode::MultiInstance);
    open(&mut reg, "t", "https://a", b(0, 0, 100, 100));
    assert_eq!(reg.freeze(&s("t")).len(), 2);
    let applied = reg.last_applied_bounds(&s("t"));
    assert!(reg.freeze(&s("t")).is_empty());
    assert_eq!(reg.last_applied_bounds(&s("t")), applied);
    assert_eq!(reg.state_of(&s("t")), Some(Lifecycle::Frozen));
    assert_eq!(reg.unfreeze(&s("t")).len(), 2);
    assert!(reg.unfreeze(&s("t")).is_empty());
    assert_eq!(reg.state_of(&s("t")), Some(Lifecycle::Active));
}

#[test]
fn hidden_tab_stays_offscreen_across_freeze() {
    let mut reg = TabRegistry::new(BackendMode::MultiInstance);
    open(&mut reg, "t", "https://a", b(1, 2, 30, 40));
    let cmds = reg.set_visible(&s("t"), false);
    let hidden = b(HIDDEN_COORD, HIDDEN_COORD, 30, 40);
    assert_eq!(cmds, vec![EngineCommand::SetBounds { surface: SurfaceId::Tab(s("t")), bounds: hidden }]);
    // Hiding pauses nothing.
    assert_eq!(reg.state_of(&s("t")), Some(Lifecycle::Active));
    // Only the script: the surface is already off-screen.
    assert_eq!(
        reg.freeze(&s("t")),
        vec![EngineCommand::Eval { surface: SurfaceId::Tab(s("t")), script: Script::Freeze }]
    );
    assert_eq!(
        reg.unfreeze(&s("t")),
        vec![EngineCommand::Eval { surface: SurfaceId::Tab(s("t")), script: Script::Unfreeze }]
    );
    assert_eq!(reg.last_applied_bounds(&s("t")), Some(hidden));
    assert_eq!(
        reg.set_visible(&s("t"), true),
        vec![EngineCommand::SetBounds { surface: SurfaceId::Tab(s("t")), bounds: b(1, 2, 30, 40) }]
    );
}

#[test]
fn bounds_changed_while_frozen_apply_on_unfreeze() {
    let mut reg = TabRegistry::new(BackendMode::MultiInstance);
    open(&mut reg, "t", "https://a", b(0, 0, 100, 100));
    reg.freeze(&s("t"));
    // Same size: the surface stays where it is, off-screen.
    assert!(reg.set_bounds(&s("t"), b(50, 50, 100, 100)).is_empty());
    let cmds = reg.unfreeze(&s("t"));
    assert_eq!(cmds[1], EngineCommand::SetBounds { surface: SurfaceId::Tab(s("t")), bounds: b(50, 50, 100, 100) });
}

#[test]
fn closed_tab_behaves_as_unknown() {
    let mut reg = TabRegistry::new(BackendMode::MultiInstance);
    open(&mut reg, "t", "https://a", b(0, 0, 100, 100));
    assert_eq!(reg.close(&s("t")), vec![EngineCommand::CloseSurface { surface: SurfaceId::Tab(s("t")) }]);
    assert!(!reg.tab_exists(&s("t")));
    assert!(reg.close(&s("t")).is_empty());
    assert_eq!(reg.navigate(&s("t"), "https://b"), Ok(vec![]));
    assert_eq!(reg.navigate(&s("t"), "::bad::"), Ok(vec![]));
    assert!(reg.set_bounds(&s("t"), b(1, 1, 1, 1)).is_empty());
    assert!(reg.set_visible(&s("t"), false).is_empty());
    assert!(reg.freeze(&s("t")).is_empty());
    assert!(reg.unfreeze(&s("t")).is_empty());
    assert!(reg.eval_script(&s("t"), Script::Reload).is_empty());
    assert!(reg.switch_foreground(&s("t")).is_empty());
    assert_eq!(reg.finish_create(&s("t"), true), Ok(()));
    assert_eq!(reg.last_applied_bounds(&s("t")), None);
    assert_eq!(reg.state_of(&s("t")), None);
    assert_eq!(reg.on_url_changed(&SurfaceId::Tab(s("t")), s("https://c/")), None);
    assert_eq!(reg.on_title_changed(&SurfaceId::Tab(s("t")), s("C")), None);
    assert_eq!(reg.on_loading_changed(&SurfaceId::Tab(s("t")), true), None);
    assert_eq!(reg.len(), 0);
}

#[test]
fn close_unknown_is_noop() {
    let mut reg = TabRegistry::new(BackendMode::SharedInstance);
    assert!(reg.close(&s("nobody")).is_empty());
    assert_eq!(reg.len(), 0);
}

#[test]
fn navigate_checks_url_of_live_tab() {
    let mut reg = TabRegistry::new(BackendMode::MultiInstance);
    open(&mut reg, "t", "https://a", b(0, 0, 100, 100));
    assert_eq!(reg.navigate(&s("t"), "nope"), Err(AppError::InvalidUrl(s("nope"))));
    assert_eq!(
        reg.navigate(&s("t"), "https://b.example/path"),
        Ok(vec![EngineCommand::Navigate { surface: SurfaceId::Tab(s("t")), url: s("https://b.example/path") }])
    );
    assert_eq!(reg.snapshot(&s("t")).unwrap().0, s("https://b.example/path"));
}

#[test]
fn history_scripts_go_to_the_tab_surface() {
    let mut reg = TabRegistry::new(BackendMode::MultiInstance);
    open(&mut reg, "t", "https://a", b(0, 0, 100, 100));
    assert_eq!(
        reg.eval_script(&s("t"), Script::GoBack),
        vec![EngineCommand::Eval { surface: SurfaceId::Tab(s("t")), script: Script::GoBack }]
    );
    assert_eq!(
        reg.eval_script(&s("t"), Script::Custom(s("1+1"))),
        vec![EngineCommand::Eval { surface: SurfaceId::Tab(s("t")), script: Script::Custom(s("1+1")) }]
    );
}

#[test]
fn engine_reports_update_the_tab_and_reach_the_host() {
    let mut reg = TabRegistry::new(BackendMode::MultiInstance);
    open(&mut reg, "t", "https://a", b(0, 0, 100, 100));
    let surface = SurfaceId::Tab(s("t"));
    assert_eq!(
        reg.on_url_changed(&surface, s("https://a/next")),
        Some(HostEvent::UrlChanged { tab_id: s("t"), url: s("https://a/next") })
    );
    assert_eq!(
        reg.on_title_changed(&surface, s("Next")),
        Some(HostEvent::TitleChanged { tab_id: s("t"), title: s("Next") })
    );
    assert_eq!(
        reg.on_loading_changed(&surface, false),
        Some(HostEvent::LoadingStateChanged { tab_id: s("t"), is_loading: false })
    );
    assert_eq!(reg.snapshot(&s("t")), Some((s("https://a/next"), s("Next"))));
    // The shared surface displays nothing under one surface per tab.
    assert_eq!(reg.on_url_changed(&SurfaceId::Shared, s("https://x/")), None);
}

#[test]
fn shared_instance_first_tab_creates_the_surface() {
    let mut reg = TabRegistry::new(BackendMode::SharedInstance);
    let cmds = reg.create(&s("a"), "https://a", b(0, 0, 100, 100)).unwrap();
    assert_eq!(
        cmds,
        vec![EngineCommand::CreateSurface { surface: SurfaceId::Shared, url: s("https://a/"), bounds: b(0, 0, 100, 100) }]
    );
    assert_eq!(reg.foreground_tab(), Some(s("a")));
    let cmds = reg.create(&s("b"), "https://b", b(0, 0, 200, 100)).unwrap();
    assert_eq!(
        cmds,
        vec![
            EngineCommand::Navigate { surface: SurfaceId::Shared, url: s("https://b/") },
            EngineCommand::SetBounds { surface: SurfaceId::Shared, bounds: b(0, 0, 200, 100) },
        ]
    );
    assert_eq!(reg.foreground_tab(), Some(s("b")));
    assert_eq!(reg.state_of(&s("a")), Some(Lifecycle::Parked));
    assert_eq!(reg.last_applied_bounds(&s("a")), None);
}

#[test]
fn shared_switch_keeps_snapshots() {
    let mut reg = TabRegistry::new(BackendMode::SharedInstance);
    open(&mut reg, "a", "https://a", b(0, 0, 100, 100));
    reg.on_url_changed(&SurfaceId::Shared, s("https://a/page"));
    reg.on_title_changed(&SurfaceId::Shared, s("Page A"));
    open(&mut reg, "b", "https://b", b(0, 0, 100, 100));
    reg.on_url_changed(&SurfaceId::Shared, s("https://b/page"));
    // a is parked with its snapshot.
    assert_eq!(reg.snapshot(&s("a")), Some((s("https://a/page"), s("Page A"))));
    let cmds = reg.switch_foreground(&s("a"));
    assert_eq!(cmds[0], EngineCommand::Navigate { surface: SurfaceId::Shared, url: s("https://a/page") });
    assert_eq!(reg.foreground_tab(), Some(s("a")));
    assert_eq!(reg.state_of(&s("b")), Some(Lifecycle::Parked));
    assert_eq!(reg.snapshot(&s("b")).unwrap().0, s("https://b/page"));
    let cmds = reg.switch_foreground(&s("b"));
    assert_eq!(cmds[0], EngineCommand::Navigate { surface: SurfaceId::Shared, url: s("https://b/page") });
    assert_eq!(reg.snapshot(&s("a")), Some((s("https://a/page"), s("Page A"))));
    // Switching to the tab in front does nothing.
    assert!(reg.switch_foreground(&s("b")).is_empty());
}

#[test]
fn shared_parked_tab_keeps_navigation_pending() {
    let mut reg = TabRegistry::new(BackendMode::SharedInstance);
    open(&mut reg, "a", "https://a", b(0, 0, 100, 100));
    open(&mut reg, "b", "https://b", b(0, 0, 100, 100));
    assert_eq!(reg.navigate(&s("a"), "https://later.example/"), Ok(vec![]));
    assert_eq!(reg.pending_url(&s("a")), Some(s("https://later.example/")));
    // Scripts for a parked tab are dropped.
    assert!(reg.eval_script(&s("a"), Script::Reload).is_empty());
    let cmds = reg.switch_foreground(&s("a"));
    assert_eq!(cmds[0], EngineCommand::Navigate { surface: SurfaceId::Shared, url: s("https://later.example/") });
    assert_eq!(reg.pending_url(&s("a")), None);
    assert_eq!(reg.snapshot(&s("a")).unwrap().0, s("https://later.example/"));
}

#[test]
fn shared_closing_foreground_releases_surface() {
    let mut reg = TabRegistry::new(BackendMode::SharedInstance);
    open(&mut reg, "a", "https://a", b(0, 0, 100, 100));
    open(&mut reg, "b", "https://b", b(0, 0, 100, 100));
    // Closing a parked tab touches no surface.
    assert!(reg.close(&s("a")).is_empty());
    assert_eq!(reg.close(&s("b")), vec![EngineCommand::CloseSurface { surface: SurfaceId::Shared }]);
    assert_eq!(reg.foreground_tab(), None);
    let cmds = reg.create(&s("c"), "https://c", b(0, 0, 10, 10)).unwrap();
    assert!(matches!(cmds[0], EngineCommand::CreateSurface { .. }));
}

#[test]
fn multi_instance_ignores_switch() {
    let mut reg = TabRegistry::new(BackendMode::MultiInstance);
    open(&mut reg, "a", "https://a", b(0, 0, 100, 100));
    open(&mut reg, "b", "https://b", b(0, 0, 100, 100));
    assert!(reg.switch_foreground(&s("a")).is_empty());
    assert_eq!(reg.foreground_tab(), None);
    assert_eq!(reg.mode(), BackendMode::MultiInstance);
}

#[test]
fn new_window_https_becomes_tab_request() {
    let url = WebUrl::parse("https://example.com/x").unwrap();
    let d = intercept_new_window(&s("parent"), &url);
    assert_eq!(
        d,
        NewWindowDecision::Deny(BrowserNewTabEventPayload { parent_tab_id: s("parent"), url: s("https://example.com/x") })
    );
}

#[test]
fn new_window_other_scheme_is_allowed() {
    let url = WebUrl::parse("about:blank").unwrap();
    assert_eq!(intercept_new_window(&s("parent"), &url), NewWindowDecision::Allow);
    let url = WebUrl::parse("mailto:someone@example.com").unwrap();
    assert_eq!(intercept_new_window(&s("parent"), &url), NewWindowDecision::Allow);
}

#[test]
fn new_window_http_is_intercepted() {
    let url = WebUrl::parse("http://example.org").unwrap();
    match intercept_new_window(&s("p"), &url) {
        NewWindowDecision::Deny(p) => {
            assert_eq!(p.parent_tab_id, s("p"));
            assert_eq!(p.url, s("http://example.org/"));
        }
        NewWindowDecision::Allow => panic!("http must become a tab"),
    }
}

#[test]
fn url_parse_normalises() {
    let u = WebUrl::parse("HTTPS://Example.COM").unwrap();
    assert_eq!(u.scheme, s("https"));
    assert_eq!(u.href, s("https://example.com/"));
    assert_eq!(WebUrl::parse("relative/path"), None);
    assert!(u.is_web());
}

#[test]
fn web_scheme_check_is_exact() {
    assert!(scheme_is_web("http"));
    assert!(scheme_is_web("https"));
    assert!(!scheme_is_web("httpx"));
    assert!(!scheme_is_web("htt"));
    assert!(!scheme_is_web("ftp"));
    assert!(!scheme_is_web(""));
    assert!(!scheme_is_web("httpss"));
}

#[test]
fn offscreen_keeps_size() {
    let o = b(3, 4, 5, 6).offscreen();
    assert_eq!(o, b(-10000, -10000, 5, 6));
    assert!(o.is_offscreen());
    assert!(!b(0, 0, 5, 6).is_offscreen());
}

#[test]
fn parsed_url_variants_match_text_variants() {
    let mut reg = TabRegistry::new(BackendMode::MultiInstance);
    let u = WebUrl::parse("https://a.example").unwrap();
    let cmds = reg.create_at(&s("t"), u.clone(), b(0, 0, 10, 10)).unwrap();
    assert_eq!(
        cmds,
        vec![EngineCommand::CreateSurface { surface: SurfaceId::Tab(s("t")), url: s("https://a.example/"), bounds: b(0, 0, 10, 10) }]
    );
    assert_eq!(reg.create_at(&s("t"), u, b(0, 0, 10, 10)), Err(AppError::AlreadyExists(s("t"))));
    let v = WebUrl::parse("https://b.example/x?y=1").unwrap();
    assert_eq!(
        reg.navigate_to(&s("t"), v.clone()),
        vec![EngineCommand::Navigate { surface: SurfaceId::Tab(s("t")), url: s("https://b.example/x?y=1") }]
    );
    assert!(reg.navigate_to(&s("unknown"), v).is_empty());
}

#[test]
fn shared_freeze_applies_to_foreground_only() {
    let mut reg = TabRegistry::new(BackendMode::SharedInstance);
    open(&mut reg, "a", "https://a", b(0, 0, 100, 100));
    open(&mut reg, "b", "https://b", b(0, 0, 100, 100));
    // a is parked: it holds no surface to freeze.
    assert!(reg.freeze(&s("a")).is_empty());
    assert_eq!(reg.state_of(&s("a")), Some(Lifecycle::Parked));
    let cmds = reg.freeze(&s("b"));
    assert_eq!(cmds[0], EngineCommand::Eval { surface: SurfaceId::Shared, script: Script::Freeze });
    assert_eq!(reg.last_applied_bounds(&s("b")), Some(b(HIDDEN_COORD, HIDDEN_COORD, 100, 100)));
    assert_eq!(reg.tab_of_surface(&SurfaceId::Shared), Some(s("b")));
    assert_eq!(reg.tab_of_surface(&SurfaceId::Tab(s("b"))), None);
}

#[test]
fn shared_failed_create_leaves_no_tab() {
    let mut reg = TabRegistry::new(BackendMode::SharedInstance);
    open(&mut reg, "a", "https://a", b(0, 0, 100, 100));
    reg.create(&s("b"), "https://b", b(0, 0, 100, 100)).unwrap();
    // Another step is sent before the engine answers the create: only the
    // new tab is dropped, with the surface it was being shown in.
    reg.set_bounds(&s("b"), b(0, 0, 80, 80));
    assert_eq!(reg.finish_create(&s("b"), false), Err(AppError::BackendError(s("b"))));
    assert!(!reg.tab_exists(&s("b")));
    assert_eq!(reg.foreground_tab(), None);
    // a comes back on a fresh surface.
    let cmds = reg.switch_foreground(&s("a"));
    assert_eq!(
        cmds,
        vec![EngineCommand::CreateSurface { surface: SurfaceId::Shared, url: s("https://a/"), bounds: b(0, 0, 100, 100) }]
    );
    assert_eq!(reg.state_of(&s("a")), Some(Lifecycle::Active));
}

#[test]
fn shared_failed_create_restores_previous_foreground() {
    let mut reg = TabRegistry::new(BackendMode::SharedInstance);
    open(&mut reg, "a", "https://a", b(0, 0, 100, 100));
    reg.on_title_changed(&SurfaceId::Shared, s("Page A"));
    reg.create(&s("t"), "https://t", b(0, 0, 50, 50)).unwrap();
    assert_eq!(reg.state_of(&s("a")), Some(Lifecycle::Parked));
    assert_eq!(reg.finish_create(&s("t"), false), Err(AppError::BackendError(s("t"))));
    assert!(!reg.tab_exists(&s("t")));
    assert_eq!(reg.foreground_tab(), Some(s("a")));
    assert_eq!(reg.state_of(&s("a")), Some(Lifecycle::Active));
    assert_eq!(reg.snapshot(&s("a")), Some((s("https://a/"), s("Page A"))));
    assert_eq!(reg.last_applied_bounds(&s("a")), Some(b(0, 0, 100, 100)));
    // The shared surface is still there: the next tab navigates it.
    let cmds = reg.create(&s("u"), "https://u", b(0, 0, 100, 100)).unwrap();
    assert_eq!(cmds[0], EngineCommand::Navigate { surface: SurfaceId::Shared, url: s("https://u/") });
}

#[test]
fn failed_step_is_rolled_back() {
    let mut reg = TabRegistry::new(BackendMode::MultiInstance);
    open(&mut reg, "t", "https://a", b(0, 0, 100, 100));
    assert_eq!(reg.set_bounds(&s("t"), b(5, 5, 200, 200)).len(), 1);
    reg.finish_step(false);
    assert_eq!(reg.last_applied_bounds(&s("t")), Some(b(0, 0, 100, 100)));
    // A second answer concerns no step.
    reg.finish_step(false);
    assert_eq!(reg.last_applied_bounds(&s("t")), Some(b(0, 0, 100, 100)));

    reg.freeze(&s("t"));
    reg.finish_step(false);
    assert_eq!(reg.state_of(&s("t")), Some(Lifecycle::Active));

    reg.navigate(&s("t"), "https://b").unwrap();
    reg.finish_step(false);
    assert_eq!(reg.snapshot(&s("t")).unwrap().0, s("https://a/"));

    reg.close(&s("t"));
    reg.finish_step(false);
    assert!(reg.tab_exists(&s("t")));
}

#[test]
fn successful_step_stands() {
    let mut reg = TabRegistry::new(BackendMode::SharedInstance);
    open(&mut reg, "a", "https://a", b(0, 0, 100, 100));
    open(&mut reg, "b", "https://b", b(0, 0, 100, 100));
    reg.switch_foreground(&s("a"));
    reg.finish_step(true);
    reg.finish_step(false);
    assert_eq!(reg.foreground_tab(), Some(s("a")));
    reg.switch_foreground(&s("b"));
    reg.finish_step(false);
    assert_eq!(reg.foreground_tab(), Some(s("a")));
    assert_eq!(reg.state_of(&s("b")), Some(Lifecycle::Parked));
}
