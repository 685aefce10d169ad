use webview_sessions::bounds::{Bounds, HostWindow};
use webview_sessions::platforms::platforms_document;
use webview_sessions::registry::{SessionError, SessionRegistry, ShowAction};
use webview_sessions::resize::{on_window_resized, ResizeThrottle};

fn window(width: u32, height: u32) -> Option<HostWindow> {
    Some(HostWindow { width, height, scale_millis: Some(2000) })
}

fn visible(reg: &SessionRegistry, id: &str) -> Option<bool> {
    reg.sessions().iter().find(|s| s.platform_id == id).map(|s| s.visible)
}

fn count(reg: &SessionRegistry, id: &str) -> usize {
    reg.sessions().iter().filter(|s| s.platform_id == id).count()
}

#[test]
fn first_show_creates_session() {
    let mut reg = SessionRegistry::new();
    let r = reg.create_or_show(window(1000, 800), "chatgpt", "chat.openai.com");
    match r {
        Ok(ShowAction::Create { url, storage_key, bounds }) => {
            assert_eq!(url, "https://chat.openai.com");
            assert_eq!(storage_key, "chatgpt");
            assert_eq!(bounds, Bounds { x: 0, y: 152, width: 1000, height: 648 });
        }
        other => panic!("unexpected {:?}", other),
    }
    assert_eq!(reg.sessions().len(), 1);
    assert_eq!(visible(&reg, "chatgpt"), Some(true));
}

#[test]
fn transient_session_gets_host_partition() {
    let mut reg = SessionRegistry::new();
    let r = reg.create_or_show(window(1000, 800), "tmp-3", "https://example.com/x");
    match r {
        Ok(ShowAction::Create { storage_key, .. }) => assert_eq!(storage_key, "url-example.com"),
        other => panic!("unexpected {:?}", other),
    }
    assert_eq!(reg.sessions()[0].storage_key, "url-example.com");
}

#[test]
fn show_twice_is_idempotent() {
    let mut reg = SessionRegistry::new();
    reg.create_or_show(window(1000, 800), "chatgpt", "https://chat.openai.com").unwrap();
    let r = reg.create_or_show(window(1200, 900), "chatgpt", "https://chat.openai.com");
    match r {
        Ok(ShowAction::Reshow { bounds }) => {
            assert_eq!(bounds, Bounds { x: 0, y: 152, width: 1200, height: 748 })
        }
        other => panic!("unexpected {:?}", other),
    }
    assert_eq!(count(&reg, "chatgpt"), 1);
    assert_eq!(reg.sessions().len(), 1);
    assert_eq!(visible(&reg, "chatgpt"), Some(true));
    assert_eq!(reg.sessions()[0].bounds, Bounds { x: 0, y: 152, width: 1200, height: 748 });
}

#[test]
fn showing_one_hides_the_other() {
    let mut reg = SessionRegistry::new();
    reg.create_or_show(window(1000, 800), "a", "https://a.example").unwrap();
    reg.create_or_show(window(1000, 800), "b", "https://b.example").unwrap();
    assert_eq!(visible(&reg, "a"), Some(false));
    assert_eq!(visible(&reg, "b"), Some(true));
    assert_eq!(reg.hidden_ids(), vec!["a".to_string()]);
    reg.create_or_show(window(1000, 800), "a", "https://a.example").unwrap();
    assert_eq!(visible(&reg, "a"), Some(true));
    assert_eq!(visible(&reg, "b"), Some(false));
}

#[test]
fn missing_window_fails_and_changes_nothing() {
    let mut reg = SessionRegistry::new();
    reg.create_or_show(window(1000, 800), "a", "https://a.example").unwrap();
    let r = reg.create_or_show(None, "b", "https://b.example");
    assert!(matches!(r, Err(SessionError::HostWindowMissing)));
    assert_eq!(reg.sessions().len(), 1);
    assert_eq!(visible(&reg, "a"), Some(true));
}

#[test]
fn invalid_url_fails_after_hiding_others() {
    let mut reg = SessionRegistry::new();
    reg.create_or_show(window(1000, 800), "a", "https://a.example").unwrap();
    let r = reg.create_or_show(window(1000, 800), "tmp-1", "not a url");
    assert!(matches!(r, Err(SessionError::InvalidUrl)));
    assert_eq!(reg.sessions().len(), 1);
    assert_eq!(visible(&reg, "a"), Some(false));
}

#[test]
fn destroy_absent_is_noop() {
    let mut reg = SessionRegistry::new();
    reg.create_or_show(window(1000, 800), "a", "https://a.example").unwrap();
    assert!(!reg.destroy("zzz"));
    assert_eq!(reg.sessions().len(), 1);
}

#[test]
fn destroy_then_recreate() {
    let mut reg = SessionRegistry::new();
    reg.create_or_show(window(1000, 800), "a", "https://a.example").unwrap();
    reg.create_or_show(window(1000, 800), "b", "https://b.example").unwrap();
    assert!(reg.destroy("a"));
    assert!(!reg.contains("a"));
    assert_eq!(reg.sessions().len(), 1);
    let r = reg.create_or_show(window(900, 700), "a", "a2.example");
    assert!(matches!(r, Ok(ShowAction::Create { .. })));
    assert_eq!(count(&reg, "a"), 1);
    let a = reg.sessions().iter().find(|s| s.platform_id == "a").unwrap();
    assert_eq!(a.url, "https://a2.example");
    assert!(a.visible);
    assert_eq!(a.bounds, Bounds { x: 0, y: 152, width: 900, height: 548 });
}

#[test]
fn hide_all_hides_every_session() {
    let mut reg = SessionRegistry::new();
    reg.create_or_show(window(1000, 800), "a", "https://a.example").unwrap();
    reg.create_or_show(window(1000, 800), "b", "https://b.example").unwrap();
    reg.hide_all();
    assert_eq!(visible(&reg, "a"), Some(false));
    assert_eq!(visible(&reg, "b"), Some(false));
    assert_eq!(reg.hidden_ids(), vec!["a".to_string(), "b".to_string()]);
}

#[test]
fn reload_reports_presence() {
    let mut reg = SessionRegistry::new();
    reg.create_or_show(window(1000, 800), "a", "https://a.example").unwrap();
    assert!(reg.reload("a"));
    assert!(!reg.reload("b"));
}

#[test]
fn throttle_drops_burst() {
    let mut t = ResizeThrottle::new(0);
    assert!(!t.accept(5));
    assert!(t.accept(16));
    assert!(!t.accept(20));
    assert!(!t.accept(31));
    assert!(t.accept(32));
    assert_eq!(t.last_applied_ms, 32);
}

#[test]
fn burst_within_interval_applies_once() {
    let mut t = ResizeThrottle::new(0);
    let applied = [100u64, 103, 107, 110, 115].iter().filter(|&&now| t.accept(now)).count();
    assert_eq!(applied, 1);
    assert_eq!(t.last_applied_ms, 100);
}

#[test]
fn resize_moves_every_session() {
    let mut reg = SessionRegistry::new();
    reg.create_or_show(window(1000, 800), "a", "https://a.example").unwrap();
    reg.create_or_show(window(1000, 800), "b", "https://b.example").unwrap();
    let mut t = ResizeThrottle::new(0);
    let small = HostWindow { width: 1000, height: 100, scale_millis: Some(2000) };
    let r = on_window_resized(&mut reg, &mut t, &small, 50);
    assert_eq!(r, Some(Bounds { x: 0, y: 152, width: 1000, height: 0 }));
    for s in reg.sessions() {
        assert_eq!(s.bounds, Bounds { x: 0, y: 152, width: 1000, height: 0 });
    }
    let big = HostWindow { width: 1400, height: 1000, scale_millis: Some(2000) };
    assert_eq!(on_window_resized(&mut reg, &mut t, &big, 60), None);
    assert_eq!(reg.sessions()[0].bounds.height, 0);
}

#[test]
fn platform_list_fallback() {
    assert_eq!(platforms_document(None), "[]");
    assert_eq!(platforms_document(Some("[{\"id\":\"a\"}]".to_string())), "[{\"id\":\"a\"}]");
}
