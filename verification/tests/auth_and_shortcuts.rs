use prism::auth::{
    api_key_looks_valid, callback_endpoints, extract_auth_code, login_url, with_account,
    without_account, AuthManager,
};
use prism::hotkey::action_to_event;
use prism::notification::{clip_saved_body, encode_wide};
use prism::settings::config::AppSettings;

#[test]
fn deep_links_carry_the_sign_in_code() {
    assert_eq!(extract_auth_code("prism://auth/callback?code=abc123").as_deref(), Some("abc123"));
    assert_eq!(
        extract_auth_code("  prism://auth/callback?state=x&code=zz  ").as_deref(),
        Some("zz")
    );
    assert_eq!(extract_auth_code("prism://auth/callback?code=&code=second").as_deref(), Some("second"));
    assert_eq!(extract_auth_code("prism://auth/callback?broken&code=abc"), None);
    assert_eq!(extract_auth_code("prism://auth/callback"), None);
    assert_eq!(extract_auth_code("prism://auth/callback?state=1"), None);
    assert_eq!(extract_auth_code("prism://x?code=a=b").as_deref(), Some("a=b"));
}

#[test]
fn sign_in_urls_hang_off_the_server() {
    assert_eq!(
        login_url("https://goprism.studio/").as_deref(),
        Some("https://goprism.studio/api/auth/google?desktop=true&next=/dashboard")
    );
    assert_eq!(login_url(""), None);
    let ep = callback_endpoints("https://a.b//").ok().unwrap();
    assert_eq!(ep.base_url, "https://a.b");
    assert_eq!(ep.exchange_url, "https://a.b/api/auth/desktop/exchange");
    assert_eq!(ep.api_keys_url, "https://a.b/api/auth/api-keys");
    assert_eq!(callback_endpoints("").err().unwrap(), "Server URL not configured");
}

#[test]
fn signing_in_and_out_updates_account_and_settings() {
    let mut mgr = AuthManager::new();
    assert!(!mgr.state.authenticated);
    mgr.signed_in("Ada".into(), "ada@example.com".into());
    assert!(mgr.state.authenticated);
    assert_eq!(mgr.state.email, "ada@example.com");
    mgr.signed_out();
    assert!(!mgr.state.authenticated && mgr.state.display_name.is_empty());

    let s = with_account(AppSettings::default(), "prism_key".into(), "Ada".into(), "a@b".into());
    assert_eq!(s.cloud.api_key, "prism_key");
    assert_eq!(s.cloud.account_display_name, "Ada");
    assert_eq!(s.cloud.server_url, "https://goprism.studio");
    let s = without_account(s);
    assert!(s.cloud.api_key.is_empty() && s.cloud.account_email.is_empty());
}

#[test]
fn api_keys_must_look_like_prism_keys() {
    assert!(api_key_looks_valid("prism_abc"));
    assert!(api_key_looks_valid("prism_"));
    assert!(!api_key_looks_valid("prism"));
    assert!(!api_key_looks_valid(""));
    assert!(!api_key_looks_valid("other_key"));
}

#[test]
fn shortcut_actions_map_to_events() {
    assert_eq!(action_to_event("save_clip"), "save_clip");
    assert_eq!(action_to_event("toggle_recording"), "toggle_recording");
    assert_eq!(action_to_event("open_library"), "open_library");
    assert_eq!(action_to_event("reboot"), "unknown");
}

#[test]
fn windows_strings_are_nul_terminated_utf16() {
    assert_eq!(encode_wide("Prism"), vec![80, 114, 105, 115, 109, 0]);
    assert_eq!(encode_wide("é😀"), vec![0xE9, 0xD83D, 0xDE00, 0]);
    assert_eq!(encode_wide(""), vec![0]);
}

#[test]
fn clip_notifications_name_the_file() {
    assert_eq!(clip_saved_body("/clips/clip_20260708_143022.mp4"), "clip_20260708_143022.mp4");
    assert_eq!(clip_saved_body("highlight.mp4"), "highlight.mp4");
    assert_eq!(clip_saved_body("/"), "/");
    assert_eq!(clip_saved_body("/clips/.."), "/clips/..");
}
