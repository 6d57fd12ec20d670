use newspenguin_bot::http::HttpMethod;
use newspenguin_bot::mastodon::{plan_toot, TootPlan};

fn s(x: &str) -> Option<String> {
    Some(x.to_string())
}

#[test]
fn development_and_dry_runs_post_nothing() {
    assert!(matches!(plan_toot("m", false, s("development"), None, None), TootPlan::SkipDevelopment));
    assert!(matches!(plan_toot("m", true, s("development"), None, None), TootPlan::SkipDevelopment));
    assert!(matches!(plan_toot("m", true, None, None, None), TootPlan::SkipDryRun));
    assert!(matches!(plan_toot("m", true, s("production"), s("t"), None), TootPlan::SkipDryRun));
}

#[test]
fn posting_request_is_a_public_form_post() {
    match plan_toot("a b/é\n", false, None, s("  secret \n"), s(" https://mstd.example/// ")) {
        TootPlan::Send(q) => {
            assert_eq!(q.method, HttpMethod::Post);
            assert_eq!(q.url, "https://mstd.example/api/v1/statuses");
            assert_eq!(q.body.as_deref(), Some("status=a%20b%2F%C3%A9%0A&visibility=public"));
            assert_eq!(
                q.headers,
                vec![
                    ("Authorization".to_string(), "Bearer secret".to_string()),
                    ("Content-Type".to_string(), "application/x-www-form-urlencoded".to_string()),
                    ("User-Agent".to_string(), "newspenguin-rss-bot/0.1.0".to_string()),
                ]
            );
        }
        _ => panic!("expected a request"),
    }
}

#[test]
fn posting_uses_the_default_instance() {
    match plan_toot("A-Z_a.z~0", false, s("staging"), s("t"), None) {
        TootPlan::Send(q) => {
            assert_eq!(q.url, "https://mstd.seungjin.net/api/v1/statuses");
            assert_eq!(q.body.as_deref(), Some("status=A-Z_a.z~0&visibility=public"));
        }
        _ => panic!("expected a request"),
    }
}
