use fuo::client::{extract_csrf_token, is_bot_check};

#[test]
fn extracts_token_from_data_csrf_attribute() {
    let html =
        r#"<html data-csrf="1786850610,962bc08506b151da26694d33fa4b86ef"><body></body></html>"#;
    assert_eq!(
        extract_csrf_token(html).unwrap(),
        "1786850610,962bc08506b151da26694d33fa4b86ef"
    );
}

#[test]
fn falls_back_to_xf_token_input() {
    let html = r#"<form action="/login/login" method="post"><input type="hidden" name="_xfToken" value="tok1,tok2" /></form>"#;
    assert_eq!(extract_csrf_token(html).unwrap(), "tok1,tok2");
}

#[test]
fn missing_token_is_an_error() {
    assert!(extract_csrf_token("<html><body>no token</body></html>").is_err());
}

#[test]
fn detects_bot_check_markers() {
    assert!(is_bot_check("<html><title>Just a moment...</title></html>"));
    assert!(is_bot_check("<div class=\"cf-chl-container\"></div>"));
    assert!(!is_bot_check("<html data-csrf=\"x\"></html>"));
}

#[test]
fn turnstile_script_is_not_a_bot_check() {
    let html =
        "<html data-csrf=\"x\"><script>challenge-platform/scripts/jsd/main.js</script></html>";
    assert!(!is_bot_check(html));
}
