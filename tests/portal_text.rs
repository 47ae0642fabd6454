use scunet_login_util::{
    check_status, extract_token, find_pattern, mac_address, session_handle, LoginError, Service,
    Status,
};

const PREFIX: &str = "<script>top.self.location.href='http://192.168.2.135/eportal/index.jsp?";
const SUFFIX: &str = "'</script>\r\n";
const TOKEN: &str = "wlanuserip=10.0.0.7&wlanacname=scu&mac=AA:BB:CC:DD:EE:FF&t=wireless-v2";

fn root_page(token: &str) -> String {
    format!("{}{}{}", PREFIX, token, SUFFIX)
}

#[test]
fn service_names_and_params() {
    assert_eq!(Service::Internet.to_str(), "校园网");
    assert_eq!(Service::ChinaMobile.to_str(), "中国移动");
    assert_eq!(Service::ChinaTelecom.to_str(), "中国电信");
    assert_eq!(Service::ChinaUnicom.to_str(), "中国联通");
    assert_eq!(Service::Internet.to_param(), "internet");
    assert_eq!(Service::ChinaMobile.to_param(), "%E7%A7%BB%E5%8A%A8%E5%87%BA%E5%8F%A3");
    assert_eq!(Service::ChinaTelecom.to_param(), "%E7%94%B5%E4%BF%A1%E5%87%BA%E5%8F%A3");
    assert_eq!(Service::ChinaUnicom.to_param(), "%E8%81%94%E9%80%9A%E5%87%BA%E5%8F%A3");
    assert_eq!(Service::default(), Service::Internet);
}

#[test]
fn extract_token_returns_the_window() {
    let body = root_page(TOKEN);
    let l = body.len();
    assert_eq!(extract_token(&body), Some(body[71..l - 12].to_string()));
    assert_eq!(extract_token(&body), Some(TOKEN.to_string()));
}

#[test]
fn extract_token_at_minimum_length() {
    let body = root_page("");
    assert_eq!(body.len(), 83);
    assert_eq!(extract_token(&body), Some(String::new()));
    let one = root_page("x");
    assert_eq!(extract_token(&one), Some("x".to_string()));
}

#[test]
fn extract_token_refuses_short_or_split_bodies() {
    let short = "a".repeat(82);
    assert_eq!(extract_token(&short), None);
    assert_eq!(extract_token(""), None);
    // a two-byte character straddles byte 71
    let split = format!("{}é{}", "a".repeat(70), "b".repeat(20));
    assert_eq!(extract_token(&split), None);
    // non-ASCII inside the window is kept whole
    let wide = format!("{}é{}", "a".repeat(71), "b".repeat(12));
    assert_eq!(extract_token(&wide), Some("é".to_string()));
}

#[test]
fn session_handle_follows_first_equals_of_query() {
    let url = "http://192.168.2.135/eportal/success.jsp?userIndex=42";
    assert_eq!(session_handle(url), Some("42".to_string()));
    let url2 = "http://192.168.2.135/a=b/success.jsp?userIndex=abc=def";
    assert_eq!(session_handle(url2), Some("abc=def".to_string()));
    assert_eq!(session_handle("http://192.168.2.135/success.jsp?userIndex"), None);
    assert_eq!(session_handle("http://192.168.2.135/"), None);
}

#[test]
fn mac_address_reads_parameter() {
    assert_eq!(mac_address(TOKEN), Some("AA:BB:CC:DD:EE:FF".to_string()));
    assert_eq!(mac_address("mac=11:22&mac=33"), Some("11:22".to_string()));
    assert_eq!(mac_address("a=1&mac=AA:BB"), Some("AA:BB".to_string()));
    assert_eq!(mac_address("a=1&b=2"), None);
    assert_eq!(mac_address(""), None);
}

#[test]
fn find_pattern_finds_first() {
    assert_eq!(find_pattern("abcabc", "bc"), Some(1));
    assert_eq!(find_pattern("abc", ""), Some(0));
    assert_eq!(find_pattern("abc", "abcd"), None);
    assert_eq!(find_pattern("校园网登录", "登录"), Some(3));
}

#[test]
fn check_status_non_200_is_timeout() {
    let body = root_page(TOKEN);
    assert_eq!(check_status(502, "http://192.168.2.135/", &body), Err(LoginError::TimeOut));
    assert_eq!(check_status(204, "http://192.168.2.135/", &body), Err(LoginError::TimeOut));
}

#[test]
fn check_status_logged_in_when_url_has_query() {
    let r = check_status(200, "http://192.168.2.135/eportal/success.jsp?userIndex=42", "");
    assert_eq!(r, Ok(Status::LoggedIn("42".to_string())));
    let bad = check_status(200, "http://192.168.2.135/eportal/success.jsp?x", "");
    assert!(matches!(bad, Err(LoginError::BadResponse(_))));
}

#[test]
fn check_status_not_logged_in_carries_token() {
    let body = root_page(TOKEN);
    let r = check_status(200, "http://192.168.2.135/", &body);
    assert_eq!(r, Ok(Status::NotLoggedIn(TOKEN.to_string())));
    let short = check_status(200, "http://192.168.2.135/", "too short");
    assert!(matches!(short, Err(LoginError::BadResponse(_))));
}
