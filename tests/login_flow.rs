use scunet_login_util::{
    check_wifi, should_fall_back, user_info_step, Action, Event, GateStep, InfoReply, InfoStep,
    LoginError, LoginFlow, LoginStatus, PageInfo, ProbeReply, ScunetLoginUtil, Service,
    WifiReading,
};

const PREFIX: &str = "<script>top.self.location.href='http://192.168.2.135/eportal/index.jsp?";
const SUFFIX: &str = "'</script>\r\n";
const TOKEN: &str = "wlanuserip=10.0.0.7&wlanacname=scu&mac=AA:BB:CC:DD:EE:FF&t=wireless-v2";
const MODULUS: &str = "609f523f5cd0e9c016f06b3768f6c6651dca441a5e9ad11cc74b37ad1343189f00a322dcc8cb660d189e9c834ecc92a034ab2529e63de8c95b78afa76567901d1b";
const CIPHER: &str = "2274b52e13430ad9e899917da098bc7c832b83c3c9721b80110ab3e62d05babf06f392aee8184f262f3b423a2aec405433a0fec68098f917d07f101a1bd745b80b";

fn logged_out() -> Event {
    Event::Probed(ProbeReply {
        status: 200,
        url: "http://192.168.2.135/".to_string(),
        body: format!("{}{}{}", PREFIX, TOKEN, SUFFIX),
    })
}

fn logged_in(handle: &str) -> Event {
    Event::Probed(ProbeReply {
        status: 200,
        url: format!("http://192.168.2.135/eportal/success.jsp?userIndex={}", handle),
        body: String::new(),
    })
}

fn key() -> Event {
    Event::PageInfo(PageInfo { modulus: MODULUS.to_string(), exponent: "10001".to_string() })
}

fn info(result: &str, balls: Option<Vec<Option<String>>>) -> Event {
    Event::UserInfo(InfoReply {
        result: result.to_string(),
        user_name: "张三".to_string(),
        welcome_tip: "欢迎".to_string(),
        ball_values: balls,
    })
}

fn quota_balls(q: &str) -> Option<Vec<Option<String>>> {
    Some(vec![Some("name".to_string()), Some(q.to_string())])
}

fn start(service: Service) -> (LoginFlow, Action) {
    ScunetLoginUtil::new("2021000000000".to_string(), "ilovescu!".to_string(), service).login()
}

/// Drives the flow to the login submission; returns the form's service.
fn to_submission(flow: &mut LoginFlow, a: Action) -> String {
    assert_eq!(a, Action::CheckWifi);
    assert_eq!(flow.step(Event::Wifi(WifiReading::Unknown)), Action::Probe);
    assert_eq!(flow.step(logged_out()), Action::FetchPageInfo(TOKEN.to_string()));
    match flow.step(key()) {
        Action::SubmitLogin(form) => {
            assert_eq!(form.user_id, "2021000000000");
            assert_eq!(form.password, CIPHER);
            assert_eq!(form.query_string, TOKEN);
            assert_eq!(form.password_encrypt, "true");
            form.service
        }
        other => panic!("unexpected {:?}", other),
    }
}

#[test]
fn end_to_end_success() {
    let (mut flow, a) = start(Service::Internet);
    let service = to_submission(&mut flow, a);
    assert_eq!(service, "internet");
    assert!(CIPHER.len() <= MODULUS.len());
    assert_eq!(flow.step(Event::LoginReply("success".to_string())), Action::Probe);
    assert_eq!(flow.step(logged_in("42")), Action::FetchUserInfo("42".to_string()));
    match flow.step(info("success", quota_balls("7200"))) {
        Action::Done(Ok(LoginStatus::Success(i))) => {
            assert_eq!(i.user_name, "张三");
            assert_eq!(i.welcome_tip, "欢迎");
            assert_eq!(i.left_tenths, Some(20));
            assert_eq!(i.encrypted_password, CIPHER);
        }
        other => panic!("unexpected {:?}", other),
    }
    assert_eq!(flow.step(Event::Slept), Action::Done(Err(LoginError::OutOfOrder)));
}

#[test]
fn already_logged_in_ends_at_once() {
    let (mut flow, a) = start(Service::ChinaMobile);
    assert_eq!(a, Action::CheckWifi);
    assert_eq!(flow.step(Event::Wifi(WifiReading::Ssid("SCUNET".to_string()))), Action::Probe);
    assert_eq!(flow.step(logged_in("7")), Action::Done(Ok(LoginStatus::HaveLoggedIn)));
}

#[test]
fn info_ready_on_fifth_attempt() {
    let (mut flow, a) = start(Service::Internet);
    to_submission(&mut flow, a);
    flow.step(Event::LoginReply("ok".to_string()));
    let mut action = flow.step(logged_in("42"));
    let mut calls = 0;
    loop {
        match action {
            Action::FetchUserInfo(ref h) => {
                assert_eq!(h, "42");
                calls += 1;
                let result = if calls < 5 { "wait" } else { "success" };
                action = flow.step(info(result, Some(vec![])));
            }
            Action::Sleep(ms) => {
                assert_eq!(ms, 500);
                action = flow.step(Event::Slept);
            }
            Action::Done(Ok(LoginStatus::Success(i))) => {
                assert_eq!(i.left_tenths, None);
                break;
            }
            other => panic!("unexpected {:?}", other),
        }
    }
    assert_eq!(calls, 5);
}

#[test]
fn info_unavailable_after_five_failures() {
    let (mut flow, a) = start(Service::Internet);
    to_submission(&mut flow, a);
    flow.step(Event::LoginReply("ok".to_string()));
    let mut action = flow.step(logged_in("42"));
    let mut calls = 0;
    loop {
        match action {
            Action::FetchUserInfo(_) => {
                calls += 1;
                action = flow.step(info("wait", None));
            }
            Action::Sleep(_) => action = flow.step(Event::Slept),
            Action::Done(r) => {
                assert_eq!(r, Err(LoginError::InfoUnavailable));
                break;
            }
            other => panic!("unexpected {:?}", other),
        }
    }
    assert_eq!(calls, 5);
}

#[test]
fn terminal_failure_falls_back_once() {
    let (mut flow, a) = start(Service::ChinaMobile);
    let service = to_submission(&mut flow, a);
    assert_eq!(service, "%E7%A7%BB%E5%8A%A8%E5%87%BA%E5%8F%A3");
    flow.step(Event::LoginReply("terminal failed: carrier".to_string()));
    let a = flow.step(logged_out());
    assert_eq!(a, Action::CheckWifi);
    assert_eq!(flow.service, Service::Internet);
    assert!(flow.fallback_used);
    let service = to_submission(&mut flow, a);
    assert_eq!(service, "internet");
    flow.step(Event::LoginReply("terminal failed again".to_string()));
    let last = flow.step(logged_out());
    assert_eq!(last, Action::Done(Err(LoginError::Fail("terminal failed again".to_string()))));
}

#[test]
fn other_rejection_is_surfaced() {
    let (mut flow, a) = start(Service::ChinaTelecom);
    to_submission(&mut flow, a);
    flow.step(Event::LoginReply("密码错误".to_string()));
    assert_eq!(flow.step(logged_out()), Action::Done(Err(LoginError::Fail("密码错误".to_string()))));
    let (mut campus, a) = start(Service::Internet);
    to_submission(&mut campus, a);
    campus.step(Event::LoginReply("terminal failed".to_string()));
    assert_eq!(
        campus.step(logged_out()),
        Action::Done(Err(LoginError::Fail("terminal failed".to_string())))
    );
}

#[test]
fn encrypted_credential_skips_the_key() {
    let pre = "ab".repeat(128);
    let (mut flow, _) =
        ScunetLoginUtil::new("2021000000000".to_string(), pre.clone(), Service::Internet).login();
    flow.step(Event::Wifi(WifiReading::Unknown));
    match flow.step(logged_out()) {
        Action::SubmitLogin(form) => assert_eq!(form.password, pre),
        other => panic!("unexpected {:?}", other),
    }
}

#[test]
fn boot_start_waits_and_retries_wifi() {
    let mut util = ScunetLoginUtil::new("1".to_string(), "p".to_string(), Service::Internet);
    util.set_on_boot(true);
    let (mut flow, a) = util.login();
    assert_eq!(a, Action::CheckWifi);
    for _ in 0..4 {
        assert_eq!(flow.step(Event::Wifi(WifiReading::Ssid("other".to_string()))), Action::Sleep(1000));
        assert_eq!(flow.step(Event::Slept), Action::CheckWifi);
    }
    assert_eq!(
        flow.step(Event::Wifi(WifiReading::Ssid("other".to_string()))),
        Action::Done(Err(LoginError::NotConnectedToScunet))
    );
    let (mut ok, _) = util.login();
    assert_eq!(ok.step(Event::Wifi(WifiReading::Ssid("SCUNET".to_string()))), Action::Sleep(2000));
    assert_eq!(ok.step(Event::Slept), Action::Probe);
}

#[test]
fn request_failure_and_bad_key_end_the_flow() {
    let (mut flow, _) = start(Service::Internet);
    flow.step(Event::Wifi(WifiReading::Unknown));
    assert_eq!(
        flow.step(Event::Failed("connection refused".to_string())),
        Action::Done(Err(LoginError::Request("connection refused".to_string())))
    );
    let (mut flow, _) = start(Service::Internet);
    flow.step(Event::Wifi(WifiReading::Unknown));
    flow.step(logged_out());
    let bad = flow.step(Event::PageInfo(PageInfo { modulus: "zz".to_string(), exponent: "3".to_string() }));
    assert!(matches!(bad, Action::Done(Err(LoginError::BadResponse(_)))));
    let (mut flow, _) = start(Service::Internet);
    flow.step(Event::Wifi(WifiReading::Unknown));
    let timeout = flow.step(Event::Probed(ProbeReply {
        status: 500,
        url: "http://192.168.2.135/".to_string(),
        body: String::new(),
    }));
    assert_eq!(timeout, Action::Done(Err(LoginError::TimeOut)));
}

#[test]
fn out_of_order_event_ends_the_flow() {
    let (mut flow, _) = start(Service::Internet);
    assert_eq!(flow.step(Event::Slept), Action::Done(Err(LoginError::OutOfOrder)));
}

#[test]
fn wifi_gate_decisions() {
    let scunet = WifiReading::Ssid("SCUNET".to_string());
    assert_eq!(check_wifi(false, 0, scunet), GateStep::Pass);
    assert_eq!(check_wifi(false, 0, WifiReading::Unknown), GateStep::Pass);
    let other = WifiReading::Ssid("CMCC".to_string());
    assert_eq!(check_wifi(false, 0, other.clone()), GateStep::Fail(LoginError::NotConnectedToScunet));
    assert_eq!(check_wifi(true, 3, other.clone()), GateStep::Retry);
    assert_eq!(check_wifi(true, 4, other), GateStep::Fail(LoginError::NotConnectedToScunet));
    let failed = WifiReading::Failed("无法打开 WLAN 句柄".to_string(), 5);
    assert_eq!(
        check_wifi(false, 0, failed),
        GateStep::Fail(LoginError::WiFiStatusError("无法打开 WLAN 句柄".to_string(), 5))
    );
}

#[test]
fn fallback_rule() {
    assert!(should_fall_back("terminal failed", Service::ChinaMobile));
    assert!(should_fall_back("error: terminal failed (3)", Service::ChinaUnicom));
    assert!(!should_fall_back("terminal failed", Service::Internet));
    assert!(!should_fall_back("terminal ok", Service::ChinaMobile));
}

#[test]
fn info_step_decisions() {
    let reply = InfoReply {
        result: "wait".to_string(),
        user_name: String::new(),
        welcome_tip: String::new(),
        ball_values: None,
    };
    assert_eq!(user_info_step(0, reply.clone(), "c".to_string()), InfoStep::Retry);
    assert_eq!(user_info_step(3, reply.clone(), "c".to_string()), InfoStep::Retry);
    assert_eq!(user_info_step(4, reply, "c".to_string()), InfoStep::GiveUp);
    let ok = InfoReply {
        result: "success".to_string(),
        user_name: "n".to_string(),
        welcome_tip: "t".to_string(),
        ball_values: Some(vec![Some("a".to_string()), Some("x7".to_string())]),
    };
    match user_info_step(4, ok, "c".to_string()) {
        InfoStep::Ready(i) => {
            assert_eq!(i.left_tenths, None);
            assert_eq!(i.encrypted_password, "c");
        }
        other => panic!("unexpected {:?}", other),
    }
}
