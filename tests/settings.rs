use scunet_login_util::{AppConfig, Action, ScunetLoginUtil, Service, Toast};

#[test]
fn setters_change_the_login() {
    let mut util = ScunetLoginUtil::new("a".to_string(), "b".to_string(), Service::Internet);
    util.set_student_id("2021".to_string());
    util.set_password("secret".to_string());
    util.set_service(Service::ChinaUnicom);
    util.set_on_boot(true);
    let (flow, a) = util.login();
    assert_eq!(a, Action::CheckWifi);
    assert_eq!(flow.student_id, "2021");
    assert_eq!(flow.password, "secret");
    assert_eq!(flow.service, Service::ChinaUnicom);
    assert!(flow.on_boot);
    assert!(!flow.fallback_used);
}

#[test]
fn config_default_is_empty() {
    let c = AppConfig::default();
    assert_eq!(c.student_id, "");
    assert_eq!(c.service, Service::Internet);
    assert!(!c.enable_toast);
    assert!(!c.show_github_button);
}

fn config(greeting: &str, enabled: bool) -> AppConfig {
    let mut c = AppConfig::default();
    c.greeting_name = greeting.to_string();
    c.enable_toast = enabled;
    c.service = Service::ChinaMobile;
    c
}

#[test]
fn success_notice_texts() {
    let n = Toast::success("张三".to_string(), "欢迎".to_string(), Some(20), &config("", true)).unwrap();
    assert_eq!(n.title, "张三, 欢迎");
    assert_eq!(n.lines, vec!["你已登录到 SCUNET (中国移动)".to_string(), "剩余时间: 2 小时".to_string()]);
    let m = Toast::success("张三".to_string(), "欢迎".to_string(), Some(125), &config("小张", true)).unwrap();
    assert_eq!(m.title, "小张, 欢迎");
    assert_eq!(m.lines[1], "剩余时间: 12.5 小时");
    let z = Toast::success("a".to_string(), "b".to_string(), Some(3), &config("", true)).unwrap();
    assert_eq!(z.lines[1], "剩余时间: 0.3 小时");
    let neg = Toast::success("a".to_string(), "b".to_string(), Some(-15), &config("", true)).unwrap();
    assert_eq!(neg.lines[1], "剩余时间: -1.5 小时");
    let none = Toast::success("a".to_string(), "b".to_string(), None, &config("", true)).unwrap();
    assert_eq!(none.lines.len(), 1);
    assert_eq!(Toast::success("a".to_string(), "b".to_string(), Some(1), &config("", false)), None);
}

#[test]
fn other_notice_texts() {
    let f = Toast::fail("连接超时", true).unwrap();
    assert_eq!(f.title, "登录失败");
    assert_eq!(f.lines, vec!["连接超时".to_string(), "请手动调整配置或检查网络状态".to_string()]);
    assert_eq!(Toast::fail("x", false), None);
    let l = Toast::logged_in(true).unwrap();
    assert_eq!(l.title, "你已登录到 SCUNET");
    assert_eq!(Toast::logged_in(false), None);
    let e = Toast::error("boom");
    assert_eq!(e.title, "😭😭😭 程序出错了");
    assert_eq!(e.lines[0], "boom");
}
