//! The notifications that a login ends with.
use vstd::prelude::*;

use crate::config::AppConfig;
use crate::types::Service;

verus! {

/// A notification: a title and the lines of its body.
#[derive(Clone, Debug, PartialEq, Eq)]
pub struct Notice {
    /// The title.
    pub title: String,
    /// The lines of the body.
    pub lines: Vec<String>,
}

/// The notifications of the application.
pub struct Toast;

/// The decimal digit for `d < 10`.
pub open spec fn digit_char(d: nat) -> char {
    seq!['0', '1', '2', '3', '4', '5', '6', '7', '8', '9'][d as int]
}

/// `n` in decimal, without leading zeros.
pub open spec fn decimal(n: nat) -> Seq<char>
    decreases n,
{
    if n < 10 {
        seq![digit_char(n)]
    } else {
        decimal(n / 10).push(digit_char(n % 10))
    }
}

/// A number of hours given in tenths, as the shortest decimal: `2` for
/// twenty tenths, `2.5` for twenty-five.
pub open spec fn hours_text(tenths: nat) -> Seq<char> {
    if tenths % 10 == 0 {
        decimal(tenths / 10)
    } else {
        decimal(tenths / 10) + seq!['.', digit_char(tenths % 10)]
    }
}

/// The first line of the notice of a login.
pub open spec fn logged_in_line(service: Service) -> Seq<char> {
    "你已登录到 SCUNET ("@ + service.name_spec() + ")"@
}

/// A signed number of hours given in tenths, as the shortest decimal.
pub open spec fn signed_hours_text(tenths: int) -> Seq<char> {
    if tenths < 0 {
        seq!['-'] + hours_text((-tenths) as nat)
    } else {
        hours_text(tenths as nat)
    }
}

/// The line of the notice of a login that gives the remaining quota.
pub open spec fn quota_line(tenths: int) -> Seq<char> {
    "剩余时间: "@ + signed_hours_text(tenths) + " 小时"@
}

/// The greeting that titles the notice of a login.
pub open spec fn greeting(name: Seq<char>, tip: Seq<char>, config_name: Seq<char>) -> Seq<char> {
    (if config_name.len() == 0 {
        name
    } else {
        config_name
    }) + ", "@ + tip
}

fn digit_str(d: u64) -> (r: &'static str)
    requires
        d < 10,
    ensures
        r@ == seq![digit_char(d as nat)],
{
    proof {
        reveal_strlit("0");
        reveal_strlit("1");
        reveal_strlit("2");
        reveal_strlit("3");
        reveal_strlit("4");
        reveal_strlit("5");
        reveal_strlit("6");
        reveal_strlit("7");
        reveal_strlit("8");
        reveal_strlit("9");
    }
    match d {
        0 => "0",
        1 => "1",
        2 => "2",
        3 => "3",
        4 => "4",
        5 => "5",
        6 => "6",
        7 => "7",
        8 => "8",
        _ => "9",
    }
}

/// Writes `n` in decimal.
fn decimal_text(n: u64) -> (r: String)
    ensures
        r@ == decimal(n as nat),
    decreases n,
{
    if n < 10 {
        digit_str(n).to_owned()
    } else {
        let mut s = decimal_text(n / 10);
        s.append(digit_str(n % 10));
        s
    }
}

/// Writes a number of hours given in tenths.
fn hours_string(tenths: u64) -> (r: String)
    ensures
        r@ == hours_text(tenths as nat),
{
    let mut s = decimal_text(tenths / 10);
    if tenths % 10 != 0 {
        let dot = ".";
        proof {
            reveal_strlit(".");
        }
        s.append(dot);
        s.append(digit_str(tenths % 10));
        assert(s@ =~= hours_text(tenths as nat));
    }
    s
}

/// Writes a signed number of hours given in tenths.
fn signed_hours_string(tenths: i64) -> (r: String)
    ensures
        r@ == signed_hours_text(tenths as int),
{
    if tenths < 0 {
        let minus = "-";
        proof {
            reveal_strlit("-");
        }
        let mut s = minus.to_owned();
        let magnitude = (0i128 - tenths as i128) as u64;
        s.append(hours_string(magnitude).as_str());
        assert(s@ =~= signed_hours_text(tenths as int));
        s
    } else {
        hours_string(tenths as u64)
    }
}

impl Toast {
    /// The notice of a login: titled with the greeting (the configured name
    /// where one is set, else the gateway's), naming the service, with the
    /// remaining quota where there is one. `None` where notifications are off.
    pub fn success(name: String, tip: String, time: Option<i64>, config: &AppConfig) -> (r: Option<
        Notice,
    >)
        ensures
            !config.enable_toast ==> r is None,
            config.enable_toast ==> (r matches Some(n) && n.title@ == greeting(
                name@,
                tip@,
                config.greeting_name@,
            ) && n.lines@.len() == (if time is Some {
                2int
            } else {
                1int
            }) && n.lines@[0]@ == logged_in_line(config.service) && (time matches Some(t)
                ==> n.lines@[1]@ == quota_line(t as int))),
    {
        if !config.enable_toast {
            return None;
        }
        let head = "你已登录到 SCUNET (";
        let close = ")";
        let mut main = head.to_owned();
        main.append(config.service.to_str());
        main.append(close);
        let mut lines: Vec<String> = Vec::new();
        lines.push(main);
        if let Some(t) = time {
            let mut line = "剩余时间: ".to_owned();
            line.append(signed_hours_string(t).as_str());
            line.append(" 小时");
            lines.push(line);
        }
        let mut title = if config.greeting_name.unicode_len() == 0 {
            name
        } else {
            config.greeting_name.clone()
        };
        title.append(", ");
        title.append(tip.as_str());
        Some(Notice { title, lines })
    }

    /// The notice of a failed login. `None` where notifications are off.
    pub fn fail(msg: &str, enabled: bool) -> (r: Option<Notice>)
        ensures
            !enabled ==> r is None,
            enabled ==> (r matches Some(n) && n.title@ == "登录失败"@ && n.lines@.len() == 2
                && n.lines@[0]@ == msg@ && n.lines@[1]@ == "请手动调整配置或检查网络状态"@),
    {
        if !enabled {
            return None;
        }
        let mut lines: Vec<String> = Vec::new();
        lines.push(msg.to_owned());
        lines.push("请手动调整配置或检查网络状态".to_owned());
        Some(Notice { title: "登录失败".to_owned(), lines })
    }

    /// The notice that the client was logged in already. `None` where
    /// notifications are off.
    pub fn logged_in(enabled: bool) -> (r: Option<Notice>)
        ensures
            !enabled ==> r is None,
            enabled ==> (r matches Some(n) && n.title@ == "你已登录到 SCUNET"@ && n.lines@.len()
                == 1 && n.lines@[0]@ == "你可以再次\"登录\"来更新配置"@),
    {
        if !enabled {
            return None;
        }
        let mut lines: Vec<String> = Vec::new();
        lines.push("你可以再次\"登录\"来更新配置".to_owned());
        Some(Notice { title: "你已登录到 SCUNET".to_owned(), lines })
    }

    /// The notice of a crash, shown whatever the settings.
    pub fn error(msg: &str) -> (r: Notice)
        ensures
            r.title@ == "😭😭😭 程序出错了"@,
            r.lines@.len() == 2,
            r.lines@[0]@ == msg@,
            r.lines@[1]@ == "可以考虑提一个 Issue"@,
    {
        let mut lines: Vec<String> = Vec::new();
        lines.push(msg.to_owned());
        lines.push("可以考虑提一个 Issue".to_owned());
        Notice { title: "😭😭😭 程序出错了".to_owned(), lines }
    }
}

} // verus!
