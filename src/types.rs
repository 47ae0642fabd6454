use vstd::prelude::*;

verus! {

/// The egress that a login binds to.
#[derive(Clone, Copy, Debug, PartialEq, Eq, Structural)]
pub enum Service {
    /// Campus network (the default egress).
    Internet,
    /// China Mobile.
    ChinaMobile,
    /// China Telecom.
    ChinaTelecom,
    /// China Unicom.
    ChinaUnicom,
}

impl Service {
    /// The display name of the service.
    pub open spec fn name_spec(self) -> Seq<char> {
        match self {
            Service::Internet => "校园网"@,
            Service::ChinaMobile => "中国移动"@,
            Service::ChinaTelecom => "中国电信"@,
            Service::ChinaUnicom => "中国联通"@,
        }
    }

    /// The value of the `service` field of the login form.
    pub open spec fn param_spec(self) -> Seq<char> {
        match self {
            Service::Internet => "internet"@,
            Service::ChinaMobile => "%E7%A7%BB%E5%8A%A8%E5%87%BA%E5%8F%A3"@,
            Service::ChinaTelecom => "%E7%94%B5%E4%BF%A1%E5%87%BA%E5%8F%A3"@,
            Service::ChinaUnicom => "%E8%81%94%E9%80%9A%E5%87%BA%E5%8F%A3"@,
        }
    }

    /// Returns the display name of the service.
    pub fn to_str(self) -> (r: &'static str)
        ensures
            r@ == self.name_spec(),
    {
        match self {
            Service::Internet => "校园网",
            Service::ChinaMobile => "中国移动",
            Service::ChinaTelecom => "中国电信",
            Service::ChinaUnicom => "中国联通",
        }
    }

    /// Returns the percent-encoded value that the login form carries for the service.
    pub fn to_param(self) -> (r: &'static str)
        ensures
            r@ == self.param_spec(),
    {
        match self {
            Service::Internet => "internet",
            Service::ChinaMobile => "%E7%A7%BB%E5%8A%A8%E5%87%BA%E5%8F%A3",
            Service::ChinaTelecom => "%E7%94%B5%E4%BF%A1%E5%87%BA%E5%8F%A3",
            Service::ChinaUnicom => "%E8%81%94%E9%80%9A%E5%87%BA%E5%8F%A3",
        }
    }
}

impl Default for Service {
    fn default() -> (r: Self)
        ensures
            r == Service::Internet,
    {
        Service::Internet
    }
}

/// What the gateway's root page says of this client.
#[derive(Clone, Debug, PartialEq, Eq)]
pub enum Status {
    /// Not logged in; carries the continuation token (the gateway's `queryString`).
    NotLoggedIn(String),
    /// Logged in; carries the session handle (the gateway's `userIndex`).
    LoggedIn(String),
}

/// What a successful login ends with.
#[derive(Clone, Debug, PartialEq, Eq)]
pub enum LoginStatus {
    /// Logged in by this call, with the session's details.
    Success(OnlineUserInfo),
    /// The client was logged in already.
    HaveLoggedIn,
}

/// Why a login failed.
#[derive(Clone, Debug, PartialEq, Eq)]
pub enum LoginError {
    /// The gateway did not accept the login; carries its message.
    Fail(String),
    /// The gateway's root page answered with a status other than 200.
    TimeOut,
    /// The WLAN state could not be read: what failed, and the system's code.
    WiFiStatusError(String, u32),
    /// The device is not associated with the SCUNET network.
    NotConnectedToScunet,
    /// The session details could not be had after every attempt;
    /// the login itself may still have gone through.
    InfoUnavailable,
    /// A request to the gateway failed, as the host reported it.
    Request(String),
    /// A response from the gateway did not have the expected shape.
    BadResponse(String),
    /// The host answered with an event that does not belong to the pending action.
    OutOfOrder,
}

/// Details of the session that a login opened.
#[derive(Clone, Debug, PartialEq, Eq)]
pub struct OnlineUserInfo {
    /// The user's name.
    pub user_name: String,
    /// The gateway's greeting.
    pub welcome_tip: String,
    /// Remaining quota in tenths of an hour, where the gateway gives one that
    /// can be read (negative where the gateway gives a negative count).
    pub left_tenths: Option<i64>,
    /// The credential as sent, encrypted: it can be stored and sent as is next time.
    pub encrypted_password: String,
}

} // verus!
