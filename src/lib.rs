//! Login client for the SCUNET captive portal.
//!
//! The library decides; the host performs the requests. A login is a
//! [`LoginFlow`]: the host asks it for an [`Action`], carries the action out
//! (a request to the gateway, a pause, a look at the WLAN connection) and
//! hands the outcome back as an [`Event`], until the flow answers with
//! [`Action::Done`].

pub mod cipher;
pub mod config;
pub mod flow;
pub mod portal;
pub mod quota;
pub mod text;
pub mod toast;
pub mod types;
pub mod wifi;

pub use crate::cipher::{credential, encrypt_password, is_encrypted, ENCRYPTED_LEN};
pub use crate::config::AppConfig;
pub use crate::flow::{
    Action, Event, LoginFlow, LoginForm, PageInfo, Phase, ProbeReply, ScunetLoginUtil,
    INFO_RETRY_MS, SETTLE_MS,
};
pub use crate::portal::{
    check_status, should_fall_back, user_info_step, InfoReply, InfoStep, HTTP_OK, INFO_ATTEMPTS,
};
pub use crate::quota::{parse_quota_tenths, remaining_tenths};
pub use crate::text::{
    extract_token, find_char, find_pattern, mac_address, session_handle, TOKEN_START,
    TOKEN_TRAILER,
};
pub use crate::toast::{Notice, Toast};
pub use crate::types::{LoginError, LoginStatus, OnlineUserInfo, Service, Status};
pub use crate::wifi::{check_wifi, GateStep, WifiReading, WIFI_ATTEMPTS_ON_BOOT, WIFI_RETRY_MS};
