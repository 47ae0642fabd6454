//! The login, as a state machine that a host drives.
use vstd::prelude::*;

use crate::cipher::{encrypt_password, encryption_of, is_encrypted, is_encrypted_text};
use crate::portal::{
    check_status, describes, should_fall_back, status_view, success_text, terminal_failed_text,
    user_info_step, InfoReply, InfoStep, ProbeView, INFO_ATTEMPTS,
};
use crate::text::contains_pattern;
use crate::types::{LoginError, LoginStatus, Service, Status};
use crate::wifi::{check_wifi, gate_step, GateStep, WifiReading, WIFI_RETRY_MS};

verus! {

/// Pause before the first look at the root page when started with the system,
/// in milliseconds: the network may not be up yet.
pub const SETTLE_MS: u64 = 2000;

/// Pause between two session-details requests, in milliseconds.
pub const INFO_RETRY_MS: u64 = 500;

/// The fields of the login form.
#[derive(Clone, Debug, PartialEq, Eq)]
pub struct LoginForm {
    /// `userId`: the student number.
    pub user_id: String,
    /// `password`: the encrypted credential.
    pub password: String,
    /// `service`: the percent-encoded service.
    pub service: String,
    /// `queryString`: the continuation token.
    pub query_string: String,
    /// `passwordEncrypt`: always `true`.
    pub password_encrypt: String,
}

/// The root page as the host received it, with redirects followed.
#[derive(Clone, Debug, PartialEq, Eq)]
pub struct ProbeReply {
    /// The status code.
    pub status: u16,
    /// The final URL.
    pub url: String,
    /// The body.
    pub body: String,
}

/// The gateway's public key, as its page-info answer gives it.
#[derive(Clone, Debug, PartialEq, Eq)]
pub struct PageInfo {
    /// `publicKeyModulus`, in hexadecimal.
    pub modulus: String,
    /// `publicKeyExponent`, in hexadecimal.
    pub exponent: String,
}

/// What the host is asked to do next.
#[derive(Debug, PartialEq, Eq)]
pub enum Action {
    /// Read the current WLAN connection; answer with [`Event::Wifi`].
    CheckWifi,
    /// Wait this many milliseconds; answer with [`Event::Slept`].
    Sleep(u64),
    /// GET the gateway's root page; answer with [`Event::Probed`].
    Probe,
    /// POST `queryString` to the page-info endpoint; answer with [`Event::PageInfo`].
    FetchPageInfo(String),
    /// POST the form to the login endpoint; answer with [`Event::LoginReply`].
    SubmitLogin(LoginForm),
    /// POST `userIndex` to the session-details endpoint; answer with [`Event::UserInfo`].
    FetchUserInfo(String),
    /// The login is over, with this outcome.
    Done(Result<LoginStatus, LoginError>),
}

/// What the host reports back.
#[derive(Clone, Debug, PartialEq, Eq)]
pub enum Event {
    /// The WLAN connection.
    Wifi(WifiReading),
    /// The pause is over.
    Slept,
    /// The root page.
    Probed(ProbeReply),
    /// The public key.
    PageInfo(PageInfo),
    /// The `message` field of the login answer.
    LoginReply(String),
    /// The session-details answer.
    UserInfo(InfoReply),
    /// The request could not be made or its answer not decoded.
    Failed(String),
}

/// Where a login stands: what it waits for.
#[derive(Clone, Debug, PartialEq, Eq)]
pub enum Phase {
    /// Waits for a WLAN reading; `attempt` checks came before.
    CheckingWifi { attempt: u32 },
    /// Waits out the pause before WLAN check number `next_attempt`.
    WifiBackoff { next_attempt: u32 },
    /// Waits out the pause before the first look at the root page.
    Settling,
    /// Waits for the root page.
    Probing,
    /// Waits for the public key that goes with this continuation token.
    FetchingKey { query_string: String },
    /// Waits for the login answer; the credential sent is kept.
    Submitting { password: String },
    /// Waits for the root page once more, holding the login answer's message.
    Confirming { password: String, message: String },
    /// Waits for the session details; `attempt` requests came before.
    FetchingInfo { user_index: String, password: String, attempt: u32 },
    /// Waits out the pause before session-details request number `next_attempt`.
    InfoBackoff { user_index: String, password: String, next_attempt: u32 },
    /// Over.
    Finished,
}

/// One login, from the WLAN check to the session details.
#[derive(Clone, Debug, PartialEq, Eq)]
pub struct LoginFlow {
    /// The student number.
    pub student_id: String,
    /// The password, or the credential encrypted by an earlier login.
    pub password: String,
    /// The service the next submission binds to.
    pub service: Service,
    /// Started with the system.
    pub on_boot: bool,
    /// The retry on the campus network has been made.
    pub fallback_used: bool,
    /// Where the login stands.
    pub phase: Phase,
}

/// `f` is the login form for these values.
pub open spec fn form_for(
    f: LoginForm,
    student_id: Seq<char>,
    password: Seq<char>,
    service: Service,
    query_string: Seq<char>,
) -> bool {
    &&& f.user_id@ == student_id
    &&& f.password@ == password
    &&& f.service@ == service.param_spec()
    &&& f.query_string@ == query_string
    &&& f.password_encrypt@ == seq!['t', 'r', 'u', 'e']
}

/// The flow is over with `outcome`.
pub open spec fn ends_with(after: LoginFlow, a: Action, outcome: Result<LoginStatus, LoginError>) -> bool {
    after.phase is Finished && a == Action::Done(outcome)
}

/// The flow is over with an error for a malformed answer.
pub open spec fn ends_malformed(after: LoginFlow, a: Action) -> bool {
    after.phase is Finished && a matches Action::Done(Err(LoginError::BadResponse(_)))
}

/// On `ev`, the login is given up on the chosen service and started once more
/// on the campus network: the confirming look at the root page finds the
/// client still logged out, the gateway's message says `terminal failed`,
/// another service was chosen, and this has not happened before.
pub open spec fn falls_back(before: LoginFlow, ev: Event) -> bool {
    match before.phase {
        Phase::Confirming { password, message } => match ev {
            Event::Probed(p) => status_view(p.status, p.url@, p.body@) is Unauthenticated
                && contains_pattern(message@, terminal_failed_text())
                && before.service != Service::Internet && !before.fallback_used,
            _ => false,
        },
        _ => false,
    }
}

/// One step of a login: from `before`, on `ev`, the flow goes to `after` and
/// asks for `a`.
pub open spec fn transition(before: LoginFlow, ev: Event, after: LoginFlow, a: Action) -> bool {
    let out_of_order = ends_with(after, a, Err(LoginError::OutOfOrder));
    &&& after.student_id == before.student_id
    &&& after.password == before.password
    &&& after.on_boot == before.on_boot
    &&& match before.phase {
        Phase::CheckingWifi { attempt } => match ev {
            Event::Wifi(reading) => match gate_step(before.on_boot, attempt, reading) {
                GateStep::Pass => if before.on_boot {
                    after.phase is Settling && a == Action::Sleep(SETTLE_MS)
                } else {
                    after.phase is Probing && a is Probe
                },
                GateStep::Retry => after.phase == Phase::WifiBackoff { next_attempt: (attempt + 1) as u32 }
                    && a == Action::Sleep(WIFI_RETRY_MS),
                GateStep::Fail(e) => ends_with(after, a, Err(e)),
            },
            _ => out_of_order,
        },
        Phase::WifiBackoff { next_attempt } => match ev {
            Event::Slept => after.phase == Phase::CheckingWifi { attempt: next_attempt } && a is CheckWifi,
            _ => out_of_order,
        },
        Phase::Settling => match ev {
            Event::Slept => after.phase is Probing && a is Probe,
            _ => out_of_order,
        },
        Phase::Probing => match ev {
            Event::Probed(p) => match status_view(p.status, p.url@, p.body@) {
                ProbeView::TimedOut => ends_with(after, a, Err(LoginError::TimeOut)),
                ProbeView::Malformed => ends_malformed(after, a),
                ProbeView::Authenticated(_) => ends_with(after, a, Ok(LoginStatus::HaveLoggedIn)),
                ProbeView::Unauthenticated(t) => if is_encrypted_text(before.password@) {
                    &&& after.phase matches Phase::Submitting { password } && password == before.password
                    &&& a matches Action::SubmitLogin(f) && form_for(f, before.student_id@, before.password@, before.service, t)
                } else {
                    &&& after.phase matches Phase::FetchingKey { query_string } && query_string@ == t
                    &&& a matches Action::FetchPageInfo(q) && q@ == t
                },
            },
            Event::Failed(m) => ends_with(after, a, Err(LoginError::Request(m))),
            _ => out_of_order,
        },
        Phase::FetchingKey { query_string } => match ev {
            Event::PageInfo(k) => match encryption_of(before.password@, query_string@, k.modulus@, k.exponent@) {
                Some(c) => {
                    &&& after.phase matches Phase::Submitting { password } && password@ == c
                    &&& a matches Action::SubmitLogin(f) && form_for(f, before.student_id@, c, before.service, query_string@)
                },
                None => ends_malformed(after, a),
            },
            Event::Failed(m) => ends_with(after, a, Err(LoginError::Request(m))),
            _ => out_of_order,
        },
        Phase::Submitting { password } => match ev {
            Event::LoginReply(message) => after.phase == Phase::Confirming { password, message } && a is Probe,
            Event::Failed(m) => ends_with(after, a, Err(LoginError::Request(m))),
            _ => out_of_order,
        },
        Phase::Confirming { password, message } => match ev {
            Event::Probed(p) => match status_view(p.status, p.url@, p.body@) {
                ProbeView::TimedOut => ends_with(after, a, Err(LoginError::TimeOut)),
                ProbeView::Malformed => ends_malformed(after, a),
                ProbeView::Authenticated(h) => {
                    &&& after.phase matches Phase::FetchingInfo { user_index, password: p2, attempt }
                        && user_index@ == h && p2 == password && attempt == 0
                    &&& a matches Action::FetchUserInfo(u) && u@ == h
                },
                ProbeView::Unauthenticated(_) => if contains_pattern(message@, terminal_failed_text())
                    && before.service != Service::Internet && !before.fallback_used {
                    &&& after.service == Service::Internet
                    &&& after.fallback_used
                    &&& after.phase == Phase::CheckingWifi { attempt: 0 }
                    &&& a is CheckWifi
                } else {
                    ends_with(after, a, Err(LoginError::Fail(message)))
                },
            },
            Event::Failed(m) => ends_with(after, a, Err(LoginError::Request(m))),
            _ => out_of_order,
        },
        Phase::FetchingInfo { user_index, password, attempt } => match ev {
            Event::UserInfo(reply) => if reply.result@ == success_text() {
                after.phase is Finished && (a matches Action::Done(Ok(LoginStatus::Success(info)))
                    && describes(info, reply, password))
            } else if attempt + 1 < INFO_ATTEMPTS {
                after.phase == Phase::InfoBackoff { user_index, password, next_attempt: (attempt + 1) as u32 }
                    && a == Action::Sleep(INFO_RETRY_MS)
            } else {
                ends_with(after, a, Err(LoginError::InfoUnavailable))
            },
            Event::Failed(m) => ends_with(after, a, Err(LoginError::Request(m))),
            _ => out_of_order,
        },
        Phase::InfoBackoff { user_index, password, next_attempt } => match ev {
            Event::Slept => after.phase == Phase::FetchingInfo { user_index, password, attempt: next_attempt }
                && a == Action::FetchUserInfo(user_index),
            _ => out_of_order,
        },
        Phase::Finished => out_of_order,
    }
    &&& !falls_back(before, ev) ==> after.service == before.service && after.fallback_used
        == before.fallback_used
}

/// The retry on the campus network happens at most once: once it has been
/// made, no step makes it again, and every later step keeps the service and
/// the record of the retry.
pub proof fn lemma_fallback_at_most_once(before: LoginFlow, ev: Event, after: LoginFlow, a: Action)
    requires
        transition(before, ev, after, a),
        before.fallback_used,
    ensures
        !falls_back(before, ev),
        after.service == before.service,
        after.fallback_used,
{
}

/// A rejected login that the gateway explains with `terminal failed`, on a
/// service other than the campus network, is retried once on the campus
/// network from the WLAN check on; any other rejection ends the login with the
/// gateway's message.
pub proof fn lemma_rejection_outcome(
    before: LoginFlow,
    password: String,
    message: String,
    p: ProbeReply,
    after: LoginFlow,
    a: Action,
)
    requires
        before.phase == (Phase::Confirming { password, message }),
        status_view(p.status, p.url@, p.body@) is Unauthenticated,
        transition(before, Event::Probed(p), after, a),
    ensures
        contains_pattern(message@, terminal_failed_text()) && before.service != Service::Internet
            && !before.fallback_used ==> after.service == Service::Internet && after.fallback_used
            && a is CheckWifi && after.phase == (Phase::CheckingWifi { attempt: 0 }),
        !(contains_pattern(message@, terminal_failed_text()) && before.service != Service::Internet
            && !before.fallback_used) ==> after.service == before.service && a == Action::Done(
            Err(LoginError::Fail(message)),
        ),
{
}

/// Builds the login form.
fn login_form(student_id: &String, password: String, service: Service, query_string: String) -> (r:
    LoginForm)
    ensures
        form_for(r, student_id@, password@, service, query_string@),
{
    let flag = "true";
    proof {
        reveal_strlit("true");
        assert(flag@ =~= seq!['t', 'r', 'u', 'e']);
    }
    LoginForm {
        user_id: student_id.clone(),
        password,
        service: service.to_param().to_owned(),
        query_string,
        password_encrypt: flag.to_owned(),
    }
}

impl LoginFlow {
    /// Carries the login one step on: `ev` is the outcome of the action asked
    /// for last, and the result is the next action. An event that does not
    /// answer that action ends the login with [`LoginError::OutOfOrder`].
    pub fn step(&mut self, ev: Event) -> (a: Action)
        ensures
            transition(*old(self), ev, *final(self), a),
    {
        let mut phase = Phase::Finished;
        std::mem::swap(&mut self.phase, &mut phase);
        match phase {
            Phase::CheckingWifi { attempt } => match ev {
                Event::Wifi(reading) => match check_wifi(self.on_boot, attempt, reading) {
                    GateStep::Pass => {
                        if self.on_boot {
                            self.phase = Phase::Settling;
                            Action::Sleep(SETTLE_MS)
                        } else {
                            self.phase = Phase::Probing;
                            Action::Probe
                        }
                    },
                    GateStep::Retry => {
                        self.phase = Phase::WifiBackoff { next_attempt: attempt + 1 };
                        Action::Sleep(WIFI_RETRY_MS)
                    },
                    GateStep::Fail(e) => Action::Done(Err(e)),
                },
                _ => Action::Done(Err(LoginError::OutOfOrder)),
            },
            Phase::WifiBackoff { next_attempt } => match ev {
                Event::Slept => {
                    self.phase = Phase::CheckingWifi { attempt: next_attempt };
                    Action::CheckWifi
                },
                _ => Action::Done(Err(LoginError::OutOfOrder)),
            },
            Phase::Settling => match ev {
                Event::Slept => {
                    self.phase = Phase::Probing;
                    Action::Probe
                },
                _ => Action::Done(Err(LoginError::OutOfOrder)),
            },
            Phase::Probing => match ev {
                Event::Probed(p) => match check_status(p.status, p.url.as_str(), p.body.as_str()) {
                    Err(e) => Action::Done(Err(e)),
                    Ok(Status::LoggedIn(_)) => Action::Done(Ok(LoginStatus::HaveLoggedIn)),
                    Ok(Status::NotLoggedIn(query_string)) => {
                        if is_encrypted(self.password.as_str()) {
                            let form = login_form(
                                &self.student_id,
                                self.password.clone(),
                                self.service,
                                query_string,
                            );
                            self.phase = Phase::Submitting { password: self.password.clone() };
                            Action::SubmitLogin(form)
                        } else {
                            self.phase = Phase::FetchingKey { query_string: query_string.clone() };
                            Action::FetchPageInfo(query_string)
                        }
                    },
                },
                Event::Failed(m) => Action::Done(Err(LoginError::Request(m))),
                _ => Action::Done(Err(LoginError::OutOfOrder)),
            },
            Phase::FetchingKey { query_string } => match ev {
                Event::PageInfo(k) => match encrypt_password(
                    self.password.as_str(),
                    query_string.as_str(),
                    k.modulus.as_str(),
                    k.exponent.as_str(),
                ) {
                    Ok(c) => {
                        let form = login_form(&self.student_id, c.clone(), self.service, query_string);
                        self.phase = Phase::Submitting { password: c };
                        Action::SubmitLogin(form)
                    },
                    Err(e) => Action::Done(Err(e)),
                },
                Event::Failed(m) => Action::Done(Err(LoginError::Request(m))),
                _ => Action::Done(Err(LoginError::OutOfOrder)),
            },
            Phase::Submitting { password } => match ev {
                Event::LoginReply(message) => {
                    self.phase = Phase::Confirming { password, message };
                    Action::Probe
                },
                Event::Failed(m) => Action::Done(Err(LoginError::Request(m))),
                _ => Action::Done(Err(LoginError::OutOfOrder)),
            },
            Phase::Confirming { password, message } => match ev {
                Event::Probed(p) => match check_status(p.status, p.url.as_str(), p.body.as_str()) {
                    Err(e) => Action::Done(Err(e)),
                    Ok(Status::LoggedIn(h)) => {
                        self.phase = Phase::FetchingInfo { user_index: h.clone(), password, attempt: 0 };
                        Action::FetchUserInfo(h)
                    },
                    Ok(Status::NotLoggedIn(_)) => {
                        if !self.fallback_used && should_fall_back(message.as_str(), self.service) {
                            self.service = Service::Internet;
                            self.fallback_used = true;
                            self.phase = Phase::CheckingWifi { attempt: 0 };
                            Action::CheckWifi
                        } else {
                            Action::Done(Err(LoginError::Fail(message)))
                        }
                    },
                },
                Event::Failed(m) => Action::Done(Err(LoginError::Request(m))),
                _ => Action::Done(Err(LoginError::OutOfOrder)),
            },
            Phase::FetchingInfo { user_index, password, attempt } => match ev {
                Event::UserInfo(reply) => match user_info_step(attempt, reply, password.clone()) {
                    InfoStep::Ready(info) => Action::Done(Ok(LoginStatus::Success(info))),
                    InfoStep::Retry => {
                        self.phase = Phase::InfoBackoff {
                            user_index,
                            password,
                            next_attempt: attempt + 1,
                        };
                        Action::Sleep(INFO_RETRY_MS)
                    },
                    InfoStep::GiveUp => Action::Done(Err(LoginError::InfoUnavailable)),
                },
                Event::Failed(m) => Action::Done(Err(LoginError::Request(m))),
                _ => Action::Done(Err(LoginError::OutOfOrder)),
            },
            Phase::InfoBackoff { user_index, password, next_attempt } => match ev {
                Event::Slept => {
                    self.phase = Phase::FetchingInfo {
                        user_index: user_index.clone(),
                        password,
                        attempt: next_attempt,
                    };
                    Action::FetchUserInfo(user_index)
                },
                _ => Action::Done(Err(LoginError::OutOfOrder)),
            },
            Phase::Finished => Action::Done(Err(LoginError::OutOfOrder)),
        }
    }
}

/// The settings of a login to SCUNET.
#[derive(Clone, Debug)]
pub struct ScunetLoginUtil {
    student_id: String,
    password: String,
    service: Service,
    on_boot: bool,
}

impl ScunetLoginUtil {
    /// The student number.
    pub closed spec fn student_id_spec(&self) -> Seq<char> {
        self.student_id@
    }

    /// The password, or the credential encrypted by an earlier login.
    pub closed spec fn password_spec(&self) -> Seq<char> {
        self.password@
    }

    /// The service to bind to.
    pub closed spec fn service_spec(&self) -> Service {
        self.service
    }

    /// Started with the system.
    pub closed spec fn on_boot_spec(&self) -> bool {
        self.on_boot
    }

    /// Settings for a login that was not started with the system.
    pub fn new(student_id: String, password: String, service: Service) -> (r: Self)
        ensures
            r.student_id_spec() == student_id@,
            r.password_spec() == password@,
            r.service_spec() == service,
            !r.on_boot_spec(),
    {
        ScunetLoginUtil { student_id, password, service, on_boot: false }
    }

    /// Sets the student number.
    pub fn set_student_id(&mut self, student_id: String)
        ensures
            final(self).student_id_spec() == student_id@,
            final(self).password_spec() == old(self).password_spec(),
            final(self).service_spec() == old(self).service_spec(),
            final(self).on_boot_spec() == old(self).on_boot_spec(),
    {
        self.student_id = student_id;
    }

    /// Sets the password, or a credential encrypted by an earlier login.
    pub fn set_password(&mut self, password: String)
        ensures
            final(self).student_id_spec() == old(self).student_id_spec(),
            final(self).password_spec() == password@,
            final(self).service_spec() == old(self).service_spec(),
            final(self).on_boot_spec() == old(self).on_boot_spec(),
    {
        self.password = password;
    }

    /// Sets the service.
    pub fn set_service(&mut self, service: Service)
        ensures
            final(self).student_id_spec() == old(self).student_id_spec(),
            final(self).password_spec() == old(self).password_spec(),
            final(self).service_spec() == service,
            final(self).on_boot_spec() == old(self).on_boot_spec(),
    {
        self.service = service;
    }

    /// Sets whether the login was started with the system.
    pub fn set_on_boot(&mut self, on_boot: bool)
        ensures
            final(self).student_id_spec() == old(self).student_id_spec(),
            final(self).password_spec() == old(self).password_spec(),
            final(self).service_spec() == old(self).service_spec(),
            final(self).on_boot_spec() == on_boot,
    {
        self.on_boot = on_boot;
    }

    /// Starts a login with these settings. The host carries out the returned
    /// action, a WLAN check, and hands each outcome to [`LoginFlow::step`]
    /// until it answers with [`Action::Done`].
    pub fn login(&self) -> (r: (LoginFlow, Action))
        ensures
            r.0.student_id@ == self.student_id_spec(),
            r.0.password@ == self.password_spec(),
            r.0.service == self.service_spec(),
            r.0.on_boot == self.on_boot_spec(),
            !r.0.fallback_used,
            r.0.phase == (Phase::CheckingWifi { attempt: 0 }),
            r.1 is CheckWifi,
    {
        let flow = LoginFlow {
            student_id: self.student_id.clone(),
            password: self.password.clone(),
            service: self.service,
            on_boot: self.on_boot,
            fallback_used: false,
            phase: Phase::CheckingWifi { attempt: 0 },
        };
        (flow, Action::CheckWifi)
    }
}

} // verus!
