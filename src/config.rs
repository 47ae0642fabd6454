//! The application's settings.
use vstd::prelude::*;

use crate::types::Service;

verus! {

/// The settings that the application keeps between runs.
#[derive(Clone, Debug)]
pub struct AppConfig {
    /// The student number.
    pub student_id: String,
    /// The password, or the credential encrypted by an earlier login.
    pub password: String,
    /// The service to bind to.
    pub service: Service,
    /// Started with the system; read from the system, never stored.
    pub on_boot: bool,
    /// The name to greet the user by; empty for the name the gateway gives.
    pub greeting_name: String,
    /// Notifications are shown.
    pub enable_toast: bool,
    /// The button that opens the project page is shown.
    pub show_github_button: bool,
}

impl Default for AppConfig {
    fn default() -> (r: Self)
        ensures
            r.student_id@.len() == 0,
            r.password@.len() == 0,
            r.service == Service::Internet,
            !r.on_boot,
            r.greeting_name@.len() == 0,
            !r.enable_toast,
            !r.show_github_button,
    {
        AppConfig {
            student_id: String::new(),
            password: String::new(),
            service: Service::Internet,
            on_boot: false,
            greeting_name: String::new(),
            enable_toast: false,
            show_github_button: false,
        }
    }
}

} // verus!
