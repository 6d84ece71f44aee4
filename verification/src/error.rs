//! The error type of the library and its messages.
use vstd::prelude::*;
use vstd::std_specs::convert::FromSpecImpl;

use crate::numerals;
use crate::text;

verus! {

/// `std::io::Error`, carried through unread.
#[verifier::external_type_specification]
#[verifier::external_body]
pub struct ExIoError(std::io::Error);

/// `serde_json::Error`, carried through unread.
#[verifier::external_type_specification]
#[verifier::external_body]
pub struct ExJsonError(serde_json::Error);

/// `toml::de::Error`, carried through unread.
#[verifier::external_type_specification]
#[verifier::external_body]
pub struct ExTomlReadError(toml::de::Error);

/// `toml::ser::Error`, carried through unread.
#[verifier::external_type_specification]
#[verifier::external_body]
pub struct ExTomlWriteError(toml::ser::Error);

/// Everything that can go wrong.
#[derive(Debug)]
pub enum CleanerError {
    Io(std::io::Error),
    Json(serde_json::Error),
    Toml(toml::de::Error),
    TomlSer(toml::ser::Error),
    Ipc(String),
    Config(String),
    ConfigError(String),
    SafetyViolation(String),
    Storage(String),
    ResourceExhausted(String),
    PlanBudgetExceeded { count: usize, limit: usize },
    PlanValidationFailed(String),
    Internal(String),
    DaemonAlreadyRunning(u32),
    DaemonNotRunning,
    Platform(String),
    Cancelled,
    Other(String),
}

impl From<std::io::Error> for CleanerError {
    fn from(err: std::io::Error) -> (r: Self) {
        CleanerError::Io(err)
    }
}

impl FromSpecImpl<std::io::Error> for CleanerError {
    open spec fn obeys_from_spec() -> bool {
        true
    }

    open spec fn from_spec(err: std::io::Error) -> Self {
        CleanerError::Io(err)
    }
}

impl From<serde_json::Error> for CleanerError {
    fn from(err: serde_json::Error) -> (r: Self) {
        CleanerError::Json(err)
    }
}

impl FromSpecImpl<serde_json::Error> for CleanerError {
    open spec fn obeys_from_spec() -> bool {
        true
    }

    open spec fn from_spec(err: serde_json::Error) -> Self {
        CleanerError::Json(err)
    }
}

impl From<toml::de::Error> for CleanerError {
    fn from(err: toml::de::Error) -> (r: Self) {
        CleanerError::Toml(err)
    }
}

impl FromSpecImpl<toml::de::Error> for CleanerError {
    open spec fn obeys_from_spec() -> bool {
        true
    }

    open spec fn from_spec(err: toml::de::Error) -> Self {
        CleanerError::Toml(err)
    }
}

impl From<toml::ser::Error> for CleanerError {
    fn from(err: toml::ser::Error) -> (r: Self) {
        CleanerError::TomlSer(err)
    }
}

impl FromSpecImpl<toml::ser::Error> for CleanerError {
    open spec fn obeys_from_spec() -> bool {
        true
    }

    open spec fn from_spec(err: toml::ser::Error) -> Self {
        CleanerError::TomlSer(err)
    }
}

/// What is printed in front of an outside error's own text, and what that text
/// may be.
pub open spec fn outside_message(e: CleanerError, lead: Seq<char>, text: String) -> bool {
    match e {
        CleanerError::Io(o) => lead == "I/O error: "@
            && vstd::string::to_string_from_display_ensures(&o, text),
        CleanerError::Json(o) => lead == "JSON parse error: "@
            && vstd::string::to_string_from_display_ensures(&o, text),
        CleanerError::Toml(o) => lead == "TOML decode error: "@
            && vstd::string::to_string_from_display_ensures(&o, text),
        CleanerError::TomlSer(o) => lead == "TOML encode error: "@
            && vstd::string::to_string_from_display_ensures(&o, text),
        _ => false,
    }
}

/// The message of an error that holds no outside error.
pub open spec fn own_message(e: CleanerError) -> Seq<char> {
    match e {
        CleanerError::Ipc(m) => "IPC error: "@ + m@,
        CleanerError::Config(m) => "Configuration error: "@ + m@,
        CleanerError::ConfigError(m) => "Configuration error: "@ + m@,
        CleanerError::SafetyViolation(m) => "Safety violation: "@ + m@,
        CleanerError::Storage(m) => "Storage error: "@ + m@,
        CleanerError::ResourceExhausted(m) => "Resource exhausted: "@ + m@,
        CleanerError::PlanBudgetExceeded { count, limit } =>
            "Plan budget exceeded: candidate count "@ + numerals::decimal(count as nat)
                + " exceeds limit "@ + numerals::decimal(limit as nat),
        CleanerError::PlanValidationFailed(m) => "Plan validation failed: "@ + m@,
        CleanerError::Internal(m) => "Internal error: "@ + m@,
        CleanerError::DaemonAlreadyRunning(pid) => "Daemon is already running with PID "@
            + numerals::decimal(pid as nat),
        CleanerError::DaemonNotRunning => "Daemon is not running"@,
        CleanerError::Platform(m) => "Platform error: "@ + m@,
        CleanerError::Cancelled => "Operation was cancelled / preempted"@,
        CleanerError::Other(m) => "Error: "@ + m@,
        _ => Seq::empty(),
    }
}

impl CleanerError {
    /// The error holds an error of an outside crate or of the system.
    pub open spec fn is_outside(self) -> bool {
        self is Io || self is Json || self is Toml || self is TomlSer
    }

    /// The text shown to the user.
    pub fn message(&self) -> (r: String)
        ensures
            !self.is_outside() ==> r@ == own_message(*self),
            self.is_outside() ==> exists|lead: Seq<char>, text: String| #[trigger]
                outside_message(*self, lead, text) && r@ == lead + text@,
    {
        match self {
            CleanerError::Io(e) => {
                let text = e.to_string();
                assert(outside_message(*self, "I/O error: "@, text));
                text::with_lead("I/O error: ", text.as_str())
            },
            CleanerError::Json(e) => {
                let text = e.to_string();
                assert(outside_message(*self, "JSON parse error: "@, text));
                text::with_lead("JSON parse error: ", text.as_str())
            },
            CleanerError::Toml(e) => {
                let text = e.to_string();
                assert(outside_message(*self, "TOML decode error: "@, text));
                text::with_lead("TOML decode error: ", text.as_str())
            },
            CleanerError::TomlSer(e) => {
                let text = e.to_string();
                assert(outside_message(*self, "TOML encode error: "@, text));
                text::with_lead("TOML encode error: ", text.as_str())
            },
            CleanerError::Ipc(m) => text::with_lead("IPC error: ", m.as_str()),
            CleanerError::Config(m) => text::with_lead("Configuration error: ", m.as_str()),
            CleanerError::ConfigError(m) => text::with_lead("Configuration error: ", m.as_str()),
            CleanerError::SafetyViolation(m) => text::with_lead("Safety violation: ", m.as_str()),
            CleanerError::Storage(m) => text::with_lead("Storage error: ", m.as_str()),
            CleanerError::ResourceExhausted(m) => text::with_lead(
                "Resource exhausted: ",
                m.as_str(),
            ),
            CleanerError::PlanBudgetExceeded { count, limit } => {
                let mut r = text::with_lead(
                    "Plan budget exceeded: candidate count ",
                    numerals::decimal_text(*count as u64).as_str(),
                );
                r.append(" exceeds limit ");
                r.append(numerals::decimal_text(*limit as u64).as_str());
                r
            },
            CleanerError::PlanValidationFailed(m) => text::with_lead(
                "Plan validation failed: ",
                m.as_str(),
            ),
            CleanerError::Internal(m) => text::with_lead("Internal error: ", m.as_str()),
            CleanerError::DaemonAlreadyRunning(pid) => text::with_lead(
                "Daemon is already running with PID ",
                numerals::decimal_text(*pid as u64).as_str(),
            ),
            CleanerError::DaemonNotRunning => "Daemon is not running".to_owned(),
            CleanerError::Platform(m) => text::with_lead("Platform error: ", m.as_str()),
            CleanerError::Cancelled => "Operation was cancelled / preempted".to_owned(),
            CleanerError::Other(m) => text::with_lead("Error: ", m.as_str()),
        }
    }
}

/// The message of an error names its kind in front of what is told.
pub proof fn law_messages_name_the_kind(e: &CleanerError, r: String)
    requires
        call_ensures(CleanerError::message, (e,), r),
    ensures
        *e matches CleanerError::Ipc(m) ==> r@ == "IPC error: "@ + m@,
        *e matches CleanerError::Config(m) ==> r@ == "Configuration error: "@ + m@,
        *e matches CleanerError::ConfigError(m) ==> r@ == "Configuration error: "@ + m@,
        *e matches CleanerError::SafetyViolation(m) ==> r@ == "Safety violation: "@ + m@,
        *e matches CleanerError::Storage(m) ==> r@ == "Storage error: "@ + m@,
        *e matches CleanerError::ResourceExhausted(m) ==> r@ == "Resource exhausted: "@ + m@,
        *e matches CleanerError::PlanValidationFailed(m) ==> r@ == "Plan validation failed: "@ + m@,
        *e matches CleanerError::Internal(m) ==> r@ == "Internal error: "@ + m@,
        *e matches CleanerError::Platform(m) ==> r@ == "Platform error: "@ + m@,
        *e matches CleanerError::Other(m) ==> r@ == "Error: "@ + m@,
        *e is DaemonNotRunning ==> r@ == "Daemon is not running"@,
        *e is Cancelled ==> r@ == "Operation was cancelled / preempted"@,
        *e matches CleanerError::DaemonAlreadyRunning(pid) ==> r@
            == "Daemon is already running with PID "@ + numerals::decimal(pid as nat),
        *e matches CleanerError::PlanBudgetExceeded { count, limit } ==> r@
            == "Plan budget exceeded: candidate count "@ + numerals::decimal(count as nat)
            + " exceeds limit "@ + numerals::decimal(limit as nat),
        *e is Io ==> text::has_prefix(r@, "I/O error: "@),
        *e is Json ==> text::has_prefix(r@, "JSON parse error: "@),
        *e is Toml ==> text::has_prefix(r@, "TOML decode error: "@),
        *e is TomlSer ==> text::has_prefix(r@, "TOML encode error: "@),
{
    if e.is_outside() {
        let (lead, tail) = choose|lead: Seq<char>, text: String| #[trigger]
            outside_message(*e, lead, text) && r@ == lead + text@;
        assert(r@.subrange(0, lead.len() as int) =~= lead);
    }
}

/// An error of the system or of a crate is carried as it is.
pub proof fn law_outside_errors_are_carried(
    io: std::io::Error,
    json: serde_json::Error,
    toml: toml::de::Error,
    ser: toml::ser::Error,
    a: CleanerError,
    b: CleanerError,
    c: CleanerError,
    d: CleanerError,
)
    requires
        call_ensures(<CleanerError as From<std::io::Error>>::from, (io,), a),
        call_ensures(<CleanerError as From<serde_json::Error>>::from, (json,), b),
        call_ensures(<CleanerError as From<toml::de::Error>>::from, (toml,), c),
        call_ensures(<CleanerError as From<toml::ser::Error>>::from, (ser,), d),
    ensures
        a == CleanerError::Io(io),
        b == CleanerError::Json(json),
        c == CleanerError::Toml(toml),
        d == CleanerError::TomlSer(ser),
{
}

} // verus!
