//! The errors of the client.
use crate::text::{decimal, push_decimal};
use vstd::prelude::*;
use vstd::string::StringExecFns;

verus! {

/// Everything that can go wrong, as text where the cause is an outside error.
#[derive(Debug)]
pub enum AppError {
    /// The configuration could not be read or written.
    Config(String),
    /// The server could not be reached or answered with an HTTP error.
    Network(String),
    /// The server reported an error of the Subsonic API.
    Api { code: i32, message: String },
    /// The audio output failed.
    Audio(String),
    /// The cache database failed.
    Database(String),
    /// A file operation failed.
    Io { path: String, detail: String },
    /// Anything else.
    Other(String),
}

/// The decimal notation of an integer, with a minus sign when negative.
pub open spec fn signed_decimal(n: int) -> Seq<char> {
    if n < 0 {
        "-"@ + decimal((-n) as nat)
    } else {
        decimal(n as nat)
    }
}

/// Appends the decimal notation of `n`.
pub fn push_signed(s: &mut String, n: i32)
    ensures
        final(s)@ == old(s)@ + signed_decimal(n as int),
{
    if n < 0 {
        s.append("-");
        let m: i64 = n as i64;
        push_decimal(s, (-m) as u64);
        assert(final(s)@ =~= old(s)@ + signed_decimal(n as int));
    } else {
        push_decimal(s, n as u64);
    }
}

/// The text an error is shown with.
pub open spec fn error_text(e: AppError) -> Seq<char> {
    match e {
        AppError::Config(m) => "config: "@ + m@,
        AppError::Network(m) => "network: "@ + m@,
        AppError::Api { code, message } => "Subsonic API ("@ + signed_decimal(code as int) + "): "@
            + message@,
        AppError::Audio(m) => "audio: "@ + m@,
        AppError::Database(m) => "database: "@ + m@,
        AppError::Io { path, detail } => "IO ("@ + path@ + "): "@ + detail@,
        AppError::Other(m) => m@,
    }
}

impl AppError {
    /// The text the error is shown with.
    pub fn message(&self) -> (r: String)
        ensures
            r@ == error_text(*self),
    {
        match self {
            AppError::Config(m) => {
                let mut s = "config: ".to_owned();
                s.append(m.as_str());
                s
            },
            AppError::Network(m) => {
                let mut s = "network: ".to_owned();
                s.append(m.as_str());
                s
            },
            AppError::Api { code, message } => {
                let mut s = "Subsonic API (".to_owned();
                push_signed(&mut s, *code);
                s.append("): ");
                s.append(message.as_str());
                assert(s@ =~= error_text(*self));
                s
            },
            AppError::Audio(m) => {
                let mut s = "audio: ".to_owned();
                s.append(m.as_str());
                s
            },
            AppError::Database(m) => {
                let mut s = "database: ".to_owned();
                s.append(m.as_str());
                s
            },
            AppError::Io { path, detail } => {
                let mut s = "IO (".to_owned();
                s.append(path.as_str());
                s.append("): ");
                s.append(detail.as_str());
                assert(s@ =~= error_text(*self));
                s
            },
            AppError::Other(m) => m.clone(),
        }
    }
}

} // verus!
