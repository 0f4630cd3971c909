//! The server's settings and the errors that stop it.
use vstd::prelude::*;

use crate::generator::{generator_error_text, GeneratorError};
use crate::network::{network_error_text, NetworkError};

verus! {

/// Port listened on, unless the command line says otherwise.
pub const DEFAULT_PORT: u16 = 8080;

/// Seconds a stream waits for a ping, unless the command line says otherwise.
pub const DEFAULT_PING_TIMEOUT_SECS: u64 = 10;

/// Milliseconds between two quote batches, unless the command line says otherwise.
pub const DEFAULT_GENERATE_MS: u64 = 500;

/// The server's settings.
pub struct Args {
    /// Port listened on.
    pub port: u16,
    /// Seconds a stream waits for a ping.
    pub timeout: u64,
    /// Milliseconds between two quote batches.
    pub generate_ms: u64,
}

impl Default for Args {
    /// The settings when the command line gives none.
    fn default() -> (a: Args)
        ensures
            a.port == DEFAULT_PORT,
            a.timeout == DEFAULT_PING_TIMEOUT_SECS,
            a.generate_ms == DEFAULT_GENERATE_MS,
    {
        Args { port: DEFAULT_PORT, timeout: DEFAULT_PING_TIMEOUT_SECS, generate_ms: DEFAULT_GENERATE_MS }
    }
}

/// Why the server stopped.
pub enum AppError {
    JoinError,
    CtrlCHandlerError,
    GeneratorError(GeneratorError),
    NetworkError(NetworkError),
}

/// The message of each server error.
pub open spec fn app_error_text(e: AppError) -> Seq<char> {
    match e {
        AppError::JoinError => "Ошибка при ожидании завершения потоков"@,
        AppError::CtrlCHandlerError => "Ошибка при установке обработчика сигналов"@,
        AppError::GeneratorError(g) => "Ошибка генератора: "@ + generator_error_text(g),
        AppError::NetworkError(n) => "Ошибка прослушивания: "@ + network_error_text(n),
    }
}

impl AppError {
    /// The message of this error.
    pub fn message(&self) -> (s: String)
        ensures
            s@ == app_error_text(*self),
    {
        match self {
            AppError::JoinError => String::from_str("Ошибка при ожидании завершения потоков"),
            AppError::CtrlCHandlerError => String::from_str(
                "Ошибка при установке обработчика сигналов",
            ),
            AppError::GeneratorError(g) => {
                let mut s = String::from_str("Ошибка генератора: ");
                s.append(g.message());
                s
            },
            AppError::NetworkError(n) => {
                let mut s = String::from_str("Ошибка прослушивания: ");
                s.append(n.message());
                s
            },
        }
    }
}

} // verus!
