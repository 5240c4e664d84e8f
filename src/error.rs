use vstd::prelude::*;

verus! {

/// The ways one session attempt can fail.
#[derive(Debug)]
pub enum AppError {
    /// The connection could not be opened, closed early, or a read or write failed.
    Transport(String),
    /// Received bytes do not form a well-formed frame.
    Protocol(String),
    /// The remote service reported that the session failed, with its message verbatim.
    SessionFailed(String),
    /// The caller supplied nothing to synthesize, or a value that cannot be sent.
    InvalidInput(String),
}

/// The variant of an error, without its text.
#[derive(Clone, Copy, Debug, PartialEq, Eq, Structural)]
pub enum ErrorKind {
    Transport,
    Protocol,
    SessionFailed,
    InvalidInput,
}

impl AppError {
    pub open spec fn kind(&self) -> ErrorKind {
        match self {
            AppError::Transport(_) => ErrorKind::Transport,
            AppError::Protocol(_) => ErrorKind::Protocol,
            AppError::SessionFailed(_) => ErrorKind::SessionFailed,
            AppError::InvalidInput(_) => ErrorKind::InvalidInput,
        }
    }

    /// The text carried by the error.
    pub open spec fn message_view(&self) -> Seq<char> {
        match self {
            AppError::Transport(m) => m@,
            AppError::Protocol(m) => m@,
            AppError::SessionFailed(m) => m@,
            AppError::InvalidInput(m) => m@,
        }
    }

    pub fn message(&self) -> (r: String)
        ensures
            r@ == self.message_view(),
    {
        match self {
            AppError::Transport(m) => m.clone(),
            AppError::Protocol(m) => m.clone(),
            AppError::SessionFailed(m) => m.clone(),
            AppError::InvalidInput(m) => m.clone(),
        }
    }

    /// A copy of the error, same variant and same text.
    pub fn duplicate(&self) -> (r: AppError)
        ensures
            r == *self,
    {
        match self {
            AppError::Transport(m) => AppError::Transport(m.clone()),
            AppError::Protocol(m) => AppError::Protocol(m.clone()),
            AppError::SessionFailed(m) => AppError::SessionFailed(m.clone()),
            AppError::InvalidInput(m) => AppError::InvalidInput(m.clone()),
        }
    }
}

} // verus!
