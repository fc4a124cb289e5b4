//! Why an I/O operation failed and why a session ended.

use vstd::prelude::*;

verus! {

/// How an I/O operation failed, as far as the monitor tells failures apart.
#[derive(Clone, Copy, Debug, PartialEq, Eq, Structural)]
pub enum IoErrorKind {
    ConnectionReset,
    UnexpectedEof,
    BrokenPipe,
    Other,
}

/// Why a session ended, or why there was none.
#[derive(Clone, Copy, Debug, PartialEq, Eq, Structural)]
pub enum DisconnectReason {
    /// The remote side closed the connection.
    RemoteClose,
    /// The connection was reset.
    ConnectionReset,
    /// Nothing came for too long.
    Timeout,
    /// An error on this host.
    LocalError,
    /// The connection could not be established.
    ConnectFailed,
}

impl DisconnectReason {
    /// The value of the `reason` label.
    pub open spec fn text(self) -> Seq<char> {
        match self {
            DisconnectReason::RemoteClose => "remote_close"@,
            DisconnectReason::ConnectionReset => "connection_reset"@,
            DisconnectReason::Timeout => "timeout"@,
            DisconnectReason::LocalError => "local_error"@,
            DisconnectReason::ConnectFailed => "connect_failed"@,
        }
    }

    /// The value of the `reason` label.
    pub fn as_str(self) -> (text: &'static str)
        ensures
            text@ == self.text(),
    {
        match self {
            DisconnectReason::RemoteClose => "remote_close",
            DisconnectReason::ConnectionReset => "connection_reset",
            DisconnectReason::Timeout => "timeout",
            DisconnectReason::LocalError => "local_error",
            DisconnectReason::ConnectFailed => "connect_failed",
        }
    }
}

/// Different reasons have different labels.
pub proof fn law_reasons_told_apart(a: DisconnectReason, b: DisconnectReason)
    ensures
        a.text() == b.text() ==> a == b,
{
    reveal_strlit("remote_close");
    reveal_strlit("connection_reset");
    reveal_strlit("timeout");
    reveal_strlit("local_error");
    reveal_strlit("connect_failed");
    assert("remote_close"@.len() == 12);
    assert("connection_reset"@.len() == 16);
    assert("timeout"@.len() == 7);
    assert("local_error"@.len() == 11);
    assert("connect_failed"@.len() == 14);
}

} // verus!
