//! The failures that the client tells apart.
use vstd::prelude::*;
use crate::decode::DecodeError;

verus! {

/// How far a failure reaches.
#[derive(Clone, Copy, Debug, PartialEq, Eq, Structural)]
pub enum Reach {
    /// The failure stays with the one notification that caused it; the
    /// notification is dropped and logged, and the loop goes on.
    Notification,
    /// The failure goes to the caller of the one call that failed; the loop
    /// is not touched.
    Call,
    /// The failure ends the monitoring of this connection and must reach the
    /// operator.
    Connection,
}

/// A failure of the client.
#[derive(Debug, PartialEq, Eq)]
pub enum MonitorError {
    /// The session with the bus could not be set up.
    Connection(String),
    /// The bus or the peer rejected a method call.
    Bus(String),
    /// The controller knows no node of this name.
    NotFound(String),
    /// A notification did not have the shape of its kind.
    Decode(DecodeError),
    /// The connection broke while it was pumped.
    Transport(String),
}

pub enum MonitorErrorView {
    Connection(Seq<char>),
    Bus(Seq<char>),
    NotFound(Seq<char>),
    Decode(DecodeError),
    Transport(Seq<char>),
}

impl View for MonitorError {
    type V = MonitorErrorView;

    open spec fn view(&self) -> MonitorErrorView {
        match self {
            MonitorError::Connection(m) => MonitorErrorView::Connection(m@),
            MonitorError::Bus(m) => MonitorErrorView::Bus(m@),
            MonitorError::NotFound(name) => MonitorErrorView::NotFound(name@),
            MonitorError::Decode(e) => MonitorErrorView::Decode(*e),
            MonitorError::Transport(m) => MonitorErrorView::Transport(m@),
        }
    }
}

impl MonitorErrorView {
    /// How far the failure reaches.
    pub open spec fn reach(self) -> Reach {
        match self {
            MonitorErrorView::Connection(_) => Reach::Connection,
            MonitorErrorView::Transport(_) => Reach::Connection,
            MonitorErrorView::Bus(_) => Reach::Call,
            MonitorErrorView::NotFound(_) => Reach::Call,
            MonitorErrorView::Decode(_) => Reach::Notification,
        }
    }
}

impl MonitorError {
    /// How far the failure reaches.
    pub fn reach(&self) -> (reach: Reach)
        ensures
            reach == self@.reach(),
    {
        match self {
            MonitorError::Connection(_) => Reach::Connection,
            MonitorError::Transport(_) => Reach::Connection,
            MonitorError::Bus(_) => Reach::Call,
            MonitorError::NotFound(_) => Reach::Call,
            MonitorError::Decode(_) => Reach::Notification,
        }
    }

    /// Whether the failure ends the monitoring of this connection.
    pub fn is_fatal(&self) -> (fatal: bool)
        ensures
            fatal == (self@ is Connection || self@ is Transport),
    {
        match self {
            MonitorError::Connection(_) => true,
            MonitorError::Transport(_) => true,
            _ => false,
        }
    }
}

} // verus!
