//! Client-side core for watching unit lifecycle events on the nodes of a
//! BlueChi controller.
//!
//! The library holds everything that can be decided without touching the bus:
//! the registry of monitor sessions and property listeners, the decoding of
//! incoming notifications into typed events, the routing of each event to the
//! callbacks registered for it, and the step function of the event loop.
//! The program around it owns the connection, performs the calls and runs the
//! callbacks.
pub mod text;
pub mod event;
pub mod payload;
pub mod wire;
pub mod decode;
pub mod subscription;
pub mod registry;
pub mod dispatch;
pub mod laws;
pub mod event_loop;
pub mod error;
pub mod nodes;

pub use event::{
    Event, PropertyChanged, PropertyValue, SignalKind, UnitNewSignal,
    UnitPropertiesChangedSignal, UnitRemovedSignal, UnitStateChangedSignal,
};
pub use payload::{Field, Item, Notification, Property};
pub use wire::read_payload;
pub use decode::{decode, decode_unit_signal, read_texts, DecodeError, Decoded, PropertiesChange};
pub use subscription::{covers, pattern_matches, Subscription, WILDCARD};
pub use registry::{CallbackId, MonitorSession, Registration, Registry, RegistryError, Target};
pub use dispatch::{route, BatchDispatch, Delivery, Dispatch, Outcome};
pub use event_loop::{EventLoop, Next, PumpOutcome, Step, StopReason};
pub use error::{MonitorError, Reach};
pub use nodes::{Node, NodeDirectory, RemoteHandle, STATUS_PROPERTY};
