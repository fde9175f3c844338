//! Core of a plugin client that talks to a host application over a
//! persistent socket carrying tagged JSON text frames.
//!
//! The library is organised around five components: the wire value model
//! and its grammar ([`value`], [`wire`]), the tagged message codec and
//! the protocol data types ([`codec`], [`protocol`]), the correlation
//! registry that matches inbound events to pending requests by predicate
//! ([`subscription`]), the session handle used to issue commands
//! ([`session`]), and the pure decision logic of the transport pump and
//! the dispatch loop ([`pump`], [`dispatch`]). The registry's
//! first-match policy, the codec's round trip and the pump's write
//! ordering are stated and proved in their modules.

pub mod codec;
pub mod dispatch;
pub mod plugin;
pub mod protocol;
pub mod pump;
pub mod session;
pub mod subscription;
pub mod value;
pub mod wire;

pub use plugin::Plugin;
pub use protocol::{ActionId, ClientPluginMessage, DeepLinkContext, DeviceId, DeviceIndicator,
    DisplayContext, FolderId, InspectorContext, LabelAlign, PluginId, ProfileId,
    ServerPluginMessage, TileConfig, TileIcon, TileIconOptions, TileId, TileInteractionContext,
    TileLabel, TileModel, TilePosition, Uid};
pub use session::{Display, Inspector, PluginSessionHandle, SessionError};
pub use subscription::{EventPredicate, Subscriber, Subscriptions};
pub use value::Value;
