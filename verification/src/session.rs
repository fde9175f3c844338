//! The session handle: the shareable facade callers use to issue
//! commands, fire-and-forget or as the sending half of an awaited call.
//!
//! A handle owns a producer end of the outbound queue. Sending encodes
//! the command with the verified codec and enqueues the wire text; the
//! transport pump drains the queue onto the socket in submission order.

use crate::codec::{encode_client, string_of_chars};
use crate::protocol::{ClientPluginMessage, InspectorContext, DisplayContext, PluginId,
    ServerPluginMessage, SServerPluginMessage, TileIcon, TileId, TileLabel};
use crate::subscription::{lemma_wf_ids_below, EventPredicate, Subscriber, Subscriptions};
use crate::value::Value;
use vstd::prelude::*;

verus! {

/// What can go wrong for a caller of the session.
#[derive(Debug, PartialEq, Eq, Structural, Clone, Copy)]
pub enum SessionError {
    /// The transport pump is gone, or the registry was torn down: the
    /// command or the awaited reply has no live counterpart.
    Closed,
    /// An event matched a caller's predicate but did not have the shape
    /// the caller expected.
    UnexpectedMessage,
}

#[verifier::external_type_specification]
#[verifier::external_body]
#[verifier::reject_recursive_types(T)]
pub struct ExUnboundedSender<T>(tokio::sync::mpsc::UnboundedSender<T>);

/// Relies on `tokio::sync::mpsc::UnboundedSender::send`: while the
/// receiver lives the frame is appended to the channel in submission
/// order and the call returns at once with success; when the receiver
/// is gone the frame comes back in the error.
#[verifier::external_body]
fn queue_frame(tx: &tokio::sync::mpsc::UnboundedSender<String>, frame: String) -> (r: Result<
    (),
    String,
>)
    ensures
        r matches Err(f) ==> f == frame,
{
    tx.send(frame).map_err(|e| e.0)
}

/// Handle for sending commands on behalf of the plugin. Any number of
/// clones may be used concurrently; the outbound queue keeps their
/// frames in submission order.
pub struct PluginSessionHandle {
    tx: tokio::sync::mpsc::UnboundedSender<String>,
}

impl Clone for PluginSessionHandle {
    /// Relies on `tokio::sync::mpsc::UnboundedSender::clone`: another
    /// producer handle for the same channel.
    #[verifier::external_body]
    fn clone(&self) -> (r: Self) {
        PluginSessionHandle { tx: self.tx.clone() }
    }
}

impl PluginSessionHandle {
    /// A handle over the producer end of the outbound queue.
    pub fn new(tx: tokio::sync::mpsc::UnboundedSender<String>) -> (r: PluginSessionHandle) {
        PluginSessionHandle { tx }
    }

    /// Encodes a command and enqueues its wire text. Fails with
    /// `Closed` exactly when the queue's consumer, the transport pump,
    /// is gone; it never blocks.
    pub fn send_message(&self, msg: &ClientPluginMessage) -> (r: Result<(), SessionError>)
        ensures
            r matches Err(e) ==> e == SessionError::Closed,
    {
        let text = encode_client(msg);
        let frame = string_of_chars(&text);
        match queue_frame(&self.tx, frame) {
            Ok(()) => Ok(()),
            Err(_) => Err(SessionError::Closed),
        }
    }

    /// Registers the plugin with the host.
    pub fn register(&self, plugin_id: PluginId) -> (r: Result<(), SessionError>)
        ensures
            r matches Err(e) ==> e == SessionError::Closed,
    {
        self.send_message(&ClientPluginMessage::RegisterPlugin { plugin_id })
    }

    /// Asks the host for the current plugin properties; the reply
    /// arrives as a properties event.
    pub fn request_properties(&self) -> (r: Result<(), SessionError>)
        ensures
            r matches Err(e) ==> e == SessionError::Closed,
    {
        self.send_message(&ClientPluginMessage::GetProperties)
    }

    /// Stores the plugin properties, replacing them.
    pub fn set_properties(&self, properties: Value) -> (r: Result<(), SessionError>)
        ensures
            r matches Err(e) ==> e == SessionError::Closed,
    {
        self.send_message(&ClientPluginMessage::SetProperties { properties, partial: false })
    }

    /// Stores plugin properties as a partial update, merging them into
    /// the stored object.
    pub fn set_properties_partial(&self, properties: Value) -> (r: Result<(), SessionError>)
        ensures
            r matches Err(e) ==> e == SessionError::Closed,
    {
        self.send_message(&ClientPluginMessage::SetProperties { properties, partial: true })
    }

    /// Asks the host for the properties of one tile; the reply arrives
    /// as a tile properties event for that tile.
    pub fn request_tile_properties(&self, tile_id: TileId) -> (r: Result<(), SessionError>)
        ensures
            r matches Err(e) ==> e == SessionError::Closed,
    {
        self.send_message(&ClientPluginMessage::GetTileProperties { tile_id })
    }

    /// Stores the properties of one tile, replacing them.
    pub fn set_tile_properties(&self, tile_id: TileId, properties: Value) -> (r: Result<
        (),
        SessionError,
    >)
        ensures
            r matches Err(e) ==> e == SessionError::Closed,
    {
        self.send_message(
            &ClientPluginMessage::SetTileProperties { tile_id, properties, partial: false },
        )
    }

    /// Stores properties of one tile as a partial update.
    pub fn set_tile_properties_partial(&self, tile_id: TileId, properties: Value) -> (r: Result<
        (),
        SessionError,
    >)
        ensures
            r matches Err(e) ==> e == SessionError::Closed,
    {
        self.send_message(
            &ClientPluginMessage::SetTileProperties { tile_id, properties, partial: true },
        )
    }

    /// Sets the icon of one tile.
    pub fn set_tile_icon(&self, tile_id: TileId, icon: TileIcon) -> (r: Result<(), SessionError>)
        ensures
            r matches Err(e) ==> e == SessionError::Closed,
    {
        self.send_message(&ClientPluginMessage::SetTileIcon { tile_id, icon })
    }

    /// Sets the label of one tile.
    pub fn set_tile_label(&self, tile_id: TileId, label: TileLabel) -> (r: Result<
        (),
        SessionError,
    >)
        ensures
            r matches Err(e) ==> e == SessionError::Closed,
    {
        self.send_message(&ClientPluginMessage::SetTileLabel { tile_id, label })
    }

    /// Sends a payload to the inspector window at the given context.
    pub fn send_to_inspector(&self, ctx: InspectorContext, msg: Value) -> (r: Result<
        (),
        SessionError,
    >)
        ensures
            r matches Err(e) ==> e == SessionError::Closed,
    {
        self.send_message(&ClientPluginMessage::SendToInspector { ctx, message: msg })
    }

    /// Asks the host to open a URL in the default browser.
    pub fn open_url(&self, url: String) -> (r: Result<(), SessionError>)
        ensures
            r matches Err(e) ==> e == SessionError::Closed,
    {
        self.send_message(&ClientPluginMessage::OpenUrl { url })
    }

    /// The sending half of an awaited call: registers the waiter first
    /// and only then sends the command, so a reply can never arrive
    /// before its waiter is in place. On success the registered
    /// waiter's number is returned; if the pump is gone the waiter is
    /// withdrawn again and the registry is left as it was.
    pub fn begin_call(
        &self,
        registry: &mut Subscriptions,
        filter: EventPredicate,
        slot: tokio::sync::oneshot::Sender<ServerPluginMessage>,
        command: &ClientPluginMessage,
    ) -> (r: Result<u64, SessionError>)
        requires
            old(registry).wf(),
            old(registry).next() < 0xffff_ffff_ffff_ffff,
        ensures
            final(registry).wf(),
            match r {
                Ok(id) => final(registry)@ == old(registry)@.push((id, filter@)),
                Err(e) => e == SessionError::Closed && final(registry)@ == old(registry)@,
            },
    {
        let ghost filter_view = filter@;
        let id = registry.add(Subscriber::new(filter, slot));
        match self.send_message(command) {
            Ok(()) => Ok(id),
            Err(e) => {
                registry.remove(id);
                proof {
                    lemma_wf_ids_below(old(registry));
                    let v = old(registry)@.push((id, filter_view));
                    assert forall|i: int| 0 <= i < old(registry)@.len() implies (#[trigger] old(
                        registry,
                    )@[i]).0 != id by {
                        assert(old(registry)@[i].0 < id);
                    }
                    assert((exists|i: int| 0 <= i < v.len() && (#[trigger] v[i]).0 == id)) by {
                        assert(v[v.len() - 1].0 == id);
                    }
                    let w = choose|i: int| 0 <= i < v.len() && (#[trigger] v[i]).0 == id;
                    assert(w == v.len() - 1);
                    assert(final(registry)@ =~= old(registry)@);
                }
                Err(e)
            },
        }
    }
}

/// The reply of a properties call: the properties payload of the
/// matched event, or the unexpected-message error when the matched
/// event does not carry plugin properties.
pub fn extract_properties(event: ServerPluginMessage) -> (r: Result<Value, SessionError>)
    ensures
        match event@ {
            SServerPluginMessage::Properties { properties } => r matches Ok(v) && v.deep_view()
                == properties,
            _ => r == Err::<Value, SessionError>(SessionError::UnexpectedMessage),
        },
{
    match event {
        ServerPluginMessage::Properties { properties } => Ok(properties),
        _ => Err(SessionError::UnexpectedMessage),
    }
}

/// The reply of a tile properties call: the properties payload of the
/// matched event for exactly the requested tile, or the
/// unexpected-message error otherwise.
pub fn extract_tile_properties(event: ServerPluginMessage, tile_id: &TileId) -> (r: Result<
    Value,
    SessionError,
>)
    ensures
        match event@ {
            SServerPluginMessage::TileProperties { tile_id: t, properties } => if t == tile_id@ {
                r matches Ok(v) && v.deep_view() == properties
            } else {
                r == Err::<Value, SessionError>(SessionError::UnexpectedMessage)
            },
            _ => r == Err::<Value, SessionError>(SessionError::UnexpectedMessage),
        },
{
    match event {
        ServerPluginMessage::TileProperties { tile_id: t, properties } => {
            if t.same(tile_id) {
                Ok(properties)
            } else {
                Err(SessionError::UnexpectedMessage)
            }
        },
        _ => Err(SessionError::UnexpectedMessage),
    }
}

/// Reference to an inspector window that can be used to send messages.
pub struct Inspector {
    /// Session the inspector is reached through.
    pub session: PluginSessionHandle,
    /// Addressing context of the inspector window.
    pub ctx: InspectorContext,
}

impl Inspector {
    /// Sends a payload to this inspector window.
    pub fn send(&self, msg: Value) -> (r: Result<(), SessionError>)
        ensures
            r matches Err(e) ==> e == SessionError::Closed,
    {
        self.session.send_message(
            &ClientPluginMessage::SendToInspector { ctx: self.ctx.dup(), message: msg },
        )
    }
}

/// Reference to a device display surface that can be used to send
/// messages.
pub struct Display {
    /// Session the display is reached through.
    pub session: PluginSessionHandle,
    /// Addressing context of the display.
    pub ctx: DisplayContext,
}

impl Display {
    /// Sends a payload to this display.
    pub fn send(&self, msg: Value) -> (r: Result<(), SessionError>)
        ensures
            r matches Err(e) ==> e == SessionError::Closed,
    {
        self.session.send_message(
            &ClientPluginMessage::SendToDisplay { ctx: self.ctx.dup(), message: msg },
        )
    }
}

} // verus!
