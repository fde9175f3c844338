//! The dispatch loop's decision logic.
//!
//! The loop drains the inbound queue: each text frame is decoded, the
//! decoded event is offered to the correlation registry, and an event no
//! waiter consumed is forwarded to the plugin. A frame that does not
//! decode is dropped without touching the registry and without stopping
//! the loop. When the inbound queue closes, the loop tears the registry
//! down, which resolves every pending call with the session-closed
//! outcome.

use crate::codec::{decode_event, decode_event_text};
use crate::plugin::Plugin;
use crate::protocol::ServerPluginMessage;
use crate::session::{PluginSessionHandle, SessionError, Display, Inspector};
use crate::subscription::{first_match, has_match, Subscriptions};
use vstd::prelude::*;

verus! {

/// What became of one inbound frame.
#[derive(Debug, PartialEq, Eq)]
pub enum DispatchOutcome {
    /// The frame did not decode to a known event and was dropped.
    Dropped,
    /// The decoded event fulfilled a waiter and was consumed.
    Consumed,
    /// The decoded event matched no waiter; it is for the application.
    Forward(ServerPluginMessage),
}

/// Handles one inbound text frame: decodes it and offers the event to
/// the registry. A frame that does not decode is dropped and the
/// registry is untouched, so later valid frames are unaffected; a
/// decoded event fulfills at most the earliest matching waiter, and an
/// unmatched event is handed back for the plugin.
pub fn dispatch_frame(registry: &mut Subscriptions, text: &Vec<char>) -> (r: DispatchOutcome)
    requires
        old(registry).wf(),
    ensures
        final(registry).wf(),
        match decode_event_text(text@) {
            None => r == DispatchOutcome::Dropped && final(registry)@ == old(registry)@,
            Some(e) => if has_match(old(registry)@, e) {
                &&& r == DispatchOutcome::Consumed
                &&& final(registry)@ == old(registry)@.remove(first_match(old(registry)@, e))
            } else {
                &&& r matches DispatchOutcome::Forward(ev) && ev@ == e
                &&& final(registry)@ == old(registry)@
            },
        },
{
    match decode_event(text) {
        None => DispatchOutcome::Dropped,
        Some(event) => match registry.apply(event) {
            None => DispatchOutcome::Consumed,
            Some(event) => DispatchOutcome::Forward(event),
        },
    }
}

/// Winds the loop down once the inbound queue is closed: tears the
/// registry down without fulfilling any waiter, so every pending call
/// resolves with the session-closed outcome.
pub fn dispatch_end(registry: &mut Subscriptions)
    ensures
        final(registry)@.len() == 0,
        final(registry).wf(),
{
    registry.clear();
}

/// Hands an event that no waiter consumed to the plugin's callback for
/// its kind. Every event reaches its callback and the call succeeds;
/// only the registration event, which also asks the host for the
/// current properties, can report that the outbound queue is gone.
pub fn forward_event<P: Plugin>(
    plugin: &mut P,
    handle: &PluginSessionHandle,
    event: ServerPluginMessage,
) -> (r: Result<(), SessionError>)
    ensures
        r matches Err(e) ==> e == SessionError::Closed,
        !(event matches ServerPluginMessage::Registered { .. }) ==> r is Ok,
{
    match event {
        ServerPluginMessage::Registered { plugin_id: _ } => {
            let sent = handle.request_properties();
            plugin.on_registered(handle);
            sent
        },
        ServerPluginMessage::Properties { properties } => {
            plugin.on_properties(handle, properties);
            Ok(())
        },
        ServerPluginMessage::TileClicked { ctx, properties } => {
            plugin.on_tile_clicked(handle, ctx, properties);
            Ok(())
        },
        ServerPluginMessage::RecvFromInspector { ctx, message } => {
            plugin.on_inspector_message(
                handle,
                Inspector { session: handle.clone(), ctx },
                message,
            );
            Ok(())
        },
        ServerPluginMessage::RecvFromDisplay { ctx, message } => {
            plugin.on_display_message(handle, Display { session: handle.clone(), ctx }, message);
            Ok(())
        },
        ServerPluginMessage::InspectorOpen { ctx } => {
            plugin.on_inspector_open(handle, Inspector { session: handle.clone(), ctx });
            Ok(())
        },
        ServerPluginMessage::InspectorClose { ctx } => {
            plugin.on_inspector_close(handle, Inspector { session: handle.clone(), ctx });
            Ok(())
        },
        ServerPluginMessage::DeepLink { ctx } => {
            plugin.on_deep_link(handle, ctx);
            Ok(())
        },
        ServerPluginMessage::TileProperties { tile_id, properties } => {
            plugin.on_tile_properties(handle, tile_id, properties);
            Ok(())
        },
        ServerPluginMessage::DeviceTiles { device_id, tiles } => {
            plugin.on_device_tiles(handle, device_id, tiles);
            Ok(())
        },
        ServerPluginMessage::VisibleTiles { tiles } => {
            plugin.on_visible_tiles(handle, tiles);
            Ok(())
        },
    }
}

} // verus!
