//! The application-facing callback surface: the dispatch loop hands each
//! event that no waiter consumed to the methods of this trait.

use crate::protocol::{DeepLinkContext, DeviceId, TileId, TileInteractionContext, TileModel};
use crate::session::{Display, Inspector, PluginSessionHandle};
use crate::value::Value;
use vstd::prelude::*;

verus! {

/// Trait implemented by a plugin. Every method has an empty default
/// body; a plugin overrides the ones it cares about. A method must not
/// block the dispatch loop for long.
pub trait Plugin {
    /// The plugin is registered with the host and the session is usable.
    fn on_registered(&mut self, session: &PluginSessionHandle) {
    }

    /// The current plugin properties arrived.
    fn on_properties(&mut self, session: &PluginSessionHandle, properties: Value) {
    }

    /// The properties of one tile arrived.
    fn on_tile_properties(
        &mut self,
        session: &PluginSessionHandle,
        tile_id: TileId,
        properties: Value,
    ) {
    }

    /// A payload arrived from the inspector window.
    fn on_inspector_message(
        &mut self,
        session: &PluginSessionHandle,
        inspector: Inspector,
        message: Value,
    ) {
    }

    /// The inspector window opened.
    fn on_inspector_open(&mut self, session: &PluginSessionHandle, inspector: Inspector) {
    }

    /// The inspector window closed.
    fn on_inspector_close(&mut self, session: &PluginSessionHandle, inspector: Inspector) {
    }

    /// A payload arrived from a device display.
    fn on_display_message(
        &mut self,
        session: &PluginSessionHandle,
        display: Display,
        message: Value,
    ) {
    }

    /// A deep link addressed to the plugin arrived.
    fn on_deep_link(&mut self, session: &PluginSessionHandle, ctx: DeepLinkContext) {
    }

    /// A tile was clicked on a device.
    fn on_tile_clicked(
        &mut self,
        session: &PluginSessionHandle,
        ctx: TileInteractionContext,
        properties: Value,
    ) {
    }

    /// The tiles of one device changed.
    fn on_device_tiles(
        &mut self,
        session: &PluginSessionHandle,
        device_id: DeviceId,
        tiles: Vec<TileModel>,
    ) {
    }

    /// The list of visible tiles arrived.
    fn on_visible_tiles(&mut self, session: &PluginSessionHandle, tiles: Vec<TileModel>) {
    }
}

} // verus!
