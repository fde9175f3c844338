//! Protocol data types: identifiers, tile configuration and the tagged
//! command and event messages exchanged with the host.

use crate::value::{SValue, Value};
use vstd::prelude::*;

verus! {

/// A plugin identifier, as the host names plugins.
pub type PluginId = String;

/// An action identifier within a plugin.
pub type ActionId = String;

/// A structured 128-bit identifier in the canonical text form the host
/// uses: five groups of lowercase hexadecimal digits, of lengths
/// 8, 4, 4, 4 and 12, separated by hyphens.
#[derive(Debug, PartialEq, Eq)]
pub struct Uid {
    pub text: Vec<char>,
}

pub type ProfileId = Uid;

pub type FolderId = Uid;

pub type DeviceId = Uid;

pub type TileId = Uid;

/// True of lowercase hexadecimal digit characters.
pub open spec fn is_hex_char(c: char) -> bool {
    (48 <= c as u32 <= 57) || (97 <= c as u32 <= 102)
}

/// True of hexadecimal digit characters of either case.
pub open spec fn is_hex_char_relaxed(c: char) -> bool {
    is_hex_char(c) || (65 <= c as u32 <= 70)
}

/// Well-formedness of an identifier's text: the hyphenated grouping
/// 8-4-4-4-12 with lowercase hexadecimal digits.
pub open spec fn is_wf_uid(s: Seq<char>) -> bool {
    &&& s.len() == 36
    &&& forall|k: int|
        0 <= k < 36 ==> if k == 8 || k == 13 || k == 18 || k == 23 {
            s[k] == '-'
        } else {
            is_hex_char(#[trigger] s[k])
        }
}

/// The identifier grouping with hexadecimal digits of either case: what
/// the parser accepts before folding to the canonical lowercase form.
pub open spec fn is_wf_uid_relaxed(s: Seq<char>) -> bool {
    &&& s.len() == 36
    &&& forall|k: int|
        0 <= k < 36 ==> if k == 8 || k == 13 || k == 18 || k == 23 {
            s[k] == '-'
        } else {
            is_hex_char_relaxed(#[trigger] s[k])
        }
}

/// The uppercase hexadecimal digits folded to lowercase; every other
/// character stands for itself.
pub open spec fn lower_hex_char(c: char) -> char {
    if c == 'A' {
        'a'
    } else if c == 'B' {
        'b'
    } else if c == 'C' {
        'c'
    } else if c == 'D' {
        'd'
    } else if c == 'E' {
        'e'
    } else if c == 'F' {
        'f'
    } else {
        c
    }
}

/// An identifier's text folded to the canonical lowercase form.
pub open spec fn lower_uid(s: Seq<char>) -> Seq<char> {
    Seq::new(s.len(), |k: int| lower_hex_char(s[k]))
}

/// A canonical identifier is unchanged by the fold to lowercase.
pub proof fn lemma_wf_uid_lower(s: Seq<char>)
    requires
        is_wf_uid(s),
    ensures
        lower_uid(s) == s,
{
    assert forall|k: int| 0 <= k < s.len() implies lower_uid(s)[k] == s[k] by {
        if k == 8 || k == 13 || k == 18 || k == 23 {
        } else {
            assert(is_hex_char(s[k]));
        }
    }
    assert(lower_uid(s) =~= s);
}

impl View for Uid {
    type V = Seq<char>;

    open spec fn view(&self) -> Seq<char> {
        self.text@
    }
}

impl Uid {
    /// Well-formedness of the identifier.
    pub open spec fn is_wf(&self) -> bool {
        is_wf_uid(self@)
    }

    /// Accepts a character buffer as an identifier if it has the
    /// hyphenated hexadecimal form in either case, folding it to the
    /// canonical lowercase form, and rejects anything else.
    pub fn parse(text: Vec<char>) -> (r: Option<Uid>)
        ensures
            match r {
                Some(u) => is_wf_uid_relaxed(text@) && u@ == lower_uid(text@) && u.is_wf(),
                None => !is_wf_uid_relaxed(text@),
            },
    {
        if text.len() != 36 {
            return None;
        }
        let mut folded: Vec<char> = Vec::new();
        let mut k: usize = 0;
        while k < 36
            invariant
                k <= 36,
                text@.len() == 36,
                folded@.len() == k,
                forall|j: int| 0 <= j < k ==> #[trigger] folded@[j] == lower_hex_char(text@[j]),
                forall|j: int|
                    0 <= j < k ==> if j == 8 || j == 13 || j == 18 || j == 23 {
                        text@[j] == '-'
                    } else {
                        is_hex_char_relaxed(#[trigger] text@[j])
                    },
            decreases 36 - k,
        {
            let c = text[k];
            if k == 8 || k == 13 || k == 18 || k == 23 {
                if c != '-' {
                    return None;
                }
                folded.push(c);
            } else {
                let u = c as u32;
                if 65 <= u && u <= 70 {
                    folded.push(match c {
                        'A' => 'a',
                        'B' => 'b',
                        'C' => 'c',
                        'D' => 'd',
                        'E' => 'e',
                        _ => 'f',
                    });
                } else if (48 <= u && u <= 57) || (97 <= u && u <= 102) {
                    folded.push(c);
                } else {
                    return None;
                }
            }
            k = k + 1;
        }
        proof {
            assert(folded@ =~= lower_uid(text@));
            assert forall|j: int| 0 <= j < 36 implies (if j == 8 || j == 13 || j == 18 || j
                == 23 {
                folded@[j] == '-'
            } else {
                is_hex_char(#[trigger] folded@[j])
            }) by {
                assert(folded@[j] == lower_hex_char(text@[j]));
            }
        }
        Some(Uid { text: folded })
    }

    /// A copy of the identifier.
    pub fn dup(&self) -> (r: Uid)
        ensures
            r@ == self@,
    {
        let mut text: Vec<char> = Vec::new();
        let mut k: usize = 0;
        while k < self.text.len()
            invariant
                k <= self.text@.len(),
                text@ == self.text@.subrange(0, k as int),
            decreases self.text@.len() - k,
        {
            text.push(self.text[k]);
            assert(text@ =~= self.text@.subrange(0, k as int + 1));
            k = k + 1;
        }
        assert(text@ =~= self.text@);
        Uid { text }
    }

    /// True exactly when the two identifiers have the same text.
    pub fn same(&self, other: &Uid) -> (r: bool)
        ensures
            r == (self@ == other@),
    {
        crate::value::eq_chars(&self.text, &other.text)
    }
}


/// Spec view of an optional string.
pub open spec fn opt_str_view(o: &Option<String>) -> Option<Seq<char>> {
    match o {
        Some(s) => Some(s@),
        None => None,
    }
}

/// Spec view of [`InspectorContext`].
#[verifier::ext_equal]
pub struct SInspectorContext {
    pub profile_id: Seq<char>,
    pub folder_id: Seq<char>,
    pub plugin_id: Seq<char>,
    pub action_id: Seq<char>,
    pub tile_id: Seq<char>,
}

/// Addressing context of an inspector window: which profile, folder,
/// plugin, action and tile it belongs to.
#[derive(Debug, PartialEq, Eq)]
pub struct InspectorContext {
    pub profile_id: ProfileId,
    pub folder_id: FolderId,
    pub plugin_id: PluginId,
    pub action_id: ActionId,
    pub tile_id: TileId,
}

impl View for InspectorContext {
    type V = SInspectorContext;

    open spec fn view(&self) -> SInspectorContext {
        SInspectorContext {
            profile_id: self.profile_id@,
            folder_id: self.folder_id@,
            plugin_id: self.plugin_id@,
            action_id: self.action_id@,
            tile_id: self.tile_id@,
        }
    }
}

impl InspectorContext {
    /// A copy of the context.
    pub fn dup(&self) -> (r: InspectorContext)
        ensures
            r@ == self@,
    {
        InspectorContext {
            profile_id: self.profile_id.dup(),
            folder_id: self.folder_id.dup(),
            plugin_id: self.plugin_id.clone(),
            action_id: self.action_id.clone(),
            tile_id: self.tile_id.dup(),
        }
    }
}

/// Spec view of [`DisplayContext`].
#[verifier::ext_equal]
pub struct SDisplayContext {
    pub device_id: Seq<char>,
    pub plugin_id: Seq<char>,
    pub action_id: Seq<char>,
    pub tile_id: Seq<char>,
}

/// Addressing context of a device display surface.
#[derive(Debug, PartialEq, Eq)]
pub struct DisplayContext {
    pub device_id: DeviceId,
    pub plugin_id: PluginId,
    pub action_id: ActionId,
    pub tile_id: TileId,
}

impl View for DisplayContext {
    type V = SDisplayContext;

    open spec fn view(&self) -> SDisplayContext {
        SDisplayContext {
            device_id: self.device_id@,
            plugin_id: self.plugin_id@,
            action_id: self.action_id@,
            tile_id: self.tile_id@,
        }
    }
}

impl DisplayContext {
    /// A copy of the context.
    pub fn dup(&self) -> (r: DisplayContext)
        ensures
            r@ == self@,
    {
        DisplayContext {
            device_id: self.device_id.dup(),
            plugin_id: self.plugin_id.clone(),
            action_id: self.action_id.clone(),
            tile_id: self.tile_id.dup(),
        }
    }
}

/// Spec view of [`TileInteractionContext`].
#[verifier::ext_equal]
pub struct STileInteractionContext {
    pub device_id: Seq<char>,
    pub plugin_id: Seq<char>,
    pub action_id: Seq<char>,
    pub tile_id: Seq<char>,
}

/// Addressing context of a tile interaction on a device.
#[derive(Debug, PartialEq, Eq)]
pub struct TileInteractionContext {
    pub device_id: DeviceId,
    pub plugin_id: PluginId,
    pub action_id: ActionId,
    pub tile_id: TileId,
}

impl View for TileInteractionContext {
    type V = STileInteractionContext;

    open spec fn view(&self) -> STileInteractionContext {
        STileInteractionContext {
            device_id: self.device_id@,
            plugin_id: self.plugin_id@,
            action_id: self.action_id@,
            tile_id: self.tile_id@,
        }
    }
}

/// Spec view of [`DeepLinkContext`].
#[verifier::ext_equal]
pub struct SDeepLinkContext {
    pub url: Seq<char>,
    pub host: Option<Seq<char>>,
    pub path: Seq<char>,
    pub query: Option<Seq<char>>,
    pub fragment: Option<Seq<char>>,
}

/// Pieces of a deep-link request addressed to the plugin.
#[derive(Debug, PartialEq, Eq)]
pub struct DeepLinkContext {
    pub url: String,
    pub host: Option<String>,
    pub path: String,
    pub query: Option<String>,
    pub fragment: Option<String>,
}

impl View for DeepLinkContext {
    type V = SDeepLinkContext;

    open spec fn view(&self) -> SDeepLinkContext {
        SDeepLinkContext {
            url: self.url@,
            host: opt_str_view(&self.host),
            path: self.path@,
            query: opt_str_view(&self.query),
            fragment: opt_str_view(&self.fragment),
        }
    }
}

/// Position and span of a tile in the device grid.
#[derive(Debug, PartialEq, Eq, Structural, Clone, Copy)]
pub struct TilePosition {
    /// Row within the grid.
    pub row: u32,
    /// Column within the grid.
    pub column: u32,
    /// Number of rows the tile spans.
    pub row_span: u32,
    /// Number of columns the tile spans.
    pub column_span: u32,
}

/// Spec view of [`TileIcon`].
#[verifier::ext_equal]
pub enum STileIcon {
    NoIcon,
    PluginIcon { plugin_id: Seq<char>, icon: Seq<char> },
    IconPack { pack_id: Seq<char>, path: Seq<char> },
    Url { src: Seq<char> },
}

/// Icon shown on a tile.
#[derive(Debug, PartialEq, Eq)]
pub enum TileIcon {
    /// No icon.
    NoIcon,
    /// An icon file shipped by a plugin.
    PluginIcon {
        /// Plugin the icon comes from.
        plugin_id: PluginId,
        /// Path of the icon file within the plugin.
        icon: String,
    },
    /// An icon from an icon pack.
    IconPack {
        /// The icon pack.
        pack_id: String,
        /// Path of the icon file within the pack.
        path: String,
    },
    /// An image at a remote URL.
    Url {
        src: String,
    },
}

impl View for TileIcon {
    type V = STileIcon;

    open spec fn view(&self) -> STileIcon {
        match self {
            TileIcon::NoIcon => STileIcon::NoIcon,
            TileIcon::PluginIcon { plugin_id, icon } => STileIcon::PluginIcon {
                plugin_id: plugin_id@,
                icon: icon@,
            },
            TileIcon::IconPack { pack_id, path } => STileIcon::IconPack {
                pack_id: pack_id@,
                path: path@,
            },
            TileIcon::Url { src } => STileIcon::Url { src: src@ },
        }
    }
}

/// Vertical placement of a tile label.
#[derive(Debug, PartialEq, Eq, Structural, Clone, Copy)]
pub enum LabelAlign {
    Bottom,
    Middle,
    Top,
}

/// Spec view of [`TileLabel`].
#[verifier::ext_equal]
pub struct STileLabel {
    pub enabled: Option<bool>,
    pub label: Option<Seq<char>>,
    pub align: Option<LabelAlign>,
    pub font: Option<Seq<char>>,
    pub font_size: Option<u32>,
    pub bold: Option<bool>,
    pub italic: Option<bool>,
    pub underline: Option<bool>,
    pub outline: Option<bool>,
    pub color: Option<Seq<char>>,
    pub outline_color: Option<Seq<char>>,
}

/// Label drawn over a tile; absent fields keep the host's defaults.
#[derive(Debug, PartialEq, Eq)]
pub struct TileLabel {
    pub enabled: Option<bool>,
    pub label: Option<String>,
    pub align: Option<LabelAlign>,
    pub font: Option<String>,
    pub font_size: Option<u32>,
    pub bold: Option<bool>,
    pub italic: Option<bool>,
    pub underline: Option<bool>,
    pub outline: Option<bool>,
    pub color: Option<String>,
    pub outline_color: Option<String>,
}

impl View for TileLabel {
    type V = STileLabel;

    open spec fn view(&self) -> STileLabel {
        STileLabel {
            enabled: self.enabled,
            label: opt_str_view(&self.label),
            align: self.align,
            font: opt_str_view(&self.font),
            font_size: self.font_size,
            bold: self.bold,
            italic: self.italic,
            underline: self.underline,
            outline: self.outline,
            color: opt_str_view(&self.color),
            outline_color: opt_str_view(&self.outline_color),
        }
    }
}

/// Spec view of [`TileConfig`].
#[verifier::ext_equal]
pub struct STileConfig {
    pub icon: STileIcon,
    pub label: STileLabel,
}

/// Appearance of a tile: its icon and its label.
#[derive(Debug, PartialEq, Eq)]
pub struct TileConfig {
    /// Icon to draw.
    pub icon: TileIcon,
    /// Label to draw over the tile.
    pub label: TileLabel,
}

impl View for TileConfig {
    type V = STileConfig;

    open spec fn view(&self) -> STileConfig {
        STileConfig { icon: self.icon@, label: self.label@ }
    }
}

/// Drawing options of a plugin icon.
#[derive(Debug, PartialEq, Eq)]
pub struct TileIconOptions {
    pub padding: u32,
    pub background_color: String,
    pub border_color: String,
}

/// Spec view of [`TileIconOptions`].
#[verifier::ext_equal]
pub struct STileIconOptions {
    pub padding: u32,
    pub background_color: Seq<char>,
    pub border_color: Seq<char>,
}

impl View for TileIconOptions {
    type V = STileIconOptions;

    open spec fn view(&self) -> STileIconOptions {
        STileIconOptions {
            padding: self.padding,
            background_color: self.background_color@,
            border_color: self.border_color@,
        }
    }
}

/// Spec view of [`TileModel`].
#[verifier::ext_equal]
pub struct STileModel {
    pub id: Seq<char>,
    pub config: STileConfig,
    pub properties: SValue,
    pub folder_id: Seq<char>,
    pub plugin_id: Seq<char>,
    pub action_id: Seq<char>,
    pub position: TilePosition,
}

/// One tile as the host reports it.
#[derive(Debug, PartialEq, Eq)]
pub struct TileModel {
    /// Unique id of the tile.
    pub id: TileId,
    /// Appearance of the tile.
    pub config: TileConfig,
    /// Properties stored on this tile.
    pub properties: Value,
    /// Folder the tile sits in.
    pub folder_id: FolderId,
    /// Plugin the tile's action belongs to.
    pub plugin_id: PluginId,
    /// Action the tile triggers.
    pub action_id: ActionId,
    /// Placement in the grid.
    pub position: TilePosition,
}

impl View for TileModel {
    type V = STileModel;

    open spec fn view(&self) -> STileModel {
        STileModel {
            id: self.id@,
            config: self.config@,
            properties: self.properties.deep_view(),
            folder_id: self.folder_id@,
            plugin_id: self.plugin_id@,
            action_id: self.action_id@,
            position: self.position,
        }
    }
}

/// Spec view of a sequence of tiles, element by element.
pub open spec fn tiles_view(s: Seq<TileModel>) -> Seq<STileModel>
    decreases s,
{
    if s.len() == 0 {
        Seq::<STileModel>::empty()
    } else {
        tiles_view(s.drop_last()).push(s.last()@)
    }
}

pub broadcast proof fn lemma_tiles_view(s: Seq<TileModel>)
    ensures
        #[trigger] tiles_view(s).len() == s.len(),
        forall|i: int| 0 <= i < s.len() ==> tiles_view(s)[i] == s[i]@,
    decreases s.len(),
{
    if s.len() > 0 {
        lemma_tiles_view(s.drop_last());
        assert(tiles_view(s) == tiles_view(s.drop_last()).push(s.last()@));
        assert forall|i: int| 0 <= i < s.len() implies tiles_view(s)[i] == s[i]@ by {
            if i < s.len() - 1 {
                assert(s.drop_last()[i] == s[i]);
                assert(tiles_view(s.drop_last()).push(s.last()@)[i]
                    == tiles_view(s.drop_last())[i]);
            } else {
                assert(tiles_view(s.drop_last()).push(s.last()@)[i] == s.last()@);
            }
        }
    }
}

/// An indicator badge shown briefly on a device tile.
#[derive(Debug, PartialEq, Eq, Structural, Clone, Copy)]
pub enum DeviceIndicator {
    Error,
    Success,
    Warning,
    Loading,
    /// Clear the active indicator.
    NoIndicator,
}

/// Spec view of [`ClientPluginMessage`].
#[verifier::ext_equal]
pub enum SClientPluginMessage {
    RegisterPlugin { plugin_id: Seq<char> },
    GetProperties,
    SetProperties { properties: SValue, partial: bool },
    SendToInspector { ctx: SInspectorContext, message: SValue },
    SendToDisplay { ctx: SDisplayContext, message: SValue },
    OpenUrl { url: Seq<char> },
    GetTileProperties { tile_id: Seq<char> },
    SetTileProperties { tile_id: Seq<char>, properties: SValue, partial: bool },
    SetTileIcon { tile_id: Seq<char>, icon: STileIcon },
    SetTileLabel { tile_id: Seq<char>, label: STileLabel },
    GetVisibleTiles,
    DisplayIndicator {
        device_id: Seq<char>,
        tile_id: Seq<char>,
        indicator: DeviceIndicator,
        duration: u32,
    },
}

/// A command from the plugin to the host, tagged on the wire by its kind.
#[derive(Debug, PartialEq, Eq)]
pub enum ClientPluginMessage {
    /// Register this plugin with the host.
    RegisterPlugin { plugin_id: PluginId },
    /// Ask for the current plugin properties.
    GetProperties,
    /// Store plugin properties, replacing or merging.
    SetProperties { properties: Value, partial: bool },
    /// Send a payload to the inspector window.
    SendToInspector { ctx: InspectorContext, message: Value },
    /// Send a payload to a device display.
    SendToDisplay { ctx: DisplayContext, message: Value },
    /// Ask the host to open a URL.
    OpenUrl { url: String },
    /// Ask for the properties of one tile.
    GetTileProperties { tile_id: TileId },
    /// Store properties of one tile, replacing or merging.
    SetTileProperties { tile_id: TileId, properties: Value, partial: bool },
    /// Set the icon of one tile.
    SetTileIcon { tile_id: TileId, icon: TileIcon },
    /// Set the label of one tile.
    SetTileLabel { tile_id: TileId, label: TileLabel },
    /// Ask for the tiles currently visible.
    GetVisibleTiles,
    /// Show an indicator badge on a device tile.
    DisplayIndicator {
        device_id: DeviceId,
        tile_id: TileId,
        indicator: DeviceIndicator,
        /// How long to show it, in milliseconds.
        duration: u32,
    },
}

impl View for ClientPluginMessage {
    type V = SClientPluginMessage;

    open spec fn view(&self) -> SClientPluginMessage {
        match self {
            ClientPluginMessage::RegisterPlugin { plugin_id } =>
                SClientPluginMessage::RegisterPlugin { plugin_id: plugin_id@ },
            ClientPluginMessage::GetProperties => SClientPluginMessage::GetProperties,
            ClientPluginMessage::SetProperties { properties, partial } =>
                SClientPluginMessage::SetProperties {
                    properties: properties.deep_view(),
                    partial: *partial,
                },
            ClientPluginMessage::SendToInspector { ctx, message } =>
                SClientPluginMessage::SendToInspector {
                    ctx: ctx@,
                    message: message.deep_view(),
                },
            ClientPluginMessage::SendToDisplay { ctx, message } =>
                SClientPluginMessage::SendToDisplay {
                    ctx: ctx@,
                    message: message.deep_view(),
                },
            ClientPluginMessage::OpenUrl { url } => SClientPluginMessage::OpenUrl { url: url@ },
            ClientPluginMessage::GetTileProperties { tile_id } =>
                SClientPluginMessage::GetTileProperties { tile_id: tile_id@ },
            ClientPluginMessage::SetTileProperties { tile_id, properties, partial } =>
                SClientPluginMessage::SetTileProperties {
                    tile_id: tile_id@,
                    properties: properties.deep_view(),
                    partial: *partial,
                },
            ClientPluginMessage::SetTileIcon { tile_id, icon } =>
                SClientPluginMessage::SetTileIcon { tile_id: tile_id@, icon: icon@ },
            ClientPluginMessage::SetTileLabel { tile_id, label } =>
                SClientPluginMessage::SetTileLabel { tile_id: tile_id@, label: label@ },
            ClientPluginMessage::GetVisibleTiles => SClientPluginMessage::GetVisibleTiles,
            ClientPluginMessage::DisplayIndicator { device_id, tile_id, indicator, duration } =>
                SClientPluginMessage::DisplayIndicator {
                    device_id: device_id@,
                    tile_id: tile_id@,
                    indicator: *indicator,
                    duration: *duration,
                },
        }
    }
}

/// Spec view of [`ServerPluginMessage`].
#[verifier::ext_equal]
pub enum SServerPluginMessage {
    Registered { plugin_id: Seq<char> },
    Properties { properties: SValue },
    TileClicked { ctx: STileInteractionContext, properties: SValue },
    RecvFromInspector { ctx: SInspectorContext, message: SValue },
    RecvFromDisplay { ctx: SDisplayContext, message: SValue },
    InspectorOpen { ctx: SInspectorContext },
    InspectorClose { ctx: SInspectorContext },
    DeepLink { ctx: SDeepLinkContext },
    TileProperties { tile_id: Seq<char>, properties: SValue },
    DeviceTiles { device_id: Seq<char>, tiles: Seq<STileModel> },
    VisibleTiles { tiles: Seq<STileModel> },
}

/// An event from the host to the plugin, tagged on the wire by its kind.
#[derive(Debug, PartialEq, Eq)]
pub enum ServerPluginMessage {
    /// The plugin is registered.
    Registered { plugin_id: PluginId },
    /// The current plugin properties.
    Properties { properties: Value },
    /// A tile was clicked on a device.
    TileClicked { ctx: TileInteractionContext, properties: Value },
    /// A payload arrived from the inspector window.
    RecvFromInspector { ctx: InspectorContext, message: Value },
    /// A payload arrived from a device display.
    RecvFromDisplay { ctx: DisplayContext, message: Value },
    /// The inspector window opened.
    InspectorOpen { ctx: InspectorContext },
    /// The inspector window closed.
    InspectorClose { ctx: InspectorContext },
    /// A deep link addressed to the plugin.
    DeepLink { ctx: DeepLinkContext },
    /// The properties of one tile.
    TileProperties { tile_id: TileId, properties: Value },
    /// The tiles of one device changed.
    DeviceTiles { device_id: DeviceId, tiles: Vec<TileModel> },
    /// The tiles currently visible.
    VisibleTiles { tiles: Vec<TileModel> },
}

impl View for ServerPluginMessage {
    type V = SServerPluginMessage;

    open spec fn view(&self) -> SServerPluginMessage {
        match self {
            ServerPluginMessage::Registered { plugin_id } =>
                SServerPluginMessage::Registered { plugin_id: plugin_id@ },
            ServerPluginMessage::Properties { properties } =>
                SServerPluginMessage::Properties { properties: properties.deep_view() },
            ServerPluginMessage::TileClicked { ctx, properties } =>
                SServerPluginMessage::TileClicked {
                    ctx: ctx@,
                    properties: properties.deep_view(),
                },
            ServerPluginMessage::RecvFromInspector { ctx, message } =>
                SServerPluginMessage::RecvFromInspector {
                    ctx: ctx@,
                    message: message.deep_view(),
                },
            ServerPluginMessage::RecvFromDisplay { ctx, message } =>
                SServerPluginMessage::RecvFromDisplay {
                    ctx: ctx@,
                    message: message.deep_view(),
                },
            ServerPluginMessage::InspectorOpen { ctx } =>
                SServerPluginMessage::InspectorOpen { ctx: ctx@ },
            ServerPluginMessage::InspectorClose { ctx } =>
                SServerPluginMessage::InspectorClose { ctx: ctx@ },
            ServerPluginMessage::DeepLink { ctx } =>
                SServerPluginMessage::DeepLink { ctx: ctx@ },
            ServerPluginMessage::TileProperties { tile_id, properties } =>
                SServerPluginMessage::TileProperties {
                    tile_id: tile_id@,
                    properties: properties.deep_view(),
                },
            ServerPluginMessage::DeviceTiles { device_id, tiles } =>
                SServerPluginMessage::DeviceTiles {
                    device_id: device_id@,
                    tiles: tiles_view(tiles@),
                },
            ServerPluginMessage::VisibleTiles { tiles } =>
                SServerPluginMessage::VisibleTiles { tiles: tiles_view(tiles@) },
        }
    }
}

} // verus!
