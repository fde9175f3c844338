//! The message codec: tagged wire objects for commands and events.
//!
//! A command or event travels as an object whose `type` field names the
//! message kind and whose remaining fields carry the payload. Encoding is
//! defined by the `sv_of_*` spec functions, decoding by the `*_of_sv`
//! spec functions, and the round-trip lemmas prove that decoding inverts
//! encoding.

use crate::protocol::{is_wf_uid, is_wf_uid_relaxed, lemma_wf_uid_lower, lower_uid,
    opt_str_view, DeepLinkContext, DisplayContext, InspectorContext,
    LabelAlign, SDeepLinkContext, SDisplayContext, SInspectorContext, STileInteractionContext,
    STileConfig, STileIcon, STileLabel, TileConfig, TileIcon, TileInteractionContext, TileLabel,
    TilePosition, DeviceIndicator, STileModel, TileModel, Uid, ClientPluginMessage,
    SClientPluginMessage, SServerPluginMessage, ServerPluginMessage};
use crate::value::{deep_view_obj, lemma_deep_view_obj, SValue, Value};
use vstd::prelude::*;

verus! {

// ------------------------------------------------------------------
// Character helpers
// ------------------------------------------------------------------

/// The characters of a string slice, in order.
pub fn chars_of_str(s: &str) -> (r: Vec<char>)
    ensures
        r@ == s@,
{
    let n = s.unicode_len();
    let mut r: Vec<char> = Vec::new();
    let mut k: usize = 0;
    while k < n
        invariant
            k <= n,
            n == s@.len(),
            r@ == s@.subrange(0, k as int),
        decreases n - k,
    {
        r.push(s.get_char(k));
        assert(r@ =~= s@.subrange(0, k as int + 1));
        k = k + 1;
    }
    assert(r@ =~= s@);
    r
}

/// The characters of a string, in order.
pub fn chars_of_string(s: &String) -> (r: Vec<char>)
    ensures
        r@ == s@,
{
    chars_of_str(s.as_str())
}

/// Relies on `String: FromIterator<char>`: collecting characters yields
/// the string of exactly those characters in order.
#[verifier::external_body]
pub fn string_of_chars(cs: &Vec<char>) -> (r: String)
    ensures
        r@ == cs@,
{
    cs.iter().collect()
}

/// A copy of a character buffer.
pub fn copy_chars(src: &Vec<char>) -> (r: Vec<char>)
    ensures
        r@ == src@,
{
    let mut r: Vec<char> = Vec::new();
    let mut k: usize = 0;
    while k < src.len()
        invariant
            k <= src@.len(),
            r@ == src@.subrange(0, k as int),
        decreases src@.len() - k,
    {
        r.push(src[k]);
        assert(r@ =~= src@.subrange(0, k as int + 1));
        k = k + 1;
    }
    assert(r@ =~= src@);
    r
}

// ------------------------------------------------------------------
// Object field lookup
// ------------------------------------------------------------------

/// The value of the first field named `key`, if any.
pub open spec fn obj_get(fs: Seq<(Seq<char>, SValue)>, key: Seq<char>) -> Option<SValue>
    decreases fs.len(),
{
    if fs.len() == 0 {
        None
    } else if fs[0].0 == key {
        Some(fs[0].1)
    } else {
        obj_get(fs.drop_first(), key)
    }
}

fn get_field_from<'a>(fields: &'a Vec<(Vec<char>, Value)>, i: usize, key: &Vec<char>) -> (r:
    Option<&'a Value>)
    requires
        i <= fields@.len(),
    ensures
        match r {
            Some(v) => obj_get(deep_view_obj(fields@).skip(i as int), key@)
                == Some(v.deep_view()),
            None => obj_get(deep_view_obj(fields@).skip(i as int), key@) is None,
        },
    decreases fields@.len() - i,
{
    proof {
        lemma_deep_view_obj(fields@);
    }
    if i == fields.len() {
        assert(deep_view_obj(fields@).skip(i as int) =~= Seq::<(Seq<char>, SValue)>::empty());
        None
    } else {
        let ghost dv = deep_view_obj(fields@);
        assert(dv.skip(i as int)[0] == (fields@[i as int].0@, fields@[i as int].1.deep_view()));
        if crate::value::eq_chars(&fields[i].0, key) {
            Some(&fields[i].1)
        } else {
            let r = get_field_from(fields, i + 1, key);
            proof {
                assert(dv.skip(i as int).drop_first() =~= dv.skip(i as int + 1));
            }
            r
        }
    }
}

/// The value of the first field named `key` in an object's field list.
pub fn get_field<'a>(fields: &'a Vec<(Vec<char>, Value)>, key: &str) -> (r: Option<&'a Value>)
    ensures
        match r {
            Some(v) => obj_get(deep_view_obj(fields@), key@) == Some(v.deep_view()),
            None => obj_get(deep_view_obj(fields@), key@) is None,
        },
{
    let kc = chars_of_str(key);
    let r = get_field_from(fields, 0, &kc);
    proof {
        assert(deep_view_obj(fields@).skip(0) =~= deep_view_obj(fields@));
    }
    r
}


proof fn lemma_obj_get_at(fs: Seq<(Seq<char>, SValue)>, k: int, key: Seq<char>)
    requires
        0 <= k < fs.len(),
        fs[k].0 == key,
        forall|j: int| 0 <= j < k ==> fs[j].0 != key,
    ensures
        obj_get(fs, key) == Some(fs[k].1),
    decreases k,
{
    if k > 0 {
        assert(fs[0].0 != key);
        lemma_obj_get_at(fs.drop_first(), k - 1, key);
        assert(fs.drop_first()[k - 1] == fs[k]);
    }
}

// ------------------------------------------------------------------
// Typed field accessors
// ------------------------------------------------------------------

/// The string value of field `key`, if it is present and a string.
pub open spec fn obj_get_str(fs: Seq<(Seq<char>, SValue)>, key: Seq<char>) -> Option<Seq<char>> {
    match obj_get(fs, key) {
        Some(SValue::Str(s)) => Some(s),
        _ => None,
    }
}

/// The identifier value of field `key`, if it is present, a string and
/// a well-formed identifier in either case, folded to the canonical
/// lowercase form.
pub open spec fn obj_get_uid(fs: Seq<(Seq<char>, SValue)>, key: Seq<char>) -> Option<Seq<char>> {
    match obj_get_str(fs, key) {
        Some(s) => if is_wf_uid_relaxed(s) {
            Some(lower_uid(s))
        } else {
            None
        },
        None => None,
    }
}

/// The boolean value of field `key`, if it is present and a boolean.
pub open spec fn obj_get_bool(fs: Seq<(Seq<char>, SValue)>, key: Seq<char>) -> Option<bool> {
    match obj_get(fs, key) {
        Some(SValue::Bool(b)) => Some(b),
        _ => None,
    }
}

/// The 32-bit value of field `key`, if it is present and a number in
/// the unsigned 32-bit range.
pub open spec fn obj_get_u32(fs: Seq<(Seq<char>, SValue)>, key: Seq<char>) -> Option<u32> {
    match obj_get(fs, key) {
        Some(SValue::Num(n)) => if 0 <= n <= 0xffff_ffff {
            Some(n as u32)
        } else {
            None
        },
        _ => None,
    }
}

/// An optional string field: absent or null means none; a string means
/// that string; any other shape is a type error.
pub open spec fn obj_get_opt_str(fs: Seq<(Seq<char>, SValue)>, key: Seq<char>) -> Option<
    Option<Seq<char>>,
> {
    match obj_get(fs, key) {
        None => Some(None),
        Some(SValue::Null) => Some(None),
        Some(SValue::Str(s)) => Some(Some(s)),
        _ => None,
    }
}

/// An optional boolean field: absent or null means none.
pub open spec fn obj_get_opt_bool(fs: Seq<(Seq<char>, SValue)>, key: Seq<char>) -> Option<
    Option<bool>,
> {
    match obj_get(fs, key) {
        None => Some(None),
        Some(SValue::Null) => Some(None),
        Some(SValue::Bool(b)) => Some(Some(b)),
        _ => None,
    }
}

/// An optional 32-bit field: absent or null means none.
pub open spec fn obj_get_opt_u32(fs: Seq<(Seq<char>, SValue)>, key: Seq<char>) -> Option<
    Option<u32>,
> {
    match obj_get(fs, key) {
        None => Some(None),
        Some(SValue::Null) => Some(None),
        Some(SValue::Num(n)) => if 0 <= n <= 0xffff_ffff {
            Some(Some(n as u32))
        } else {
            None
        },
        _ => None,
    }
}

fn get_str(fields: &Vec<(Vec<char>, Value)>, key: &str) -> (r: Option<String>)
    ensures
        match r {
            Some(s) => obj_get_str(deep_view_obj(fields@), key@) == Some(s@),
            None => obj_get_str(deep_view_obj(fields@), key@) is None,
        },
{
    match get_field(fields, key) {
        Some(Value::Str(cs)) => Some(string_of_chars(cs)),
        _ => None,
    }
}

fn get_uid(fields: &Vec<(Vec<char>, Value)>, key: &str) -> (r: Option<Uid>)
    ensures
        match r {
            Some(u) => obj_get_uid(deep_view_obj(fields@), key@) == Some(u@) && u.is_wf(),
            None => obj_get_uid(deep_view_obj(fields@), key@) is None,
        },
{
    match get_field(fields, key) {
        Some(Value::Str(cs)) => Uid::parse(copy_chars(cs)),
        _ => None,
    }
}

fn get_bool(fields: &Vec<(Vec<char>, Value)>, key: &str) -> (r: Option<bool>)
    ensures
        match r {
            Some(b) => obj_get_bool(deep_view_obj(fields@), key@) == Some(b),
            None => obj_get_bool(deep_view_obj(fields@), key@) is None,
        },
{
    match get_field(fields, key) {
        Some(Value::Bool(b)) => Some(*b),
        _ => None,
    }
}

fn get_u32(fields: &Vec<(Vec<char>, Value)>, key: &str) -> (r: Option<u32>)
    ensures
        match r {
            Some(x) => obj_get_u32(deep_view_obj(fields@), key@) == Some(x),
            None => obj_get_u32(deep_view_obj(fields@), key@) is None,
        },
{
    match get_field(fields, key) {
        Some(Value::Num(n)) => {
            let n = *n;
            if 0 <= n && n <= 0xffff_ffff {
                Some(n as u32)
            } else {
                None
            }
        },
        _ => None,
    }
}

fn get_value(fields: &Vec<(Vec<char>, Value)>, key: &str) -> (r: Option<Value>)
    ensures
        match r {
            Some(v) => obj_get(deep_view_obj(fields@), key@) == Some(v.deep_view()),
            None => obj_get(deep_view_obj(fields@), key@) is None,
        },
{
    match get_field(fields, key) {
        Some(v) => Some(v.duplicate()),
        None => None,
    }
}

fn get_opt_str(fields: &Vec<(Vec<char>, Value)>, key: &str) -> (r: Option<Option<String>>)
    ensures
        match r {
            Some(o) => obj_get_opt_str(deep_view_obj(fields@), key@)
                == Some(crate::protocol::opt_str_view(&o)),
            None => obj_get_opt_str(deep_view_obj(fields@), key@) is None,
        },
{
    match get_field(fields, key) {
        None => Some(None),
        Some(Value::Null) => Some(None),
        Some(Value::Str(cs)) => Some(Some(string_of_chars(cs))),
        _ => None,
    }
}

fn get_opt_bool(fields: &Vec<(Vec<char>, Value)>, key: &str) -> (r: Option<Option<bool>>)
    ensures
        match r {
            Some(o) => obj_get_opt_bool(deep_view_obj(fields@), key@) == Some(o),
            None => obj_get_opt_bool(deep_view_obj(fields@), key@) is None,
        },
{
    match get_field(fields, key) {
        None => Some(None),
        Some(Value::Null) => Some(None),
        Some(Value::Bool(b)) => Some(Some(*b)),
        _ => None,
    }
}

fn get_opt_u32(fields: &Vec<(Vec<char>, Value)>, key: &str) -> (r: Option<Option<u32>>)
    ensures
        match r {
            Some(o) => obj_get_opt_u32(deep_view_obj(fields@), key@) == Some(o),
            None => obj_get_opt_u32(deep_view_obj(fields@), key@) is None,
        },
{
    match get_field(fields, key) {
        None => Some(None),
        Some(Value::Null) => Some(None),
        Some(Value::Num(n)) => {
            let n = *n;
            if 0 <= n && n <= 0xffff_ffff {
                Some(Some(n as u32))
            } else {
                None
            }
        },
        _ => None,
    }
}


// ------------------------------------------------------------------
// Context structs
// ------------------------------------------------------------------

/// Wire object of an inspector context.
pub open spec fn sv_of_inspector_ctx(c: SInspectorContext) -> SValue {
    SValue::Obj(
        seq![
            ("profile_id"@, SValue::Str(c.profile_id)),
            ("folder_id"@, SValue::Str(c.folder_id)),
            ("plugin_id"@, SValue::Str(c.plugin_id)),
            ("action_id"@, SValue::Str(c.action_id)),
            ("tile_id"@, SValue::Str(c.tile_id)),
        ],
    )
}

/// Identifier fields of an inspector context are well-formed.
pub open spec fn wf_inspector_ctx(c: SInspectorContext) -> bool {
    is_wf_uid(c.profile_id) && is_wf_uid(c.folder_id) && is_wf_uid(c.tile_id)
}

/// Reads an inspector context back from a wire object.
pub open spec fn inspector_ctx_of_sv(sv: SValue) -> Option<SInspectorContext> {
    match sv {
        SValue::Obj(fs) => match (
            obj_get_uid(fs, "profile_id"@),
            obj_get_uid(fs, "folder_id"@),
            obj_get_str(fs, "plugin_id"@),
            obj_get_str(fs, "action_id"@),
            obj_get_uid(fs, "tile_id"@),
        ) {
            (Some(pr), Some(fo), Some(pl), Some(ac), Some(ti)) => Some(
                SInspectorContext {
                    profile_id: pr,
                    folder_id: fo,
                    plugin_id: pl,
                    action_id: ac,
                    tile_id: ti,
                },
            ),
            _ => None,
        },
        _ => None,
    }
}

pub fn inspector_ctx_to_value(c: &InspectorContext) -> (r: Value)
    ensures
        r.deep_view() == sv_of_inspector_ctx(c@),
{
    let mut fs: Vec<(Vec<char>, Value)> = Vec::new();
    fs.push((chars_of_str("profile_id"), Value::Str(copy_chars(&c.profile_id.text))));
    fs.push((chars_of_str("folder_id"), Value::Str(copy_chars(&c.folder_id.text))));
    fs.push((chars_of_str("plugin_id"), Value::Str(chars_of_string(&c.plugin_id))));
    fs.push((chars_of_str("action_id"), Value::Str(chars_of_string(&c.action_id))));
    fs.push((chars_of_str("tile_id"), Value::Str(copy_chars(&c.tile_id.text))));
    let ghost fsv = fs@;
    let r = Value::Obj(fs);
    proof {
        lemma_deep_view_obj(fsv);
        assert(deep_view_obj(fsv) =~= seq![
            ("profile_id"@, SValue::Str(c.profile_id@)),
            ("folder_id"@, SValue::Str(c.folder_id@)),
            ("plugin_id"@, SValue::Str(c.plugin_id@)),
            ("action_id"@, SValue::Str(c.action_id@)),
            ("tile_id"@, SValue::Str(c.tile_id@)),
        ]);
    }
    r
}

pub fn inspector_ctx_of_value(v: &Value) -> (r: Option<InspectorContext>)
    ensures
        match r {
            Some(c) => inspector_ctx_of_sv(v.deep_view()) == Some(c@),
            None => inspector_ctx_of_sv(v.deep_view()) is None,
        },
{
    match v {
        Value::Obj(fs) => {
            let pr = get_uid(fs, "profile_id");
            let fo = get_uid(fs, "folder_id");
            let pl = get_str(fs, "plugin_id");
            let ac = get_str(fs, "action_id");
            let ti = get_uid(fs, "tile_id");
            match (pr, fo, pl, ac, ti) {
                (Some(pr), Some(fo), Some(pl), Some(ac), Some(ti)) => Some(
                    InspectorContext {
                        profile_id: pr,
                        folder_id: fo,
                        plugin_id: pl,
                        action_id: ac,
                        tile_id: ti,
                    },
                ),
                _ => None,
            }
        },
        _ => None,
    }
}

/// Round trip of an inspector context through its wire object.
pub proof fn lemma_inspector_ctx_round_trip(c: SInspectorContext)
    requires
        wf_inspector_ctx(c),
    ensures
        inspector_ctx_of_sv(sv_of_inspector_ctx(c)) == Some(c),
{
    reveal_strlit("profile_id");
    reveal_strlit("folder_id");
    reveal_strlit("plugin_id");
    reveal_strlit("action_id");
    reveal_strlit("tile_id");
    let fs = seq![
        ("profile_id"@, SValue::Str(c.profile_id)),
        ("folder_id"@, SValue::Str(c.folder_id)),
        ("plugin_id"@, SValue::Str(c.plugin_id)),
        ("action_id"@, SValue::Str(c.action_id)),
        ("tile_id"@, SValue::Str(c.tile_id)),
    ];
    assert(("folder_id"@).len() == 9 && ("plugin_id"@).len() == 9 && ("action_id"@).len() == 9);
    assert(("profile_id"@).len() == 10 && ("tile_id"@).len() == 7);
    assert(("folder_id"@)[0] != ("plugin_id"@)[0]);
    assert(("folder_id"@)[0] != ("action_id"@)[0]);
    assert(("plugin_id"@)[0] != ("action_id"@)[0]);
    lemma_obj_get_at(fs, 0, "profile_id"@);
    lemma_obj_get_at(fs, 1, "folder_id"@);
    lemma_obj_get_at(fs, 2, "plugin_id"@);
    lemma_obj_get_at(fs, 3, "action_id"@);
    lemma_obj_get_at(fs, 4, "tile_id"@);
}

/// Wire object of a display context.
pub open spec fn sv_of_display_ctx(c: SDisplayContext) -> SValue {
    SValue::Obj(
        seq![
            ("device_id"@, SValue::Str(c.device_id)),
            ("plugin_id"@, SValue::Str(c.plugin_id)),
            ("action_id"@, SValue::Str(c.action_id)),
            ("tile_id"@, SValue::Str(c.tile_id)),
        ],
    )
}

/// Identifier fields of a display context are well-formed.
pub open spec fn wf_display_ctx(c: SDisplayContext) -> bool {
    is_wf_uid(c.device_id) && is_wf_uid(c.tile_id)
}

/// Reads a display context back from a wire object.
pub open spec fn display_ctx_of_sv(sv: SValue) -> Option<SDisplayContext> {
    match sv {
        SValue::Obj(fs) => match (
            obj_get_uid(fs, "device_id"@),
            obj_get_str(fs, "plugin_id"@),
            obj_get_str(fs, "action_id"@),
            obj_get_uid(fs, "tile_id"@),
        ) {
            (Some(de), Some(pl), Some(ac), Some(ti)) => Some(
                SDisplayContext { device_id: de, plugin_id: pl, action_id: ac, tile_id: ti },
            ),
            _ => None,
        },
        _ => None,
    }
}

pub fn display_ctx_to_value(c: &DisplayContext) -> (r: Value)
    ensures
        r.deep_view() == sv_of_display_ctx(c@),
{
    let mut fs: Vec<(Vec<char>, Value)> = Vec::new();
    fs.push((chars_of_str("device_id"), Value::Str(copy_chars(&c.device_id.text))));
    fs.push((chars_of_str("plugin_id"), Value::Str(chars_of_string(&c.plugin_id))));
    fs.push((chars_of_str("action_id"), Value::Str(chars_of_string(&c.action_id))));
    fs.push((chars_of_str("tile_id"), Value::Str(copy_chars(&c.tile_id.text))));
    let ghost fsv = fs@;
    let r = Value::Obj(fs);
    proof {
        lemma_deep_view_obj(fsv);
        assert(deep_view_obj(fsv) =~= seq![
            ("device_id"@, SValue::Str(c.device_id@)),
            ("plugin_id"@, SValue::Str(c.plugin_id@)),
            ("action_id"@, SValue::Str(c.action_id@)),
            ("tile_id"@, SValue::Str(c.tile_id@)),
        ]);
    }
    r
}

pub fn display_ctx_of_value(v: &Value) -> (r: Option<DisplayContext>)
    ensures
        match r {
            Some(c) => display_ctx_of_sv(v.deep_view()) == Some(c@),
            None => display_ctx_of_sv(v.deep_view()) is None,
        },
{
    match v {
        Value::Obj(fs) => {
            let de = get_uid(fs, "device_id");
            let pl = get_str(fs, "plugin_id");
            let ac = get_str(fs, "action_id");
            let ti = get_uid(fs, "tile_id");
            match (de, pl, ac, ti) {
                (Some(de), Some(pl), Some(ac), Some(ti)) => Some(
                    DisplayContext { device_id: de, plugin_id: pl, action_id: ac, tile_id: ti },
                ),
                _ => None,
            }
        },
        _ => None,
    }
}

/// Round trip of a display context through its wire object.
pub proof fn lemma_display_ctx_round_trip(c: SDisplayContext)
    requires
        wf_display_ctx(c),
    ensures
        display_ctx_of_sv(sv_of_display_ctx(c)) == Some(c),
{
    reveal_strlit("device_id");
    reveal_strlit("plugin_id");
    reveal_strlit("action_id");
    reveal_strlit("tile_id");
    let fs = seq![
        ("device_id"@, SValue::Str(c.device_id)),
        ("plugin_id"@, SValue::Str(c.plugin_id)),
        ("action_id"@, SValue::Str(c.action_id)),
        ("tile_id"@, SValue::Str(c.tile_id)),
    ];
    assert(("device_id"@)[0] != ("plugin_id"@)[0]);
    assert(("device_id"@)[0] != ("action_id"@)[0]);
    assert(("plugin_id"@)[0] != ("action_id"@)[0]);
    assert(("tile_id"@).len() == 7 && ("device_id"@).len() == 9);
    lemma_obj_get_at(fs, 0, "device_id"@);
    lemma_obj_get_at(fs, 1, "plugin_id"@);
    lemma_obj_get_at(fs, 2, "action_id"@);
    lemma_obj_get_at(fs, 3, "tile_id"@);
}

/// Wire object of a tile interaction context.
pub open spec fn sv_of_interaction_ctx(c: STileInteractionContext) -> SValue {
    SValue::Obj(
        seq![
            ("device_id"@, SValue::Str(c.device_id)),
            ("plugin_id"@, SValue::Str(c.plugin_id)),
            ("action_id"@, SValue::Str(c.action_id)),
            ("tile_id"@, SValue::Str(c.tile_id)),
        ],
    )
}

/// Identifier fields of a tile interaction context are well-formed.
pub open spec fn wf_interaction_ctx(c: STileInteractionContext) -> bool {
    is_wf_uid(c.device_id) && is_wf_uid(c.tile_id)
}

/// Reads a tile interaction context back from a wire object.
pub open spec fn interaction_ctx_of_sv(sv: SValue) -> Option<STileInteractionContext> {
    match sv {
        SValue::Obj(fs) => match (
            obj_get_uid(fs, "device_id"@),
            obj_get_str(fs, "plugin_id"@),
            obj_get_str(fs, "action_id"@),
            obj_get_uid(fs, "tile_id"@),
        ) {
            (Some(de), Some(pl), Some(ac), Some(ti)) => Some(
                STileInteractionContext {
                    device_id: de,
                    plugin_id: pl,
                    action_id: ac,
                    tile_id: ti,
                },
            ),
            _ => None,
        },
        _ => None,
    }
}

pub fn interaction_ctx_to_value(c: &TileInteractionContext) -> (r: Value)
    ensures
        r.deep_view() == sv_of_interaction_ctx(c@),
{
    let mut fs: Vec<(Vec<char>, Value)> = Vec::new();
    fs.push((chars_of_str("device_id"), Value::Str(copy_chars(&c.device_id.text))));
    fs.push((chars_of_str("plugin_id"), Value::Str(chars_of_string(&c.plugin_id))));
    fs.push((chars_of_str("action_id"), Value::Str(chars_of_string(&c.action_id))));
    fs.push((chars_of_str("tile_id"), Value::Str(copy_chars(&c.tile_id.text))));
    let ghost fsv = fs@;
    let r = Value::Obj(fs);
    proof {
        lemma_deep_view_obj(fsv);
        assert(deep_view_obj(fsv) =~= seq![
            ("device_id"@, SValue::Str(c.device_id@)),
            ("plugin_id"@, SValue::Str(c.plugin_id@)),
            ("action_id"@, SValue::Str(c.action_id@)),
            ("tile_id"@, SValue::Str(c.tile_id@)),
        ]);
    }
    r
}

pub fn interaction_ctx_of_value(v: &Value) -> (r: Option<TileInteractionContext>)
    ensures
        match r {
            Some(c) => interaction_ctx_of_sv(v.deep_view()) == Some(c@),
            None => interaction_ctx_of_sv(v.deep_view()) is None,
        },
{
    match v {
        Value::Obj(fs) => {
            let de = get_uid(fs, "device_id");
            let pl = get_str(fs, "plugin_id");
            let ac = get_str(fs, "action_id");
            let ti = get_uid(fs, "tile_id");
            match (de, pl, ac, ti) {
                (Some(de), Some(pl), Some(ac), Some(ti)) => Some(
                    TileInteractionContext {
                        device_id: de,
                        plugin_id: pl,
                        action_id: ac,
                        tile_id: ti,
                    },
                ),
                _ => None,
            }
        },
        _ => None,
    }
}

/// Round trip of a tile interaction context through its wire object.
pub proof fn lemma_interaction_ctx_round_trip(c: STileInteractionContext)
    requires
        wf_interaction_ctx(c),
    ensures
        interaction_ctx_of_sv(sv_of_interaction_ctx(c)) == Some(c),
{
    reveal_strlit("device_id");
    reveal_strlit("plugin_id");
    reveal_strlit("action_id");
    reveal_strlit("tile_id");
    let fs = seq![
        ("device_id"@, SValue::Str(c.device_id)),
        ("plugin_id"@, SValue::Str(c.plugin_id)),
        ("action_id"@, SValue::Str(c.action_id)),
        ("tile_id"@, SValue::Str(c.tile_id)),
    ];
    assert(("device_id"@)[0] != ("plugin_id"@)[0]);
    assert(("device_id"@)[0] != ("action_id"@)[0]);
    assert(("plugin_id"@)[0] != ("action_id"@)[0]);
    assert(("tile_id"@).len() == 7 && ("device_id"@).len() == 9);
    lemma_obj_get_at(fs, 0, "device_id"@);
    lemma_obj_get_at(fs, 1, "plugin_id"@);
    lemma_obj_get_at(fs, 2, "action_id"@);
    lemma_obj_get_at(fs, 3, "tile_id"@);
}

/// Wire value of an optional string: the string, or null.
pub open spec fn sv_of_opt_str(o: Option<Seq<char>>) -> SValue {
    match o {
        Some(s) => SValue::Str(s),
        None => SValue::Null,
    }
}

fn opt_string_to_value(o: &Option<String>) -> (r: Value)
    ensures
        r.deep_view() == sv_of_opt_str(opt_str_view(o)),
{
    match o {
        Some(s) => Value::Str(chars_of_string(s)),
        None => Value::Null,
    }
}

/// Wire object of a deep-link context.
pub open spec fn sv_of_deep_link_ctx(c: SDeepLinkContext) -> SValue {
    SValue::Obj(
        seq![
            ("url"@, SValue::Str(c.url)),
            ("host"@, sv_of_opt_str(c.host)),
            ("path"@, SValue::Str(c.path)),
            ("query"@, sv_of_opt_str(c.query)),
            ("fragment"@, sv_of_opt_str(c.fragment)),
        ],
    )
}

/// Reads a deep-link context back from a wire object.
pub open spec fn deep_link_ctx_of_sv(sv: SValue) -> Option<SDeepLinkContext> {
    match sv {
        SValue::Obj(fs) => match (
            obj_get_str(fs, "url"@),
            obj_get_opt_str(fs, "host"@),
            obj_get_str(fs, "path"@),
            obj_get_opt_str(fs, "query"@),
            obj_get_opt_str(fs, "fragment"@),
        ) {
            (Some(url), Some(host), Some(path), Some(query), Some(fragment)) => Some(
                SDeepLinkContext { url, host, path, query, fragment },
            ),
            _ => None,
        },
        _ => None,
    }
}

pub fn deep_link_ctx_to_value(c: &DeepLinkContext) -> (r: Value)
    ensures
        r.deep_view() == sv_of_deep_link_ctx(c@),
{
    let mut fs: Vec<(Vec<char>, Value)> = Vec::new();
    fs.push((chars_of_str("url"), Value::Str(chars_of_string(&c.url))));
    fs.push((chars_of_str("host"), opt_string_to_value(&c.host)));
    fs.push((chars_of_str("path"), Value::Str(chars_of_string(&c.path))));
    fs.push((chars_of_str("query"), opt_string_to_value(&c.query)));
    fs.push((chars_of_str("fragment"), opt_string_to_value(&c.fragment)));
    let ghost fsv = fs@;
    let r = Value::Obj(fs);
    proof {
        lemma_deep_view_obj(fsv);
        assert(deep_view_obj(fsv) =~= seq![
            ("url"@, SValue::Str(c.url@)),
            ("host"@, sv_of_opt_str(opt_str_view(&c.host))),
            ("path"@, SValue::Str(c.path@)),
            ("query"@, sv_of_opt_str(opt_str_view(&c.query))),
            ("fragment"@, sv_of_opt_str(opt_str_view(&c.fragment))),
        ]);
    }
    r
}

pub fn deep_link_ctx_of_value(v: &Value) -> (r: Option<DeepLinkContext>)
    ensures
        match r {
            Some(c) => deep_link_ctx_of_sv(v.deep_view()) == Some(c@),
            None => deep_link_ctx_of_sv(v.deep_view()) is None,
        },
{
    match v {
        Value::Obj(fs) => {
            let url = get_str(fs, "url");
            let host = get_opt_str(fs, "host");
            let path = get_str(fs, "path");
            let query = get_opt_str(fs, "query");
            let fragment = get_opt_str(fs, "fragment");
            match (url, host, path, query, fragment) {
                (Some(url), Some(host), Some(path), Some(query), Some(fragment)) => Some(
                    DeepLinkContext { url, host, path, query, fragment },
                ),
                _ => None,
            }
        },
        _ => None,
    }
}

/// Round trip of a deep-link context through its wire object.
pub proof fn lemma_deep_link_ctx_round_trip(c: SDeepLinkContext)
    ensures
        deep_link_ctx_of_sv(sv_of_deep_link_ctx(c)) == Some(c),
{
    reveal_strlit("url");
    reveal_strlit("host");
    reveal_strlit("path");
    reveal_strlit("query");
    reveal_strlit("fragment");
    let fs = seq![
        ("url"@, SValue::Str(c.url)),
        ("host"@, sv_of_opt_str(c.host)),
        ("path"@, SValue::Str(c.path)),
        ("query"@, sv_of_opt_str(c.query)),
        ("fragment"@, sv_of_opt_str(c.fragment)),
    ];
    assert(("url"@).len() == 3 && ("host"@).len() == 4 && ("path"@).len() == 4);
    assert(("query"@).len() == 5 && ("fragment"@).len() == 8);
    assert(("host"@)[0] != ("path"@)[0]);
    lemma_obj_get_at(fs, 0, "url"@);
    lemma_obj_get_at(fs, 1, "host"@);
    lemma_obj_get_at(fs, 2, "path"@);
    lemma_obj_get_at(fs, 3, "query"@);
    lemma_obj_get_at(fs, 4, "fragment"@);
}

/// Wire object of a tile position.
pub open spec fn sv_of_position(p: TilePosition) -> SValue {
    SValue::Obj(
        seq![
            ("row"@, SValue::Num(p.row as i64)),
            ("column"@, SValue::Num(p.column as i64)),
            ("row_span"@, SValue::Num(p.row_span as i64)),
            ("column_span"@, SValue::Num(p.column_span as i64)),
        ],
    )
}

/// Reads a tile position back from a wire object.
pub open spec fn position_of_sv(sv: SValue) -> Option<TilePosition> {
    match sv {
        SValue::Obj(fs) => match (
            obj_get_u32(fs, "row"@),
            obj_get_u32(fs, "column"@),
            obj_get_u32(fs, "row_span"@),
            obj_get_u32(fs, "column_span"@),
        ) {
            (Some(row), Some(column), Some(row_span), Some(column_span)) => Some(
                TilePosition { row, column, row_span, column_span },
            ),
            _ => None,
        },
        _ => None,
    }
}

pub fn position_to_value(p: &TilePosition) -> (r: Value)
    ensures
        r.deep_view() == sv_of_position(*p),
{
    let mut fs: Vec<(Vec<char>, Value)> = Vec::new();
    fs.push((chars_of_str("row"), Value::Num(p.row as i64)));
    fs.push((chars_of_str("column"), Value::Num(p.column as i64)));
    fs.push((chars_of_str("row_span"), Value::Num(p.row_span as i64)));
    fs.push((chars_of_str("column_span"), Value::Num(p.column_span as i64)));
    let ghost fsv = fs@;
    let r = Value::Obj(fs);
    proof {
        lemma_deep_view_obj(fsv);
        assert(deep_view_obj(fsv) =~= seq![
            ("row"@, SValue::Num(p.row as i64)),
            ("column"@, SValue::Num(p.column as i64)),
            ("row_span"@, SValue::Num(p.row_span as i64)),
            ("column_span"@, SValue::Num(p.column_span as i64)),
        ]);
    }
    r
}

pub fn position_of_value(v: &Value) -> (r: Option<TilePosition>)
    ensures
        match r {
            Some(p) => position_of_sv(v.deep_view()) == Some(p),
            None => position_of_sv(v.deep_view()) is None,
        },
{
    match v {
        Value::Obj(fs) => {
            let row = get_u32(fs, "row");
            let column = get_u32(fs, "column");
            let row_span = get_u32(fs, "row_span");
            let column_span = get_u32(fs, "column_span");
            match (row, column, row_span, column_span) {
                (Some(row), Some(column), Some(row_span), Some(column_span)) => Some(
                    TilePosition { row, column, row_span, column_span },
                ),
                _ => None,
            }
        },
        _ => None,
    }
}

/// Round trip of a tile position through its wire object.
pub proof fn lemma_position_round_trip(p: TilePosition)
    ensures
        position_of_sv(sv_of_position(p)) == Some(p),
{
    reveal_strlit("row");
    reveal_strlit("column");
    reveal_strlit("row_span");
    reveal_strlit("column_span");
    let fs = seq![
        ("row"@, SValue::Num(p.row as i64)),
        ("column"@, SValue::Num(p.column as i64)),
        ("row_span"@, SValue::Num(p.row_span as i64)),
        ("column_span"@, SValue::Num(p.column_span as i64)),
    ];
    assert(("row"@).len() == 3 && ("column"@).len() == 6);
    assert(("row_span"@).len() == 8 && ("column_span"@).len() == 11);
    lemma_obj_get_at(fs, 0, "row"@);
    lemma_obj_get_at(fs, 1, "column"@);
    lemma_obj_get_at(fs, 2, "row_span"@);
    lemma_obj_get_at(fs, 3, "column_span"@);
}


// ------------------------------------------------------------------
// Icon, label and config
// ------------------------------------------------------------------

/// True exactly when a character buffer equals a string slice.
pub fn chars_eq_str(cs: &Vec<char>, s: &str) -> (r: bool)
    ensures
        r == (cs@ == s@),
{
    let sc = chars_of_str(s);
    crate::value::eq_chars(cs, &sc)
}

/// Wire text of a label alignment.
pub open spec fn str_of_align(a: LabelAlign) -> Seq<char> {
    match a {
        LabelAlign::Bottom => "Bottom"@,
        LabelAlign::Middle => "Middle"@,
        LabelAlign::Top => "Top"@,
    }
}

/// Reads a label alignment back from its wire text.
pub open spec fn align_of_str(s: Seq<char>) -> Option<LabelAlign> {
    if s == "Bottom"@ {
        Some(LabelAlign::Bottom)
    } else if s == "Middle"@ {
        Some(LabelAlign::Middle)
    } else if s == "Top"@ {
        Some(LabelAlign::Top)
    } else {
        None
    }
}

/// Round trip of a label alignment through its wire text.
pub proof fn lemma_align_round_trip(a: LabelAlign)
    ensures
        align_of_str(str_of_align(a)) == Some(a),
{
    reveal_strlit("Bottom");
    reveal_strlit("Middle");
    reveal_strlit("Top");
    assert(("Bottom"@)[0] != ("Middle"@)[0]);
}

fn align_to_chars(a: &LabelAlign) -> (r: Vec<char>)
    ensures
        r@ == str_of_align(*a),
{
    match a {
        LabelAlign::Bottom => chars_of_str("Bottom"),
        LabelAlign::Middle => chars_of_str("Middle"),
        LabelAlign::Top => chars_of_str("Top"),
    }
}

fn align_of_chars(cs: &Vec<char>) -> (r: Option<LabelAlign>)
    ensures
        r == align_of_str(cs@),
{
    if chars_eq_str(cs, "Bottom") {
        Some(LabelAlign::Bottom)
    } else if chars_eq_str(cs, "Middle") {
        Some(LabelAlign::Middle)
    } else if chars_eq_str(cs, "Top") {
        Some(LabelAlign::Top)
    } else {
        None
    }
}

/// Wire value of an optional alignment: its text, or null.
pub open spec fn sv_of_opt_align(o: Option<LabelAlign>) -> SValue {
    match o {
        Some(a) => SValue::Str(str_of_align(a)),
        None => SValue::Null,
    }
}

/// An optional alignment field: absent or null means none.
pub open spec fn obj_get_opt_align(fs: Seq<(Seq<char>, SValue)>, key: Seq<char>) -> Option<
    Option<LabelAlign>,
> {
    match obj_get(fs, key) {
        None => Some(None),
        Some(SValue::Null) => Some(None),
        Some(SValue::Str(s)) => match align_of_str(s) {
            Some(a) => Some(Some(a)),
            None => None,
        },
        _ => None,
    }
}

fn get_opt_align(fields: &Vec<(Vec<char>, Value)>, key: &str) -> (r: Option<Option<LabelAlign>>)
    ensures
        match r {
            Some(o) => obj_get_opt_align(deep_view_obj(fields@), key@) == Some(o),
            None => obj_get_opt_align(deep_view_obj(fields@), key@) is None,
        },
{
    match get_field(fields, key) {
        None => Some(None),
        Some(Value::Null) => Some(None),
        Some(Value::Str(cs)) => match align_of_chars(cs) {
            Some(a) => Some(Some(a)),
            None => None,
        },
        _ => None,
    }
}

/// Wire text of a device indicator kind.
pub open spec fn str_of_indicator(d: DeviceIndicator) -> Seq<char> {
    match d {
        DeviceIndicator::Error => "Error"@,
        DeviceIndicator::Success => "Success"@,
        DeviceIndicator::Warning => "Warning"@,
        DeviceIndicator::Loading => "Loading"@,
        DeviceIndicator::NoIndicator => "None"@,
    }
}

fn indicator_to_chars(d: &DeviceIndicator) -> (r: Vec<char>)
    ensures
        r@ == str_of_indicator(*d),
{
    match d {
        DeviceIndicator::Error => chars_of_str("Error"),
        DeviceIndicator::Success => chars_of_str("Success"),
        DeviceIndicator::Warning => chars_of_str("Warning"),
        DeviceIndicator::Loading => chars_of_str("Loading"),
        DeviceIndicator::NoIndicator => chars_of_str("None"),
    }
}

/// Wire object of a tile icon, tagged by its kind.
pub open spec fn sv_of_tile_icon(ic: STileIcon) -> SValue {
    match ic {
        STileIcon::NoIcon => SValue::Obj(seq![("type"@, SValue::Str("None"@))]),
        STileIcon::PluginIcon { plugin_id, icon } => SValue::Obj(
            seq![
                ("type"@, SValue::Str("PluginIcon"@)),
                ("plugin_id"@, SValue::Str(plugin_id)),
                ("icon"@, SValue::Str(icon)),
            ],
        ),
        STileIcon::IconPack { pack_id, path } => SValue::Obj(
            seq![
                ("type"@, SValue::Str("IconPack"@)),
                ("pack_id"@, SValue::Str(pack_id)),
                ("path"@, SValue::Str(path)),
            ],
        ),
        STileIcon::Url { src } => SValue::Obj(
            seq![("type"@, SValue::Str("Url"@)), ("src"@, SValue::Str(src))],
        ),
    }
}

/// Reads a tile icon back from its tagged wire object.
pub open spec fn tile_icon_of_sv(sv: SValue) -> Option<STileIcon> {
    match sv {
        SValue::Obj(fs) => match obj_get_str(fs, "type"@) {
            Some(tag) => if tag == "None"@ {
                Some(STileIcon::NoIcon)
            } else if tag == "PluginIcon"@ {
                match (obj_get_str(fs, "plugin_id"@), obj_get_str(fs, "icon"@)) {
                    (Some(plugin_id), Some(icon)) => Some(
                        STileIcon::PluginIcon { plugin_id, icon },
                    ),
                    _ => None,
                }
            } else if tag == "IconPack"@ {
                match (obj_get_str(fs, "pack_id"@), obj_get_str(fs, "path"@)) {
                    (Some(pack_id), Some(path)) => Some(STileIcon::IconPack { pack_id, path }),
                    _ => None,
                }
            } else if tag == "Url"@ {
                match obj_get_str(fs, "src"@) {
                    Some(src) => Some(STileIcon::Url { src }),
                    None => None,
                }
            } else {
                None
            },
            None => None,
        },
        _ => None,
    }
}

pub fn tile_icon_to_value(ic: &TileIcon) -> (r: Value)
    ensures
        r.deep_view() == sv_of_tile_icon(ic@),
{
    match ic {
        TileIcon::NoIcon => {
            let mut fs: Vec<(Vec<char>, Value)> = Vec::new();
            fs.push((chars_of_str("type"), Value::Str(chars_of_str("None"))));
            let ghost fsv = fs@;
            let r = Value::Obj(fs);
            proof {
                lemma_deep_view_obj(fsv);
                assert(deep_view_obj(fsv) =~= seq![("type"@, SValue::Str("None"@))]);
            }
            r
        },
        TileIcon::PluginIcon { plugin_id, icon } => {
            let mut fs: Vec<(Vec<char>, Value)> = Vec::new();
            fs.push((chars_of_str("type"), Value::Str(chars_of_str("PluginIcon"))));
            fs.push((chars_of_str("plugin_id"), Value::Str(chars_of_string(plugin_id))));
            fs.push((chars_of_str("icon"), Value::Str(chars_of_string(icon))));
            let ghost fsv = fs@;
            let r = Value::Obj(fs);
            proof {
                lemma_deep_view_obj(fsv);
                assert(deep_view_obj(fsv) =~= seq![
                    ("type"@, SValue::Str("PluginIcon"@)),
                    ("plugin_id"@, SValue::Str(plugin_id@)),
                    ("icon"@, SValue::Str(icon@)),
                ]);
            }
            r
        },
        TileIcon::IconPack { pack_id, path } => {
            let mut fs: Vec<(Vec<char>, Value)> = Vec::new();
            fs.push((chars_of_str("type"), Value::Str(chars_of_str("IconPack"))));
            fs.push((chars_of_str("pack_id"), Value::Str(chars_of_string(pack_id))));
            fs.push((chars_of_str("path"), Value::Str(chars_of_string(path))));
            let ghost fsv = fs@;
            let r = Value::Obj(fs);
            proof {
                lemma_deep_view_obj(fsv);
                assert(deep_view_obj(fsv) =~= seq![
                    ("type"@, SValue::Str("IconPack"@)),
                    ("pack_id"@, SValue::Str(pack_id@)),
                    ("path"@, SValue::Str(path@)),
                ]);
            }
            r
        },
        TileIcon::Url { src } => {
            let mut fs: Vec<(Vec<char>, Value)> = Vec::new();
            fs.push((chars_of_str("type"), Value::Str(chars_of_str("Url"))));
            fs.push((chars_of_str("src"), Value::Str(chars_of_string(src))));
            let ghost fsv = fs@;
            let r = Value::Obj(fs);
            proof {
                lemma_deep_view_obj(fsv);
                assert(deep_view_obj(fsv) =~= seq![
                    ("type"@, SValue::Str("Url"@)),
                    ("src"@, SValue::Str(src@)),
                ]);
            }
            r
        },
    }
}

pub fn tile_icon_of_value(v: &Value) -> (r: Option<TileIcon>)
    ensures
        match r {
            Some(ic) => tile_icon_of_sv(v.deep_view()) == Some(ic@),
            None => tile_icon_of_sv(v.deep_view()) is None,
        },
{
    match v {
        Value::Obj(fs) => {
            let tag = match get_field(fs, "type") {
                Some(Value::Str(cs)) => cs,
                _ => {
                    return None;
                },
            };
            if chars_eq_str(tag, "None") {
                Some(TileIcon::NoIcon)
            } else if chars_eq_str(tag, "PluginIcon") {
                let plugin_id = get_str(fs, "plugin_id");
                let icon = get_str(fs, "icon");
                match (plugin_id, icon) {
                    (Some(plugin_id), Some(icon)) => Some(TileIcon::PluginIcon {
                        plugin_id,
                        icon,
                    }),
                    _ => None,
                }
            } else if chars_eq_str(tag, "IconPack") {
                let pack_id = get_str(fs, "pack_id");
                let path = get_str(fs, "path");
                match (pack_id, path) {
                    (Some(pack_id), Some(path)) => Some(TileIcon::IconPack { pack_id, path }),
                    _ => None,
                }
            } else if chars_eq_str(tag, "Url") {
                match get_str(fs, "src") {
                    Some(src) => Some(TileIcon::Url { src }),
                    None => None,
                }
            } else {
                None
            }
        },
        _ => None,
    }
}

/// Round trip of a tile icon through its wire object.
pub proof fn lemma_tile_icon_round_trip(ic: STileIcon)
    ensures
        tile_icon_of_sv(sv_of_tile_icon(ic)) == Some(ic),
{
    reveal_strlit("type");
    reveal_strlit("None");
    reveal_strlit("PluginIcon");
    reveal_strlit("IconPack");
    reveal_strlit("Url");
    reveal_strlit("plugin_id");
    reveal_strlit("icon");
    reveal_strlit("pack_id");
    reveal_strlit("path");
    reveal_strlit("src");
    match ic {
        STileIcon::NoIcon => {
            let fs = seq![("type"@, SValue::Str("None"@))];
            lemma_obj_get_at(fs, 0, "type"@);
        },
        STileIcon::PluginIcon { plugin_id, icon } => {
            let fs = seq![
                ("type"@, SValue::Str("PluginIcon"@)),
                ("plugin_id"@, SValue::Str(plugin_id)),
                ("icon"@, SValue::Str(icon)),
            ];
            assert(("type"@).len() == 4 && ("plugin_id"@).len() == 9 && ("icon"@).len() == 4);
            assert(("type"@)[0] != ("icon"@)[0]);
            lemma_obj_get_at(fs, 0, "type"@);
            lemma_obj_get_at(fs, 1, "plugin_id"@);
            lemma_obj_get_at(fs, 2, "icon"@);
            assert(("PluginIcon"@).len() != ("None"@).len());
        },
        STileIcon::IconPack { pack_id, path } => {
            let fs = seq![
                ("type"@, SValue::Str("IconPack"@)),
                ("pack_id"@, SValue::Str(pack_id)),
                ("path"@, SValue::Str(path)),
            ];
            assert(("type"@).len() == 4 && ("pack_id"@).len() == 7 && ("path"@).len() == 4);
            assert(("type"@)[0] != ("path"@)[0]);
            lemma_obj_get_at(fs, 0, "type"@);
            lemma_obj_get_at(fs, 1, "pack_id"@);
            lemma_obj_get_at(fs, 2, "path"@);
            assert(("IconPack"@).len() != ("None"@).len());
            assert(("IconPack"@).len() != ("PluginIcon"@).len());
        },
        STileIcon::Url { src } => {
            let fs = seq![("type"@, SValue::Str("Url"@)), ("src"@, SValue::Str(src))];
            assert(("type"@).len() == 4 && ("src"@).len() == 3);
            lemma_obj_get_at(fs, 0, "type"@);
            lemma_obj_get_at(fs, 1, "src"@);
            assert(("Url"@).len() != ("None"@).len());
            assert(("Url"@).len() != ("PluginIcon"@).len());
            assert(("Url"@).len() != ("IconPack"@).len());
        },
    }
}

/// Wire value of an optional boolean: the boolean, or null.
pub open spec fn sv_of_opt_bool(o: Option<bool>) -> SValue {
    match o {
        Some(b) => SValue::Bool(b),
        None => SValue::Null,
    }
}

/// Wire value of an optional 32-bit number: the number, or null.
pub open spec fn sv_of_opt_u32(o: Option<u32>) -> SValue {
    match o {
        Some(x) => SValue::Num(x as i64),
        None => SValue::Null,
    }
}

fn opt_bool_to_value(o: &Option<bool>) -> (r: Value)
    ensures
        r.deep_view() == sv_of_opt_bool(*o),
{
    match o {
        Some(b) => Value::Bool(*b),
        None => Value::Null,
    }
}

fn opt_u32_to_value(o: &Option<u32>) -> (r: Value)
    ensures
        r.deep_view() == sv_of_opt_u32(*o),
{
    match o {
        Some(x) => Value::Num(*x as i64),
        None => Value::Null,
    }
}

fn opt_align_to_value(o: &Option<LabelAlign>) -> (r: Value)
    ensures
        r.deep_view() == sv_of_opt_align(*o),
{
    match o {
        Some(a) => Value::Str(align_to_chars(a)),
        None => Value::Null,
    }
}

/// Wire object of a tile label.
pub open spec fn sv_of_tile_label(l: STileLabel) -> SValue {
    SValue::Obj(
        seq![
            ("enabled"@, sv_of_opt_bool(l.enabled)),
            ("label"@, sv_of_opt_str(l.label)),
            ("align"@, sv_of_opt_align(l.align)),
            ("font"@, sv_of_opt_str(l.font)),
            ("font_size"@, sv_of_opt_u32(l.font_size)),
            ("bold"@, sv_of_opt_bool(l.bold)),
            ("italic"@, sv_of_opt_bool(l.italic)),
            ("underline"@, sv_of_opt_bool(l.underline)),
            ("outline"@, sv_of_opt_bool(l.outline)),
            ("color"@, sv_of_opt_str(l.color)),
            ("outline_color"@, sv_of_opt_str(l.outline_color)),
        ],
    )
}

/// Reads a tile label back from a wire object; absent fields default to
/// none.
pub open spec fn tile_label_of_sv(sv: SValue) -> Option<STileLabel> {
    match sv {
        SValue::Obj(fs) => match (
            obj_get_opt_bool(fs, "enabled"@),
            obj_get_opt_str(fs, "label"@),
            obj_get_opt_align(fs, "align"@),
            obj_get_opt_str(fs, "font"@),
            obj_get_opt_u32(fs, "font_size"@),
        ) {
            (Some(enabled), Some(label), Some(align), Some(font), Some(font_size)) => match (
                obj_get_opt_bool(fs, "bold"@),
                obj_get_opt_bool(fs, "italic"@),
                obj_get_opt_bool(fs, "underline"@),
                obj_get_opt_bool(fs, "outline"@),
                obj_get_opt_str(fs, "color"@),
                obj_get_opt_str(fs, "outline_color"@),
            ) {
                (
                    Some(bold),
                    Some(italic),
                    Some(underline),
                    Some(outline),
                    Some(color),
                    Some(outline_color),
                ) => Some(
                    STileLabel {
                        enabled,
                        label,
                        align,
                        font,
                        font_size,
                        bold,
                        italic,
                        underline,
                        outline,
                        color,
                        outline_color,
                    },
                ),
                _ => None,
            },
            _ => None,
        },
        _ => None,
    }
}

pub fn tile_label_to_value(l: &TileLabel) -> (r: Value)
    ensures
        r.deep_view() == sv_of_tile_label(l@),
{
    let mut fs: Vec<(Vec<char>, Value)> = Vec::new();
    fs.push((chars_of_str("enabled"), opt_bool_to_value(&l.enabled)));
    fs.push((chars_of_str("label"), opt_string_to_value(&l.label)));
    fs.push((chars_of_str("align"), opt_align_to_value(&l.align)));
    fs.push((chars_of_str("font"), opt_string_to_value(&l.font)));
    fs.push((chars_of_str("font_size"), opt_u32_to_value(&l.font_size)));
    fs.push((chars_of_str("bold"), opt_bool_to_value(&l.bold)));
    fs.push((chars_of_str("italic"), opt_bool_to_value(&l.italic)));
    fs.push((chars_of_str("underline"), opt_bool_to_value(&l.underline)));
    fs.push((chars_of_str("outline"), opt_bool_to_value(&l.outline)));
    fs.push((chars_of_str("color"), opt_string_to_value(&l.color)));
    fs.push((chars_of_str("outline_color"), opt_string_to_value(&l.outline_color)));
    let ghost fsv = fs@;
    let r = Value::Obj(fs);
    proof {
        lemma_deep_view_obj(fsv);
        assert(deep_view_obj(fsv) =~= seq![
            ("enabled"@, sv_of_opt_bool(l.enabled)),
            ("label"@, sv_of_opt_str(opt_str_view(&l.label))),
            ("align"@, sv_of_opt_align(l.align)),
            ("font"@, sv_of_opt_str(opt_str_view(&l.font))),
            ("font_size"@, sv_of_opt_u32(l.font_size)),
            ("bold"@, sv_of_opt_bool(l.bold)),
            ("italic"@, sv_of_opt_bool(l.italic)),
            ("underline"@, sv_of_opt_bool(l.underline)),
            ("outline"@, sv_of_opt_bool(l.outline)),
            ("color"@, sv_of_opt_str(opt_str_view(&l.color))),
            ("outline_color"@, sv_of_opt_str(opt_str_view(&l.outline_color))),
        ]);
    }
    r
}

pub fn tile_label_of_value(v: &Value) -> (r: Option<TileLabel>)
    ensures
        match r {
            Some(l) => tile_label_of_sv(v.deep_view()) == Some(l@),
            None => tile_label_of_sv(v.deep_view()) is None,
        },
{
    match v {
        Value::Obj(fs) => {
            let enabled = get_opt_bool(fs, "enabled");
            let label = get_opt_str(fs, "label");
            let align = get_opt_align(fs, "align");
            let font = get_opt_str(fs, "font");
            let font_size = get_opt_u32(fs, "font_size");
            let bold = get_opt_bool(fs, "bold");
            let italic = get_opt_bool(fs, "italic");
            let underline = get_opt_bool(fs, "underline");
            let outline = get_opt_bool(fs, "outline");
            let color = get_opt_str(fs, "color");
            let outline_color = get_opt_str(fs, "outline_color");
            match (enabled, label, align, font, font_size) {
                (Some(enabled), Some(label), Some(align), Some(font), Some(font_size)) => match (
                    bold,
                    italic,
                    underline,
                    outline,
                    color,
                    outline_color,
                ) {
                    (
                        Some(bold),
                        Some(italic),
                        Some(underline),
                        Some(outline),
                        Some(color),
                        Some(outline_color),
                    ) => Some(
                        TileLabel {
                            enabled,
                            label,
                            align,
                            font,
                            font_size,
                            bold,
                            italic,
                            underline,
                            outline,
                            color,
                            outline_color,
                        },
                    ),
                    _ => None,
                },
                _ => None,
            }
        },
        _ => None,
    }
}

/// Round trip of a tile label through its wire object.
pub proof fn lemma_tile_label_round_trip(l: STileLabel)
    ensures
        tile_label_of_sv(sv_of_tile_label(l)) == Some(l),
{
    reveal_strlit("enabled");
    reveal_strlit("label");
    reveal_strlit("align");
    reveal_strlit("font");
    reveal_strlit("font_size");
    reveal_strlit("bold");
    reveal_strlit("italic");
    reveal_strlit("underline");
    reveal_strlit("outline");
    reveal_strlit("color");
    reveal_strlit("outline_color");
    let fs = seq![
        ("enabled"@, sv_of_opt_bool(l.enabled)),
        ("label"@, sv_of_opt_str(l.label)),
        ("align"@, sv_of_opt_align(l.align)),
        ("font"@, sv_of_opt_str(l.font)),
        ("font_size"@, sv_of_opt_u32(l.font_size)),
        ("bold"@, sv_of_opt_bool(l.bold)),
        ("italic"@, sv_of_opt_bool(l.italic)),
        ("underline"@, sv_of_opt_bool(l.underline)),
        ("outline"@, sv_of_opt_bool(l.outline)),
        ("color"@, sv_of_opt_str(l.color)),
        ("outline_color"@, sv_of_opt_str(l.outline_color)),
    ];
    assert(("enabled"@).len() == 7 && ("label"@).len() == 5 && ("align"@).len() == 5);
    assert(("font"@).len() == 4 && ("font_size"@).len() == 9 && ("bold"@).len() == 4);
    assert(("italic"@).len() == 6 && ("underline"@).len() == 9 && ("outline"@).len() == 7);
    assert(("color"@).len() == 5 && ("outline_color"@).len() == 13);
    assert(("align"@)[0] != ("label"@)[0]);
    assert(("bold"@)[0] != ("font"@)[0]);
    assert(("underline"@)[0] != ("font_size"@)[0]);
    assert(("outline"@)[0] != ("enabled"@)[0]);
    assert(("color"@)[0] != ("label"@)[0]);
    assert(("color"@)[0] != ("align"@)[0]);
    lemma_obj_get_at(fs, 0, "enabled"@);
    lemma_obj_get_at(fs, 1, "label"@);
    lemma_obj_get_at(fs, 2, "align"@);
    lemma_obj_get_at(fs, 3, "font"@);
    lemma_obj_get_at(fs, 4, "font_size"@);
    lemma_obj_get_at(fs, 5, "bold"@);
    lemma_obj_get_at(fs, 6, "italic"@);
    lemma_obj_get_at(fs, 7, "underline"@);
    lemma_obj_get_at(fs, 8, "outline"@);
    lemma_obj_get_at(fs, 9, "color"@);
    lemma_obj_get_at(fs, 10, "outline_color"@);
    if l.align is Some {
        lemma_align_round_trip(l.align.unwrap());
    }
}

/// Wire object of a tile configuration.
pub open spec fn sv_of_tile_config(c: STileConfig) -> SValue {
    SValue::Obj(
        seq![("icon"@, sv_of_tile_icon(c.icon)), ("label"@, sv_of_tile_label(c.label))],
    )
}

/// Reads a tile configuration back from a wire object.
pub open spec fn tile_config_of_sv(sv: SValue) -> Option<STileConfig> {
    match sv {
        SValue::Obj(fs) => match (obj_get(fs, "icon"@), obj_get(fs, "label"@)) {
            (Some(iv), Some(lv)) => match (tile_icon_of_sv(iv), tile_label_of_sv(lv)) {
                (Some(icon), Some(label)) => Some(STileConfig { icon, label }),
                _ => None,
            },
            _ => None,
        },
        _ => None,
    }
}

pub fn tile_config_to_value(c: &TileConfig) -> (r: Value)
    ensures
        r.deep_view() == sv_of_tile_config(c@),
{
    let mut fs: Vec<(Vec<char>, Value)> = Vec::new();
    fs.push((chars_of_str("icon"), tile_icon_to_value(&c.icon)));
    fs.push((chars_of_str("label"), tile_label_to_value(&c.label)));
    let ghost fsv = fs@;
    let r = Value::Obj(fs);
    proof {
        lemma_deep_view_obj(fsv);
        assert(deep_view_obj(fsv) =~= seq![
            ("icon"@, sv_of_tile_icon(c.icon@)),
            ("label"@, sv_of_tile_label(c.label@)),
        ]);
    }
    r
}

pub fn tile_config_of_value(v: &Value) -> (r: Option<TileConfig>)
    ensures
        match r {
            Some(c) => tile_config_of_sv(v.deep_view()) == Some(c@),
            None => tile_config_of_sv(v.deep_view()) is None,
        },
{
    match v {
        Value::Obj(fs) => {
            let iv = get_field(fs, "icon");
            let lv = get_field(fs, "label");
            match (iv, lv) {
                (Some(iv), Some(lv)) => {
                    let icon = tile_icon_of_value(iv);
                    let label = tile_label_of_value(lv);
                    match (icon, label) {
                        (Some(icon), Some(label)) => Some(TileConfig { icon, label }),
                        _ => None,
                    }
                },
                _ => None,
            }
        },
        _ => None,
    }
}

/// Round trip of a tile configuration through its wire object.
pub proof fn lemma_tile_config_round_trip(c: STileConfig)
    ensures
        tile_config_of_sv(sv_of_tile_config(c)) == Some(c),
{
    reveal_strlit("icon");
    reveal_strlit("label");
    let fs = seq![("icon"@, sv_of_tile_icon(c.icon)), ("label"@, sv_of_tile_label(c.label))];
    assert(("icon"@)[0] != ("label"@)[0]);
    lemma_obj_get_at(fs, 0, "icon"@);
    lemma_obj_get_at(fs, 1, "label"@);
    lemma_tile_icon_round_trip(c.icon);
    lemma_tile_label_round_trip(c.label);
}


// ------------------------------------------------------------------
// Tile models
// ------------------------------------------------------------------

/// Wire object of a tile.
pub open spec fn sv_of_tile_model(m: STileModel) -> SValue {
    SValue::Obj(
        seq![
            ("id"@, SValue::Str(m.id)),
            ("config"@, sv_of_tile_config(m.config)),
            ("properties"@, m.properties),
            ("folder_id"@, SValue::Str(m.folder_id)),
            ("plugin_id"@, SValue::Str(m.plugin_id)),
            ("action_id"@, SValue::Str(m.action_id)),
            ("position"@, sv_of_position(m.position)),
        ],
    )
}

/// Identifier fields of a tile are well-formed.
pub open spec fn wf_tile_model(m: STileModel) -> bool {
    is_wf_uid(m.id) && is_wf_uid(m.folder_id)
}

/// Reads a tile back from a wire object.
pub open spec fn tile_model_of_sv(sv: SValue) -> Option<STileModel> {
    match sv {
        SValue::Obj(fs) => match (
            obj_get_uid(fs, "id"@),
            obj_get(fs, "config"@),
            obj_get(fs, "properties"@),
            obj_get_uid(fs, "folder_id"@),
            obj_get_str(fs, "plugin_id"@),
            obj_get_str(fs, "action_id"@),
            obj_get(fs, "position"@),
        ) {
            (
                Some(id),
                Some(cv),
                Some(properties),
                Some(folder_id),
                Some(plugin_id),
                Some(action_id),
                Some(pv),
            ) => match (tile_config_of_sv(cv), position_of_sv(pv)) {
                (Some(config), Some(position)) => Some(
                    STileModel {
                        id,
                        config,
                        properties,
                        folder_id,
                        plugin_id,
                        action_id,
                        position,
                    },
                ),
                _ => None,
            },
            _ => None,
        },
        _ => None,
    }
}

pub fn tile_model_to_value(m: &TileModel) -> (r: Value)
    ensures
        r.deep_view() == sv_of_tile_model(m@),
{
    let mut fs: Vec<(Vec<char>, Value)> = Vec::new();
    fs.push((chars_of_str("id"), Value::Str(copy_chars(&m.id.text))));
    fs.push((chars_of_str("config"), tile_config_to_value(&m.config)));
    fs.push((chars_of_str("properties"), m.properties.duplicate()));
    fs.push((chars_of_str("folder_id"), Value::Str(copy_chars(&m.folder_id.text))));
    fs.push((chars_of_str("plugin_id"), Value::Str(chars_of_string(&m.plugin_id))));
    fs.push((chars_of_str("action_id"), Value::Str(chars_of_string(&m.action_id))));
    fs.push((chars_of_str("position"), position_to_value(&m.position)));
    let ghost fsv = fs@;
    let r = Value::Obj(fs);
    proof {
        lemma_deep_view_obj(fsv);
        assert(deep_view_obj(fsv) =~= seq![
            ("id"@, SValue::Str(m.id@)),
            ("config"@, sv_of_tile_config(m.config@)),
            ("properties"@, m.properties.deep_view()),
            ("folder_id"@, SValue::Str(m.folder_id@)),
            ("plugin_id"@, SValue::Str(m.plugin_id@)),
            ("action_id"@, SValue::Str(m.action_id@)),
            ("position"@, sv_of_position(m.position)),
        ]);
    }
    r
}

pub fn tile_model_of_value(v: &Value) -> (r: Option<TileModel>)
    ensures
        match r {
            Some(m) => tile_model_of_sv(v.deep_view()) == Some(m@),
            None => tile_model_of_sv(v.deep_view()) is None,
        },
{
    match v {
        Value::Obj(fs) => {
            let id = get_uid(fs, "id");
            let cv = get_field(fs, "config");
            let properties = get_value(fs, "properties");
            let folder_id = get_uid(fs, "folder_id");
            let plugin_id = get_str(fs, "plugin_id");
            let action_id = get_str(fs, "action_id");
            let pv = get_field(fs, "position");
            match (id, cv, properties, folder_id, plugin_id, action_id, pv) {
                (
                    Some(id),
                    Some(cv),
                    Some(properties),
                    Some(folder_id),
                    Some(plugin_id),
                    Some(action_id),
                    Some(pv),
                ) => {
                    let config = tile_config_of_value(cv);
                    let position = position_of_value(pv);
                    match (config, position) {
                        (Some(config), Some(position)) => Some(
                            TileModel {
                                id,
                                config,
                                properties,
                                folder_id,
                                plugin_id,
                                action_id,
                                position,
                            },
                        ),
                        _ => None,
                    }
                },
                _ => None,
            }
        },
        _ => None,
    }
}

/// Round trip of a tile through its wire object.
pub proof fn lemma_tile_model_round_trip(m: STileModel)
    requires
        wf_tile_model(m),
    ensures
        tile_model_of_sv(sv_of_tile_model(m)) == Some(m),
{
    reveal_strlit("id");
    reveal_strlit("config");
    reveal_strlit("properties");
    reveal_strlit("folder_id");
    reveal_strlit("plugin_id");
    reveal_strlit("action_id");
    reveal_strlit("position");
    let fs = seq![
        ("id"@, SValue::Str(m.id)),
        ("config"@, sv_of_tile_config(m.config)),
        ("properties"@, m.properties),
        ("folder_id"@, SValue::Str(m.folder_id)),
        ("plugin_id"@, SValue::Str(m.plugin_id)),
        ("action_id"@, SValue::Str(m.action_id)),
        ("position"@, sv_of_position(m.position)),
    ];
    assert(("id"@).len() == 2 && ("config"@).len() == 6 && ("properties"@).len() == 10);
    assert(("folder_id"@).len() == 9 && ("plugin_id"@).len() == 9 && ("action_id"@).len() == 9);
    assert(("position"@).len() == 8);
    assert(("folder_id"@)[0] != ("plugin_id"@)[0]);
    assert(("folder_id"@)[0] != ("action_id"@)[0]);
    assert(("plugin_id"@)[0] != ("action_id"@)[0]);
    lemma_obj_get_at(fs, 0, "id"@);
    lemma_obj_get_at(fs, 1, "config"@);
    lemma_obj_get_at(fs, 2, "properties"@);
    lemma_obj_get_at(fs, 3, "folder_id"@);
    lemma_obj_get_at(fs, 4, "plugin_id"@);
    lemma_obj_get_at(fs, 5, "action_id"@);
    lemma_obj_get_at(fs, 6, "position"@);
    lemma_tile_config_round_trip(m.config);
    lemma_position_round_trip(m.position);
}

/// Wire values of a sequence of tiles, element by element.
pub open spec fn svs_of_tiles(ts: Seq<STileModel>) -> Seq<SValue>
    decreases ts.len(),
{
    if ts.len() == 0 {
        Seq::<SValue>::empty()
    } else {
        seq![sv_of_tile_model(ts[0])] + svs_of_tiles(ts.drop_first())
    }
}

/// Reads a sequence of tiles back from wire values; any malformed
/// element rejects the whole sequence.
pub open spec fn tiles_of_svs(vs: Seq<SValue>) -> Option<Seq<STileModel>>
    decreases vs.len(),
{
    if vs.len() == 0 {
        Some(Seq::<STileModel>::empty())
    } else {
        match tile_model_of_sv(vs[0]) {
            Some(t) => match tiles_of_svs(vs.drop_first()) {
                Some(rest) => Some(seq![t] + rest),
                None => None,
            },
            None => None,
        }
    }
}

/// All identifier fields in a sequence of tiles are well-formed.
pub open spec fn wf_tiles(ts: Seq<STileModel>) -> bool {
    forall|k: int| 0 <= k < ts.len() ==> wf_tile_model(#[trigger] ts[k])
}

fn tiles_to_values(ts: &Vec<TileModel>, from: usize) -> (r: Vec<Value>)
    requires
        from <= ts@.len(),
    ensures
        crate::value::deep_view_arr(r@) == svs_of_tiles(crate::protocol::tiles_view(ts@).skip(
            from as int,
        )),
    decreases ts@.len() - from,
{
    proof {
        crate::protocol::lemma_tiles_view(ts@);
    }
    if from == ts.len() {
        let r: Vec<Value> = Vec::new();
        proof {
            crate::value::lemma_deep_view_arr(r@);
            assert(crate::protocol::tiles_view(ts@).skip(from as int)
                =~= Seq::<STileModel>::empty());
            assert(crate::value::deep_view_arr(r@) =~= Seq::<SValue>::empty());
        }
        r
    } else {
        let head = tile_model_to_value(&ts[from]);
        let rest = tiles_to_values(ts, from + 1);
        let ghost rest_view = rest@;
        let mut r = rest;
        r.insert(0, head);
        proof {
            let tv = crate::protocol::tiles_view(ts@);
            assert(r@ =~= seq![head] + rest_view);
            crate::value::lemma_deep_view_arr(r@);
            crate::value::lemma_deep_view_arr(rest_view);
            assert(tv.skip(from as int)[0] == ts@[from as int]@);
            assert(tv.skip(from as int).drop_first() =~= tv.skip(from as int + 1));
            assert(crate::value::deep_view_arr(r@) =~= seq![sv_of_tile_model(ts@[from as int]@)]
                + crate::value::deep_view_arr(rest_view));
        }
        r
    }
}

/// Wire value of a sequence of tiles.
pub fn tiles_to_value(ts: &Vec<TileModel>) -> (r: Value)
    ensures
        r.deep_view() == SValue::Arr(svs_of_tiles(crate::protocol::tiles_view(ts@))),
{
    let vs = tiles_to_values(ts, 0);
    let ghost vsv = vs@;
    let r = Value::Arr(vs);
    proof {
        assert(crate::protocol::tiles_view(ts@).skip(0) =~= crate::protocol::tiles_view(ts@));
    }
    r
}

fn tiles_of_values(items: &Vec<Value>, from: usize) -> (r: Option<Vec<TileModel>>)
    requires
        from <= items@.len(),
    ensures
        match r {
            Some(ts) => tiles_of_svs(crate::value::deep_view_arr(items@).skip(from as int))
                == Some(crate::protocol::tiles_view(ts@)),
            None => tiles_of_svs(crate::value::deep_view_arr(items@).skip(from as int)) is None,
        },
    decreases items@.len() - from,
{
    proof {
        crate::value::lemma_deep_view_arr(items@);
    }
    let ghost dv = crate::value::deep_view_arr(items@);
    if from == items.len() {
        let r: Vec<TileModel> = Vec::new();
        proof {
            assert(dv.skip(from as int) =~= Seq::<SValue>::empty());
            assert(crate::protocol::tiles_view(r@) =~= Seq::<STileModel>::empty());
        }
        Some(r)
    } else {
        assert(dv.skip(from as int)[0] == items@[from as int].deep_view());
        match tile_model_of_value(&items[from]) {
            None => {
                proof {
                    assert(tiles_of_svs(dv.skip(from as int)) is None);
                }
                None
            },
            Some(head) => {
                match tiles_of_values(items, from + 1) {
                    None => {
                        proof {
                            assert(dv.skip(from as int).drop_first() =~= dv.skip(from as int + 1));
                        }
                        None
                    },
                    Some(rest) => {
                        let ghost rest_view = rest@;
                        let ghost head_view = head@;
                        let mut ts = rest;
                        ts.insert(0, head);
                        proof {
                            assert(dv.skip(from as int).drop_first() =~= dv.skip(from as int + 1));
                            assert(ts@ =~= seq![ts@[0]] + rest_view);
                            crate::protocol::lemma_tiles_view(ts@);
                            crate::protocol::lemma_tiles_view(rest_view);
                            assert(crate::protocol::tiles_view(ts@) =~= seq![head_view]
                                + crate::protocol::tiles_view(rest_view));
                        }
                        Some(ts)
                    },
                }
            },
        }
    }
}

/// Reads a sequence of tiles back from a wire value.
pub fn tiles_of_value(v: &Value) -> (r: Option<Vec<TileModel>>)
    ensures
        match (r, v.deep_view()) {
            (Some(ts), SValue::Arr(vs)) => tiles_of_svs(vs)
                == Some(crate::protocol::tiles_view(ts@)),
            (None, SValue::Arr(vs)) => tiles_of_svs(vs) is None,
            (None, _) => true,
            _ => false,
        },
{
    match v {
        Value::Arr(items) => {
            let r = tiles_of_values(items, 0);
            proof {
                assert(crate::value::deep_view_arr(items@).skip(0)
                    =~= crate::value::deep_view_arr(items@));
            }
            r
        },
        _ => None,
    }
}

/// Round trip of a sequence of tiles through their wire values.
pub proof fn lemma_tiles_round_trip(ts: Seq<STileModel>)
    requires
        wf_tiles(ts),
    ensures
        tiles_of_svs(svs_of_tiles(ts)) == Some(ts),
    decreases ts.len(),
{
    if ts.len() == 0 {
        assert(svs_of_tiles(ts) =~= Seq::<SValue>::empty());
    } else {
        lemma_tile_model_round_trip(ts[0]);
        assert(wf_tiles(ts.drop_first())) by {
            assert(forall|k: int|
                0 <= k < ts.drop_first().len() ==> #[trigger] ts.drop_first()[k] == ts[k + 1]);
        }
        lemma_tiles_round_trip(ts.drop_first());
        let vs = svs_of_tiles(ts);
        assert(vs[0] == sv_of_tile_model(ts[0]));
        assert(vs.drop_first() =~= svs_of_tiles(ts.drop_first()));
        assert(seq![ts[0]] + ts.drop_first() =~= ts);
    }
}


// ------------------------------------------------------------------
// Commands
// ------------------------------------------------------------------

/// Wire object of a command, tagged by its kind.
pub open spec fn sv_of_client(m: SClientPluginMessage) -> SValue {
    match m {
        SClientPluginMessage::RegisterPlugin { plugin_id } => SValue::Obj(
            seq![
                ("type"@, SValue::Str("RegisterPlugin"@)),
                ("plugin_id"@, SValue::Str(plugin_id)),
            ],
        ),
        SClientPluginMessage::GetProperties => SValue::Obj(
            seq![("type"@, SValue::Str("GetProperties"@))],
        ),
        SClientPluginMessage::SetProperties { properties, partial } => SValue::Obj(
            seq![
                ("type"@, SValue::Str("SetProperties"@)),
                ("properties"@, properties),
                ("partial"@, SValue::Bool(partial)),
            ],
        ),
        SClientPluginMessage::SendToInspector { ctx, message } => SValue::Obj(
            seq![
                ("type"@, SValue::Str("SendToInspector"@)),
                ("ctx"@, sv_of_inspector_ctx(ctx)),
                ("message"@, message),
            ],
        ),
        SClientPluginMessage::SendToDisplay { ctx, message } => SValue::Obj(
            seq![
                ("type"@, SValue::Str("SendToDisplay"@)),
                ("ctx"@, sv_of_display_ctx(ctx)),
                ("message"@, message),
            ],
        ),
        SClientPluginMessage::OpenUrl { url } => SValue::Obj(
            seq![("type"@, SValue::Str("OpenUrl"@)), ("url"@, SValue::Str(url))],
        ),
        SClientPluginMessage::GetTileProperties { tile_id } => SValue::Obj(
            seq![
                ("type"@, SValue::Str("GetTileProperties"@)),
                ("tile_id"@, SValue::Str(tile_id)),
            ],
        ),
        SClientPluginMessage::SetTileProperties { tile_id, properties, partial } => SValue::Obj(
            seq![
                ("type"@, SValue::Str("SetTileProperties"@)),
                ("tile_id"@, SValue::Str(tile_id)),
                ("properties"@, properties),
                ("partial"@, SValue::Bool(partial)),
            ],
        ),
        SClientPluginMessage::SetTileIcon { tile_id, icon } => SValue::Obj(
            seq![
                ("type"@, SValue::Str("SetTileIcon"@)),
                ("tile_id"@, SValue::Str(tile_id)),
                ("icon"@, sv_of_tile_icon(icon)),
            ],
        ),
        SClientPluginMessage::SetTileLabel { tile_id, label } => SValue::Obj(
            seq![
                ("type"@, SValue::Str("SetTileLabel"@)),
                ("tile_id"@, SValue::Str(tile_id)),
                ("label"@, sv_of_tile_label(label)),
            ],
        ),
        SClientPluginMessage::GetVisibleTiles => SValue::Obj(
            seq![("type"@, SValue::Str("GetVisibleTiles"@))],
        ),
        SClientPluginMessage::DisplayIndicator { device_id, tile_id, indicator, duration } =>
            SValue::Obj(
            seq![
                ("type"@, SValue::Str("DisplayIndicator"@)),
                ("device_id"@, SValue::Str(device_id)),
                ("tile_id"@, SValue::Str(tile_id)),
                ("indicator"@, SValue::Str(str_of_indicator(indicator))),
                ("duration"@, SValue::Num(duration as i64)),
            ],
        ),
    }
}

/// Identifier fields of a command are well-formed.
pub open spec fn wf_client(m: SClientPluginMessage) -> bool {
    match m {
        SClientPluginMessage::SendToInspector { ctx, .. } => wf_inspector_ctx(ctx),
        SClientPluginMessage::SendToDisplay { ctx, .. } => wf_display_ctx(ctx),
        SClientPluginMessage::GetTileProperties { tile_id } => is_wf_uid(tile_id),
        SClientPluginMessage::SetTileProperties { tile_id, .. } => is_wf_uid(tile_id),
        SClientPluginMessage::SetTileIcon { tile_id, .. } => is_wf_uid(tile_id),
        SClientPluginMessage::SetTileLabel { tile_id, .. } => is_wf_uid(tile_id),
        SClientPluginMessage::DisplayIndicator { device_id, tile_id, .. } => is_wf_uid(device_id)
            && is_wf_uid(tile_id),
        _ => true,
    }
}

/// Wire value of a command.
pub fn encode_client_value(m: &ClientPluginMessage) -> (r: Value)
    ensures
        r.deep_view() == sv_of_client(m@),
{
    match m {
        ClientPluginMessage::RegisterPlugin { plugin_id } => {
            let mut fs: Vec<(Vec<char>, Value)> = Vec::new();
            fs.push((chars_of_str("type"), Value::Str(chars_of_str("RegisterPlugin"))));
            fs.push((chars_of_str("plugin_id"), Value::Str(chars_of_string(plugin_id))));
            let ghost fsv = fs@;
            let r = Value::Obj(fs);
            proof {
                lemma_deep_view_obj(fsv);
                assert(deep_view_obj(fsv) =~= seq![
                    ("type"@, SValue::Str("RegisterPlugin"@)),
                    ("plugin_id"@, SValue::Str(plugin_id@)),
                ]);
            }
            r
        },
        ClientPluginMessage::GetProperties => {
            let mut fs: Vec<(Vec<char>, Value)> = Vec::new();
            fs.push((chars_of_str("type"), Value::Str(chars_of_str("GetProperties"))));
            let ghost fsv = fs@;
            let r = Value::Obj(fs);
            proof {
                lemma_deep_view_obj(fsv);
                assert(deep_view_obj(fsv) =~= seq![("type"@, SValue::Str("GetProperties"@))]);
            }
            r
        },
        ClientPluginMessage::SetProperties { properties, partial } => {
            let mut fs: Vec<(Vec<char>, Value)> = Vec::new();
            fs.push((chars_of_str("type"), Value::Str(chars_of_str("SetProperties"))));
            fs.push((chars_of_str("properties"), properties.duplicate()));
            fs.push((chars_of_str("partial"), Value::Bool(*partial)));
            let ghost fsv = fs@;
            let r = Value::Obj(fs);
            proof {
                lemma_deep_view_obj(fsv);
                assert(deep_view_obj(fsv) =~= seq![
                    ("type"@, SValue::Str("SetProperties"@)),
                    ("properties"@, properties.deep_view()),
                    ("partial"@, SValue::Bool(*partial)),
                ]);
            }
            r
        },
        ClientPluginMessage::SendToInspector { ctx, message } => {
            let mut fs: Vec<(Vec<char>, Value)> = Vec::new();
            fs.push((chars_of_str("type"), Value::Str(chars_of_str("SendToInspector"))));
            fs.push((chars_of_str("ctx"), inspector_ctx_to_value(ctx)));
            fs.push((chars_of_str("message"), message.duplicate()));
            let ghost fsv = fs@;
            let r = Value::Obj(fs);
            proof {
                lemma_deep_view_obj(fsv);
                assert(deep_view_obj(fsv) =~= seq![
                    ("type"@, SValue::Str("SendToInspector"@)),
                    ("ctx"@, sv_of_inspector_ctx(ctx@)),
                    ("message"@, message.deep_view()),
                ]);
            }
            r
        },
        ClientPluginMessage::SendToDisplay { ctx, message } => {
            let mut fs: Vec<(Vec<char>, Value)> = Vec::new();
            fs.push((chars_of_str("type"), Value::Str(chars_of_str("SendToDisplay"))));
            fs.push((chars_of_str("ctx"), display_ctx_to_value(ctx)));
            fs.push((chars_of_str("message"), message.duplicate()));
            let ghost fsv = fs@;
            let r = Value::Obj(fs);
            proof {
                lemma_deep_view_obj(fsv);
                assert(deep_view_obj(fsv) =~= seq![
                    ("type"@, SValue::Str("SendToDisplay"@)),
                    ("ctx"@, sv_of_display_ctx(ctx@)),
                    ("message"@, message.deep_view()),
                ]);
            }
            r
        },
        ClientPluginMessage::OpenUrl { url } => {
            let mut fs: Vec<(Vec<char>, Value)> = Vec::new();
            fs.push((chars_of_str("type"), Value::Str(chars_of_str("OpenUrl"))));
            fs.push((chars_of_str("url"), Value::Str(chars_of_string(url))));
            let ghost fsv = fs@;
            let r = Value::Obj(fs);
            proof {
                lemma_deep_view_obj(fsv);
                assert(deep_view_obj(fsv) =~= seq![
                    ("type"@, SValue::Str("OpenUrl"@)),
                    ("url"@, SValue::Str(url@)),
                ]);
            }
            r
        },
        ClientPluginMessage::GetTileProperties { tile_id } => {
            let mut fs: Vec<(Vec<char>, Value)> = Vec::new();
            fs.push((chars_of_str("type"), Value::Str(chars_of_str("GetTileProperties"))));
            fs.push((chars_of_str("tile_id"), Value::Str(copy_chars(&tile_id.text))));
            let ghost fsv = fs@;
            let r = Value::Obj(fs);
            proof {
                lemma_deep_view_obj(fsv);
                assert(deep_view_obj(fsv) =~= seq![
                    ("type"@, SValue::Str("GetTileProperties"@)),
                    ("tile_id"@, SValue::Str(tile_id@)),
                ]);
            }
            r
        },
        ClientPluginMessage::SetTileProperties { tile_id, properties, partial } => {
            let mut fs: Vec<(Vec<char>, Value)> = Vec::new();
            fs.push((chars_of_str("type"), Value::Str(chars_of_str("SetTileProperties"))));
            fs.push((chars_of_str("tile_id"), Value::Str(copy_chars(&tile_id.text))));
            fs.push((chars_of_str("properties"), properties.duplicate()));
            fs.push((chars_of_str("partial"), Value::Bool(*partial)));
            let ghost fsv = fs@;
            let r = Value::Obj(fs);
            proof {
                lemma_deep_view_obj(fsv);
                assert(deep_view_obj(fsv) =~= seq![
                    ("type"@, SValue::Str("SetTileProperties"@)),
                    ("tile_id"@, SValue::Str(tile_id@)),
                    ("properties"@, properties.deep_view()),
                    ("partial"@, SValue::Bool(*partial)),
                ]);
            }
            r
        },
        ClientPluginMessage::SetTileIcon { tile_id, icon } => {
            let mut fs: Vec<(Vec<char>, Value)> = Vec::new();
            fs.push((chars_of_str("type"), Value::Str(chars_of_str("SetTileIcon"))));
            fs.push((chars_of_str("tile_id"), Value::Str(copy_chars(&tile_id.text))));
            fs.push((chars_of_str("icon"), tile_icon_to_value(icon)));
            let ghost fsv = fs@;
            let r = Value::Obj(fs);
            proof {
                lemma_deep_view_obj(fsv);
                assert(deep_view_obj(fsv) =~= seq![
                    ("type"@, SValue::Str("SetTileIcon"@)),
                    ("tile_id"@, SValue::Str(tile_id@)),
                    ("icon"@, sv_of_tile_icon(icon@)),
                ]);
            }
            r
        },
        ClientPluginMessage::SetTileLabel { tile_id, label } => {
            let mut fs: Vec<(Vec<char>, Value)> = Vec::new();
            fs.push((chars_of_str("type"), Value::Str(chars_of_str("SetTileLabel"))));
            fs.push((chars_of_str("tile_id"), Value::Str(copy_chars(&tile_id.text))));
            fs.push((chars_of_str("label"), tile_label_to_value(label)));
            let ghost fsv = fs@;
            let r = Value::Obj(fs);
            proof {
                lemma_deep_view_obj(fsv);
                assert(deep_view_obj(fsv) =~= seq![
                    ("type"@, SValue::Str("SetTileLabel"@)),
                    ("tile_id"@, SValue::Str(tile_id@)),
                    ("label"@, sv_of_tile_label(label@)),
                ]);
            }
            r
        },
        ClientPluginMessage::GetVisibleTiles => {
            let mut fs: Vec<(Vec<char>, Value)> = Vec::new();
            fs.push((chars_of_str("type"), Value::Str(chars_of_str("GetVisibleTiles"))));
            let ghost fsv = fs@;
            let r = Value::Obj(fs);
            proof {
                lemma_deep_view_obj(fsv);
                assert(deep_view_obj(fsv) =~= seq![("type"@, SValue::Str("GetVisibleTiles"@))]);
            }
            r
        },
        ClientPluginMessage::DisplayIndicator { device_id, tile_id, indicator, duration } => {
            let mut fs: Vec<(Vec<char>, Value)> = Vec::new();
            fs.push((chars_of_str("type"), Value::Str(chars_of_str("DisplayIndicator"))));
            fs.push((chars_of_str("device_id"), Value::Str(copy_chars(&device_id.text))));
            fs.push((chars_of_str("tile_id"), Value::Str(copy_chars(&tile_id.text))));
            fs.push((chars_of_str("indicator"), Value::Str(indicator_to_chars(indicator))));
            fs.push((chars_of_str("duration"), Value::Num(*duration as i64)));
            let ghost fsv = fs@;
            let r = Value::Obj(fs);
            proof {
                lemma_deep_view_obj(fsv);
                assert(deep_view_obj(fsv) =~= seq![
                    ("type"@, SValue::Str("DisplayIndicator"@)),
                    ("device_id"@, SValue::Str(device_id@)),
                    ("tile_id"@, SValue::Str(tile_id@)),
                    ("indicator"@, SValue::Str(str_of_indicator(*indicator))),
                    ("duration"@, SValue::Num(*duration as i64)),
                ]);
            }
            r
        },
    }
}

/// Wire text of a command: the printed form of its tagged object.
pub fn encode_client(m: &ClientPluginMessage) -> (out: Vec<char>)
    ensures
        out@ == crate::wire::print_value(sv_of_client(m@)),
{
    let v = encode_client_value(m);
    crate::wire::value_text(&v)
}


// ------------------------------------------------------------------
// Events
// ------------------------------------------------------------------

/// Wire object of an event, tagged by its kind. This is the shape the
/// host sends; the client only reads it.
pub open spec fn sv_of_event(e: SServerPluginMessage) -> SValue {
    match e {
        SServerPluginMessage::Registered { plugin_id } => SValue::Obj(
            seq![
                ("type"@, SValue::Str("Registered"@)),
                ("plugin_id"@, SValue::Str(plugin_id)),
            ],
        ),
        SServerPluginMessage::Properties { properties } => SValue::Obj(
            seq![("type"@, SValue::Str("Properties"@)), ("properties"@, properties)],
        ),
        SServerPluginMessage::TileClicked { ctx, properties } => SValue::Obj(
            seq![
                ("type"@, SValue::Str("TileClicked"@)),
                ("ctx"@, sv_of_interaction_ctx(ctx)),
                ("properties"@, properties),
            ],
        ),
        SServerPluginMessage::RecvFromInspector { ctx, message } => SValue::Obj(
            seq![
                ("type"@, SValue::Str("RecvFromInspector"@)),
                ("ctx"@, sv_of_inspector_ctx(ctx)),
                ("message"@, message),
            ],
        ),
        SServerPluginMessage::RecvFromDisplay { ctx, message } => SValue::Obj(
            seq![
                ("type"@, SValue::Str("RecvFromDisplay"@)),
                ("ctx"@, sv_of_display_ctx(ctx)),
                ("message"@, message),
            ],
        ),
        SServerPluginMessage::InspectorOpen { ctx } => SValue::Obj(
            seq![
                ("type"@, SValue::Str("InspectorOpen"@)),
                ("ctx"@, sv_of_inspector_ctx(ctx)),
            ],
        ),
        SServerPluginMessage::InspectorClose { ctx } => SValue::Obj(
            seq![
                ("type"@, SValue::Str("InspectorClose"@)),
                ("ctx"@, sv_of_inspector_ctx(ctx)),
            ],
        ),
        SServerPluginMessage::DeepLink { ctx } => SValue::Obj(
            seq![("type"@, SValue::Str("DeepLink"@)), ("ctx"@, sv_of_deep_link_ctx(ctx))],
        ),
        SServerPluginMessage::TileProperties { tile_id, properties } => SValue::Obj(
            seq![
                ("type"@, SValue::Str("TileProperties"@)),
                ("tile_id"@, SValue::Str(tile_id)),
                ("properties"@, properties),
            ],
        ),
        SServerPluginMessage::DeviceTiles { device_id, tiles } => SValue::Obj(
            seq![
                ("type"@, SValue::Str("DeviceTiles"@)),
                ("device_id"@, SValue::Str(device_id)),
                ("tiles"@, SValue::Arr(svs_of_tiles(tiles))),
            ],
        ),
        SServerPluginMessage::VisibleTiles { tiles } => SValue::Obj(
            seq![
                ("type"@, SValue::Str("VisibleTiles"@)),
                ("tiles"@, SValue::Arr(svs_of_tiles(tiles))),
            ],
        ),
    }
}

/// Identifier fields of an event are well-formed.
pub open spec fn wf_event(e: SServerPluginMessage) -> bool {
    match e {
        SServerPluginMessage::TileClicked { ctx, .. } => wf_interaction_ctx(ctx),
        SServerPluginMessage::RecvFromInspector { ctx, .. } => wf_inspector_ctx(ctx),
        SServerPluginMessage::RecvFromDisplay { ctx, .. } => wf_display_ctx(ctx),
        SServerPluginMessage::InspectorOpen { ctx } => wf_inspector_ctx(ctx),
        SServerPluginMessage::InspectorClose { ctx } => wf_inspector_ctx(ctx),
        SServerPluginMessage::TileProperties { tile_id, .. } => is_wf_uid(tile_id),
        SServerPluginMessage::DeviceTiles { device_id, tiles } => is_wf_uid(device_id)
            && wf_tiles(tiles),
        SServerPluginMessage::VisibleTiles { tiles } => wf_tiles(tiles),
        _ => true,
    }
}

/// Reads an event back from a wire object; an unknown tag or a
/// malformed payload yields nothing.
pub open spec fn event_of_sv(sv: SValue) -> Option<SServerPluginMessage> {
    match sv {
        SValue::Obj(fs) => match obj_get_str(fs, "type"@) {
            Some(tag) => if tag == "Registered"@ {
                match obj_get_str(fs, "plugin_id"@) {
                    Some(plugin_id) => Some(SServerPluginMessage::Registered { plugin_id }),
                    None => None,
                }
            } else if tag == "Properties"@ {
                match obj_get(fs, "properties"@) {
                    Some(properties) => Some(SServerPluginMessage::Properties { properties }),
                    None => None,
                }
            } else if tag == "TileClicked"@ {
                match (obj_get(fs, "ctx"@), obj_get(fs, "properties"@)) {
                    (Some(cv), Some(properties)) => match interaction_ctx_of_sv(cv) {
                        Some(ctx) => Some(SServerPluginMessage::TileClicked { ctx, properties }),
                        None => None,
                    },
                    _ => None,
                }
            } else if tag == "RecvFromInspector"@ {
                match (obj_get(fs, "ctx"@), obj_get(fs, "message"@)) {
                    (Some(cv), Some(message)) => match inspector_ctx_of_sv(cv) {
                        Some(ctx) => Some(
                            SServerPluginMessage::RecvFromInspector { ctx, message },
                        ),
                        None => None,
                    },
                    _ => None,
                }
            } else if tag == "RecvFromDisplay"@ {
                match (obj_get(fs, "ctx"@), obj_get(fs, "message"@)) {
                    (Some(cv), Some(message)) => match display_ctx_of_sv(cv) {
                        Some(ctx) => Some(SServerPluginMessage::RecvFromDisplay { ctx, message }),
                        None => None,
                    },
                    _ => None,
                }
            } else if tag == "InspectorOpen"@ {
                match obj_get(fs, "ctx"@) {
                    Some(cv) => match inspector_ctx_of_sv(cv) {
                        Some(ctx) => Some(SServerPluginMessage::InspectorOpen { ctx }),
                        None => None,
                    },
                    None => None,
                }
            } else if tag == "InspectorClose"@ {
                match obj_get(fs, "ctx"@) {
                    Some(cv) => match inspector_ctx_of_sv(cv) {
                        Some(ctx) => Some(SServerPluginMessage::InspectorClose { ctx }),
                        None => None,
                    },
                    None => None,
                }
            } else if tag == "DeepLink"@ {
                match obj_get(fs, "ctx"@) {
                    Some(cv) => match deep_link_ctx_of_sv(cv) {
                        Some(ctx) => Some(SServerPluginMessage::DeepLink { ctx }),
                        None => None,
                    },
                    None => None,
                }
            } else if tag == "TileProperties"@ {
                match (obj_get_uid(fs, "tile_id"@), obj_get(fs, "properties"@)) {
                    (Some(tile_id), Some(properties)) => Some(
                        SServerPluginMessage::TileProperties { tile_id, properties },
                    ),
                    _ => None,
                }
            } else if tag == "DeviceTiles"@ {
                match (obj_get_uid(fs, "device_id"@), obj_get(fs, "tiles"@)) {
                    (Some(device_id), Some(SValue::Arr(tvs))) => match tiles_of_svs(tvs) {
                        Some(tiles) => Some(
                            SServerPluginMessage::DeviceTiles { device_id, tiles },
                        ),
                        None => None,
                    },
                    _ => None,
                }
            } else if tag == "VisibleTiles"@ {
                match obj_get(fs, "tiles"@) {
                    Some(SValue::Arr(tvs)) => match tiles_of_svs(tvs) {
                        Some(tiles) => Some(SServerPluginMessage::VisibleTiles { tiles }),
                        None => None,
                    },
                    _ => None,
                }
            } else {
                None
            },
            None => None,
        },
        _ => None,
    }
}

/// Reads an event back from a wire value.
pub fn decode_event_value(v: &Value) -> (r: Option<ServerPluginMessage>)
    ensures
        match r {
            Some(e) => event_of_sv(v.deep_view()) == Some(e@),
            None => event_of_sv(v.deep_view()) is None,
        },
{
    let fs = match v {
        Value::Obj(fs) => fs,
        _ => {
            return None;
        },
    };
    let tag = match get_field(fs, "type") {
        Some(Value::Str(cs)) => cs,
        _ => {
            return None;
        },
    };
    if chars_eq_str(tag, "Registered") {
        match get_str(fs, "plugin_id") {
            Some(plugin_id) => Some(ServerPluginMessage::Registered { plugin_id }),
            None => None,
        }
    } else if chars_eq_str(tag, "Properties") {
        match get_value(fs, "properties") {
            Some(properties) => Some(ServerPluginMessage::Properties { properties }),
            None => None,
        }
    } else if chars_eq_str(tag, "TileClicked") {
        let cv = get_field(fs, "ctx");
        let properties = get_value(fs, "properties");
        match (cv, properties) {
            (Some(cv), Some(properties)) => match interaction_ctx_of_value(cv) {
                Some(ctx) => Some(ServerPluginMessage::TileClicked { ctx, properties }),
                None => None,
            },
            _ => None,
        }
    } else if chars_eq_str(tag, "RecvFromInspector") {
        let cv = get_field(fs, "ctx");
        let message = get_value(fs, "message");
        match (cv, message) {
            (Some(cv), Some(message)) => match inspector_ctx_of_value(cv) {
                Some(ctx) => Some(ServerPluginMessage::RecvFromInspector { ctx, message }),
                None => None,
            },
            _ => None,
        }
    } else if chars_eq_str(tag, "RecvFromDisplay") {
        let cv = get_field(fs, "ctx");
        let message = get_value(fs, "message");
        match (cv, message) {
            (Some(cv), Some(message)) => match display_ctx_of_value(cv) {
                Some(ctx) => Some(ServerPluginMessage::RecvFromDisplay { ctx, message }),
                None => None,
            },
            _ => None,
        }
    } else if chars_eq_str(tag, "InspectorOpen") {
        match get_field(fs, "ctx") {
            Some(cv) => match inspector_ctx_of_value(cv) {
                Some(ctx) => Some(ServerPluginMessage::InspectorOpen { ctx }),
                None => None,
            },
            None => None,
        }
    } else if chars_eq_str(tag, "InspectorClose") {
        match get_field(fs, "ctx") {
            Some(cv) => match inspector_ctx_of_value(cv) {
                Some(ctx) => Some(ServerPluginMessage::InspectorClose { ctx }),
                None => None,
            },
            None => None,
        }
    } else if chars_eq_str(tag, "DeepLink") {
        match get_field(fs, "ctx") {
            Some(cv) => match deep_link_ctx_of_value(cv) {
                Some(ctx) => Some(ServerPluginMessage::DeepLink { ctx }),
                None => None,
            },
            None => None,
        }
    } else if chars_eq_str(tag, "TileProperties") {
        let tile_id = get_uid(fs, "tile_id");
        let properties = get_value(fs, "properties");
        match (tile_id, properties) {
            (Some(tile_id), Some(properties)) => Some(
                ServerPluginMessage::TileProperties { tile_id, properties },
            ),
            _ => None,
        }
    } else if chars_eq_str(tag, "DeviceTiles") {
        let device_id = get_uid(fs, "device_id");
        let tv = get_field(fs, "tiles");
        match (device_id, tv) {
            (Some(device_id), Some(tv)) => match tiles_of_value(tv) {
                Some(tiles) => Some(ServerPluginMessage::DeviceTiles { device_id, tiles }),
                None => None,
            },
            _ => None,
        }
    } else if chars_eq_str(tag, "VisibleTiles") {
        match get_field(fs, "tiles") {
            Some(tv) => match tiles_of_value(tv) {
                Some(tiles) => Some(ServerPluginMessage::VisibleTiles { tiles }),
                None => None,
            },
            None => None,
        }
    } else {
        None
    }
}

/// Result of decoding one text frame: the event, if the text is a
/// complete frame carrying a known, well-shaped event.
pub open spec fn decode_event_text(s: Seq<char>) -> Option<SServerPluginMessage> {
    match crate::wire::sp_document(s) {
        Some(sv) => event_of_sv(sv),
        None => None,
    }
}

/// Decodes one text frame into an event.
pub fn decode_event(s: &Vec<char>) -> (r: Option<ServerPluginMessage>)
    ensures
        match r {
            Some(e) => decode_event_text(s@) == Some(e@),
            None => decode_event_text(s@) is None,
        },
{
    match crate::wire::decode_value(s) {
        Some(v) => decode_event_value(&v),
        None => None,
    }
}


// ------------------------------------------------------------------
// Round trip of events and mirrored commands
// ------------------------------------------------------------------

/// Decoding inverts encoding for events: the tagged wire object of any
/// well-formed event reads back as exactly that event.
pub proof fn lemma_event_round_trip(e: SServerPluginMessage)
    requires
        wf_event(e),
    ensures
        event_of_sv(sv_of_event(e)) == Some(e),
{
    reveal_strlit("type");
    reveal_strlit("Registered");
    reveal_strlit("Properties");
    reveal_strlit("TileClicked");
    reveal_strlit("RecvFromInspector");
    reveal_strlit("RecvFromDisplay");
    reveal_strlit("InspectorOpen");
    reveal_strlit("InspectorClose");
    reveal_strlit("DeepLink");
    reveal_strlit("TileProperties");
    reveal_strlit("DeviceTiles");
    reveal_strlit("VisibleTiles");
    reveal_strlit("plugin_id");
    reveal_strlit("properties");
    reveal_strlit("ctx");
    reveal_strlit("message");
    reveal_strlit("tile_id");
    reveal_strlit("device_id");
    reveal_strlit("tiles");
    assert(("Registered"@).len() == 10 && ("Properties"@).len() == 10);
    assert(("TileClicked"@).len() == 11 && ("DeviceTiles"@).len() == 11);
    assert(("InspectorClose"@).len() == 14 && ("TileProperties"@).len() == 14);
    assert(("RecvFromInspector"@).len() == 17 && ("RecvFromDisplay"@).len() == 15);
    assert(("InspectorOpen"@).len() == 13 && ("DeepLink"@).len() == 8);
    assert(("VisibleTiles"@).len() == 12);
    assert(("Properties"@)[0] != ("Registered"@)[0]);
    assert(("DeviceTiles"@)[0] != ("TileClicked"@)[0]);
    assert(("TileProperties"@)[0] != ("InspectorClose"@)[0]);
    assert(("type"@).len() == 4 && ("plugin_id"@).len() == 9 && ("properties"@).len() == 10);
    assert(("ctx"@).len() == 3 && ("message"@).len() == 7 && ("tile_id"@).len() == 7);
    assert(("device_id"@).len() == 9 && ("tiles"@).len() == 5);
    assert(("message"@)[0] != ("tile_id"@)[0]);
    assert(("plugin_id"@)[0] != ("device_id"@)[0]);
    match e {
        SServerPluginMessage::Registered { plugin_id } => {
            let fs = seq![
                ("type"@, SValue::Str("Registered"@)),
                ("plugin_id"@, SValue::Str(plugin_id)),
            ];
            lemma_obj_get_at(fs, 0, "type"@);
            lemma_obj_get_at(fs, 1, "plugin_id"@);
        },
        SServerPluginMessage::Properties { properties } => {
            let fs = seq![("type"@, SValue::Str("Properties"@)), ("properties"@, properties)];
            lemma_obj_get_at(fs, 0, "type"@);
            lemma_obj_get_at(fs, 1, "properties"@);
        },
        SServerPluginMessage::TileClicked { ctx, properties } => {
            let fs = seq![
                ("type"@, SValue::Str("TileClicked"@)),
                ("ctx"@, sv_of_interaction_ctx(ctx)),
                ("properties"@, properties),
            ];
            lemma_obj_get_at(fs, 0, "type"@);
            lemma_obj_get_at(fs, 1, "ctx"@);
            lemma_obj_get_at(fs, 2, "properties"@);
            lemma_interaction_ctx_round_trip(ctx);
        },
        SServerPluginMessage::RecvFromInspector { ctx, message } => {
            let fs = seq![
                ("type"@, SValue::Str("RecvFromInspector"@)),
                ("ctx"@, sv_of_inspector_ctx(ctx)),
                ("message"@, message),
            ];
            lemma_obj_get_at(fs, 0, "type"@);
            lemma_obj_get_at(fs, 1, "ctx"@);
            lemma_obj_get_at(fs, 2, "message"@);
            lemma_inspector_ctx_round_trip(ctx);
        },
        SServerPluginMessage::RecvFromDisplay { ctx, message } => {
            let fs = seq![
                ("type"@, SValue::Str("RecvFromDisplay"@)),
                ("ctx"@, sv_of_display_ctx(ctx)),
                ("message"@, message),
            ];
            lemma_obj_get_at(fs, 0, "type"@);
            lemma_obj_get_at(fs, 1, "ctx"@);
            lemma_obj_get_at(fs, 2, "message"@);
            lemma_display_ctx_round_trip(ctx);
        },
        SServerPluginMessage::InspectorOpen { ctx } => {
            let fs = seq![
                ("type"@, SValue::Str("InspectorOpen"@)),
                ("ctx"@, sv_of_inspector_ctx(ctx)),
            ];
            lemma_obj_get_at(fs, 0, "type"@);
            lemma_obj_get_at(fs, 1, "ctx"@);
            lemma_inspector_ctx_round_trip(ctx);
        },
        SServerPluginMessage::InspectorClose { ctx } => {
            let fs = seq![
                ("type"@, SValue::Str("InspectorClose"@)),
                ("ctx"@, sv_of_inspector_ctx(ctx)),
            ];
            lemma_obj_get_at(fs, 0, "type"@);
            lemma_obj_get_at(fs, 1, "ctx"@);
            lemma_inspector_ctx_round_trip(ctx);
        },
        SServerPluginMessage::DeepLink { ctx } => {
            let fs = seq![
                ("type"@, SValue::Str("DeepLink"@)),
                ("ctx"@, sv_of_deep_link_ctx(ctx)),
            ];
            lemma_obj_get_at(fs, 0, "type"@);
            lemma_obj_get_at(fs, 1, "ctx"@);
            lemma_deep_link_ctx_round_trip(ctx);
        },
        SServerPluginMessage::TileProperties { tile_id, properties } => {
            let fs = seq![
                ("type"@, SValue::Str("TileProperties"@)),
                ("tile_id"@, SValue::Str(tile_id)),
                ("properties"@, properties),
            ];
            lemma_obj_get_at(fs, 0, "type"@);
            lemma_obj_get_at(fs, 1, "tile_id"@);
            lemma_obj_get_at(fs, 2, "properties"@);
        },
        SServerPluginMessage::DeviceTiles { device_id, tiles } => {
            let fs = seq![
                ("type"@, SValue::Str("DeviceTiles"@)),
                ("device_id"@, SValue::Str(device_id)),
                ("tiles"@, SValue::Arr(svs_of_tiles(tiles))),
            ];
            lemma_obj_get_at(fs, 0, "type"@);
            lemma_obj_get_at(fs, 1, "device_id"@);
            lemma_obj_get_at(fs, 2, "tiles"@);
            lemma_tiles_round_trip(tiles);
        },
        SServerPluginMessage::VisibleTiles { tiles } => {
            let fs = seq![
                ("type"@, SValue::Str("VisibleTiles"@)),
                ("tiles"@, SValue::Arr(svs_of_tiles(tiles))),
            ];
            lemma_obj_get_at(fs, 0, "type"@);
            lemma_obj_get_at(fs, 1, "tiles"@);
            lemma_tiles_round_trip(tiles);
        },
    }
}

/// Decoding inverts encoding through the wire text too: printing the
/// tagged object of a well-formed event and decoding the text recovers
/// exactly that event.
pub proof fn lemma_event_text_round_trip(e: SServerPluginMessage)
    requires
        wf_event(e),
    ensures
        decode_event_text(crate::wire::print_value(sv_of_event(e))) == Some(e),
{
    crate::wire::lemma_value_round_trip(sv_of_event(e));
    lemma_event_round_trip(e);
}

/// The event whose wire shape mirrors a command, where one exists:
/// registration, property stores and inspector or display sends have
/// event-side counterparts that carry the same content.
pub open spec fn mirror_event_of(m: SClientPluginMessage) -> Option<SServerPluginMessage> {
    match m {
        SClientPluginMessage::RegisterPlugin { plugin_id } => Some(
            SServerPluginMessage::Registered { plugin_id },
        ),
        SClientPluginMessage::SetProperties { properties, partial } => Some(
            SServerPluginMessage::Properties { properties },
        ),
        SClientPluginMessage::SetTileProperties { tile_id, properties, partial } => Some(
            SServerPluginMessage::TileProperties { tile_id, properties },
        ),
        SClientPluginMessage::SendToInspector { ctx, message } => Some(
            SServerPluginMessage::RecvFromInspector { ctx, message },
        ),
        SClientPluginMessage::SendToDisplay { ctx, message } => Some(
            SServerPluginMessage::RecvFromDisplay { ctx, message },
        ),
        _ => None,
    }
}

/// Round trip of a mirrored command: for a command whose event-side
/// shape mirrors it, encoding that shape to wire text and decoding the
/// text back recovers the mirrored event, with the command's content.
pub proof fn lemma_command_mirror_round_trip(m: SClientPluginMessage)
    requires
        wf_client(m),
        mirror_event_of(m) is Some,
    ensures
        decode_event_text(crate::wire::print_value(sv_of_event(mirror_event_of(m).unwrap())))
            == mirror_event_of(m),
{
    let e = mirror_event_of(m).unwrap();
    assert(wf_event(e));
    lemma_event_text_round_trip(e);
}

} // verus!
