//! GUI settings: the onedrive command to run and each profile's sync mode.
use vstd::prelude::*;

use crate::text::{chars_of, str_eq, string_of, trim, trim_chars, CharClass};
use crate::present::lit;

verus! {

/// The command run when no other is configured.
pub const DEFAULT_ONEDRIVE_COMMAND: &'static str = "onedrive";

/// Whether a profile syncs on demand or keeps a monitor running.
#[derive(Debug, Clone, Copy, PartialEq, Eq, Structural)]
pub enum SyncMode {
    Manual,
    Automatic,
}

impl SyncMode {
    /// The mode shown at a position of the mode drop-down; unknown positions are manual.
    pub fn from_dropdown_index(index: u32) -> (r: SyncMode)
        ensures
            r == (if index == 1 {
                SyncMode::Automatic
            } else {
                SyncMode::Manual
            }),
    {
        if index == 1 {
            SyncMode::Automatic
        } else {
            SyncMode::Manual
        }
    }

    /// The position of this mode in the mode drop-down.
    pub fn dropdown_index(self) -> (r: u32)
        ensures
            r == (match self {
                SyncMode::Manual => 0u32,
                SyncMode::Automatic => 1u32,
            }),
    {
        match self {
            SyncMode::Manual => 0,
            SyncMode::Automatic => 1,
        }
    }

    /// The text that stores this mode in the settings file.
    pub fn setting_value(self) -> (r: &'static str)
        ensures
            r@ == setting_text(self),
    {
        match self {
            SyncMode::Manual => "manual",
            SyncMode::Automatic => "automatic",
        }
    }

    /// The mode a stored text names; other texts name none.
    pub fn from_setting_value(value: &str) -> (r: Option<SyncMode>)
        ensures
            r == (if value@ == "manual"@ {
                Some(SyncMode::Manual)
            } else if value@ == "automatic"@ {
                Some(SyncMode::Automatic)
            } else {
                None
            }),
    {
        if str_eq(value, "manual") {
            Some(SyncMode::Manual)
        } else if str_eq(value, "automatic") {
            Some(SyncMode::Automatic)
        } else {
            None
        }
    }
}

/// The text that stores a mode in the settings file.
pub open spec fn setting_text(mode: SyncMode) -> Seq<char> {
    match mode {
        SyncMode::Manual => "manual"@,
        SyncMode::Automatic => "automatic"@,
    }
}

/// The mode a profile has by the settings file: the one its stored text names, and
/// manual when there is no text or the text names none.
pub open spec fn stored_mode_spec(value: Option<Seq<char>>) -> SyncMode {
    match value {
        Some(v) => if v == "automatic"@ {
            SyncMode::Automatic
        } else {
            SyncMode::Manual
        },
        None => SyncMode::Manual,
    }
}

pub fn stored_sync_mode(value: Option<&str>) -> (r: SyncMode)
    ensures
        r == stored_mode_spec(match value {
            Some(v) => Some(v@),
            None => None,
        }),
{
    proof {
        reveal_strlit("manual");
        reveal_strlit("automatic");
        assert("manual"@.len() != "automatic"@.len());
    }
    let found = match value {
        Some(v) => SyncMode::from_setting_value(v),
        None => None,
    };
    match found {
        Some(m) => m,
        None => SyncMode::Manual,
    }
}

/// A mode written to the settings file reads back as the same mode.
pub proof fn law_saved_mode_reads_back(mode: SyncMode)
    ensures
        stored_mode_spec(Some(setting_text(mode))) == mode,
{
    reveal_strlit("manual");
    reveal_strlit("automatic");
    assert("manual"@ != "automatic"@) by {
        assert("manual"@.len() != "automatic"@.len());
    }
}

/// Choosing a mode in the drop-down and reading its position back gives the same
/// mode, and the same position.
pub proof fn law_dropdown_round_trip(mode: SyncMode, index: u32)
    ensures
        (if (match mode {
            SyncMode::Manual => 0u32,
            SyncMode::Automatic => 1u32,
        }) == 1 {
            SyncMode::Automatic
        } else {
            SyncMode::Manual
        }) == mode,
        index <= 1 ==> (match (if index == 1 {
            SyncMode::Automatic
        } else {
            SyncMode::Manual
        }) {
            SyncMode::Manual => 0u32,
            SyncMode::Automatic => 1u32,
        }) == index,
{
}

/// The command named by the `onedrive_binary` setting, trimmed; the default when the
/// setting is missing or blank.
pub fn onedrive_command_from(setting: Option<&str>) -> (r: String)
    ensures
        r@ == (match setting {
            Some(s) => if trim(s@).len() > 0 {
                trim(s@)
            } else {
                "onedrive"@
            },
            None => "onedrive"@,
        }),
{
    match setting {
        Some(s) => {
            let t = trim_chars(&chars_of(s), CharClass::Whitespace);
            if t.len() > 0 {
                string_of(&t)
            } else {
                string_of(&chars_of("onedrive"))
            }
        },
        None => string_of(&chars_of("onedrive")),
    }
}

// ---------------------------------------------------------------------------
// The settings file
// ---------------------------------------------------------------------------

/// A JSON value as the settings file holds it; an object keeps its entries in order.
#[derive(Debug)]
pub enum JsonValue {
    Null,
    Bool(bool),
    /// A number, as its JSON text.
    Number(String),
    Str(String),
    Array(Vec<JsonValue>),
    Object(Vec<(String, JsonValue)>),
}

/// The key under which each profile's sync mode is stored.
pub const PROFILE_SYNC_MODES_KEY: &'static str = "profile_sync_modes";

/// The position of the first entry with this key.
pub open spec fn entry_pos(es: Seq<(String, JsonValue)>, key: Seq<char>) -> Option<int> {
    if exists|i: int| 0 <= i < es.len() && #[trigger] es[i].0@ == key {
        Some(
            choose|i: int|
                0 <= i < es.len() && #[trigger] es[i].0@ == key && forall|j: int|
                    0 <= j < i ==> es[j].0@ != key,
        )
    } else {
        None
    }
}

proof fn lemma_entry_pos_is(es: Seq<(String, JsonValue)>, key: Seq<char>, i: int)
    requires
        0 <= i < es.len(),
        es[i].0@ == key,
        forall|j: int| 0 <= j < i ==> #[trigger] es[j].0@ != key,
    ensures
        entry_pos(es, key) == Some(i),
{
    let k = choose|k: int|
        0 <= k < es.len() && #[trigger] es[k].0@ == key && forall|j: int| 0 <= j < k ==> es[j].0@ != key;
    assert(0 <= k < es.len() && es[k].0@ == key);
    if k < i {
        assert(es[k].0@ != key);
    }
    if i < k {
        assert(es[i].0@ != key);
    }
}

/// What `entry_pos` gives: the first entry with the key, or none when no entry has it.
pub proof fn lemma_entry_pos(es: Seq<(String, JsonValue)>, key: Seq<char>)
    ensures
        match entry_pos(es, key) {
            Some(i) => 0 <= i < es.len() && es[i].0@ == key && forall|j: int|
                0 <= j < i ==> #[trigger] es[j].0@ != key,
            None => forall|j: int| 0 <= j < es.len() ==> #[trigger] es[j].0@ != key,
        },
{
    if exists|i: int| 0 <= i < es.len() && #[trigger] es[i].0@ == key {
        let i = choose|i: int| 0 <= i < es.len() && #[trigger] es[i].0@ == key;
        let k = lemma_first_entry(es, key, i);
        lemma_entry_pos_is(es, key, k);
    }
}

proof fn lemma_first_entry(es: Seq<(String, JsonValue)>, key: Seq<char>, i: int) -> (k: int)
    requires
        0 <= i < es.len(),
        es[i].0@ == key,
    ensures
        0 <= k <= i,
        es[k].0@ == key,
        forall|j: int| 0 <= j < k ==> #[trigger] es[j].0@ != key,
    decreases i,
{
    if exists|j: int| 0 <= j < i && #[trigger] es[j].0@ == key {
        let j = choose|j: int| 0 <= j < i && #[trigger] es[j].0@ == key;
        lemma_first_entry(es, key, j)
    } else {
        i
    }
}

fn find_entry(es: &Vec<(String, JsonValue)>, key: &str) -> (r: Option<usize>)
    ensures
        match r {
            Some(i) => i < es@.len() && entry_pos(es@, key@) == Some(i as int),
            None => entry_pos(es@, key@) == None::<int>,
        },
{
    let mut i: usize = 0;
    while i < es.len()
        invariant
            i <= es@.len(),
            forall|j: int| 0 <= j < i ==> #[trigger] es@[j].0@ != key@,
        decreases es.len() - i,
    {
        if str_eq(es[i].0.as_str(), key) {
            proof {
                lemma_entry_pos_is(es@, key@, i as int);
            }
            return Some(i);
        }
        i += 1;
    }
    proof {
        lemma_entry_pos(es@, key@);
    }
    None
}

/// The text of the first entry with this key, when that entry holds a string.
pub open spec fn text_entry(es: Seq<(String, JsonValue)>, key: Seq<char>) -> Option<Seq<char>> {
    match entry_pos(es, key) {
        Some(i) => match es[i].1 {
            JsonValue::Str(s) => Some(s@),
            _ => None,
        },
        None => None,
    }
}

/// The entries of an object, or none for any other value.
pub open spec fn entries_of(v: JsonValue) -> Seq<(String, JsonValue)> {
    match v {
        JsonValue::Object(es) => es@,
        _ => Seq::empty(),
    }
}

/// The string a top-level setting holds, if any.
pub open spec fn top_text(doc: JsonValue) -> Option<Seq<char>> {
    match doc {
        JsonValue::Object(es) => text_entry(es@, "onedrive_binary"@),
        _ => None,
    }
}

/// The text a profile's sync mode is stored as, if any.
pub open spec fn mode_text(doc: JsonValue, profile_id: Seq<char>) -> Option<Seq<char>> {
    match doc {
        JsonValue::Object(es) => match entry_pos(es@, PROFILE_SYNC_MODES_KEY@) {
            Some(i) => match es@[i].1 {
                JsonValue::Object(ms) => text_entry(ms@, profile_id),
                _ => None,
            },
            None => None,
        },
        _ => None,
    }
}

fn text_of_entry<'a>(es: &'a Vec<(String, JsonValue)>, key: &str) -> (r: Option<&'a str>)
    ensures
        match r {
            Some(s) => text_entry(es@, key@) == Some(s@),
            None => text_entry(es@, key@) == None::<Seq<char>>,
        },
{
    match find_entry(es, key) {
        Some(i) => match &es[i].1 {
            JsonValue::Str(s) => Some(s.as_str()),
            _ => None,
        },
        None => None,
    }
}

/// The onedrive command the settings name: the trimmed `onedrive_binary` string, or
/// the default when it is missing, blank or not a string.
pub fn onedrive_command_from_settings(doc: &JsonValue) -> (r: String)
    ensures
        r@ == (match top_text(*doc) {
            Some(s) => if trim(s).len() > 0 {
                trim(s)
            } else {
                "onedrive"@
            },
            None => "onedrive"@,
        }),
{
    let setting = match doc {
        JsonValue::Object(es) => text_of_entry(es, "onedrive_binary"),
        _ => None,
    };
    onedrive_command_from(setting)
}

/// The sync mode the settings give a profile: automatic only when its stored text is
/// `automatic`.
pub fn sync_mode_from_settings(doc: &JsonValue, profile_id: &str) -> (r: SyncMode)
    ensures
        r == stored_mode_spec(mode_text(*doc, profile_id@)),
{
    let text = match doc {
        JsonValue::Object(es) => match find_entry(es, PROFILE_SYNC_MODES_KEY) {
            Some(i) => match &es[i].1 {
                JsonValue::Object(ms) => text_of_entry(ms, profile_id),
                _ => None,
            },
            None => None,
        },
        _ => None,
    };
    stored_sync_mode(text)
}

/// `after` is `before` with the entry `key` holding the string `text`: the first entry
/// with the key changed in place, or a new entry at the end.
pub open spec fn set_text_spec(
    before: Seq<(String, JsonValue)>,
    after: Seq<(String, JsonValue)>,
    key: Seq<char>,
    text: Seq<char>,
) -> bool {
    match entry_pos(before, key) {
        Some(p) => {
            &&& after.len() == before.len()
            &&& after[p].0 == before[p].0
            &&& after[p].1 matches JsonValue::Str(s) && s@ == text
            &&& forall|j: int| 0 <= j < before.len() && j != p ==> after[j] == before[j]
        },
        None => {
            &&& after.len() == before.len() + 1
            &&& after.take(before.len() as int) == before
            &&& after[before.len() as int].0@ == key
            &&& after[before.len() as int].1 matches JsonValue::Str(s) && s@ == text
        },
    }
}

/// `after` is `before` with the entry `key` holding an object whose entries are `ms`:
/// the first entry with the key changed in place, or a new entry at the end.
pub open spec fn set_modes_spec(
    before: Seq<(String, JsonValue)>,
    after: Seq<(String, JsonValue)>,
    key: Seq<char>,
    modes: spec_fn(Seq<(String, JsonValue)>) -> bool,
) -> bool {
    match entry_pos(before, key) {
        Some(i) => {
            &&& after.len() == before.len()
            &&& after[i].0 == before[i].0
            &&& after[i].1 matches JsonValue::Object(ms) && modes(ms@)
            &&& forall|j: int| 0 <= j < before.len() && j != i ==> after[j] == before[j]
        },
        None => {
            &&& after.len() == before.len() + 1
            &&& after.take(before.len() as int) == before
            &&& after[before.len() as int].0@ == key
            &&& after[before.len() as int].1 matches JsonValue::Object(ms) && modes(ms@)
        },
    }
}

/// The mode entries before a save: those of the stored object, or none when the
/// setting is missing or not an object.
pub open spec fn old_modes(es: Seq<(String, JsonValue)>) -> Seq<(String, JsonValue)> {
    match entry_pos(es, PROFILE_SYNC_MODES_KEY@) {
        Some(i) => entries_of(es[i].1),
        None => Seq::empty(),
    }
}

/// The settings after saving a profile's mode: the document made an object if it was
/// not one, the modes setting made an object if it was not one, and the profile's
/// entry set to the mode's text; every other entry stays.
pub open spec fn mode_saved(doc: JsonValue, profile_id: Seq<char>, m: SyncMode, r: JsonValue) -> bool {
    r matches JsonValue::Object(res) && set_modes_spec(
        entries_of(doc),
        res@,
        PROFILE_SYNC_MODES_KEY@,
        |ms2: Seq<(String, JsonValue)>| set_text_spec(old_modes(entries_of(doc)), ms2, profile_id, setting_text(m)),
    )
}

/// The settings after forgetting a profile's mode: its first entry removed from the
/// modes object; nothing changes when there is no such object.
pub open spec fn mode_forgotten(doc: JsonValue, profile_id: Seq<char>, r: JsonValue) -> bool {
    match doc {
        JsonValue::Object(es) => match entry_pos(es@, PROFILE_SYNC_MODES_KEY@) {
            Some(i) => match es@[i].1 {
                JsonValue::Object(ms) => r matches JsonValue::Object(res) && set_modes_spec(
                    es@,
                    res@,
                    PROFILE_SYNC_MODES_KEY@,
                    |ms2: Seq<(String, JsonValue)>| ms2 == (match entry_pos(ms@, profile_id) {
                        Some(p) => ms@.remove(p),
                        None => ms@,
                    }),
                ),
                _ => r == doc,
            },
            None => r == doc,
        },
        _ => r == doc,
    }
}

/// The settings after saving a profile's mode (`Some`) or forgetting it (`None`).
pub open spec fn profile_mode_saved(doc: JsonValue, profile_id: Seq<char>, mode: Option<SyncMode>, r: JsonValue) -> bool {
    match mode {
        Some(m) => mode_saved(doc, profile_id, m, r),
        None => mode_forgotten(doc, profile_id, r),
    }
}

fn set_text_entry(ms: &mut Vec<(String, JsonValue)>, key: &str, text: &str)
    ensures
        set_text_spec(old(ms)@, final(ms)@, key@, text@),
{
    match find_entry(ms, key) {
        Some(p) => {
            let ghost before = ms@;
            let (k, _) = ms.remove(p);
            let entry = (k, JsonValue::Str(lit(text)));
            let ghost e = entry;
            ms.insert(p, entry);
            assert(ms@ =~= before.update(p as int, e));
        },
        None => {
            ms.push((lit(key), JsonValue::Str(lit(text))));
            assert(ms@.take(old(ms)@.len() as int) =~= old(ms)@);
        },
    }
}

#[verifier::rlimit(40)]
fn save_profile_mode(doc: JsonValue, profile_id: &str, m: SyncMode) -> (r: JsonValue)
    ensures
        mode_saved(doc, profile_id@, m, r),
{
    let ghost d = doc;
    let mut es = match doc {
        JsonValue::Object(es) => es,
        _ => Vec::new(),
    };
    assert(es@ == entries_of(d));
    let ghost before = es@;
    match find_entry(&es, PROFILE_SYNC_MODES_KEY) {
        Some(i) => {
            let (k, v) = es.remove(i);
            let mut ms = match v {
                JsonValue::Object(ms) => ms,
                _ => Vec::new(),
            };
            assert(ms@ == old_modes(before));
            set_text_entry(&mut ms, profile_id, m.setting_value());
            let ghost ms2 = ms@;
            let entry = (k, JsonValue::Object(ms));
            let ghost e = entry;
            es.insert(i, entry);
            assert(es@ =~= before.update(i as int, e));
            assert(es@[i as int].1 matches JsonValue::Object(x) && x@ == ms2);
        },
        None => {
            let mut ms: Vec<(String, JsonValue)> = Vec::new();
            assert(ms@ == old_modes(before));
            set_text_entry(&mut ms, profile_id, m.setting_value());
            let ghost ms2 = ms@;
            es.push((lit(PROFILE_SYNC_MODES_KEY), JsonValue::Object(ms)));
            assert(es@.take(before.len() as int) =~= before);
            assert(es@[before.len() as int].1 matches JsonValue::Object(x) && x@ == ms2);
        },
    }
    JsonValue::Object(es)
}

#[verifier::rlimit(40)]
fn forget_profile_mode(doc: JsonValue, profile_id: &str) -> (r: JsonValue)
    ensures
        mode_forgotten(doc, profile_id@, r),
{
    let at = match &doc {
        JsonValue::Object(es) => match find_entry(es, PROFILE_SYNC_MODES_KEY) {
            Some(i) => if matches!(es[i].1, JsonValue::Object(_)) {
                Some(i)
            } else {
                None
            },
            None => None,
        },
        _ => None,
    };
    let i = match at {
        Some(i) => i,
        None => {
            return doc;
        },
    };
    match doc {
        JsonValue::Object(mut es) => {
            let ghost before = es@;
            let (k, v) = es.remove(i);
            let mut ms = match v {
                JsonValue::Object(ms) => ms,
                _ => Vec::new(),
            };
            let ghost old_ms = ms@;
            assert(before[i as int].1 matches JsonValue::Object(x) && x@ == old_ms);
            match find_entry(&ms, profile_id) {
                Some(p) => {
                    ms.remove(p);
                },
                None => {},
            }
            let ghost ms2 = ms@;
            let entry = (k, JsonValue::Object(ms));
            let ghost e = entry;
            es.insert(i, entry);
            assert(es@ =~= before.update(i as int, e));
            assert(es@[i as int].1 matches JsonValue::Object(x) && x@ == ms2);
            JsonValue::Object(es)
        },
        other => other,
    }
}

/// Saves (`Some`) or forgets (`None`) a profile's sync mode in the settings document:
/// see `profile_mode_saved`.
pub fn settings_with_profile_mode(doc: JsonValue, profile_id: &str, mode: Option<SyncMode>) -> (r: JsonValue)
    ensures
        profile_mode_saved(doc, profile_id@, mode, r),
{
    match mode {
        Some(m) => save_profile_mode(doc, profile_id, m),
        None => forget_profile_mode(doc, profile_id),
    }
}

/// A mode saved for a profile reads back as that mode.
pub proof fn law_saved_profile_mode_reads_back(doc: JsonValue, profile_id: Seq<char>, m: SyncMode, r: JsonValue)
    requires
        profile_mode_saved(doc, profile_id, Some(m), r),
    ensures
        stored_mode_spec(mode_text(r, profile_id)) == m,
{
    let es = entries_of(doc);
    lemma_entry_pos(es, PROFILE_SYNC_MODES_KEY@);
    let res = entries_of(r);
    let (ms_before, pos) = match entry_pos(es, PROFILE_SYNC_MODES_KEY@) {
        Some(i) => (entries_of(es[i].1), i),
        None => (Seq::empty(), es.len() as int),
    };
    assert(res[pos].0@ == PROFILE_SYNC_MODES_KEY@);
    assert forall|j: int| 0 <= j < pos implies #[trigger] res[j].0@ != PROFILE_SYNC_MODES_KEY@ by {
        assert(res[j] == es[j]);
    }
    lemma_entry_pos_is(res, PROFILE_SYNC_MODES_KEY@, pos);
    let ms2 = entries_of(res[pos].1);
    lemma_entry_pos(ms_before, profile_id);
    let q = match entry_pos(ms_before, profile_id) {
        Some(p) => p,
        None => ms_before.len() as int,
    };
    assert forall|j: int| 0 <= j < q implies #[trigger] ms2[j].0@ != profile_id by {
        assert(ms2[j] == ms_before[j]);
    }
    lemma_entry_pos_is(ms2, profile_id, q);
    law_saved_mode_reads_back(m);
}

} // verus!
