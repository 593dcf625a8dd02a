//! Persisted launcher settings: a typed key-to-value map with defaults.
//!
//! The map is stored as a JSON object. Keys the launcher does not know
//! are kept as they are; values of shapes the store does not model
//! degrade to [`Setting::Null`] instead of failing the load.

use vstd::prelude::*;
use crate::error::ConfigError;
use crate::util::bytes_eq;
use crate::util::push_bytes;
use crate::json::JsonValue;
use crate::json::JVal;
use crate::json::sp_document;
use crate::json::sp_value;
use crate::json::sp_elems;
use crate::json::sp_members;
use crate::json::ws_len;
use crate::json::is_ws;
use crate::json::views_of;
use crate::json::member_views;
use crate::json::spec_emit_string;
use crate::json::spec_emit_int;
use crate::json::emit_string;
use crate::json::emit_int;
use crate::json::parse_document;
use crate::json::lemma_string_round_trip;
use crate::json::lemma_int_round_trip;
use crate::json::lemma_emit_int_first_byte;
use crate::json::lemma_member_cons;
use crate::json::lemma_member_last_newline;
use crate::json::lemma_members_ws_prepend;

verus! {

/// One setting value.
#[derive(Debug, Clone, PartialEq)]
pub enum Setting {
    Boolean(bool),
    Integer(i32),
    Text(Vec<u8>),
    StringArray(Vec<Vec<u8>>),
    Null,
}

/// The mathematical counterpart of [`Setting`].
pub enum SettingModel {
    Boolean(bool),
    Integer(i32),
    Text(Seq<u8>),
    StringArray(Seq<Seq<u8>>),
    Null,
}

impl Setting {
    pub open spec fn view(&self) -> SettingModel {
        match self {
            Setting::Boolean(b) => SettingModel::Boolean(*b),
            Setting::Integer(n) => SettingModel::Integer(*n),
            Setting::Text(t) => SettingModel::Text(t@),
            Setting::StringArray(a) => SettingModel::StringArray(
                Seq::new(a@.len(), |k: int| a@[k]@),
            ),
            Setting::Null => SettingModel::Null,
        }
    }
}

/// First value stored under `key`, if any.
pub open spec fn spec_lookup(m: Seq<(Seq<u8>, SettingModel)>, key: Seq<u8>) -> Option<SettingModel>
    decreases m.len(),
{
    if m.len() == 0 {
        None
    } else if m[0].0 == key {
        Some(m[0].1)
    } else {
        spec_lookup(m.drop_first(), key)
    }
}

/// Replaces the first entry under `key`, or appends a new one.
pub open spec fn spec_insert(
    m: Seq<(Seq<u8>, SettingModel)>,
    key: Seq<u8>,
    v: SettingModel,
) -> Seq<(Seq<u8>, SettingModel)>
    decreases m.len(),
{
    if m.len() == 0 {
        seq![(key, v)]
    } else if m[0].0 == key {
        seq![(key, v)] + m.drop_first()
    } else {
        seq![m[0]] + spec_insert(m.drop_first(), key, v)
    }
}

proof fn lemma_lookup_none_all_diff(m: Seq<(Seq<u8>, SettingModel)>, key: Seq<u8>)
    requires
        spec_lookup(m, key) is None,
    ensures
        forall|j: int| 0 <= j < m.len() ==> (#[trigger] m[j]).0 != key,
    decreases m.len(),
{
    if m.len() > 0 {
        lemma_lookup_none_all_diff(m.drop_first(), key);
        assert(forall|j: int|
            1 <= j < m.len() ==> #[trigger] m[j] == m.drop_first()[j - 1]);
    }
}

proof fn lemma_spec_insert_found(
    m: Seq<(Seq<u8>, SettingModel)>,
    key: Seq<u8>,
    v: SettingModel,
    i: int,
)
    requires
        0 <= i < m.len(),
        m[i].0 == key,
        forall|j: int| 0 <= j < i ==> (#[trigger] m[j]).0 != key,
    ensures
        spec_insert(m, key, v) == m.update(i, (key, v)),
    decreases m.len(),
{
    if i == 0 {
        assert(spec_insert(m, key, v) =~= m.update(0, (key, v)));
    } else {
        assert(m.drop_first()[i - 1] == m[i]);
        assert(forall|j: int|
            0 <= j < i - 1 ==> m.drop_first()[j] == #[trigger] m[j + 1]);
        lemma_spec_insert_found(m.drop_first(), key, v, i - 1);
        assert(seq![m[0]] + m.drop_first().update(i - 1, (key, v)) =~= m.update(i, (key, v)));
    }
}

proof fn lemma_spec_insert_absent(m: Seq<(Seq<u8>, SettingModel)>, key: Seq<u8>, v: SettingModel)
    requires
        spec_lookup(m, key) is None,
    ensures
        spec_insert(m, key, v) == m.push((key, v)),
    decreases m.len(),
{
    if m.len() == 0 {
        assert(spec_insert(m, key, v) =~= m.push((key, v)));
    } else {
        lemma_spec_insert_absent(m.drop_first(), key, v);
        assert(seq![m[0]] + m.drop_first().push((key, v)) =~= m.push((key, v)));
    }
}

/// The settings store: an ordered association list with unique keys.
pub struct SettingManager {
    settings: Vec<(Vec<u8>, Setting)>,
}

impl SettingManager {
    pub closed spec fn view(&self) -> Seq<(Seq<u8>, SettingModel)> {
        Seq::new(self.settings@.len(), |k: int| (self.settings@[k].0@, self.settings@[k].1@))
    }

    /// Keys are pairwise distinct.
    pub open spec fn wf(&self) -> bool {
        forall|i: int, j: int|
            0 <= i < j < self@.len() ==> (#[trigger] self@[i]).0 != (#[trigger] self@[j]).0
    }

    pub open spec fn spec_get(&self, id: Seq<u8>) -> Option<SettingModel> {
        spec_lookup(self@, id)
    }

    /// An empty store.
    pub fn new() -> (r: SettingManager)
        ensures
            r@ == Seq::<(Seq<u8>, SettingModel)>::empty(),
            r.wf(),
    {
        let r = SettingManager { settings: Vec::new() };
        proof {
            assert(r@ =~= Seq::<(Seq<u8>, SettingModel)>::empty());
        }
        r
    }

    /// Returns the setting stored under `id`, if any.
    pub fn get_setting(&self, id: &Vec<u8>) -> (r: Option<&Setting>)
        ensures
            match r {
                Some(v) => self.spec_get(id@) == Some(v@),
                None => self.spec_get(id@) is None,
            },
    {
        let ghost dv = self@;
        proof {
            assert(dv.subrange(0, dv.len() as int) =~= dv);
        }
        let mut i: usize = 0;
        while i < self.settings.len()
            invariant
                i <= self.settings@.len(),
                dv == self@,
                dv.len() == self.settings@.len(),
                spec_lookup(dv, id@) == spec_lookup(dv.subrange(i as int, dv.len() as int), id@),
            decreases self.settings@.len() - i,
        {
            let ghost tail = dv.subrange(i as int, dv.len() as int);
            proof {
                assert(tail[0] == dv[i as int]);
                assert(tail.drop_first() =~= dv.subrange(i + 1, dv.len() as int));
            }
            if bytes_eq(&self.settings[i].0, id) {
                return Some(&self.settings[i].1);
            }
            i += 1;
        }
        proof {
            assert(dv.subrange(dv.len() as int, dv.len() as int) =~= Seq::<
                (Seq<u8>, SettingModel),
            >::empty());
        }
        None
    }

    /// Stores `setting` under `id`, replacing an existing entry.
    pub fn set_setting(&mut self, id: Vec<u8>, setting: Setting)
        ensures
            final(self)@ == spec_insert(old(self)@, id@, setting@),
            old(self).wf() ==> final(self).wf(),
    {
        let ghost dv = self@;
        let ghost gid = id@;
        let ghost gset = setting@;
        let ghost inserted = spec_insert(dv, gid, gset);
        let mut i: usize = 0;
        while i < self.settings.len()
            invariant
                i <= self.settings@.len(),
                dv == self@,
                dv == old(self)@,
                dv.len() == self.settings@.len(),
                gid == id@,
                gset == setting@,
                inserted == spec_insert(dv, gid, gset),
                forall|j: int| 0 <= j < i ==> (#[trigger] dv[j]).0 != gid,
            decreases self.settings@.len() - i,
        {
            proof {
                assert(dv[i as int] == (self.settings@[i as int].0@, self.settings@[i as int].1@));
            }
            if bytes_eq(&self.settings[i].0, &id) {
                proof {
                    assert(self.settings@[i as int].0@ == gid);
                    assert(dv[i as int].0 == self.settings@[i as int].0@);
                    assert(dv[i as int].0 == gid);
                    lemma_spec_insert_found(dv, gid, gset, i as int);
                }
                let ghost osv = self.settings@;
                self.settings[i] = (id, setting);
                proof {
                    assert(self.settings@ == osv.update(i as int, (id, setting)));
                    assert(self.settings@[i as int] == (id, setting));
                    assert(self.settings@[i as int].0@ == gid);
                    assert(self.settings@[i as int].1@ == gset);
                    assert forall|a: int| 0 <= a < self@.len() implies self@[a] == inserted[a] by {
                        if a == i {
                            assert(self@[a] == (gid, gset));
                        } else {
                            assert(self.settings@[a] == osv[a]);
                            assert(self@[a] == dv[a]);
                        }
                    }
                    assert(self@ =~= inserted);
                    if old(self).wf() {
                        assert forall|a: int, b: int|
                            0 <= a < b < self@.len() implies (#[trigger] self@[a]).0 != (
                        #[trigger] self@[b]).0 by {
                            assert(self@[a].0 == dv[a].0);
                            assert(self@[b].0 == dv[b].0);
                        }
                    }
                }
                return ;
            }
            i += 1;
        }
        proof {
            lemma_lookup_all_diff_none(dv, gid);
            lemma_spec_insert_absent(dv, gid, gset);
        }
        let ghost osv = self.settings@;
        self.settings.push((id, setting));
        proof {
            assert(self.settings@ == osv.push((id, setting)));
            assert forall|a: int| 0 <= a < self@.len() implies self@[a] == inserted[a] by {
                if a == dv.len() {
                    assert(self.settings@[a].0@ == gid);
                    assert(self.settings@[a].1@ == gset);
                    assert(inserted[a] == (gid, gset));
                } else {
                    assert(self.settings@[a] == osv[a]);
                    assert(self@[a] == dv[a]);
                }
            }
            assert(self@ =~= inserted);
            if old(self).wf() {
                assert forall|a: int, b: int|
                    0 <= a < b < self@.len() implies (#[trigger] self@[a]).0 != (
                #[trigger] self@[b]).0 by {
                    if b == dv.len() {
                        assert(self@[a].0 == dv[a].0);
                        assert(self@[b].0 == gid);
                    } else {
                        assert(self@[a].0 == dv[a].0);
                        assert(self@[b].0 == dv[b].0);
                    }
                }
            }
        }
    }

    /// The whole map, in storage order.
    pub fn get_settings(&self) -> (r: &Vec<(Vec<u8>, Setting)>)
        ensures
            r@.len() == self@.len(),
            forall|k: int|
                0 <= k < r@.len() ==> (#[trigger] r@[k]).0@ == self@[k].0 && r@[k].1@
                    == self@[k].1,
    {
        &self.settings
    }
}

proof fn lemma_lookup_all_diff_none(m: Seq<(Seq<u8>, SettingModel)>, key: Seq<u8>)
    requires
        forall|j: int| 0 <= j < m.len() ==> (#[trigger] m[j]).0 != key,
    ensures
        spec_lookup(m, key) is None,
    decreases m.len(),
{
    if m.len() > 0 {
        assert(forall|j: int|
            0 <= j < m.drop_first().len() ==> #[trigger] m.drop_first()[j] == m[j + 1]);
        lemma_lookup_all_diff_none(m.drop_first(), key);
    }
}

// ---------------------------------------------------------------------
// Default settings
// ---------------------------------------------------------------------

/// The key `memory`.
pub open spec fn key_memory() -> Seq<u8> {
    seq![0x6du8, 0x65u8, 0x6du8, 0x6fu8, 0x72u8, 0x79u8]
}

/// The key `java_executable`.
pub open spec fn key_java_executable() -> Seq<u8> {
    seq![
        0x6au8,
        0x61u8,
        0x76u8,
        0x61u8,
        0x5fu8,
        0x65u8,
        0x78u8,
        0x65u8,
        0x63u8,
        0x75u8,
        0x74u8,
        0x61u8,
        0x62u8,
        0x6cu8,
        0x65u8,
    ]
}

/// The key `developer_mode`.
pub open spec fn key_developer_mode() -> Seq<u8> {
    seq![
        0x64u8,
        0x65u8,
        0x76u8,
        0x65u8,
        0x6cu8,
        0x6fu8,
        0x70u8,
        0x65u8,
        0x72u8,
        0x5fu8,
        0x6du8,
        0x6fu8,
        0x64u8,
        0x65u8,
    ]
}

/// The default java executable name, `java`.
pub open spec fn default_java() -> Seq<u8> {
    seq![0x6au8, 0x61u8, 0x76u8, 0x61u8]
}

/// The key `memory` as a byte vector.
pub fn memory_key() -> (r: Vec<u8>)
    ensures
        r@ == key_memory(),
{
    let r: Vec<u8> = vec![0x6d, 0x65, 0x6d, 0x6f, 0x72, 0x79];
    proof {
        assert(r@ =~= key_memory());
    }
    r
}

/// The key `java_executable` as a byte vector.
pub fn java_executable_key() -> (r: Vec<u8>)
    ensures
        r@ == key_java_executable(),
{
    let r: Vec<u8> = vec![
        0x6a,
        0x61,
        0x76,
        0x61,
        0x5f,
        0x65,
        0x78,
        0x65,
        0x63,
        0x75,
        0x74,
        0x61,
        0x62,
        0x6c,
        0x65,
    ];
    proof {
        assert(r@ =~= key_java_executable());
    }
    r
}

/// The key `developer_mode` as a byte vector.
pub fn developer_mode_key() -> (r: Vec<u8>)
    ensures
        r@ == key_developer_mode(),
{
    let r: Vec<u8> = vec![
        0x64,
        0x65,
        0x76,
        0x65,
        0x6c,
        0x6f,
        0x70,
        0x65,
        0x72,
        0x5f,
        0x6d,
        0x6f,
        0x64,
        0x65,
    ];
    proof {
        assert(r@ =~= key_developer_mode());
    }
    r
}

/// The default java executable name as a byte vector.
pub fn default_java_vec() -> (r: Vec<u8>)
    ensures
        r@ == default_java(),
{
    let r: Vec<u8> = vec![0x6a, 0x61, 0x76, 0x61];
    proof {
        assert(r@ =~= default_java());
    }
    r
}

// ---------------------------------------------------------------------
// The JSON shape of settings
// ---------------------------------------------------------------------

/// How a setting is rendered as a JSON value.
pub open spec fn jval_of_setting(v: SettingModel) -> JVal {
    match v {
        SettingModel::Boolean(b) => JVal::Bool(b),
        SettingModel::Integer(n) => JVal::Int(n as i64),
        SettingModel::Text(t) => JVal::Str(t),
        SettingModel::StringArray(a) => JVal::Arr(Seq::new(a.len(), |k: int| JVal::Str(a[k]))),
        SettingModel::Null => JVal::Null,
    }
}

/// How a JSON value is read back as a setting. Integers are stored as
/// 32 bits, so wider values are truncated; shapes the store does not
/// model degrade to `Null`.
pub open spec fn setting_of_jval(v: JVal) -> SettingModel {
    match v {
        JVal::Bool(b) => SettingModel::Boolean(b),
        JVal::Int(n) => SettingModel::Integer(n as i32),
        JVal::Str(t) => SettingModel::Text(t),
        JVal::Arr(es) => if forall|k: int| 0 <= k < es.len() ==> (#[trigger] es[k]) is Str {
            SettingModel::StringArray(Seq::new(es.len(), |k: int| es[k]->Str_0))
        } else {
            SettingModel::Null
        },
        _ => SettingModel::Null,
    }
}

/// Reading back the rendered form of a setting gives the setting.
pub proof fn lemma_setting_jval_round(v: SettingModel)
    ensures
        setting_of_jval(jval_of_setting(v)) == v,
{
    match v {
        SettingModel::StringArray(a) => {
            let es = Seq::new(a.len(), |k: int| JVal::Str(a[k]));
            assert(forall|k: int| 0 <= k < es.len() ==> (#[trigger] es[k]) is Str);
            assert(Seq::new(es.len(), |k: int| es[k]->Str_0) =~= a);
        },
        _ => {},
    }
}

// ---------------------------------------------------------------------
// Emission
// ---------------------------------------------------------------------

/// Array of strings, elements separated by commas, without brackets.
pub open spec fn spec_emit_strarr_body(a: Seq<Seq<u8>>) -> Seq<u8>
    decreases a.len(),
{
    if a.len() == 0 {
        Seq::empty()
    } else if a.len() == 1 {
        spec_emit_string(a[0])
    } else {
        spec_emit_string(a[0]) + seq![0x2cu8] + spec_emit_strarr_body(a.drop_first())
    }
}

/// One setting value as written.
pub open spec fn spec_emit_setting(v: SettingModel) -> Seq<u8> {
    match v {
        SettingModel::Boolean(b) => if b {
            seq![0x74u8, 0x72u8, 0x75u8, 0x65u8]
        } else {
            seq![0x66u8, 0x61u8, 0x6cu8, 0x73u8, 0x65u8]
        },
        SettingModel::Integer(n) => spec_emit_int(n as int),
        SettingModel::Text(t) => spec_emit_string(t),
        SettingModel::StringArray(a) => seq![0x5bu8] + spec_emit_strarr_body(a) + seq![0x5du8],
        SettingModel::Null => seq![0x6eu8, 0x75u8, 0x6cu8, 0x6cu8],
    }
}

/// The indentation before each member: a newline and two spaces.
pub open spec fn spec_entry_pad() -> Seq<u8> {
    seq![0x0au8, 0x20u8, 0x20u8]
}

/// The members of the settings object, one per indented line,
/// separated by commas.
pub open spec fn spec_save_entries(m: Seq<(Seq<u8>, SettingModel)>) -> Seq<u8>
    decreases m.len(),
{
    if m.len() == 0 {
        Seq::empty()
    } else if m.len() == 1 {
        spec_entry_pad() + spec_emit_string(m[0].0) + seq![0x3au8] + spec_emit_setting(m[0].1)
    } else {
        spec_entry_pad() + spec_emit_string(m[0].0) + seq![0x3au8] + spec_emit_setting(m[0].1)
            + seq![0x2cu8] + spec_save_entries(m.drop_first())
    }
}

/// The whole settings file: an empty map is the empty object, any
/// other map puts each member on its own indented line.
pub open spec fn spec_save_settings(m: Seq<(Seq<u8>, SettingModel)>) -> Seq<u8> {
    if m.len() == 0 {
        seq![0x7bu8, 0x7du8]
    } else {
        seq![0x7bu8] + spec_save_entries(m) + seq![0x0au8, 0x7du8]
    }
}

/// View of a vector of byte vectors.
pub open spec fn strs_view(a: Seq<Vec<u8>>) -> Seq<Seq<u8>> {
    Seq::new(a.len(), |k: int| a[k]@)
}

/// Appends the comma-separated string elements from index `i` on.
fn emit_strarr_from(a: &Vec<Vec<u8>>, i: usize, out: &mut Vec<u8>)
    requires
        i <= a@.len(),
    ensures
        final(out)@ == old(out)@ + spec_emit_strarr_body(strs_view(a@).skip(i as int)),
    decreases a@.len() - i,
{
    let ghost suf = strs_view(a@).skip(i as int);
    if i == a.len() {
        proof {
            assert(final(out)@ =~= old(out)@ + spec_emit_strarr_body(suf));
        }
        return ;
    }
    emit_string(&a[i], out);
    proof {
        assert(suf[0] == a@[i as int]@);
    }
    if i + 1 < a.len() {
        out.push(0x2c);
    }
    emit_strarr_from(a, i + 1, out);
    proof {
        assert(suf.drop_first() =~= strs_view(a@).skip(i + 1));
        if i + 1 < a@.len() {
            assert(suf.len() > 1);
            assert(final(out)@ =~= old(out)@ + spec_emit_strarr_body(suf));
        } else {
            assert(suf.len() == 1);
            assert(strs_view(a@).skip(i + 1).len() == 0);
            assert(final(out)@ =~= old(out)@ + spec_emit_strarr_body(suf));
        }
    }
}

/// Appends one setting value to `out`.
pub fn emit_setting(v: &Setting, out: &mut Vec<u8>)
    ensures
        final(out)@ == old(out)@ + spec_emit_setting(v@),
{
    match v {
        Setting::Boolean(b) => {
            if *b {
                out.push(0x74);
                out.push(0x72);
                out.push(0x75);
                out.push(0x65);
            } else {
                out.push(0x66);
                out.push(0x61);
                out.push(0x6c);
                out.push(0x73);
                out.push(0x65);
            }
            proof {
                assert(final(out)@ =~= old(out)@ + spec_emit_setting(v@));
            }
        },
        Setting::Integer(n) => {
            emit_int(*n as i64, out);
        },
        Setting::Text(t) => {
            emit_string(t, out);
        },
        Setting::StringArray(a) => {
            out.push(0x5b);
            emit_strarr_from(a, 0, out);
            out.push(0x5d);
            proof {
                assert(strs_view(a@).skip(0) =~= strs_view(a@));
                assert(v@->StringArray_0 =~= strs_view(a@));
                assert(final(out)@ =~= old(out)@ + spec_emit_setting(v@));
            }
        },
        Setting::Null => {
            out.push(0x6e);
            out.push(0x75);
            out.push(0x6c);
            out.push(0x6c);
            proof {
                assert(final(out)@ =~= old(out)@ + spec_emit_setting(v@));
            }
        },
    }
}

impl SettingManager {
    /// Renders the whole map as a JSON object, in storage order, one
    /// member per indented line.
    pub fn save(&self) -> (r: Vec<u8>)
        ensures
            r@ == spec_save_settings(self@),
    {
        let mut out: Vec<u8> = Vec::new();
        out.push(0x7b);
        if self.settings.len() == 0 {
            out.push(0x7d);
            proof {
                assert(out@ =~= spec_save_settings(self@));
            }
            return out;
        }
        self.save_entries_from(0, &mut out);
        out.push(0x0a);
        out.push(0x7d);
        proof {
            assert(self@.skip(0) =~= self@);
            assert(out@ =~= spec_save_settings(self@));
        }
        out
    }

    fn save_entries_from(&self, i: usize, out: &mut Vec<u8>)
        requires
            i <= self@.len(),
        ensures
            final(out)@ == old(out)@ + spec_save_entries(self@.skip(i as int)),
        decreases self@.len() - i,
    {
        let ghost suf = self@.skip(i as int);
        if i == self.settings.len() {
            proof {
                assert(final(out)@ =~= old(out)@ + spec_save_entries(suf));
            }
            return ;
        }
        proof {
            assert(suf[0] == self@[i as int]);
            assert(self@[i as int] == (self.settings@[i as int].0@, self.settings@[i as int].1@));
        }
        out.push(0x0a);
        out.push(0x20);
        out.push(0x20);
        emit_string(&self.settings[i].0, out);
        out.push(0x3a);
        emit_setting(&self.settings[i].1, out);
        if i + 1 < self.settings.len() {
            out.push(0x2c);
        }
        self.save_entries_from(i + 1, out);
        proof {
            assert(suf.drop_first() =~= self@.skip(i + 1));
            if i + 1 < self@.len() {
                assert(suf.len() > 1);
                assert(final(out)@ =~= old(out)@ + spec_save_entries(suf));
            } else {
                assert(suf.len() == 1);
                assert(self@.skip(i + 1).len() == 0);
                assert(final(out)@ =~= old(out)@ + spec_save_entries(suf));
            }
        }
    }
}

// ---------------------------------------------------------------------
// Parsing
// ---------------------------------------------------------------------

/// Converts one parsed JSON value into a setting.
pub fn setting_from_json(v: JsonValue) -> (r: Setting)
    ensures
        r@ == setting_of_jval(v@),
{
    let ghost gv = v@;
    match v {
        JsonValue::Null => Setting::Null,
        JsonValue::Bool(b) => Setting::Boolean(b),
        JsonValue::Int(n) => Setting::Integer(#[verifier::truncate] (n as i32)),
        JsonValue::Float => Setting::Null,
        JsonValue::Str(t) => Setting::Text(t),
        JsonValue::Arr(es) => {
            let ghost orig = gv->Arr_0;
            proof {
                assert(orig =~= views_of(es@));
            }
            let mut out: Vec<Vec<u8>> = Vec::new();
            let mut rest = es;
            proof {
                assert(views_of(rest@) =~= orig.skip(0));
            }
            while rest.len() > 0
                invariant
                    gv == v@,
                    gv is Arr,
                    orig == gv->Arr_0,
                    views_of(rest@) =~= orig.skip(out@.len() as int),
                    out@.len() <= orig.len(),
                    forall|k: int|
                        0 <= k < out@.len() ==> orig[k] == JVal::Str((#[trigger] out@[k])@),
                decreases rest@.len(),
            {
                let ghost pre = out@.len() as int;
                let ghost prerest = views_of(rest@);
                let e = rest.remove(0);
                proof {
                    assert(prerest[0] == e@);
                    assert(views_of(rest@) =~= prerest.drop_first());
                    assert(prerest.drop_first() =~= orig.skip(pre + 1));
                }
                match e {
                    JsonValue::Str(t) => {
                        out.push(t);
                        proof {
                            assert(orig.skip(pre)[0] == orig[pre]);
                            assert(orig[pre] == JVal::Str(out@[pre]@));
                        }
                    },
                    other => {
                        proof {
                            assert(orig.skip(pre)[0] == other@);
                            assert(!(orig[pre] is Str));
                        }
                        return Setting::Null;
                    },
                }
            }
            proof {
                assert(views_of(rest@).len() == 0);
                assert(out@.len() == orig.len());
                assert forall|k: int| 0 <= k < orig.len() implies (#[trigger] orig[k]) is Str by {
                    assert(orig[k] == JVal::Str(out@[k]@));
                }
                assert(Seq::new(orig.len(), |k: int| orig[k]->Str_0) =~= Seq::new(
                    out@.len(),
                    |k: int| out@[k]@,
                ));
            }
            Setting::StringArray(out)
        },
        JsonValue::Obj(_) => Setting::Null,
    }
}

/// Folds parsed members into a store, later entries replacing earlier
/// ones with the same key, as a map insert would.
pub open spec fn spec_fold_entries(
    acc: Seq<(Seq<u8>, SettingModel)>,
    ms: Seq<(Seq<u8>, JVal)>,
) -> Seq<(Seq<u8>, SettingModel)>
    decreases ms.len(),
{
    if ms.len() == 0 {
        acc
    } else {
        spec_fold_entries(spec_insert(acc, ms[0].0, setting_of_jval(ms[0].1)), ms.drop_first())
    }
}

/// What `parse_settings` yields on a given text.
pub open spec fn spec_parse_settings(s: Seq<u8>) -> Option<Seq<(Seq<u8>, SettingModel)>> {
    match sp_document(s) {
        Some(JVal::Obj(ms)) => Some(spec_fold_entries(Seq::empty(), ms)),
        _ => None,
    }
}

/// Parses persisted settings text; defaults are not added here.
pub fn parse_settings(contents: &Vec<u8>) -> (r: Result<SettingManager, ConfigError>)
    ensures
        match r {
            Ok(m) => spec_parse_settings(contents@) == Some(m@) && m.wf(),
            Err(ConfigError::InvalidJson) => sp_document(contents@) is None,
            Err(ConfigError::NotAnObject) => match sp_document(contents@) {
                Some(v) => !(v is Obj),
                None => false,
            },
            Err(_) => false,
        },
{
    match parse_document(contents) {
        None => Err(ConfigError::InvalidJson),
        Some(doc) => match doc {
            JsonValue::Obj(members) => {
                let ghost orig = member_views(members@);
                proof {
                    assert(JsonValue::Obj(members)@->Obj_0 =~= orig);
                }
                let mut mgr = SettingManager::new();
                let mut rest = members;
                proof {
                    assert(member_views(rest@) =~= orig);
                }
                while rest.len() > 0
                    invariant
                        mgr.wf(),
                        spec_fold_entries(Seq::empty(), orig) == spec_fold_entries(
                            mgr@,
                            member_views(rest@),
                        ),
                    decreases rest@.len(),
                {
                    let ghost mview = member_views(rest@);
                    let (k, v) = rest.remove(0);
                    proof {
                        assert(mview[0] == (k@, v@));
                        assert(member_views(rest@) =~= mview.drop_first());
                    }
                    let sv = setting_from_json(v);
                    mgr.set_setting(k, sv);
                }
                proof {
                    assert(member_views(rest@).len() == 0);
                }
                Ok(mgr)
            },
            other => {
                proof {
                    assert(!(other@ is Obj));
                }
                Err(ConfigError::NotAnObject)
            },
        },
    }
}

/// Appends a `(key, value)` default if the key is absent.
pub open spec fn spec_add_default(
    m: Seq<(Seq<u8>, SettingModel)>,
    key: Seq<u8>,
    v: SettingModel,
) -> Seq<(Seq<u8>, SettingModel)> {
    if spec_lookup(m, key) is None {
        m.push((key, v))
    } else {
        m
    }
}

/// The three recognized defaults, added in a fixed order.
pub open spec fn spec_initialize(m: Seq<(Seq<u8>, SettingModel)>) -> Seq<(Seq<u8>, SettingModel)> {
    spec_add_default(
        spec_add_default(
            spec_add_default(m, key_memory(), SettingModel::Integer(1024)),
            key_java_executable(),
            SettingModel::Text(default_java()),
        ),
        key_developer_mode(),
        SettingModel::Boolean(false),
    )
}

/// Loads the settings store: parses the persisted text when there is
/// one, then fills in defaults for missing recognized keys.
pub fn initialize_settings(contents: Option<&Vec<u8>>) -> (r: Result<SettingManager, ConfigError>)
    ensures
        match r {
            Ok(m) => {
                &&& m.wf()
                &&& match contents {
                    Some(c) => spec_parse_settings(c@) is Some && m@ == spec_initialize(
                        spec_parse_settings(c@).unwrap(),
                    ),
                    None => m@ == spec_initialize(Seq::empty()),
                }
            },
            Err(e) => match contents {
                Some(c) => spec_parse_settings(c@) is None,
                None => false,
            },
        },
{
    let mut mgr = match contents {
        Some(c) => match parse_settings(c) {
            Ok(m) => m,
            Err(e) => {
                return Err(e);
            },
        },
        None => SettingManager::new(),
    };
    let mk = memory_key();
    if mgr.get_setting(&mk).is_none() {
        proof {
            lemma_spec_insert_absent(mgr@, key_memory(), SettingModel::Integer(1024));
        }
        mgr.set_setting(mk, Setting::Integer(1024));
    }
    let jk = java_executable_key();
    if mgr.get_setting(&jk).is_none() {
        proof {
            lemma_spec_insert_absent(
                mgr@,
                key_java_executable(),
                SettingModel::Text(default_java()),
            );
        }
        mgr.set_setting(jk, Setting::Text(default_java_vec()));
    }
    let dk = developer_mode_key();
    if mgr.get_setting(&dk).is_none() {
        proof {
            lemma_spec_insert_absent(
                mgr@,
                key_developer_mode(),
                SettingModel::Boolean(false),
            );
        }
        mgr.set_setting(dk, Setting::Boolean(false));
    }
    Ok(mgr)
}

// ---------------------------------------------------------------------
// Round trip: saved settings parse back to the same map
// ---------------------------------------------------------------------

/// Pairwise distinct keys.
pub open spec fn distinct_keys(m: Seq<(Seq<u8>, SettingModel)>) -> bool {
    forall|i: int, j: int|
        0 <= i < j < m.len() ==> (#[trigger] m[i]).0 != (#[trigger] m[j]).0
}

/// The members of the saved JSON object, in storage order.
pub open spec fn spec_settings_jvals(m: Seq<(Seq<u8>, SettingModel)>) -> Seq<(Seq<u8>, JVal)> {
    Seq::new(m.len(), |k: int| (m[k].0, jval_of_setting(m[k].1)))
}

/// Reading members back as settings, position by position.
pub open spec fn settings_of_members(ms: Seq<(Seq<u8>, JVal)>) -> Seq<(Seq<u8>, SettingModel)> {
    Seq::new(ms.len(), |k: int| (ms[k].0, setting_of_jval(ms[k].1)))
}

/// An emitted string-array body followed by `]` parses to exactly its
/// elements.
#[verifier::rlimit(100)]
proof fn lemma_strarr_elems(a: Seq<Seq<u8>>, rest: Seq<u8>, first: bool)
    requires
        a.len() >= 1 || first,
    ensures
        sp_elems(spec_emit_strarr_body(a) + seq![0x5du8] + rest, first) == Some(
            (
                Seq::new(a.len(), |k: int| JVal::Str(a[k])),
                spec_emit_strarr_body(a).len() + 1 as int,
            ),
        ),
    decreases a.len(),
{
    let body = spec_emit_strarr_body(a);
    let s = body + seq![0x5du8] + rest;
    if a.len() == 0 {
        assert(s =~= seq![0x5du8] + rest);
        assert(s[0] == 0x5d);
        assert(ws_len(s) == 0);
        assert(Seq::new(0, |k: int| JVal::Str(a[k])) =~= Seq::<JVal>::empty());
    } else {
        let e0 = spec_emit_string(a[0]);
        let tail = a.drop_first();
        assert(s[0] == e0[0]);
        assert(e0[0] == 0x22);
        assert(ws_len(s) == 0);
        assert(s.skip(0) =~= s);
        if a.len() == 1 {
            let t = seq![0x5du8] + rest;
            assert(s =~= e0 + t);
            lemma_string_round_trip(a[0], t);
            assert(sp_value(s) == Some((JVal::Str(a[0]), e0.len() as int)));
            let s2 = s.skip(e0.len() as int);
            assert(s2 =~= t);
            assert(s2[0] == 0x5d);
            assert(ws_len(s2) == 0);
            assert(s2.skip(0) =~= s2);
            assert(Seq::new(1, |k: int| JVal::Str(a[k])) =~= seq![JVal::Str(a[0])]);
        } else {
            let bt = spec_emit_strarr_body(tail);
            let t = seq![0x2cu8] + bt + seq![0x5du8] + rest;
            assert(body == e0 + seq![0x2cu8] + bt);
            assert(s =~= e0 + t);
            lemma_string_round_trip(a[0], t);
            assert(sp_value(s) == Some((JVal::Str(a[0]), e0.len() as int)));
            let s2 = s.skip(e0.len() as int);
            assert(s2 =~= t);
            assert(s2[0] == 0x2c);
            assert(ws_len(s2) == 0);
            assert(s2.skip(0) =~= s2);
            let s3 = s2.skip(1);
            assert(s3 =~= bt + seq![0x5du8] + rest);
            lemma_strarr_elems(tail, rest, false);
            let inner = Seq::new(tail.len(), |k: int| JVal::Str(tail[k]));
            assert(sp_elems(s3, false) == Some((inner, bt.len() + 1 as int)));
            assert(seq![JVal::Str(a[0])] + inner =~= Seq::new(a.len(), |k: int| JVal::Str(a[k])));
            assert(body.len() == e0.len() + 1 + bt.len());
        }
    }
}

/// An emitted setting value parses back to its JSON shape, provided the
/// next byte closes or continues the surrounding object or array.
proof fn lemma_emit_setting_value(v: SettingModel, rest: Seq<u8>)
    requires
        rest.len() >= 1,
        rest[0] == 0x2c || rest[0] == 0x7d || rest[0] == 0x5d || rest[0] == 0x0a,
    ensures
        sp_value(spec_emit_setting(v) + rest) == Some(
            (jval_of_setting(v), spec_emit_setting(v).len() as int),
        ),
        spec_emit_setting(v).len() >= 1,
        !is_ws(spec_emit_setting(v)[0]),
{
    let e = spec_emit_setting(v);
    let s = e + rest;
    match v {
        SettingModel::Boolean(b) => {
            if b {
                assert(s[0] == 0x74 && s[1] == 0x72 && s[2] == 0x75 && s[3] == 0x65);
            } else {
                assert(s[0] == 0x66 && s[1] == 0x61 && s[2] == 0x6c && s[3] == 0x73 && s[4]
                    == 0x65);
            }
        },
        SettingModel::Integer(n) => {
            lemma_emit_int_first_byte(n as int);
            assert(s[0] == e[0]);
            lemma_int_round_trip(n as int, rest);
            assert(jval_of_setting(v) == JVal::Int(n as i64));
        },
        SettingModel::Text(t) => {
            assert(s[0] == 0x22);
            lemma_string_round_trip(t, rest);
        },
        SettingModel::StringArray(a) => {
            let body = spec_emit_strarr_body(a);
            assert(s[0] == 0x5b);
            assert(s.skip(1) =~= body + seq![0x5du8] + rest);
            lemma_strarr_elems(a, rest, true);
            assert(sp_elems(s.skip(1), true) == Some(
                (Seq::new(a.len(), |k: int| JVal::Str(a[k])), body.len() + 1 as int),
            ));
            assert(e.len() == body.len() + 2);
        },
        SettingModel::Null => {
            assert(s[0] == 0x6e && s[1] == 0x75 && s[2] == 0x6c && s[3] == 0x6c);
        },
    }
}

/// One written settings line — indentation, `"key":value`, and
/// whatever follows — parses to exactly that member ahead of the rest.
#[verifier::rlimit(100)]
#[verifier::spinoff_prover]
proof fn lemma_save_entry_last(e: (Seq<u8>, SettingModel), rest: Seq<u8>, first: bool)
    ensures
        sp_members(
            spec_emit_string(e.0) + seq![0x3au8] + spec_emit_setting(e.1) + seq![0x0au8, 0x7du8]
                + rest,
            first,
        ) == Some(
            (
                seq![(e.0, jval_of_setting(e.1))],
                spec_emit_string(e.0).len() + spec_emit_setting(e.1).len() + 3 as int,
            ),
        ),
{
    let kt = spec_emit_string(e.0);
    let ev = spec_emit_setting(e.1);
    lemma_emit_setting_value(e.1, seq![0x0au8, 0x7du8] + rest);
    assert(ev + (seq![0x0au8, 0x7du8] + rest) =~= ev + seq![0x0au8, 0x7du8] + rest);
    lemma_string_round_trip(e.0, seq![0x3au8] + ev + seq![0x0au8, 0x7du8] + rest);
    assert(kt + (seq![0x3au8] + ev + seq![0x0au8, 0x7du8] + rest) =~= kt + seq![0x3au8] + ev
        + seq![0x0au8, 0x7du8] + rest);
    assert(kt[0] == 0x22);
    lemma_member_last_newline(kt, e.0, ev, jval_of_setting(e.1), rest, first);
}

/// As above, for a line followed by a comma and further members.
#[verifier::rlimit(100)]
#[verifier::spinoff_prover]
proof fn lemma_save_entry_cons(
    e: (Seq<u8>, SettingModel),
    r: Seq<u8>,
    ms_t: Seq<(Seq<u8>, JVal)>,
    n_t: int,
    first: bool,
)
    requires
        sp_members(r, false) == Some((ms_t, n_t)),
    ensures
        sp_members(
            spec_emit_string(e.0) + seq![0x3au8] + spec_emit_setting(e.1) + seq![0x2cu8] + r,
            first,
        ) == Some(
            (
                seq![(e.0, jval_of_setting(e.1))] + ms_t,
                spec_emit_string(e.0).len() + spec_emit_setting(e.1).len() + 2 + n_t,
            ),
        ),
{
    let kt = spec_emit_string(e.0);
    let ev = spec_emit_setting(e.1);
    lemma_emit_setting_value(e.1, seq![0x2cu8] + r);
    assert(ev + (seq![0x2cu8] + r) =~= ev + seq![0x2cu8] + r);
    lemma_string_round_trip(e.0, seq![0x3au8] + ev + seq![0x2cu8] + r);
    assert(kt + (seq![0x3au8] + ev + seq![0x2cu8] + r) =~= kt + seq![0x3au8] + ev + seq![0x2cu8]
        + r);
    assert(kt[0] == 0x22);
    lemma_member_cons(kt, e.0, ev, jval_of_setting(e.1), r, ms_t, n_t, first);
}

/// Written settings entries followed by the closing line parse to
/// exactly the written members: each indented line contributes its
/// member in order.
#[verifier::rlimit(100)]
#[verifier::spinoff_prover]
proof fn lemma_save_members(m: Seq<(Seq<u8>, SettingModel)>, rest: Seq<u8>, first: bool)
    requires
        m.len() >= 1,
    ensures
        sp_members(spec_save_entries(m) + seq![0x0au8, 0x7du8] + rest, first) == Some(
            (spec_settings_jvals(m), spec_save_entries(m).len() + 2 as int),
        ),
    decreases m.len(),
{
    let pad = spec_entry_pad();
    assert(forall|k: int| 0 <= k < pad.len() ==> is_ws(#[trigger] pad[k]));
    let body = spec_save_entries(m);
    let s = body + seq![0x0au8, 0x7du8] + rest;
    let kt = spec_emit_string(m[0].0);
    let ev = spec_emit_setting(m[0].1);
    if m.len() == 1 {
        lemma_save_entry_last(m[0], rest, first);
        let inner = kt + seq![0x3au8] + ev + seq![0x0au8, 0x7du8] + rest;
        lemma_members_ws_prepend(pad, inner, first);
        assert(s =~= pad + inner);
        assert(spec_settings_jvals(m) =~= seq![(m[0].0, jval_of_setting(m[0].1))]);
        assert(body.len() == 3 + kt.len() + 1 + ev.len());
    } else {
        let tail = m.drop_first();
        let bt = spec_save_entries(tail);
        lemma_save_members(tail, rest, false);
        let r = bt + seq![0x0au8, 0x7du8] + rest;
        lemma_save_entry_cons(m[0], r, spec_settings_jvals(tail), bt.len() + 2 as int, first);
        let inner = kt + seq![0x3au8] + ev + seq![0x2cu8] + r;
        lemma_members_ws_prepend(pad, inner, first);
        assert(s =~= pad + inner);
        assert(seq![(m[0].0, jval_of_setting(m[0].1))] + spec_settings_jvals(tail)
            =~= spec_settings_jvals(m));
        assert(body.len() == 3 + kt.len() + 1 + ev.len() + 1 + bt.len());
    }
}

/// A saved settings map parses as a document into exactly the written
/// object.
pub proof fn lemma_settings_doc(m: Seq<(Seq<u8>, SettingModel)>)
    ensures
        sp_document(spec_save_settings(m)) == Some(JVal::Obj(spec_settings_jvals(m))),
{
    let s = spec_save_settings(m);
    assert(s[0] == 0x7b);
    assert(ws_len(s) == 0);
    assert(s.skip(0) =~= s);
    if m.len() == 0 {
        assert(s.skip(1) =~= seq![0x7du8]);
        assert(s.skip(1)[0] == 0x7d);
        assert(ws_len(s.skip(1)) == 0);
        assert(sp_members(s.skip(1), true) == Some((Seq::<(Seq<u8>, JVal)>::empty(), 1int)));
        assert(spec_settings_jvals(m) =~= Seq::<(Seq<u8>, JVal)>::empty());
        assert(sp_value(s) == Some((JVal::Obj(spec_settings_jvals(m)), 2int)));
        assert(s.len() == 2);
        assert(s.skip(0int + 2).len() == 0);
        assert(ws_len(s.skip(0int + 2)) == 0);
    } else {
        let body = spec_save_entries(m);
        assert(s.skip(1) =~= body + seq![0x0au8, 0x7du8] + Seq::<u8>::empty());
        lemma_save_members(m, Seq::empty(), true);
        let n = body.len() + 2 as int;
        assert(sp_members(s.skip(1), true) == Some((spec_settings_jvals(m), n)));
        assert(sp_value(s) == Some((JVal::Obj(spec_settings_jvals(m)), n + 1)));
        assert(s.len() == n + 1);
        assert(s.skip(0 + (n + 1)).len() == 0);
        assert(ws_len(s.skip(0 + (n + 1))) == 0);
    }
}

/// Keys of an insert result come from the map or are the inserted key.
proof fn lemma_insert_keys(m: Seq<(Seq<u8>, SettingModel)>, key: Seq<u8>, v: SettingModel)
    ensures
        forall|j: int|
            0 <= j < spec_insert(m, key, v).len() ==> (#[trigger] spec_insert(m, key, v)[j]).0
                == key || (exists|i: int| 0 <= i < m.len() && (#[trigger] m[i]).0 == spec_insert(
                m,
                key,
                v,
            )[j].0),
    decreases m.len(),
{
    let ins = spec_insert(m, key, v);
    if m.len() == 0 {
    } else if m[0].0 == key {
        assert forall|j: int| 0 <= j < ins.len() implies (#[trigger] ins[j]).0 == key || (
        exists|i: int| 0 <= i < m.len() && (#[trigger] m[i]).0 == ins[j].0) by {
            if j > 0 {
                assert(ins[j] == m.drop_first()[j - 1]);
                assert(m[j] == m.drop_first()[j - 1]);
            }
        }
    } else {
        lemma_insert_keys(m.drop_first(), key, v);
        let insr = spec_insert(m.drop_first(), key, v);
        assert forall|j: int| 0 <= j < ins.len() implies (#[trigger] ins[j]).0 == key || (
        exists|i: int| 0 <= i < m.len() && (#[trigger] m[i]).0 == ins[j].0) by {
            if j == 0 {
                assert(ins[0] == m[0]);
                assert(m[0].0 == ins[0].0);
            } else {
                assert(ins[j] == insr[j - 1]);
                if insr[j - 1].0 != key {
                    let i0 = choose|i: int|
                        0 <= i < m.drop_first().len() && (#[trigger] m.drop_first()[i]).0 == insr[j - 1].0;
                    assert(m[i0 + 1] == m.drop_first()[i0]);
                }
            }
        }
    }
}

/// Inserting preserves key distinctness.
proof fn lemma_insert_distinct(m: Seq<(Seq<u8>, SettingModel)>, key: Seq<u8>, v: SettingModel)
    requires
        distinct_keys(m),
    ensures
        distinct_keys(spec_insert(m, key, v)),
    decreases m.len(),
{
    let ins = spec_insert(m, key, v);
    if m.len() == 0 {
    } else if m[0].0 == key {
        assert forall|i: int, j: int|
            0 <= i < j < ins.len() implies (#[trigger] ins[i]).0 != (#[trigger] ins[j]).0 by {
            if i == 0 {
                assert(ins[j] == m.drop_first()[j - 1]);
                assert(m[j] == m.drop_first()[j - 1]);
                assert(m[0].0 != m[j].0);
            } else {
                assert(ins[i] == m[i]);
                assert(ins[j] == m[j]);
            }
        }
    } else {
        assert(forall|i: int, j: int|
            0 <= i < j < m.drop_first().len() ==> (#[trigger] m.drop_first()[i]).0 != (
            #[trigger] m.drop_first()[j]).0) by {
            assert(forall|i: int|
                0 <= i < m.drop_first().len() ==> #[trigger] m.drop_first()[i] == m[i + 1]);
        }
        lemma_insert_distinct(m.drop_first(), key, v);
        lemma_insert_keys(m.drop_first(), key, v);
        let insr = spec_insert(m.drop_first(), key, v);
        assert forall|i: int, j: int|
            0 <= i < j < ins.len() implies (#[trigger] ins[i]).0 != (#[trigger] ins[j]).0 by {
            if i == 0 {
                assert(ins[j] == insr[j - 1]);
                if insr[j - 1].0 == key {
                    assert(ins[0].0 == m[0].0);
                    assert(m[0].0 != key);
                } else {
                    let i0 = choose|i2: int|
                        0 <= i2 < m.drop_first().len() && (#[trigger] m.drop_first()[i2]).0
                            == insr[j - 1].0;
                    assert(m[i0 + 1] == m.drop_first()[i0]);
                    assert(m[0].0 != m[i0 + 1].0);
                }
            } else {
                assert(ins[i] == insr[i - 1]);
                assert(ins[j] == insr[j - 1]);
            }
        }
    }
}

/// Folding members whose keys are fresh and distinct appends them in
/// order.
proof fn lemma_fold_distinct_append(
    acc: Seq<(Seq<u8>, SettingModel)>,
    ms: Seq<(Seq<u8>, JVal)>,
)
    requires
        distinct_keys(acc),
        forall|i: int, j: int| 0 <= i < j < ms.len() ==> (#[trigger] ms[i]).0 != (#[trigger] ms[j]).0,
        forall|i: int, j: int|
            0 <= i < acc.len() && 0 <= j < ms.len() ==> (#[trigger] acc[i]).0 != (
            #[trigger] ms[j]).0,
    ensures
        spec_fold_entries(acc, ms) == acc + settings_of_members(ms),
    decreases ms.len(),
{
    if ms.len() == 0 {
        assert(acc + settings_of_members(ms) =~= acc);
    } else {
        let e0 = (ms[0].0, setting_of_jval(ms[0].1));
        assert(forall|i: int| 0 <= i < acc.len() ==> (#[trigger] acc[i]).0 != ms[0].0);
        lemma_lookup_all_diff_none(acc, ms[0].0);
        lemma_spec_insert_absent(acc, ms[0].0, e0.1);
        let acc2 = acc.push(e0);
        assert(distinct_keys(acc2)) by {
            assert forall|i: int, j: int|
                0 <= i < j < acc2.len() implies (#[trigger] acc2[i]).0 != (#[trigger] acc2[j]).0
            by {
                if j == acc.len() {
                    assert(acc2[i] == acc[i]);
                    assert(acc2[j] == e0);
                } else {
                    assert(acc2[i] == acc[i]);
                    assert(acc2[j] == acc[j]);
                }
            }
        }
        let tail = ms.drop_first();
        assert(forall|i: int, j: int|
            0 <= i < j < tail.len() ==> (#[trigger] tail[i]).0 != (#[trigger] tail[j]).0) by {
            assert(forall|i: int| 0 <= i < tail.len() ==> #[trigger] tail[i] == ms[i + 1]);
        }
        assert(forall|i: int, j: int|
            0 <= i < acc2.len() && 0 <= j < tail.len() ==> (#[trigger] acc2[i]).0 != (
            #[trigger] tail[j]).0) by {
            assert(forall|j: int| 0 <= j < tail.len() ==> #[trigger] tail[j] == ms[j + 1]);
            assert(forall|i: int| 0 <= i < acc.len() ==> #[trigger] acc2[i] == acc[i]);
            assert(acc2[acc.len() as int] == e0);
        }
        lemma_fold_distinct_append(acc2, tail);
        assert(acc2 + settings_of_members(tail) =~= acc + settings_of_members(ms)) by {
            assert(forall|j: int|
                0 <= j < tail.len() ==> #[trigger] settings_of_members(tail)[j]
                    == settings_of_members(ms)[j + 1]);
        }
    }
}

/// Loading a saved settings map yields the same map: parsing the text
/// written by `save` gives back exactly the entries that were saved,
/// and adding defaults changes nothing when the recognized keys are
/// present.
pub proof fn lemma_settings_round_trip(m: Seq<(Seq<u8>, SettingModel)>)
    requires
        distinct_keys(m),
    ensures
        spec_parse_settings(spec_save_settings(m)) == Some(m),
{
    lemma_settings_doc(m);
    let jv = spec_settings_jvals(m);
    assert(forall|i: int, j: int|
        0 <= i < j < jv.len() ==> (#[trigger] jv[i]).0 != (#[trigger] jv[j]).0) by {
        assert(forall|i: int| 0 <= i < jv.len() ==> (#[trigger] jv[i]).0 == m[i].0);
    }
    lemma_fold_distinct_append(Seq::empty(), jv);
    assert(spec_fold_entries(Seq::empty(), jv) == Seq::empty() + settings_of_members(jv));
    assert forall|k: int| 0 <= k < m.len() implies settings_of_members(jv)[k] == m[k] by {
        lemma_setting_jval_round(m[k].1);
    }
    assert(Seq::empty() + settings_of_members(jv) =~= m);
}

/// Adding defaults to a map that already holds the recognized keys
/// changes nothing.
pub proof fn lemma_initialize_id(m: Seq<(Seq<u8>, SettingModel)>)
    requires
        spec_lookup(m, key_memory()) is Some,
        spec_lookup(m, key_java_executable()) is Some,
        spec_lookup(m, key_developer_mode()) is Some,
    ensures
        spec_initialize(m) == m,
{
}

impl SettingManager {
    /// Mutable access to the setting stored under `id`, if any. The
    /// entry's key is untouched; the caller may replace its value.
    pub fn get_setting_mut(&mut self, id: &Vec<u8>) -> (r: Option<&mut Setting>)
        ensures
            match r {
                Some(v) => {
                    &&& spec_lookup(old(self)@, id@) == Some((*v)@)
                    &&& final(self)@.len() == old(self)@.len()
                    &&& forall|j: int|
                        0 <= j < old(self)@.len() ==> (#[trigger] final(self)@[j]).0 == old(
                            self,
                        )@[j].0
                },
                None => {
                    &&& spec_lookup(old(self)@, id@) is None
                    &&& final(self)@ == old(self)@
                },
            },
    {
        let ghost dv = self@;
        let n = self.settings.len();
        let mut i: usize = 0;
        while i < n
            invariant
                i <= n,
                n == self.settings@.len(),
                dv == self@,
                dv == old(self)@,
                dv.len() == self.settings@.len(),
                forall|j: int| 0 <= j < i ==> (#[trigger] dv[j]).0 != id@,
            decreases n - i,
        {
            proof {
                assert(dv[i as int] == (self.settings@[i as int].0@, self.settings@[i as int].1@));
            }
            if bytes_eq(&self.settings[i].0, id) {
                proof {
                    lemma_lookup_prefix_found(dv, id@, i as int);
                }
                return Some(&mut self.settings[i].1);
            }
            i += 1;
        }
        proof {
            lemma_lookup_all_diff_none(dv, id@);
        }
        None
    }
}

proof fn lemma_lookup_prefix_found(m: Seq<(Seq<u8>, SettingModel)>, key: Seq<u8>, i: int)
    requires
        0 <= i < m.len(),
        m[i].0 == key,
        forall|j: int| 0 <= j < i ==> (#[trigger] m[j]).0 != key,
    ensures
        spec_lookup(m, key) == Some(m[i].1),
    decreases i,
{
    if i == 0 {
    } else {
        assert(forall|j: int| 0 <= j < i - 1 ==> m.drop_first()[j] == #[trigger] m[j + 1]);
        assert(m.drop_first()[i - 1] == m[i]);
        lemma_lookup_prefix_found(m.drop_first(), key, i - 1);
    }
}

/// The script bridge's form of a string-array setting: the items
/// joined with commas.
pub open spec fn spec_comma_joined(items: Seq<Seq<u8>>) -> Seq<u8>
    decreases items.len(),
{
    if items.len() == 0 {
        Seq::empty()
    } else if items.len() == 1 {
        items[0]
    } else {
        spec_comma_joined(items.drop_last()) + seq![0x2cu8] + items.last()
    }
}

/// Joins the items of a string-array setting with commas, as the
/// script host hands them to the interpreter.
pub fn comma_joined(items: &Vec<Vec<u8>>) -> (r: Vec<u8>)
    ensures
        r@ == spec_comma_joined(strs_view(items@)),
{
    let ghost iv = strs_view(items@);
    let mut out: Vec<u8> = Vec::new();
    let mut i: usize = 0;
    proof {
        assert(iv.take(0) =~= Seq::<Seq<u8>>::empty());
        assert(out@ =~= spec_comma_joined(iv.take(0)));
    }
    while i < items.len()
        invariant
            i <= items@.len(),
            iv == strs_view(items@),
            out@ == spec_comma_joined(iv.take(i as int)),
        decreases items@.len() - i,
    {
        if i > 0 {
            out.push(0x2c);
        }
        push_bytes(&mut out, &items[i]);
        proof {
            assert(iv.take(i + 1).drop_last() =~= iv.take(i as int));
            assert(iv.take(i + 1).last() == iv[i as int]);
            if i == 0 {
                assert(iv.take(1)[0] == iv[0]);
            }
            assert(out@ =~= spec_comma_joined(iv.take(i + 1)));
        }
        i += 1;
    }
    proof {
        assert(iv.take(items@.len() as int) =~= iv);
    }
    out
}

} // verus!
