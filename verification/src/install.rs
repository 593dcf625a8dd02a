//! The installation graph: descriptors parsed from `info.json`, linked
//! through their `parent` field, with inheritance accessors.
//!
//! A descriptor contributes its own platform-filtered classpath before
//! its ancestors', and its arguments, policies and scripts after its
//! ancestors' (ancestors first). Parsing the chain detects cycles and
//! missing descriptors.

use vstd::prelude::*;
use crate::json::JsonValue;
use crate::json::JVal;
use crate::json::sp_document;
use crate::json::parse_document;
use crate::json::views_of;
use crate::json::member_views;
use crate::error::ConfigError;
use crate::util::bytes_eq;
use crate::util::clone_bytes;
use crate::template::spec_substitute;
use crate::template::substitute;

verus! {

/// The mathematical counterpart of [`ConfigError`].
pub enum ConfigErrorModel {
    InvalidJson,
    NotAnObject,
    MissingId,
    ScriptNotString,
    InvalidField(Seq<u8>),
    ParentCycle(Seq<u8>),
    MissingDescriptor(Seq<u8>),
}

impl ConfigError {
    pub open spec fn view(&self) -> ConfigErrorModel {
        match self {
            ConfigError::InvalidJson => ConfigErrorModel::InvalidJson,
            ConfigError::NotAnObject => ConfigErrorModel::NotAnObject,
            ConfigError::MissingId => ConfigErrorModel::MissingId,
            ConfigError::ScriptNotString => ConfigErrorModel::ScriptNotString,
            ConfigError::InvalidField(f) => ConfigErrorModel::InvalidField(f@),
            ConfigError::ParentCycle(x) => ConfigErrorModel::ParentCycle(x@),
            ConfigError::MissingDescriptor(x) => ConfigErrorModel::MissingDescriptor(x@),
        }
    }
}

/// One classpath entry: a relative path and an optional platform list.
#[derive(Debug, PartialEq)]
pub struct ClasspathEntry {
    pub file: Vec<u8>,
    pub platforms: Option<Vec<Vec<u8>>>,
}

/// The mathematical counterpart of [`ClasspathEntry`].
pub struct ClasspathEntryModel {
    pub file: Seq<u8>,
    pub platforms: Option<Seq<Seq<u8>>>,
}

impl ClasspathEntry {
    pub open spec fn view(&self) -> ClasspathEntryModel {
        ClasspathEntryModel {
            file: self.file@,
            platforms: match self.platforms {
                Some(ps) => Some(Seq::new(ps@.len(), |k: int| ps@[k]@)),
                None => None,
            },
        }
    }
}

/// The fields of one descriptor, before its parent is attached.
#[derive(Debug, PartialEq)]
pub struct InstallationInfo {
    pub id: Vec<u8>,
    pub parent: Option<Vec<u8>>,
    pub scripts: Vec<(Vec<u8>, Vec<u8>)>,
    pub main_class: Option<Vec<u8>>,
    pub classpath: Vec<ClasspathEntry>,
    pub program_arguments: Vec<Vec<u8>>,
    pub java_arguments: Vec<Vec<u8>>,
    pub policies: Vec<Vec<u8>>,
    pub java_version: Option<i64>,
}

/// The mathematical counterpart of [`InstallationInfo`].
pub struct InfoModel {
    pub id: Seq<u8>,
    pub parent: Option<Seq<u8>>,
    pub scripts: Seq<(Seq<u8>, Seq<u8>)>,
    pub main_class: Option<Seq<u8>>,
    pub classpath: Seq<ClasspathEntryModel>,
    pub program_arguments: Seq<Seq<u8>>,
    pub java_arguments: Seq<Seq<u8>>,
    pub policies: Seq<Seq<u8>>,
    pub java_version: Option<i64>,
}

/// Views of a string list.
pub open spec fn strlist_view(a: Seq<Vec<u8>>) -> Seq<Seq<u8>> {
    Seq::new(a.len(), |k: int| a[k]@)
}

/// Views of a script table.
pub open spec fn pairs_view(a: Seq<(Vec<u8>, Vec<u8>)>) -> Seq<(Seq<u8>, Seq<u8>)> {
    Seq::new(a.len(), |k: int| (a[k].0@, a[k].1@))
}

/// Views of a classpath.
pub open spec fn cp_view(a: Seq<ClasspathEntry>) -> Seq<ClasspathEntryModel> {
    Seq::new(a.len(), |k: int| a[k]@)
}

impl InstallationInfo {
    pub open spec fn view(&self) -> InfoModel {
        InfoModel {
            id: self.id@,
            parent: match self.parent {
                Some(p) => Some(p@),
                None => None,
            },
            scripts: pairs_view(self.scripts@),
            main_class: match self.main_class {
                Some(m) => Some(m@),
                None => None,
            },
            classpath: cp_view(self.classpath@),
            program_arguments: strlist_view(self.program_arguments@),
            java_arguments: strlist_view(self.java_arguments@),
            policies: strlist_view(self.policies@),
            java_version: self.java_version,
        }
    }
}

/// First value stored under `key` in a parsed JSON object.
pub open spec fn jlookup(ms: Seq<(Seq<u8>, JVal)>, key: Seq<u8>) -> Option<JVal>
    decreases ms.len(),
{
    if ms.len() == 0 {
        None
    } else if ms[0].0 == key {
        Some(ms[0].1)
    } else {
        jlookup(ms.drop_first(), key)
    }
}

/// Association lookup on parsed object members.
pub fn jlookup_exec<'a>(ms: &'a Vec<(Vec<u8>, JsonValue)>, key: &Vec<u8>) -> (r: Option<
    &'a JsonValue,
>)
    ensures
        match r {
            Some(v) => jlookup(member_views(ms@), key@) == Some(v@),
            None => jlookup(member_views(ms@), key@) is None,
        },
{
    let ghost dv = member_views(ms@);
    proof {
        assert(dv.subrange(0, dv.len() as int) =~= dv);
    }
    let mut i: usize = 0;
    while i < ms.len()
        invariant
            i <= ms@.len(),
            dv == member_views(ms@),
            dv.len() == ms@.len(),
            jlookup(dv, key@) == jlookup(dv.subrange(i as int, dv.len() as int), key@),
        decreases ms@.len() - i,
    {
        let ghost tail = dv.subrange(i as int, dv.len() as int);
        proof {
            assert(tail[0] == dv[i as int]);
            assert(tail.drop_first() =~= dv.subrange(i + 1, dv.len() as int));
        }
        if bytes_eq(&ms[i].0, key) {
            return Some(&ms[i].1);
        }
        i += 1;
    }
    proof {
        assert(dv.subrange(dv.len() as int, dv.len() as int) =~= Seq::<(Seq<u8>, JVal)>::empty());
    }
    None
}

/// The field name `id`.
pub open spec fn key_id() -> Seq<u8> {
    seq![0x69u8, 0x64u8]
}

/// The field name `id` as a byte vector.
pub fn id_key() -> (r: Vec<u8>)
    ensures
        r@ == key_id(),
{
    let r: Vec<u8> = vec![0x69, 0x64];
    proof {
        assert(r@ =~= key_id());
    }
    r
}

/// The field name `parent`.
pub open spec fn key_parent() -> Seq<u8> {
    seq![0x70u8, 0x61u8, 0x72u8, 0x65u8, 0x6eu8, 0x74u8]
}

/// The field name `parent` as a byte vector.
pub fn parent_key() -> (r: Vec<u8>)
    ensures
        r@ == key_parent(),
{
    let r: Vec<u8> = vec![0x70, 0x61, 0x72, 0x65, 0x6e, 0x74];
    proof {
        assert(r@ =~= key_parent());
    }
    r
}

/// The field name `scripts`.
pub open spec fn key_scripts() -> Seq<u8> {
    seq![0x73u8, 0x63u8, 0x72u8, 0x69u8, 0x70u8, 0x74u8, 0x73u8]
}

/// The field name `scripts` as a byte vector.
pub fn scripts_key() -> (r: Vec<u8>)
    ensures
        r@ == key_scripts(),
{
    let r: Vec<u8> = vec![0x73, 0x63, 0x72, 0x69, 0x70, 0x74, 0x73];
    proof {
        assert(r@ =~= key_scripts());
    }
    r
}

/// The field name `game`.
pub open spec fn key_game() -> Seq<u8> {
    seq![0x67u8, 0x61u8, 0x6du8, 0x65u8]
}

/// The field name `game` as a byte vector.
pub fn game_key() -> (r: Vec<u8>)
    ensures
        r@ == key_game(),
{
    let r: Vec<u8> = vec![0x67, 0x61, 0x6d, 0x65];
    proof {
        assert(r@ =~= key_game());
    }
    r
}

/// The field name `main_class`.
pub open spec fn key_main_class() -> Seq<u8> {
    seq![0x6du8, 0x61u8, 0x69u8, 0x6eu8, 0x5fu8, 0x63u8, 0x6cu8, 0x61u8, 0x73u8, 0x73u8]
}

/// The field name `main_class` as a byte vector.
pub fn main_class_key() -> (r: Vec<u8>)
    ensures
        r@ == key_main_class(),
{
    let r: Vec<u8> = vec![0x6d, 0x61, 0x69, 0x6e, 0x5f, 0x63, 0x6c, 0x61, 0x73, 0x73];
    proof {
        assert(r@ =~= key_main_class());
    }
    r
}

/// The field name `classpath`.
pub open spec fn key_classpath() -> Seq<u8> {
    seq![0x63u8, 0x6cu8, 0x61u8, 0x73u8, 0x73u8, 0x70u8, 0x61u8, 0x74u8, 0x68u8]
}

/// The field name `classpath` as a byte vector.
pub fn classpath_key() -> (r: Vec<u8>)
    ensures
        r@ == key_classpath(),
{
    let r: Vec<u8> = vec![0x63, 0x6c, 0x61, 0x73, 0x73, 0x70, 0x61, 0x74, 0x68];
    proof {
        assert(r@ =~= key_classpath());
    }
    r
}

/// The field name `file`.
pub open spec fn key_file() -> Seq<u8> {
    seq![0x66u8, 0x69u8, 0x6cu8, 0x65u8]
}

/// The field name `file` as a byte vector.
pub fn file_key() -> (r: Vec<u8>)
    ensures
        r@ == key_file(),
{
    let r: Vec<u8> = vec![0x66, 0x69, 0x6c, 0x65];
    proof {
        assert(r@ =~= key_file());
    }
    r
}

/// The field name `platforms`.
pub open spec fn key_platforms() -> Seq<u8> {
    seq![0x70u8, 0x6cu8, 0x61u8, 0x74u8, 0x66u8, 0x6fu8, 0x72u8, 0x6du8, 0x73u8]
}

/// The field name `platforms` as a byte vector.
pub fn platforms_key() -> (r: Vec<u8>)
    ensures
        r@ == key_platforms(),
{
    let r: Vec<u8> = vec![0x70, 0x6c, 0x61, 0x74, 0x66, 0x6f, 0x72, 0x6d, 0x73];
    proof {
        assert(r@ =~= key_platforms());
    }
    r
}

/// The field name `program_arguments`.
pub open spec fn key_program_arguments() -> Seq<u8> {
    seq![0x70u8, 0x72u8, 0x6fu8, 0x67u8, 0x72u8, 0x61u8, 0x6du8, 0x5fu8, 0x61u8, 0x72u8, 0x67u8, 0x75u8, 0x6du8, 0x65u8, 0x6eu8, 0x74u8, 0x73u8]
}

/// The field name `program_arguments` as a byte vector.
pub fn program_arguments_key() -> (r: Vec<u8>)
    ensures
        r@ == key_program_arguments(),
{
    let r: Vec<u8> = vec![0x70, 0x72, 0x6f, 0x67, 0x72, 0x61, 0x6d, 0x5f, 0x61, 0x72, 0x67, 0x75, 0x6d, 0x65, 0x6e, 0x74, 0x73];
    proof {
        assert(r@ =~= key_program_arguments());
    }
    r
}

/// The field name `java_arguments`.
pub open spec fn key_java_arguments() -> Seq<u8> {
    seq![0x6au8, 0x61u8, 0x76u8, 0x61u8, 0x5fu8, 0x61u8, 0x72u8, 0x67u8, 0x75u8, 0x6du8, 0x65u8, 0x6eu8, 0x74u8, 0x73u8]
}

/// The field name `java_arguments` as a byte vector.
pub fn java_arguments_key() -> (r: Vec<u8>)
    ensures
        r@ == key_java_arguments(),
{
    let r: Vec<u8> = vec![0x6a, 0x61, 0x76, 0x61, 0x5f, 0x61, 0x72, 0x67, 0x75, 0x6d, 0x65, 0x6e, 0x74, 0x73];
    proof {
        assert(r@ =~= key_java_arguments());
    }
    r
}

/// The field name `policies`.
pub open spec fn key_policies() -> Seq<u8> {
    seq![0x70u8, 0x6fu8, 0x6cu8, 0x69u8, 0x63u8, 0x69u8, 0x65u8, 0x73u8]
}

/// The field name `policies` as a byte vector.
pub fn policies_key() -> (r: Vec<u8>)
    ensures
        r@ == key_policies(),
{
    let r: Vec<u8> = vec![0x70, 0x6f, 0x6c, 0x69, 0x63, 0x69, 0x65, 0x73];
    proof {
        assert(r@ =~= key_policies());
    }
    r
}

/// The field name `java_version`.
pub open spec fn key_java_version() -> Seq<u8> {
    seq![0x6au8, 0x61u8, 0x76u8, 0x61u8, 0x5fu8, 0x76u8, 0x65u8, 0x72u8, 0x73u8, 0x69u8, 0x6fu8, 0x6eu8]
}

/// The field name `java_version` as a byte vector.
pub fn java_version_key() -> (r: Vec<u8>)
    ensures
        r@ == key_java_version(),
{
    let r: Vec<u8> = vec![0x6a, 0x61, 0x76, 0x61, 0x5f, 0x76, 0x65, 0x72, 0x73, 0x69, 0x6f, 0x6e];
    proof {
        assert(r@ =~= key_java_version());
    }
    r
}

/// The field name `install`.
pub open spec fn key_install() -> Seq<u8> {
    seq![0x69u8, 0x6eu8, 0x73u8, 0x74u8, 0x61u8, 0x6cu8, 0x6cu8]
}

/// The field name `install` as a byte vector.
pub fn install_key() -> (r: Vec<u8>)
    ensures
        r@ == key_install(),
{
    let r: Vec<u8> = vec![0x69, 0x6e, 0x73, 0x74, 0x61, 0x6c, 0x6c];
    proof {
        assert(r@ =~= key_install());
    }
    r
}

/// The field name `launch`.
pub open spec fn key_launch() -> Seq<u8> {
    seq![0x6cu8, 0x61u8, 0x75u8, 0x6eu8, 0x63u8, 0x68u8]
}

/// The field name `launch` as a byte vector.
pub fn launch_key() -> (r: Vec<u8>)
    ensures
        r@ == key_launch(),
{
    let r: Vec<u8> = vec![0x6c, 0x61, 0x75, 0x6e, 0x63, 0x68];
    proof {
        assert(r@ =~= key_launch());
    }
    r
}

// ---------------------------------------------------------------------
// Extraction of descriptor fields from parsed JSON
// ---------------------------------------------------------------------

/// A list of strings, or which field was not a string.
pub open spec fn spec_str_list(es: Seq<JVal>, field: Seq<u8>) -> Result<
    Seq<Seq<u8>>,
    ConfigErrorModel,
>
    decreases es.len(),
{
    if es.len() == 0 {
        Ok(Seq::empty())
    } else {
        match es[0] {
            JVal::Str(t) => match spec_str_list(es.drop_first(), field) {
                Ok(r) => Ok(seq![t] + r),
                Err(e) => Err(e),
            },
            _ => Err(ConfigErrorModel::InvalidField(field)),
        }
    }
}

/// One classpath entry from its JSON object.
pub open spec fn spec_cp_entry(v: JVal) -> Result<ClasspathEntryModel, ConfigErrorModel> {
    match v {
        JVal::Obj(ms) => match jlookup(ms, key_file()) {
            Some(JVal::Str(f)) => match jlookup(ms, key_platforms()) {
                None => Ok(ClasspathEntryModel { file: f, platforms: None }),
                Some(pv) => match pv {
                    JVal::Arr(ps) => match spec_str_list(ps, key_platforms()) {
                        Ok(p) => Ok(ClasspathEntryModel { file: f, platforms: Some(p) }),
                        Err(e) => Err(e),
                    },
                    _ => Err(ConfigErrorModel::InvalidField(key_platforms())),
                },
            },
            _ => Err(ConfigErrorModel::InvalidField(key_file())),
        },
        _ => Err(ConfigErrorModel::InvalidField(key_classpath())),
    }
}

/// The classpath list from its JSON array.
pub open spec fn spec_cp_list(es: Seq<JVal>) -> Result<Seq<ClasspathEntryModel>, ConfigErrorModel>
    decreases es.len(),
{
    if es.len() == 0 {
        Ok(Seq::empty())
    } else {
        match spec_cp_entry(es[0]) {
            Ok(e0) => match spec_cp_list(es.drop_first()) {
                Ok(r) => Ok(seq![e0] + r),
                Err(e) => Err(e),
            },
            Err(e) => Err(e),
        }
    }
}

/// The script table: every hook value must be a string.
pub open spec fn spec_scripts(ms: Seq<(Seq<u8>, JVal)>) -> Result<
    Seq<(Seq<u8>, Seq<u8>)>,
    ConfigErrorModel,
>
    decreases ms.len(),
{
    if ms.len() == 0 {
        Ok(Seq::empty())
    } else {
        match ms[0].1 {
            JVal::Str(p) => match spec_scripts(ms.drop_first()) {
                Ok(r) => Ok(seq![(ms[0].0, p)] + r),
                Err(e) => Err(e),
            },
            _ => Err(ConfigErrorModel::ScriptNotString),
        }
    }
}

/// Placeholder substitution over every string of a list.
pub open spec fn spec_sub_list(raw: Seq<Seq<u8>>, m: Seq<(Seq<u8>, Seq<u8>)>) -> Seq<Seq<u8>> {
    Seq::new(raw.len(), |k: int| spec_substitute(raw[k], m))
}

/// The descriptor read from one `info.json` text, with the caller's
/// substitutions applied to its argument lists.
pub open spec fn spec_parse_info(s: Seq<u8>, m: Seq<(Seq<u8>, Seq<u8>)>) -> Result<
    InfoModel,
    ConfigErrorModel,
> {
    match sp_document(s) {
        None => Err(ConfigErrorModel::InvalidJson),
        Some(doc) => match doc {
            JVal::Obj(ms) => match jlookup(ms, key_id()) {
                Some(JVal::Str(id)) => {
                    let parent = match jlookup(ms, key_parent()) {
                        Some(JVal::Str(p)) => Some(p),
                        _ => None,
                    };
                    let scripts_r = match jlookup(ms, key_scripts()) {
                        Some(JVal::Obj(ss)) => spec_scripts(ss),
                        _ => Ok(Seq::empty()),
                    };
                    match scripts_r {
                        Err(e) => Err(e),
                        Ok(scripts) => {
                            let game = match jlookup(ms, key_game()) {
                                Some(JVal::Obj(g)) => g,
                                _ => Seq::empty(),
                            };
                            let main_class = match jlookup(game, key_main_class()) {
                                Some(JVal::Str(mc)) => Some(mc),
                                _ => None,
                            };
                            let cp_r = match jlookup(game, key_classpath()) {
                                Some(JVal::Arr(es)) => spec_cp_list(es),
                                _ => Ok(Seq::empty()),
                            };
                            let prog_r = match jlookup(game, key_program_arguments()) {
                                Some(JVal::Arr(es)) => spec_str_list(es, key_program_arguments()),
                                _ => Ok(Seq::empty()),
                            };
                            let java_r = match jlookup(game, key_java_arguments()) {
                                Some(JVal::Arr(es)) => spec_str_list(es, key_java_arguments()),
                                _ => Ok(Seq::empty()),
                            };
                            let pol_r = match jlookup(game, key_policies()) {
                                Some(JVal::Arr(es)) => spec_str_list(es, key_policies()),
                                _ => Ok(Seq::empty()),
                            };
                            let java_version = match jlookup(game, key_java_version()) {
                                Some(JVal::Int(n)) => Some(n),
                                _ => None,
                            };
                            match cp_r {
                                Err(e) => Err(e),
                                Ok(cp) => match prog_r {
                                    Err(e) => Err(e),
                                    Ok(prog) => match java_r {
                                        Err(e) => Err(e),
                                        Ok(java) => match pol_r {
                                            Err(e) => Err(e),
                                            Ok(pol) => Ok(
                                                InfoModel {
                                                    id: id,
                                                    parent: parent,
                                                    scripts: scripts,
                                                    main_class: main_class,
                                                    classpath: cp,
                                                    program_arguments: spec_sub_list(prog, m),
                                                    java_arguments: spec_sub_list(java, m),
                                                    policies: pol,
                                                    java_version: java_version,
                                                },
                                            ),
                                        },
                                    },
                                },
                            }
                        },
                    }
                },
                _ => Err(ConfigErrorModel::MissingId),
            },
            _ => Err(ConfigErrorModel::NotAnObject),
        },
    }
}

/// A list of strings from a JSON array, or the field that failed.
fn str_list_from(es: &Vec<JsonValue>, field: &Vec<u8>) -> (r: Result<Vec<Vec<u8>>, ConfigError>)
    ensures
        match r {
            Ok(out) => spec_str_list(views_of(es@), field@) == Ok::<Seq<Seq<u8>>, ConfigErrorModel>(strlist_view(out@)),
            Err(e) => spec_str_list(views_of(es@), field@) == Err::<Seq<Seq<u8>>, ConfigErrorModel>(e@),
        },
{
    let ghost orig = views_of(es@);
    let mut out: Vec<Vec<u8>> = Vec::new();
    let mut i: usize = 0;
    proof {
        assert(orig.skip(0) =~= orig);
    }
    while i < es.len()
        invariant
            i <= es@.len(),
            orig == views_of(es@),
            out@.len() == i,
            spec_str_list(orig, field@) == match spec_str_list(orig.skip(i as int), field@) {
                Ok(r) => Ok(strlist_view(out@) + r),
                Err(e) => Err::<Seq<Seq<u8>>, ConfigErrorModel>(e),
            },
        decreases es@.len() - i,
    {
        let ghost suf = orig.skip(i as int);
        proof {
            assert(suf[0] == orig[i as int]);
            assert(suf.drop_first() =~= orig.skip(i + 1));
        }
        match &es[i] {
            JsonValue::Str(t) => {
                let ghost oldout = strlist_view(out@);
                out.push(clone_bytes(t));
                proof {
                    assert(strlist_view(out@) =~= oldout.push(t@));
                    assert(oldout.push(t@) + strlist_view(out@).skip(out@.len() as int)
                        =~= oldout.push(t@));
                    assert forall|r: Seq<Seq<u8>>| true implies (oldout + (seq![t@] + r))
                        =~= (oldout.push(t@) + r) by {}
                }
            },
            _ => {
                proof {
                    assert(!(suf[0] is Str));
                }
                return Err(ConfigError::InvalidField(clone_bytes(field)));
            },
        }
        i += 1;
    }
    proof {
        assert(orig.skip(i as int).len() == 0);
        assert(strlist_view(out@) + Seq::<Seq<u8>>::empty() =~= strlist_view(out@));
    }
    Ok(out)
}

/// One classpath entry from its JSON object.
fn cp_entry_from(v: &JsonValue) -> (r: Result<ClasspathEntry, ConfigError>)
    ensures
        match r {
            Ok(out) => spec_cp_entry(v@) == Ok::<ClasspathEntryModel, ConfigErrorModel>(out@),
            Err(e) => spec_cp_entry(v@) == Err::<ClasspathEntryModel, ConfigErrorModel>(e@),
        },
{
    match v {
        JsonValue::Obj(ms) => {
            proof {
                assert(v@->Obj_0 =~= member_views(ms@));
            }
            let fk = file_key();
            match jlookup_exec(ms, &fk) {
                Some(JsonValue::Str(f)) => {
                    let pk = platforms_key();
                    match jlookup_exec(ms, &pk) {
                        None => {
                            let e = ClasspathEntry { file: clone_bytes(f), platforms: None };
                            proof {
                                assert(e@ == ClasspathEntryModel { file: f@, platforms: None });
                            }
                            Ok(e)
                        },
                        Some(jv) => match jv {
                            JsonValue::Arr(ps) => {
                                proof {
                                    assert(jv@->Arr_0 =~= views_of(ps@));
                                }
                                match str_list_from(ps, &pk) {
                                    Ok(list) => {
                                        let e = ClasspathEntry {
                                            file: clone_bytes(f),
                                            platforms: Some(list),
                                        };
                                        proof {
                                            assert(e@.platforms->Some_0 =~= strlist_view(list@));
                                        }
                                        Ok(e)
                                    },
                                    Err(e) => Err(e),
                                }
                            },
                            _ => Err(ConfigError::InvalidField(pk)),
                        },
                    }
                },
                _ => Err(ConfigError::InvalidField(fk)),
            }
        },
        _ => Err(ConfigError::InvalidField(classpath_key())),
    }
}

/// The classpath list from its JSON array.
fn cp_list_from(es: &Vec<JsonValue>) -> (r: Result<Vec<ClasspathEntry>, ConfigError>)
    ensures
        match r {
            Ok(out) => spec_cp_list(views_of(es@)) == Ok::<Seq<ClasspathEntryModel>, ConfigErrorModel>(cp_view(out@)),
            Err(e) => spec_cp_list(views_of(es@)) == Err::<Seq<ClasspathEntryModel>, ConfigErrorModel>(e@),
        },
{
    let ghost orig = views_of(es@);
    let mut out: Vec<ClasspathEntry> = Vec::new();
    let mut i: usize = 0;
    proof {
        assert(orig.skip(0) =~= orig);
    }
    while i < es.len()
        invariant
            i <= es@.len(),
            orig == views_of(es@),
            out@.len() == i,
            spec_cp_list(orig) == match spec_cp_list(orig.skip(i as int)) {
                Ok(r) => Ok(cp_view(out@) + r),
                Err(e) => Err::<Seq<ClasspathEntryModel>, ConfigErrorModel>(e),
            },
        decreases es@.len() - i,
    {
        let ghost suf = orig.skip(i as int);
        proof {
            assert(suf[0] == orig[i as int]);
            assert(suf.drop_first() =~= orig.skip(i + 1));
        }
        match cp_entry_from(&es[i]) {
            Ok(e0) => {
                let ghost oldout = cp_view(out@);
                let ghost e0m = e0@;
                out.push(e0);
                proof {
                    assert(cp_view(out@) =~= oldout.push(e0m));
                    assert forall|r: Seq<ClasspathEntryModel>| true implies (oldout + (seq![e0m]
                        + r)) =~= (oldout.push(e0m) + r) by {}
                }
            },
            Err(e) => {
                return Err(e);
            },
        }
        i += 1;
    }
    proof {
        assert(orig.skip(i as int).len() == 0);
        assert(cp_view(out@) + Seq::<ClasspathEntryModel>::empty() =~= cp_view(out@));
    }
    Ok(out)
}

/// The script table from its JSON object.
fn scripts_from(ms: &Vec<(Vec<u8>, JsonValue)>) -> (r: Result<Vec<(Vec<u8>, Vec<u8>)>, ConfigError>)
    ensures
        match r {
            Ok(out) => spec_scripts(member_views(ms@)) == Ok::<Seq<(Seq<u8>, Seq<u8>)>, ConfigErrorModel>(pairs_view(out@)),
            Err(e) => spec_scripts(member_views(ms@)) == Err::<Seq<(Seq<u8>, Seq<u8>)>, ConfigErrorModel>(e@),
        },
{
    let ghost orig = member_views(ms@);
    let mut out: Vec<(Vec<u8>, Vec<u8>)> = Vec::new();
    let mut i: usize = 0;
    proof {
        assert(orig.skip(0) =~= orig);
    }
    while i < ms.len()
        invariant
            i <= ms@.len(),
            orig == member_views(ms@),
            out@.len() == i,
            spec_scripts(orig) == match spec_scripts(orig.skip(i as int)) {
                Ok(r) => Ok(pairs_view(out@) + r),
                Err(e) => Err::<Seq<(Seq<u8>, Seq<u8>)>, ConfigErrorModel>(e),
            },
        decreases ms@.len() - i,
    {
        let ghost suf = orig.skip(i as int);
        proof {
            assert(suf[0] == orig[i as int]);
            assert(suf.drop_first() =~= orig.skip(i + 1));
        }
        match &ms[i].1 {
            JsonValue::Str(p) => {
                let ghost oldout = pairs_view(out@);
                out.push((clone_bytes(&ms[i].0), clone_bytes(p)));
                proof {
                    assert(pairs_view(out@) =~= oldout.push((suf[0].0, p@)));
                    assert forall|r: Seq<(Seq<u8>, Seq<u8>)>| true implies (oldout + (seq![
                        (suf[0].0, p@),
                    ] + r)) =~= (oldout.push((suf[0].0, p@)) + r) by {}
                }
            },
            _ => {
                proof {
                    assert(!(suf[0].1 is Str));
                }
                return Err(ConfigError::ScriptNotString);
            },
        }
        i += 1;
    }
    proof {
        assert(orig.skip(i as int).len() == 0);
        assert(pairs_view(out@) + Seq::<(Seq<u8>, Seq<u8>)>::empty() =~= pairs_view(out@));
    }
    Ok(out)
}

/// Substitutes placeholders in every element of a parsed string list.
fn sub_list(raw: Vec<Vec<u8>>, m: &Vec<(Vec<u8>, Vec<u8>)>) -> (r: Vec<Vec<u8>>)
    ensures
        strlist_view(r@) == spec_sub_list(strlist_view(raw@), m.deep_view()),
{
    let mut out: Vec<Vec<u8>> = Vec::new();
    let mut i: usize = 0;
    while i < raw.len()
        invariant
            i <= raw@.len(),
            out@.len() == i,
            forall|k: int|
                0 <= k < i ==> (#[trigger] out@[k])@ == spec_substitute(
                    raw@[k]@,
                    m.deep_view(),
                ),
        decreases raw@.len() - i,
    {
        let s = substitute(&raw[i], m);
        out.push(s);
        i += 1;
    }
    proof {
        assert(strlist_view(out@) =~= spec_sub_list(strlist_view(raw@), m.deep_view()));
    }
    out
}

/// Reads one descriptor from the bytes of its `info.json`, applying the
/// caller's template substitutions to the argument lists.
pub fn parse_installation_info(bytes: &Vec<u8>, subst: &Vec<(Vec<u8>, Vec<u8>)>) -> (r: Result<
    InstallationInfo,
    ConfigError,
>)
    ensures
        match r {
            Ok(info) => spec_parse_info(bytes@, subst.deep_view()) == Ok::<InfoModel, ConfigErrorModel>(info@),
            Err(e) => spec_parse_info(bytes@, subst.deep_view()) == Err::<InfoModel, ConfigErrorModel>(e@),
        },
{
    let doc = match parse_document(bytes) {
        Some(doc) => doc,
        None => {
            return Err(ConfigError::InvalidJson);
        },
    };
    let members = match doc {
        JsonValue::Obj(members) => {
            proof {
                assert(JsonValue::Obj(members)@->Obj_0 =~= member_views(members@));
            }
            members
        },
        other => {
            proof {
                assert(!(other@ is Obj));
            }
            return Err(ConfigError::NotAnObject);
        },
    };
    let idk = id_key();
    let id = match jlookup_exec(&members, &idk) {
        Some(JsonValue::Str(id)) => clone_bytes(id),
        _ => {
            return Err(ConfigError::MissingId);
        },
    };
    let pk = parent_key();
    let parent = match jlookup_exec(&members, &pk) {
        Some(JsonValue::Str(p)) => Some(clone_bytes(p)),
        _ => None,
    };
    let sk = scripts_key();
    let scripts = match jlookup_exec(&members, &sk) {
        Some(jv) => match jv {
            JsonValue::Obj(ss) => {
                proof {
                    assert(jv@->Obj_0 =~= member_views(ss@));
                }
                match scripts_from(ss) {
                    Ok(s) => s,
                    Err(e) => {
                        return Err(e);
                    },
                }
            },
            _ => Vec::new(),
        },
        None => Vec::new(),
    };
    let gk = game_key();
    let empty_game: Vec<(Vec<u8>, JsonValue)> = Vec::new();
    proof {
        assert(member_views(empty_game@) =~= Seq::<(Seq<u8>, JVal)>::empty());
    }
    let game: &Vec<(Vec<u8>, JsonValue)> = match jlookup_exec(&members, &gk) {
        Some(jv) => match jv {
            JsonValue::Obj(g) => {
                proof {
                    assert(jv@->Obj_0 =~= member_views(g@));
                }
                g
            },
            _ => &empty_game,
        },
        None => &empty_game,
    };
    let mck = main_class_key();
    let main_class = match jlookup_exec(game, &mck) {
        Some(JsonValue::Str(mc)) => Some(clone_bytes(mc)),
        _ => None,
    };
    let cpk = classpath_key();
    let classpath = match jlookup_exec(game, &cpk) {
        Some(jv) => match jv {
            JsonValue::Arr(es) => {
                proof {
                    assert(jv@->Arr_0 =~= views_of(es@));
                }
                match cp_list_from(es) {
                    Ok(cp) => cp,
                    Err(e) => {
                        return Err(e);
                    },
                }
            },
            _ => Vec::new(),
        },
        None => Vec::new(),
    };
    let pak = program_arguments_key();
    let prog_raw = match jlookup_exec(game, &pak) {
        Some(jv) => match jv {
            JsonValue::Arr(es) => {
                proof {
                    assert(jv@->Arr_0 =~= views_of(es@));
                }
                match str_list_from(es, &pak) {
                    Ok(l) => l,
                    Err(e) => {
                        return Err(e);
                    },
                }
            },
            _ => Vec::new(),
        },
        None => Vec::new(),
    };
    let jak = java_arguments_key();
    let java_raw = match jlookup_exec(game, &jak) {
        Some(jv) => match jv {
            JsonValue::Arr(es) => {
                proof {
                    assert(jv@->Arr_0 =~= views_of(es@));
                }
                match str_list_from(es, &jak) {
                    Ok(l) => l,
                    Err(e) => {
                        return Err(e);
                    },
                }
            },
            _ => Vec::new(),
        },
        None => Vec::new(),
    };
    let pok = policies_key();
    let policies = match jlookup_exec(game, &pok) {
        Some(jv) => match jv {
            JsonValue::Arr(es) => {
                proof {
                    assert(jv@->Arr_0 =~= views_of(es@));
                }
                match str_list_from(es, &pok) {
                    Ok(l) => l,
                    Err(e) => {
                        return Err(e);
                    },
                }
            },
            _ => Vec::new(),
        },
        None => Vec::new(),
    };
    let jvk = java_version_key();
    let java_version = match jlookup_exec(game, &jvk) {
        Some(JsonValue::Int(n)) => Some(*n),
        _ => None,
    };
    let program_arguments = sub_list(prog_raw, subst);
    let java_arguments = sub_list(java_raw, subst);
    let info = InstallationInfo {
        id,
        parent,
        scripts,
        main_class,
        classpath,
        program_arguments,
        java_arguments,
        policies,
        java_version,
    };
    proof {
        assert(strlist_view(Seq::<Vec<u8>>::empty()) =~= Seq::<Seq<u8>>::empty());
        assert(pairs_view(Seq::<(Vec<u8>, Vec<u8>)>::empty()) =~= Seq::<(Seq<u8>, Seq<u8>)>::empty());
        assert(cp_view(Seq::<ClasspathEntry>::empty()) =~= Seq::<ClasspathEntryModel>::empty());
    }
    Ok(info)
}

// ---------------------------------------------------------------------
// The descriptor tree and its inheritance accessors
// ---------------------------------------------------------------------

/// One node of the installation graph: its own fields plus the owned
/// parent chain.
#[derive(Debug, PartialEq)]
pub struct Installation {
    pub parent: Option<Box<Installation>>,
    pub info: InstallationInfo,
}

/// Whether a classpath entry applies on the given host platform.
pub open spec fn keep_entry(e: ClasspathEntryModel, os: Seq<u8>) -> bool {
    match e.platforms {
        None => true,
        Some(ps) => ps.contains(os),
    }
}

/// One node's classpath contribution: its entries that apply on `os`,
/// in order.
pub open spec fn spec_own_classpath(cp: Seq<ClasspathEntryModel>, os: Seq<u8>) -> Seq<Seq<u8>>
    decreases cp.len(),
{
    if cp.len() == 0 {
        Seq::empty()
    } else {
        let rest = spec_own_classpath(cp.drop_first(), os);
        if keep_entry(cp[0], os) {
            seq![cp[0].file] + rest
        } else {
            rest
        }
    }
}

impl Installation {
    /// Own platform-filtered entries first, then the ancestors'.
    pub open spec fn spec_effective_classpath(&self, os: Seq<u8>) -> Seq<Seq<u8>>
        decreases self,
    {
        spec_own_classpath(cp_view(self.info.classpath@), os) + match self.parent {
            Some(p) => p.spec_effective_classpath(os),
            None => Seq::empty(),
        }
    }

    /// Own main class if set, else the nearest ancestor's.
    pub open spec fn spec_effective_main_class(&self) -> Option<Seq<u8>>
        decreases self,
    {
        match self.info.main_class {
            Some(mc) => Some(mc@),
            None => match self.parent {
                Some(p) => p.spec_effective_main_class(),
                None => None,
            },
        }
    }

    /// Ancestors' arguments first, then the node's own.
    pub open spec fn spec_effective_java_arguments(&self) -> Seq<Seq<u8>>
        decreases self,
    {
        (match self.parent {
            Some(p) => p.spec_effective_java_arguments(),
            None => Seq::empty(),
        }) + strlist_view(self.info.java_arguments@)
    }

    /// Ancestors' arguments first, then the node's own.
    pub open spec fn spec_effective_program_arguments(&self) -> Seq<Seq<u8>>
        decreases self,
    {
        (match self.parent {
            Some(p) => p.spec_effective_program_arguments(),
            None => Seq::empty(),
        }) + strlist_view(self.info.program_arguments@)
    }

    /// Ancestors' policies first, then the node's own.
    pub open spec fn spec_effective_policies(&self) -> Seq<Seq<u8>>
        decreases self,
    {
        (match self.parent {
            Some(p) => p.spec_effective_policies(),
            None => Seq::empty(),
        }) + strlist_view(self.info.policies@)
    }

    /// `(id, script)` pairs for a hook, root first.
    pub open spec fn spec_effective_scripts(&self, hook: Seq<u8>) -> Seq<(Seq<u8>, Seq<u8>)>
        decreases self,
    {
        (match self.parent {
            Some(p) => p.spec_effective_scripts(hook),
            None => Seq::empty(),
        }) + match crate::util::spec_assoc_lookup(pairs_view(self.info.scripts@), hook) {
            Some(path) => seq![(self.info.id@, path)],
            None => Seq::empty(),
        }
    }

    /// Own java version if set, else the nearest ancestor's.
    pub open spec fn spec_effective_java_version(&self) -> Option<i64>
        decreases self,
    {
        match self.info.java_version {
            Some(v) => Some(v),
            None => match self.parent {
                Some(p) => p.spec_effective_java_version(),
                None => None,
            },
        }
    }

    /// This node's identifier.
    pub fn id(&self) -> (r: &Vec<u8>)
        ensures
            r@ == self.info.id@,
    {
        &self.info.id
    }

    /// The script configured for `hook` on this node alone.
    pub fn get_script(&self, hook: &Vec<u8>) -> (r: Option<&Vec<u8>>)
        ensures
            match r {
                Some(p) => crate::util::spec_assoc_lookup(pairs_view(self.info.scripts@), hook@)
                    == Some(p@),
                None => crate::util::spec_assoc_lookup(pairs_view(self.info.scripts@), hook@)
                    is None,
            },
    {
        proof {
            assert(self.info.scripts.deep_view() =~= pairs_view(self.info.scripts@)) by {
                assert forall|k: int|
                    0 <= k < self.info.scripts@.len() implies self.info.scripts.deep_view()[k]
                    == pairs_view(self.info.scripts@)[k] by {
                    assert(self.info.scripts@[k].0.deep_view() =~= self.info.scripts@[k].0@);
                    assert(self.info.scripts@[k].1.deep_view() =~= self.info.scripts@[k].1@);
                }
            }
        }
        crate::util::assoc_lookup(&self.info.scripts, hook)
    }

    /// The effective main class: this node's, or the nearest ancestor's.
    pub fn get_main_class(&self) -> (r: Option<&Vec<u8>>)
        ensures
            match r {
                Some(mc) => self.spec_effective_main_class() == Some(mc@),
                None => self.spec_effective_main_class() is None,
            },
        decreases self,
    {
        match &self.info.main_class {
            Some(mc) => Some(mc),
            None => match &self.parent {
                Some(p) => p.get_main_class(),
                None => None,
            },
        }
    }

    /// The effective classpath on `os`: own kept entries, then the
    /// ancestors'.
    pub fn get_classpath(&self, os: &Vec<u8>) -> (r: Vec<Vec<u8>>)
        ensures
            strlist_view(r@) == self.spec_effective_classpath(os@),
        decreases self,
    {
        let ghost own = cp_view(self.info.classpath@);
        let mut out: Vec<Vec<u8>> = Vec::new();
        let mut i: usize = 0;
        proof {
            assert(own.skip(0) =~= own);
            assert(strlist_view(out@) =~= Seq::<Seq<u8>>::empty());
            assert(Seq::<Seq<u8>>::empty() + spec_own_classpath(own, os@) =~= spec_own_classpath(
                own,
                os@,
            ));
        }
        while i < self.info.classpath.len()
            invariant
                i <= self.info.classpath@.len(),
                own == cp_view(self.info.classpath@),
                spec_own_classpath(own, os@) == strlist_view(out@) + spec_own_classpath(
                    own.skip(i as int),
                    os@,
                ),
            decreases self.info.classpath@.len() - i,
        {
            let ghost suf = own.skip(i as int);
            proof {
                assert(suf[0] == own[i as int]);
                assert(suf.drop_first() =~= own.skip(i + 1));
            }
            let e = &self.info.classpath[i];
            let keep = match &e.platforms {
                None => true,
                Some(ps) => contains_bytes(ps, os),
            };
            proof {
                if e.platforms is Some {
                    assert(strlist_view(e.platforms->Some_0@) =~= e@.platforms->Some_0);
                }
                assert(keep == keep_entry(own[i as int], os@));
            }
            if keep {
                let ghost oldout = strlist_view(out@);
                out.push(clone_bytes(&e.file));
                proof {
                    assert(strlist_view(out@) =~= oldout.push(own[i as int].file));
                    assert forall|r: Seq<Seq<u8>>| true implies (oldout + (seq![own[i as int].file]
                        + r)) =~= (oldout.push(own[i as int].file) + r) by {}
                }
            }
            i += 1;
        }
        proof {
            assert(own.skip(i as int).len() == 0);
            assert(strlist_view(out@) + Seq::<Seq<u8>>::empty() =~= strlist_view(out@));
        }
        match &self.parent {
            Some(p) => {
                let rest = p.get_classpath(os);
                let ghost before = strlist_view(out@);
                let mut j: usize = 0;
                let mut rest_v = rest;
                let ghost restv = strlist_view(rest_v@);
                while j < rest_v.len()
                    invariant
                        j <= rest_v@.len(),
                        restv == strlist_view(rest_v@),
                        strlist_view(out@) == before + restv.take(j as int),
                    decreases rest_v@.len() - j,
                {
                    let ghost oldout = strlist_view(out@);
                    out.push(clone_bytes(&rest_v[j]));
                    proof {
                        assert(strlist_view(out@) =~= oldout.push(restv[j as int]));
                        assert(restv.take(j + 1) =~= restv.take(j as int).push(restv[j as int]));
                        assert(before + restv.take(j + 1) =~= oldout.push(restv[j as int]));
                    }
                    j += 1;
                }
                proof {
                    assert(restv.take(rest_v@.len() as int) =~= restv);
                }
                out
            },
            None => {
                proof {
                    assert(strlist_view(out@) + Seq::<Seq<u8>>::empty() =~= strlist_view(out@));
                }
                out
            },
        }
    }

    /// The effective java arguments, ancestors first.
    pub fn get_java_arguments(&self) -> (r: Vec<Vec<u8>>)
        ensures
            strlist_view(r@) == self.spec_effective_java_arguments(),
        decreases self,
    {
        let mut out: Vec<Vec<u8>> = match &self.parent {
            Some(p) => p.get_java_arguments(),
            None => Vec::new(),
        };
        proof {
            if self.parent is None {
                assert(strlist_view(out@) =~= Seq::<Seq<u8>>::empty());
            }
        }
        append_strs(&mut out, &self.info.java_arguments);
        proof {
            assert(strlist_view(out@) =~= self.spec_effective_java_arguments());
        }
        out
    }

    /// The effective program arguments, ancestors first.
    pub fn get_program_arguments(&self) -> (r: Vec<Vec<u8>>)
        ensures
            strlist_view(r@) == self.spec_effective_program_arguments(),
        decreases self,
    {
        let mut out: Vec<Vec<u8>> = match &self.parent {
            Some(p) => p.get_program_arguments(),
            None => Vec::new(),
        };
        proof {
            if self.parent is None {
                assert(strlist_view(out@) =~= Seq::<Seq<u8>>::empty());
            }
        }
        append_strs(&mut out, &self.info.program_arguments);
        proof {
            assert(strlist_view(out@) =~= self.spec_effective_program_arguments());
        }
        out
    }

    /// The effective policy paths, ancestors first.
    pub fn get_policies(&self) -> (r: Vec<Vec<u8>>)
        ensures
            strlist_view(r@) == self.spec_effective_policies(),
        decreases self,
    {
        let mut out: Vec<Vec<u8>> = match &self.parent {
            Some(p) => p.get_policies(),
            None => Vec::new(),
        };
        proof {
            if self.parent is None {
                assert(strlist_view(out@) =~= Seq::<Seq<u8>>::empty());
            }
        }
        append_strs(&mut out, &self.info.policies);
        proof {
            assert(strlist_view(out@) =~= self.spec_effective_policies());
        }
        out
    }

    /// `(id, script)` pairs for a hook, root first.
    pub fn get_scripts(&self, hook: &Vec<u8>) -> (r: Vec<(Vec<u8>, Vec<u8>)>)
        ensures
            pairs_view(r@) == self.spec_effective_scripts(hook@),
        decreases self,
    {
        let mut out: Vec<(Vec<u8>, Vec<u8>)> = match &self.parent {
            Some(p) => p.get_scripts(hook),
            None => Vec::new(),
        };
        proof {
            if self.parent is None {
                assert(pairs_view(out@) =~= Seq::<(Seq<u8>, Seq<u8>)>::empty());
            }
        }
        let ghost before = pairs_view(out@);
        match self.get_script(hook) {
            Some(path) => {
                out.push((clone_bytes(&self.info.id), clone_bytes(path)));
                proof {
                    assert(pairs_view(out@) =~= before + seq![(self.info.id@, path@)]);
                }
            },
            None => {
                proof {
                    assert(pairs_view(out@) =~= before + Seq::<(Seq<u8>, Seq<u8>)>::empty());
                }
            },
        }
        out
    }

    /// The effective java version: this node's, or the nearest
    /// ancestor's.
    pub fn get_java_version(&self) -> (r: Option<i64>)
        ensures
            r == self.spec_effective_java_version(),
        decreases self,
    {
        match self.info.java_version {
            Some(v) => Some(v),
            None => match &self.parent {
                Some(p) => p.get_java_version(),
                None => None,
            },
        }
    }
}

/// Whether `x` occurs in `v`.
pub fn contains_bytes(v: &Vec<Vec<u8>>, x: &Vec<u8>) -> (r: bool)
    ensures
        r == strlist_view(v@).contains(x@),
{
    let mut i: usize = 0;
    while i < v.len()
        invariant
            i <= v@.len(),
            forall|k: int| 0 <= k < i ==> strlist_view(v@)[k] != x@,
        decreases v@.len() - i,
    {
        if bytes_eq(&v[i], x) {
            proof {
                assert(strlist_view(v@)[i as int] == x@);
            }
            return true;
        }
        i += 1;
    }
    proof {
        assert(!strlist_view(v@).contains(x@));
    }
    false
}

/// Appends copies of all strings in `src` to `out`.
pub(crate) fn append_strs(out: &mut Vec<Vec<u8>>, src: &Vec<Vec<u8>>)
    ensures
        strlist_view(final(out)@) == strlist_view(old(out)@) + strlist_view(src@),
{
    let ghost before = strlist_view(old(out)@);
    let ghost srcv = strlist_view(src@);
    let mut i: usize = 0;
    while i < src.len()
        invariant
            i <= src@.len(),
            before == strlist_view(old(out)@),
            srcv == strlist_view(src@),
            strlist_view(out@) == before + srcv.take(i as int),
        decreases src@.len() - i,
    {
        let ghost oldout = strlist_view(out@);
        out.push(clone_bytes(&src[i]));
        proof {
            assert(strlist_view(out@) =~= oldout.push(srcv[i as int]));
            assert(srcv.take(i + 1) =~= srcv.take(i as int).push(srcv[i as int]));
            assert(before + srcv.take(i + 1) =~= oldout.push(srcv[i as int]));
        }
        i += 1;
    }
    proof {
        assert(srcv.take(src@.len() as int) =~= srcv);
    }
}

// ---------------------------------------------------------------------
// Resolving a descriptor chain from on-disk texts
// ---------------------------------------------------------------------

/// The descriptor stored under `key`, as parsed.
pub open spec fn spec_info_at(
    files: Seq<(Seq<u8>, Seq<u8>)>,
    key: Seq<u8>,
    subst: Seq<(Seq<u8>, Seq<u8>)>,
) -> Result<InfoModel, ConfigErrorModel> {
    match crate::util::spec_assoc_lookup(files, key) {
        None => Err(ConfigErrorModel::MissingDescriptor(key)),
        Some(bytes) => spec_parse_info(bytes, subst),
    }
}

/// Walks the parent chain from `id`, reporting the first failure: a
/// revisited id, a missing descriptor, or a malformed one. `fuel`
/// bounds the walk; the caller passes more fuel than there are
/// descriptors, so fuel runs out only on a walk that revisits ids.
pub open spec fn spec_resolve(
    files: Seq<(Seq<u8>, Seq<u8>)>,
    subst: Seq<(Seq<u8>, Seq<u8>)>,
    id: Seq<u8>,
    seen: Seq<Seq<u8>>,
    fuel: nat,
) -> Result<(), ConfigErrorModel>
    decreases fuel,
{
    if seen.contains(id) {
        Err(ConfigErrorModel::ParentCycle(id))
    } else if fuel == 0 {
        Err(ConfigErrorModel::ParentCycle(id))
    } else {
        match spec_info_at(files, id, subst) {
            Err(e) => Err(e),
            Ok(info) => match info.parent {
                None => Ok(()),
                Some(pid) => spec_resolve(files, subst, pid, seen.push(id), (fuel - 1) as nat),
            },
        }
    }
}

/// The built tree corresponds to the stored texts: each node's fields
/// are exactly what its `info.json` (looked up under `key`) parses to,
/// and its parent link follows the parsed `parent` field.
pub open spec fn tree_matches(
    inst: Installation,
    key: Seq<u8>,
    files: Seq<(Seq<u8>, Seq<u8>)>,
    subst: Seq<(Seq<u8>, Seq<u8>)>,
) -> bool
    decreases inst,
{
    match spec_info_at(files, key, subst) {
        Err(_) => false,
        Ok(m) => inst.info@ == m && match m.parent {
            None => inst.parent is None,
            Some(pid) => match inst.parent {
                Some(p) => tree_matches(*p, pid, files, subst),
                None => false,
            },
        },
    }
}

/// One step of the chain walk: checks for a revisit, reads and parses
/// the current descriptor, then resolves its parent and attaches it.
fn resolve_chain(
    files: &Vec<(Vec<u8>, Vec<u8>)>,
    subst: &Vec<(Vec<u8>, Vec<u8>)>,
    cur: Vec<u8>,
    visited: &mut Vec<Vec<u8>>,
    fuel: usize,
) -> (r: Result<Installation, ConfigError>)
    ensures
        match r {
            Ok(inst) => spec_resolve(
                files.deep_view(),
                subst.deep_view(),
                cur@,
                strlist_view(old(visited)@),
                fuel as nat,
            ) is Ok && tree_matches(inst, cur@, files.deep_view(), subst.deep_view()),
            Err(e) => spec_resolve(
                files.deep_view(),
                subst.deep_view(),
                cur@,
                strlist_view(old(visited)@),
                fuel as nat,
            ) == Err::<(), ConfigErrorModel>(e@),
        },
    decreases fuel,
{
    let ghost gf = files.deep_view();
    let ghost gs = subst.deep_view();
    let ghost seen = strlist_view(visited@);
    if contains_bytes(visited, &cur) {
        return Err(ConfigError::ParentCycle(cur));
    }
    if fuel == 0 {
        return Err(ConfigError::ParentCycle(cur));
    }
    let bytes = match crate::util::assoc_lookup(files, &cur) {
        Some(b) => b,
        None => {
            return Err(ConfigError::MissingDescriptor(cur));
        },
    };
    let info = match parse_installation_info(bytes, subst) {
        Ok(info) => info,
        Err(e) => {
            return Err(e);
        },
    };
    proof {
        assert(spec_info_at(gf, cur@, gs) == Ok::<InfoModel, ConfigErrorModel>(info@));
    }
    match &info.parent {
        None => {
            let inst = Installation { parent: None, info };
            proof {
                assert(inst.info@.parent is None);
                assert(tree_matches(inst, cur@, gf, gs));
            }
            Ok(inst)
        },
        Some(p) => {
            let pid = clone_bytes(p);
            let ghost curv = cur@;
            visited.push(cur);
            proof {
                assert(strlist_view(visited@) =~= seen.push(curv));
            }
            match resolve_chain(files, subst, pid, visited, fuel - 1) {
                Ok(parent_inst) => {
                    let inst = Installation { parent: Some(Box::new(parent_inst)), info };
                    proof {
                        assert(inst.info@.parent == Some(pid@));
                        assert(tree_matches(inst, curv, gf, gs));
                    }
                    Ok(inst)
                },
                Err(e) => Err(e),
            }
        },
    }
}

/// Resolves the descriptor chain that starts at `id`. `files` maps a
/// descriptor id to the bytes of its `info.json`; `subst` is the
/// template substitution applied to argument lists. The walk fails on a
/// missing or malformed descriptor and detects a cycle in the parent
/// chain instead of following it forever.
pub fn parse_installation(
    id: &Vec<u8>,
    files: &Vec<(Vec<u8>, Vec<u8>)>,
    subst: &Vec<(Vec<u8>, Vec<u8>)>,
) -> (r: Result<Installation, ConfigError>)
    requires
        files@.len() < usize::MAX,
    ensures
        match r {
            Ok(inst) => spec_resolve(
                files.deep_view(),
                subst.deep_view(),
                id@,
                Seq::empty(),
                (files@.len() + 1) as nat,
            ) is Ok && tree_matches(inst, id@, files.deep_view(), subst.deep_view()),
            Err(e) => spec_resolve(
                files.deep_view(),
                subst.deep_view(),
                id@,
                Seq::empty(),
                (files@.len() + 1) as nat,
            ) == Err::<(), ConfigErrorModel>(e@),
        },
{
    let mut visited: Vec<Vec<u8>> = Vec::new();
    proof {
        assert(strlist_view(visited@) =~= Seq::<Seq<u8>>::empty());
    }
    resolve_chain(files, subst, clone_bytes(id), &mut visited, files.len() + 1)
}

// ---------------------------------------------------------------------
// Laws of the inheritance accessors
// ---------------------------------------------------------------------

/// Some entry of this node's own classpath applies on `os` and carries
/// `file`, or an ancestor's does.
pub open spec fn chain_has_kept_entry(inst: Installation, os: Seq<u8>, file: Seq<u8>) -> bool
    decreases inst,
{
    (exists|k: int|
        0 <= k < cp_view(inst.info.classpath@).len() && keep_entry(
            #[trigger] cp_view(inst.info.classpath@)[k],
            os,
        ) && cp_view(inst.info.classpath@)[k].file == file) || match inst.parent {
        Some(p) => chain_has_kept_entry(*p, os, file),
        None => false,
    }
}

proof fn lemma_own_classpath_sources(cp: Seq<ClasspathEntryModel>, os: Seq<u8>, file: Seq<u8>)
    requires
        spec_own_classpath(cp, os).contains(file),
    ensures
        exists|k: int| 0 <= k < cp.len() && keep_entry(#[trigger] cp[k], os) && cp[k].file == file,
    decreases cp.len(),
{
    if cp.len() > 0 {
        let rest = spec_own_classpath(cp.drop_first(), os);
        if keep_entry(cp[0], os) && cp[0].file == file {
            assert(keep_entry(cp[0], os) && cp[0].file == file);
        } else {
            let full = spec_own_classpath(cp, os);
            if keep_entry(cp[0], os) {
                let i = choose|i: int| 0 <= i < full.len() && full[i] == file;
                assert(full == seq![cp[0].file] + rest);
                assert(i > 0);
                assert(rest[i - 1] == file);
                assert(rest.contains(file));
            }
            lemma_own_classpath_sources(cp.drop_first(), os, file);
            let k = choose|k: int|
                0 <= k < cp.drop_first().len() && keep_entry(#[trigger] cp.drop_first()[k], os)
                    && cp.drop_first()[k].file == file;
            assert(cp[k + 1] == cp.drop_first()[k]);
        }
    }
}

/// The platform filter: every file of the effective classpath comes
/// from an entry, somewhere in the chain, that applies on the host
/// platform. In particular an entry whose platform list excludes the
/// host never contributes its file.
pub proof fn lemma_os_filter(inst: Installation, os: Seq<u8>, file: Seq<u8>)
    requires
        inst.spec_effective_classpath(os).contains(file),
    ensures
        chain_has_kept_entry(inst, os, file),
    decreases inst,
{
    let own = spec_own_classpath(cp_view(inst.info.classpath@), os);
    let full = inst.spec_effective_classpath(os);
    if own.contains(file) {
        lemma_own_classpath_sources(cp_view(inst.info.classpath@), os, file);
    } else {
        match inst.parent {
            Some(p) => {
                let rest = p.spec_effective_classpath(os);
                let i = choose|i: int| 0 <= i < full.len() && full[i] == file;
                if i < own.len() {
                    assert(own[i] == file);
                    assert(own.contains(file));
                    assert(false);
                }
                assert(rest[i - own.len()] == file);
                assert(rest.contains(file));
                lemma_os_filter(*p, os, file);
            },
            None => {
                let i = choose|i: int| 0 <= i < full.len() && full[i] == file;
                assert(own[i] == file);
                assert(own.contains(file));
            },
        }
    }
}

/// The inheritance order of the classpath: in a chain of three
/// descriptors whose own classpaths are the unfiltered single entries
/// `fc`, `fb`, `fa` (leaf to root), the effective classpath of the leaf
/// is exactly `[fc, fb, fa]`.
pub proof fn lemma_inheritance_order(c: Installation, os: Seq<u8>, fa: Seq<u8>, fb: Seq<u8>, fc: Seq<u8>)
    requires
        cp_view(c.info.classpath@) == seq![ClasspathEntryModel { file: fc, platforms: None }],
        c.parent is Some,
        cp_view((*c.parent->Some_0).info.classpath@) == seq![
            ClasspathEntryModel { file: fb, platforms: None },
        ],
        (*c.parent->Some_0).parent is Some,
        cp_view((*(*c.parent->Some_0).parent->Some_0).info.classpath@) == seq![
            ClasspathEntryModel { file: fa, platforms: None },
        ],
        (*(*c.parent->Some_0).parent->Some_0).parent is None,
    ensures
        c.spec_effective_classpath(os) == seq![fc, fb, fa],
{
    let b = *c.parent->Some_0;
    let a = *b.parent->Some_0;
    lemma_single_entry(fa, os);
    lemma_single_entry(fb, os);
    lemma_single_entry(fc, os);
    assert(a.spec_effective_classpath(os) =~= seq![fa]);
    assert(b.spec_effective_classpath(os) =~= seq![fb, fa]);
    assert(c.spec_effective_classpath(os) =~= seq![fc, fb, fa]);
}

proof fn lemma_single_entry(f: Seq<u8>, os: Seq<u8>)
    ensures
        spec_own_classpath(seq![ClasspathEntryModel { file: f, platforms: None }], os) == seq![f],
{
    let cp = seq![ClasspathEntryModel { file: f, platforms: None }];
    assert(cp.drop_first() =~= Seq::<ClasspathEntryModel>::empty());
    assert(spec_own_classpath(cp.drop_first(), os) =~= Seq::<Seq<u8>>::empty());
    assert(spec_own_classpath(cp, os) =~= seq![f]);
}

impl Installation {
    /// `(id, policy path)` pairs for every policy in the chain,
    /// ancestors first, each path relative to its own descriptor's
    /// folder.
    pub open spec fn spec_effective_policy_files(&self) -> Seq<(Seq<u8>, Seq<u8>)>
        decreases self,
    {
        (match self.parent {
            Some(p) => p.spec_effective_policy_files(),
            None => Seq::empty(),
        }) + Seq::new(
            self.info.policies@.len(),
            |k: int| (self.info.id@, self.info.policies@[k]@),
        )
    }

    /// The policy files of the chain, ancestors first, as `(id, path)`
    /// pairs the caller can read from each descriptor's folder.
    pub fn get_policy_files(&self) -> (r: Vec<(Vec<u8>, Vec<u8>)>)
        ensures
            pairs_view(r@) == self.spec_effective_policy_files(),
        decreases self,
    {
        let mut out: Vec<(Vec<u8>, Vec<u8>)> = match &self.parent {
            Some(p) => p.get_policy_files(),
            None => Vec::new(),
        };
        proof {
            if self.parent is None {
                assert(pairs_view(out@) =~= Seq::<(Seq<u8>, Seq<u8>)>::empty());
            }
        }
        let ghost before = pairs_view(out@);
        let ghost beforelen = out@.len() as int;
        let mut i: usize = 0;
        while i < self.info.policies.len()
            invariant
                i <= self.info.policies@.len(),
                out@.len() == beforelen + i,
                beforelen == before.len(),
                forall|k: int|
                    0 <= k < beforelen ==> (#[trigger] out@[k]).0@ == before[k].0 && out@[k].1@
                        == before[k].1,
                forall|k: int|
                    0 <= k < i ==> (#[trigger] out@[beforelen + k]).0@ == self.info.id@ && out@[
                        beforelen + k
                    ].1@ == self.info.policies@[k]@,
            decreases self.info.policies@.len() - i,
        {
            out.push((clone_bytes(&self.info.id), clone_bytes(&self.info.policies[i])));
            i += 1;
        }
        proof {
            assert forall|q: int|
                0 <= q < out@.len() implies pairs_view(out@)[q]
                == self.spec_effective_policy_files()[q] by {
                if q >= beforelen {
                    assert(out@[beforelen + (q - beforelen)].0@ == self.info.id@);
                    assert(out@[beforelen + (q - beforelen)].1@ == self.info.policies@[q
                        - beforelen]@);
                }
            }
            assert(pairs_view(out@) =~= self.spec_effective_policy_files());
        }
        out
    }
}

// ---------------------------------------------------------------------
// The resolved chain has no cycle
// ---------------------------------------------------------------------

/// The parent named by the descriptor stored under `id`, if it parses.
pub open spec fn spec_parent_of(
    files: Seq<(Seq<u8>, Seq<u8>)>,
    subst: Seq<(Seq<u8>, Seq<u8>)>,
    id: Seq<u8>,
) -> Option<Seq<u8>> {
    match spec_info_at(files, id, subst) {
        Ok(info) => info.parent,
        Err(_) => None,
    }
}

/// The id reached after `n` parent steps from `id`, if every step is
/// defined.
pub open spec fn spec_walk(
    files: Seq<(Seq<u8>, Seq<u8>)>,
    subst: Seq<(Seq<u8>, Seq<u8>)>,
    id: Seq<u8>,
    n: nat,
) -> Option<Seq<u8>>
    decreases n,
{
    if n == 0 {
        Some(id)
    } else {
        match spec_walk(files, subst, id, (n - 1) as nat) {
            Some(prev) => spec_parent_of(files, subst, prev),
            None => None,
        }
    }
}

proof fn lemma_walk_shift(
    files: Seq<(Seq<u8>, Seq<u8>)>,
    subst: Seq<(Seq<u8>, Seq<u8>)>,
    id: Seq<u8>,
    pid: Seq<u8>,
    n: nat,
)
    requires
        n >= 1,
        spec_parent_of(files, subst, id) == Some(pid),
    ensures
        spec_walk(files, subst, id, n) == spec_walk(files, subst, pid, (n - 1) as nat),
    decreases n,
{
    if n == 1 {
        assert(spec_walk(files, subst, id, 0) == Some(id));
    } else {
        lemma_walk_shift(files, subst, id, pid, (n - 1) as nat);
    }
}

proof fn lemma_walk_none_after(
    files: Seq<(Seq<u8>, Seq<u8>)>,
    subst: Seq<(Seq<u8>, Seq<u8>)>,
    id: Seq<u8>,
    n: nat,
)
    requires
        n >= 1,
        spec_walk(files, subst, id, 1) is None,
    ensures
        spec_walk(files, subst, id, n) is None,
    decreases n,
{
    if n > 1 {
        lemma_walk_none_after(files, subst, id, (n - 1) as nat);
    }
}

/// Along a chain the resolver accepts, every reachable id is fresh: it
/// is outside the visited set and differs from every id reached
/// earlier on the walk.
proof fn lemma_resolve_walk_fresh(
    files: Seq<(Seq<u8>, Seq<u8>)>,
    subst: Seq<(Seq<u8>, Seq<u8>)>,
    id: Seq<u8>,
    seen: Seq<Seq<u8>>,
    fuel: nat,
    n: nat,
)
    requires
        spec_resolve(files, subst, id, seen, fuel) is Ok,
        spec_walk(files, subst, id, n) is Some,
    ensures
        !seen.contains(spec_walk(files, subst, id, n).unwrap()),
        forall|m: nat|
            m < n ==> #[trigger] spec_walk(files, subst, id, m) != spec_walk(
                files,
                subst,
                id,
                n,
            ),
    decreases fuel,
{
    assert(!seen.contains(id));
    assert(fuel > 0);
    let info = spec_info_at(files, id, subst)->Ok_0;
    match info.parent {
        None => {
            assert(spec_parent_of(files, subst, id) is None);
            if n >= 1 {
                assert(spec_walk(files, subst, id, 1) is None);
                lemma_walk_none_after(files, subst, id, n);
                assert(false);
            }
        },
        Some(pid) => {
            if n == 0 {
            } else {
                lemma_walk_shift(files, subst, id, pid, n);
                lemma_resolve_walk_fresh(files, subst, pid, seen.push(id), (fuel - 1) as nat, (
                n - 1) as nat);
                let x = spec_walk(files, subst, pid, (n - 1) as nat).unwrap();
                assert(!seen.push(id).contains(x));
                assert(forall|j: int|
                    0 <= j < seen.len() ==> seen.push(id)[j] == #[trigger] seen[j]);
                assert(seen.push(id)[seen.len() as int] == id);
                assert(!seen.contains(x)) by {
                    if seen.contains(x) {
                        let j = choose|j: int| 0 <= j < seen.len() && seen[j] == x;
                        assert(seen.push(id)[j] == x);
                    }
                }
                assert(x != id);
                assert forall|m: nat|
                    m < n implies #[trigger] spec_walk(files, subst, id, m) != spec_walk(
                    files,
                    subst,
                    id,
                    n,
                ) by {
                    if m == 0 {
                        assert(spec_walk(files, subst, id, 0) == Some(id));
                    } else {
                        lemma_walk_shift(files, subst, id, pid, m);
                        assert(spec_walk(files, subst, pid, (m - 1) as nat) != spec_walk(
                            files,
                            subst,
                            pid,
                            (n - 1) as nat,
                        ));
                    }
                }
            }
        },
    }
}

/// Cycle detection, stated over the resolver: when the resolver
/// accepts a chain, the walk it follows never reaches the same id
/// twice. So for an input whose parent chain revisits a descriptor no
/// resolution is accepted, and by `parse_installation`'s contract the
/// call returns a `ConfigError` after finitely many steps.
pub proof fn lemma_resolve_excludes_cycles(
    files: Seq<(Seq<u8>, Seq<u8>)>,
    subst: Seq<(Seq<u8>, Seq<u8>)>,
    id: Seq<u8>,
    fuel: nat,
    n1: nat,
    n2: nat,
)
    requires
        spec_resolve(files, subst, id, Seq::empty(), fuel) is Ok,
        n1 < n2,
        spec_walk(files, subst, id, n2) is Some,
    ensures
        spec_walk(files, subst, id, n1) != spec_walk(files, subst, id, n2),
{
    lemma_resolve_walk_fresh(files, subst, id, Seq::empty(), fuel, n2);
    assert(spec_walk(files, subst, id, n1) != spec_walk(files, subst, id, n2));
}

} // verus!
