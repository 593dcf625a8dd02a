//! Planning the fetch of an installation from the remote asset
//! repository: the URLs to request, where each fetched file lands on
//! disk, and the parent id read out of a downloaded descriptor. The
//! surrounding binary performs the transfers.

use vstd::prelude::*;
use crate::json::JsonValue;
use crate::json::JVal;
use crate::json::sp_document;
use crate::json::parse_document;
use crate::json::member_views;
use crate::install::jlookup;
use crate::install::jlookup_exec;
use crate::install::parent_key;
use crate::install::key_parent;
use crate::pool::DownloadTask;
use crate::util::push_bytes;
use crate::util::clone_bytes;
use crate::util::spec_split;
use crate::util::split_bytes;
use crate::error::ConfigError;

verus! {

/// The text `https://raw.githubusercontent.com/proton-launcher/asset/main/installation/`.
pub open spec fn lit_asset_base() -> Seq<u8> {
    seq![0x68u8, 0x74u8, 0x74u8, 0x70u8, 0x73u8, 0x3au8, 0x2fu8, 0x2fu8, 0x72u8, 0x61u8, 0x77u8, 0x2eu8, 0x67u8, 0x69u8, 0x74u8, 0x68u8, 0x75u8, 0x62u8, 0x75u8, 0x73u8, 0x65u8, 0x72u8, 0x63u8, 0x6fu8, 0x6eu8, 0x74u8, 0x65u8, 0x6eu8, 0x74u8, 0x2eu8, 0x63u8, 0x6fu8, 0x6du8, 0x2fu8, 0x70u8, 0x72u8, 0x6fu8, 0x74u8, 0x6fu8, 0x6eu8, 0x2du8, 0x6cu8, 0x61u8, 0x75u8, 0x6eu8, 0x63u8, 0x68u8, 0x65u8, 0x72u8, 0x2fu8, 0x61u8, 0x73u8, 0x73u8, 0x65u8, 0x74u8, 0x2fu8, 0x6du8, 0x61u8, 0x69u8, 0x6eu8, 0x2fu8, 0x69u8, 0x6eu8, 0x73u8, 0x74u8, 0x61u8, 0x6cu8, 0x6cu8, 0x61u8, 0x74u8, 0x69u8, 0x6fu8, 0x6eu8, 0x2fu8]
}

/// The same text as a byte vector.
pub fn asset_base_bytes() -> (r: Vec<u8>)
    ensures
        r@ == lit_asset_base(),
{
    let r: Vec<u8> = vec![0x68, 0x74, 0x74, 0x70, 0x73, 0x3a, 0x2f, 0x2f, 0x72, 0x61, 0x77, 0x2e, 0x67, 0x69, 0x74, 0x68, 0x75, 0x62, 0x75, 0x73, 0x65, 0x72, 0x63, 0x6f, 0x6e, 0x74, 0x65, 0x6e, 0x74, 0x2e, 0x63, 0x6f, 0x6d, 0x2f, 0x70, 0x72, 0x6f, 0x74, 0x6f, 0x6e, 0x2d, 0x6c, 0x61, 0x75, 0x6e, 0x63, 0x68, 0x65, 0x72, 0x2f, 0x61, 0x73, 0x73, 0x65, 0x74, 0x2f, 0x6d, 0x61, 0x69, 0x6e, 0x2f, 0x69, 0x6e, 0x73, 0x74, 0x61, 0x6c, 0x6c, 0x61, 0x74, 0x69, 0x6f, 0x6e, 0x2f];
    proof {
        assert(r@ =~= lit_asset_base());
    }
    r
}

/// The text `/files`.
pub open spec fn lit_files_suffix() -> Seq<u8> {
    seq![0x2fu8, 0x66u8, 0x69u8, 0x6cu8, 0x65u8, 0x73u8]
}

/// The same text as a byte vector.
pub fn files_suffix_bytes() -> (r: Vec<u8>)
    ensures
        r@ == lit_files_suffix(),
{
    let r: Vec<u8> = vec![0x2f, 0x66, 0x69, 0x6c, 0x65, 0x73];
    proof {
        assert(r@ =~= lit_files_suffix());
    }
    r
}

/// The text `/`.
pub open spec fn lit_slash() -> Seq<u8> {
    seq![0x2fu8]
}

/// The same text as a byte vector.
pub fn slash_bytes() -> (r: Vec<u8>)
    ensures
        r@ == lit_slash(),
{
    let r: Vec<u8> = vec![0x2f];
    proof {
        assert(r@ =~= lit_slash());
    }
    r
}

/// The text `installation/files/`.
pub open spec fn lit_files_dir_prefix() -> Seq<u8> {
    seq![0x69u8, 0x6eu8, 0x73u8, 0x74u8, 0x61u8, 0x6cu8, 0x6cu8, 0x61u8, 0x74u8, 0x69u8, 0x6fu8, 0x6eu8, 0x2fu8, 0x66u8, 0x69u8, 0x6cu8, 0x65u8, 0x73u8, 0x2fu8]
}

/// The same text as a byte vector.
pub fn files_dir_prefix_bytes() -> (r: Vec<u8>)
    ensures
        r@ == lit_files_dir_prefix(),
{
    let r: Vec<u8> = vec![0x69, 0x6e, 0x73, 0x74, 0x61, 0x6c, 0x6c, 0x61, 0x74, 0x69, 0x6f, 0x6e, 0x2f, 0x66, 0x69, 0x6c, 0x65, 0x73, 0x2f];
    proof {
        assert(r@ =~= lit_files_dir_prefix());
    }
    r
}

/// The repository directory of one descriptor.
pub open spec fn spec_asset_base_url(id: Seq<u8>) -> Seq<u8> {
    lit_asset_base() + id
}

/// The URL of a descriptor's file manifest.
pub open spec fn spec_files_manifest_url(id: Seq<u8>) -> Seq<u8> {
    lit_asset_base() + id + lit_files_suffix()
}

/// The URL of one listed file.
pub open spec fn spec_file_url(id: Seq<u8>, rel: Seq<u8>) -> Seq<u8> {
    lit_asset_base() + id + lit_slash() + rel
}

/// Where a descriptor's files live on disk.
pub open spec fn spec_files_dir(id: Seq<u8>) -> Seq<u8> {
    lit_files_dir_prefix() + id
}

/// Where one listed file lands on disk.
pub open spec fn spec_file_destination(id: Seq<u8>, rel: Seq<u8>) -> Seq<u8> {
    lit_files_dir_prefix() + id + lit_slash() + rel
}

/// Builds the manifest URL of a descriptor.
pub fn files_manifest_url(id: &Vec<u8>) -> (r: Vec<u8>)
    ensures
        r@ == spec_files_manifest_url(id@),
{
    let mut out = asset_base_bytes();
    push_bytes(&mut out, id);
    let suffix = files_suffix_bytes();
    push_bytes(&mut out, &suffix);
    proof {
        assert(out@ =~= spec_files_manifest_url(id@));
    }
    out
}

/// Builds the on-disk directory of a descriptor.
pub fn files_dir(id: &Vec<u8>) -> (r: Vec<u8>)
    ensures
        r@ == spec_files_dir(id@),
{
    let mut out = files_dir_prefix_bytes();
    push_bytes(&mut out, id);
    proof {
        assert(out@ =~= spec_files_dir(id@));
    }
    out
}

/// The non-empty lines of a manifest: each is one relative path.
pub open spec fn spec_manifest_entries(text: Seq<u8>) -> Seq<Seq<u8>>
    decreases text.len(),
{
    spec_nonempty(spec_split(text, 0x0a))
}

/// The non-empty segments, in order.
pub open spec fn spec_nonempty(ls: Seq<Seq<u8>>) -> Seq<Seq<u8>>
    decreases ls.len(),
{
    if ls.len() == 0 {
        Seq::empty()
    } else {
        let rest = spec_nonempty(ls.drop_first());
        if ls[0].len() > 0 {
            seq![ls[0]] + rest
        } else {
            rest
        }
    }
}

/// The downloads needed for one descriptor, given its manifest text:
/// one task per non-empty line, fetching the repository file into the
/// descriptor's directory.
pub open spec fn spec_fetch_plan(id: Seq<u8>, entries: Seq<Seq<u8>>) -> Seq<(Seq<u8>, Seq<u8>)> {
    Seq::new(
        entries.len(),
        |k: int| (spec_file_url(id, entries[k]), spec_file_destination(id, entries[k])),
    )
}

/// Splits a manifest into its non-empty lines.
pub fn manifest_entries(text: &Vec<u8>) -> (r: Vec<Vec<u8>>)
    ensures
        r@.len() == spec_manifest_entries(text@).len(),
        forall|k: int|
            0 <= k < r@.len() ==> (#[trigger] r@[k])@ == spec_manifest_entries(text@)[k],
{
    let lines = split_bytes(text, 0x0a);
    let ghost lv = spec_split(text@, 0x0a);
    let mut out: Vec<Vec<u8>> = Vec::new();
    let mut i: usize = 0;
    proof {
        assert(lv.skip(0) =~= lv);
        assert(spec_nonempty(lv.skip(0)) =~= spec_nonempty(lv));
    }
    while i < lines.len()
        invariant
            i <= lines@.len(),
            lv == spec_split(text@, 0x0a),
            lines@.len() == lv.len(),
            forall|k: int| 0 <= k < lv.len() ==> (#[trigger] lines@[k])@ == lv[k],
            spec_nonempty(lv) == strs_of(out@) + spec_nonempty(lv.skip(i as int)),
        decreases lines@.len() - i,
    {
        proof {
            assert(lv.skip(i as int)[0] == lv[i as int]);
            assert(lv.skip(i as int).drop_first() =~= lv.skip(i + 1));
        }
        if lines[i].len() > 0 {
            let ghost oldout = strs_of(out@);
            out.push(clone_bytes(&lines[i]));
            proof {
                assert(strs_of(out@) =~= oldout.push(lv[i as int]));
                assert forall|r: Seq<Seq<u8>>| true implies (oldout + (seq![lv[i as int]] + r))
                    =~= (oldout.push(lv[i as int]) + r) by {}
            }
        }
        i += 1;
    }
    proof {
        assert(spec_nonempty(lv.skip(i as int)) =~= Seq::<Seq<u8>>::empty());
        assert(strs_of(out@) + Seq::<Seq<u8>>::empty() =~= strs_of(out@));
        assert forall|k: int|
            0 <= k < out@.len() implies (#[trigger] out@[k])@ == spec_manifest_entries(text@)[k]
        by {
            assert(strs_of(out@)[k] == out@[k]@);
        }
    }
    out
}

/// Views of a list of byte vectors.
pub open spec fn strs_of(a: Seq<Vec<u8>>) -> Seq<Seq<u8>> {
    Seq::new(a.len(), |k: int| a[k]@)
}

/// Builds one download task per manifest entry.
pub fn fetch_plan(id: &Vec<u8>, entries: &Vec<Vec<u8>>) -> (r: Vec<DownloadTask>)
    ensures
        r@.len() == entries@.len(),
        forall|k: int|
            0 <= k < r@.len() ==> (#[trigger] r@[k])@ == (
                spec_file_url(id@, entries@[k]@),
                spec_file_destination(id@, entries@[k]@),
            ),
{
    let mut out: Vec<DownloadTask> = Vec::new();
    let mut i: usize = 0;
    while i < entries.len()
        invariant
            i <= entries@.len(),
            out@.len() == i,
            forall|k: int|
                0 <= k < i ==> (#[trigger] out@[k])@ == (
                    spec_file_url(id@, entries@[k]@),
                    spec_file_destination(id@, entries@[k]@),
                ),
        decreases entries@.len() - i,
    {
        let mut url = asset_base_bytes();
        push_bytes(&mut url, id);
        let sl = slash_bytes();
        push_bytes(&mut url, &sl);
        push_bytes(&mut url, &entries[i]);
        let mut dest = files_dir_prefix_bytes();
        push_bytes(&mut dest, id);
        push_bytes(&mut dest, &sl);
        push_bytes(&mut dest, &entries[i]);
        proof {
            assert(url@ =~= spec_file_url(id@, entries@[i as int]@));
            assert(dest@ =~= spec_file_destination(id@, entries@[i as int]@));
        }
        out.push(DownloadTask { url, destination: dest });
        i += 1;
    }
    out
}

/// The parent id named by a downloaded descriptor, if any: the `parent`
/// field when it is a string.
pub open spec fn spec_parent_of_info(s: Seq<u8>) -> Result<Option<Seq<u8>>, ()> {
    match sp_document(s) {
        Some(JVal::Obj(ms)) => match jlookup(ms, key_parent()) {
            Some(JVal::Str(p)) => Ok(Some(p)),
            _ => Ok(None),
        },
        _ => Err(()),
    }
}

/// Reads the parent id out of a downloaded `info.json`, so that the
/// fetch can recurse into it.
pub fn parent_of_info(s: &Vec<u8>) -> (r: Result<Option<Vec<u8>>, ConfigError>)
    ensures
        match r {
            Ok(p) => match p {
                Some(pid) => spec_parent_of_info(s@) == Ok::<Option<Seq<u8>>, ()>(
                    Some(pid@),
                ),
                None => spec_parent_of_info(s@) == Ok::<Option<Seq<u8>>, ()>(
                    None::<Seq<u8>>,
                ),
            },
            Err(e) => spec_parent_of_info(s@) is Err && e == ConfigError::InvalidJson,
        },
{
    match parse_document(s) {
        Some(JsonValue::Obj(ms)) => {
            proof {
                assert(JsonValue::Obj(ms)@->Obj_0 =~= member_views(ms@));
            }
            let pk = parent_key();
            match jlookup_exec(&ms, &pk) {
                Some(JsonValue::Str(p)) => Ok(Some(clone_bytes(p))),
                _ => Ok(None),
            }
        },
        Some(other) => {
            proof {
                assert(!(other@ is Obj));
            }
            Err(ConfigError::InvalidJson)
        },
        None => Err(ConfigError::InvalidJson),
    }
}

} // verus!
