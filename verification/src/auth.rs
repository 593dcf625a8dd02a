//! The authentication pipeline: request construction and response
//! interpretation for the OAuth token exchange, Xbox Live, XSTS, the
//! game service login, and the profile fetch, plus the persisted
//! account profile and its JSON form.
//!
//! The surrounding binary performs the HTTP calls; everything that
//! decides what to send and what a response means is here.

use vstd::prelude::*;
use crate::json::JsonValue;
use crate::json::JVal;
use crate::json::sp_document;
use crate::json::parse_document;
use crate::json::member_views;
use crate::json::views_of;
use crate::json::spec_emit_string;
use crate::json::emit_string;
use crate::json::lemma_string_value;
use crate::json::lemma_string_round_trip;
use crate::json::lemma_member_cons;
use crate::json::lemma_member_last;
use crate::json::sp_members;
use crate::json::sp_value;
use crate::json::ws_len;
use crate::error::ProtocolError;
use crate::util::clone_bytes;
use crate::util::push_bytes;
use crate::install::jlookup;
use crate::install::jlookup_exec;

verus! {

/// The authenticated account: game access token, OAuth refresh token,
/// and the profile identity.
#[derive(Debug, PartialEq)]
pub struct Profile {
    pub token: Vec<u8>,
    pub refresh: Vec<u8>,
    pub uuid: Vec<u8>,
    pub username: Vec<u8>,
}

/// The mathematical counterpart of [`Profile`].
pub struct ProfileModel {
    pub token: Seq<u8>,
    pub refresh: Seq<u8>,
    pub uuid: Seq<u8>,
    pub username: Seq<u8>,
}

impl Profile {
    pub open spec fn view(&self) -> ProfileModel {
        ProfileModel {
            token: self.token@,
            refresh: self.refresh@,
            uuid: self.uuid@,
            username: self.username@,
        }
    }
}

/// The mathematical counterpart of [`ProtocolError`].
pub enum ProtocolErrorModel {
    InvalidJson(Seq<u8>),
    MissingField(Seq<u8>),
    NoXboxAccount,
    ChildAccount,
    XstsError(u64),
}

impl ProtocolError {
    pub open spec fn view(&self) -> ProtocolErrorModel {
        match self {
            ProtocolError::InvalidJson(s) => ProtocolErrorModel::InvalidJson(s@),
            ProtocolError::MissingField(s) => ProtocolErrorModel::MissingField(s@),
            ProtocolError::NoXboxAccount => ProtocolErrorModel::NoXboxAccount,
            ProtocolError::ChildAccount => ProtocolErrorModel::ChildAccount,
            ProtocolError::XstsError(n) => ProtocolErrorModel::XstsError(*n),
        }
    }
}

/// The text `https://login.live.com/oauth20_authorize.srf?client_id=00000000402b5328&redirect_uri=https://login.live.com/oauth20_desktop.srf&response_type=code&scope=XboxLive.signin%20offline_access&state=test`.
pub open spec fn lit_authorize_url() -> Seq<u8> {
    seq![0x68u8, 0x74u8, 0x74u8, 0x70u8, 0x73u8, 0x3au8, 0x2fu8, 0x2fu8, 0x6cu8, 0x6fu8, 0x67u8, 0x69u8, 0x6eu8, 0x2eu8, 0x6cu8, 0x69u8, 0x76u8, 0x65u8, 0x2eu8, 0x63u8, 0x6fu8, 0x6du8, 0x2fu8, 0x6fu8, 0x61u8, 0x75u8, 0x74u8, 0x68u8, 0x32u8, 0x30u8, 0x5fu8, 0x61u8, 0x75u8, 0x74u8, 0x68u8, 0x6fu8, 0x72u8, 0x69u8, 0x7au8, 0x65u8, 0x2eu8, 0x73u8, 0x72u8, 0x66u8, 0x3fu8, 0x63u8, 0x6cu8, 0x69u8, 0x65u8, 0x6eu8, 0x74u8, 0x5fu8, 0x69u8, 0x64u8, 0x3du8, 0x30u8, 0x30u8, 0x30u8, 0x30u8, 0x30u8, 0x30u8, 0x30u8, 0x30u8, 0x34u8, 0x30u8, 0x32u8, 0x62u8, 0x35u8, 0x33u8, 0x32u8, 0x38u8, 0x26u8, 0x72u8, 0x65u8, 0x64u8, 0x69u8, 0x72u8, 0x65u8, 0x63u8, 0x74u8, 0x5fu8, 0x75u8, 0x72u8, 0x69u8, 0x3du8, 0x68u8, 0x74u8, 0x74u8, 0x70u8, 0x73u8, 0x3au8, 0x2fu8, 0x2fu8, 0x6cu8, 0x6fu8, 0x67u8, 0x69u8, 0x6eu8, 0x2eu8, 0x6cu8, 0x69u8, 0x76u8, 0x65u8, 0x2eu8, 0x63u8, 0x6fu8, 0x6du8, 0x2fu8, 0x6fu8, 0x61u8, 0x75u8, 0x74u8, 0x68u8, 0x32u8, 0x30u8, 0x5fu8, 0x64u8, 0x65u8, 0x73u8, 0x6bu8, 0x74u8, 0x6fu8, 0x70u8, 0x2eu8, 0x73u8, 0x72u8, 0x66u8, 0x26u8, 0x72u8, 0x65u8, 0x73u8, 0x70u8, 0x6fu8, 0x6eu8, 0x73u8, 0x65u8, 0x5fu8, 0x74u8, 0x79u8, 0x70u8, 0x65u8, 0x3du8, 0x63u8, 0x6fu8, 0x64u8, 0x65u8, 0x26u8, 0x73u8, 0x63u8, 0x6fu8, 0x70u8, 0x65u8, 0x3du8, 0x58u8, 0x62u8, 0x6fu8, 0x78u8, 0x4cu8, 0x69u8, 0x76u8, 0x65u8, 0x2eu8, 0x73u8, 0x69u8, 0x67u8, 0x6eu8, 0x69u8, 0x6eu8, 0x25u8, 0x32u8, 0x30u8, 0x6fu8, 0x66u8, 0x66u8, 0x6cu8, 0x69u8, 0x6eu8, 0x65u8, 0x5fu8, 0x61u8, 0x63u8, 0x63u8, 0x65u8, 0x73u8, 0x73u8, 0x26u8, 0x73u8, 0x74u8, 0x61u8, 0x74u8, 0x65u8, 0x3du8, 0x74u8, 0x65u8, 0x73u8, 0x74u8]
}

/// The same text as a byte vector.
pub fn authorize_url_bytes() -> (r: Vec<u8>)
    ensures
        r@ == lit_authorize_url(),
{
    let r: Vec<u8> = vec![0x68, 0x74, 0x74, 0x70, 0x73, 0x3a, 0x2f, 0x2f, 0x6c, 0x6f, 0x67, 0x69, 0x6e, 0x2e, 0x6c, 0x69, 0x76, 0x65, 0x2e, 0x63, 0x6f, 0x6d, 0x2f, 0x6f, 0x61, 0x75, 0x74, 0x68, 0x32, 0x30, 0x5f, 0x61, 0x75, 0x74, 0x68, 0x6f, 0x72, 0x69, 0x7a, 0x65, 0x2e, 0x73, 0x72, 0x66, 0x3f, 0x63, 0x6c, 0x69, 0x65, 0x6e, 0x74, 0x5f, 0x69, 0x64, 0x3d, 0x30, 0x30, 0x30, 0x30, 0x30, 0x30, 0x30, 0x30, 0x34, 0x30, 0x32, 0x62, 0x35, 0x33, 0x32, 0x38, 0x26, 0x72, 0x65, 0x64, 0x69, 0x72, 0x65, 0x63, 0x74, 0x5f, 0x75, 0x72, 0x69, 0x3d, 0x68, 0x74, 0x74, 0x70, 0x73, 0x3a, 0x2f, 0x2f, 0x6c, 0x6f, 0x67, 0x69, 0x6e, 0x2e, 0x6c, 0x69, 0x76, 0x65, 0x2e, 0x63, 0x6f, 0x6d, 0x2f, 0x6f, 0x61, 0x75, 0x74, 0x68, 0x32, 0x30, 0x5f, 0x64, 0x65, 0x73, 0x6b, 0x74, 0x6f, 0x70, 0x2e, 0x73, 0x72, 0x66, 0x26, 0x72, 0x65, 0x73, 0x70, 0x6f, 0x6e, 0x73, 0x65, 0x5f, 0x74, 0x79, 0x70, 0x65, 0x3d, 0x63, 0x6f, 0x64, 0x65, 0x26, 0x73, 0x63, 0x6f, 0x70, 0x65, 0x3d, 0x58, 0x62, 0x6f, 0x78, 0x4c, 0x69, 0x76, 0x65, 0x2e, 0x73, 0x69, 0x67, 0x6e, 0x69, 0x6e, 0x25, 0x32, 0x30, 0x6f, 0x66, 0x66, 0x6c, 0x69, 0x6e, 0x65, 0x5f, 0x61, 0x63, 0x63, 0x65, 0x73, 0x73, 0x26, 0x73, 0x74, 0x61, 0x74, 0x65, 0x3d, 0x74, 0x65, 0x73, 0x74];
    proof {
        assert(r@ =~= lit_authorize_url());
    }
    r
}

/// The text `https://login.live.com/oauth20_token.srf?client_id=00000000402b5328&code=`.
pub open spec fn lit_token_url_code_prefix() -> Seq<u8> {
    seq![0x68u8, 0x74u8, 0x74u8, 0x70u8, 0x73u8, 0x3au8, 0x2fu8, 0x2fu8, 0x6cu8, 0x6fu8, 0x67u8, 0x69u8, 0x6eu8, 0x2eu8, 0x6cu8, 0x69u8, 0x76u8, 0x65u8, 0x2eu8, 0x63u8, 0x6fu8, 0x6du8, 0x2fu8, 0x6fu8, 0x61u8, 0x75u8, 0x74u8, 0x68u8, 0x32u8, 0x30u8, 0x5fu8, 0x74u8, 0x6fu8, 0x6bu8, 0x65u8, 0x6eu8, 0x2eu8, 0x73u8, 0x72u8, 0x66u8, 0x3fu8, 0x63u8, 0x6cu8, 0x69u8, 0x65u8, 0x6eu8, 0x74u8, 0x5fu8, 0x69u8, 0x64u8, 0x3du8, 0x30u8, 0x30u8, 0x30u8, 0x30u8, 0x30u8, 0x30u8, 0x30u8, 0x30u8, 0x34u8, 0x30u8, 0x32u8, 0x62u8, 0x35u8, 0x33u8, 0x32u8, 0x38u8, 0x26u8, 0x63u8, 0x6fu8, 0x64u8, 0x65u8, 0x3du8]
}

/// The same text as a byte vector.
pub fn token_url_code_prefix_bytes() -> (r: Vec<u8>)
    ensures
        r@ == lit_token_url_code_prefix(),
{
    let r: Vec<u8> = vec![0x68, 0x74, 0x74, 0x70, 0x73, 0x3a, 0x2f, 0x2f, 0x6c, 0x6f, 0x67, 0x69, 0x6e, 0x2e, 0x6c, 0x69, 0x76, 0x65, 0x2e, 0x63, 0x6f, 0x6d, 0x2f, 0x6f, 0x61, 0x75, 0x74, 0x68, 0x32, 0x30, 0x5f, 0x74, 0x6f, 0x6b, 0x65, 0x6e, 0x2e, 0x73, 0x72, 0x66, 0x3f, 0x63, 0x6c, 0x69, 0x65, 0x6e, 0x74, 0x5f, 0x69, 0x64, 0x3d, 0x30, 0x30, 0x30, 0x30, 0x30, 0x30, 0x30, 0x30, 0x34, 0x30, 0x32, 0x62, 0x35, 0x33, 0x32, 0x38, 0x26, 0x63, 0x6f, 0x64, 0x65, 0x3d];
    proof {
        assert(r@ =~= lit_token_url_code_prefix());
    }
    r
}

/// The text `&grant_type=authorization_code&redirect_uri=https://login.live.com/oauth20_desktop.srf`.
pub open spec fn lit_token_url_code_suffix() -> Seq<u8> {
    seq![0x26u8, 0x67u8, 0x72u8, 0x61u8, 0x6eu8, 0x74u8, 0x5fu8, 0x74u8, 0x79u8, 0x70u8, 0x65u8, 0x3du8, 0x61u8, 0x75u8, 0x74u8, 0x68u8, 0x6fu8, 0x72u8, 0x69u8, 0x7au8, 0x61u8, 0x74u8, 0x69u8, 0x6fu8, 0x6eu8, 0x5fu8, 0x63u8, 0x6fu8, 0x64u8, 0x65u8, 0x26u8, 0x72u8, 0x65u8, 0x64u8, 0x69u8, 0x72u8, 0x65u8, 0x63u8, 0x74u8, 0x5fu8, 0x75u8, 0x72u8, 0x69u8, 0x3du8, 0x68u8, 0x74u8, 0x74u8, 0x70u8, 0x73u8, 0x3au8, 0x2fu8, 0x2fu8, 0x6cu8, 0x6fu8, 0x67u8, 0x69u8, 0x6eu8, 0x2eu8, 0x6cu8, 0x69u8, 0x76u8, 0x65u8, 0x2eu8, 0x63u8, 0x6fu8, 0x6du8, 0x2fu8, 0x6fu8, 0x61u8, 0x75u8, 0x74u8, 0x68u8, 0x32u8, 0x30u8, 0x5fu8, 0x64u8, 0x65u8, 0x73u8, 0x6bu8, 0x74u8, 0x6fu8, 0x70u8, 0x2eu8, 0x73u8, 0x72u8, 0x66u8]
}

/// The same text as a byte vector.
pub fn token_url_code_suffix_bytes() -> (r: Vec<u8>)
    ensures
        r@ == lit_token_url_code_suffix(),
{
    let r: Vec<u8> = vec![0x26, 0x67, 0x72, 0x61, 0x6e, 0x74, 0x5f, 0x74, 0x79, 0x70, 0x65, 0x3d, 0x61, 0x75, 0x74, 0x68, 0x6f, 0x72, 0x69, 0x7a, 0x61, 0x74, 0x69, 0x6f, 0x6e, 0x5f, 0x63, 0x6f, 0x64, 0x65, 0x26, 0x72, 0x65, 0x64, 0x69, 0x72, 0x65, 0x63, 0x74, 0x5f, 0x75, 0x72, 0x69, 0x3d, 0x68, 0x74, 0x74, 0x70, 0x73, 0x3a, 0x2f, 0x2f, 0x6c, 0x6f, 0x67, 0x69, 0x6e, 0x2e, 0x6c, 0x69, 0x76, 0x65, 0x2e, 0x63, 0x6f, 0x6d, 0x2f, 0x6f, 0x61, 0x75, 0x74, 0x68, 0x32, 0x30, 0x5f, 0x64, 0x65, 0x73, 0x6b, 0x74, 0x6f, 0x70, 0x2e, 0x73, 0x72, 0x66];
    proof {
        assert(r@ =~= lit_token_url_code_suffix());
    }
    r
}

/// The text `https://login.live.com/oauth20_token.srf?client_id=00000000402b5328&refresh_token=`.
pub open spec fn lit_token_url_refresh_prefix() -> Seq<u8> {
    seq![0x68u8, 0x74u8, 0x74u8, 0x70u8, 0x73u8, 0x3au8, 0x2fu8, 0x2fu8, 0x6cu8, 0x6fu8, 0x67u8, 0x69u8, 0x6eu8, 0x2eu8, 0x6cu8, 0x69u8, 0x76u8, 0x65u8, 0x2eu8, 0x63u8, 0x6fu8, 0x6du8, 0x2fu8, 0x6fu8, 0x61u8, 0x75u8, 0x74u8, 0x68u8, 0x32u8, 0x30u8, 0x5fu8, 0x74u8, 0x6fu8, 0x6bu8, 0x65u8, 0x6eu8, 0x2eu8, 0x73u8, 0x72u8, 0x66u8, 0x3fu8, 0x63u8, 0x6cu8, 0x69u8, 0x65u8, 0x6eu8, 0x74u8, 0x5fu8, 0x69u8, 0x64u8, 0x3du8, 0x30u8, 0x30u8, 0x30u8, 0x30u8, 0x30u8, 0x30u8, 0x30u8, 0x30u8, 0x34u8, 0x30u8, 0x32u8, 0x62u8, 0x35u8, 0x33u8, 0x32u8, 0x38u8, 0x26u8, 0x72u8, 0x65u8, 0x66u8, 0x72u8, 0x65u8, 0x73u8, 0x68u8, 0x5fu8, 0x74u8, 0x6fu8, 0x6bu8, 0x65u8, 0x6eu8, 0x3du8]
}

/// The same text as a byte vector.
pub fn token_url_refresh_prefix_bytes() -> (r: Vec<u8>)
    ensures
        r@ == lit_token_url_refresh_prefix(),
{
    let r: Vec<u8> = vec![0x68, 0x74, 0x74, 0x70, 0x73, 0x3a, 0x2f, 0x2f, 0x6c, 0x6f, 0x67, 0x69, 0x6e, 0x2e, 0x6c, 0x69, 0x76, 0x65, 0x2e, 0x63, 0x6f, 0x6d, 0x2f, 0x6f, 0x61, 0x75, 0x74, 0x68, 0x32, 0x30, 0x5f, 0x74, 0x6f, 0x6b, 0x65, 0x6e, 0x2e, 0x73, 0x72, 0x66, 0x3f, 0x63, 0x6c, 0x69, 0x65, 0x6e, 0x74, 0x5f, 0x69, 0x64, 0x3d, 0x30, 0x30, 0x30, 0x30, 0x30, 0x30, 0x30, 0x30, 0x34, 0x30, 0x32, 0x62, 0x35, 0x33, 0x32, 0x38, 0x26, 0x72, 0x65, 0x66, 0x72, 0x65, 0x73, 0x68, 0x5f, 0x74, 0x6f, 0x6b, 0x65, 0x6e, 0x3d];
    proof {
        assert(r@ =~= lit_token_url_refresh_prefix());
    }
    r
}

/// The text `&grant_type=refresh_token&redirect_uri=https://login.live.com/oauth20_desktop.srf`.
pub open spec fn lit_token_url_refresh_suffix() -> Seq<u8> {
    seq![0x26u8, 0x67u8, 0x72u8, 0x61u8, 0x6eu8, 0x74u8, 0x5fu8, 0x74u8, 0x79u8, 0x70u8, 0x65u8, 0x3du8, 0x72u8, 0x65u8, 0x66u8, 0x72u8, 0x65u8, 0x73u8, 0x68u8, 0x5fu8, 0x74u8, 0x6fu8, 0x6bu8, 0x65u8, 0x6eu8, 0x26u8, 0x72u8, 0x65u8, 0x64u8, 0x69u8, 0x72u8, 0x65u8, 0x63u8, 0x74u8, 0x5fu8, 0x75u8, 0x72u8, 0x69u8, 0x3du8, 0x68u8, 0x74u8, 0x74u8, 0x70u8, 0x73u8, 0x3au8, 0x2fu8, 0x2fu8, 0x6cu8, 0x6fu8, 0x67u8, 0x69u8, 0x6eu8, 0x2eu8, 0x6cu8, 0x69u8, 0x76u8, 0x65u8, 0x2eu8, 0x63u8, 0x6fu8, 0x6du8, 0x2fu8, 0x6fu8, 0x61u8, 0x75u8, 0x74u8, 0x68u8, 0x32u8, 0x30u8, 0x5fu8, 0x64u8, 0x65u8, 0x73u8, 0x6bu8, 0x74u8, 0x6fu8, 0x70u8, 0x2eu8, 0x73u8, 0x72u8, 0x66u8]
}

/// The same text as a byte vector.
pub fn token_url_refresh_suffix_bytes() -> (r: Vec<u8>)
    ensures
        r@ == lit_token_url_refresh_suffix(),
{
    let r: Vec<u8> = vec![0x26, 0x67, 0x72, 0x61, 0x6e, 0x74, 0x5f, 0x74, 0x79, 0x70, 0x65, 0x3d, 0x72, 0x65, 0x66, 0x72, 0x65, 0x73, 0x68, 0x5f, 0x74, 0x6f, 0x6b, 0x65, 0x6e, 0x26, 0x72, 0x65, 0x64, 0x69, 0x72, 0x65, 0x63, 0x74, 0x5f, 0x75, 0x72, 0x69, 0x3d, 0x68, 0x74, 0x74, 0x70, 0x73, 0x3a, 0x2f, 0x2f, 0x6c, 0x6f, 0x67, 0x69, 0x6e, 0x2e, 0x6c, 0x69, 0x76, 0x65, 0x2e, 0x63, 0x6f, 0x6d, 0x2f, 0x6f, 0x61, 0x75, 0x74, 0x68, 0x32, 0x30, 0x5f, 0x64, 0x65, 0x73, 0x6b, 0x74, 0x6f, 0x70, 0x2e, 0x73, 0x72, 0x66];
    proof {
        assert(r@ =~= lit_token_url_refresh_suffix());
    }
    r
}

/// The text `https://user.auth.xboxlive.com/user/authenticate`.
pub open spec fn lit_xbl_url() -> Seq<u8> {
    seq![0x68u8, 0x74u8, 0x74u8, 0x70u8, 0x73u8, 0x3au8, 0x2fu8, 0x2fu8, 0x75u8, 0x73u8, 0x65u8, 0x72u8, 0x2eu8, 0x61u8, 0x75u8, 0x74u8, 0x68u8, 0x2eu8, 0x78u8, 0x62u8, 0x6fu8, 0x78u8, 0x6cu8, 0x69u8, 0x76u8, 0x65u8, 0x2eu8, 0x63u8, 0x6fu8, 0x6du8, 0x2fu8, 0x75u8, 0x73u8, 0x65u8, 0x72u8, 0x2fu8, 0x61u8, 0x75u8, 0x74u8, 0x68u8, 0x65u8, 0x6eu8, 0x74u8, 0x69u8, 0x63u8, 0x61u8, 0x74u8, 0x65u8]
}

/// The same text as a byte vector.
pub fn xbl_url_bytes() -> (r: Vec<u8>)
    ensures
        r@ == lit_xbl_url(),
{
    let r: Vec<u8> = vec![0x68, 0x74, 0x74, 0x70, 0x73, 0x3a, 0x2f, 0x2f, 0x75, 0x73, 0x65, 0x72, 0x2e, 0x61, 0x75, 0x74, 0x68, 0x2e, 0x78, 0x62, 0x6f, 0x78, 0x6c, 0x69, 0x76, 0x65, 0x2e, 0x63, 0x6f, 0x6d, 0x2f, 0x75, 0x73, 0x65, 0x72, 0x2f, 0x61, 0x75, 0x74, 0x68, 0x65, 0x6e, 0x74, 0x69, 0x63, 0x61, 0x74, 0x65];
    proof {
        assert(r@ =~= lit_xbl_url());
    }
    r
}

/// The text `{"Properties":{"AuthMethod":"RPS","SiteName":"user.auth.xboxlive.com","RpsTicket":"d=`.
pub open spec fn lit_xbl_body_prefix() -> Seq<u8> {
    seq![0x7bu8, 0x22u8, 0x50u8, 0x72u8, 0x6fu8, 0x70u8, 0x65u8, 0x72u8, 0x74u8, 0x69u8, 0x65u8, 0x73u8, 0x22u8, 0x3au8, 0x7bu8, 0x22u8, 0x41u8, 0x75u8, 0x74u8, 0x68u8, 0x4du8, 0x65u8, 0x74u8, 0x68u8, 0x6fu8, 0x64u8, 0x22u8, 0x3au8, 0x22u8, 0x52u8, 0x50u8, 0x53u8, 0x22u8, 0x2cu8, 0x22u8, 0x53u8, 0x69u8, 0x74u8, 0x65u8, 0x4eu8, 0x61u8, 0x6du8, 0x65u8, 0x22u8, 0x3au8, 0x22u8, 0x75u8, 0x73u8, 0x65u8, 0x72u8, 0x2eu8, 0x61u8, 0x75u8, 0x74u8, 0x68u8, 0x2eu8, 0x78u8, 0x62u8, 0x6fu8, 0x78u8, 0x6cu8, 0x69u8, 0x76u8, 0x65u8, 0x2eu8, 0x63u8, 0x6fu8, 0x6du8, 0x22u8, 0x2cu8, 0x22u8, 0x52u8, 0x70u8, 0x73u8, 0x54u8, 0x69u8, 0x63u8, 0x6bu8, 0x65u8, 0x74u8, 0x22u8, 0x3au8, 0x22u8, 0x64u8, 0x3du8]
}

/// The same text as a byte vector.
pub fn xbl_body_prefix_bytes() -> (r: Vec<u8>)
    ensures
        r@ == lit_xbl_body_prefix(),
{
    let r: Vec<u8> = vec![0x7b, 0x22, 0x50, 0x72, 0x6f, 0x70, 0x65, 0x72, 0x74, 0x69, 0x65, 0x73, 0x22, 0x3a, 0x7b, 0x22, 0x41, 0x75, 0x74, 0x68, 0x4d, 0x65, 0x74, 0x68, 0x6f, 0x64, 0x22, 0x3a, 0x22, 0x52, 0x50, 0x53, 0x22, 0x2c, 0x22, 0x53, 0x69, 0x74, 0x65, 0x4e, 0x61, 0x6d, 0x65, 0x22, 0x3a, 0x22, 0x75, 0x73, 0x65, 0x72, 0x2e, 0x61, 0x75, 0x74, 0x68, 0x2e, 0x78, 0x62, 0x6f, 0x78, 0x6c, 0x69, 0x76, 0x65, 0x2e, 0x63, 0x6f, 0x6d, 0x22, 0x2c, 0x22, 0x52, 0x70, 0x73, 0x54, 0x69, 0x63, 0x6b, 0x65, 0x74, 0x22, 0x3a, 0x22, 0x64, 0x3d];
    proof {
        assert(r@ =~= lit_xbl_body_prefix());
    }
    r
}

/// The text `"},"RelyingParty":"http://auth.xboxlive.com","TokenType":"JWT"}`.
pub open spec fn lit_xbl_body_suffix() -> Seq<u8> {
    seq![0x22u8, 0x7du8, 0x2cu8, 0x22u8, 0x52u8, 0x65u8, 0x6cu8, 0x79u8, 0x69u8, 0x6eu8, 0x67u8, 0x50u8, 0x61u8, 0x72u8, 0x74u8, 0x79u8, 0x22u8, 0x3au8, 0x22u8, 0x68u8, 0x74u8, 0x74u8, 0x70u8, 0x3au8, 0x2fu8, 0x2fu8, 0x61u8, 0x75u8, 0x74u8, 0x68u8, 0x2eu8, 0x78u8, 0x62u8, 0x6fu8, 0x78u8, 0x6cu8, 0x69u8, 0x76u8, 0x65u8, 0x2eu8, 0x63u8, 0x6fu8, 0x6du8, 0x22u8, 0x2cu8, 0x22u8, 0x54u8, 0x6fu8, 0x6bu8, 0x65u8, 0x6eu8, 0x54u8, 0x79u8, 0x70u8, 0x65u8, 0x22u8, 0x3au8, 0x22u8, 0x4au8, 0x57u8, 0x54u8, 0x22u8, 0x7du8]
}

/// The same text as a byte vector.
pub fn xbl_body_suffix_bytes() -> (r: Vec<u8>)
    ensures
        r@ == lit_xbl_body_suffix(),
{
    let r: Vec<u8> = vec![0x22, 0x7d, 0x2c, 0x22, 0x52, 0x65, 0x6c, 0x79, 0x69, 0x6e, 0x67, 0x50, 0x61, 0x72, 0x74, 0x79, 0x22, 0x3a, 0x22, 0x68, 0x74, 0x74, 0x70, 0x3a, 0x2f, 0x2f, 0x61, 0x75, 0x74, 0x68, 0x2e, 0x78, 0x62, 0x6f, 0x78, 0x6c, 0x69, 0x76, 0x65, 0x2e, 0x63, 0x6f, 0x6d, 0x22, 0x2c, 0x22, 0x54, 0x6f, 0x6b, 0x65, 0x6e, 0x54, 0x79, 0x70, 0x65, 0x22, 0x3a, 0x22, 0x4a, 0x57, 0x54, 0x22, 0x7d];
    proof {
        assert(r@ =~= lit_xbl_body_suffix());
    }
    r
}

/// The text `https://xsts.auth.xboxlive.com/xsts/authorize`.
pub open spec fn lit_xsts_url() -> Seq<u8> {
    seq![0x68u8, 0x74u8, 0x74u8, 0x70u8, 0x73u8, 0x3au8, 0x2fu8, 0x2fu8, 0x78u8, 0x73u8, 0x74u8, 0x73u8, 0x2eu8, 0x61u8, 0x75u8, 0x74u8, 0x68u8, 0x2eu8, 0x78u8, 0x62u8, 0x6fu8, 0x78u8, 0x6cu8, 0x69u8, 0x76u8, 0x65u8, 0x2eu8, 0x63u8, 0x6fu8, 0x6du8, 0x2fu8, 0x78u8, 0x73u8, 0x74u8, 0x73u8, 0x2fu8, 0x61u8, 0x75u8, 0x74u8, 0x68u8, 0x6fu8, 0x72u8, 0x69u8, 0x7au8, 0x65u8]
}

/// The same text as a byte vector.
pub fn xsts_url_bytes() -> (r: Vec<u8>)
    ensures
        r@ == lit_xsts_url(),
{
    let r: Vec<u8> = vec![0x68, 0x74, 0x74, 0x70, 0x73, 0x3a, 0x2f, 0x2f, 0x78, 0x73, 0x74, 0x73, 0x2e, 0x61, 0x75, 0x74, 0x68, 0x2e, 0x78, 0x62, 0x6f, 0x78, 0x6c, 0x69, 0x76, 0x65, 0x2e, 0x63, 0x6f, 0x6d, 0x2f, 0x78, 0x73, 0x74, 0x73, 0x2f, 0x61, 0x75, 0x74, 0x68, 0x6f, 0x72, 0x69, 0x7a, 0x65];
    proof {
        assert(r@ =~= lit_xsts_url());
    }
    r
}

/// The text `{"Properties":{"SandboxId":"RETAIL","UserTokens":["`.
pub open spec fn lit_xsts_body_prefix() -> Seq<u8> {
    seq![0x7bu8, 0x22u8, 0x50u8, 0x72u8, 0x6fu8, 0x70u8, 0x65u8, 0x72u8, 0x74u8, 0x69u8, 0x65u8, 0x73u8, 0x22u8, 0x3au8, 0x7bu8, 0x22u8, 0x53u8, 0x61u8, 0x6eu8, 0x64u8, 0x62u8, 0x6fu8, 0x78u8, 0x49u8, 0x64u8, 0x22u8, 0x3au8, 0x22u8, 0x52u8, 0x45u8, 0x54u8, 0x41u8, 0x49u8, 0x4cu8, 0x22u8, 0x2cu8, 0x22u8, 0x55u8, 0x73u8, 0x65u8, 0x72u8, 0x54u8, 0x6fu8, 0x6bu8, 0x65u8, 0x6eu8, 0x73u8, 0x22u8, 0x3au8, 0x5bu8, 0x22u8]
}

/// The same text as a byte vector.
pub fn xsts_body_prefix_bytes() -> (r: Vec<u8>)
    ensures
        r@ == lit_xsts_body_prefix(),
{
    let r: Vec<u8> = vec![0x7b, 0x22, 0x50, 0x72, 0x6f, 0x70, 0x65, 0x72, 0x74, 0x69, 0x65, 0x73, 0x22, 0x3a, 0x7b, 0x22, 0x53, 0x61, 0x6e, 0x64, 0x62, 0x6f, 0x78, 0x49, 0x64, 0x22, 0x3a, 0x22, 0x52, 0x45, 0x54, 0x41, 0x49, 0x4c, 0x22, 0x2c, 0x22, 0x55, 0x73, 0x65, 0x72, 0x54, 0x6f, 0x6b, 0x65, 0x6e, 0x73, 0x22, 0x3a, 0x5b, 0x22];
    proof {
        assert(r@ =~= lit_xsts_body_prefix());
    }
    r
}

/// The text `"]},"RelyingParty":"rp://api.minecraftservices.com/","TokenType":"JWT"}`.
pub open spec fn lit_xsts_body_suffix() -> Seq<u8> {
    seq![0x22u8, 0x5du8, 0x7du8, 0x2cu8, 0x22u8, 0x52u8, 0x65u8, 0x6cu8, 0x79u8, 0x69u8, 0x6eu8, 0x67u8, 0x50u8, 0x61u8, 0x72u8, 0x74u8, 0x79u8, 0x22u8, 0x3au8, 0x22u8, 0x72u8, 0x70u8, 0x3au8, 0x2fu8, 0x2fu8, 0x61u8, 0x70u8, 0x69u8, 0x2eu8, 0x6du8, 0x69u8, 0x6eu8, 0x65u8, 0x63u8, 0x72u8, 0x61u8, 0x66u8, 0x74u8, 0x73u8, 0x65u8, 0x72u8, 0x76u8, 0x69u8, 0x63u8, 0x65u8, 0x73u8, 0x2eu8, 0x63u8, 0x6fu8, 0x6du8, 0x2fu8, 0x22u8, 0x2cu8, 0x22u8, 0x54u8, 0x6fu8, 0x6bu8, 0x65u8, 0x6eu8, 0x54u8, 0x79u8, 0x70u8, 0x65u8, 0x22u8, 0x3au8, 0x22u8, 0x4au8, 0x57u8, 0x54u8, 0x22u8, 0x7du8]
}

/// The same text as a byte vector.
pub fn xsts_body_suffix_bytes() -> (r: Vec<u8>)
    ensures
        r@ == lit_xsts_body_suffix(),
{
    let r: Vec<u8> = vec![0x22, 0x5d, 0x7d, 0x2c, 0x22, 0x52, 0x65, 0x6c, 0x79, 0x69, 0x6e, 0x67, 0x50, 0x61, 0x72, 0x74, 0x79, 0x22, 0x3a, 0x22, 0x72, 0x70, 0x3a, 0x2f, 0x2f, 0x61, 0x70, 0x69, 0x2e, 0x6d, 0x69, 0x6e, 0x65, 0x63, 0x72, 0x61, 0x66, 0x74, 0x73, 0x65, 0x72, 0x76, 0x69, 0x63, 0x65, 0x73, 0x2e, 0x63, 0x6f, 0x6d, 0x2f, 0x22, 0x2c, 0x22, 0x54, 0x6f, 0x6b, 0x65, 0x6e, 0x54, 0x79, 0x70, 0x65, 0x22, 0x3a, 0x22, 0x4a, 0x57, 0x54, 0x22, 0x7d];
    proof {
        assert(r@ =~= lit_xsts_body_suffix());
    }
    r
}

/// The text `https://api.minecraftservices.com/authentication/login_with_xbox`.
pub open spec fn lit_minecraft_url() -> Seq<u8> {
    seq![0x68u8, 0x74u8, 0x74u8, 0x70u8, 0x73u8, 0x3au8, 0x2fu8, 0x2fu8, 0x61u8, 0x70u8, 0x69u8, 0x2eu8, 0x6du8, 0x69u8, 0x6eu8, 0x65u8, 0x63u8, 0x72u8, 0x61u8, 0x66u8, 0x74u8, 0x73u8, 0x65u8, 0x72u8, 0x76u8, 0x69u8, 0x63u8, 0x65u8, 0x73u8, 0x2eu8, 0x63u8, 0x6fu8, 0x6du8, 0x2fu8, 0x61u8, 0x75u8, 0x74u8, 0x68u8, 0x65u8, 0x6eu8, 0x74u8, 0x69u8, 0x63u8, 0x61u8, 0x74u8, 0x69u8, 0x6fu8, 0x6eu8, 0x2fu8, 0x6cu8, 0x6fu8, 0x67u8, 0x69u8, 0x6eu8, 0x5fu8, 0x77u8, 0x69u8, 0x74u8, 0x68u8, 0x5fu8, 0x78u8, 0x62u8, 0x6fu8, 0x78u8]
}

/// The same text as a byte vector.
pub fn minecraft_url_bytes() -> (r: Vec<u8>)
    ensures
        r@ == lit_minecraft_url(),
{
    let r: Vec<u8> = vec![0x68, 0x74, 0x74, 0x70, 0x73, 0x3a, 0x2f, 0x2f, 0x61, 0x70, 0x69, 0x2e, 0x6d, 0x69, 0x6e, 0x65, 0x63, 0x72, 0x61, 0x66, 0x74, 0x73, 0x65, 0x72, 0x76, 0x69, 0x63, 0x65, 0x73, 0x2e, 0x63, 0x6f, 0x6d, 0x2f, 0x61, 0x75, 0x74, 0x68, 0x65, 0x6e, 0x74, 0x69, 0x63, 0x61, 0x74, 0x69, 0x6f, 0x6e, 0x2f, 0x6c, 0x6f, 0x67, 0x69, 0x6e, 0x5f, 0x77, 0x69, 0x74, 0x68, 0x5f, 0x78, 0x62, 0x6f, 0x78];
    proof {
        assert(r@ =~= lit_minecraft_url());
    }
    r
}

/// The text `{"identityToken":"XBL3.0 x=`.
pub open spec fn lit_minecraft_body_prefix() -> Seq<u8> {
    seq![0x7bu8, 0x22u8, 0x69u8, 0x64u8, 0x65u8, 0x6eu8, 0x74u8, 0x69u8, 0x74u8, 0x79u8, 0x54u8, 0x6fu8, 0x6bu8, 0x65u8, 0x6eu8, 0x22u8, 0x3au8, 0x22u8, 0x58u8, 0x42u8, 0x4cu8, 0x33u8, 0x2eu8, 0x30u8, 0x20u8, 0x78u8, 0x3du8]
}

/// The same text as a byte vector.
pub fn minecraft_body_prefix_bytes() -> (r: Vec<u8>)
    ensures
        r@ == lit_minecraft_body_prefix(),
{
    let r: Vec<u8> = vec![0x7b, 0x22, 0x69, 0x64, 0x65, 0x6e, 0x74, 0x69, 0x74, 0x79, 0x54, 0x6f, 0x6b, 0x65, 0x6e, 0x22, 0x3a, 0x22, 0x58, 0x42, 0x4c, 0x33, 0x2e, 0x30, 0x20, 0x78, 0x3d];
    proof {
        assert(r@ =~= lit_minecraft_body_prefix());
    }
    r
}

/// The text `;`.
pub open spec fn lit_minecraft_body_mid() -> Seq<u8> {
    seq![0x3bu8]
}

/// The same text as a byte vector.
pub fn minecraft_body_mid_bytes() -> (r: Vec<u8>)
    ensures
        r@ == lit_minecraft_body_mid(),
{
    let r: Vec<u8> = vec![0x3b];
    proof {
        assert(r@ =~= lit_minecraft_body_mid());
    }
    r
}

/// The text `"}`.
pub open spec fn lit_minecraft_body_suffix() -> Seq<u8> {
    seq![0x22u8, 0x7du8]
}

/// The same text as a byte vector.
pub fn minecraft_body_suffix_bytes() -> (r: Vec<u8>)
    ensures
        r@ == lit_minecraft_body_suffix(),
{
    let r: Vec<u8> = vec![0x22, 0x7d];
    proof {
        assert(r@ =~= lit_minecraft_body_suffix());
    }
    r
}

/// The text `https://api.minecraftservices.com/minecraft/profile`.
pub open spec fn lit_profile_url() -> Seq<u8> {
    seq![0x68u8, 0x74u8, 0x74u8, 0x70u8, 0x73u8, 0x3au8, 0x2fu8, 0x2fu8, 0x61u8, 0x70u8, 0x69u8, 0x2eu8, 0x6du8, 0x69u8, 0x6eu8, 0x65u8, 0x63u8, 0x72u8, 0x61u8, 0x66u8, 0x74u8, 0x73u8, 0x65u8, 0x72u8, 0x76u8, 0x69u8, 0x63u8, 0x65u8, 0x73u8, 0x2eu8, 0x63u8, 0x6fu8, 0x6du8, 0x2fu8, 0x6du8, 0x69u8, 0x6eu8, 0x65u8, 0x63u8, 0x72u8, 0x61u8, 0x66u8, 0x74u8, 0x2fu8, 0x70u8, 0x72u8, 0x6fu8, 0x66u8, 0x69u8, 0x6cu8, 0x65u8]
}

/// The same text as a byte vector.
pub fn profile_url_bytes() -> (r: Vec<u8>)
    ensures
        r@ == lit_profile_url(),
{
    let r: Vec<u8> = vec![0x68, 0x74, 0x74, 0x70, 0x73, 0x3a, 0x2f, 0x2f, 0x61, 0x70, 0x69, 0x2e, 0x6d, 0x69, 0x6e, 0x65, 0x63, 0x72, 0x61, 0x66, 0x74, 0x73, 0x65, 0x72, 0x76, 0x69, 0x63, 0x65, 0x73, 0x2e, 0x63, 0x6f, 0x6d, 0x2f, 0x6d, 0x69, 0x6e, 0x65, 0x63, 0x72, 0x61, 0x66, 0x74, 0x2f, 0x70, 0x72, 0x6f, 0x66, 0x69, 0x6c, 0x65];
    proof {
        assert(r@ =~= lit_profile_url());
    }
    r
}

/// The text `Bearer `.
pub open spec fn lit_bearer_prefix() -> Seq<u8> {
    seq![0x42u8, 0x65u8, 0x61u8, 0x72u8, 0x65u8, 0x72u8, 0x20u8]
}

/// The same text as a byte vector.
pub fn bearer_prefix_bytes() -> (r: Vec<u8>)
    ensures
        r@ == lit_bearer_prefix(),
{
    let r: Vec<u8> = vec![0x42, 0x65, 0x61, 0x72, 0x65, 0x72, 0x20];
    proof {
        assert(r@ =~= lit_bearer_prefix());
    }
    r
}

/// The field name `token`.
pub open spec fn fkey_token() -> Seq<u8> {
    seq![0x74u8, 0x6fu8, 0x6bu8, 0x65u8, 0x6eu8]
}

/// The field name `token` as a byte vector.
pub fn fkey_token_bytes() -> (r: Vec<u8>)
    ensures
        r@ == fkey_token(),
{
    let r: Vec<u8> = vec![0x74, 0x6f, 0x6b, 0x65, 0x6e];
    proof {
        assert(r@ =~= fkey_token());
    }
    r
}

/// The field name `refresh`.
pub open spec fn fkey_refresh() -> Seq<u8> {
    seq![0x72u8, 0x65u8, 0x66u8, 0x72u8, 0x65u8, 0x73u8, 0x68u8]
}

/// The field name `refresh` as a byte vector.
pub fn fkey_refresh_bytes() -> (r: Vec<u8>)
    ensures
        r@ == fkey_refresh(),
{
    let r: Vec<u8> = vec![0x72, 0x65, 0x66, 0x72, 0x65, 0x73, 0x68];
    proof {
        assert(r@ =~= fkey_refresh());
    }
    r
}

/// The field name `uuid`.
pub open spec fn fkey_uuid() -> Seq<u8> {
    seq![0x75u8, 0x75u8, 0x69u8, 0x64u8]
}

/// The field name `uuid` as a byte vector.
pub fn fkey_uuid_bytes() -> (r: Vec<u8>)
    ensures
        r@ == fkey_uuid(),
{
    let r: Vec<u8> = vec![0x75, 0x75, 0x69, 0x64];
    proof {
        assert(r@ =~= fkey_uuid());
    }
    r
}

/// The field name `username`.
pub open spec fn fkey_username() -> Seq<u8> {
    seq![0x75u8, 0x73u8, 0x65u8, 0x72u8, 0x6eu8, 0x61u8, 0x6du8, 0x65u8]
}

/// The field name `username` as a byte vector.
pub fn fkey_username_bytes() -> (r: Vec<u8>)
    ensures
        r@ == fkey_username(),
{
    let r: Vec<u8> = vec![0x75, 0x73, 0x65, 0x72, 0x6e, 0x61, 0x6d, 0x65];
    proof {
        assert(r@ =~= fkey_username());
    }
    r
}

/// The field name `access_token`.
pub open spec fn fkey_access_token() -> Seq<u8> {
    seq![0x61u8, 0x63u8, 0x63u8, 0x65u8, 0x73u8, 0x73u8, 0x5fu8, 0x74u8, 0x6fu8, 0x6bu8, 0x65u8, 0x6eu8]
}

/// The field name `access_token` as a byte vector.
pub fn fkey_access_token_bytes() -> (r: Vec<u8>)
    ensures
        r@ == fkey_access_token(),
{
    let r: Vec<u8> = vec![0x61, 0x63, 0x63, 0x65, 0x73, 0x73, 0x5f, 0x74, 0x6f, 0x6b, 0x65, 0x6e];
    proof {
        assert(r@ =~= fkey_access_token());
    }
    r
}

/// The field name `refresh_token`.
pub open spec fn fkey_refresh_token() -> Seq<u8> {
    seq![0x72u8, 0x65u8, 0x66u8, 0x72u8, 0x65u8, 0x73u8, 0x68u8, 0x5fu8, 0x74u8, 0x6fu8, 0x6bu8, 0x65u8, 0x6eu8]
}

/// The field name `refresh_token` as a byte vector.
pub fn fkey_refresh_token_bytes() -> (r: Vec<u8>)
    ensures
        r@ == fkey_refresh_token(),
{
    let r: Vec<u8> = vec![0x72, 0x65, 0x66, 0x72, 0x65, 0x73, 0x68, 0x5f, 0x74, 0x6f, 0x6b, 0x65, 0x6e];
    proof {
        assert(r@ =~= fkey_refresh_token());
    }
    r
}

/// The field name `Token`.
pub open spec fn fkey_cap_token() -> Seq<u8> {
    seq![0x54u8, 0x6fu8, 0x6bu8, 0x65u8, 0x6eu8]
}

/// The field name `Token` as a byte vector.
pub fn fkey_cap_token_bytes() -> (r: Vec<u8>)
    ensures
        r@ == fkey_cap_token(),
{
    let r: Vec<u8> = vec![0x54, 0x6f, 0x6b, 0x65, 0x6e];
    proof {
        assert(r@ =~= fkey_cap_token());
    }
    r
}

/// The field name `XErr`.
pub open spec fn fkey_xerr() -> Seq<u8> {
    seq![0x58u8, 0x45u8, 0x72u8, 0x72u8]
}

/// The field name `XErr` as a byte vector.
pub fn fkey_xerr_bytes() -> (r: Vec<u8>)
    ensures
        r@ == fkey_xerr(),
{
    let r: Vec<u8> = vec![0x58, 0x45, 0x72, 0x72];
    proof {
        assert(r@ =~= fkey_xerr());
    }
    r
}

/// The field name `DisplayClaims`.
pub open spec fn fkey_display_claims() -> Seq<u8> {
    seq![0x44u8, 0x69u8, 0x73u8, 0x70u8, 0x6cu8, 0x61u8, 0x79u8, 0x43u8, 0x6cu8, 0x61u8, 0x69u8, 0x6du8, 0x73u8]
}

/// The field name `DisplayClaims` as a byte vector.
pub fn fkey_display_claims_bytes() -> (r: Vec<u8>)
    ensures
        r@ == fkey_display_claims(),
{
    let r: Vec<u8> = vec![0x44, 0x69, 0x73, 0x70, 0x6c, 0x61, 0x79, 0x43, 0x6c, 0x61, 0x69, 0x6d, 0x73];
    proof {
        assert(r@ =~= fkey_display_claims());
    }
    r
}

/// The field name `xui`.
pub open spec fn fkey_xui() -> Seq<u8> {
    seq![0x78u8, 0x75u8, 0x69u8]
}

/// The field name `xui` as a byte vector.
pub fn fkey_xui_bytes() -> (r: Vec<u8>)
    ensures
        r@ == fkey_xui(),
{
    let r: Vec<u8> = vec![0x78, 0x75, 0x69];
    proof {
        assert(r@ =~= fkey_xui());
    }
    r
}

/// The field name `uhs`.
pub open spec fn fkey_uhs() -> Seq<u8> {
    seq![0x75u8, 0x68u8, 0x73u8]
}

/// The field name `uhs` as a byte vector.
pub fn fkey_uhs_bytes() -> (r: Vec<u8>)
    ensures
        r@ == fkey_uhs(),
{
    let r: Vec<u8> = vec![0x75, 0x68, 0x73];
    proof {
        assert(r@ =~= fkey_uhs());
    }
    r
}

/// The field name `id`.
pub open spec fn fkey_id() -> Seq<u8> {
    seq![0x69u8, 0x64u8]
}

/// The field name `id` as a byte vector.
pub fn fkey_id_bytes() -> (r: Vec<u8>)
    ensures
        r@ == fkey_id(),
{
    let r: Vec<u8> = vec![0x69, 0x64];
    proof {
        assert(r@ =~= fkey_id());
    }
    r
}

/// The field name `name`.
pub open spec fn fkey_name() -> Seq<u8> {
    seq![0x6eu8, 0x61u8, 0x6du8, 0x65u8]
}

/// The field name `name` as a byte vector.
pub fn fkey_name_bytes() -> (r: Vec<u8>)
    ensures
        r@ == fkey_name(),
{
    let r: Vec<u8> = vec![0x6e, 0x61, 0x6d, 0x65];
    proof {
        assert(r@ =~= fkey_name());
    }
    r
}

// ---------------------------------------------------------------------
// Request construction
// ---------------------------------------------------------------------

/// The token-exchange URL for a fresh authorization code.
pub open spec fn spec_token_request_url(code: Seq<u8>) -> Seq<u8> {
    lit_token_url_code_prefix() + code + lit_token_url_code_suffix()
}

/// The token-exchange URL when refreshing with a stored refresh token.
pub open spec fn spec_refresh_request_url(refresh: Seq<u8>) -> Seq<u8> {
    lit_token_url_refresh_prefix() + refresh + lit_token_url_refresh_suffix()
}

/// The Xbox Live authentication request body.
pub open spec fn spec_xbl_body(access_token: Seq<u8>) -> Seq<u8> {
    lit_xbl_body_prefix() + access_token + lit_xbl_body_suffix()
}

/// The XSTS authorization request body.
pub open spec fn spec_xsts_body(xbl_token: Seq<u8>) -> Seq<u8> {
    lit_xsts_body_prefix() + xbl_token + lit_xsts_body_suffix()
}

/// The game-service login request body.
pub open spec fn spec_minecraft_body(user_hash: Seq<u8>, xsts_token: Seq<u8>) -> Seq<u8> {
    lit_minecraft_body_prefix() + user_hash + lit_minecraft_body_mid() + xsts_token
        + lit_minecraft_body_suffix()
}

/// The bearer header value for the profile fetch.
pub open spec fn spec_bearer_header(token: Seq<u8>) -> Seq<u8> {
    lit_bearer_prefix() + token
}

/// Builds the token-exchange URL for an authorization code.
pub fn token_request_url(code: &Vec<u8>) -> (r: Vec<u8>)
    ensures
        r@ == spec_token_request_url(code@),
{
    let mut out = token_url_code_prefix_bytes();
    push_bytes(&mut out, code);
    let suffix = token_url_code_suffix_bytes();
    push_bytes(&mut out, &suffix);
    proof {
        assert(out@ =~= spec_token_request_url(code@));
    }
    out
}

/// Builds the token-exchange URL for a refresh token.
pub fn refresh_request_url(refresh: &Vec<u8>) -> (r: Vec<u8>)
    ensures
        r@ == spec_refresh_request_url(refresh@),
{
    let mut out = token_url_refresh_prefix_bytes();
    push_bytes(&mut out, refresh);
    let suffix = token_url_refresh_suffix_bytes();
    push_bytes(&mut out, &suffix);
    proof {
        assert(out@ =~= spec_refresh_request_url(refresh@));
    }
    out
}

/// Builds the Xbox Live authentication body around the OAuth token.
pub fn xbl_request_body(access_token: &Vec<u8>) -> (r: Vec<u8>)
    ensures
        r@ == spec_xbl_body(access_token@),
{
    let mut out = xbl_body_prefix_bytes();
    push_bytes(&mut out, access_token);
    let suffix = xbl_body_suffix_bytes();
    push_bytes(&mut out, &suffix);
    proof {
        assert(out@ =~= spec_xbl_body(access_token@));
    }
    out
}

/// Builds the XSTS authorization body around the Xbox Live token.
pub fn xsts_request_body(xbl_token: &Vec<u8>) -> (r: Vec<u8>)
    ensures
        r@ == spec_xsts_body(xbl_token@),
{
    let mut out = xsts_body_prefix_bytes();
    push_bytes(&mut out, xbl_token);
    let suffix = xsts_body_suffix_bytes();
    push_bytes(&mut out, &suffix);
    proof {
        assert(out@ =~= spec_xsts_body(xbl_token@));
    }
    out
}

/// Builds the game-service login body around the user hash and XSTS
/// token.
pub fn minecraft_request_body(user_hash: &Vec<u8>, xsts_token: &Vec<u8>) -> (r: Vec<u8>)
    ensures
        r@ == spec_minecraft_body(user_hash@, xsts_token@),
{
    let mut out = minecraft_body_prefix_bytes();
    push_bytes(&mut out, user_hash);
    let mid = minecraft_body_mid_bytes();
    push_bytes(&mut out, &mid);
    push_bytes(&mut out, xsts_token);
    let suffix = minecraft_body_suffix_bytes();
    push_bytes(&mut out, &suffix);
    proof {
        assert(out@ =~= spec_minecraft_body(user_hash@, xsts_token@));
    }
    out
}

/// Builds the bearer header value for the profile fetch.
pub fn bearer_header(token: &Vec<u8>) -> (r: Vec<u8>)
    ensures
        r@ == spec_bearer_header(token@),
{
    let mut out = bearer_prefix_bytes();
    push_bytes(&mut out, token);
    proof {
        assert(out@ =~= spec_bearer_header(token@));
    }
    out
}

// ---------------------------------------------------------------------
// Response interpretation
// ---------------------------------------------------------------------

/// A string field of a parsed JSON object.
pub open spec fn jstr_field(ms: Seq<(Seq<u8>, JVal)>, key: Seq<u8>) -> Option<Seq<u8>> {
    match jlookup(ms, key) {
        Some(JVal::Str(t)) => Some(t),
        _ => None,
    }
}

/// A string field, extracted.
fn jstr_field_exec(ms: &Vec<(Vec<u8>, JsonValue)>, key: &Vec<u8>) -> (r: Option<Vec<u8>>)
    ensures
        match r {
            Some(t) => jstr_field(member_views(ms@), key@) == Some(t@),
            None => jstr_field(member_views(ms@), key@) is None,
        },
{
    match jlookup_exec(ms, key) {
        Some(JsonValue::Str(t)) => Some(clone_bytes(t)),
        _ => None,
    }
}

/// What the token-exchange response means: both tokens, or nothing.
pub open spec fn spec_parse_token_response(s: Seq<u8>) -> Option<(Seq<u8>, Seq<u8>)> {
    match sp_document(s) {
        Some(JVal::Obj(ms)) => match (jstr_field(ms, fkey_access_token()), jstr_field(
            ms,
            fkey_refresh_token(),
        )) {
            (Some(at), Some(rt)) => Some((at, rt)),
            _ => None,
        },
        _ => None,
    }
}

/// Reads the OAuth access and refresh tokens out of the token-exchange
/// response.
pub fn parse_token_response(s: &Vec<u8>) -> (r: Result<(Vec<u8>, Vec<u8>), ProtocolError>)
    ensures
        match r {
            Ok((at, rt)) => spec_parse_token_response(s@) == Some((at@, rt@)),
            Err(e) => spec_parse_token_response(s@) is None,
        },
{
    match parse_document(s) {
        Some(JsonValue::Obj(ms)) => {
            proof {
                assert(JsonValue::Obj(ms)@->Obj_0 =~= member_views(ms@));
            }
            let atk = fkey_access_token_bytes();
            let rtk = fkey_refresh_token_bytes();
            match (jstr_field_exec(&ms, &atk), jstr_field_exec(&ms, &rtk)) {
                (Some(at), Some(rt)) => Ok((at, rt)),
                _ => Err(ProtocolError::MissingField(fkey_access_token_bytes())),
            }
        },
        Some(other) => {
            proof {
                assert(!(other@ is Obj));
            }
            Err(ProtocolError::InvalidJson(fkey_access_token_bytes()))
        },
        None => Err(ProtocolError::InvalidJson(fkey_access_token_bytes())),
    }
}

/// What the Xbox Live response means: the XBL token, or nothing.
pub open spec fn spec_parse_xbl_response(s: Seq<u8>) -> Option<Seq<u8>> {
    match sp_document(s) {
        Some(JVal::Obj(ms)) => jstr_field(ms, fkey_cap_token()),
        _ => None,
    }
}

/// Reads the XBL token out of the Xbox Live response.
pub fn parse_xbl_response(s: &Vec<u8>) -> (r: Result<Vec<u8>, ProtocolError>)
    ensures
        match r {
            Ok(t) => spec_parse_xbl_response(s@) == Some(t@),
            Err(e) => spec_parse_xbl_response(s@) is None,
        },
{
    match parse_document(s) {
        Some(JsonValue::Obj(ms)) => {
            proof {
                assert(JsonValue::Obj(ms)@->Obj_0 =~= member_views(ms@));
            }
            let tk = fkey_cap_token_bytes();
            match jstr_field_exec(&ms, &tk) {
                Some(t) => Ok(t),
                None => Err(ProtocolError::MissingField(fkey_cap_token_bytes())),
            }
        },
        Some(other) => {
            proof {
                assert(!(other@ is Obj));
            }
            Err(ProtocolError::InvalidJson(fkey_cap_token_bytes()))
        },
        None => Err(ProtocolError::InvalidJson(fkey_cap_token_bytes())),
    }
}

/// What the XSTS response means. An `XErr` code takes precedence and is
/// mapped to its error kind; otherwise the token and the user hash at
/// `DisplayClaims.xui[0].uhs` are both required.
pub open spec fn spec_parse_xsts_response(s: Seq<u8>) -> Result<
    (Seq<u8>, Seq<u8>),
    ProtocolErrorModel,
> {
    match sp_document(s) {
        Some(JVal::Obj(ms)) => match jlookup(ms, fkey_xerr()) {
            Some(JVal::Int(code)) => if code == 2148916233i64 {
                Err(ProtocolErrorModel::NoXboxAccount)
            } else if code == 2148916238i64 {
                Err(ProtocolErrorModel::ChildAccount)
            } else {
                Err(ProtocolErrorModel::XstsError(code as u64))
            },
            _ => match (jstr_field(ms, fkey_cap_token()), spec_xsts_user_hash(ms)) {
                (Some(t), Some(h)) => Ok((t, h)),
                _ => Err(ProtocolErrorModel::MissingField(fkey_cap_token())),
            },
        },
        _ => Err(ProtocolErrorModel::InvalidJson(fkey_xerr())),
    }
}

/// The user hash nested at `DisplayClaims.xui[0].uhs`.
pub open spec fn spec_xsts_user_hash(ms: Seq<(Seq<u8>, JVal)>) -> Option<Seq<u8>> {
    match jlookup(ms, fkey_display_claims()) {
        Some(JVal::Obj(dc)) => match jlookup(dc, fkey_xui()) {
            Some(JVal::Arr(xs)) => if xs.len() > 0 {
                match xs[0] {
                    JVal::Obj(x0) => jstr_field(x0, fkey_uhs()),
                    _ => None,
                }
            } else {
                None
            },
            _ => None,
        },
        _ => None,
    }
}

/// Interprets the XSTS response: the XSTS token and user hash on
/// success, and the documented account conditions as distinct errors.
pub fn parse_xsts_response(s: &Vec<u8>) -> (r: Result<(Vec<u8>, Vec<u8>), ProtocolError>)
    ensures
        match r {
            Ok((t, h)) => spec_parse_xsts_response(s@) == Ok::<
                (Seq<u8>, Seq<u8>),
                ProtocolErrorModel,
            >((t@, h@)),
            Err(e) => spec_parse_xsts_response(s@) == Err::<
                (Seq<u8>, Seq<u8>),
                ProtocolErrorModel,
            >(e@),
        },
{
    match parse_document(s) {
        Some(JsonValue::Obj(ms)) => {
            proof {
                assert(JsonValue::Obj(ms)@->Obj_0 =~= member_views(ms@));
            }
            let xk = fkey_xerr_bytes();
            match jlookup_exec(&ms, &xk) {
                Some(JsonValue::Int(code)) => {
                    let code = *code;
                    if code == 2148916233i64 {
                        Err(ProtocolError::NoXboxAccount)
                    } else if code == 2148916238i64 {
                        Err(ProtocolError::ChildAccount)
                    } else {
                        Err(ProtocolError::XstsError(#[verifier::truncate] (code as u64)))
                    }
                },
                _ => {
                    let tk = fkey_cap_token_bytes();
                    let token = jstr_field_exec(&ms, &tk);
                    let hash = xsts_user_hash(&ms);
                    match (token, hash) {
                        (Some(t), Some(h)) => Ok((t, h)),
                        _ => Err(ProtocolError::MissingField(fkey_cap_token_bytes())),
                    }
                },
            }
        },
        Some(other) => {
            proof {
                assert(!(other@ is Obj));
            }
            Err(ProtocolError::InvalidJson(fkey_xerr_bytes()))
        },
        None => Err(ProtocolError::InvalidJson(fkey_xerr_bytes())),
    }
}

/// Extracts the user hash at `DisplayClaims.xui[0].uhs`.
fn xsts_user_hash(ms: &Vec<(Vec<u8>, JsonValue)>) -> (r: Option<Vec<u8>>)
    ensures
        match r {
            Some(h) => spec_xsts_user_hash(member_views(ms@)) == Some(h@),
            None => spec_xsts_user_hash(member_views(ms@)) is None,
        },
{
    let dck = fkey_display_claims_bytes();
    match jlookup_exec(ms, &dck) {
        Some(jv) => match jv {
            JsonValue::Obj(dc) => {
                proof {
                    assert(jv@->Obj_0 =~= member_views(dc@));
                }
                let xuik = fkey_xui_bytes();
                match jlookup_exec(dc, &xuik) {
                    Some(jv2) => match jv2 {
                        JsonValue::Arr(xs) => {
                            proof {
                                assert(jv2@->Arr_0 =~= views_of(xs@));
                            }
                            if xs.len() > 0 {
                                match &xs[0] {
                                    JsonValue::Obj(x0) => {
                                        proof {
                                            assert(views_of(xs@)[0] == xs@[0]@);
                                            assert(xs@[0]@->Obj_0 =~= member_views(x0@));
                                        }
                                        let uk = fkey_uhs_bytes();
                                        jstr_field_exec(x0, &uk)
                                    },
                                    other => {
                                        proof {
                                            assert(views_of(xs@)[0] == xs@[0]@);
                                            assert(!(xs@[0]@ is Obj));
                                        }
                                        None
                                    },
                                }
                            } else {
                                None
                            }
                        },
                        _ => None,
                    },
                    None => None,
                }
            },
            _ => None,
        },
        None => None,
    }
}

/// What the game-service login response means: the access token.
pub open spec fn spec_parse_minecraft_response(s: Seq<u8>) -> Option<Seq<u8>> {
    match sp_document(s) {
        Some(JVal::Obj(ms)) => jstr_field(ms, fkey_access_token()),
        _ => None,
    }
}

/// Reads the game access token out of the login response.
pub fn parse_minecraft_response(s: &Vec<u8>) -> (r: Result<Vec<u8>, ProtocolError>)
    ensures
        match r {
            Ok(t) => spec_parse_minecraft_response(s@) == Some(t@),
            Err(e) => spec_parse_minecraft_response(s@) is None,
        },
{
    match parse_document(s) {
        Some(JsonValue::Obj(ms)) => {
            proof {
                assert(JsonValue::Obj(ms)@->Obj_0 =~= member_views(ms@));
            }
            let atk = fkey_access_token_bytes();
            match jstr_field_exec(&ms, &atk) {
                Some(t) => Ok(t),
                None => Err(ProtocolError::MissingField(fkey_access_token_bytes())),
            }
        },
        Some(other) => {
            proof {
                assert(!(other@ is Obj));
            }
            Err(ProtocolError::InvalidJson(fkey_access_token_bytes()))
        },
        None => Err(ProtocolError::InvalidJson(fkey_access_token_bytes())),
    }
}

/// What the profile response means: the account id and name.
pub open spec fn spec_parse_profile_response(s: Seq<u8>) -> Option<(Seq<u8>, Seq<u8>)> {
    match sp_document(s) {
        Some(JVal::Obj(ms)) => match (jstr_field(ms, fkey_id()), jstr_field(ms, fkey_name())) {
            (Some(i), Some(n)) => Some((i, n)),
            _ => None,
        },
        _ => None,
    }
}

/// Reads the uuid and username out of the profile response.
pub fn parse_profile_response(s: &Vec<u8>) -> (r: Result<(Vec<u8>, Vec<u8>), ProtocolError>)
    ensures
        match r {
            Ok((u, n)) => spec_parse_profile_response(s@) == Some((u@, n@)),
            Err(e) => spec_parse_profile_response(s@) is None,
        },
{
    match parse_document(s) {
        Some(JsonValue::Obj(ms)) => {
            proof {
                assert(JsonValue::Obj(ms)@->Obj_0 =~= member_views(ms@));
            }
            let ik = fkey_id_bytes();
            let nk = fkey_name_bytes();
            match (jstr_field_exec(&ms, &ik), jstr_field_exec(&ms, &nk)) {
                (Some(u), Some(n)) => Ok((u, n)),
                _ => Err(ProtocolError::MissingField(fkey_id_bytes())),
            }
        },
        Some(other) => {
            proof {
                assert(!(other@ is Obj));
            }
            Err(ProtocolError::InvalidJson(fkey_id_bytes()))
        },
        None => Err(ProtocolError::InvalidJson(fkey_id_bytes())),
    }
}

// ---------------------------------------------------------------------
// The persisted account profile
// ---------------------------------------------------------------------

/// The members of the serialized profile, in their fixed order.
pub open spec fn spec_profile_members(p: ProfileModel) -> Seq<(Seq<u8>, JVal)> {
    seq![
        (fkey_token(), JVal::Str(p.token)),
        (fkey_refresh(), JVal::Str(p.refresh)),
        (fkey_uuid(), JVal::Str(p.uuid)),
        (fkey_username(), JVal::Str(p.username)),
    ]
}

/// The serialized profile text from its last member backwards: each
/// layer is one `"key":"value"` member plus the separator that follows
/// it.
pub open spec fn prof_tail4(p: ProfileModel) -> Seq<u8> {
    spec_emit_string(fkey_username()) + seq![0x3au8] + spec_emit_string(p.username)
        + seq![0x7du8]
}

pub open spec fn prof_tail3(p: ProfileModel) -> Seq<u8> {
    spec_emit_string(fkey_uuid()) + seq![0x3au8] + spec_emit_string(p.uuid) + seq![0x2cu8]
        + prof_tail4(p)
}

pub open spec fn prof_tail2(p: ProfileModel) -> Seq<u8> {
    spec_emit_string(fkey_refresh()) + seq![0x3au8] + spec_emit_string(p.refresh) + seq![0x2cu8]
        + prof_tail3(p)
}

pub open spec fn prof_tail1(p: ProfileModel) -> Seq<u8> {
    spec_emit_string(fkey_token()) + seq![0x3au8] + spec_emit_string(p.token) + seq![0x2cu8]
        + prof_tail2(p)
}

/// The serialized profile: one JSON object with the four fields in a
/// fixed order.
pub open spec fn spec_serialize_profile(p: ProfileModel) -> Seq<u8> {
    seq![0x7bu8] + prof_tail1(p)
}

/// Renders the profile for `account.json`.
pub fn serialize_profile(p: &Profile) -> (r: Vec<u8>)
    ensures
        r@ == spec_serialize_profile(p@),
{
    let mut out: Vec<u8> = Vec::new();
    out.push(0x7b);
    let tk = fkey_token_bytes();
    emit_string(&tk, &mut out);
    out.push(0x3a);
    emit_string(&p.token, &mut out);
    out.push(0x2c);
    let rk = fkey_refresh_bytes();
    emit_string(&rk, &mut out);
    out.push(0x3a);
    emit_string(&p.refresh, &mut out);
    out.push(0x2c);
    let uk = fkey_uuid_bytes();
    emit_string(&uk, &mut out);
    out.push(0x3a);
    emit_string(&p.uuid, &mut out);
    out.push(0x2c);
    let nk = fkey_username_bytes();
    emit_string(&nk, &mut out);
    out.push(0x3a);
    emit_string(&p.username, &mut out);
    out.push(0x7d);
    proof {
        assert(out@ =~= spec_serialize_profile(p@));
    }
    out
}

/// What stored profile text means: all four fields as strings.
pub open spec fn spec_parse_profile(s: Seq<u8>) -> Option<ProfileModel> {
    match sp_document(s) {
        Some(JVal::Obj(ms)) => match (
            jstr_field(ms, fkey_token()),
            jstr_field(ms, fkey_refresh()),
            jstr_field(ms, fkey_uuid()),
            jstr_field(ms, fkey_username()),
        ) {
            (Some(t), Some(r), Some(u), Some(n)) => Some(
                ProfileModel { token: t, refresh: r, uuid: u, username: n },
            ),
            _ => None,
        },
        _ => None,
    }
}

/// Reads a profile back from `account.json` text.
pub fn parse_profile(s: &Vec<u8>) -> (r: Result<Profile, ProtocolError>)
    ensures
        match r {
            Ok(p) => spec_parse_profile(s@) == Some(p@),
            Err(e) => spec_parse_profile(s@) is None,
        },
{
    match parse_document(s) {
        Some(JsonValue::Obj(ms)) => {
            proof {
                assert(JsonValue::Obj(ms)@->Obj_0 =~= member_views(ms@));
            }
            let tk = fkey_token_bytes();
            let rk = fkey_refresh_bytes();
            let uk = fkey_uuid_bytes();
            let nk = fkey_username_bytes();
            let token = jstr_field_exec(&ms, &tk);
            let refresh = jstr_field_exec(&ms, &rk);
            let uuid = jstr_field_exec(&ms, &uk);
            let username = jstr_field_exec(&ms, &nk);
            match (token, refresh, uuid, username) {
                (Some(t), Some(r), Some(u), Some(n)) => Ok(
                    Profile { token: t, refresh: r, uuid: u, username: n },
                ),
                _ => Err(ProtocolError::MissingField(fkey_token_bytes())),
            }
        },
        Some(other) => {
            proof {
                assert(!(other@ is Obj));
            }
            Err(ProtocolError::InvalidJson(fkey_token_bytes()))
        },
        None => Err(ProtocolError::InvalidJson(fkey_token_bytes())),
    }
}

/// One member whose key and value are both emitted strings, followed by
/// a comma and more members.
#[verifier::rlimit(100)]
#[verifier::spinoff_prover]
proof fn lemma_member_cons_str(
    key: Seq<u8>,
    val: Seq<u8>,
    r: Seq<u8>,
    ms_t: Seq<(Seq<u8>, JVal)>,
    n_t: int,
)
    requires
        sp_members(r, false) == Some((ms_t, n_t)),
    ensures
        sp_members(
            spec_emit_string(key) + seq![0x3au8] + spec_emit_string(val) + seq![0x2cu8] + r,
            false,
        ) == Some(
            (
                seq![(key, JVal::Str(val))] + ms_t,
                spec_emit_string(key).len() + 1 + spec_emit_string(val).len() + 1 + n_t,
            ),
        ),
        sp_members(
            spec_emit_string(key) + seq![0x3au8] + spec_emit_string(val) + seq![0x2cu8] + r,
            true,
        ) == Some(
            (
                seq![(key, JVal::Str(val))] + ms_t,
                spec_emit_string(key).len() + 1 + spec_emit_string(val).len() + 1 + n_t,
            ),
        ),
{
    let kt = spec_emit_string(key);
    let ev = spec_emit_string(val);
    lemma_string_round_trip(key, seq![0x3au8] + ev + seq![0x2cu8] + r);
    assert(kt + (seq![0x3au8] + ev + seq![0x2cu8] + r) =~= kt + seq![0x3au8] + ev + seq![0x2cu8]
        + r);
    lemma_string_value(val, seq![0x2cu8] + r);
    assert(ev + (seq![0x2cu8] + r) =~= ev + seq![0x2cu8] + r);
    assert(kt[0] == 0x22);
    assert(ev[0] == 0x22);
    lemma_member_cons(kt, key, ev, JVal::Str(val), r, ms_t, n_t, false);
    lemma_member_cons(kt, key, ev, JVal::Str(val), r, ms_t, n_t, true);
}

#[verifier::rlimit(100)]
#[verifier::spinoff_prover]
proof fn lemma_prof_tail4(p: ProfileModel)
    ensures
        sp_members(prof_tail4(p), false) == Some(
            (seq![(fkey_username(), JVal::Str(p.username))], prof_tail4(p).len() as int),
        ),
{
    let kt = spec_emit_string(fkey_username());
    let ev = spec_emit_string(p.username);
    let rest = Seq::<u8>::empty();
    lemma_string_round_trip(fkey_username(), seq![0x3au8] + ev + seq![0x7du8] + rest);
    assert(kt + (seq![0x3au8] + ev + seq![0x7du8] + rest) =~= prof_tail4(p));
    assert(kt + seq![0x3au8] + ev + seq![0x7du8] + rest =~= prof_tail4(p));
    lemma_string_value(p.username, seq![0x7du8] + rest);
    assert(ev + (seq![0x7du8] + rest) =~= ev + seq![0x7du8] + rest);
    assert(kt[0] == 0x22);
    assert(ev[0] == 0x22);
    lemma_member_last(kt, fkey_username(), ev, JVal::Str(p.username), rest, false);
}

#[verifier::rlimit(100)]
#[verifier::spinoff_prover]
proof fn lemma_prof_tail3(p: ProfileModel)
    ensures
        sp_members(prof_tail3(p), false) == Some(
            (
                seq![(fkey_uuid(), JVal::Str(p.uuid)), (fkey_username(), JVal::Str(p.username))],
                prof_tail3(p).len() as int,
            ),
        ),
{
    lemma_prof_tail4(p);
    lemma_member_cons_str(
        fkey_uuid(),
        p.uuid,
        prof_tail4(p),
        seq![(fkey_username(), JVal::Str(p.username))],
        prof_tail4(p).len() as int,
    );
    assert(seq![(fkey_uuid(), JVal::Str(p.uuid))] + seq![
        (fkey_username(), JVal::Str(p.username)),
    ] =~= seq![(fkey_uuid(), JVal::Str(p.uuid)), (fkey_username(), JVal::Str(p.username))]);
}

#[verifier::rlimit(100)]
#[verifier::spinoff_prover]
proof fn lemma_prof_tail2(p: ProfileModel)
    ensures
        sp_members(prof_tail2(p), false) == Some(
            (
                seq![
                    (fkey_refresh(), JVal::Str(p.refresh)),
                    (fkey_uuid(), JVal::Str(p.uuid)),
                    (fkey_username(), JVal::Str(p.username)),
                ],
                prof_tail2(p).len() as int,
            ),
        ),
{
    lemma_prof_tail3(p);
    lemma_member_cons_str(
        fkey_refresh(),
        p.refresh,
        prof_tail3(p),
        seq![(fkey_uuid(), JVal::Str(p.uuid)), (fkey_username(), JVal::Str(p.username))],
        prof_tail3(p).len() as int,
    );
    assert(seq![(fkey_refresh(), JVal::Str(p.refresh))] + seq![
        (fkey_uuid(), JVal::Str(p.uuid)),
        (fkey_username(), JVal::Str(p.username)),
    ] =~= seq![
        (fkey_refresh(), JVal::Str(p.refresh)),
        (fkey_uuid(), JVal::Str(p.uuid)),
        (fkey_username(), JVal::Str(p.username)),
    ]);
}

#[verifier::rlimit(100)]
#[verifier::spinoff_prover]
proof fn lemma_prof_tail1(p: ProfileModel)
    ensures
        sp_members(prof_tail1(p), true) == Some(
            (spec_profile_members(p), prof_tail1(p).len() as int),
        ),
{
    lemma_prof_tail2(p);
    lemma_member_cons_str(
        fkey_token(),
        p.token,
        prof_tail2(p),
        seq![
            (fkey_refresh(), JVal::Str(p.refresh)),
            (fkey_uuid(), JVal::Str(p.uuid)),
            (fkey_username(), JVal::Str(p.username)),
        ],
        prof_tail2(p).len() as int,
    );
    assert(seq![(fkey_token(), JVal::Str(p.token))] + seq![
        (fkey_refresh(), JVal::Str(p.refresh)),
        (fkey_uuid(), JVal::Str(p.uuid)),
        (fkey_username(), JVal::Str(p.username)),
    ] =~= spec_profile_members(p));
}

/// A serialized profile parses as a document into exactly its four
/// members.
#[verifier::rlimit(100)]
#[verifier::spinoff_prover]
proof fn lemma_profile_doc(p: ProfileModel)
    ensures
        sp_document(spec_serialize_profile(p)) == Some(JVal::Obj(spec_profile_members(p))),
{
    lemma_prof_tail1(p);
    let s = spec_serialize_profile(p);
    let n1 = prof_tail1(p).len() as int;
    assert(s[0] == 0x7b);
    assert(ws_len(s) == 0);
    assert(s.skip(0) =~= s);
    assert(s.skip(1) =~= prof_tail1(p));
    assert(sp_value(s) == Some((JVal::Obj(spec_profile_members(p)), n1 + 1)));
    assert(s.len() == n1 + 1);
    assert(s.skip(0 + (n1 + 1)).len() == 0);
    assert(ws_len(s.skip(0 + (n1 + 1))) == 0);
}

/// Looking the four keys up in the written members yields the four
/// field values.
#[verifier::rlimit(100)]
#[verifier::spinoff_prover]
proof fn lemma_profile_fields(p: ProfileModel)
    ensures
        jstr_field(spec_profile_members(p), fkey_token()) == Some(p.token),
        jstr_field(spec_profile_members(p), fkey_refresh()) == Some(p.refresh),
        jstr_field(spec_profile_members(p), fkey_uuid()) == Some(p.uuid),
        jstr_field(spec_profile_members(p), fkey_username()) == Some(p.username),
{
    let ms = spec_profile_members(p);
    let ms1 = ms.drop_first();
    let ms2 = ms1.drop_first();
    let ms3 = ms2.drop_first();
    assert(ms1 =~= seq![
        (fkey_refresh(), JVal::Str(p.refresh)),
        (fkey_uuid(), JVal::Str(p.uuid)),
        (fkey_username(), JVal::Str(p.username)),
    ]);
    assert(ms2 =~= seq![
        (fkey_uuid(), JVal::Str(p.uuid)),
        (fkey_username(), JVal::Str(p.username)),
    ]);
    assert(ms3 =~= seq![(fkey_username(), JVal::Str(p.username))]);
    assert(fkey_token() != fkey_refresh());
    assert(fkey_token() != fkey_uuid());
    assert(fkey_token() != fkey_username());
    assert(fkey_refresh() != fkey_uuid());
    assert(fkey_refresh() != fkey_username());
    assert(fkey_uuid() != fkey_username());
    assert(jlookup(ms, fkey_token()) == Some(JVal::Str(p.token)));
    assert(jlookup(ms, fkey_refresh()) == jlookup(ms1, fkey_refresh()));
    assert(jlookup(ms1, fkey_refresh()) == Some(JVal::Str(p.refresh)));
    assert(jlookup(ms, fkey_uuid()) == jlookup(ms1, fkey_uuid()));
    assert(jlookup(ms1, fkey_uuid()) == jlookup(ms2, fkey_uuid()));
    assert(jlookup(ms2, fkey_uuid()) == Some(JVal::Str(p.uuid)));
    assert(jlookup(ms, fkey_username()) == jlookup(ms1, fkey_username()));
    assert(jlookup(ms1, fkey_username()) == jlookup(ms2, fkey_username()));
    assert(jlookup(ms2, fkey_username()) == jlookup(ms3, fkey_username()));
    assert(jlookup(ms3, fkey_username()) == Some(JVal::Str(p.username)));
}

/// The profile round trip: parsing the serialized form of a profile
/// gives back the same profile.
pub proof fn lemma_profile_round_trip(p: ProfileModel)
    ensures
        spec_parse_profile(spec_serialize_profile(p)) == Some(p),
{
    lemma_profile_doc(p);
    lemma_profile_fields(p);
    let parsed = spec_parse_profile(spec_serialize_profile(p)).unwrap();
    assert(parsed == p);
}

/// The round trip stated for emitted text: any profile string written
/// by this library parses back, and re-serializing reproduces it.
pub proof fn lemma_profile_serialize_parse(s: Seq<u8>, p: ProfileModel)
    requires
        s == spec_serialize_profile(p),
    ensures
        spec_parse_profile(s) == Some(p),
        spec_serialize_profile(spec_parse_profile(s).unwrap()) == s,
{
    lemma_profile_round_trip(p);
}

// ---------------------------------------------------------------------
// The authentication state machine
// ---------------------------------------------------------------------

/// One HTTP call the pipeline asks the surrounding binary to perform.
/// JSON content headers accompany every POST of this pipeline.
#[derive(Debug, PartialEq)]
pub struct HttpCall {
    pub post: bool,
    pub url: Vec<u8>,
    pub body: Option<Vec<u8>>,
    pub bearer: Option<Vec<u8>>,
}

/// Where the pipeline stands. States after the token exchange carry the
/// OAuth refresh token through to the finished profile; the profile
/// fetch also carries the game access token.
#[derive(Debug, PartialEq)]
pub enum AuthState {
    ExchangingToken,
    AuthenticatingXbl(Vec<u8>),
    AuthorizingXsts(Vec<u8>),
    LoggingIn(Vec<u8>),
    FetchingProfile(Vec<u8>, Vec<u8>),
    Done(Profile),
}

/// Starts the pipeline from a consent authorization code: the first
/// call is the token-exchange GET.
pub fn auth_start(code: &Vec<u8>) -> (r: (AuthState, HttpCall))
    ensures
        r.0 is ExchangingToken,
        r.1.post,
        r.1.url@ == spec_token_request_url(code@),
        r.1.body is None,
        r.1.bearer is None,
{
    (
        AuthState::ExchangingToken,
        HttpCall { post: true, url: token_request_url(code), body: None, bearer: None },
    )
}

/// Starts the pipeline from a stored refresh token.
pub fn auth_refresh_start(refresh: &Vec<u8>) -> (r: (AuthState, HttpCall))
    ensures
        r.0 is ExchangingToken,
        r.1.post,
        r.1.url@ == spec_refresh_request_url(refresh@),
        r.1.body is None,
        r.1.bearer is None,
{
    (
        AuthState::ExchangingToken,
        HttpCall { post: true, url: refresh_request_url(refresh), body: None, bearer: None },
    )
}

/// Advances the pipeline by one response: interprets the body received
/// for the current state and says which call to make next. `Done`
/// carries the finished profile and asks for no further call; stepping
/// a finished pipeline is an error.
pub fn auth_step(state: AuthState, response: &Vec<u8>) -> (r: Result<
    (AuthState, Option<HttpCall>),
    ProtocolError,
>)
    ensures
        match state {
            AuthState::ExchangingToken => match spec_parse_token_response(response@) {
                Some(tokens) => {
                    &&& r is Ok
                    &&& r->Ok_0.0 is AuthenticatingXbl
                    &&& r->Ok_0.0->AuthenticatingXbl_0@ == tokens.1
                    &&& r->Ok_0.1 is Some
                    &&& r->Ok_0.1->Some_0.post
                    &&& r->Ok_0.1->Some_0.url@ == lit_xbl_url()
                    &&& r->Ok_0.1->Some_0.body is Some
                    &&& r->Ok_0.1->Some_0.body->Some_0@ == spec_xbl_body(tokens.0)
                    &&& r->Ok_0.1->Some_0.bearer is None
                },
                None => r is Err,
            },
            AuthState::AuthenticatingXbl(refresh) => match spec_parse_xbl_response(response@) {
                Some(xbl) => {
                    &&& r is Ok
                    &&& r->Ok_0.0 is AuthorizingXsts
                    &&& r->Ok_0.0->AuthorizingXsts_0@ == refresh@
                    &&& r->Ok_0.1 is Some
                    &&& r->Ok_0.1->Some_0.post
                    &&& r->Ok_0.1->Some_0.url@ == lit_xsts_url()
                    &&& r->Ok_0.1->Some_0.body is Some
                    &&& r->Ok_0.1->Some_0.body->Some_0@ == spec_xsts_body(xbl)
                    &&& r->Ok_0.1->Some_0.bearer is None
                },
                None => r is Err,
            },
            AuthState::AuthorizingXsts(refresh) => match spec_parse_xsts_response(response@) {
                Ok(granted) => {
                    &&& r is Ok
                    &&& r->Ok_0.0 is LoggingIn
                    &&& r->Ok_0.0->LoggingIn_0@ == refresh@
                    &&& r->Ok_0.1 is Some
                    &&& r->Ok_0.1->Some_0.post
                    &&& r->Ok_0.1->Some_0.url@ == lit_minecraft_url()
                    &&& r->Ok_0.1->Some_0.body is Some
                    &&& r->Ok_0.1->Some_0.body->Some_0@ == spec_minecraft_body(
                        granted.1,
                        granted.0,
                    )
                    &&& r->Ok_0.1->Some_0.bearer is None
                },
                Err(e) => r is Err && r->Err_0@ == e,
            },
            AuthState::LoggingIn(refresh) => match spec_parse_minecraft_response(response@) {
                Some(token) => {
                    &&& r is Ok
                    &&& r->Ok_0.0 is FetchingProfile
                    &&& r->Ok_0.0->FetchingProfile_0@ == refresh@
                    &&& r->Ok_0.0->FetchingProfile_1@ == token
                    &&& r->Ok_0.1 is Some
                    &&& !r->Ok_0.1->Some_0.post
                    &&& r->Ok_0.1->Some_0.url@ == lit_profile_url()
                    &&& r->Ok_0.1->Some_0.body is None
                    &&& r->Ok_0.1->Some_0.bearer is Some
                    &&& r->Ok_0.1->Some_0.bearer->Some_0@ == spec_bearer_header(token)
                },
                None => r is Err,
            },
            AuthState::FetchingProfile(refresh, token) => match spec_parse_profile_response(
                response@,
            ) {
                Some(identity) => {
                    &&& r is Ok
                    &&& r->Ok_0.0 is Done
                    &&& r->Ok_0.0->Done_0@ == (ProfileModel {
                        token: token@,
                        refresh: refresh@,
                        uuid: identity.0,
                        username: identity.1,
                    })
                    &&& r->Ok_0.1 is None
                },
                None => r is Err,
            },
            AuthState::Done(_) => r is Err,
        },
{
    match state {
        AuthState::ExchangingToken => match parse_token_response(response) {
            Ok((access, refresh)) => {
                let call = HttpCall {
                    post: true,
                    url: xbl_url_bytes(),
                    body: Some(xbl_request_body(&access)),
                    bearer: None,
                };
                Ok((AuthState::AuthenticatingXbl(refresh), Some(call)))
            },
            Err(e) => Err(e),
        },
        AuthState::AuthenticatingXbl(refresh) => match parse_xbl_response(response) {
            Ok(xbl) => {
                let call = HttpCall {
                    post: true,
                    url: xsts_url_bytes(),
                    body: Some(xsts_request_body(&xbl)),
                    bearer: None,
                };
                Ok((AuthState::AuthorizingXsts(refresh), Some(call)))
            },
            Err(e) => Err(e),
        },
        AuthState::AuthorizingXsts(refresh) => match parse_xsts_response(response) {
            Ok((xsts, hash)) => {
                let call = HttpCall {
                    post: true,
                    url: minecraft_url_bytes(),
                    body: Some(minecraft_request_body(&hash, &xsts)),
                    bearer: None,
                };
                Ok((AuthState::LoggingIn(refresh), Some(call)))
            },
            Err(e) => Err(e),
        },
        AuthState::LoggingIn(refresh) => match parse_minecraft_response(response) {
            Ok(token) => {
                let call = HttpCall {
                    post: false,
                    url: profile_url_bytes(),
                    body: None,
                    bearer: Some(bearer_header(&token)),
                };
                Ok((AuthState::FetchingProfile(refresh, token), Some(call)))
            },
            Err(e) => Err(e),
        },
        AuthState::FetchingProfile(refresh, token) => match parse_profile_response(response) {
            Ok((uuid, username)) => Ok(
                (
                    AuthState::Done(Profile { token, refresh, uuid, username }),
                    None,
                ),
            ),
            Err(e) => Err(e),
        },
        AuthState::Done(_) => Err(ProtocolError::MissingField(fkey_token_bytes())),
    }
}

// ---------------------------------------------------------------------
// Token validation
// ---------------------------------------------------------------------

/// The text `https://authserver.mojang.com/validate`.
pub open spec fn lit_validate_url() -> Seq<u8> {
    seq![0x68u8, 0x74u8, 0x74u8, 0x70u8, 0x73u8, 0x3au8, 0x2fu8, 0x2fu8, 0x61u8, 0x75u8, 0x74u8, 0x68u8, 0x73u8, 0x65u8, 0x72u8, 0x76u8, 0x65u8, 0x72u8, 0x2eu8, 0x6du8, 0x6fu8, 0x6au8, 0x61u8, 0x6eu8, 0x67u8, 0x2eu8, 0x63u8, 0x6fu8, 0x6du8, 0x2fu8, 0x76u8, 0x61u8, 0x6cu8, 0x69u8, 0x64u8, 0x61u8, 0x74u8, 0x65u8]
}

/// The same text as a byte vector.
pub fn validate_url_bytes() -> (r: Vec<u8>)
    ensures
        r@ == lit_validate_url(),
{
    let r: Vec<u8> = vec![0x68, 0x74, 0x74, 0x70, 0x73, 0x3a, 0x2f, 0x2f, 0x61, 0x75, 0x74, 0x68, 0x73, 0x65, 0x72, 0x76, 0x65, 0x72, 0x2e, 0x6d, 0x6f, 0x6a, 0x61, 0x6e, 0x67, 0x2e, 0x63, 0x6f, 0x6d, 0x2f, 0x76, 0x61, 0x6c, 0x69, 0x64, 0x61, 0x74, 0x65];
    proof {
        assert(r@ =~= lit_validate_url());
    }
    r
}

/// The text `{"accessToken":"`.
pub open spec fn lit_validate_body_prefix() -> Seq<u8> {
    seq![0x7bu8, 0x22u8, 0x61u8, 0x63u8, 0x63u8, 0x65u8, 0x73u8, 0x73u8, 0x54u8, 0x6fu8, 0x6bu8, 0x65u8, 0x6eu8, 0x22u8, 0x3au8, 0x22u8]
}

/// The same text as a byte vector.
pub fn validate_body_prefix_bytes() -> (r: Vec<u8>)
    ensures
        r@ == lit_validate_body_prefix(),
{
    let r: Vec<u8> = vec![0x7b, 0x22, 0x61, 0x63, 0x63, 0x65, 0x73, 0x73, 0x54, 0x6f, 0x6b, 0x65, 0x6e, 0x22, 0x3a, 0x22];
    proof {
        assert(r@ =~= lit_validate_body_prefix());
    }
    r
}

/// The text `"}`.
pub open spec fn lit_validate_body_suffix() -> Seq<u8> {
    seq![0x22u8, 0x7du8]
}

/// The same text as a byte vector.
pub fn validate_body_suffix_bytes() -> (r: Vec<u8>)
    ensures
        r@ == lit_validate_body_suffix(),
{
    let r: Vec<u8> = vec![0x22, 0x7d];
    proof {
        assert(r@ =~= lit_validate_body_suffix());
    }
    r
}

/// The body of a token-validation request.
pub open spec fn spec_validate_body(token: Seq<u8>) -> Seq<u8> {
    lit_validate_body_prefix() + token + lit_validate_body_suffix()
}

/// Builds the token-validation request body.
pub fn validate_request_body(token: &Vec<u8>) -> (r: Vec<u8>)
    ensures
        r@ == spec_validate_body(token@),
{
    let mut out = validate_body_prefix_bytes();
    push_bytes(&mut out, token);
    let suffix = validate_body_suffix_bytes();
    push_bytes(&mut out, &suffix);
    proof {
        assert(out@ =~= spec_validate_body(token@));
    }
    out
}

/// What a validation response means: the token is valid exactly when
/// the service answered with status 204.
pub fn validation_accepted(status: u16) -> (r: bool)
    ensures
        r == (status == 204),
{
    status == 204
}

} // verus!
