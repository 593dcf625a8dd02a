use proton_launcher::auth::{
    auth_start, auth_step, authorize_url_bytes, bearer_header, minecraft_request_body,
    parse_minecraft_response, parse_profile, parse_profile_response, parse_token_response,
    parse_xbl_response, parse_xsts_response, refresh_request_url, serialize_profile,
    token_request_url, validate_request_body, validation_accepted, xbl_request_body,
    xsts_request_body, AuthState, Profile,
};
use proton_launcher::error::ProtocolError;

fn b(s: &str) -> Vec<u8> {
    s.as_bytes().to_vec()
}

#[test]
fn token_urls_embed_the_credential() {
    assert_eq!(
        String::from_utf8(token_request_url(&b("CODE"))).unwrap(),
        "https://login.live.com/oauth20_token.srf?client_id=00000000402b5328&code=CODE&grant_type=authorization_code&redirect_uri=https://login.live.com/oauth20_desktop.srf"
    );
    assert_eq!(
        String::from_utf8(refresh_request_url(&b("REF"))).unwrap(),
        "https://login.live.com/oauth20_token.srf?client_id=00000000402b5328&refresh_token=REF&grant_type=refresh_token&redirect_uri=https://login.live.com/oauth20_desktop.srf"
    );
    assert!(String::from_utf8(authorize_url_bytes())
        .unwrap()
        .starts_with("https://login.live.com/oauth20_authorize.srf?client_id=00000000402b5328"));
}

#[test]
fn request_bodies_match_the_documented_shapes() {
    assert_eq!(
        String::from_utf8(xbl_request_body(&b("AT"))).unwrap(),
        "{\"Properties\":{\"AuthMethod\":\"RPS\",\"SiteName\":\"user.auth.xboxlive.com\",\"RpsTicket\":\"d=AT\"},\"RelyingParty\":\"http://auth.xboxlive.com\",\"TokenType\":\"JWT\"}"
    );
    assert_eq!(
        String::from_utf8(xsts_request_body(&b("XBL"))).unwrap(),
        "{\"Properties\":{\"SandboxId\":\"RETAIL\",\"UserTokens\":[\"XBL\"]},\"RelyingParty\":\"rp://api.minecraftservices.com/\",\"TokenType\":\"JWT\"}"
    );
    assert_eq!(
        String::from_utf8(minecraft_request_body(&b("HASH"), &b("XSTS"))).unwrap(),
        "{\"identityToken\":\"XBL3.0 x=HASH;XSTS\"}"
    );
    assert_eq!(
        String::from_utf8(bearer_header(&b("TOK"))).unwrap(),
        "Bearer TOK"
    );
}

#[test]
fn token_response_yields_both_tokens() {
    let r = parse_token_response(&b(
        "{\"token_type\":\"bearer\",\"access_token\":\"AT\",\"refresh_token\":\"RT\"}",
    ));
    assert_eq!(r.unwrap(), (b("AT"), b("RT")));
    assert!(parse_token_response(&b("{\"access_token\":\"AT\"}")).is_err());
    assert!(parse_token_response(&b("not json")).is_err());
}

#[test]
fn xbl_response_yields_the_token() {
    let r = parse_xbl_response(&b("{\"Token\":\"XBL\",\"IssueInstant\":\"now\"}"));
    assert_eq!(r.unwrap(), b("XBL"));
}

#[test]
fn xsts_success_yields_token_and_user_hash() {
    let r = parse_xsts_response(&b(
        "{\"Token\":\"XSTS\",\"DisplayClaims\":{\"xui\":[{\"uhs\":\"HASH\"}]}}",
    ));
    assert_eq!(r.unwrap(), (b("XSTS"), b("HASH")));
}

#[test]
fn xsts_no_xbox_account_code_is_distinct() {
    let r = parse_xsts_response(&b("{\"XErr\":2148916233}"));
    assert_eq!(r, Err(ProtocolError::NoXboxAccount));
}

#[test]
fn xsts_child_account_code_is_distinct() {
    let r = parse_xsts_response(&b("{\"XErr\":2148916238}"));
    assert_eq!(r, Err(ProtocolError::ChildAccount));
}

#[test]
fn other_xsts_codes_carry_their_value() {
    let r = parse_xsts_response(&b("{\"XErr\":2148916235}"));
    assert_eq!(r, Err(ProtocolError::XstsError(2148916235)));
}

#[test]
fn minecraft_and_profile_responses_parse() {
    assert_eq!(
        parse_minecraft_response(&b("{\"access_token\":\"MC\"}")).unwrap(),
        b("MC")
    );
    assert_eq!(
        parse_profile_response(&b("{\"id\":\"uuid-1\",\"name\":\"alice\"}")).unwrap(),
        (b("uuid-1"), b("alice"))
    );
    assert!(parse_profile_response(&b("{\"id\":\"u\"}")).is_err());
}

#[test]
fn profile_round_trips_through_its_json_form() {
    let p = Profile {
        token: b("tok\"quoted\""),
        refresh: b("ref\\slash"),
        uuid: b("uuid-1"),
        username: b("alice"),
    };
    let text = serialize_profile(&p);
    let back = parse_profile(&text).unwrap();
    assert_eq!(back, p);
    // any profile text emitted here re-serializes byte for byte
    assert_eq!(serialize_profile(&back), text);
}

#[test]
fn profile_text_has_the_expected_shape() {
    let p = Profile {
        token: b("t"),
        refresh: b("r"),
        uuid: b("u"),
        username: b("n"),
    };
    assert_eq!(
        String::from_utf8(serialize_profile(&p)).unwrap(),
        "{\"token\":\"t\",\"refresh\":\"r\",\"uuid\":\"u\",\"username\":\"n\"}"
    );
}

#[test]
fn state_machine_walks_the_whole_pipeline() {
    let (state, call) = auth_start(&b("CODE"));
    assert!(call.post);
    assert!(String::from_utf8_lossy(&call.url).contains("code=CODE"));

    let (state, call) = auth_step(
        state,
        &b("{\"access_token\":\"AT\",\"refresh_token\":\"RT\"}"),
    )
    .unwrap();
    let call = call.unwrap();
    assert!(call.post);
    assert!(String::from_utf8_lossy(&call.url).contains("user.auth.xboxlive.com"));
    assert!(String::from_utf8_lossy(call.body.as_ref().unwrap()).contains("d=AT"));

    let (state, call) = auth_step(state, &b("{\"Token\":\"XBL\"}")).unwrap();
    let call = call.unwrap();
    assert!(String::from_utf8_lossy(&call.url).contains("xsts.auth.xboxlive.com"));
    assert!(String::from_utf8_lossy(call.body.as_ref().unwrap()).contains("XBL"));

    let (state, call) = auth_step(
        state,
        &b("{\"Token\":\"XSTS\",\"DisplayClaims\":{\"xui\":[{\"uhs\":\"HASH\"}]}}"),
    )
    .unwrap();
    let call = call.unwrap();
    assert!(String::from_utf8_lossy(&call.url).contains("login_with_xbox"));
    assert!(String::from_utf8_lossy(call.body.as_ref().unwrap()).contains("XBL3.0 x=HASH;XSTS"));

    let (state, call) = auth_step(state, &b("{\"access_token\":\"MC\"}")).unwrap();
    let call = call.unwrap();
    assert!(!call.post);
    assert_eq!(call.bearer.as_ref().unwrap(), &b("Bearer MC"));

    let (state, call) = auth_step(state, &b("{\"id\":\"uuid-1\",\"name\":\"alice\"}")).unwrap();
    assert!(call.is_none());
    match state {
        AuthState::Done(profile) => {
            assert_eq!(profile.token, b("MC"));
            assert_eq!(profile.refresh, b("RT"));
            assert_eq!(profile.uuid, b("uuid-1"));
            assert_eq!(profile.username, b("alice"));
        }
        other => panic!("pipeline should be finished, found {other:?}"),
    }
}

#[test]
fn state_machine_surfaces_xsts_errors() {
    let (state, _) = auth_start(&b("CODE"));
    let (state, _) = auth_step(
        state,
        &b("{\"access_token\":\"AT\",\"refresh_token\":\"RT\"}"),
    )
    .unwrap();
    let (state, _) = auth_step(state, &b("{\"Token\":\"XBL\"}")).unwrap();
    let r = auth_step(state, &b("{\"XErr\":2148916233}"));
    assert_eq!(r.unwrap_err(), ProtocolError::NoXboxAccount);
}

#[test]
fn validation_checks_the_no_content_status() {
    assert_eq!(
        String::from_utf8(validate_request_body(&b("TOK"))).unwrap(),
        "{\"accessToken\":\"TOK\"}"
    );
    assert!(validation_accepted(204));
    assert!(!validation_accepted(200));
    assert!(!validation_accepted(403));
}
