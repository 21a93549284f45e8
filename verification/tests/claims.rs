use account_sessions::claims::payload_from_access_token;
use account_sessions::claims::profile_from_claims;
use account_sessions::claims::AccessTokenClaims;
use account_sessions::claims::AccessTokenProfileClaims;
use base64::Engine;

fn payload(token: &str) -> Option<Vec<u8>> {
    payload_from_access_token(&token.to_string())
}

fn claims(
    name: Option<&str>,
    picture: Option<&str>,
    image: Option<&str>,
) -> Option<AccessTokenClaims> {
    Some(AccessTokenClaims {
        profile: AccessTokenProfileClaims {
            image: image.map(str::to_string),
            name: name.map(str::to_string),
            picture: picture.map(str::to_string),
        },
    })
}

#[test]
fn the_second_part_of_a_token_is_decoded() {
    assert_eq!(payload("head.eyJhIjoxfQ.tail"), Some(b"{\"a\":1}".to_vec()));
    assert_eq!(payload("head.eyJhIjoxfQ"), Some(b"{\"a\":1}".to_vec()));
    assert_eq!(payload(".eyJhIjoxfQ.a.b.c"), Some(b"{\"a\":1}".to_vec()));
}

#[test]
fn the_url_safe_alphabet_is_read() {
    assert_eq!(payload("x.-_8.y"), Some(vec![0xfb, 0xff]));
    assert_eq!(payload("x.-_-_.y"), Some(vec![0xfb, 0xff, 0xbf]));
    assert_eq!(payload("x.+_8.y"), None);
    assert_eq!(payload("x.-/8.y"), None);
}

#[test]
fn every_length_of_payload_is_read() {
    assert_eq!(payload("x.."), Some(vec![]));
    assert_eq!(payload("x."), Some(vec![]));
    assert_eq!(payload("x.AA"), Some(vec![0]));
    assert_eq!(payload("x.AAA"), Some(vec![0, 0]));
    assert_eq!(payload("x.AAAA"), Some(vec![0, 0, 0]));
    assert_eq!(payload("x.AAAAAA"), Some(vec![0, 0, 0, 0]));
}

#[test]
fn tokens_without_a_readable_payload_have_none() {
    assert_eq!(payload(""), None);
    assert_eq!(payload("first-access-token"), None);
    assert_eq!(payload("x.A.y"), None);
    assert_eq!(payload("x.AAAAA.y"), None);
    assert_eq!(payload("x.AA==.y"), None);
    assert_eq!(payload("x.A A.y"), None);
    assert_eq!(payload("x.\u{e9}\u{e9}.y"), None);
}

#[test]
fn unused_bits_must_be_clear() {
    assert_eq!(payload("x.-_8"), Some(vec![0xfb, 0xff]));
    assert_eq!(payload("x.-_9"), None);
    assert_eq!(payload("x.AB"), None);
}

#[test]
fn decoding_gives_back_what_was_encoded() {
    for length in 0..70 {
        let bytes: Vec<u8> = (0..length).map(|i| (i * 37 + length) as u8).collect();
        let text = base64::engine::general_purpose::URL_SAFE_NO_PAD.encode(&bytes);
        assert_eq!(payload(&format!("head.{text}.tail")), Some(bytes));
    }
}

#[test]
fn the_picture_comes_before_the_image() {
    assert_eq!(
        profile_from_claims(claims(Some("Ada"), Some("picture"), Some("image"))),
        (Some("Ada".to_string()), Some("picture".to_string()))
    );
    assert_eq!(
        profile_from_claims(claims(None, None, Some("image"))),
        (None, Some("image".to_string()))
    );
    assert_eq!(
        profile_from_claims(claims(Some("Ada"), None, None)),
        (Some("Ada".to_string()), None)
    );
}

#[test]
fn unreadable_claims_give_no_profile() {
    assert_eq!(profile_from_claims(None), (None, None));
}

#[test]
fn only_the_second_part_of_a_token_matters() {
    let expected = Some(b"{\"a\":1}".to_vec());
    for token in [
        ".eyJhIjoxfQ",
        "a.eyJhIjoxfQ.",
        "b b.eyJhIjoxfQ.c.d",
        "\u{e9}\u{20ac}\u{1f600}.eyJhIjoxfQ.\u{e9}",
    ] {
        assert_eq!(payload(token), expected);
    }
}
