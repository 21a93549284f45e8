//! What an access token says of its holder's profile.

use base64::Engine;
use vstd::prelude::*;
use vstd::utf8::encode_scalar;
use vstd::utf8::encode_utf8;

verus! {

/// The claims of an access token that are of interest here.
#[derive(Debug, PartialEq, Eq)]
pub struct AccessTokenClaims {
    pub profile: AccessTokenProfileClaims,
}

/// The profile claims of an access token.
#[derive(Debug, PartialEq, Eq)]
pub struct AccessTokenProfileClaims {
    pub image: Option<String>,
    pub name: Option<String>,
    pub picture: Option<String>,
}

#[verifier::ext_equal]
pub struct ClaimsView {
    pub image: Option<Seq<char>>,
    pub name: Option<Seq<char>>,
    pub picture: Option<Seq<char>>,
}

impl View for AccessTokenClaims {
    type V = ClaimsView;

    open spec fn view(&self) -> ClaimsView {
        ClaimsView {
            image: self.profile.image.deep_view(),
            name: self.profile.name.deep_view(),
            picture: self.profile.picture.deep_view(),
        }
    }
}

impl DeepView for AccessTokenClaims {
    type V = ClaimsView;

    open spec fn deep_view(&self) -> ClaimsView {
        self@
    }
}

/// A display name and the address of an image, as far as they are known.
#[verifier::ext_equal]
pub struct ProfileView {
    pub display_name: Option<Seq<char>>,
    pub image_url: Option<Seq<char>>,
}

/// The profile that claims give: the name, and the picture or else the image. Claims that could
/// not be read give neither.
pub open spec fn profile_of(claims: Option<ClaimsView>) -> ProfileView {
    match claims {
        Some(claims) => ProfileView {
            display_name: claims.name,
            image_url: if claims.picture is Some {
                claims.picture
            } else {
                claims.image
            },
        },
        None => ProfileView { display_name: None, image_url: None },
    }
}

/// The display name and the image address that claims give.
pub fn profile_from_claims(claims: Option<AccessTokenClaims>) -> (profile: (
    Option<String>,
    Option<String>,
))
    ensures
        profile.0.deep_view() == profile_of(claims.deep_view()).display_name,
        profile.1.deep_view() == profile_of(claims.deep_view()).image_url,
{
    match claims {
        Some(claims) => {
            let image_url = match claims.profile.picture {
                Some(picture) => Some(picture),
                None => claims.profile.image,
            };
            (claims.profile.name, image_url)
        },
        None => (None, None),
    }
}

/// The byte that separates the parts of a token.
pub const DOT: u8 = 46;

/// The second of the parts that dots separate: what stands between the first dot and the next,
/// or the end where there is no other dot.
pub open spec fn payload_segment(token: Seq<u8>) -> Option<Seq<u8>> {
    match token.index_of_first(DOT) {
        Some(dot) => {
            let rest = token.skip(dot + 1);
            match rest.index_of_first(DOT) {
                Some(end) => Some(rest.take(end)),
                None => Some(rest),
            }
        },
        None => None,
    }
}

/// The symbol for a value below 64 in the alphabet `A-Z`, `a-z`, `0-9`, `-`, `_`.
pub open spec fn url_symbol(value: int) -> int {
    if value < 26 {
        65 + value
    } else if value < 52 {
        97 + (value - 26)
    } else if value < 62 {
        48 + (value - 52)
    } else if value == 62 {
        45
    } else {
        95
    }
}

/// The byte at an index, or zero past the end.
pub open spec fn octet(bytes: Seq<u8>, i: int) -> int {
    if i < bytes.len() {
        bytes[i] as int
    } else {
        0
    }
}

/// The `k`-th group of six bits of a byte sequence, most significant bits first, filled up with
/// zero bits at the end.
pub open spec fn sextet(bytes: Seq<u8>, k: int) -> int {
    let first = 3 * (k / 4);
    if k % 4 == 0 {
        octet(bytes, first) / 4
    } else if k % 4 == 1 {
        (octet(bytes, first) % 4) * 16 + octet(bytes, first + 1) / 16
    } else if k % 4 == 2 {
        (octet(bytes, first + 1) % 16) * 4 + octet(bytes, first + 2) / 64
    } else {
        octet(bytes, first + 2) % 64
    }
}

/// The URL-safe base64 text of a byte sequence, without padding.
pub open spec fn base64_url(bytes: Seq<u8>) -> Seq<u8> {
    Seq::new((bytes.len() * 4 + 2) / 3, |k: int| url_symbol(sextet(bytes, k)) as u8)
}

/// The bytes whose URL-safe base64 text, without padding, is the one given.
pub open spec fn base64_url_decoded(text: Seq<u8>) -> Option<Seq<u8>> {
    if exists|bytes: Seq<u8>| #[trigger] base64_url(bytes) == text {
        Some(choose|bytes: Seq<u8>| #[trigger] base64_url(bytes) == text)
    } else {
        None
    }
}

/// The bytes that the payload of a token encodes, if it has one and it is well encoded.
pub open spec fn token_payload(access_token: Seq<char>) -> Option<Seq<u8>> {
    match payload_segment(encode_utf8(access_token)) {
        Some(segment) => base64_url_decoded(segment),
        None => None,
    }
}

/// Calls `decode` of base64's `URL_SAFE_NO_PAD` engine and drops the error's cause. Claimed of it:
/// it succeeds exactly on the texts that the engine's own encoding produces, and gives back the
/// bytes they encode. Padding, a foreign symbol and unused bits that are set are errors.
#[verifier::external_body]
fn decode_base64_url(text: &Vec<u8>) -> (bytes: Option<Vec<u8>>)
    ensures
        bytes.deep_view() == base64_url_decoded(text@),
{
    base64::engine::general_purpose::URL_SAFE_NO_PAD.decode(text).ok()
}

/// Two values below 64 with the same symbol are the same.
proof fn url_symbol_is_injective(a: int, b: int)
    requires
        0 <= a < 64,
        0 <= b < 64,
        url_symbol(a) as u8 == url_symbol(b) as u8,
    ensures
        a == b,
{
}

/// A base64 text determines the bytes it encodes.
pub proof fn base64_url_is_injective(a: Seq<u8>, b: Seq<u8>)
    requires
        base64_url(a) == base64_url(b),
    ensures
        a == b,
{
    assert(base64_url(a).len() == (a.len() * 4 + 2) / 3);
    assert(base64_url(b).len() == (b.len() * 4 + 2) / 3);
    assert(a.len() == b.len());
    assert forall|k: int| 0 <= k < base64_url(a).len() implies #[trigger] sextet(a, k) == sextet(
        b,
        k,
    ) by {
        assert(base64_url(a)[k] == url_symbol(sextet(a, k)) as u8);
        assert(base64_url(b)[k] == url_symbol(sextet(b, k)) as u8);
        url_symbol_is_injective(sextet(a, k), sextet(b, k));
    }
    assert forall|i: int| 0 <= i < a.len() implies a[i] == b[i] by {
        let k = 4 * (i / 3) + i % 3;
        assert(k + 1 < base64_url(a).len());
        assert(sextet(a, k) == sextet(b, k));
        assert(sextet(a, k + 1) == sextet(b, k + 1));
    }
    assert(a =~= b);
}

/// What a token's payload encodes is what decoding gives back.
pub proof fn base64_url_round_trip(bytes: Seq<u8>)
    ensures
        base64_url_decoded(base64_url(bytes)) == Some(bytes),
{
    let text = base64_url(bytes);
    let decoded = choose|bytes: Seq<u8>| #[trigger] base64_url(bytes) == text;
    base64_url_is_injective(decoded, bytes);
}

/// The bytes of a text are those of its parts.
proof fn bytes_of_parts(a: Seq<char>, b: Seq<char>)
    ensures
        encode_utf8(a + b) == encode_utf8(a) + encode_utf8(b),
    decreases a.len(),
{
    if a.len() == 0 {
        assert(a + b =~= b);
        assert(encode_utf8(a) + encode_utf8(b) =~= encode_utf8(b));
    } else {
        assert((a + b).drop_first() =~= a.drop_first() + b);
        bytes_of_parts(a.drop_first(), b);
        assert(encode_utf8(a + b) =~= encode_utf8(a) + encode_utf8(b));
    }
}

/// Only the dot has the byte that separates the parts of a token.
proof fn only_dots_separate(c: char)
    ensures
        c == '.' ==> encode_scalar(c as u32) == seq![DOT],
        c != '.' ==> !encode_scalar(c as u32).contains(DOT),
{
    let s = c as u32;
    assert(s <= 0x7F ==> (s & 0x7F) as u8 == s as u8) by (bit_vector);
    assert(0xC0u8 | ((s >> 6) & 0x1F) as u8 >= 0x80) by (bit_vector);
    assert(0xE0u8 | ((s >> 12) & 0x0F) as u8 >= 0x80) by (bit_vector);
    assert(0xF0u8 | ((s >> 18) & 0x7) as u8 >= 0x80) by (bit_vector);
    assert(0x80u8 | (s & 0x3F) as u8 >= 0x80) by (bit_vector);
    assert(0x80u8 | ((s >> 6) & 0x3F) as u8 >= 0x80) by (bit_vector);
    assert(0x80u8 | ((s >> 12) & 0x3F) as u8 >= 0x80) by (bit_vector);
}

/// A text without a dot has no byte that separates parts.
proof fn bytes_without_dots(text: Seq<char>)
    requires
        !text.contains('.'),
    ensures
        !encode_utf8(text).contains(DOT),
    decreases text.len(),
{
    if text.len() > 0 {
        let (head, rest) = (encode_scalar(text[0] as u32), text.drop_first());
        assert(text.contains(text[0]));
        only_dots_separate(text[0]);
        assert(!rest.contains('.')) by {
            if rest.contains('.') {
                let i = choose|i: int| 0 <= i < rest.len() && rest[i] == '.';
                assert(text[i + 1] == '.');
            }
        }
        bytes_without_dots(rest);
        let bytes = encode_utf8(text);
        assert forall|i: int| 0 <= i < bytes.len() implies bytes[i] != DOT by {
            if i < head.len() {
                assert(bytes[i] == head[i]);
            } else {
                assert(bytes[i] == encode_utf8(rest)[i - head.len()]);
            }
        }
    }
}

/// The first dot is where it stands behind bytes without one.
proof fn first_dot_is(bytes: Seq<u8>, at: int)
    requires
        0 <= at < bytes.len(),
        bytes[at] == DOT,
        forall|i: int| 0 <= i < at ==> bytes[i] != DOT,
    ensures
        bytes.index_of_first(DOT) == Some(at),
{
    assert(bytes.contains(DOT));
    bytes.index_of_first_ensures(DOT);
}

/// Only the second part of a token matters to its payload, and a token without a dot has none.
pub proof fn only_the_second_part_matters(head: Seq<char>, part: Seq<char>, tail: Seq<char>)
    requires
        !head.contains('.'),
        !part.contains('.'),
        tail.len() == 0 || tail[0] == '.',
    ensures
        token_payload(head + seq!['.'] + part + tail) == base64_url_decoded(encode_utf8(part)),
        token_payload(head) is None,
{
    let (a, b, c) = (encode_utf8(head), encode_utf8(part), encode_utf8(tail));
    let dot = seq!['.'];
    bytes_without_dots(head);
    bytes_without_dots(part);
    only_dots_separate('.');
    bytes_of_parts(head + dot + part, tail);
    bytes_of_parts(head + dot, part);
    bytes_of_parts(head, dot);
    assert(encode_utf8(dot) =~= seq![DOT]) by {
        assert(dot.drop_first() =~= Seq::empty());
        assert(encode_utf8(dot.drop_first()) =~= Seq::empty());
    }
    let bytes = encode_utf8(head + dot + part + tail);
    assert(bytes =~= a + seq![DOT] + b + c);
    assert forall|i: int| 0 <= i < a.len() implies bytes[i] != DOT by {
        assert(a.contains(a[i]));
    }
    first_dot_is(bytes, a.len() as int);
    let rest = bytes.skip(a.len() as int + 1);
    assert(rest =~= b + c);
    assert forall|i: int| 0 <= i < b.len() implies rest[i] != DOT by {
        assert(b.contains(b[i]));
    }
    if tail.len() == 0 {
        assert(rest =~= b);
        rest.index_of_first_ensures(DOT);
    } else {
        only_dots_separate(tail[0]);
        assert(c[0] == DOT);
        first_dot_is(rest, b.len() as int);
        assert(rest.take(b.len() as int) =~= b);
    }
    a.index_of_first_ensures(DOT);
}

/// The index of the first dot at or after `from`, or the length.
fn next_dot(bytes: &[u8], from: usize) -> (at: usize)
    requires
        from <= bytes@.len(),
    ensures
        from <= at <= bytes@.len(),
        at < bytes@.len() ==> bytes@[at as int] == DOT,
        forall|i: int| from <= i < at ==> bytes@[i] != DOT,
{
    let mut at: usize = from;
    while at < bytes.len() && bytes[at] != DOT
        invariant
            from <= at <= bytes@.len(),
            forall|i: int| from <= i < at ==> bytes@[i] != DOT,
        decreases bytes@.len() - at,
    {
        at = at + 1;
    }
    at
}

/// The bytes from `start` up to `end`.
fn copy_range(bytes: &[u8], start: usize, end: usize) -> (copy: Vec<u8>)
    requires
        start <= end <= bytes@.len(),
    ensures
        copy@ == bytes@.subrange(start as int, end as int),
{
    let mut copy: Vec<u8> = Vec::new();
    let mut i: usize = start;
    while i < end
        invariant
            start <= i <= end <= bytes@.len(),
            copy@ == bytes@.subrange(start as int, i as int),
        decreases end - i,
    {
        copy.push(bytes[i]);
        i = i + 1;
        assert(copy@ =~= bytes@.subrange(start as int, i as int));
    }
    copy
}

/// The bytes that the payload of a token encodes, if it has one and it is well encoded.
pub fn payload_from_access_token(access_token: &String) -> (payload: Option<Vec<u8>>)
    ensures
        payload.deep_view() == token_payload(access_token@),
{
    let bytes = access_token.as_str().as_bytes();
    proof {
        bytes@.index_of_first_ensures(DOT);
    }
    let dot: usize = next_dot(bytes, 0);
    if dot >= bytes.len() {
        assert(!bytes@.contains(DOT));
        return None;
    }
    let end: usize = next_dot(bytes, dot + 1);
    let segment = copy_range(bytes, dot + 1, end);
    proof {
        assert(bytes@.contains(DOT)) by {
            assert(bytes@[dot as int] == DOT);
        }
        let rest = bytes@.skip(dot + 1);
        rest.index_of_first_ensures(DOT);
        if end < bytes@.len() {
            assert(rest[end - dot - 1] == DOT);
            assert(rest.contains(DOT));
            assert(forall|i: int| 0 <= i < end - dot - 1 ==> rest[i] != DOT);
            assert(segment@ =~= rest.take(end - dot - 1));
        } else {
            assert(forall|i: int| 0 <= i < rest.len() ==> rest[i] != DOT);
            assert(!rest.contains(DOT));
            assert(segment@ =~= rest);
        }
        assert(payload_segment(bytes@) == Some(segment@));
    }
    decode_base64_url(&segment)
}

} // verus!
