//! Authentication rules: where a session token or an API key is found in a
//! request, how keys and tokens are made and stored, password hashing, and
//! the checks the account operations apply before touching the store.

use vstd::prelude::*;

use crate::text::{
    chars_of, push_char, lemma_split_on_extends, lemma_split_on_nonempty, push_chars, push_str, slice_chars,
    split_on,
    starts_with_chars, str_equals, string_from_chars, trim, trim_chars,
};

verus! {

/// Hours a session stays valid after its last use.
pub const TOKEN_EXPIRY_HOURS: i64 = 24;

// ---------------------------------------------------------------------
// Finding credentials in a request
// ---------------------------------------------------------------------

/// `str::strip_prefix`.
pub open spec fn strip_prefix(s: Seq<char>, p: Seq<char>) -> Option<Seq<char>> {
    if p.len() <= s.len() && s.take(p.len() as int) == p {
        Some(s.skip(p.len() as int))
    } else {
        None
    }
}

fn strip_prefix_chars(s: &[char], p: &[char]) -> (res: Option<Vec<char>>)
    ensures
        match res {
            Some(v) => strip_prefix(s@, p@) == Some(v@),
            None => strip_prefix(s@, p@) is None,
        },
{
    if starts_with_chars(s, p) {
        let v = slice_chars(s, p.len(), s.len());
        proof {
            assert(v@ =~= s@.skip(p@.len() as int));
        }
        Some(v)
    } else {
        None
    }
}

pub open spec fn bearer_prefix() -> Seq<char> {
    seq!['B', 'e', 'a', 'r', 'e', 'r', ' ']
}

pub open spec fn token_cookie_prefix() -> Seq<char> {
    seq!['p', 'p', '_', 't', 'o', 'k', 'e', 'n', '=']
}

/// The value of the first `pp_token=` cookie among `;`-separated pieces
/// (each piece trimmed).
pub open spec fn token_cookie(pieces: Seq<Seq<char>>) -> Option<Seq<char>>
    decreases pieces.len(),
{
    if pieces.len() == 0 {
        None
    } else {
        match strip_prefix(trim(pieces[0]), token_cookie_prefix()) {
            Some(v) => Some(v),
            None => token_cookie(pieces.drop_first()),
        }
    }
}

pub proof fn lemma_token_cookie_push(a: Seq<Seq<char>>, p: Seq<char>)
    ensures
        token_cookie(a.push(p)) == match token_cookie(a) {
            Some(v) => Some(v),
            None => strip_prefix(trim(p), token_cookie_prefix()),
        },
    decreases a.len(),
{
    if a.len() == 0 {
        assert(a.push(p).drop_first() =~= Seq::<Seq<char>>::empty());
    } else {
        assert(a.push(p).drop_first() =~= a.drop_first().push(p));
        lemma_token_cookie_push(a.drop_first(), p);
    }
}

/// The session token carried by a `Cookie` header.
pub open spec fn cookie_token(cookie: Seq<char>) -> Option<Seq<char>> {
    token_cookie(split_on(cookie, ';'))
}

/// The session token of the `pp_token` cookie, if the `Cookie` header has one.
pub fn token_from_cookie(cookie: &str) -> (res: Option<String>)
    ensures
        match res {
            Some(t) => cookie_token(cookie@) == Some(t@),
            None => cookie_token(cookie@) is None,
        },
{
    let cs = chars_of(cookie);
    let prefix: Vec<char> = vec!['p', 'p', '_', 't', 'o', 'k', 'e', 'n', '='];
    proof {
        assert(prefix@ =~= token_cookie_prefix());
    }
    let mut piece: Vec<char> = Vec::new();
    let ghost mut done: Seq<Seq<char>> = Seq::empty();
    let mut i: usize = 0;
    proof {
        assert(cs@.take(0) =~= Seq::<char>::empty());
        assert(split_on(Seq::<char>::empty(), ';') =~= done.push(piece@));
    }
    while i < cs.len()
        invariant
            i <= cs@.len(),
            cs@ == cookie@,
            prefix@ == token_cookie_prefix(),
            split_on(cs@.take(i as int), ';') == done.push(piece@),
            token_cookie(done) is None,
        decreases cs@.len() - i,
    {
        let c = cs[i];
        proof {
            assert(cs@.take(i + 1).drop_last() =~= cs@.take(i as int));
            assert(cs@.take(i + 1).last() == c);
        }
        if c == ';' {
            let trimmed = trim_chars(piece.as_slice());
            let found = strip_prefix_chars(trimmed.as_slice(), prefix.as_slice());
            proof {
                lemma_token_cookie_push(done, piece@);
            }
            match found {
                Some(v) => {
                    proof {
                        let a = done.push(piece@);
                        lemma_split_on_extends(cs@, i as int, ';');
                        assert(split_on(cs@.take(i + 1), ';') == a.push(Seq::<char>::empty()));
                        assert forall|j: int| 0 <= j < a.len() implies split_on(cs@, ';')[j]
                            == a[j] by {
                            assert(split_on(cs@.take(i + 1), ';')[j] == a[j]);
                        }
                        lemma_token_cookie_prefix(a, split_on(cs@, ';'));
                    }
                    return Some(string_from_chars(v.as_slice()));
                },
                None => {},
            }
            proof {
                assert(done.push(piece@).push(Seq::<char>::empty()).drop_last() =~= done.push(
                    piece@,
                ));
                done = done.push(piece@);
            }
            piece = Vec::new();
        } else {
            let ghost old_piece = piece@;
            piece.push(c);
            proof {
                let rest = done.push(old_piece);
                assert(rest.last() == old_piece);
                assert(rest.update(rest.len() - 1, rest.last().push(c)) =~= done.push(piece@));
            }
        }
        i = i + 1;
    }
    proof {
        assert(cs@.take(i as int) =~= cs@);
        lemma_token_cookie_push(done, piece@);
    }
    let trimmed = trim_chars(piece.as_slice());
    match strip_prefix_chars(trimmed.as_slice(), prefix.as_slice()) {
        Some(v) => Some(string_from_chars(v.as_slice())),
        None => None,
    }
}

pub proof fn lemma_token_cookie_prefix(a: Seq<Seq<char>>, b: Seq<Seq<char>>)
    requires
        a.len() <= b.len(),
        forall|j: int| 0 <= j < a.len() ==> b[j] == a[j],
        token_cookie(a) is Some,
    ensures
        token_cookie(b) == token_cookie(a),
    decreases a.len(),
{
    if strip_prefix(trim(a[0]), token_cookie_prefix()) is None {
        assert forall|j: int| 0 <= j < a.drop_first().len() implies b.drop_first()[j]
            == a.drop_first()[j] by {
            assert(b[j + 1] == a[j + 1]);
        }
        lemma_token_cookie_prefix(a.drop_first(), b.drop_first());
    }
}

} // verus!

verus! {

/// The token of an `Authorization: Bearer <token>` header.
pub open spec fn bearer_token(authorization: Seq<char>) -> Option<Seq<char>> {
    strip_prefix(authorization, bearer_prefix())
}

pub open spec fn opt_text(o: Option<&str>) -> Option<Seq<char>> {
    match o {
        Some(s) => Some(s@),
        None => None,
    }
}

/// The session token of a request: the bearer token of the
/// `Authorization` header, else the `pp_token` cookie.
pub open spec fn request_token(
    authorization: Option<Seq<char>>,
    cookie: Option<Seq<char>>,
) -> Option<Seq<char>> {
    let bearer = match authorization {
        Some(a) => bearer_token(a),
        None => None,
    };
    match bearer {
        Some(t) => Some(t),
        None => match cookie {
            Some(c) => cookie_token(c),
            None => None,
        },
    }
}

/// The bearer token of an `Authorization` header value.
pub fn extract_bearer_token(authorization: Option<&str>) -> (res: Option<String>)
    ensures
        match res {
            Some(t) => authorization is Some && bearer_token(authorization.unwrap()@) == Some(t@),
            None => authorization is None || bearer_token(authorization.unwrap()@) is None,
        },
{
    match authorization {
        None => None,
        Some(a) => {
            let cs = chars_of(a);
            let prefix: Vec<char> = vec!['B', 'e', 'a', 'r', 'e', 'r', ' '];
            proof {
                assert(prefix@ =~= bearer_prefix());
            }
            match strip_prefix_chars(cs.as_slice(), prefix.as_slice()) {
                Some(t) => Some(string_from_chars(t.as_slice())),
                None => None,
            }
        },
    }
}

/// The session token of a request, from its `Authorization` and `Cookie`
/// header values (`None` for a header that is absent or not visible ASCII):
/// the bearer token first, the `pp_token` cookie as fallback.
pub fn extract_token(authorization: Option<&str>, cookie: Option<&str>) -> (res: Option<String>)
    ensures
        match res {
            Some(t) => request_token(opt_text(authorization), opt_text(cookie)) == Some(t@),
            None => request_token(opt_text(authorization), opt_text(cookie)) is None,
        },
{
    match extract_bearer_token(authorization) {
        Some(t) => Some(t),
        None => match cookie {
            Some(c) => token_from_cookie(c),
            None => None,
        },
    }
}

// ---------------------------------------------------------------------
// API keys in a request
// ---------------------------------------------------------------------

pub open spec fn api_key_prefix() -> Seq<char> {
    seq!['p', 'p', 'k', '_']
}

pub open spec fn api_key_param() -> Seq<char> {
    seq!['a', 'p', 'i', '_', 'k', 'e', 'y', '=']
}

/// What `urlencoding::decode` gives for a text (`None` when the decoded
/// bytes are not UTF-8).
pub uninterp spec fn url_decoded(text: Seq<char>) -> Option<Seq<char>>;

/// `urlencoding::decode`. The contract claims that the outcome is determined
/// by the text, and that a text without `%` decodes to itself (the crate
/// returns its input unchanged then).
#[verifier::external_body]
fn url_decode(text: &str) -> (res: Option<String>)
    ensures
        match res {
            Some(d) => url_decoded(text@) == Some(d@),
            None => url_decoded(text@) is None,
        },
        !text@.contains('%') ==> res is Some && res.unwrap()@ == text@,
{
    match urlencoding::decode(text) {
        Ok(d) => Some(d.into_owned()),
        Err(_) => None,
    }
}

/// An `api_key=` query parameter, percent-decoded (kept as is when it does
/// not decode), when the result is an API key.
pub open spec fn query_key(pair: Seq<char>) -> Option<Seq<char>> {
    match strip_prefix(pair, api_key_param()) {
        None => None,
        Some(raw) => {
            let decoded = match url_decoded(raw) {
                Some(d) => d,
                None => raw,
            };
            if strip_prefix(decoded, api_key_prefix()) is Some {
                Some(decoded)
            } else {
                None
            }
        },
    }
}

/// The first API key among `&`-separated query pairs.
pub open spec fn key_in_pairs(pairs: Seq<Seq<char>>) -> Option<Seq<char>>
    decreases pairs.len(),
{
    if pairs.len() == 0 {
        None
    } else {
        match query_key(pairs[0]) {
            Some(k) => Some(k),
            None => key_in_pairs(pairs.drop_first()),
        }
    }
}

pub proof fn lemma_key_in_pairs_push(a: Seq<Seq<char>>, p: Seq<char>)
    ensures
        key_in_pairs(a.push(p)) == match key_in_pairs(a) {
            Some(k) => Some(k),
            None => query_key(p),
        },
    decreases a.len(),
{
    if a.len() == 0 {
        assert(a.push(p).drop_first() =~= Seq::<Seq<char>>::empty());
    } else {
        assert(a.push(p).drop_first() =~= a.drop_first().push(p));
        lemma_key_in_pairs_push(a.drop_first(), p);
    }
}

pub proof fn lemma_key_in_pairs_prefix(a: Seq<Seq<char>>, b: Seq<Seq<char>>)
    requires
        a.len() <= b.len(),
        forall|j: int| 0 <= j < a.len() ==> b[j] == a[j],
        key_in_pairs(a) is Some,
    ensures
        key_in_pairs(b) == key_in_pairs(a),
    decreases a.len(),
{
    if query_key(a[0]) is None {
        assert forall|j: int| 0 <= j < a.drop_first().len() implies b.drop_first()[j]
            == a.drop_first()[j] by {
            assert(b[j + 1] == a[j + 1]);
        }
        lemma_key_in_pairs_prefix(a.drop_first(), b.drop_first());
    }
}

/// The API key of a request: the `X-API-Key` header when it is a key
/// (starts with `ppk_`), else the first `api_key=` query parameter that
/// decodes to a key.
pub open spec fn request_api_key(header: Option<Seq<char>>, query: Option<Seq<char>>) -> Option<
    Seq<char>,
> {
    let from_header = match header {
        Some(k) => if strip_prefix(k, api_key_prefix()) is Some {
            Some(k)
        } else {
            None
        },
        None => None,
    };
    match from_header {
        Some(k) => Some(k),
        None => match query {
            Some(q) => key_in_pairs(split_on(q, '&')),
            None => None,
        },
    }
}

fn query_key_of(pair: &Vec<char>) -> (res: Option<String>)
    ensures
        match res {
            Some(k) => query_key(pair@) == Some(k@),
            None => query_key(pair@) is None,
        },
{
    let param: Vec<char> = vec!['a', 'p', 'i', '_', 'k', 'e', 'y', '='];
    let key_prefix: Vec<char> = vec!['p', 'p', 'k', '_'];
    proof {
        assert(param@ =~= api_key_param());
        assert(key_prefix@ =~= api_key_prefix());
    }
    match strip_prefix_chars(pair.as_slice(), param.as_slice()) {
        None => None,
        Some(raw) => {
            let raw_text = string_from_chars(raw.as_slice());
            let decoded = match url_decode(raw_text.as_str()) {
                Some(d) => chars_of(d.as_str()),
                None => raw,
            };
            if starts_with_chars(decoded.as_slice(), key_prefix.as_slice()) {
                Some(string_from_chars(decoded.as_slice()))
            } else {
                None
            }
        },
    }
}

fn key_from_query(query: &str) -> (res: Option<String>)
    ensures
        match res {
            Some(k) => key_in_pairs(split_on(query@, '&')) == Some(k@),
            None => key_in_pairs(split_on(query@, '&')) is None,
        },
{
    let cs = chars_of(query);
    let mut piece: Vec<char> = Vec::new();
    let ghost mut done: Seq<Seq<char>> = Seq::empty();
    let mut i: usize = 0;
    proof {
        assert(cs@.take(0) =~= Seq::<char>::empty());
        assert(split_on(Seq::<char>::empty(), '&') =~= done.push(piece@));
    }
    while i < cs.len()
        invariant
            i <= cs@.len(),
            cs@ == query@,
            split_on(cs@.take(i as int), '&') == done.push(piece@),
            key_in_pairs(done) is None,
        decreases cs@.len() - i,
    {
        let c = cs[i];
        proof {
            assert(cs@.take(i + 1).drop_last() =~= cs@.take(i as int));
            assert(cs@.take(i + 1).last() == c);
        }
        if c == '&' {
            let found = query_key_of(&piece);
            proof {
                lemma_key_in_pairs_push(done, piece@);
            }
            match found {
                Some(k) => {
                    proof {
                        let a = done.push(piece@);
                        lemma_split_on_extends(cs@, i as int, '&');
                        assert(split_on(cs@.take(i + 1), '&') == a.push(Seq::<char>::empty()));
                        assert forall|j: int| 0 <= j < a.len() implies split_on(cs@, '&')[j]
                            == a[j] by {
                            assert(split_on(cs@.take(i + 1), '&')[j] == a[j]);
                        }
                        lemma_key_in_pairs_prefix(a, split_on(cs@, '&'));
                    }
                    return Some(k);
                },
                None => {},
            }
            proof {
                done = done.push(piece@);
            }
            piece = Vec::new();
        } else {
            let ghost old_piece = piece@;
            piece.push(c);
            proof {
                let rest = done.push(old_piece);
                assert(rest.last() == old_piece);
                assert(rest.update(rest.len() - 1, rest.last().push(c)) =~= done.push(piece@));
            }
        }
        i = i + 1;
    }
    proof {
        assert(cs@.take(i as int) =~= cs@);
        lemma_key_in_pairs_push(done, piece@);
    }
    query_key_of(&piece)
}

/// The API key of a request, from its `X-API-Key` header value and its
/// query string.
pub fn extract_api_key(header: Option<&str>, query: Option<&str>) -> (res: Option<String>)
    ensures
        match res {
            Some(k) => request_api_key(opt_text(header), opt_text(query)) == Some(k@),
            None => request_api_key(opt_text(header), opt_text(query)) is None,
        },
{
    let key_prefix: Vec<char> = vec!['p', 'p', 'k', '_'];
    proof {
        assert(key_prefix@ =~= api_key_prefix());
    }
    match header {
        Some(k) => {
            let cs = chars_of(k);
            if starts_with_chars(cs.as_slice(), key_prefix.as_slice()) {
                return Some(string_from_chars(cs.as_slice()));
            }
        },
        None => {},
    }
    match query {
        Some(q) => key_from_query(q),
        None => None,
    }
}

} // verus!

verus! {

// ---------------------------------------------------------------------
// Hashing and token material
// ---------------------------------------------------------------------

pub open spec fn hex_digit(n: nat) -> char {
    if n < 10 {
        ((n + 48) as u8) as char
    } else {
        ((n + 87) as u8) as char
    }
}

/// Lower-case hexadecimal text of bytes, two characters per byte.
pub open spec fn hex_lower(data: Seq<u8>) -> Seq<char>
    decreases data.len(),
{
    if data.len() == 0 {
        Seq::empty()
    } else {
        hex_lower(data.drop_last()) + seq![
            hex_digit((data.last() / 16) as nat),
            hex_digit((data.last() % 16) as nat),
        ]
    }
}

pub open spec fn is_hex_lower_char(c: char) -> bool {
    ('0' <= c && c <= '9') || ('a' <= c && c <= 'f')
}

pub proof fn lemma_hex_lower_shape(data: Seq<u8>)
    ensures
        hex_lower(data).len() == 2 * data.len(),
        forall|i: int| 0 <= i < hex_lower(data).len() ==> is_hex_lower_char(
            #[trigger] hex_lower(data)[i],
        ),
    decreases data.len(),
{
    if data.len() > 0 {
        lemma_hex_lower_shape(data.drop_last());
        let p = hex_lower(data.drop_last());
        let h = hex_lower(data);
        assert forall|i: int| 0 <= i < h.len() implies is_hex_lower_char(#[trigger] h[i]) by {
            if i < p.len() {
                assert(h[i] == p[i]);
            }
        }
    }
}

/// The SHA-256 digest of bytes.
pub uninterp spec fn sha256_of(data: Seq<u8>) -> Seq<u8>;

/// `sha2::Sha256::digest`. The contract claims that the digest is
/// determined by the input and is 32 bytes long.
#[verifier::external_body]
fn sha256_digest(data: &[u8]) -> (res: Vec<u8>)
    ensures
        res@ == sha256_of(data@),
        res@.len() == 32,
{
    <sha2::Sha256 as sha2::Digest>::digest(data).to_vec()
}

/// The hexadecimal digit of a number below 16, in lower case.
fn hex_char(n: u8) -> (c: char)
    requires
        n < 16,
    ensures
        c == hex_digit(n as nat),
{
    if n < 10 {
        (n + 48) as char
    } else {
        (n + 87) as char
    }
}

/// Lower-case hexadecimal text of bytes, two characters per byte, high
/// half first.
fn hex_encode(data: &[u8]) -> (res: String)
    ensures
        res@ == hex_lower(data@),
{
    let mut s = String::new();
    let mut i: usize = 0;
    while i < data.len()
        invariant
            i <= data@.len(),
            s@ == hex_lower(data@.take(i as int)),
        decreases data@.len() - i,
    {
        let b = data[i];
        push_char(&mut s, hex_char(b / 16));
        push_char(&mut s, hex_char(b % 16));
        proof {
            assert(data@.take(i + 1).drop_last() =~= data@.take(i as int));
            assert(data@.take(i + 1).last() == b);
        }
        i = i + 1;
    }
    proof {
        assert(data@.take(i as int) =~= data@);
    }
    s
}

/// Hex SHA-256 of the UTF-8 bytes of a text.
pub open spec fn text_digest(text: Seq<char>) -> Seq<char> {
    hex_lower(sha256_of(vstd::utf8::encode_utf8(text)))
}

/// The stored form of an API key: hex SHA-256 of the key.
pub fn hash_api_key(key: &str) -> (res: String)
    ensures
        res@ == text_digest(key@),
        res@.len() == 64,
{
    let digest = sha256_digest(key.as_bytes());
    let res = hex_encode(digest.as_slice());
    proof {
        lemma_hex_lower_shape(digest@);
    }
    res
}

/// `uuid::Uuid::new_v4` written as text: a random identifier. Nothing is
/// claimed of the text.
#[verifier::external_body]
fn random_uuid_text() -> (res: String) {
    uuid::Uuid::new_v4().to_string()
}

/// `chrono::Utc::now().timestamp_nanos_opt()`: the clock in nanoseconds.
/// Nothing is claimed of the reading.
#[verifier::external_body]
fn clock_nanos() -> (res: Option<i64>) {
    chrono::Utc::now().timestamp_nanos_opt()
}

/// A text of 64 lower-case hexadecimal characters.
pub open spec fn is_token_text(t: Seq<char>) -> bool {
    t.len() == 64 && forall|i: int| 0 <= i < t.len() ==> is_hex_lower_char(#[trigger] t[i])
}

/// The text a session token is the digest of: two identifiers and a
/// clock reading in nanoseconds, joined by `-`.
pub open spec fn token_seed(a: Seq<char>, b: Seq<char>, nanos: i64) -> Seq<char> {
    a + "-"@ + b + "-"@ + crate::text::signed_decimal_text(nanos as int)
}

/// The token made of two identifiers and a clock reading: the hex SHA-256
/// of `a-b-nanos`.
pub fn token_from_parts(a: &str, b: &str, nanos: i64) -> (res: String)
    ensures
        res@ == text_digest(token_seed(a@, b@, nanos)),
        is_token_text(res@),
{
    let mut seed = String::new();
    push_str(&mut seed, a);
    push_str(&mut seed, "-");
    push_str(&mut seed, b);
    push_str(&mut seed, "-");
    crate::text::push_i64_text(&mut seed, nanos);
    proof {
        reveal_strlit("-");
        assert(seed@ =~= token_seed(a@, b@, nanos));
    }
    let res = hash_api_key(seed.as_str());
    proof {
        lemma_hex_lower_shape(sha256_of(vstd::utf8::encode_utf8(seed@)));
    }
    res
}

/// A fresh session token: the token of two random identifiers
/// (`uuid::Uuid::new_v4`) and the clock in nanoseconds (0 when the clock
/// does not fit). Which identifiers and reading go in is not stated.
pub fn generate_token() -> (res: String)
    ensures
        is_token_text(res@),
        exists|a: Seq<char>, b: Seq<char>, nanos: i64|
            res@ == #[trigger] text_digest(token_seed(a, b, nanos)),
{
    let a = random_uuid_text();
    let b = random_uuid_text();
    let nanos = match clock_nanos() {
        Some(n) => n,
        None => 0,
    };
    token_from_parts(a.as_str(), b.as_str(), nanos)
}

/// Material of a new API key: the key shown once, its stored digest, and
/// the preview kept for listing.
pub struct NewApiKey {
    pub key: String,
    pub key_hash: String,
    pub preview: String,
}

/// `ppk_` followed by characters 4..12 of the key, `...`, and its last four.
pub open spec fn key_preview(key: Seq<char>) -> Seq<char> {
    api_key_prefix() + key.subrange(4, 12) + seq!['.', '.', '.'] + key.subrange(
        key.len() - 4,
        key.len() as int,
    )
}

/// The preview of an API key (`ppk_xxxxxxxx...xxxx`).
pub fn api_key_preview(key: &str) -> (res: String)
    requires
        key@.len() >= 12,
    ensures
        res@ == key_preview(key@),
{
    let cs = chars_of(key);
    let n = cs.len();
    let mut s = String::new();
    push_chars(&mut s, &['p', 'p', 'k', '_']);
    let middle = slice_chars(cs.as_slice(), 4, 12);
    push_chars(&mut s, middle.as_slice());
    push_chars(&mut s, &['.', '.', '.']);
    let tail = slice_chars(cs.as_slice(), n - 4, n);
    push_chars(&mut s, tail.as_slice());
    proof {
        assert(s@ =~= key_preview(key@));
    }
    s
}

/// The material of the API key `ppk_` + `token`: the key, its digest and
/// its preview.
pub fn api_key_from_token(token: &str) -> (res: NewApiKey)
    requires
        token@.len() >= 8,
    ensures
        res.key@ == api_key_prefix() + token@,
        res.key_hash@ == text_digest(res.key@),
        res.preview@ == key_preview(res.key@),
{
    let mut key = String::new();
    push_chars(&mut key, &['p', 'p', 'k', '_']);
    push_str(&mut key, token);
    proof {
        assert(key@ =~= api_key_prefix() + token@);
    }
    let key_hash = hash_api_key(key.as_str());
    let preview = api_key_preview(key.as_str());
    NewApiKey { key, key_hash, preview }
}

/// A new API key: `ppk_` followed by a fresh session token.
pub fn new_api_key() -> (res: NewApiKey)
    ensures
        res.key@.len() == 68,
        res.key@.take(4) == api_key_prefix(),
        is_token_text(res.key@.skip(4)),
        exists|a: Seq<char>, b: Seq<char>, nanos: i64|
            res.key@ == api_key_prefix() + #[trigger] text_digest(token_seed(a, b, nanos)),
        res.key_hash@ == text_digest(res.key@),
        res.preview@ == key_preview(res.key@),
{
    let token = generate_token();
    let res = api_key_from_token(token.as_str());
    proof {
        assert(res.key@.take(4) =~= api_key_prefix());
        assert(res.key@.skip(4) =~= token@);
    }
    res
}

pub open spec fn lifetime_hours(expires_in: Seq<char>) -> Option<i64> {
    if expires_in == "1h"@ {
        Some(1)
    } else if expires_in == "24h"@ {
        Some(24)
    } else if expires_in == "7d"@ {
        Some(168)
    } else if expires_in == "30d"@ {
        Some(720)
    } else if expires_in == "90d"@ {
        Some(2160)
    } else if expires_in == "365d"@ {
        Some(8760)
    } else {
        None
    }
}

/// Hours an API key stays valid for the chosen lifetime (`1h`, `24h`, `7d`,
/// `30d`, `90d`, `365d`); `None` (never expires) for no or another choice.
pub fn api_key_lifetime_hours(expires_in: Option<&str>) -> (res: Option<i64>)
    ensures
        res == match expires_in {
            Some(e) => lifetime_hours(e@),
            None => None,
        },
{
    let e = match expires_in {
        Some(e) => e,
        None => return None,
    };
    if str_equals(e, "1h") {
        Some(1)
    } else if str_equals(e, "24h") {
        Some(24)
    } else if str_equals(e, "7d") {
        Some(24 * 7)
    } else if str_equals(e, "30d") {
        Some(24 * 30)
    } else if str_equals(e, "90d") {
        Some(24 * 90)
    } else if str_equals(e, "365d") {
        Some(24 * 365)
    } else {
        None
    }
}

// ---------------------------------------------------------------------
// Passwords
// ---------------------------------------------------------------------

/// What `bcrypt::verify` answers for a password and a stored hash (`None`
/// when the hash cannot be read).
pub uninterp spec fn bcrypt_verdict(password: Seq<char>, hash: Seq<char>) -> Option<bool>;

/// `bcrypt::hash` at the default cost, with a random salt. The contract
/// claims that `bcrypt::verify` of the same password against the result
/// answers true: the result carries the cost and salt that `verify` reads
/// back and recomputes with. Nothing else is claimed of the text. The
/// call fails only when the OS random source cannot give the salt (the
/// default cost is allowed, and a password past 72 bytes is cut, not
/// refused); when that happens is not stated.
#[verifier::external_body]
fn bcrypt_hash(password: &str) -> (res: Option<String>)
    ensures
        res is Some ==> bcrypt_verdict(password@, res.unwrap()@) == Some(true),
{
    bcrypt::hash(password, bcrypt::DEFAULT_COST).ok()
}

/// `bcrypt::verify`. The contract claims that the answer is determined by
/// the password and the hash.
#[verifier::external_body]
fn bcrypt_verify(password: &str, hash: &str) -> (res: Option<bool>)
    ensures
        res == bcrypt_verdict(password@, hash@),
{
    bcrypt::verify(password, hash).ok()
}

/// The stored hash of a new password; `None` only when the OS random
/// source could not give a salt.
pub fn hash_password(password: &str) -> (res: Option<String>)
    ensures
        res is Some ==> bcrypt_verdict(password@, res.unwrap()@) == Some(true),
{
    bcrypt_hash(password)
}

/// Whether a password matches a stored hash; an unreadable hash matches
/// nothing.
pub fn password_matches(password: &str, hash: &str) -> (res: bool)
    ensures
        res == (bcrypt_verdict(password@, hash@) == Some(true)),
{
    match bcrypt_verify(password, hash) {
        Some(b) => b,
        None => false,
    }
}

} // verus!

verus! {

// ---------------------------------------------------------------------
// Account rules
// ---------------------------------------------------------------------

/// Why an account operation is refused.
#[derive(Debug, PartialEq, Eq, Structural, Clone, Copy)]
pub enum AuthFailure {
    SetupAlreadyCompleted,
    InvalidCredentials,
    InvalidRole,
    NewPasswordTooShort,
    PasswordTooShort,
    CurrentPasswordIncorrect,
    CannotDeleteSelf,
    LastAdminDeletion,
    LastAdminDemotion,
    InvalidThemeOrLanguage,
    InvalidTimezone,
    EmptyApiKeyName,
    AuthenticationRequired,
    InvalidSession,
    InvalidLogin,
    UserNotFound,
    DatabaseError,
}

pub open spec fn failure_message(f: AuthFailure) -> Seq<char> {
    match f {
        AuthFailure::SetupAlreadyCompleted => "Setup already completed"@,
        AuthFailure::InvalidCredentials => "Username cannot be empty and password must be at least 6 characters"@,
        AuthFailure::InvalidRole => "Role must be 'admin' or 'user'"@,
        AuthFailure::NewPasswordTooShort => "New password must be at least 6 characters"@,
        AuthFailure::PasswordTooShort => "Password must be at least 6 characters"@,
        AuthFailure::CurrentPasswordIncorrect => "Current password is incorrect"@,
        AuthFailure::CannotDeleteSelf => "Cannot delete your own account"@,
        AuthFailure::LastAdminDeletion => "Cannot delete the last admin user"@,
        AuthFailure::LastAdminDemotion => "Cannot demote the last admin user"@,
        AuthFailure::InvalidThemeOrLanguage => "Invalid theme or language value"@,
        AuthFailure::InvalidTimezone => "Invalid timezone value"@,
        AuthFailure::EmptyApiKeyName => "API key name cannot be empty"@,
        AuthFailure::AuthenticationRequired => "Authentication required"@,
        AuthFailure::InvalidSession => "Invalid session"@,
        AuthFailure::InvalidLogin => "Invalid username or password"@,
        AuthFailure::UserNotFound => "User not found"@,
        AuthFailure::DatabaseError => "Database error"@,
    }
}

pub open spec fn failure_status(f: AuthFailure) -> u16 {
    match f {
        AuthFailure::SetupAlreadyCompleted => 403,
        AuthFailure::InvalidLogin => 401,
        _ => 400,
    }
}

fn owned(s: &str) -> (res: String)
    ensures
        res@ == s@,
{
    let mut t = String::new();
    push_str(&mut t, s);
    proof {
        assert(t@ =~= s@);
    }
    t
}

impl AuthFailure {
    /// The message returned to the client.
    pub fn message(&self) -> (res: String)
        ensures
            res@ == failure_message(*self),
    {
        match self {
            AuthFailure::SetupAlreadyCompleted => owned("Setup already completed"),
            AuthFailure::InvalidCredentials => owned("Username cannot be empty and password must be at least 6 characters"),
            AuthFailure::InvalidRole => owned("Role must be 'admin' or 'user'"),
            AuthFailure::NewPasswordTooShort => owned("New password must be at least 6 characters"),
            AuthFailure::PasswordTooShort => owned("Password must be at least 6 characters"),
            AuthFailure::CurrentPasswordIncorrect => owned("Current password is incorrect"),
            AuthFailure::CannotDeleteSelf => owned("Cannot delete your own account"),
            AuthFailure::LastAdminDeletion => owned("Cannot delete the last admin user"),
            AuthFailure::LastAdminDemotion => owned("Cannot demote the last admin user"),
            AuthFailure::InvalidThemeOrLanguage => owned("Invalid theme or language value"),
            AuthFailure::InvalidTimezone => owned("Invalid timezone value"),
            AuthFailure::EmptyApiKeyName => owned("API key name cannot be empty"),
            AuthFailure::AuthenticationRequired => owned("Authentication required"),
            AuthFailure::InvalidSession => owned("Invalid session"),
            AuthFailure::InvalidLogin => owned("Invalid username or password"),
            AuthFailure::UserNotFound => owned("User not found"),
            AuthFailure::DatabaseError => owned("Database error"),
        }
    }

    /// The HTTP status of the refusal: 403 for a repeated setup, 401 for a
    /// failed login, 400 otherwise.
    pub fn status(&self) -> (res: u16)
        ensures
            res == failure_status(*self),
    {
        match self {
            AuthFailure::SetupAlreadyCompleted => 403,
            AuthFailure::InvalidLogin => 401,
            _ => 400,
        }
    }
}

/// Body of the authentication answers.
#[derive(Debug)]
pub struct AuthResponse {
    pub success: bool,
    pub token: Option<String>,
    pub error: Option<String>,
}

impl AuthResponse {
    /// A refusal carrying the failure's message.
    pub fn failure(f: AuthFailure) -> (res: AuthResponse)
        ensures
            !res.success,
            res.token is None,
            res.error is Some && res.error.unwrap()@ == failure_message(f),
    {
        AuthResponse { success: false, token: None, error: Some(f.message()) }
    }

    /// A success, with the session token when one was issued.
    pub fn success(token: Option<String>) -> (res: AuthResponse)
        ensures
            res.success,
            res.token == token,
            res.error is None,
    {
        AuthResponse { success: true, token, error: None }
    }
}

/// Byte length of a text (`str::len`).
pub open spec fn byte_len(s: Seq<char>) -> nat {
    vstd::utf8::encode_utf8(s).len()
}

/// A user name and password are acceptable: the name is not blank and the
/// password has at least 6 bytes.
pub open spec fn credentials_ok(username: Seq<char>, password: Seq<char>) -> bool {
    trim(username).len() > 0 && byte_len(password) >= 6
}

fn credentials_acceptable(username: &str, password: &str) -> (res: bool)
    ensures
        res == credentials_ok(username@, password@),
{
    let name = chars_of(username);
    let trimmed = trim_chars(name.as_slice());
    trimmed.len() > 0 && password.as_bytes().len() >= 6
}

/// Body of the first-run setup.
#[derive(Debug)]
pub struct SetupRequest {
    pub username: String,
    pub password: String,
}

/// Body of a login.
#[derive(Debug)]
pub struct LoginRequest {
    pub username: String,
    pub password: String,
}

/// Whether the first-run setup is still to be done.
#[derive(Debug)]
pub struct StatusResponse {
    pub needs_setup: bool,
}

/// First-run setup: refused once any user exists, and for a blank name or
/// a password shorter than 6 bytes; the administrator is created under
/// the trimmed name.
pub fn check_setup(has_users: bool, body: &SetupRequest) -> (res: Result<String, AuthFailure>)
    ensures
        has_users ==> res == Err::<String, AuthFailure>(AuthFailure::SetupAlreadyCompleted),
        !has_users && !credentials_ok(body.username@, body.password@) ==> res == Err::<
            String,
            AuthFailure,
        >(AuthFailure::InvalidCredentials),
        !has_users && credentials_ok(body.username@, body.password@) ==> (res matches Ok(name)
            && name@ == trim(body.username@)),
{
    if has_users {
        return Err(AuthFailure::SetupAlreadyCompleted);
    }
    if !credentials_acceptable(body.username.as_str(), body.password.as_str()) {
        return Err(AuthFailure::InvalidCredentials);
    }
    Ok(trimmed_username(body.username.as_str()))
}

/// Whether the first-run setup is still to be done; an unreadable store is
/// taken as having users.
pub fn setup_status(has_users: Option<bool>) -> (res: StatusResponse)
    ensures
        res.needs_setup == (has_users == Some(false)),
{
    StatusResponse {
        needs_setup: match has_users {
            Some(b) => !b,
            None => false,
        },
    }
}

/// The outcome of a login with `password`, given the stored id and hash
/// of the named user when there is one.
pub open spec fn login_result(stored: Option<(i64, Seq<char>)>, password: Seq<char>) -> Result<
    i64,
    AuthFailure,
> {
    match stored {
        Some((id, hash)) => if bcrypt_verdict(password, hash) == Some(true) {
            Ok(id)
        } else {
            Err(AuthFailure::InvalidLogin)
        },
        None => Err(AuthFailure::InvalidLogin),
    }
}

/// A login: the stored id and hash of the named user, when found, and the
/// password checked against the hash. Any other case (no such user, a
/// wrong password, an unreadable hash) is the same refusal.
pub fn login_user(stored: Option<(i64, &str)>, body: &LoginRequest) -> (res: Result<i64, AuthFailure>)
    ensures
        res == login_result(
            match stored {
                Some((id, hash)) => Some((id, hash@)),
                None => None,
            },
            body.password@,
        ),
{
    match stored {
        Some((id, hash)) => if password_matches(body.password.as_str(), hash) {
            Ok(id)
        } else {
            Err(AuthFailure::InvalidLogin)
        },
        None => Err(AuthFailure::InvalidLogin),
    }
}

pub open spec fn role_ok(role: Seq<char>) -> bool {
    role == "admin"@ || role == "user"@
}

/// A role is `admin` or `user`.
pub fn check_role(role: &str) -> (res: Result<(), AuthFailure>)
    ensures
        role_ok(role@) ==> res is Ok,
        !role_ok(role@) ==> res == Err::<(), AuthFailure>(AuthFailure::InvalidRole),
{
    if str_equals(role, "admin") || str_equals(role, "user") {
        Ok(())
    } else {
        Err(AuthFailure::InvalidRole)
    }
}

/// Whether a stored role grants administration.
pub fn is_admin_role(role: &str) -> (res: bool)
    ensures
        res == (role@ == "admin"@),
{
    str_equals(role, "admin")
}

/// Body of a user creation by an administrator.
#[derive(Debug)]
pub struct CreateUserRequest {
    pub username: String,
    pub password: String,
    pub role: String,
}

/// Body of a user change by an administrator; absent fields are kept.
#[derive(Debug)]
pub struct UpdateUserRequest {
    pub role: Option<String>,
    pub password: Option<String>,
}

/// A user created by an administrator: acceptable name and password
/// first, then a known role; the user is created under the trimmed name.
pub fn check_new_user(body: &CreateUserRequest) -> (res: Result<String, AuthFailure>)
    ensures
        !credentials_ok(body.username@, body.password@) ==> res == Err::<String, AuthFailure>(
            AuthFailure::InvalidCredentials,
        ),
        credentials_ok(body.username@, body.password@) && !role_ok(body.role@) ==> res == Err::<
            String,
            AuthFailure,
        >(AuthFailure::InvalidRole),
        credentials_ok(body.username@, body.password@) && role_ok(body.role@) ==> (res matches Ok(
            name,
        ) && name@ == trim(body.username@)),
{
    if !credentials_acceptable(body.username.as_str(), body.password.as_str()) {
        return Err(AuthFailure::InvalidCredentials);
    }
    match check_role(body.role.as_str()) {
        Err(e) => Err(e),
        Ok(()) => Ok(trimmed_username(body.username.as_str())),
    }
}

/// A new password chosen by its owner has at least 6 bytes.
pub fn check_new_password(password: &str) -> (res: Result<(), AuthFailure>)
    ensures
        byte_len(password@) >= 6 ==> res is Ok,
        byte_len(password@) < 6 ==> res == Err::<(), AuthFailure>(AuthFailure::NewPasswordTooShort),
{
    if password.as_bytes().len() < 6 {
        Err(AuthFailure::NewPasswordTooShort)
    } else {
        Ok(())
    }
}

/// A password set by an administrator has at least 6 bytes.
pub fn check_user_password(password: &str) -> (res: Result<(), AuthFailure>)
    ensures
        byte_len(password@) >= 6 ==> res is Ok,
        byte_len(password@) < 6 ==> res == Err::<(), AuthFailure>(AuthFailure::PasswordTooShort),
{
    if password.as_bytes().len() < 6 {
        Err(AuthFailure::PasswordTooShort)
    } else {
        Ok(())
    }
}

/// Body of a password change by its owner.
#[derive(Debug)]
pub struct ChangePasswordRequest {
    pub current_password: String,
    pub new_password: String,
}

/// Password change: the new password is long enough, then the current
/// one matches the stored hash; the new hash is stored.
pub fn check_password_change(body: &ChangePasswordRequest, stored_hash: &str) -> (res: Result<
    (),
    AuthFailure,
>)
    ensures
        byte_len(body.new_password@) < 6 ==> res == Err::<(), AuthFailure>(
            AuthFailure::NewPasswordTooShort,
        ),
        byte_len(body.new_password@) >= 6 && bcrypt_verdict(body.current_password@, stored_hash@)
            != Some(true) ==> res == Err::<(), AuthFailure>(AuthFailure::CurrentPasswordIncorrect),
        byte_len(body.new_password@) >= 6 && bcrypt_verdict(body.current_password@, stored_hash@)
            == Some(true) ==> res is Ok,
{
    match check_new_password(body.new_password.as_str()) {
        Err(e) => return Err(e),
        Ok(()) => {},
    }
    if !password_matches(body.current_password.as_str(), stored_hash) {
        return Err(AuthFailure::CurrentPasswordIncorrect);
    }
    Ok(())
}

/// Deleting a user: never oneself, and never the only administrator.
pub fn check_user_deletion(
    target_id: i64,
    current_user_id: i64,
    target_role: &str,
    admin_count: i64,
) -> (res: Result<(), AuthFailure>)
    ensures
        target_id == current_user_id ==> res == Err::<(), AuthFailure>(AuthFailure::CannotDeleteSelf),
        target_id != current_user_id && target_role@ == "admin"@ && admin_count <= 1 ==> res
            == Err::<(), AuthFailure>(AuthFailure::LastAdminDeletion),
        target_id != current_user_id && !(target_role@ == "admin"@ && admin_count <= 1) ==> res is Ok,
{
    if target_id == current_user_id {
        return Err(AuthFailure::CannotDeleteSelf);
    }
    if is_admin_role(target_role) && admin_count <= 1 {
        return Err(AuthFailure::LastAdminDeletion);
    }
    Ok(())
}

/// The refusal of a user creation that the store rejected: a taken name
/// when the store's error mentions its `UNIQUE` constraint, else the
/// store's error itself.
pub open spec fn creation_conflict_text(error: Seq<char>) -> Seq<char> {
    if crate::text::has_text(error, "UNIQUE"@) {
        "Username already exists"@
    } else {
        "Failed to create user: "@ + error
    }
}

/// The message answered (with 409) when storing a new user failed.
pub fn creation_conflict_message(error: &str) -> (res: String)
    ensures
        res@ == creation_conflict_text(error@),
{
    if crate::text::text_contains(error, "UNIQUE") {
        owned("Username already exists")
    } else {
        let mut s = owned("Failed to create user: ");
        push_str(&mut s, error);
        s
    }
}

/// Whether a role change needs the administrator count: only a change to
/// `user` can remove an administrator.
pub fn is_demotion(new_role: &str) -> (res: bool)
    ensures
        res == (new_role@ == "user"@),
{
    str_equals(new_role, "user")
}

/// Changing a user to `user`: refused when it is the only administrator.
pub fn check_demotion(current_role: &str, admin_count: i64) -> (res: Result<(), AuthFailure>)
    ensures
        current_role@ == "admin"@ && admin_count <= 1 ==> res == Err::<(), AuthFailure>(
            AuthFailure::LastAdminDemotion,
        ),
        !(current_role@ == "admin"@ && admin_count <= 1) ==> res is Ok,
{
    if is_admin_role(current_role) && admin_count <= 1 {
        Err(AuthFailure::LastAdminDemotion)
    } else {
        Ok(())
    }
}

pub open spec fn opt_string(o: Option<String>) -> Option<Seq<char>> {
    match o {
        Some(s) => Some(s@),
        None => None,
    }
}

/// The refusal of a user change, if any: an unknown role; a change to
/// `user` of the only administrator (known from the looked-up current role
/// and administrator count); a new password shorter than 6 bytes.
pub open spec fn user_update_failure(
    role: Option<Seq<char>>,
    password: Option<Seq<char>>,
    current_role: Option<Seq<char>>,
    admin_count: Option<i64>,
) -> Option<AuthFailure> {
    if role matches Some(r) && !role_ok(r) {
        Some(AuthFailure::InvalidRole)
    } else if role == Some("user"@) && current_role == Some("admin"@) && (admin_count matches Some(
        c,
    ) && c <= 1) {
        Some(AuthFailure::LastAdminDemotion)
    } else if password matches Some(p) && byte_len(p) < 6 {
        Some(AuthFailure::PasswordTooShort)
    } else {
        None
    }
}

/// A user change by an administrator, given the target's current role and
/// the administrator count where they were looked up (only for a change
/// to `user`, the count only for a current administrator).
pub fn check_user_update(
    body: &UpdateUserRequest,
    current_role: Option<&str>,
    admin_count: Option<i64>,
) -> (res: Result<(), AuthFailure>)
    ensures
        match user_update_failure(
            opt_string(body.role),
            opt_string(body.password),
            opt_text(current_role),
            admin_count,
        ) {
            Some(f) => res == Err::<(), AuthFailure>(f),
            None => res is Ok,
        },
{
    match &body.role {
        Some(r) => {
            match check_role(r.as_str()) {
                Err(e) => return Err(e),
                Ok(()) => {},
            }
            if is_demotion(r.as_str()) {
                match (current_role, admin_count) {
                    (Some(cur), Some(c)) => {
                        match check_demotion(cur, c) {
                            Err(e) => return Err(e),
                            Ok(()) => {},
                        }
                    },
                    _ => {},
                }
            }
        },
        None => {},
    }
    match &body.password {
        Some(p) => check_user_password(p.as_str()),
        None => Ok(()),
    }
}

/// The name of a new API key, trimmed; refused when blank.
pub fn api_key_name(name: &str) -> (res: Result<String, AuthFailure>)
    ensures
        trim(name@).len() == 0 ==> res == Err::<String, AuthFailure>(AuthFailure::EmptyApiKeyName),
        trim(name@).len() > 0 ==> (res matches Ok(n) && n@ == trim(name@)),
{
    let cs = chars_of(name);
    let t = trim_chars(cs.as_slice());
    if t.len() == 0 {
        Err(AuthFailure::EmptyApiKeyName)
    } else {
        Ok(string_from_chars(t.as_slice()))
    }
}

/// A user name as stored: without surrounding whitespace.
pub fn trimmed_username(username: &str) -> (res: String)
    ensures
        res@ == trim(username@),
{
    let cs = chars_of(username);
    let t = trim_chars(cs.as_slice());
    string_from_chars(t.as_slice())
}

// ---------------------------------------------------------------------
// Route guards
// ---------------------------------------------------------------------

/// Where a guarded route sends a request: on to the handler (renewing the
/// session when one was used), refused with a status and an error, or
/// redirected to a page.
#[derive(Debug)]
pub enum Gate {
    Pass { refresh_session: bool },
    Refuse { status: u16, error: String },
    Redirect { to: String },
}

pub open spec fn is_refusal(g: Gate, status: u16, error: Seq<char>) -> bool {
    match g {
        Gate::Refuse { status: s, error: e } => s == status && e@ == error,
        _ => false,
    }
}

pub open spec fn is_redirect(g: Gate, to: Seq<char>) -> bool {
    match g {
        Gate::Redirect { to: t } => t@ == to,
        _ => false,
    }
}

fn refuse(status: u16, error: &str) -> (res: Gate)
    ensures
        is_refusal(res, status, error@),
{
    Gate::Refuse { status, error: owned(error) }
}

fn redirect(to: &str) -> (res: Gate)
    ensures
        is_redirect(res, to@),
{
    Gate::Redirect { to: owned(to) }
}

/// Guard of the signed-in routes. `token_found` tells whether the request
/// carried a token (a page reads only the `pp_token` cookie), `user` the
/// user of its session when the session is valid. The interface answers
/// 401 (`Authentication required` without a token, `Invalid or expired
/// token` otherwise); a page is sent to `/login`. A valid session passes
/// and is renewed.
pub fn session_gate(page: bool, token_found: bool, user: Option<i64>) -> (res: Gate)
    ensures
        token_found && user is Some ==> res == (Gate::Pass { refresh_session: true }),
        !(token_found && user is Some) && page ==> is_redirect(res, "/login"@),
        !token_found && !page ==> is_refusal(res, 401, "Authentication required"@),
        token_found && user is None && !page ==> is_refusal(res, 401, "Invalid or expired token"@),
{
    if token_found && user.is_some() {
        return Gate::Pass { refresh_session: true };
    }
    if page {
        redirect("/login")
    } else if !token_found {
        refuse(401, "Authentication required")
    } else {
        refuse(401, "Invalid or expired token")
    }
}

/// Guard of the administration routes: as `session_gate`, and then the
/// session's user must have the role `admin` (`role` is what was looked
/// up for it, `None` when that failed). Others get 403 `Admin access
/// required` from the interface and are sent to `/` from a page.
pub fn admin_gate(page: bool, token_found: bool, user: Option<i64>, role: Option<&str>) -> (res:
    Gate)
    ensures
        token_found && user is Some && opt_text(role) == Some("admin"@) ==> res == (Gate::Pass {
            refresh_session: true,
        }),
        token_found && user is Some && opt_text(role) != Some("admin"@) && page ==> is_redirect(
            res,
            "/"@,
        ),
        token_found && user is Some && opt_text(role) != Some("admin"@) && !page ==> is_refusal(
            res,
            403,
            "Admin access required"@,
        ),
        !(token_found && user is Some) && page ==> is_redirect(res, "/login"@),
        !token_found && !page ==> is_refusal(res, 401, "Authentication required"@),
        token_found && user is None && !page ==> is_refusal(res, 401, "Invalid or expired token"@),
{
    if !(token_found && user.is_some()) {
        return session_gate(page, token_found, user);
    }
    let is_admin = match role {
        Some(r) => is_admin_role(r),
        None => false,
    };
    if is_admin {
        Gate::Pass { refresh_session: true }
    } else if page {
        redirect("/")
    } else {
        refuse(403, "Admin access required")
    }
}

/// Guard of the proxy interface: a valid session from a bearer token
/// passes (and is renewed); else a valid API key passes; else 401.
pub fn proxy_api_gate(bearer_user: Option<i64>, api_key_valid: bool) -> (res: Gate)
    ensures
        bearer_user is Some ==> res == (Gate::Pass { refresh_session: true }),
        bearer_user is None && api_key_valid ==> res == (Gate::Pass { refresh_session: false }),
        bearer_user is None && !api_key_valid ==> is_refusal(
            res,
            401,
            "Authentication required. Use Bearer token or API key."@,
        ),
{
    if bearer_user.is_some() {
        Gate::Pass { refresh_session: true }
    } else if api_key_valid {
        Gate::Pass { refresh_session: false }
    } else {
        refuse(401, "Authentication required. Use Bearer token or API key.")
    }
}

// ---------------------------------------------------------------------
// Preferences
// ---------------------------------------------------------------------

pub open spec fn theme_ok(theme: Seq<char>) -> bool {
    theme == "system"@ || theme == "light"@ || theme == "dark"@
}

pub open spec fn language_ok(language: Seq<char>) -> bool {
    language == "default"@ || language == "en"@ || language == "zh-CN"@ || language == "zh-TW"@
        || language == "ja"@
}

pub open spec fn timezone_char_ok(c: char) -> bool {
    ('a' <= c && c <= 'z') || ('A' <= c && c <= 'Z') || ('0' <= c && c <= '9') || c == '/' || c
        == '_' || c == '-' || c == '+'
}

/// `auto`, or at most 50 bytes of ASCII letters, digits and `/ _ - +`.
pub open spec fn timezone_ok(tz: Seq<char>) -> bool {
    tz == "auto"@ || (byte_len(tz) <= 50 && forall|i: int|
        0 <= i < tz.len() ==> #[trigger] timezone_char_ok(tz[i]))
}

fn timezone_chars_ok(timezone: &str) -> (res: bool)
    ensures
        res == forall|i: int| 0 <= i < timezone@.len() ==> #[trigger] timezone_char_ok(timezone@[i]),
{
    let cs = chars_of(timezone);
    let mut i: usize = 0;
    while i < cs.len()
        invariant
            i <= cs@.len(),
            cs@ == timezone@,
            forall|j: int| 0 <= j < i ==> #[trigger] timezone_char_ok(cs@[j]),
        decreases cs@.len() - i,
    {
        let c = cs[i];
        let ok = ('a' <= c && c <= 'z') || ('A' <= c && c <= 'Z') || ('0' <= c && c <= '9') || c
            == '/' || c == '_' || c == '-' || c == '+';
        if !ok {
            proof {
                assert(!timezone_char_ok(timezone@[i as int]));
            }
            return false;
        }
        i = i + 1;
    }
    true
}

/// Preferences sent by a user (the timezone is `auto` when the body names
/// none).
#[derive(Debug)]
pub struct PreferencesRequest {
    pub theme: String,
    pub language: String,
    pub timezone: String,
}

/// Preferences a user may save: a known theme and language first, then a
/// timezone name of the accepted shape.
pub fn check_preferences(body: &PreferencesRequest) -> (res: Result<(), AuthFailure>)
    ensures
        !(theme_ok(body.theme@) && language_ok(body.language@)) ==> res == Err::<(), AuthFailure>(
            AuthFailure::InvalidThemeOrLanguage,
        ),
        theme_ok(body.theme@) && language_ok(body.language@) && !timezone_ok(body.timezone@)
            ==> res == Err::<(), AuthFailure>(AuthFailure::InvalidTimezone),
        theme_ok(body.theme@) && language_ok(body.language@) && timezone_ok(body.timezone@) ==> res is Ok,
{
    let theme = body.theme.as_str();
    let language = body.language.as_str();
    let timezone = body.timezone.as_str();
    let theme_known = str_equals(theme, "system") || str_equals(theme, "light") || str_equals(
        theme,
        "dark",
    );
    let language_known = str_equals(language, "default") || str_equals(language, "en")
        || str_equals(language, "zh-CN") || str_equals(language, "zh-TW") || str_equals(
        language,
        "ja",
    );
    if !theme_known || !language_known {
        return Err(AuthFailure::InvalidThemeOrLanguage);
    }
    if str_equals(timezone, "auto") {
        return Ok(());
    }
    if timezone.as_bytes().len() > 50 || !timezone_chars_ok(timezone) {
        return Err(AuthFailure::InvalidTimezone);
    }
    Ok(())
}

/// The timezone stored when a request names none.
pub fn default_timezone() -> (res: String)
    ensures
        res@ == "auto"@,
{
    owned("auto")
}

} // verus!

verus! {

// ---------------------------------------------------------------------
// Laws
// ---------------------------------------------------------------------

pub proof fn lemma_split_without_separator(s: Seq<char>, sep: char)
    requires
        !s.contains(sep),
    ensures
        split_on(s, sep) == seq![s],
    decreases s.len(),
{
    if s.len() > 0 {
        assert(!s.drop_last().contains(sep)) by {
            if s.drop_last().contains(sep) {
                let k = choose|k: int| 0 <= k < s.drop_last().len() && s.drop_last()[k] == sep;
                assert(s[k] == sep);
            }
        }
        lemma_split_without_separator(s.drop_last(), sep);
        assert(s.last() != sep) by {
            assert(s[s.len() - 1] == s.last());
        }
        assert(s.drop_last().push(s.last()) =~= s);
        assert(seq![s.drop_last()].update(0, s) =~= seq![s]);
    } else {
        assert(s =~= Seq::<char>::empty());
    }
}

pub proof fn lemma_token_has_no_space(t: Seq<char>)
    requires
        is_token_text(t),
    ensures
        !t.contains(';'),
        !t.contains('&'),
        !t.contains('%'),
        forall|i: int| 0 <= i < t.len() ==> !crate::text::is_whitespace(#[trigger] t[i]),
{
    assert forall|i: int| 0 <= i < t.len() implies !crate::text::is_whitespace(#[trigger] t[i]) by {
        assert(is_hex_lower_char(t[i]));
    }
    if t.contains(';') {
        let k = choose|k: int| 0 <= k < t.len() && t[k] == ';';
        assert(is_hex_lower_char(t[k]));
    }
    if t.contains('&') {
        let k = choose|k: int| 0 <= k < t.len() && t[k] == '&';
        assert(is_hex_lower_char(t[k]));
    }
    if t.contains('%') {
        let k = choose|k: int| 0 <= k < t.len() && t[k] == '%';
        assert(is_hex_lower_char(t[k]));
    }
}

pub proof fn lemma_trim_identity(s: Seq<char>)
    requires
        s.len() > 0,
        !crate::text::is_whitespace(s[0]),
        !crate::text::is_whitespace(s.last()),
    ensures
        trim(s) == s,
{
    assert(crate::text::trim_start(s) == s);
}

/// A session token sent as `Authorization: Bearer <token>` is the token of
/// the request, whatever cookies come with it.
pub proof fn law_bearer_token_found(token: Seq<char>, cookie: Option<Seq<char>>)
    ensures
        request_token(Some(bearer_prefix() + token), cookie) == Some(token),
{
    let h = bearer_prefix() + token;
    assert(h.take(7) =~= bearer_prefix());
    assert(h.skip(7) =~= token);
}

/// A token issued by `generate_token`, sent back as the only cookie
/// `pp_token=<token>`, is the token of a request without a bearer header.
pub proof fn law_cookie_token_found(token: Seq<char>)
    requires
        is_token_text(token),
    ensures
        request_token(None, Some(token_cookie_prefix() + token)) == Some(token),
        cookie_token(token_cookie_prefix() + token) == Some(token),
{
    let c = token_cookie_prefix() + token;
    lemma_token_has_no_space(token);
    assert(!c.contains(';')) by {
        if c.contains(';') {
            let k = choose|k: int| 0 <= k < c.len() && c[k] == ';';
            if k >= 9 {
                assert(token[k - 9] == ';');
            }
        }
    }
    lemma_split_without_separator(c, ';');
    assert(c[0] == 'p');
    assert(c.last() == token.last());
    assert(!crate::text::is_whitespace(token[token.len() - 1]));
    lemma_trim_identity(c);
    assert(c.take(9) =~= token_cookie_prefix());
    assert(c.skip(9) =~= token);
    assert(seq![c].drop_first() =~= Seq::<Seq<char>>::empty());
}

/// A key made by `new_api_key` sent in the `X-API-Key` header is the API
/// key of the request, and its digest is the stored one.
pub proof fn law_issued_key_in_header(key: Seq<char>, key_hash: Seq<char>, query: Option<Seq<char>>)
    requires
        key.len() == 68,
        key.take(4) == api_key_prefix(),
        key_hash == text_digest(key),
    ensures
        request_api_key(Some(key), query) == Some(key),
        text_digest(request_api_key(Some(key), query).unwrap()) == key_hash,
{
}

/// A key made by `new_api_key` sent as the only query parameter
/// `api_key=<key>` is the API key of a request without the header.
pub proof fn law_issued_key_in_query(key: Seq<char>)
    requires
        key.len() == 68,
        key.take(4) == api_key_prefix(),
        is_token_text(key.skip(4)),
        url_decoded(key) == Some(key),
    ensures
        request_api_key(None, Some(api_key_param() + key)) == Some(key),
{
    let q = api_key_param() + key;
    lemma_token_has_no_space(key.skip(4));
    assert(!q.contains('&')) by {
        if q.contains('&') {
            let k = choose|k: int| 0 <= k < q.len() && q[k] == '&';
            if k >= 12 {
                assert(key.skip(4)[k - 12] == '&');
            } else if k >= 8 {
                assert(key.take(4)[k - 8] == '&');
            }
        }
    }
    lemma_split_without_separator(q, '&');
    assert(q.take(8) =~= api_key_param());
    assert(q.skip(8) =~= key);
}

/// A password stored through `hash_password` (at setup, user creation,
/// password change) lets its owner log in: the login answers the stored
/// user's id.
pub proof fn law_stored_password_logs_in(id: i64, password: Seq<char>, hash: Seq<char>)
    requires
        bcrypt_verdict(password, hash) == Some(true),
    ensures
        login_result(Some((id, hash)), password) == Ok::<i64, AuthFailure>(id),
{
}

/// Any other password, or an unknown user, gets the one refusal that
/// reveals nothing: `Invalid username or password` with status 401.
pub proof fn law_failed_login_is_uniform(stored: Option<(i64, Seq<char>)>, password: Seq<char>)
    requires
        !(stored matches Some((_, hash)) && bcrypt_verdict(password, hash) == Some(true)),
    ensures
        login_result(stored, password) == Err::<i64, AuthFailure>(AuthFailure::InvalidLogin),
        failure_status(AuthFailure::InvalidLogin) == 401,
        failure_message(AuthFailure::InvalidLogin) == "Invalid username or password"@,
{
}

} // verus!
