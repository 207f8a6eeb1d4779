use crate::model::opt_view;
use vstd::prelude::*;
use vstd::string::*;

verus! {

// ---------------------------------------------------------------- percent-encoding

/// The bytes that percent-encoding leaves as they are: ASCII letters, digits, `-`, `.`, `_`, `~`.
pub open spec fn is_unreserved(b: u8) -> bool {
    ||| 48 <= b <= 57
    ||| 65 <= b <= 90
    ||| 97 <= b <= 122
    ||| b == 45
    ||| b == 46
    ||| b == 95
    ||| b == 126
}

/// An upper-case hexadecimal digit.
pub open spec fn hex_digit(d: u8) -> char
    recommends
        d < 16,
{
    if d < 10 {
        ((48 + d) as u8) as char
    } else {
        ((55 + d) as u8) as char
    }
}

/// One byte, percent-encoded.
pub open spec fn encode_byte(b: u8) -> Seq<char> {
    if is_unreserved(b) {
        seq![b as char]
    } else {
        seq!['%', hex_digit(b / 16), hex_digit(b % 16)]
    }
}

/// A byte string, percent-encoded byte by byte.
pub open spec fn percent_encoded(bytes: Seq<u8>) -> Seq<char>
    decreases bytes.len(),
{
    if bytes.len() == 0 {
        seq![]
    } else {
        percent_encoded(bytes.drop_last()) + encode_byte(bytes.last())
    }
}

/// The value of a hexadecimal digit, upper case.
pub open spec fn hex_value(c: char) -> nat {
    if (c as nat) <= 57 {
        (c as nat - 48) as nat
    } else {
        (c as nat - 55) as nat
    }
}

/// Percent-decoding: each `%` and the two hexadecimal digits after it give one byte,
/// every other character gives its own code as a byte.
pub open spec fn percent_decoded(s: Seq<char>) -> Seq<u8>
    decreases s.len(),
{
    if s.len() == 0 {
        seq![]
    } else if s.len() >= 3 && s[s.len() - 3] == '%' {
        percent_decoded(s.take(s.len() - 3)).push(
            (hex_value(s[s.len() - 2]) * 16 + hex_value(s[s.len() - 1])) as u8,
        )
    } else {
        percent_decoded(s.drop_last()).push(s.last() as u8)
    }
}

proof fn lemma_hex_digit(d: u8)
    requires
        d < 16,
    ensures
        hex_value(hex_digit(d)) == d,
        hex_digit(d) != '%',
{
    if d < 10 {
        let b = (48 + d) as u8;
        assert(b == 48 + d);
        assert((b as char) as nat == b as nat);
    } else {
        let b = (55 + d) as u8;
        assert(b == 55 + d);
        assert((b as char) as nat == b as nat);
    }
}

proof fn lemma_unreserved_char(b: u8)
    requires
        is_unreserved(b),
    ensures
        (b as char) as u8 == b,
        (b as char) != '%',
{
    assert((b as char) as nat == b as nat);
}

/// The last two characters of an encoding are never `%`.
proof fn lemma_encoding_ends_without_percent(bytes: Seq<u8>)
    ensures
        forall|k: int|
            percent_encoded(bytes).len() - 2 <= k < percent_encoded(bytes).len() && 0 <= k
                ==> #[trigger] percent_encoded(bytes)[k] != '%',
    decreases bytes.len(),
{
    if bytes.len() > 0 {
        let b = bytes.last();
        let prev = percent_encoded(bytes.drop_last());
        lemma_encoding_ends_without_percent(bytes.drop_last());
        let e = encode_byte(b);
        if is_unreserved(b) {
            lemma_unreserved_char(b);
        } else {
            lemma_hex_digit(b / 16);
            lemma_hex_digit(b % 16);
        }
        assert forall|k: int|
            percent_encoded(bytes).len() - 2 <= k < percent_encoded(bytes).len() && 0 <= k
                implies #[trigger] percent_encoded(bytes)[k] != '%' by {
            if k >= prev.len() {
                assert(percent_encoded(bytes)[k] == e[k - prev.len()]);
            } else {
                assert(percent_encoded(bytes)[k] == prev[k]);
            }
        }
    }
}

/// Percent-decoding undoes percent-encoding: the bytes come back unchanged.
pub proof fn lemma_percent_round_trip(bytes: Seq<u8>)
    ensures
        percent_decoded(percent_encoded(bytes)) == bytes,
    decreases bytes.len(),
{
    if bytes.len() > 0 {
        let b = bytes.last();
        let prev = percent_encoded(bytes.drop_last());
        let s = percent_encoded(bytes);
        lemma_percent_round_trip(bytes.drop_last());
        lemma_encoding_ends_without_percent(bytes.drop_last());
        if is_unreserved(b) {
            lemma_unreserved_char(b);
            assert(s =~= prev.push(b as char));
            assert(s.drop_last() =~= prev);
            if s.len() >= 3 {
                assert(s[s.len() - 3] == prev[prev.len() - 2]);
            }
        } else {
            lemma_hex_digit(b / 16);
            lemma_hex_digit(b % 16);
            assert(s.take(s.len() - 3) =~= prev);
            assert(s[s.len() - 3] == '%');
        }
        assert(bytes.drop_last().push(b) =~= bytes);
    }
}

/// Calls `urlencoding::encode`, which percent-encodes every byte of the UTF-8 form of `s`
/// except ASCII letters, digits and `-`, `.`, `_`, `~`, writing `%` and two upper-case
/// hexadecimal digits for each other byte.
#[verifier::external_body]
fn url_encode(s: &str) -> (res: String)
    ensures
        res@ == percent_encoded(s.spec_bytes()),
{
    urlencoding::encode(s).into_owned()
}

// ---------------------------------------------------------------- the authorization URL

/// The address Spotify sends the browser back to after the login.
pub open spec fn redirect_uri() -> Seq<char> {
    "http://localhost:8888/callback"@
}

/// The permissions the application asks for.
pub open spec fn scopes() -> Seq<char> {
    "user-read-playback-state user-read-currently-playing"@
}

/// The address Spotify sends the browser back to after the login.
pub fn redirect_uri_text() -> (s: &'static str)
    ensures
        s@ == redirect_uri(),
{
    "http://localhost:8888/callback"
}

/// The login page's address for this client: the client id as given, the scopes and the
/// redirect address percent-encoded.
pub open spec fn auth_url(client_id: Seq<char>) -> Seq<char> {
    "https://accounts.spotify.com/authorize?response_type=code&client_id="@ + client_id
        + "&scope="@ + percent_encoded(vstd::utf8::encode_utf8(scopes())) + "&redirect_uri="@
        + percent_encoded(vstd::utf8::encode_utf8(redirect_uri()))
}

/// Builds the address of Spotify's login page for this client.
pub fn build_auth_url(client_id: &str) -> (url: String)
    ensures
        url@ == auth_url(client_id@),
{
    let redirect = redirect_uri_text();
    let scope_list = "user-read-playback-state user-read-currently-playing";
    let mut url = String::from_str(
        "https://accounts.spotify.com/authorize?response_type=code&client_id=",
    );
    url.append(client_id);
    url.append("&scope=");
    let encoded_scopes = url_encode(scope_list);
    url.append(encoded_scopes.as_str());
    url.append("&redirect_uri=");
    let encoded_redirect = url_encode(redirect);
    url.append(encoded_redirect.as_str());
    url
}

// ---------------------------------------------------------------- the token request

/// The views of a list of name and value pairs.
pub open spec fn pair_views(v: Seq<(String, String)>) -> Seq<(Seq<char>, Seq<char>)> {
    v.map_values(|p: (String, String)| (p.0@, p.1@))
}

/// The form fields that trade an authorization code for an access token.
pub open spec fn token_fields(client_id: Seq<char>, client_secret: Seq<char>, code: Seq<char>) -> Seq<
    (Seq<char>, Seq<char>),
> {
    seq![
        ("grant_type"@, "authorization_code"@),
        ("code"@, code),
        ("redirect_uri"@, redirect_uri()),
        ("client_id"@, client_id),
        ("client_secret"@, client_secret),
    ]
}

/// The form fields of the token request, in the order they are sent.
pub fn token_form(client_id: &str, client_secret: &str, code: &str) -> (form: Vec<(String, String)>)
    ensures
        pair_views(form@) == token_fields(client_id@, client_secret@, code@),
{
    let mut form: Vec<(String, String)> = Vec::new();
    form.push((String::from_str("grant_type"), String::from_str("authorization_code")));
    form.push((String::from_str("code"), String::from_str(code)));
    form.push((String::from_str("redirect_uri"), String::from_str(redirect_uri_text())));
    form.push((String::from_str("client_id"), String::from_str(client_id)));
    form.push((String::from_str("client_secret"), String::from_str(client_secret)));
    assert(pair_views(form@) =~= token_fields(client_id@, client_secret@, code@));
    form
}

/// The login page's address and the token request agree: the address gives the client id
/// as it is, and its redirect and scope parameters decode to the UTF-8 bytes of the token
/// request's redirect address and of the scopes.
pub proof fn lemma_login_matches_token_request(
    client_id: Seq<char>,
    client_secret: Seq<char>,
    code: Seq<char>,
)
    ensures
        ({
            let form = token_fields(client_id, client_secret, code);
            &&& exists|scope_param: Seq<char>, redirect_param: Seq<char>|
                auth_url(client_id) == "https://accounts.spotify.com/authorize?response_type=code&client_id="@
                    + client_id + "&scope="@ + scope_param + "&redirect_uri="@ + redirect_param
                    && percent_decoded(scope_param) == vstd::utf8::encode_utf8(scopes())
                    && percent_decoded(redirect_param) == vstd::utf8::encode_utf8(form[2].1)
            &&& form[2].0 == "redirect_uri"@
            &&& form[3] == ("client_id"@, client_id)
        }),
{
    let scope_param = percent_encoded(vstd::utf8::encode_utf8(scopes()));
    let redirect_param = percent_encoded(vstd::utf8::encode_utf8(redirect_uri()));
    lemma_percent_round_trip(vstd::utf8::encode_utf8(scopes()));
    lemma_percent_round_trip(vstd::utf8::encode_utf8(redirect_uri()));
    assert(auth_url(client_id) == "https://accounts.spotify.com/authorize?response_type=code&client_id="@
        + client_id + "&scope="@ + scope_param + "&redirect_uri="@ + redirect_param);
}

// ---------------------------------------------------------------- the code in the callback

/// The marker in front of the authorization code in the callback's address.
pub open spec fn code_marker() -> Seq<char> {
    seq!['c', 'o', 'd', 'e', '=']
}

/// Whether `p` occurs in `s` starting at index `i`.
pub open spec fn occurs_at(s: Seq<char>, p: Seq<char>, i: int) -> bool {
    0 <= i && i + p.len() <= s.len() && s.subrange(i, i + p.len()) == p
}

/// Whether `i` is where `p` first occurs in `s`.
pub open spec fn first_occurrence(s: Seq<char>, p: Seq<char>, i: int) -> bool {
    occurs_at(s, p, i) && forall|j: int| 0 <= j < i ==> !occurs_at(s, p, j)
}

/// Whether the code can end at index `k` of the text after the marker: at its end, at an
/// `&`, or where the marker occurs again.
pub open spec fn code_stops(rest: Seq<char>, k: int) -> bool {
    k == rest.len() || rest[k] == '&' || occurs_at(rest, code_marker(), k)
}

/// Whether `k` is the first index where the code stops.
pub open spec fn code_end(rest: Seq<char>, k: int) -> bool {
    0 <= k <= rest.len() && code_stops(rest, k) && forall|j: int| 0 <= j < k ==> !code_stops(rest, j)
}

/// The authorization code in a callback's address: the text after the first `code=`, up to
/// the next `&`, the next `code=` or the end; none where `code=` does not occur.
pub open spec fn code_in(url: Seq<char>) -> Option<Seq<char>> {
    if exists|i: int| occurs_at(url, code_marker(), i) {
        let i = choose|i: int| first_occurrence(url, code_marker(), i);
        let rest = url.skip(i + 5);
        let k = choose|k: int| code_end(rest, k);
        Some(rest.take(k))
    } else {
        None
    }
}

/// Whether the marker occurs in `s` at index `i`.
fn marker_at(s: &str, n: usize, i: usize) -> (res: bool)
    requires
        n == s@.len(),
    ensures
        res == occurs_at(s@, code_marker(), i as int),
{
    if i > n || n - i < 5 {
        return false;
    }
    let res = s.get_char(i) == 'c' && s.get_char(i + 1) == 'o' && s.get_char(i + 2) == 'd'
        && s.get_char(i + 3) == 'e' && s.get_char(i + 4) == '=';
    if res {
        assert(s@.subrange(i as int, i + 5) =~= code_marker());
    } else {
        assert(s@.subrange(i as int, i + 5) != code_marker()) by {
            let sub = s@.subrange(i as int, i + 5);
            assert(sub[0] == s@[i as int]);
            assert(sub[1] == s@[i + 1]);
            assert(sub[2] == s@[i + 2]);
            assert(sub[3] == s@[i + 3]);
            assert(sub[4] == s@[i + 4]);
        }
    }
    res
}

proof fn lemma_occurs_shift(s: Seq<char>, p: Seq<char>, d: int, a: int)
    requires
        0 <= d <= s.len(),
        0 <= a,
    ensures
        occurs_at(s.skip(d), p, a) == occurs_at(s, p, d + a),
{
    if a + p.len() <= s.len() - d {
        assert(s.skip(d).subrange(a, a + p.len()) =~= s.subrange(d + a, d + a + p.len()));
    }
}

proof fn lemma_first_occurrence_unique(s: Seq<char>, p: Seq<char>, i: int, j: int)
    requires
        first_occurrence(s, p, i),
        first_occurrence(s, p, j),
    ensures
        i == j,
{
}

proof fn lemma_code_end_unique(rest: Seq<char>, k: int, l: int)
    requires
        code_end(rest, k),
        code_end(rest, l),
    ensures
        k == l,
{
}

/// The value of the `code` parameter in the address of Spotify's callback, if there is one.
pub fn extract_code(url: &str) -> (res: Option<String>)
    ensures
        opt_view(res) == code_in(url@),
{
    let n = url.unicode_len();
    let mut i: usize = 0;
    while i < n
        invariant
            n == url@.len(),
            i <= n,
            forall|j: int| 0 <= j < i ==> !occurs_at(url@, code_marker(), j),
        ensures
            i <= n,
            forall|j: int| 0 <= j < i ==> !occurs_at(url@, code_marker(), j),
            i < n ==> occurs_at(url@, code_marker(), i as int),
        decreases n - i,
    {
        if marker_at(url, n, i) {
            break;
        }
        i = i + 1;
    }
    if i >= n {
        assert(!exists|j: int| occurs_at(url@, code_marker(), j));
        return None;
    }
    let start = i + 5;
    proof {
        assert(first_occurrence(url@, code_marker(), i as int));
    }
    let ghost rest = url@.skip(start as int);
    let mut k: usize = start;
    while k < n
        invariant
            n == url@.len(),
            start <= k <= n,
            start == i + 5,
            rest == url@.skip(start as int),
            forall|j: int| 0 <= j < k - start ==> !code_stops(rest, j),
        ensures
            start <= k <= n,
            forall|j: int| 0 <= j < k - start ==> !code_stops(rest, j),
            k < n ==> code_stops(rest, k - start),
        decreases n - k,
    {
        let c = url.get_char(k);
        let m = marker_at(url, n, k);
        proof {
            lemma_occurs_shift(url@, code_marker(), start as int, k - start);
        }
        if c == '&' || m {
            assert(rest[k - start] == url@[k as int]);
            break;
        }
        k = k + 1;
    }
    proof {
        lemma_occurs_shift(url@, code_marker(), start as int, k - start);
        assert(code_end(rest, k - start));
        let fi = choose|fi: int| first_occurrence(url@, code_marker(), fi);
        lemma_first_occurrence_unique(url@, code_marker(), fi, i as int);
        let fk = choose|fk: int| code_end(rest, fk);
        lemma_code_end_unique(rest, fk, k - start);
    }
    let code = url.substring_char(start, k);
    assert(code@ =~= rest.take(k - start));
    Some(String::from_str(code))
}

/// The address of the callback that carries `code` as its first parameter.
pub open spec fn callback_url(path: Seq<char>, code: Seq<char>, more: Seq<char>) -> Seq<char> {
    path + seq!['?'] + code_marker() + code + more
}

/// The code read back from a callback address is the code that was put in it, where the
/// path holds no `code=`, the code holds neither `&` nor `code=`, and any further
/// parameters follow after an `&`.
pub proof fn lemma_callback_code_round_trip(path: Seq<char>, code: Seq<char>, more: Seq<char>)
    requires
        forall|i: int| !occurs_at(path, code_marker(), i),
        forall|i: int| !occurs_at(code, code_marker(), i),
        !code.contains('&'),
        more.len() == 0 || more[0] == '&',
    ensures
        code_in(callback_url(path, code, more)) == Some(code),
{
    let url = callback_url(path, code, more);
    let m = code_marker();
    let p = path.len() as int;
    assert(url.subrange(p + 1, p + 6) =~= m);
    assert(occurs_at(url, m, p + 1));
    assert forall|j: int| 0 <= j < p + 1 implies !occurs_at(url, m, j) by {
        if occurs_at(url, m, j) {
            if j + 5 <= p {
                assert(url.subrange(j, j + 5) =~= path.subrange(j, j + 5));
                assert(occurs_at(path, m, j));
            } else {
                let t = p - j;
                assert(url.subrange(j, j + 5)[t] == url[p]);
                assert(url[p] == '?');
                assert(m[t] != '?');
            }
        }
    }
    assert(first_occurrence(url, m, p + 1));
    let fi = choose|fi: int| first_occurrence(url, m, fi);
    lemma_first_occurrence_unique(url, m, fi, p + 1);
    let rest = url.skip(p + 6);
    assert(rest =~= code + more);
    let c = code.len() as int;
    assert(code_stops(rest, c)) by {
        if more.len() > 0 {
            assert(rest[c] == more[0]);
        }
    }
    assert forall|j: int| 0 <= j < c implies !code_stops(rest, j) by {
        assert(rest[j] == code[j]);
        if rest[j] == '&' {
            assert(code.contains(code[j]));
        }
        if occurs_at(rest, m, j) {
            if j + 5 <= c {
                assert(rest.subrange(j, j + 5) =~= code.subrange(j, j + 5));
                assert(occurs_at(code, m, j));
            } else {
                let t = c - j;
                assert(rest.subrange(j, j + 5)[t] == rest[c]);
                assert(rest[c] == more[0]);
                assert(m[t] != '&');
            }
        }
    }
    assert(code_end(rest, c));
    let fk = choose|fk: int| code_end(rest, fk);
    lemma_code_end_unique(rest, fk, c);
    assert(rest.take(c) =~= code);
}

} // verus!
