//! The request side of the Subsonic REST client: URLs, retries and the
//! reading of answers. The HTTP transport itself belongs to the application.
//!
//! Requests are retried with exponential backoff on transport errors and on
//! 5xx answers, never on 4xx answers.
use crate::api::auth::{auth_params, base_params, param_texts};
use crate::api::models::{
    ArtistId3, ArtistIndexEntry, ArtistsPayload, Playlist, PlaylistsPayload, SubsonicResponse,
};
use crate::config::{API_VERSION, CLIENT_NAME};
use crate::error::AppError;
use crate::text::{decimal, push_decimal, str_eq};
use percent_encoding::{NON_ALPHANUMERIC, utf8_percent_encode};
use vstd::prelude::*;
use vstd::string::{StrSliceExecFns, StringExecFns};
use vstd::utf8::encode_utf8;

verus! {

/// The path of the REST endpoints below the base URL.
pub const API_PATH: &'static str = "/rest/";

/// How many times a failed request is tried again.
pub const MAX_RETRIES: u32 = 3;

/// The delay before the first retry, in milliseconds; it doubles each time.
pub const BACKOFF_BASE_MS: u64 = 500;

/// Whether a byte is an ASCII letter or digit.
pub open spec fn is_alnum_byte(b: u8) -> bool {
    (48 <= b <= 57) || (65 <= b <= 90) || (97 <= b <= 122)
}

/// The upper-case hexadecimal digit of `d` (below 16).
pub open spec fn hex_digit(d: int) -> char {
    if d < 10 {
        (48 + d) as char
    } else {
        (55 + d) as char
    }
}

/// A byte in a query value: letters and digits as they are, anything else
/// as `%` and two upper-case hex digits.
pub open spec fn encoded_byte(b: u8) -> Seq<char> {
    if is_alnum_byte(b) {
        seq![b as char]
    } else {
        seq!['%', hex_digit(b as int / 16), hex_digit(b as int % 16)]
    }
}

/// The percent-encoding of a sequence of bytes.
pub open spec fn percent_encoded(bytes: Seq<u8>) -> Seq<char>
    decreases bytes.len(),
{
    if bytes.len() == 0 {
        Seq::empty()
    } else {
        encoded_byte(bytes[0]) + percent_encoded(bytes.drop_first())
    }
}

/// The value of a hexadecimal digit as `hex_digit` writes it.
pub open spec fn hex_value(c: char) -> int {
    if '0' <= c <= '9' {
        c as int - 48
    } else {
        c as int - 55
    }
}

/// Reading a percent-encoded text back into bytes: `%` and two hex digits
/// give one byte, any other character gives its own code.
pub open spec fn percent_decoded(s: Seq<char>) -> Seq<u8>
    decreases s.len(),
{
    if s.len() == 0 {
        Seq::empty()
    } else if s[0] == '%' && s.len() >= 3 {
        seq![(hex_value(s[1]) * 16 + hex_value(s[2])) as u8] + percent_decoded(s.subrange(3, s.len() as int))
    } else {
        seq![s[0] as u8] + percent_decoded(s.drop_first())
    }
}

/// Decoding a percent-encoded value gives the bytes back: no value is
/// changed on its way through a URL.
pub proof fn lemma_percent_decoding_restores(bytes: Seq<u8>)
    ensures
        percent_decoded(percent_encoded(bytes)) == bytes,
    decreases bytes.len(),
{
    if bytes.len() > 0 {
        let b = bytes[0];
        let rest = bytes.drop_first();
        lemma_percent_decoding_restores(rest);
        let e = encoded_byte(b);
        let all = e + percent_encoded(rest);
        if is_alnum_byte(b) {
            assert((b as char) as u8 == b);
            assert(all[0] == b as char);
            assert(all.drop_first() =~= percent_encoded(rest));
        } else {
            let hi = b as int / 16;
            let lo = b as int % 16;
            assert(hex_value(hex_digit(hi)) == hi);
            assert(hex_value(hex_digit(lo)) == lo);
            assert(all[0] == '%');
            assert(all.subrange(3, all.len() as int) =~= percent_encoded(rest));
            assert((hi * 16 + lo) as u8 == b);
        }
        assert(seq![b] + rest =~= bytes);
    }
}

/// A percent-encoded value holds only ASCII letters, digits and `%`: no
/// character of it can split or end a query.
pub proof fn lemma_percent_encoded_is_plain(bytes: Seq<u8>)
    ensures
        forall|i: int|
            0 <= i < percent_encoded(bytes).len() ==> {
                let c = #[trigger] percent_encoded(bytes)[i];
                ('0' <= c <= '9') || ('A' <= c <= 'Z') || ('a' <= c <= 'z') || c == '%'
            },
    decreases bytes.len(),
{
    if bytes.len() > 0 {
        let b = bytes[0];
        lemma_percent_encoded_is_plain(bytes.drop_first());
        let e = encoded_byte(b);
        let r = percent_encoded(bytes.drop_first());
        assert forall|i: int| 0 <= i < e.len() implies {
            let c = #[trigger] e[i];
            ('0' <= c <= '9') || ('A' <= c <= 'Z') || ('a' <= c <= 'z') || c == '%'
        } by {
            if is_alnum_byte(b) {
                assert(e[i] == b as char);
            }
        }
        assert forall|i: int| 0 <= i < (e + r).len() implies {
            let c = #[trigger] (e + r)[i];
            ('0' <= c <= '9') || ('A' <= c <= 'Z') || ('a' <= c <= 'z') || c == '%'
        } by {
            if i < e.len() {
                assert((e + r)[i] == e[i]);
            } else {
                assert((e + r)[i] == r[i - e.len()]);
            }
        }
    }
}

/// `utf8_percent_encode(text, NON_ALPHANUMERIC)`, rendered to a string: each
/// byte of the UTF-8 form of `text` that is not an ASCII letter or digit
/// becomes `%` and two upper-case hex digits.
#[verifier::external_body]
fn encode_value(text: &str) -> (r: String)
    ensures
        r@ == percent_encoded(encode_utf8(text@)),
{
    utf8_percent_encode(text, NON_ALPHANUMERIC).to_string()
}

/// The query string of a list of parameters: `?k=v&k=v...`, values encoded.
pub open spec fn query(params: Seq<(Seq<char>, Seq<char>)>) -> Seq<char>
    decreases params.len(),
{
    if params.len() == 0 {
        Seq::empty()
    } else {
        let p = params.last();
        query(params.drop_last()) + (if params.len() == 1 {
            "?"@
        } else {
            "&"@
        }) + p.0 + "="@ + percent_encoded(encode_utf8(p.1))
    }
}

/// The text without the slashes it ends with.
pub open spec fn trim_slashes(s: Seq<char>) -> Seq<char>
    decreases s.len(),
{
    if s.len() > 0 && s.last() == '/' {
        trim_slashes(s.drop_last())
    } else {
        s
    }
}

/// What the contracts say of a client.
pub struct ClientView {
    pub base_url: Seq<char>,
    pub username: Seq<char>,
    pub password: Seq<char>,
}

/// The server address and the credentials that every request carries.
pub struct Client {
    base_url: String,
    username: String,
    password: String,
}

impl View for Client {
    type V = ClientView;

    closed spec fn view(&self) -> ClientView {
        ClientView { base_url: self.base_url@, username: self.username@, password: self.password@ }
    }
}

/// The URL of `method` with the authentication parameters and then `extra`.
pub open spec fn method_url(c: ClientView, method: Seq<char>, extra: Seq<(Seq<char>, Seq<char>)>) -> Seq<
    char,
> {
    c.base_url + API_PATH@ + method + query(
        auth_params(c.username, c.password, API_VERSION@, CLIENT_NAME@) + extra,
    )
}

impl Client {
    /// A client of the server at `base_url` (trailing slashes dropped).
    pub fn new(base_url: &str, username: &str, password: &str) -> (r: Result<Client, AppError>)
        ensures
            r is Ok,
            r is Ok ==> r->Ok_0@ == (ClientView {
                base_url: trim_slashes(base_url@),
                username: username@,
                password: password@,
            }),
    {
        let mut k = base_url.unicode_len();
        assert(base_url@.subrange(0, k as int) =~= base_url@);
        while k > 0 && base_url.get_char(k - 1) == '/'
            invariant
                k <= base_url@.len(),
                trim_slashes(base_url@) == trim_slashes(base_url@.subrange(0, k as int)),
            decreases k,
        {
            assert(base_url@.subrange(0, k as int).drop_last() == base_url@.subrange(0, k - 1));
            k = k - 1;
        }
        assert(trim_slashes(base_url@.subrange(0, k as int)) == base_url@.subrange(0, k as int));
        let kept = base_url.substring_char(0, k);
        Ok(Client { base_url: kept.to_owned(), username: username.to_owned(), password: password.to_owned() })
    }

    /// The URL of `method` with the authentication parameters and then
    /// `extra`, every value percent-encoded.
    pub fn url(&self, method: &str, extra: &[(&str, String)]) -> (r: String)
        ensures
            r@ == method_url(self@, method@, param_texts(extra@)),
    {
        let mut params = base_params(
            self.username.as_str(),
            self.password.as_str(),
            API_VERSION,
            CLIENT_NAME,
        );
        let ghost auth = param_texts(params@);
        let mut j: usize = 0;
        while j < extra.len()
            invariant
                j <= extra@.len(),
                param_texts(params@) == auth + param_texts(extra@.subrange(0, j as int)),
            decreases extra@.len() - j,
        {
            let (k, v) = &extra[j];
            let ghost p0 = params@;
            params.push((*k, v.clone()));
            proof {
                let x = (extra@[j as int].0@, extra@[j as int].1@);
                assert(param_texts(extra@.subrange(0, j + 1)) =~= param_texts(
                    extra@.subrange(0, j as int),
                ).push(x));
                assert(params@ == p0.push(params@.last()));
                assert(param_texts(params@) =~= param_texts(p0).push(x));
            }
            j = j + 1;
        }
        assert(extra@.subrange(0, extra@.len() as int) == extra@);
        let mut url = self.base_url.clone();
        url.append(API_PATH);
        url.append(method);
        let ghost head = url@;
        let ghost all = param_texts(params@);
        let mut i: usize = 0;
        while i < params.len()
            invariant
                i <= params@.len(),
                all == param_texts(params@),
                url@ == head + query(all.subrange(0, i as int)),
            decreases params@.len() - i,
        {
            let ghost before = url@;
            if i == 0 {
                url.append("?");
            } else {
                url.append("&");
            }
            url.append(params[i].0);
            url.append("=");
            let enc = encode_value(params[i].1.as_str());
            url.append(enc.as_str());
            proof {
                let s = all.subrange(0, i + 1);
                assert(s.drop_last() == all.subrange(0, i as int));
                assert(s.last() == all[i as int]);
                assert(all[i as int] == (params@[i as int].0@, params@[i as int].1@));
                assert(url@ =~= head + query(s));
            }
            i = i + 1;
        }
        assert(all.subrange(0, all.len() as int) == all);
        url
    }

    /// The URL of a cover image, handed to MPRIS as it is.
    pub fn cover_art_url(&self, cover_art: &str) -> (r: String)
        ensures
            r@ == method_url(self@, "getCoverArt"@, seq![("id"@, cover_art@)]),
    {
        let extra = vec![("id", cover_art.to_owned())];
        assert(param_texts(extra@) =~= seq![("id"@, cover_art@)]);
        self.url("getCoverArt", extra.as_slice())
    }
}

// ---------- retries ----------

/// The delay before retry number `attempt` (from 1), in milliseconds.
pub open spec fn backoff_ms(attempt: nat) -> int
    decreases attempt,
{
    if attempt <= 1 {
        BACKOFF_BASE_MS as int
    } else {
        2 * backoff_ms((attempt - 1) as nat)
    }
}

/// What the application does after an attempt of a request.
#[derive(Debug)]
pub enum CallStep {
    /// Wait `delay_ms`, then make attempt number `attempt` again.
    Retry { attempt: u32, delay_ms: u64 },
    /// Give up with this error.
    Fail(AppError),
    /// Read the answer.
    Read,
}

/// The delay before retry number `attempt`: 500 ms, doubling each time.
pub fn retry_delay(attempt: u32) -> (r: u64)
    requires
        1 <= attempt <= MAX_RETRIES,
    ensures
        r == backoff_ms(attempt as nat),
{
    proof {
        reveal_with_fuel(backoff_ms, 3);
    }
    if attempt == 1 {
        BACKOFF_BASE_MS
    } else if attempt == 2 {
        BACKOFF_BASE_MS * 2
    } else {
        BACKOFF_BASE_MS * 4
    }
}

/// The server answered attempt `attempt` (0 for the first) of `method` with
/// the HTTP status `status`: a 5xx answer is retried while retries are
/// left, anything else is read.
pub fn after_status(method: &str, attempt: u32, status: u16) -> (r: CallStep)
    requires
        attempt <= MAX_RETRIES,
    ensures
        status < 500 ==> r is Read,
        status >= 500 && attempt < MAX_RETRIES ==> r == (CallStep::Retry {
            attempt: (attempt + 1) as u32,
            delay_ms: backoff_ms((attempt + 1) as nat) as u64,
        }),
        status >= 500 && attempt >= MAX_RETRIES ==> (r matches CallStep::Fail(AppError::Network(m))
            && m@ == method@ + ": server responded "@ + decimal(status as nat) + " after "@
            + decimal(MAX_RETRIES as nat) + " attempts"@),
{
    if status < 500 {
        return CallStep::Read;
    }
    if attempt < MAX_RETRIES {
        let next = attempt + 1;
        return CallStep::Retry { attempt: next, delay_ms: retry_delay(next) };
    }
    let mut m = method.to_owned();
    m.append(": server responded ");
    push_decimal(&mut m, status as u64);
    m.append(" after ");
    push_decimal(&mut m, MAX_RETRIES as u64);
    m.append(" attempts");
    CallStep::Fail(AppError::Network(m))
}

/// Attempt `attempt` (0 for the first) of `method` failed in the transport
/// with the error text `error`: it is retried while retries are left.
pub fn after_transport_error(method: &str, attempt: u32, error: &str) -> (r: CallStep)
    requires
        attempt <= MAX_RETRIES,
    ensures
        attempt < MAX_RETRIES ==> r == (CallStep::Retry {
            attempt: (attempt + 1) as u32,
            delay_ms: backoff_ms((attempt + 1) as nat) as u64,
        }),
        attempt >= MAX_RETRIES ==> (r matches CallStep::Fail(AppError::Network(m)) && m@ == method@
            + ": "@ + error@),
{
    if attempt < MAX_RETRIES {
        let next = attempt + 1;
        return CallStep::Retry { attempt: next, delay_ms: retry_delay(next) };
    }
    let mut m = method.to_owned();
    m.append(": ");
    m.append(error);
    CallStep::Fail(AppError::Network(m))
}

// ---------- answers ----------

/// A 4xx answer is an error; other statuses go on to the body.
pub fn check_status(status: u16) -> (r: Result<(), AppError>)
    ensures
        (400 <= status < 500) == (r is Err),
        r is Err ==> (r matches Err(AppError::Network(m)) && m@ == "HTTP "@ + decimal(status as nat)),
{
    if 400 <= status && status < 500 {
        let mut m = "HTTP ".to_owned();
        push_decimal(&mut m, status as u64);
        Err(AppError::Network(m))
    } else {
        Ok(())
    }
}

/// A streamed answer must not be an error: a status of 400 or more fails with
/// the label and the status as the server wrote it (`shown`, such as
/// `404 Not Found`).
pub fn check_stream_status(label: &str, status: u16, shown: &str) -> (r: Result<(), AppError>)
    ensures
        (status >= 400) == (r is Err),
        r is Err ==> (r matches Err(AppError::Network(m)) && m@ == label@ + ": HTTP "@ + shown@),
{
    if status >= 400 {
        let mut m = label.to_owned();
        m.append(": HTTP ");
        m.append(shown);
        proof {
            reveal_strlit(": HTTP ");
        }
        Err(AppError::Network(m))
    } else {
        Ok(())
    }
}

/// The payload of an answer: an answer whose status is not "ok" is the
/// server's error (or an unknown one), and an "ok" answer must carry data.
pub fn response_data<T>(response: SubsonicResponse<T>) -> (r: Result<T, AppError>)
    ensures
        response.response.status@ != "ok"@ ==> match response.response.error {
            Some(e) => r == Err::<T, AppError>(AppError::Api { code: e.code, message: e.message }),
            None => (r matches Err(AppError::Api { code, message }) && code == 0 && message@
                == "unknown server error"@),
        },
        response.response.status@ == "ok"@ ==> match response.response.data {
            Some(d) => r == Ok::<T, AppError>(d),
            None => (r matches Err(AppError::Api { code, message }) && code == 0 && message@
                == "empty response"@),
        },
{
    let envelope = response.response;
    if !str_eq(envelope.status.as_str(), "ok") {
        return match envelope.error {
            Some(e) => Err(AppError::Api { code: e.code, message: e.message }),
            None => Err(AppError::Api { code: 0, message: "unknown server error".to_owned() }),
        };
    }
    match envelope.data {
        Some(d) => Ok(d),
        None => Err(AppError::Api { code: 0, message: "empty response".to_owned() }),
    }
}

/// All artists of the index, letter after letter.
pub open spec fn index_artists(index: Seq<Seq<ArtistId3>>) -> Seq<ArtistId3>
    decreases index.len(),
{
    if index.len() == 0 {
        Seq::empty()
    } else {
        index_artists(index.drop_last()) + index.last()
    }
}

/// The artists of a `getArtists` answer, in index order.
pub fn artists_of(payload: ArtistsPayload) -> (r: Vec<ArtistId3>)
    ensures
        r@ == index_artists(payload.artists.index@.map_values(|e: ArtistIndexEntry| e.artist@)),
{
    let index = payload.artists.index;
    let ghost all = index@.map_values(|e: ArtistIndexEntry| e.artist@);
    let mut out: Vec<ArtistId3> = Vec::new();
    let mut i: usize = 0;
    while i < index.len()
        invariant
            i <= index@.len(),
            all == index@.map_values(|e: ArtistIndexEntry| e.artist@),
            out@ == index_artists(all.subrange(0, i as int)),
        decreases index@.len() - i,
    {
        let ghost before = out@;
        let entry = &index[i];
        let mut j: usize = 0;
        while j < entry.artist.len()
            invariant
                j <= entry.artist@.len(),
                out@ == before + entry.artist@.subrange(0, j as int),
            decreases entry.artist@.len() - j,
        {
            out.push(entry.artist[j].clone());
            assert(out@ =~= before + entry.artist@.subrange(0, j + 1));
            j = j + 1;
        }
        proof {
            let s = all.subrange(0, i + 1);
            assert(s.drop_last() == all.subrange(0, i as int));
            assert(s.last() == entry.artist@);
            assert(entry.artist@.subrange(0, entry.artist@.len() as int) == entry.artist@);
        }
        i = i + 1;
    }
    assert(all.subrange(0, all.len() as int) == all);
    out
}

/// The playlists of a `getPlaylists` answer (none when the list is absent).
pub fn playlists_of(payload: PlaylistsPayload) -> (r: Vec<Playlist>)
    ensures
        payload.playlists is None ==> r@.len() == 0,
        payload.playlists is Some ==> r@ == payload.playlists->0.playlist@,
{
    match payload.playlists {
        Some(list) => list.playlist,
        None => Vec::new(),
    }
}

// ---------- the whole album catalogue ----------

/// The size of a page when the whole album catalogue is read.
pub const CATALOGUE_PAGE: i32 = 500;

/// The most pages read of the album catalogue.
pub const CATALOGUE_MAX_PAGES: i32 = 500;

/// After `pages` pages brought `total` albums in all: the offset of the next
/// page, or `None` when a short page ended the catalogue or the page limit
/// is reached.
pub fn next_catalogue_page(pages: i32, total: usize) -> (r: Option<i32>)
    requires
        1 <= pages <= CATALOGUE_MAX_PAGES,
    ensures
        (total < pages * CATALOGUE_PAGE || pages >= CATALOGUE_MAX_PAGES) ==> r is None,
        !(total < pages * CATALOGUE_PAGE || pages >= CATALOGUE_MAX_PAGES) ==> r == Some(
            (pages * CATALOGUE_PAGE) as i32,
        ),
{
    let full: usize = (pages as usize) * (CATALOGUE_PAGE as usize);
    if total < full || pages >= CATALOGUE_MAX_PAGES {
        None
    } else {
        Some(pages * CATALOGUE_PAGE)
    }
}

} // verus!
