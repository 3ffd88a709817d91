//! The HTTP side of the client: its settings, request framing, and the
//! reading of a response.

use vstd::prelude::*;
use vstd::string::*;
use vstd::utf8::encode_utf8;
use crate::error::ClientError;
use crate::json::{
    Json, has_no_member, is_first_member, lemma_lookup_absent, lemma_lookup_first, lemma_lookup_found,
    lookup, members_named_are_null, parse_json, serde_parse,
};
use crate::rpc::{error_member, frame_request, request_text, take_error_member};
use crate::text::{decimal, http_status_message, http_status_text, oversize_message, oversize_text, push_decimal};

verus! {

/// Default cap on response body size, in bytes (10 MiB).
pub const DEFAULT_MAX_RESPONSE_SIZE: usize = 10 * 1024 * 1024;

/// Default request timeout, in milliseconds.
pub const DEFAULT_TIMEOUT_MS: u32 = 60000;

/// The settings of an HTTP JSON-RPC endpoint. Request ids come from a
/// `RequestIds` counter that every handle on the endpoint (clones included)
/// shares and passes in.
#[derive(Debug)]
pub struct HttpProvider {
    url: String,
    timeout: u32,
    headers: Vec<(String, String)>,
    max_response_size: usize,
}

/// What an `HttpProvider` is: its endpoint, its timeout in milliseconds, the
/// extra headers it sends, in order, and its cap on response bodies in bytes.
pub struct HttpProviderView {
    pub url: Seq<char>,
    pub timeout: u32,
    pub headers: Seq<(Seq<char>, Seq<char>)>,
    pub max_response_size: usize,
}

/// The headers as text pairs.
pub open spec fn header_texts(headers: Seq<(String, String)>) -> Seq<(Seq<char>, Seq<char>)> {
    headers.map_values(|h: (String, String)| (h.0@, h.1@))
}

impl View for HttpProvider {
    type V = HttpProviderView;

    closed spec fn view(&self) -> HttpProviderView {
        HttpProviderView {
            url: self.url@,
            timeout: self.timeout,
            headers: header_texts(self.headers@),
            max_response_size: self.max_response_size,
        }
    }
}

/// The id that follows `id`: one more, wrapping to zero after `u64::MAX`.
pub open spec fn successor_id(id: u64) -> u64 {
    if id == u64::MAX { 0 } else { (id + 1) as u64 }
}

/// Whether an HTTP status is a success (`200..300`).
pub open spec fn is_success(status: u16) -> bool {
    200 <= status && status < 300
}

/// The length of `text` in bytes, as `str::len` reports it.
pub open spec fn byte_len(text: Seq<char>) -> usize {
    encode_utf8(text).len() as usize
}

/// How the HTTP side reads a response.
#[derive(Debug, PartialEq)]
pub enum ResponseOutcome {
    /// The `result` member of a successful response.
    Result(Json),
    /// The non-null `error` member, yet to be read as an error object.
    ErrorObject(Json),
    /// The response could not be used.
    Failed(ClientError),
}

/// The reading of a response with status `status` and body `text`, given
/// what parsing the body as JSON gave (`parsed`). A body that is not JSON is a
/// parse error for a success status and a request error otherwise; a non-null
/// `error` member is reported whatever the status; otherwise a success yields
/// its `result` member (a parse error naming `result` where there is none) and
/// any other status is a request error.
pub open spec fn classified(status: u16, text: Seq<char>, parsed: Result<Json, Seq<char>>, r: ResponseOutcome) -> bool {
    match parsed {
        Err(e) => if is_success(status) {
            r matches ResponseOutcome::Failed(ClientError::ParseError(m)) && m@ == e
        } else {
            r matches ResponseOutcome::Failed(ClientError::RequestError(m))
                && m@ == http_status_text(status as nat, text)
        },
        Ok(frame) => match error_member(frame) {
            Some(e) => r == ResponseOutcome::ErrorObject(e),
            None => if is_success(status) {
                match frame.field("result"@) {
                    Some(v) => r == ResponseOutcome::Result(v),
                    None => r matches ResponseOutcome::Failed(ClientError::ParseError(m))
                        && m@ == "result"@,
                }
            } else {
                r matches ResponseOutcome::Failed(ClientError::RequestError(m))
                    && m@ == http_status_text(status as nat, text)
            },
        },
    }
}

/// A parse outcome with its error message as text.
pub open spec fn parse_view(parsed: Result<Json, String>) -> Result<Json, Seq<char>> {
    match parsed {
        Ok(j) => Ok(j),
        Err(e) => Err(e@),
    }
}

/// The reading of a response with status `status`, body `text` and a cap of
/// `max` bytes on the body: a body over the cap is refused; any other is
/// parsed as JSON and classified.
pub open spec fn response_outcome(status: u16, text: Seq<char>, max: usize, r: ResponseOutcome) -> bool {
    let len = byte_len(text);
    if len > max {
        r matches ResponseOutcome::Failed(ClientError::RequestError(m)) && m@ == oversize_text(len as nat, max as nat)
    } else {
        classified(status, text, serde_parse(text), r)
    }
}

/// Classify a response with status `status` and body `text` whose parse as
/// JSON gave `parsed`.
pub fn classify_response(status: u16, text: &str, parsed: Result<Json, String>) -> (r: ResponseOutcome)
    ensures
        classified(status, text@, parse_view(parsed), r),
{
    let success = 200 <= status && status < 300;
    let frame = match parsed {
        Ok(frame) => frame,
        Err(e) => {
            if success {
                return ResponseOutcome::Failed(ClientError::ParseError(e));
            } else {
                return ResponseOutcome::Failed(
                    ClientError::RequestError(http_status_message(status, text)),
                );
            }
        },
    };
    let frame = match take_error_member(frame) {
        Ok(e) => return ResponseOutcome::ErrorObject(e),
        Err(frame) => frame,
    };
    if success {
        match frame.into_field("result") {
            Some(v) => ResponseOutcome::Result(v),
            None => ResponseOutcome::Failed(ClientError::ParseError(String::from_str("result"))),
        }
    } else {
        ResponseOutcome::Failed(ClientError::RequestError(http_status_message(status, text)))
    }
}

impl HttpProvider {
    /// A fresh provider for `url`: default timeout and response cap, no extra
    /// headers.
    pub open spec fn new_view(url: Seq<char>) -> HttpProviderView {
        HttpProviderView {
            url: url,
            timeout: DEFAULT_TIMEOUT_MS,
            headers: Seq::empty(),
            max_response_size: DEFAULT_MAX_RESPONSE_SIZE,
        }
    }

    /// A provider for `url` with the default timeout and response cap.
    pub fn new(url: &str) -> (p: Self)
        ensures
            p@ == Self::new_view(url@),
    {
        let p = HttpProvider {
            url: String::from_str(url),
            timeout: DEFAULT_TIMEOUT_MS,
            headers: Vec::new(),
            max_response_size: DEFAULT_MAX_RESPONSE_SIZE,
        };
        assert(header_texts(p.headers@) =~= Seq::empty());
        p
    }

    /// A provider for `url` whose requests time out after `timeout` ms.
    pub fn new_with_timeout(url: &str, timeout: u32) -> (p: Self)
        ensures
            p@ == (HttpProviderView {
                url: url@,
                timeout: timeout,
                    headers: Seq::empty(),
                max_response_size: DEFAULT_MAX_RESPONSE_SIZE,
            }),
    {
        let p = HttpProvider {
            url: String::from_str(url),
            timeout,
            headers: Vec::new(),
            max_response_size: DEFAULT_MAX_RESPONSE_SIZE,
        };
        assert(header_texts(p.headers@) =~= Seq::empty());
        p
    }

    /// Attach a header that will be sent with every request, after those
    /// attached before.
    pub fn with_header(self, key: &str, value: &str) -> (p: Self)
        ensures
            p@ == (HttpProviderView { headers: self@.headers.push((key@, value@)), ..self@ }),
    {
        let mut p = self;
        let ghost before = p.headers@;
        p.headers.push((String::from_str(key), String::from_str(value)));
        assert(header_texts(p.headers@) =~= header_texts(before).push((key@, value@)));
        p
    }

    /// Set the maximum response body size in bytes.
    pub fn with_max_response_size(self, bytes: usize) -> (p: Self)
        ensures
            p@ == (HttpProviderView { max_response_size: bytes, ..self@ }),
    {
        let mut p = self;
        p.max_response_size = bytes;
        p
    }

    /// The endpoint URL.
    pub fn url(&self) -> (u: &str)
        ensures
            u@ == self@.url,
    {
        self.url.as_str()
    }

    /// The request timeout in milliseconds.
    pub fn timeout(&self) -> (t: u32)
        ensures
            t == self@.timeout,
    {
        self.timeout
    }

    /// The cap on response bodies in bytes.
    pub fn max_response_size(&self) -> (m: usize)
        ensures
            m == self@.max_response_size,
    {
        self.max_response_size
    }

    /// The extra headers, in the order they were attached.
    pub fn headers(&self) -> (h: &Vec<(String, String)>)
        ensures
            header_texts(h@) == self@.headers,
    {
        &self.headers
    }

    /// Draw the id for the next request from the counter `ids` that the
    /// endpoint's handles share.
    pub fn next_id(&self, ids: &mut RequestIds) -> (id: u64)
        ensures
            id == successor_id(old(ids)@),
            final(ids)@ == id,
    {
        ids.next()
    }

    /// Frame the body of a request to `method` with the JSON text `params`,
    /// under the next id of the shared counter `ids`.
    pub fn request_body(&self, ids: &mut RequestIds, method: &str, params: &str) -> (body: String)
        ensures
            final(ids)@ == successor_id(old(ids)@),
            body@ == request_text(successor_id(old(ids)@) as nat, method@, params@),
    {
        let id = self.next_id(ids);
        frame_request(id, method, params)
    }

    /// Read a response with status `status` and body `text`.
    pub fn interpret_response(&self, status: u16, text: &str) -> (r: ResponseOutcome)
        ensures
            response_outcome(status, text@, self@.max_response_size, r),
    {
        let len = text.len();
        if len > self.max_response_size {
            return ResponseOutcome::Failed(
                ClientError::RequestError(oversize_message(len, self.max_response_size)),
            );
        }
        classify_response(status, text, parse_json(text))
    }
}

} // verus!

verus! {

/// The id drawn `k` requests after the one drawn as `start`.
pub open spec fn nth_id(start: u64, k: nat) -> u64
    decreases k,
{
    if k == 0 {
        start
    } else {
        successor_id(nth_id(start, (k - 1) as nat))
    }
}

/// Request ids count up by one, modulo 2^64: the id drawn `k` requests after
/// `start` is `start + k` wrapped, so none comes back before 2^64 requests.
pub proof fn law_request_ids_count_up(start: u64, k: nat)
    ensures
        nth_id(start, k) as int == (start as int + k) % 0x1_0000_0000_0000_0000,
        0 < k < 0x1_0000_0000_0000_0000 ==> nth_id(start, k) != start,
    decreases k,
{
    if k > 0 {
        law_request_ids_count_up(start, (k - 1) as nat);
        let prev = nth_id(start, (k - 1) as nat) as int;
        let m = 0x1_0000_0000_0000_0000int;
        assert(prev == (start as int + k - 1) % m);
        if prev == u64::MAX as int {
            assert((start as int + k) % m == 0) by (nonlinear_arith)
                requires
                    prev == (start as int + k - 1) % m,
                    prev == m - 1,
                    m > 0,
            ;
        } else {
            assert((start as int + k) % m == prev + 1) by (nonlinear_arith)
                requires
                    prev == (start as int + k - 1) % m,
                    prev < m - 1,
                    m > 0,
            ;
        }
    }
    if 0 < k < 0x1_0000_0000_0000_0000 {
        assert((start as int + k) % 0x1_0000_0000_0000_0000int != start as int) by (nonlinear_arith)
            requires
                0 < k < 0x1_0000_0000_0000_0000,
                0 <= start < 0x1_0000_0000_0000_0000,
        ;
    }
}

/// A body over the cap is refused, whatever the status and content, with a
/// request error that begins `response body too large: `.
pub proof fn law_oversized_body_is_refused(status: u16, text: Seq<char>, max: usize, r: ResponseOutcome)
    requires
        response_outcome(status, text, max, r),
        byte_len(text) > max,
    ensures
        r matches ResponseOutcome::Failed(ClientError::RequestError(m))
            && m@.subrange(0, "response body too large: "@.len() as int) == "response body too large: "@,
{
    let prefix = "response body too large: "@;
    if let ResponseOutcome::Failed(ClientError::RequestError(m)) = r {
        assert(m@.subrange(0, prefix.len() as int) =~= prefix);
    }
}

} // verus!

verus! {

/// A response whose status is not a success never yields a result: it is
/// refused, or reported as a JSON-RPC error, or failed.
pub proof fn law_failure_status_yields_no_result(status: u16, text: Seq<char>, max: usize, r: ResponseOutcome)
    requires
        response_outcome(status, text, max, r),
        !is_success(status),
    ensures
        !(r is Result),
{
}

/// A JSON body with a non-null `error` member is reported as that error
/// object, whatever the status and whatever its `result` member.
pub proof fn law_error_member_takes_precedence(status: u16, text: Seq<char>, frame: Json, r: ResponseOutcome)
    requires
        classified(status, text, Ok(frame), r),
        error_member(frame) is Some,
    ensures
        r == ResponseOutcome::ErrorObject(error_member(frame).unwrap()),
{
}

} // verus!

verus! {

/// The value of an ASCII decimal digit.
pub open spec fn digit_value(c: char) -> int {
    c as int - '0' as int
}

/// Whether `s` is a non-empty run of ASCII decimal digits.
pub open spec fn is_decimal(s: Seq<char>) -> bool {
    s.len() > 0 && forall|i: int| 0 <= i < s.len() ==> '0' <= #[trigger] s[i] && s[i] <= '9'
}

/// The number that the decimal digits `s` spell.
pub open spec fn decimal_value(s: Seq<char>) -> int
    decreases s.len(),
{
    if s.len() == 0 {
        0
    } else {
        decimal_value(s.drop_last()) * 10 + digit_value(s.last())
    }
}

/// `response body too large: {declared} bytes (limit: {limit})`, where the
/// size is the one the `Content-Length` header declares, as it declares it.
pub open spec fn declared_oversize_text(declared: Seq<char>, limit: nat) -> Seq<char> {
    "response body too large: "@ + declared + " bytes (limit: "@ + decimal(limit) + ")"@
}

/// The decision taken before a body is read, from its `Content-Length`
/// header (`header`, absent where the response has none) and the cap `max`:
/// a declared size over the cap is refused; anything else is left to the
/// reading of the body.
pub open spec fn preflight_outcome(header: Option<Seq<char>>, max: usize, r: Option<ClientError>) -> bool {
    match header {
        Some(h) => if is_decimal(h) && decimal_value(h) > max {
            r matches Some(ClientError::RequestError(m)) && m@ == declared_oversize_text(h, max as nat)
        } else {
            r is None
        },
        None => r is None,
    }
}

proof fn lemma_decimal_value_step(s: Seq<char>, i: int)
    requires
        0 <= i < s.len(),
    ensures
        decimal_value(s.take(i + 1)) == decimal_value(s.take(i)) * 10 + digit_value(s[i]),
{
    assert(s.take(i + 1).drop_last() =~= s.take(i));
}

proof fn lemma_decimal_value_nonneg(s: Seq<char>)
    requires
        forall|i: int| 0 <= i < s.len() ==> '0' <= #[trigger] s[i] && s[i] <= '9',
    ensures
        decimal_value(s) >= 0,
    decreases s.len(),
{
    if s.len() > 0 {
        lemma_decimal_value_nonneg(s.drop_last());
    }
}

impl HttpProvider {
    /// Decide, before the body is read, on a response whose `Content-Length`
    /// header is `header`: a declared size over the cap is refused.
    pub fn preflight_content_length(&self, header: Option<&str>) -> (r: Option<ClientError>)
        ensures
            preflight_outcome(
                match header {
                    Some(h) => Some(h@),
                    None => None::<Seq<char>>,
                },
                self@.max_response_size,
                r,
            ),
    {
        let h = match header {
            Some(h) => h,
            None => return None,
        };
        let n = h.unicode_len();
        if n == 0 {
            return None;
        }
        let max = self.max_response_size;
        let cap: u128 = max as u128 + 1;
        let mut acc: u128 = 0;
        let mut i: usize = 0;
        while i < n
            invariant
                header == Some(h),
                max == self@.max_response_size,
                n == h@.len(),
                i <= n,
                cap == max + 1,
                forall|j: int| 0 <= j < i ==> '0' <= #[trigger] h@[j] && h@[j] <= '9',
                acc == (if decimal_value(h@.take(i as int)) < cap {
                    decimal_value(h@.take(i as int))
                } else {
                    cap as int
                }),
            decreases n - i,
        {
            let c = h.get_char(i);
            if !('0' <= c && c <= '9') {
                assert(!is_decimal(h@)) by {
                    assert(h@[i as int] == c);
                }
                return None;
            }
            let d: u128 = (c as u32 - '0' as u32) as u128;
            proof {
                lemma_decimal_value_step(h@, i as int);
                assert(h@.take(i as int).len() == i);
                assert forall|j: int| 0 <= j < h@.take(i as int).len() implies
                    '0' <= #[trigger] h@.take(i as int)[j] && h@.take(i as int)[j] <= '9' by {
                    assert(h@.take(i as int)[j] == h@[j]);
                }
                lemma_decimal_value_nonneg(h@.take(i as int));
                assert(d as int == digit_value(c));
            }
            let next = acc * 10 + d;
            if next >= cap {
                acc = cap;
            } else {
                acc = next;
            }
            i = i + 1;
        }
        proof {
            assert(h@.take(n as int) =~= h@);
        }
        if acc == cap {
            let mut m = String::from_str("response body too large: ");
            m.append(h);
            m.append(" bytes (limit: ");
            push_decimal(&mut m, max as u64);
            m.append(")");
            Some(ClientError::RequestError(m))
        } else {
            None
        }
    }
}

} // verus!

verus! {

/// A request-id counter that several handles on one endpoint draw from.
#[derive(Debug)]
pub struct RequestIds {
    last: u64,
}

impl View for RequestIds {
    type V = u64;

    /// The id drawn last (zero before any).
    closed spec fn view(&self) -> u64 {
        self.last
    }
}

impl RequestIds {
    /// A counter that has drawn no id yet.
    pub fn new() -> (c: Self)
        ensures
            c@ == 0,
    {
        RequestIds { last: 0 }
    }

    /// Draw the next id.
    pub fn next(&mut self) -> (id: u64)
        ensures
            id == successor_id(old(self)@),
            final(self)@ == id,
    {
        self.last = self.last.wrapping_add(1);
        self.last
    }
}

/// A copy of the headers.
fn clone_headers(headers: &Vec<(String, String)>) -> (c: Vec<(String, String)>)
    ensures
        header_texts(c@) == header_texts(headers@),
{
    let mut c: Vec<(String, String)> = Vec::new();
    let mut i: usize = 0;
    while i < headers.len()
        invariant
            i <= headers@.len(),
            c@.len() == i,
            header_texts(c@) == header_texts(headers@.take(i as int)),
        decreases headers@.len() - i,
    {
        let k = headers[i].0.clone();
        let v = headers[i].1.clone();
        let ghost before = c@;
        proof {
            assert(k@ == headers@[i as int].0@);
            assert(v@ == headers@[i as int].1@);
        }
        c.push((k, v));
        proof {
            let t = headers@.take(i + 1);
            assert(t =~= headers@.take(i as int).push(headers@[i as int]));
            assert(c@ == before.push((k, v)));
            assert forall|j: int| 0 <= j < c@.len() implies #[trigger] header_texts(c@)[j] == header_texts(t)[j] by {
                assert(t.len() == i + 1);
                if j < i {
                    assert(c@[j] == before[j]);
                    assert(t[j] == headers@.take(i as int)[j]);
                    assert(header_texts(before)[j] == header_texts(headers@.take(i as int))[j]);
                } else {
                    assert(c@[j] == (k, v));
                    assert(t[j] == headers@[i as int]);
                }
            }
            assert(header_texts(c@) =~= header_texts(t));
        }
        i = i + 1;
    }
    assert(headers@.take(i as int) =~= headers@);
    c
}

impl Clone for HttpProvider {
    /// A provider with the same settings; it draws ids from whatever counter
    /// its caller passes, so clones that are handed one counter share it.
    fn clone(&self) -> (c: Self)
        ensures
            c@ == self@,
    {
        HttpProvider {
            url: self.url.clone(),
            timeout: self.timeout,
            headers: clone_headers(&self.headers),
            max_response_size: self.max_response_size,
        }
    }
}

} // verus!

verus! {

/// The `error` member of an object none of whose members named `error` is
/// other than `null` is absent.
proof fn lemma_no_error_member(members: Seq<(String, Json)>, frame: Json)
    requires
        frame matches Json::Object(m) && m@ == members,
        members_named_are_null(members, "error"@),
    ensures
        error_member(frame) is None,
{
    if lookup(members, "error"@) is Some {
        lemma_lookup_found(members, "error"@);
    }
}

/// On a success status, a JSON object with no non-null `error` member is
/// answered with the value of its `result` member, whatever that value is,
/// `null` included.
pub proof fn law_success_yields_the_result_member(
    status: u16,
    text: Seq<char>,
    members: Vec<(String, Json)>,
    i: int,
    r: ResponseOutcome,
)
    requires
        200 <= status < 300,
        members_named_are_null(members@, "error"@),
        is_first_member(members@, "result"@, i),
        classified(status, text, Ok(Json::Object(members)), r),
    ensures
        r == ResponseOutcome::Result(members@[i].1),
{
    lemma_no_error_member(members@, Json::Object(members));
    lemma_lookup_first(members@, "result"@, i);
}

/// On a success status, a JSON object with neither a non-null `error` member
/// nor any `result` member is a parse error that names `result`.
pub proof fn law_success_without_result_member(
    status: u16,
    text: Seq<char>,
    members: Vec<(String, Json)>,
    r: ResponseOutcome,
)
    requires
        200 <= status < 300,
        members_named_are_null(members@, "error"@),
        has_no_member(members@, "result"@),
        classified(status, text, Ok(Json::Object(members)), r),
    ensures
        r matches ResponseOutcome::Failed(ClientError::ParseError(m)) && m@ == "result"@,
{
    lemma_no_error_member(members@, Json::Object(members));
    lemma_lookup_absent(members@, "result"@);
}

/// A JSON object whose first `error` member is not `null` is answered with
/// that member, whatever the status.
pub proof fn law_error_object_is_the_error_member(
    status: u16,
    text: Seq<char>,
    members: Vec<(String, Json)>,
    i: int,
    r: ResponseOutcome,
)
    requires
        is_first_member(members@, "error"@, i),
        !(members@[i].1 is Null),
        classified(status, text, Ok(Json::Object(members)), r),
    ensures
        r == ResponseOutcome::ErrorObject(members@[i].1),
{
    lemma_lookup_first(members@, "error"@, i);
}

/// The declared size `n`, written in decimal, is refused before the body is
/// read exactly when it is over the cap.
pub proof fn law_declared_size_refused_iff_over_cap(n: nat, max: usize, r: Option<ClientError>)
    requires
        preflight_outcome(Some(decimal(n)), max, r),
    ensures
        r is Some <==> n > max,
        n <= max ==> r is None,
{
    lemma_decimal_reads_back(n);
}

/// The digits that render `n` in decimal are a decimal run whose value is `n`.
pub proof fn lemma_decimal_reads_back(n: nat)
    ensures
        is_decimal(decimal(n)),
        decimal_value(decimal(n)) == n,
    decreases n,
{
    let d = decimal(n);
    let r = (n % 10) as int;
    assert(digit_value(crate::text::digit_char(n)) == r) by {
        assert(0 <= r < 10);
    }
    assert(d.last() == crate::text::digit_char(n));
    if n < 10 {
        assert(d.drop_last() =~= Seq::<char>::empty());
        assert(decimal_value(d.drop_last()) == 0);
    } else {
        lemma_decimal_reads_back(n / 10);
        assert(d.drop_last() =~= decimal(n / 10));
        assert forall|i: int| 0 <= i < d.len() implies '0' <= #[trigger] d[i] && d[i] <= '9' by {
            if i < d.len() - 1 {
                assert(d[i] == decimal(n / 10)[i]);
            }
        }
        assert(decimal_value(d) == (n / 10) as int * 10 + r);
    }
}

} // verus!
