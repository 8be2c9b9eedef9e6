//! The decisions of the REST front end: who is let in, which requests are
//! refused and with what, and what indexing and deleting through it do to
//! the engine.

use vstd::prelude::*;
use base64::Engine;
use vstd::utf8::{decode_utf8, valid_utf8};
use crate::analyzer::analysis;
use crate::engine::{ingested, SearchEngineCore};
use crate::index::{first_with_path, DocumentSourceKind, InvertedIndex};
use crate::query_pipeline::{display_filename, displayed};
use crate::text::{chars_of, copy_range, find_char, is_first_index, parse_unsigned, parsed_unsigned, same_text, trim_chars, trimmed};

verus! {

broadcast use {vstd::std_specs::hash::group_hash_axioms, vstd::string::group_string_axioms};

/// Where the TLS certificate and key are read from.
#[derive(Clone, Debug)]
pub struct HttpTlsConfig {
    pub cert_path: String,
    pub key_path: String,
}

/// The credentials that HTTP Basic authentication must present.
#[derive(Clone)]
pub struct HttpAuth {
    username: String,
    password: String,
}

/// The body of a request to index a document.
#[derive(Debug)]
pub struct IndexRequestBody {
    pub source_id: String,
    pub content: String,
    pub source_kind: Option<DocumentSourceKindRequest>,
    pub replace_existing: Option<bool>,
}

/// The query string of a search request.
#[derive(Debug)]
pub struct SearchRequestQuery {
    pub q: String,
    pub limit: Option<usize>,
    pub explain: Option<bool>,
}

/// The answer to an index request.
#[derive(Debug)]
pub struct IndexResponseBody {
    pub document_id: u64,
    pub source_id: String,
    pub status: &'static str,
}

/// The answer to a delete request.
#[derive(Debug)]
pub struct DeleteResponseBody {
    pub document_id: u64,
    pub source_id: String,
    pub status: &'static str,
}

/// Totals reported with search results.
#[derive(Debug)]
pub struct SearchStatsBody {
    pub total_hits: u32,
    pub truncated: bool,
}

/// The body of an error answer.
#[derive(Debug)]
pub struct ApiErrorResponse {
    pub error: ApiErrorBody,
}

/// What went wrong, by code and in words.
#[derive(Debug)]
pub struct ApiErrorBody {
    pub code: String,
    pub message: String,
}

/// The source kind a request may name.
#[derive(Debug, Clone, Copy, PartialEq, Eq, Structural)]
pub enum DocumentSourceKindRequest {
    Opaque,
    Filesystem,
    S3Object,
}

/// A refused request: the HTTP status, a code and a message.
#[derive(Debug)]
pub struct ApiError {
    pub status: u16,
    pub code: String,
    pub message: String,
}

pub open spec fn kind_of_request(value: DocumentSourceKindRequest) -> DocumentSourceKind {
    match value {
        DocumentSourceKindRequest::Opaque => DocumentSourceKind::Opaque,
        DocumentSourceKindRequest::Filesystem => DocumentSourceKind::Filesystem,
        DocumentSourceKindRequest::S3Object => DocumentSourceKind::S3Object,
    }
}

impl From<DocumentSourceKindRequest> for DocumentSourceKind {
    fn from(value: DocumentSourceKindRequest) -> (r: DocumentSourceKind) {
        match value {
            DocumentSourceKindRequest::Opaque => DocumentSourceKind::Opaque,
            DocumentSourceKindRequest::Filesystem => DocumentSourceKind::Filesystem,
            DocumentSourceKindRequest::S3Object => DocumentSourceKind::S3Object,
        }
    }
}

impl vstd::std_specs::convert::FromSpecImpl<DocumentSourceKindRequest> for DocumentSourceKind {
    open spec fn obeys_from_spec() -> bool {
        true
    }

    open spec fn from_spec(value: DocumentSourceKindRequest) -> DocumentSourceKind {
        kind_of_request(value)
    }
}

impl From<ApiError> for ApiErrorResponse {
    fn from(error: ApiError) -> (r: ApiErrorResponse) {
        ApiErrorResponse { error: ApiErrorBody { code: error.code, message: error.message } }
    }
}

impl vstd::std_specs::convert::FromSpecImpl<ApiError> for ApiErrorResponse {
    open spec fn obeys_from_spec() -> bool {
        true
    }

    open spec fn from_spec(error: ApiError) -> ApiErrorResponse {
        ApiErrorResponse { error: ApiErrorBody { code: error.code, message: error.message } }
    }
}

// ---------------------------------------------------------------------
// Errors.
// ---------------------------------------------------------------------

/// `e` has status `status`, code `code` and message `message`.
pub open spec fn is_error(e: ApiError, status: u16, code: Seq<char>, message: Seq<char>) -> bool {
    e.status == status && e.code@ == code && e.message@ == message
}

fn api_error(status: u16, code: &str, message: &str) -> (e: ApiError)
    ensures
        is_error(e, status, code@, message@),
{
    ApiError { status, code: code.to_string(), message: message.to_string() }
}

// ---------------------------------------------------------------------
// Authentication.
// ---------------------------------------------------------------------

/// What `base64::engine::general_purpose::STANDARD.decode` gives for a
/// text: the bytes, or nothing where the text is not valid standard base64.
pub uninterp spec fn base64_standard_decoded(text: Seq<char>) -> Option<Seq<u8>>;

/// `base64::Engine::decode` with the `STANDARD` engine. The contract claims
/// only that the outcome is a fixed function of the text.
#[verifier::external_body]
fn decode_base64_standard(text: &str) -> (r: Option<Vec<u8>>)
    ensures
        match r {
            Some(b) => base64_standard_decoded(text@) == Some(b@),
            None => base64_standard_decoded(text@) is None,
        },
{
    base64::engine::general_purpose::STANDARD.decode(text).ok()
}

/// `String::from_utf8`: the text the bytes encode, where they are valid
/// UTF-8; nothing otherwise.
#[verifier::external_body]
fn string_from_utf8(bytes: Vec<u8>) -> (r: Option<String>)
    ensures
        match r {
            Some(s) => valid_utf8(bytes@) && s@ == decode_utf8(bytes@),
            None => !valid_utf8(bytes@),
        },
{
    String::from_utf8(bytes).ok()
}

/// The scheme prefix of a Basic authorization header.
pub open spec fn basic_prefix() -> Seq<char> {
    seq!['B', 'a', 's', 'i', 'c', ' ']
}

/// The user name and password an authorization header carries: `Basic `,
/// then base64 of UTF-8 text holding them split at its first `:`.
pub open spec fn basic_credentials(header: Seq<char>) -> Option<(Seq<char>, Seq<char>)> {
    if header.len() >= 6 && header.take(6) == basic_prefix() {
        match base64_standard_decoded(header.skip(6)) {
            Some(bytes) => if valid_utf8(bytes) && decode_utf8(bytes).contains(':') {
                let s = decode_utf8(bytes);
                let k = choose|k: int| is_first_index(s, ':', k);
                Some((s.take(k), s.skip(k + 1)))
            } else {
                None
            },
            None => None,
        }
    } else {
        None
    }
}

/// Whether a request with this authorization header (none when it is
/// missing or not visible ASCII) is let in by `auth`; without `auth`
/// every request is.
pub open spec fn lets_in(auth: Option<(Seq<char>, Seq<char>)>, header: Option<Seq<char>>) -> bool {
    match auth {
        None => true,
        Some(cred) => match header {
            None => false,
            Some(h) => basic_credentials(h) == Some(cred),
        },
    }
}

impl HttpAuth {
    pub closed spec fn credentials(self) -> (Seq<char>, Seq<char>) {
        (self.username@, self.password@)
    }

    /// The credentials `username` and `password`.
    pub fn new(username: String, password: String) -> (r: Self)
        ensures
            r.credentials() == (username@, password@),
    {
        HttpAuth { username, password }
    }

    /// Whether an authorization header presents these credentials.
    pub fn authorizes(&self, header: Option<&str>) -> (r: bool)
        ensures
            r == lets_in(Some(self.credentials()), match header {
                Some(h) => Some(h@),
                None => None,
            }),
    {
        let header = match header {
            Some(h) => h,
            None => return false,
        };
        let hc = chars_of(header);
        if hc.len() < 6 || hc[0] != 'B' || hc[1] != 'a' || hc[2] != 's' || hc[3] != 'i' || hc[4] != 'c' || hc[5] != ' ' {
            proof {
                if hc@.len() >= 6 && hc@.take(6) == basic_prefix() {
                    assert(hc@.take(6)[0] == 'B');
                    assert(hc@.take(6)[1] == 'a');
                    assert(hc@.take(6)[2] == 's');
                    assert(hc@.take(6)[3] == 'i');
                    assert(hc@.take(6)[4] == 'c');
                    assert(hc@.take(6)[5] == ' ');
                }
            }
            return false;
        }
        proof {
            assert(hc@.take(6) =~= basic_prefix());
        }
        let encoded_chars = copy_range(hc.as_slice(), 6, hc.len());
        let encoded = crate::text::string_from_chars(encoded_chars.as_slice());
        proof {
            assert(encoded@ =~= header@.skip(6));
        }
        let bytes = match decode_base64_standard(encoded.as_str()) {
            Some(b) => b,
            None => return false,
        };
        let credentials = match string_from_utf8(bytes) {
            Some(s) => s,
            None => return false,
        };
        let cc = chars_of(credentials.as_str());
        let k = match find_char(cc.as_slice(), ':') {
            Some(k) => k,
            None => return false,
        };
        proof {
            let c = choose|c: int| is_first_index(cc@, ':', c);
            if c < k {
                assert(cc@[c] != ':');
            } else if k < c {
                assert(cc@[k as int] != ':');
            }
        }
        let n = cc.len();
        assert(k < n);
        let user = copy_range(cc.as_slice(), 0, k);
        let pass = copy_range(cc.as_slice(), k + 1, n);
        let user_s = crate::text::string_from_chars(user.as_slice());
        let pass_s = crate::text::string_from_chars(pass.as_slice());
        proof {
            assert(user@ =~= cc@.take(k as int));
            assert(pass@ =~= cc@.skip(k + 1));
        }
        same_text(user_s.as_str(), self.username.as_str()) && same_text(pass_s.as_str(), self.password.as_str())
    }
}

/// Whether a request passes the authentication that `auth` asks for.
pub fn request_authorized(auth: &Option<HttpAuth>, header: Option<&str>) -> (r: bool)
    ensures
        r == lets_in(match auth {
            Some(a) => Some(a.credentials()),
            None => None,
        }, match header {
            Some(h) => Some(h@),
            None => None,
        }),
{
    match auth {
        None => true,
        Some(a) => a.authorizes(header),
    }
}

// ---------------------------------------------------------------------
// Content negotiation.
// ---------------------------------------------------------------------

/// `pat` occurs in `s`.
pub open spec fn contains_text(s: Seq<char>, pat: Seq<char>) -> bool {
    exists|i: int| 0 <= i <= s.len() - pat.len() && #[trigger] s.subrange(i, i + pat.len()) == pat
}

/// Whether an `Accept` header lets the answer be JSON: a missing header (or
/// one that is not visible ASCII) does, and so does one naming
/// `application/json` or exactly `*/*`.
pub open spec fn accepts_json_header(accept: Option<Seq<char>>) -> bool {
    match accept {
        None => true,
        Some(v) => contains_text(v, "application/json"@) || v == "*/*"@,
    }
}

fn contains_chars(s: &[char], pat: &[char]) -> (r: bool)
    ensures
        r == contains_text(s@, pat@),
{
    if pat.len() > s.len() {
        return false;
    }
    let mut i: usize = 0;
    while i <= s.len() - pat.len()
        invariant
            pat@.len() <= s@.len(),
            i <= s@.len() - pat@.len() + 1,
            forall|j: int| 0 <= j < i ==> #[trigger] s@.subrange(j, j + pat@.len()) != pat@,
        decreases s@.len() - pat@.len() + 1 - i,
    {
        let mut k: usize = 0;
        let mut same = true;
        while k < pat.len()
            invariant
                pat@.len() <= s@.len(),
                i <= s@.len() - pat@.len(),
                k <= pat@.len(),
                same == forall|m: int| 0 <= m < k ==> s@[i + m] == pat@[m],
            decreases pat@.len() - k,
        {
            let n = s.len();
            assert(i + k < n);
            if s[i + k] != pat[k] {
                same = false;
            }
            k = k + 1;
        }
        if same {
            proof {
                assert(s@.subrange(i as int, i + pat@.len()) =~= pat@);
            }
            return true;
        }
        proof {
            let m = choose|m: int| 0 <= m < pat@.len() && s@[i + m] != pat@[m];
            assert(s@.subrange(i as int, i + pat@.len())[m] != pat@[m]);
        }
        i = i + 1;
    }
    false
}

/// Whether the answer may be JSON, by the request's `Accept` header.
pub fn accepts_json(accept: Option<&str>) -> (r: bool)
    ensures
        r == accepts_json_header(match accept {
            Some(v) => Some(v@),
            None => None,
        }),
{
    match accept {
        None => true,
        Some(v) => {
            let vc = chars_of(v);
            let pat = chars_of("application/json");
            contains_chars(vc.as_slice(), pat.as_slice()) || same_text(v, "*/*")
        },
    }
}

// ---------------------------------------------------------------------
// Searching.
// ---------------------------------------------------------------------

/// The number of results a search asks for: 10 when not given, at least 1.
pub fn search_limit(limit: Option<usize>) -> (r: usize)
    ensures
        r == match limit {
            Some(l) => if l == 0 { 1 } else { l },
            None => 10,
        },
{
    let l = match limit {
        Some(l) => l,
        None => 10,
    };
    if l == 0 { 1 } else { l }
}

/// The query to run: the trimmed query text, refused when it is blank.
pub fn validate_search_query(q: &str) -> (r: Result<String, ApiError>)
    ensures
        match r {
            Ok(t) => trimmed(q@).len() > 0 && t@ == trimmed(q@),
            Err(e) => trimmed(q@).len() == 0 && is_error(e, 400, "bad_request"@, "q is required"@),
        },
{
    let qc = chars_of(q);
    let t = trim_chars(qc.as_slice());
    if t.len() == 0 {
        return Err(api_error(400, "bad_request", "q is required"));
    }
    Ok(crate::text::string_from_chars(t.as_slice()))
}

/// The totals for `returned` results of a search limited to `limit`.
pub fn search_stats(returned: usize, limit: usize) -> (r: SearchStatsBody)
    ensures
        r.total_hits == returned as u32,
        r.truncated == (returned >= limit),
{
    SearchStatsBody { total_hits: returned as u32, truncated: returned >= limit }
}

/// The file name shown for a result: the shown form of its source, or the
/// source itself where that is empty.
pub fn result_filename(source_id: &str) -> (r: String)
    ensures
        r@ == if displayed(Some(source_id@)).len() == 0 { source_id@ } else { displayed(Some(source_id@)) },
{
    let display = display_filename(Some(source_id));
    if display.as_str().is_empty() {
        source_id.to_string()
    } else {
        display
    }
}

// ---------------------------------------------------------------------
// Indexing and deleting.
// ---------------------------------------------------------------------

/// The source kind an index request asks for: opaque when it names none.
pub open spec fn requested_kind(k: Option<DocumentSourceKindRequest>) -> DocumentSourceKind {
    match k {
        Some(v) => kind_of_request(v),
        None => DocumentSourceKind::Opaque,
    }
}

/// Handles a request to index a document. A blank source id is refused.
/// A source already registered is left as it is, unless the request asks
/// to replace it: then the document first registered under it is deleted
/// and the new one indexed. The answer says which happened.
pub fn handle_index_request(engine: &mut SearchEngineCore, payload: IndexRequestBody) -> (r: Result<IndexResponseBody, ApiError>)
    requires
        old(engine).index.wf(),
        old(engine).index.next_id() < usize::MAX,
    ensures
        final(engine).index.wf(),
        trimmed(payload.source_id@).len() == 0 ==> {
            &&& r matches Err(e) && is_error(e, 400, "bad_request"@, "source_id is required"@)
            &&& final(engine).index == old(engine).index
        },
        trimmed(payload.source_id@).len() > 0 ==> match first_with_path(old(engine).index.paths(), payload.source_id@) {
            Some(id) => if payload.replace_existing == Some(true) {
                &&& r matches Ok(resp) && resp.document_id == old(engine).index.next_id() as u64
                    && resp.source_id@ == payload.source_id@ && resp.status@ == "replaced"@
                &&& exists|mid: InvertedIndex| #![trigger InvertedIndex::removed(old(engine).index, mid, set![id])] {
                    &&& InvertedIndex::removed(old(engine).index, mid, set![id])
                    &&& ingested(mid, final(engine).index, payload.source_id@,
                        requested_kind(payload.source_kind), analysis(payload.content@))
                }
            } else {
                &&& r matches Ok(resp) && resp.document_id == id as u64
                    && resp.source_id@ == payload.source_id@ && resp.status@ == "skipped"@
                &&& final(engine).index == old(engine).index
            },
            None => {
                &&& r matches Ok(resp) && resp.document_id == old(engine).index.next_id() as u64
                    && resp.source_id@ == payload.source_id@ && resp.status@ == "created"@
                &&& ingested(old(engine).index, final(engine).index, payload.source_id@,
                    requested_kind(payload.source_kind), analysis(payload.content@))
            },
        },
{
    let sc = chars_of(payload.source_id.as_str());
    let trimmed_id = trim_chars(sc.as_slice());
    if trimmed_id.len() == 0 {
        return Err(api_error(400, "bad_request", "source_id is required"));
    }
    let source_kind = match payload.source_kind {
        Some(k) => DocumentSourceKind::from(k),
        None => DocumentSourceKind::Opaque,
    };
    let replace_existing = match payload.replace_existing {
        Some(b) => b,
        None => false,
    };
    let tokens = engine.analyzer.analyze(payload.content.as_str());
    let existing = engine.index.find_document_by_path(payload.source_id.as_str());
    let ghost pre = engine.index;
    match existing {
        Some(existing_id) => {
            if replace_existing {
                engine.delete_document(existing_id);
            } else {
                return Ok(IndexResponseBody {
                    document_id: existing_id as u64,
                    source_id: payload.source_id,
                    status: "skipped",
                });
            }
        },
        None => {},
    }
    let ghost mid = engine.index;
    let doc_id = engine.index.next_document_id;
    engine.ingest_document(payload.source_id.as_str(), source_kind, tokens);
    let status = if existing.is_some() { "replaced" } else { "created" };
    proof {
        if existing.is_some() {
            assert(InvertedIndex::removed(pre, mid, set![existing.unwrap()]));
        }
    }
    Ok(IndexResponseBody { document_id: doc_id as u64, source_id: payload.source_id, status })
}

/// The document a delete request names, and the source reported back: an
/// id in decimal names that id (reported with its source, or empty when
/// it has none); anything else names the first document registered under
/// that source (reported with it, or with the request's text when none is).
pub open spec fn delete_target(paths: Map<usize, Seq<char>>, id: Seq<char>) -> (Option<usize>, Seq<char>) {
    match parsed_unsigned(id, usize::MAX as nat) {
        Some(n) => (Some(n as usize), if paths.contains_key(n as usize) { paths[n as usize] } else { Seq::empty() }),
        None => match first_with_path(paths, id) {
            Some(d) => (Some(d), paths[d]),
            None => (None, id),
        },
    }
}

/// Handles a request to delete a document, by id or by source.
pub fn handle_delete_request(engine: &mut SearchEngineCore, id: &str) -> (r: Result<DeleteResponseBody, ApiError>)
    requires
        old(engine).index.wf(),
    ensures
        match delete_target(old(engine).index.paths(), id@) {
            (Some(d), src) => {
                &&& r matches Ok(resp) && resp.document_id == d as u64 && resp.source_id@ == src
                    && resp.status@ == "deleted"@
                &&& InvertedIndex::removed(old(engine).index, final(engine).index, set![d])
            },
            (None, _) => {
                &&& r matches Err(e) && is_error(e, 404, "not_found"@, "document not found"@)
                &&& final(engine).index == old(engine).index
            },
        },
{
    let ic = chars_of(id);
    let (doc_id, source_id): (Option<usize>, String) = match parse_unsigned(ic.as_slice(), usize::MAX as u64) {
        Some(n) => {
            let d = n as usize;
            let src = match engine.index.document_registry.get(&d) {
                Some(s) => s.clone(),
                None => String::new(),
            };
            (Some(d), src)
        },
        None => match engine.index.find_document_by_path(id) {
            Some(d) => {
                let src = match engine.index.document_registry.get(&d) {
                    Some(s) => s.clone(),
                    None => id.to_string(),
                };
                (Some(d), src)
            },
            None => (None, id.to_string()),
        },
    };
    let doc_id = match doc_id {
        Some(d) => d,
        None => return Err(api_error(404, "not_found", "document not found")),
    };
    engine.delete_document(doc_id);
    Ok(DeleteResponseBody { document_id: doc_id as u64, source_id, status: "deleted" })
}

} // verus!
