//! Routing precedence and response construction.
//!
//! A request is routed by a fixed precedence: the exact root path is served
//! the bundled document; paths under the reserved namespace prefix and all
//! remaining paths are planned as a file read under the anchor directory,
//! after the leading separators are stripped and the traversal check of
//! [`crate::paths`] has passed. The planned read is the only filesystem
//! touch; the caller performs it and hands the outcome back, and the
//! response is a pure function of the plan and of that outcome. A miss is
//! answered uniformly with status 404, so a rejected traversal cannot be
//! told apart from a missing file.

use vstd::prelude::*;
use crate::SLASH;
use crate::mime::{mime_of, get_mime_type};
use crate::paths::{
    path_is_safe, strip_leading, check_path_safe, strip_leading_slashes, escapes_anchor,
    lemma_safe_path_stays_inside, segments_of, seg_step, escapes_from,
};

verus! {

/// The bundled document served for the root path.
pub open spec fn bundled_document_spec() -> Seq<char> {
    "<!DOCTYPE html><html><head><title>FRACTAL</title></head><body><div id=\"app\"></div><script src=\"/classes/app.js\"></script></body></html>"@
}

/// The bundled document served for the root path.
pub fn bundled_document() -> (r: &'static str)
    ensures
        r@ == bundled_document_spec(),
{
    "<!DOCTYPE html><html><head><title>FRACTAL</title></head><body><div id=\"app\"></div><script src=\"/classes/app.js\"></script></body></html>"
}

/// The fixed body of a fallback miss.
pub open spec fn not_found_text() -> Seq<char> {
    "File not found"@
}

/// The fixed body of a fallback miss.
pub fn not_found_message() -> (r: &'static str)
    ensures
        r@ == not_found_text(),
{
    "File not found"
}

/// The bytes of the reserved namespace prefix "/classes".
pub open spec fn classes_prefix() -> Seq<u8> {
    seq![47u8, 99u8, 108u8, 97u8, 115u8, 115u8, 101u8, 115u8]
}

/// Whether a request path is exactly the root path.
pub open spec fn is_root(p: Seq<u8>) -> bool {
    p == seq![SLASH]
}

/// Whether a request path falls under the reserved namespace prefix: the
/// prefix alone, or the prefix followed by a separator.
pub open spec fn is_classes(p: Seq<u8>) -> bool {
    p.len() >= 8 && p.subrange(0, 8) == classes_prefix() && (p.len() == 8 || p[8] == SLASH)
}

/// What the front door decides to do for a request path, before any
/// filesystem access.
pub enum PlanSpec {
    /// Serve the bundled document.
    Document,
    /// Read the file at `rel` under the anchor directory and serve it with
    /// content type `mime`; `namespace` records which handler owns a miss.
    ReadFile { rel: Seq<u8>, mime: Seq<char>, namespace: bool },
    /// Answer not found without touching the filesystem.
    Reject { namespace: bool },
}

/// The executable plan; its view is the matching [`PlanSpec`].
#[derive(Debug, PartialEq, Eq)]
pub enum RequestPlan {
    Document,
    ReadFile { rel: Vec<u8>, mime: &'static str, namespace: bool },
    Reject { namespace: bool },
}

impl View for RequestPlan {
    type V = PlanSpec;

    open spec fn view(&self) -> PlanSpec {
        match self {
            RequestPlan::Document => PlanSpec::Document,
            RequestPlan::ReadFile { rel, mime, namespace } => PlanSpec::ReadFile {
                rel: rel@,
                mime: mime@,
                namespace: *namespace,
            },
            RequestPlan::Reject { namespace } => PlanSpec::Reject { namespace: *namespace },
        }
    }
}

/// The plan for a request path: the root path is served the document; any
/// other path is stripped of leading separators and planned as a read when
/// it is safe, and rejected when it is not.
pub open spec fn plan_of(p: Seq<u8>) -> PlanSpec {
    if is_root(p) {
        PlanSpec::Document
    } else {
        let rel = strip_leading(p);
        if path_is_safe(rel) {
            PlanSpec::ReadFile { rel, mime: mime_of(rel), namespace: is_classes(p) }
        } else {
            PlanSpec::Reject { namespace: is_classes(p) }
        }
    }
}

/// Plans a request: routing precedence, traversal check and content type,
/// with no filesystem access.
pub fn plan_request(path: &[u8]) -> (r: RequestPlan)
    ensures
        r@ == plan_of(path@),
{
    if path.len() == 1 && path[0] == SLASH {
        proof {
            assert(path@ =~= seq![SLASH]);
        }
        return RequestPlan::Document;
    }
    proof {
        assert(!is_root(path@));
    }
    let ns = path.len() >= 8 && path[0] == 47 && path[1] == 99 && path[2] == 108 && path[3]
        == 97 && path[4] == 115 && path[5] == 115 && path[6] == 101 && path[7] == 115 && (
    path.len() == 8 || path[8] == 47);
    proof {
        if ns {
            assert(path@.subrange(0, 8) =~= classes_prefix());
        } else if path@.len() >= 8 {
            assert(forall|j: int| 0 <= j < 8 ==> path@.subrange(0, 8)[j] == path@[j]);
        }
        assert(ns == is_classes(path@));
    }
    let rel = strip_leading_slashes(path);
    if check_path_safe(rel.as_slice()) {
        let mime = get_mime_type(rel.as_slice());
        RequestPlan::ReadFile { rel, mime, namespace: ns }
    } else {
        RequestPlan::Reject { namespace: ns }
    }
}

/// A response body: fixed text, the bytes read from a file, or nothing.
pub enum BodySpec {
    Text(Seq<char>),
    Bytes(Seq<u8>),
    Empty,
}

/// An HTTP response as the front door shapes it.
pub struct ResponseSpec {
    pub status: int,
    pub content_type: Option<Seq<char>>,
    pub body: BodySpec,
}

/// The executable response body; its view is the matching [`BodySpec`].
#[derive(Debug, PartialEq, Eq)]
pub enum Body {
    Text(&'static str),
    Bytes(Vec<u8>),
    Empty,
}

/// The executable response; its view is the matching [`ResponseSpec`].
#[derive(Debug, PartialEq, Eq)]
pub struct HttpResponse {
    pub status: u16,
    pub content_type: Option<&'static str>,
    pub body: Body,
}

impl View for Body {
    type V = BodySpec;

    open spec fn view(&self) -> BodySpec {
        match self {
            Body::Text(t) => BodySpec::Text(t@),
            Body::Bytes(b) => BodySpec::Bytes(b@),
            Body::Empty => BodySpec::Empty,
        }
    }
}

impl View for HttpResponse {
    type V = ResponseSpec;

    open spec fn view(&self) -> ResponseSpec {
        ResponseSpec {
            status: self.status as int,
            content_type: match self.content_type {
                Option::Some(c) => Option::Some(c@),
                Option::None => Option::None,
            },
            body: self.body@,
        }
    }
}

/// The uniform miss response: status 404, with the fixed text body for the
/// fallback handler and an empty body for the namespace handler.
pub open spec fn miss_response(namespace: bool) -> ResponseSpec {
    if namespace {
        ResponseSpec { status: 404, content_type: Option::None, body: BodySpec::Empty }
    } else {
        ResponseSpec {
            status: 404,
            content_type: Option::None,
            body: BodySpec::Text(not_found_text()),
        }
    }
}

/// The response for a plan and a file-read outcome: the document for the
/// root, the file bytes with the derived content type on a hit, and the
/// uniform miss otherwise.
pub open spec fn finish_of(plan: PlanSpec, file: Option<Seq<u8>>) -> ResponseSpec {
    match plan {
        PlanSpec::Document => ResponseSpec {
            status: 200,
            content_type: Option::Some("text/html"@),
            body: BodySpec::Text(bundled_document_spec()),
        },
        PlanSpec::ReadFile { rel, mime, namespace } => match file {
            Option::Some(bytes) => ResponseSpec {
                status: 200,
                content_type: Option::Some(mime),
                body: BodySpec::Bytes(bytes),
            },
            Option::None => miss_response(namespace),
        },
        PlanSpec::Reject { namespace } => miss_response(namespace),
    }
}

/// The view of a file-read outcome.
pub open spec fn file_view(file: Option<Vec<u8>>) -> Option<Seq<u8>> {
    match file {
        Option::Some(v) => Option::Some(v@),
        Option::None => Option::None,
    }
}

/// The whole request pipeline as one function of the request path and of
/// what the filesystem returned for the planned read.
pub open spec fn response_of(p: Seq<u8>, file: Option<Seq<u8>>) -> ResponseSpec {
    finish_of(plan_of(p), file)
}

/// Builds the response for a plan from the file-read outcome the caller
/// obtained. For a plan that touches no file the outcome is ignored.
pub fn finish_request(plan: RequestPlan, file: Option<Vec<u8>>) -> (r: HttpResponse)
    ensures
        r@ == finish_of(plan@, file_view(file)),
{
    match plan {
        RequestPlan::Document => HttpResponse {
            status: 200,
            content_type: Option::Some("text/html"),
            body: Body::Text(bundled_document()),
        },
        RequestPlan::ReadFile { rel: _, mime, namespace } => match file {
            Option::Some(bytes) => HttpResponse {
                status: 200,
                content_type: Option::Some(mime),
                body: Body::Bytes(bytes),
            },
            Option::None => miss(namespace),
        },
        RequestPlan::Reject { namespace } => miss(namespace),
    }
}

/// Builds the uniform miss response.
fn miss(namespace: bool) -> (r: HttpResponse)
    ensures
        r@ == miss_response(namespace),
{
    if namespace {
        HttpResponse { status: 404, content_type: Option::None, body: Body::Empty }
    } else {
        HttpResponse {
            status: 404,
            content_type: Option::None,
            body: Body::Text(not_found_message()),
        }
    }
}

/// A request whose stripped path would resolve outside the anchor directory
/// is always answered not found, whatever the filesystem holds.
pub proof fn lemma_traversal_is_rejected(p: Seq<u8>, file: Option<Seq<u8>>)
    requires
        escapes_anchor(strip_leading(p)),
    ensures
        response_of(p, file).status == 404,
{
    if is_root(p) {
        let s = seq![SLASH];
        assert(s.skip(1) =~= Seq::<u8>::empty());
        assert(strip_leading(Seq::<u8>::empty()) == Seq::<u8>::empty());
        assert(strip_leading(s) == Seq::<u8>::empty());
        let segs = segments_of(Seq::<u8>::empty());
        assert(segs == seq![Seq::<u8>::empty()]);
        assert(seg_step(segs[0]) == 0);
        assert(segs.skip(1) =~~= Seq::<Seq<u8>>::empty());
        assert(!escapes_from(Seq::<Seq<u8>>::empty(), 0));
        assert(!escapes_from(segs, 0));
        assert(false);
    }
    if path_is_safe(strip_leading(p)) {
        lemma_safe_path_stays_inside(strip_leading(p));
        assert(false);
    }
}

/// Every read the front door plans stays inside the anchor directory: the
/// planned relative path never resolves outside the directory it is joined
/// onto.
pub proof fn lemma_planned_read_stays_inside(p: Seq<u8>)
    ensures
        plan_of(p) matches PlanSpec::ReadFile { rel, .. } ==> !escapes_anchor(rel),
{
    match plan_of(p) {
        PlanSpec::ReadFile { rel, .. } => lemma_safe_path_stays_inside(rel),
        _ => (),
    }
}

/// The root path is always answered with the bundled document as HTML,
/// whatever the filesystem holds.
pub proof fn lemma_root_serves_document(file: Option<Seq<u8>>)
    ensures
        response_of(seq![SLASH], file).status == 200,
        response_of(seq![SLASH], file).body == BodySpec::Text(bundled_document_spec()),
        response_of(seq![SLASH], file).content_type == Option::Some("text/html"@),
{
}

/// A safe request under the namespace prefix for a file that exists is
/// answered with the file's bytes and the content type derived from the
/// file's extension alone.
pub proof fn lemma_namespace_hit(p: Seq<u8>, bytes: Seq<u8>)
    requires
        is_classes(p),
        path_is_safe(strip_leading(p)),
    ensures
        response_of(p, Option::Some(bytes)).status == 200,
        response_of(p, Option::Some(bytes)).body == BodySpec::Bytes(bytes),
        response_of(p, Option::Some(bytes)).content_type == Option::Some(
            mime_of(strip_leading(p)),
        ),
{
    assert(!is_root(p));
}

/// Two requests for the same path, with the filesystem unchanged between
/// them, are answered identically: the pipeline keeps no state.
pub proof fn lemma_request_idempotent(
    p1: Seq<u8>,
    p2: Seq<u8>,
    f1: Option<Seq<u8>>,
    f2: Option<Seq<u8>>,
)
    requires
        p1 == p2,
        f1 == f2,
    ensures
        response_of(p1, f1) == response_of(p2, f2),
{
}

} // verus!
