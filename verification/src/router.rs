//! The request router: dispatches a (method, path) pair to one of six
//! operations, each producing a reply with an explicit status code and, for
//! successful data replies, the fixed content-type tag of the wire format.
//! Unmatched method/path pairs — a malformed identifier segment among them —
//! collapse into the same not-found outcome as an unmatched resource.

use vstd::prelude::*;

use crate::cbor::{cbor_contract, cbor_contract_list, cbor_keep, cbor_keep_list};
use crate::contract::{catalog, catalog_get, catalog_has, spec_catalog, Availability, Contract};
use crate::contract::filter_supported;
use crate::ident::{format_hyphenated, is_uuid_text, parse_uuid, spec_hyphenated, uuid_text_value};
use crate::registry::{seq_has_id, Keep, Registry};

verus! {

/// The request methods the service distinguishes; everything else falls
/// through to the not-found outcome.
#[derive(Clone, Copy, PartialEq, Eq, Structural, Debug)]
pub enum Method {
    Get,
    Post,
    Delete,
    Other,
}

/// A response: status code, the content-type tag carried by successful data
/// replies, the location header carried by a successful claim, and the
/// encoded body.
#[derive(Debug)]
pub struct Reply {
    pub status: u16,
    pub content_type: Option<String>,
    pub location: Option<String>,
    pub body: Vec<u8>,
}

/// The exact content-type tag of the wire format.
pub fn cbor_content_type() -> (r: String)
    ensures
        r@ == "application/cbor"@,
{
    String::from_str("application/cbor")
}

/// A `Location` header value pointing at a keep: `/keeps/` followed by the
/// hyphenated identifier.
pub fn keep_location(id: u128) -> (r: String)
    ensures
        r@ == "/keeps/"@ + spec_hyphenated(id),
{
    let mut s = String::from_str("/keeps/");
    let h = format_hyphenated(id);
    s.append(h.as_str());
    s
}

/// A reply carries the wire format's content-type tag.
pub open spec fn is_cbor_tagged(r: Reply) -> bool {
    r.content_type matches Some(ct) && ct@ == "application/cbor"@
}

/// A successful data reply: status 200, tagged, no location, the given body.
pub open spec fn reply_cbor_ok(r: Reply, body: Seq<u8>) -> bool {
    &&& r.status == 200
    &&& is_cbor_tagged(r)
    &&& r.location is None
    &&& r.body@ == body
}

/// The not-found outcome: status 404, no headers, empty body.
pub open spec fn reply_not_found(r: Reply) -> bool {
    &&& r.status == 404
    &&& r.content_type is None
    &&& r.location is None
    &&& r.body@.len() == 0
}

/// A successful claim reply: status 201, tagged, a location naming the new
/// keep, and the keep record as body.
pub open spec fn reply_created(r: Reply, k: Keep) -> bool {
    &&& r.status == 201
    &&& is_cbor_tagged(r)
    &&& r.location matches Some(loc) && loc@ == "/keeps/"@ + spec_hyphenated(k.uuid)
    &&& r.body@ == cbor_keep(k)
}

/// How a claim changes the stored records: the new record is added, and a
/// record already holding the same identifier — negligibly unlikely for a
/// fresh random identifier — gives way, as a map insert would have it.
pub open spec fn claim_step(pre: Seq<Keep>, post: Seq<Keep>, k: Keep) -> bool {
    &&& (!seq_has_id(pre, k.uuid) ==> post == pre.push(k))
    &&& (seq_has_id(pre, k.uuid) ==> exists|i: int|
        0 <= i < pre.len() && (#[trigger] pre[i]).uuid == k.uuid && post == pre.remove(i).push(k))
    &&& seq_has_id(post, k.uuid)
}

/// The path `/contracts`.
pub open spec fn is_contracts_path(p: Seq<u8>) -> bool {
    p.len() == 10 && p[0] == 0x2f && p[1] == 0x63 && p[2] == 0x6f && p[3] == 0x6e && p[4] == 0x74
        && p[5] == 0x72 && p[6] == 0x61 && p[7] == 0x63 && p[8] == 0x74 && p[9] == 0x73
}

/// A path `/contracts/{id}` with a well-formed identifier segment.
pub open spec fn is_contract_item(p: Seq<u8>) -> bool {
    p.len() >= 12 && p[0] == 0x2f && p[1] == 0x63 && p[2] == 0x6f && p[3] == 0x6e && p[4] == 0x74
        && p[5] == 0x72 && p[6] == 0x61 && p[7] == 0x63 && p[8] == 0x74 && p[9] == 0x73 && p[10]
        == 0x2f && is_uuid_text(p.skip(11))
}

/// The path `/keeps`.
pub open spec fn is_keeps_path(p: Seq<u8>) -> bool {
    p.len() == 6 && p[0] == 0x2f && p[1] == 0x6b && p[2] == 0x65 && p[3] == 0x65 && p[4] == 0x70
        && p[5] == 0x73
}

/// A path `/keeps/{id}` with a well-formed identifier segment.
pub open spec fn is_keep_item(p: Seq<u8>) -> bool {
    p.len() >= 8 && p[0] == 0x2f && p[1] == 0x6b && p[2] == 0x65 && p[3] == 0x65 && p[4] == 0x70
        && p[5] == 0x73 && p[6] == 0x2f && is_uuid_text(p.skip(7))
}

/// No route matches the pair: the request falls through to not-found.
pub open spec fn no_route(method: Method, path: Seq<u8>) -> bool {
    match method {
        Method::Get => !is_contracts_path(path) && !is_contract_item(path) && !is_keeps_path(path)
            && !is_keep_item(path),
        Method::Post => !is_contract_item(path),
        Method::Delete => !is_keep_item(path),
        Method::Other => true,
    }
}

/// The full routing contract: what reply a request yields and how it changes
/// the stored records, route by route, for a claim drawing the fresh
/// identifier `fresh_id`.
pub open spec fn routed(
    pre: Seq<Keep>,
    post: Seq<Keep>,
    method: Method,
    path: Seq<u8>,
    fresh_id: u128,
    r: Reply,
) -> bool {
    &&& (method == Method::Get && is_contracts_path(path)) ==> {
        &&& post == pre
        &&& reply_cbor_ok(r, cbor_contract_list(spec_catalog()))
    }
    &&& (method == Method::Get && is_contract_item(path)) ==> {
        let id = uuid_text_value(path.skip(11)) as u128;
        &&& post == pre
        &&& (catalog_has(id) ==> exists|c: Contract|
            spec_catalog().contains(c) && c.uuid == id && reply_cbor_ok(r, cbor_contract(c)))
        &&& (!catalog_has(id) ==> reply_not_found(r))
    }
    &&& (method == Method::Post && is_contract_item(path)) ==> {
        let id = uuid_text_value(path.skip(11)) as u128;
        &&& (catalog_has(id) ==> exists|c: Contract|
            spec_catalog().contains(c) && c.uuid == id && claim_step(
                pre,
                post,
                Keep { uuid: fresh_id, contract: c },
            ) && reply_created(r, Keep { uuid: fresh_id, contract: c }))
        &&& (!catalog_has(id) ==> post == pre && reply_not_found(r))
    }
    &&& (method == Method::Get && is_keeps_path(path)) ==> {
        &&& post == pre
        &&& reply_cbor_ok(r, cbor_keep_list(pre))
    }
    &&& (method == Method::Get && is_keep_item(path)) ==> {
        let id = uuid_text_value(path.skip(7)) as u128;
        &&& post == pre
        &&& (seq_has_id(pre, id) ==> exists|k: Keep|
            pre.contains(k) && k.uuid == id && reply_cbor_ok(r, cbor_keep(k)))
        &&& (!seq_has_id(pre, id) ==> reply_not_found(r))
    }
    &&& (method == Method::Delete && is_keep_item(path)) ==> {
        let id = uuid_text_value(path.skip(7)) as u128;
        &&& (seq_has_id(pre, id) ==> {
            &&& r.status == 200
            &&& r.content_type is None
            &&& r.location is None
            &&& r.body@.len() == 0
            &&& exists|i: int|
                0 <= i < pre.len() && (#[trigger] pre[i]).uuid == id && post == pre.remove(i)
            &&& !seq_has_id(post, id)
        })
        &&& (!seq_has_id(pre, id) ==> post == pre && reply_not_found(r))
    }
    &&& (no_route(method, path) ==> post == pre && reply_not_found(r))
}

/// Catalog stability: any two replies to `GET /contracts`, however far apart
/// in the process lifetime, carry byte-identical bodies — the catalog never
/// changes after start.
pub proof fn lemma_catalog_stable(r1: Reply, r2: Reply)
    requires
        reply_cbor_ok(r1, cbor_contract_list(spec_catalog())),
        reply_cbor_ok(r2, cbor_contract_list(spec_catalog())),
    ensures
        r1.body@ == r2.body@,
        r1.status == r2.status,
{
}

/// Round-trip identity: once a claim has stored the keep `k`, any stored
/// record read back under `k`'s identifier is `k` itself, and its encoded
/// body is byte-for-byte the body returned at claim time.
pub proof fn lemma_claim_roundtrip(pre: Seq<Keep>, post: Seq<Keep>, k: Keep, k2: Keep)
    requires
        crate::registry::unique_ids(post),
        claim_step(pre, post, k),
        post.contains(k2),
        k2.uuid == k.uuid,
    ensures
        k2 == k,
        cbor_keep(k2) == cbor_keep(k),
{
    if !seq_has_id(pre, k.uuid) {
        assert(post == pre.push(k));
        assert(post[post.len() - 1] == k);
        assert(post.contains(k));
    } else {
        let i = choose|i: int|
            0 <= i < pre.len() && (#[trigger] pre[i]).uuid == k.uuid && post == pre.remove(i).push(
                k,
            );
        assert(post[post.len() - 1] == k);
        assert(post.contains(k));
    }
    crate::registry::lemma_keep_determined(post, k, k2);
}

/// The outcome of matching a path against the route table.
#[derive(Clone, Copy, PartialEq, Eq, Structural, Debug)]
pub enum RouteTarget {
    Contracts,
    ContractItem(u128),
    Keeps,
    KeepItem(u128),
    NoMatch,
}

/// At most one route predicate holds of any path.
pub proof fn lemma_routes_disjoint(p: Seq<u8>)
    ensures
        !(is_contracts_path(p) && is_contract_item(p)),
        !(is_contracts_path(p) && is_keeps_path(p)),
        !(is_contracts_path(p) && is_keep_item(p)),
        !(is_contract_item(p) && is_keeps_path(p)),
        !(is_contract_item(p) && is_keep_item(p)),
        !(is_keeps_path(p) && is_keep_item(p)),
{
}

/// Matches a path against the route table, parsing the identifier segment
/// where the route carries one.
pub fn parse_path(p: &[u8]) -> (r: RouteTarget)
    ensures
        match r {
            RouteTarget::Contracts => is_contracts_path(p@),
            RouteTarget::ContractItem(id) => is_contract_item(p@) && id as int == uuid_text_value(
                p@.skip(11),
            ),
            RouteTarget::Keeps => is_keeps_path(p@),
            RouteTarget::KeepItem(id) => is_keep_item(p@) && id as int == uuid_text_value(
                p@.skip(7),
            ),
            RouteTarget::NoMatch => !is_contracts_path(p@) && !is_contract_item(p@)
                && !is_keeps_path(p@) && !is_keep_item(p@),
        },
{
    let n = p.len();
    if n == 10 && p[0] == 0x2f && p[1] == 0x63 && p[2] == 0x6f && p[3] == 0x6e && p[4] == 0x74
        && p[5] == 0x72 && p[6] == 0x61 && p[7] == 0x63 && p[8] == 0x74 && p[9] == 0x73 {
        RouteTarget::Contracts
    } else if n == 6 && p[0] == 0x2f && p[1] == 0x6b && p[2] == 0x65 && p[3] == 0x65 && p[4] == 0x70
        && p[5] == 0x73 {
        RouteTarget::Keeps
    } else if n >= 12 && p[0] == 0x2f && p[1] == 0x63 && p[2] == 0x6f && p[3] == 0x6e && p[4]
        == 0x74 && p[5] == 0x72 && p[6] == 0x61 && p[7] == 0x63 && p[8] == 0x74 && p[9] == 0x73
        && p[10] == 0x2f {
        let rest = vstd::slice::slice_subrange(p, 11, n);
        proof {
            assert(rest@ == p@.skip(11));
        }
        match parse_uuid(rest) {
            Some(id) => RouteTarget::ContractItem(id),
            None => RouteTarget::NoMatch,
        }
    } else if n >= 8 && p[0] == 0x2f && p[1] == 0x6b && p[2] == 0x65 && p[3] == 0x65 && p[4] == 0x70
        && p[5] == 0x73 && p[6] == 0x2f {
        let rest = vstd::slice::slice_subrange(p, 7, n);
        proof {
            assert(rest@ == p@.skip(7));
        }
        match parse_uuid(rest) {
            Some(id) => RouteTarget::KeepItem(id),
            None => RouteTarget::NoMatch,
        }
    } else {
        RouteTarget::NoMatch
    }
}

/// The not-found outcome.
fn not_found() -> (r: Reply)
    ensures
        reply_not_found(r),
{
    Reply { status: 404, content_type: None, location: None, body: Vec::new() }
}

/// Serves `GET /contracts`: the full catalog, always.
pub fn op_get_contracts() -> (r: Reply)
    ensures
        reply_cbor_ok(r, cbor_contract_list(spec_catalog())),
{
    let all = catalog();
    let body = crate::cbor::encode_contract_list(&all);
    Reply { status: 200, content_type: Some(cbor_content_type()), location: None, body }
}

/// Serves `GET /contracts/{id}`: the matching catalog entry, or not-found
/// exactly when no entry carries the identifier.
pub fn op_get_contract(id: u128) -> (r: Reply)
    ensures
        catalog_has(id) ==> exists|c: Contract|
            spec_catalog().contains(c) && c.uuid == id && reply_cbor_ok(r, cbor_contract(c)),
        !catalog_has(id) ==> reply_not_found(r),
{
    match catalog_get(id) {
        None => not_found(),
        Some(c) => {
            let body = crate::cbor::encode_contract(&c);
            Reply { status: 200, content_type: Some(cbor_content_type()), location: None, body }
        },
    }
}

/// Serves `POST /contracts/{id}`: claims the contract under the fresh
/// identifier `fresh_id`, stores the new keep and returns it with a location
/// header; not-found — and no mutation — exactly when no catalog entry
/// carries the identifier.
pub fn op_claim(reg: &mut Registry, id: u128, fresh_id: u128) -> (r: Reply)
    requires
        old(reg).wf(),
    ensures
        final(reg).wf(),
        catalog_has(id) ==> exists|c: Contract|
            spec_catalog().contains(c) && c.uuid == id && claim_step(
                old(reg)@,
                final(reg)@,
                Keep { uuid: fresh_id, contract: c },
            ) && reply_created(r, Keep { uuid: fresh_id, contract: c }),
        !catalog_has(id) ==> final(reg)@ == old(reg)@ && reply_not_found(r),
{
    match catalog_get(id) {
        None => not_found(),
        Some(c) => {
            let keep = reg.claim_with_id(c, fresh_id);
            let body = crate::cbor::encode_keep(&keep);
            Reply {
                status: 201,
                content_type: Some(cbor_content_type()),
                location: Some(keep_location(fresh_id)),
                body,
            }
        },
    }
}

/// Serves `GET /keeps`: a point-in-time copy of every stored keep.
pub fn op_get_keeps(reg: &Registry) -> (r: Reply)
    ensures
        reply_cbor_ok(r, cbor_keep_list(reg@)),
{
    let all = reg.list();
    let body = crate::cbor::encode_keep_list(&all);
    Reply { status: 200, content_type: Some(cbor_content_type()), location: None, body }
}

/// Serves `GET /keeps/{id}`: the stored keep, or not-found exactly when no
/// record carries the identifier.
pub fn op_get_keep(reg: &Registry, id: u128) -> (r: Reply)
    ensures
        seq_has_id(reg@, id) ==> exists|k: Keep|
            reg@.contains(k) && k.uuid == id && reply_cbor_ok(r, cbor_keep(k)),
        !seq_has_id(reg@, id) ==> reply_not_found(r),
{
    match reg.get(id) {
        None => not_found(),
        Some(k) => {
            let body = crate::cbor::encode_keep(&k);
            Reply { status: 200, content_type: Some(cbor_content_type()), location: None, body }
        },
    }
}

/// Serves `DELETE /keeps/{id}`: removes the stored keep — finally and
/// exclusively — or signals not-found, changing nothing, exactly when no
/// record carries the identifier.
pub fn op_delete_keep(reg: &mut Registry, id: u128) -> (r: Reply)
    requires
        old(reg).wf(),
    ensures
        final(reg).wf(),
        seq_has_id(old(reg)@, id) ==> {
            &&& r.status == 200
            &&& r.content_type is None
            &&& r.location is None
            &&& r.body@.len() == 0
            &&& exists|i: int|
                0 <= i < old(reg)@.len() && (#[trigger] old(reg)@[i]).uuid == id && final(reg)@
                    == old(reg)@.remove(i)
            &&& !seq_has_id(final(reg)@, id)
        },
        !seq_has_id(old(reg)@, id) ==> final(reg)@ == old(reg)@ && reply_not_found(r),
{
    match reg.delete(id) {
        Some(_) => Reply { status: 200, content_type: None, location: None, body: Vec::new() },
        None => not_found(),
    }
}

/// Routes one request, with the fresh identifier a claim would use passed in
/// explicitly. This is the deterministic core of request handling: every
/// clause of `routed` is pinned for the given `fresh_id`.
pub fn handle(reg: &mut Registry, method: Method, path: &[u8], fresh_id: u128) -> (r: Reply)
    requires
        old(reg).wf(),
    ensures
        final(reg).wf(),
        routed(old(reg)@, final(reg)@, method, path@, fresh_id, r),
{
    proof {
        lemma_routes_disjoint(path@);
    }
    let target = parse_path(path);
    match (method, target) {
        (Method::Get, RouteTarget::Contracts) => op_get_contracts(),
        (Method::Get, RouteTarget::ContractItem(id)) => op_get_contract(id),
        (Method::Post, RouteTarget::ContractItem(id)) => op_claim(reg, id, fresh_id),
        (Method::Get, RouteTarget::Keeps) => op_get_keeps(reg),
        (Method::Get, RouteTarget::KeepItem(id)) => op_get_keep(reg, id),
        (Method::Delete, RouteTarget::KeepItem(id)) => op_delete_keep(reg, id),
        _ => not_found(),
    }
}

/// The read-only half of the routing contract: what a `GET` yields against
/// the stored records `keeps`, which it never changes.
pub open spec fn read_routed(keeps: Seq<Keep>, path: Seq<u8>, r: Reply) -> bool {
    &&& is_contracts_path(path) ==> reply_cbor_ok(r, cbor_contract_list(spec_catalog()))
    &&& is_contract_item(path) ==> {
        let id = uuid_text_value(path.skip(11)) as u128;
        &&& (catalog_has(id) ==> exists|c: Contract|
            spec_catalog().contains(c) && c.uuid == id && reply_cbor_ok(r, cbor_contract(c)))
        &&& (!catalog_has(id) ==> reply_not_found(r))
    }
    &&& is_keeps_path(path) ==> reply_cbor_ok(r, cbor_keep_list(keeps))
    &&& is_keep_item(path) ==> {
        let id = uuid_text_value(path.skip(7)) as u128;
        &&& (seq_has_id(keeps, id) ==> exists|k: Keep|
            keeps.contains(k) && k.uuid == id && reply_cbor_ok(r, cbor_keep(k)))
        &&& (!seq_has_id(keeps, id) ==> reply_not_found(r))
    }
    &&& (!is_contracts_path(path) && !is_contract_item(path) && !is_keeps_path(path)
        && !is_keep_item(path)) ==> reply_not_found(r)
}

/// A `GET` answered through the read-only path is answered exactly as the
/// full router would answer it, for any fresh identifier: readers and the
/// writer agree.
pub proof fn lemma_read_matches_routed(keeps: Seq<Keep>, path: Seq<u8>, fresh_id: u128, r: Reply)
    ensures
        read_routed(keeps, path, r) <==> routed(keeps, keeps, Method::Get, path, fresh_id, r),
{
}

/// Routes the read-only requests: a `GET` yields `Some` reply, shared access
/// to the registry sufficing — readers may run concurrently with each other —
/// and every other method yields `None`, for the writer's path.
pub fn handle_read(reg: &Registry, method: Method, path: &[u8]) -> (r: Option<Reply>)
    ensures
        match r {
            Some(reply) => method == Method::Get && read_routed(reg@, path@, reply),
            None => method != Method::Get,
        },
{
    if !matches!(method, Method::Get) {
        return None;
    }
    proof {
        lemma_routes_disjoint(path@);
    }
    match parse_path(path) {
        RouteTarget::Contracts => Some(op_get_contracts()),
        RouteTarget::ContractItem(id) => Some(op_get_contract(id)),
        RouteTarget::Keeps => Some(op_get_keeps(reg)),
        RouteTarget::KeepItem(id) => Some(op_get_keep(reg, id)),
        RouteTarget::NoMatch => Some(not_found()),
    }
}

/// Relies on uuid::Uuid::new_v4, for drawing the fresh random 128-bit keep
/// identifier a claim stores its record under. Nothing is promised of the
/// value: callers cope with every outcome, collisions included.
#[verifier::external_body]
fn fresh_keep_id() -> (r: u128) {
    uuid::Uuid::new_v4().as_u128()
}

/// Routes one request, drawing the fresh identifier itself. The reply and
/// the new stored records are those of `handle` for some identifier value.
pub fn handle_request(reg: &mut Registry, method: Method, path: &[u8]) -> (r: Reply)
    requires
        old(reg).wf(),
    ensures
        final(reg).wf(),
        exists|fresh_id: u128| routed(old(reg)@, final(reg)@, method, path@, fresh_id, r),
{
    let fresh_id = fresh_keep_id();
    let r = handle(reg, method, path, fresh_id);
    proof {
        assert(routed(old(reg)@, final(reg)@, method, path@, fresh_id, r));
    }
    r
}

/// The catalog as the capability-filtering sibling serves it: only the
/// entries whose backend the host can run, in catalog order.
pub open spec fn filtered_catalog(avail: Availability) -> Seq<Contract> {
    spec_catalog().filter(|c: Contract| c.spec_supported(avail))
}

/// Whether some contract in `s` carries the identifier `id`.
pub open spec fn contracts_have_id(s: Seq<Contract>, id: u128) -> bool {
    exists|i: int| 0 <= i < s.len() && (#[trigger] s[i]).uuid == id
}

/// The routing contract of the capability-filtering sibling: the two
/// contract routes serve the filtered catalog in the identical wire format;
/// everything else, keep routes included, is not-found.
pub open spec fn filtered_routed(avail: Availability, method: Method, path: Seq<u8>, r: Reply) -> bool {
    &&& (method == Method::Get && is_contracts_path(path)) ==> reply_cbor_ok(
        r,
        cbor_contract_list(filtered_catalog(avail)),
    )
    &&& (method == Method::Get && is_contract_item(path)) ==> {
        let id = uuid_text_value(path.skip(11)) as u128;
        &&& (contracts_have_id(filtered_catalog(avail), id) ==> exists|c: Contract|
            filtered_catalog(avail).contains(c) && c.uuid == id && reply_cbor_ok(
                r,
                cbor_contract(c),
            ))
        &&& (!contracts_have_id(filtered_catalog(avail), id) ==> reply_not_found(r))
    }
    &&& !(method == Method::Get && (is_contracts_path(path) || is_contract_item(path)))
        ==> reply_not_found(r)
}

/// Routes one request of the capability-filtering sibling service.
#[verifier::loop_isolation(false)]
pub fn handle_filtered(avail: &Availability, method: Method, path: &[u8]) -> (r: Reply)
    ensures
        filtered_routed(*avail, method, path@, r),
{
    proof {
        lemma_routes_disjoint(path@);
    }
    let target = parse_path(path);
    match (method, target) {
        (Method::Get, RouteTarget::Contracts) => {
            let all = catalog();
            let supported = filter_supported(&all, avail);
            let body = crate::cbor::encode_contract_list(&supported);
            Reply { status: 200, content_type: Some(cbor_content_type()), location: None, body }
        },
        (Method::Get, RouteTarget::ContractItem(id)) => {
            let all = catalog();
            let supported = filter_supported(&all, avail);
            let mut i: usize = 0;
            while i < supported.len()
                invariant
                    supported@ == filtered_catalog(*avail),
                    i <= supported@.len(),
                    forall|j: int| 0 <= j < i ==> (#[trigger] supported@[j]).uuid != id,
                decreases supported@.len() - i,
            {
                if supported[i].uuid == id {
                    let c = supported[i];
                    proof {
                        assert(filtered_catalog(*avail)[i as int].uuid == id);
                        assert(contracts_have_id(filtered_catalog(*avail), id));
                        assert(filtered_catalog(*avail).contains(c));
                    }
                    let body = crate::cbor::encode_contract(&c);
                    let r = Reply {
                        status: 200,
                        content_type: Some(cbor_content_type()),
                        location: None,
                        body,
                    };
                    proof {
                        assert(reply_cbor_ok(r, cbor_contract(c)));
                    }
                    return r;
                }
                i += 1;
            }
            not_found()
        },
        _ => not_found(),
    }
}

/// Whether a received header value matches the expected one exactly — the
/// check a client must make of the content-type tag before decoding a body.
pub fn header_value_matches(found: Option<&[u8]>, expected: &[u8]) -> (r: bool)
    ensures
        r <==> (found matches Some(f) && f@ == expected@),
{
    match found {
        None => false,
        Some(f) => bytes_eq(f, expected),
    }
}

/// Byte-for-byte equality of two slices.
fn bytes_eq(a: &[u8], b: &[u8]) -> (r: bool)
    ensures
        r <==> a@ == b@,
{
    if a.len() != b.len() {
        return false;
    }
    let mut i: usize = 0;
    while i < a.len()
        invariant
            a@.len() == b@.len(),
            i <= a@.len(),
            forall|j: int| 0 <= j < i ==> a@[j] == b@[j],
        decreases a@.len() - i,
    {
        if a[i] != b[i] {
            return false;
        }
        i += 1;
    }
    proof {
        assert(a@ =~= b@);
    }
    true
}

} // verus!
