//! The request coordinator's decisions: classifying upstream statuses
//! and storage failures, enforcing the streaming download limit, the
//! partial-failure policy once all fetches have settled, and which
//! upstream headers pass through to the response.

use vstd::prelude::*;
use crate::errors::ImageProcessingError;
use crate::request::Watermark;

verus! {

/// Bytes of a successfully fetched image together with the upstream's
/// response headers, each a raw name and value.
#[derive(Debug)]
pub struct ImageResponse {
    pub bytes: Vec<u8>,
    pub response_headers: Vec<(Vec<u8>, Vec<u8>)>,
}

/// Sorts an upstream HTTP status: a success passes, a client error is
/// surfaced with its code and the resource it was received for, and
/// anything else is a plain download failure.
pub fn classify_status(status: u16, resource: String) -> (r: Result<(), ImageProcessingError>)
    ensures
        200 <= status < 300 ==> r is Ok,
        400 <= status < 500 ==> r == Result::<(), ImageProcessingError>::Err(
            ImageProcessingError::ClientReturnedErrorStatusCode(status, resource),
        ),
        !(200 <= status < 300) && !(400 <= status < 500) ==> r == Result::<
            (),
            ImageProcessingError,
        >::Err(ImageProcessingError::ImageDownloadFailed),
{
    if 200 <= status && status < 300 {
        Ok(())
    } else if 400 <= status && status < 500 {
        Err(ImageProcessingError::ClientReturnedErrorStatusCode(status, resource))
    } else {
        Err(ImageProcessingError::ImageDownloadFailed)
    }
}

/// Adds one streamed chunk to the running byte count of a download,
/// failing exactly when a configured maximum is crossed; the fetch is
/// then aborted rather than the count kept growing.
pub fn accumulate_chunk(total: u64, chunk_len: u64, max_file_size: Option<u32>) -> (r: Result<
    u64,
    ImageProcessingError,
>)
    requires
        total + chunk_len <= u64::MAX,
    ensures
        r matches Ok(t) ==> t == total + chunk_len,
        match max_file_size {
            Some(max) => if total + chunk_len > max {
                r == Result::<u64, ImageProcessingError>::Err(
                    ImageProcessingError::FileSizeExceeded(max),
                )
            } else {
                r is Ok
            },
            None => r is Ok,
        },
{
    let new_total = total + chunk_len;
    match max_file_size {
        Some(max) => {
            if new_total > max as u64 {
                Err(ImageProcessingError::FileSizeExceeded(max))
            } else {
                Ok(new_total)
            }
        },
        None => Ok(new_total),
    }
}

/// The storage error code for a missing object.
pub open spec fn spec_no_such_key() -> Seq<u8> {
    seq![78u8, 111u8, 83u8, 117u8, 99u8, 104u8, 75u8, 101u8, 121u8]
}

/// The storage error code for a forbidden object.
pub open spec fn spec_access_denied() -> Seq<u8> {
    seq![65u8, 99u8, 99u8, 101u8, 115u8, 115u8, 68u8, 101u8, 110u8, 105u8, 101u8, 100u8]
}

/// The storage error code a local development store answers for a
/// malformed object name.
pub open spec fn spec_invalid_object_name() -> Seq<u8> {
    seq![88u8, 77u8, 105u8, 110u8, 105u8, 111u8, 73u8, 110u8, 118u8, 97u8, 108u8, 105u8, 100u8, 79u8, 98u8, 106u8, 101u8, 99u8, 116u8, 78u8, 97u8, 109u8, 101u8]
}

/// Maps a failed object-storage fetch onto the error taxonomy: a
/// timeout stays a timeout; a service answer is read by its error code
/// (missing object becomes an upstream 404, forbidden a 403, a
/// malformed object name an invalid reference); everything else is a
/// plain download failure.
pub fn classify_storage_error(
    timed_out: bool,
    service_error: bool,
    code: Option<Vec<u8>>,
    resource: String,
) -> (r: ImageProcessingError)
    ensures
        timed_out ==> r == ImageProcessingError::ImageDownloadTimedOut,
        !timed_out && service_error ==> match code {
            Some(c) => if c@ == spec_no_such_key() {
                r == ImageProcessingError::ClientReturnedErrorStatusCode(404, resource)
            } else if c@ == spec_access_denied() {
                r == ImageProcessingError::ClientReturnedErrorStatusCode(403, resource)
            } else if c@ == spec_invalid_object_name() {
                r == ImageProcessingError::InvalidResourceUriProvided(resource)
            } else {
                r == ImageProcessingError::ImageDownloadFailed
            },
            None => r == ImageProcessingError::ImageDownloadFailed,
        },
        !timed_out && !service_error ==> r == ImageProcessingError::ImageDownloadFailed,
{
    if timed_out {
        return ImageProcessingError::ImageDownloadTimedOut;
    }
    if !service_error {
        return ImageProcessingError::ImageDownloadFailed;
    }
    match code {
        Some(c) => {
            let no_such_key: Vec<u8> = vec![78u8, 111u8, 83u8, 117u8, 99u8, 104u8, 75u8, 101u8, 121u8];
            let access_denied: Vec<u8> = vec![65u8, 99u8, 99u8, 101u8, 115u8, 115u8, 68u8, 101u8, 110u8, 105u8, 101u8, 100u8];
            let invalid_object: Vec<u8> = vec![88u8, 77u8, 105u8, 110u8, 105u8, 111u8, 73u8, 110u8, 118u8, 97u8, 108u8, 105u8, 100u8, 79u8, 98u8, 106u8, 101u8, 99u8, 116u8, 78u8, 97u8, 109u8, 101u8];
            proof {
                assert(no_such_key@ =~= spec_no_such_key());
                assert(access_denied@ =~= spec_access_denied());
                assert(invalid_object@ =~= spec_invalid_object_name());
            }
            if eq_bytes(&c, &no_such_key) {
                ImageProcessingError::ClientReturnedErrorStatusCode(404, resource)
            } else if eq_bytes(&c, &access_denied) {
                ImageProcessingError::ClientReturnedErrorStatusCode(403, resource)
            } else if eq_bytes(&c, &invalid_object) {
                ImageProcessingError::InvalidResourceUriProvided(resource)
            } else {
                ImageProcessingError::ImageDownloadFailed
            }
        },
        None => ImageProcessingError::ImageDownloadFailed,
    }
}

/// The prefix under which upstream storage metadata keys are exposed
/// among the response headers.
pub open spec fn spec_amz_meta_prefix() -> Seq<u8> {
    seq![120u8, 45u8, 97u8, 109u8, 122u8, 45u8, 109u8, 101u8, 116u8, 97u8, 45u8]
}

/// Prefixes an upstream storage metadata key for the response headers.
pub fn amz_meta_key(key: &Vec<u8>) -> (r: Vec<u8>)
    ensures
        r@ == spec_amz_meta_prefix() + key@,
{
    let mut out: Vec<u8> = vec![120u8, 45u8, 97u8, 109u8, 122u8, 45u8, 109u8, 101u8, 116u8, 97u8, 45u8];
    proof {
        assert(out@ =~= spec_amz_meta_prefix() + key@.take(0));
    }
    let mut i: usize = 0;
    while i < key.len()
        invariant
            0 <= i <= key@.len(),
            out@ == spec_amz_meta_prefix() + key@.take(i as int),
        decreases key@.len() - i,
    {
        out.push(key[i]);
        proof {
            assert(spec_amz_meta_prefix() + key@.take(i + 1 as int) =~= (spec_amz_meta_prefix()
                + key@.take(i as int)).push(key@[i as int]));
        }
        i = i + 1;
    }
    proof {
        assert(spec_amz_meta_prefix() + key@.take(key@.len() as int) =~= spec_amz_meta_prefix()
            + key@);
    }
    out
}

/// Byte-wise equality of two buffers.
fn eq_bytes(a: &Vec<u8>, b: &Vec<u8>) -> (r: bool)
    ensures
        r == (a@ == b@),
{
    if a.len() != b.len() {
        proof {
            assert(a@ != b@);
        }
        return false;
    }
    let mut i: usize = 0;
    while i < a.len()
        invariant
            0 <= i <= a@.len(),
            a@.len() == b@.len(),
            forall|j: int| 0 <= j < i ==> a@[j] == b@[j],
        decreases a@.len() - i,
    {
        if a[i] != b[i] {
            proof {
                assert(a@ != b@);
            }
            return false;
        }
        i = i + 1;
    }
    proof {
        assert(a@ =~= b@);
    }
    true
}

/// What the composition receives once every fetch has settled: the base
/// image, the surviving watermarks in request order (each paired with
/// its own specification), and how many watermarks were dropped.
pub struct FetchOutcome {
    pub base: ImageResponse,
    pub watermarks: Vec<(Watermark, ImageResponse)>,
    pub dropped: usize,
}

/// The watermarks that survive fetching: those whose fetch succeeded,
/// in request order, each paired with its specification.
pub open spec fn spec_retained(
    specs: Seq<Watermark>,
    results: Seq<Result<ImageResponse, ImageProcessingError>>,
) -> Seq<(Watermark, ImageResponse)>
    decreases results.len(),
{
    if results.len() == 0 || specs.len() == 0 {
        Seq::empty()
    } else if results.last() is Ok {
        spec_retained(specs.drop_last(), results.drop_last()).push(
            (specs.last(), results.last()->Ok_0),
        )
    } else {
        spec_retained(specs.drop_last(), results.drop_last())
    }
}

/// How many fetches in a settled list failed.
pub open spec fn spec_dropped(results: Seq<Result<ImageResponse, ImageProcessingError>>) -> int
    decreases results.len(),
{
    if results.len() == 0 {
        0
    } else if results.last() is Err {
        spec_dropped(results.drop_last()) + 1
    } else {
        spec_dropped(results.drop_last())
    }
}

/// The positions, in request order, of the watermark fetches that
/// succeeded.
pub open spec fn spec_ok_indices(results: Seq<Result<ImageResponse, ImageProcessingError>>) -> Seq<
    int,
>
    decreases results.len(),
{
    if results.len() == 0 {
        Seq::empty()
    } else if results.last() is Ok {
        spec_ok_indices(results.drop_last()).push(results.len() - 1)
    } else {
        spec_ok_indices(results.drop_last())
    }
}

/// The survivors are exactly the watermarks whose fetch succeeded: the
/// k-th survivor is the k-th watermark with a successful fetch, paired
/// with its own specification and its own fetched image, and the
/// survivors keep their request order (their positions are strictly
/// increasing).
pub proof fn lemma_retained_pairs_by_position(
    specs: Seq<Watermark>,
    results: Seq<Result<ImageResponse, ImageProcessingError>>,
)
    requires
        specs.len() == results.len(),
    ensures
        spec_retained(specs, results).len() == spec_ok_indices(results).len(),
        forall|k: int|
            0 <= k < spec_ok_indices(results).len() ==> 0 <= #[trigger] spec_ok_indices(results)[k]
                < results.len(),
        forall|k: int|
            0 <= k < spec_ok_indices(results).len() ==> results[#[trigger] spec_ok_indices(
                results,
            )[k]] is Ok,
        forall|k: int|
            0 <= k < spec_ok_indices(results).len() ==> #[trigger] spec_retained(specs, results)[k]
                == (
                specs[spec_ok_indices(results)[k]],
                results[spec_ok_indices(results)[k]]->Ok_0,
            ),
        forall|k: int|
            0 <= k < spec_ok_indices(results).len() - 1 ==> #[trigger] spec_ok_indices(results)[k]
                < spec_ok_indices(results)[k + 1],
    decreases results.len(),
{
    if results.len() > 0 {
        let n = results.len() as int;
        let sub_specs = specs.drop_last();
        let sub_results = results.drop_last();
        lemma_retained_pairs_by_position(sub_specs, sub_results);
        let idx = spec_ok_indices(results);
        let ret = spec_retained(specs, results);
        let sidx = spec_ok_indices(sub_results);
        let sret = spec_retained(sub_specs, sub_results);
        assert forall|k: int| 0 <= k < idx.len() implies 0 <= #[trigger] idx[k] < results.len()
            && results[idx[k]] is Ok && ret[k] == (specs[idx[k]], results[idx[k]]->Ok_0) by {
            if results.last() is Ok {
                if k < idx.len() - 1 {
                    assert(idx[k] == sidx[k]);
                    assert(ret[k] == sret[k]);
                    let i = sidx[k];
                    assert(sub_results[i] == results[i]);
                    assert(sub_specs[i] == specs[i]);
                } else {
                    assert(idx[k] == n - 1);
                    assert(ret[k] == (specs[n - 1], results[n - 1]->Ok_0));
                }
            } else {
                assert(idx == sidx);
                assert(ret == sret);
                assert(ret[k] == sret[k]);
                let i = sidx[k];
                assert(sub_results[i] == results[i]);
                assert(sub_specs[i] == specs[i]);
            }
        }
        assert forall|k: int| 0 <= k < idx.len() - 1 implies #[trigger] idx[k] < idx[k + 1] by {
            if results.last() is Ok {
                assert(idx[k] == sidx[k]);
                if k < idx.len() - 2 {
                    assert(idx[k + 1] == sidx[k + 1]);
                } else {
                    assert(sret[k] == sret[k]);
                    assert(0 <= sidx[k] < sub_results.len());
                    assert(idx[k + 1] == n - 1);
                }
            } else {
                assert(idx == sidx);
                assert(idx[k] == sidx[k] && idx[k + 1] == sidx[k + 1]);
            }
        }
    }
}

/// Every watermark either survives or is dropped.
pub proof fn lemma_retained_dropped_partition(
    specs: Seq<Watermark>,
    results: Seq<Result<ImageResponse, ImageProcessingError>>,
)
    requires
        specs.len() == results.len(),
    ensures
        spec_retained(specs, results).len() + spec_dropped(results) == results.len(),
        0 <= spec_dropped(results) <= results.len(),
    decreases results.len(),
{
    if results.len() > 0 {
        lemma_retained_dropped_partition(specs.drop_last(), results.drop_last());
    }
}

/// What a successful settling promises: the base image is the fetched
/// one, the surviving watermarks are exactly the successfully fetched
/// ones in request order with their own specifications, and the drop
/// count accounts for every failed watermark fetch.
pub open spec fn spec_fetch_outcome_ok(
    out: FetchOutcome,
    base: ImageResponse,
    specs: Seq<Watermark>,
    results: Seq<Result<ImageResponse, ImageProcessingError>>,
) -> bool {
    &&& out.base == base
    &&& out.watermarks@ == spec_retained(specs, results)
    &&& out.dropped == spec_dropped(results)
    &&& out.watermarks@.len() + out.dropped == results.len()
}

/// The settling contract: a failed base fetch surfaces its own error
/// and nothing survives to compose; with a fetched base the outcome is
/// as `spec_fetch_outcome_ok` says.
pub open spec fn spec_collected(
    r: Result<FetchOutcome, ImageProcessingError>,
    base: Result<ImageResponse, ImageProcessingError>,
    specs: Seq<Watermark>,
    results: Seq<Result<ImageResponse, ImageProcessingError>>,
) -> bool {
    match base {
        Err(e) => r matches Err(e2) && e2 == e,
        Ok(b) => r matches Ok(out) && spec_fetch_outcome_ok(out, b, specs, results),
    }
}

/// Applies the partial-failure policy once every fetch attempt has
/// settled. A failed base fetch fails the whole request with that very
/// error, and nothing survives to compose. A failed watermark fetch is
/// recovered: that watermark is dropped and counted, and the remaining
/// watermarks keep their request order, each paired with its own
/// specification.
pub fn collect_fetches(
    base: Result<ImageResponse, ImageProcessingError>,
    watermarks: Vec<Watermark>,
    results: Vec<Result<ImageResponse, ImageProcessingError>>,
) -> (r: Result<FetchOutcome, ImageProcessingError>)
    requires
        watermarks@.len() == results@.len(),
    ensures
        spec_collected(r, base, watermarks@, results@),
{
    let base_image = match base {
        Ok(b) => b,
        Err(e) => {
            return Err(e);
        },
    };
    let ghost all_specs = watermarks@;
    let ghost all_results = results@;
    let mut specs = watermarks;
    let mut rs = results;
    let n: usize = rs.len();
    let mut retained: Vec<(Watermark, ImageResponse)> = Vec::new();
    let mut dropped: usize = 0;
    proof {
        assert(rs@ =~= all_results.take(n as int));
        assert(specs@ =~= all_specs.take(n as int));
        assert(spec_retained(all_specs, all_results) =~= spec_retained(specs@, rs@)
            + retained@);
    }
    while rs.len() > 0
        invariant
            specs@.len() == rs@.len(),
            rs@.len() <= n,
            specs@ == all_specs.take(rs@.len() as int),
            rs@ == all_results.take(rs@.len() as int),
            all_specs.len() == all_results.len() == n,
            spec_retained(all_specs, all_results) == spec_retained(specs@, rs@) + retained@,
            spec_dropped(all_results) == spec_dropped(rs@) + dropped,
            dropped + rs@.len() <= n,
        decreases rs@.len(),
    {
        let ghost i = rs@.len() as int;
        proof {
            assert(rs@.drop_last() =~= all_results.take(i - 1));
            assert(specs@.drop_last() =~= all_specs.take(i - 1));
        }
        let w = specs.pop().unwrap();
        let res = rs.pop().unwrap();
        match res {
            Ok(image) => {
                proof {
                    assert(spec_retained(all_specs.take(i), all_results.take(i))
                        =~= spec_retained(all_specs.take(i - 1), all_results.take(i - 1)).push(
                        (w, image),
                    ));
                    assert(spec_retained(all_specs.take(i - 1), all_results.take(i - 1)).push(
                        (w, image),
                    ) + retained@ =~= spec_retained(all_specs.take(i - 1), all_results.take(i - 1))
                        + retained@.insert(0, (w, image)));
                }
                retained.insert(0, (w, image));
            },
            Err(_) => {
                dropped = dropped + 1;
            },
        }
    }
    proof {
        assert(spec_retained(specs@, rs@) + retained@ =~= retained@);
        lemma_retained_dropped_partition(all_specs, all_results);
    }
    Ok(FetchOutcome { base: base_image, watermarks: retained, dropped })
}


/// ASCII lowercase of one byte; other bytes pass unchanged.
pub open spec fn spec_ascii_lower(b: u8) -> u8 {
    if 65 <= b <= 90 {
        (b + 32) as u8
    } else {
        b
    }
}

/// The response header name `content-type`.
pub open spec fn spec_content_type() -> Seq<u8> {
    seq![99u8, 111u8, 110u8, 116u8, 101u8, 110u8, 116u8, 45u8, 116u8, 121u8, 112u8, 101u8]
}

/// The response header name `content-length`.
pub open spec fn spec_content_length() -> Seq<u8> {
    seq![99u8, 111u8, 110u8, 116u8, 101u8, 110u8, 116u8, 45u8, 108u8, 101u8, 110u8, 103u8, 116u8, 104u8]
}

/// True of a header name the proxy determines itself, compared
/// ASCII-case-insensitively: the content type and length of the answer
/// are those of the re-encoded image, not the upstream's.
pub open spec fn spec_is_reserved_header(name: Seq<u8>) -> bool {
    ||| name.map_values(|b: u8| spec_ascii_lower(b)) == spec_content_type()
    ||| name.map_values(|b: u8| spec_ascii_lower(b)) == spec_content_length()
}

/// The upstream headers that pass through to the response: every one
/// whose name is not reserved, in their original order.
pub open spec fn spec_passthrough(headers: Seq<(Vec<u8>, Vec<u8>)>) -> Seq<(Vec<u8>, Vec<u8>)>
    decreases headers.len(),
{
    if headers.len() == 0 {
        Seq::empty()
    } else if spec_is_reserved_header(headers.last().0@) {
        spec_passthrough(headers.drop_last())
    } else {
        spec_passthrough(headers.drop_last()).push(headers.last())
    }
}

/// ASCII-lowercases a header name byte by byte.
fn ascii_lower_bytes(name: &Vec<u8>) -> (r: Vec<u8>)
    ensures
        r@ == name@.map_values(|b: u8| spec_ascii_lower(b)),
{
    let mut out: Vec<u8> = Vec::new();
    let mut i: usize = 0;
    while i < name.len()
        invariant
            0 <= i <= name@.len(),
            out@ == name@.take(i as int).map_values(|b: u8| spec_ascii_lower(b)),
        decreases name@.len() - i,
    {
        let b = name[i];
        let lowered: u8 = if 65 <= b && b <= 90 {
            b + 32
        } else {
            b
        };
        out.push(lowered);
        proof {
            assert(name@.take(i + 1 as int).map_values(|b: u8| spec_ascii_lower(b)) =~= name@.take(
                i as int,
            ).map_values(|b: u8| spec_ascii_lower(b)).push(spec_ascii_lower(name@[i as int])));
        }
        i = i + 1;
    }
    proof {
        assert(name@.take(name@.len() as int) =~= name@);
    }
    out
}

/// Decides whether a header name is one the proxy determines itself.
pub fn is_reserved_header(name: &Vec<u8>) -> (r: bool)
    ensures
        r == spec_is_reserved_header(name@),
{
    let lower = ascii_lower_bytes(name);
    let content_type: Vec<u8> = vec![99u8, 111u8, 110u8, 116u8, 101u8, 110u8, 116u8, 45u8, 116u8, 121u8, 112u8, 101u8];
    let content_length: Vec<u8> = vec![99u8, 111u8, 110u8, 116u8, 101u8, 110u8, 116u8, 45u8, 108u8, 101u8, 110u8, 103u8, 116u8, 104u8];
    proof {
        assert(content_type@ =~= spec_content_type());
        assert(content_length@ =~= spec_content_length());
    }
    eq_bytes(&lower, &content_type) || eq_bytes(&lower, &content_length)
}

/// Keeps, in order, every upstream header whose name the proxy does not
/// determine itself.
pub fn passthrough_headers(headers: Vec<(Vec<u8>, Vec<u8>)>) -> (r: Vec<(Vec<u8>, Vec<u8>)>)
    ensures
        r@ == spec_passthrough(headers@),
{
    let ghost all = headers@;
    let mut rest = headers;
    let mut kept: Vec<(Vec<u8>, Vec<u8>)> = Vec::new();
    proof {
        assert(rest@ =~= all.take(rest@.len() as int));
        assert(spec_passthrough(all) =~= spec_passthrough(rest@) + kept@);
    }
    while rest.len() > 0
        invariant
            rest@.len() <= all.len(),
            rest@ == all.take(rest@.len() as int),
            spec_passthrough(all) == spec_passthrough(rest@) + kept@,
        decreases rest@.len(),
    {
        let ghost i = rest@.len() as int;
        proof {
            assert(rest@.drop_last() =~= all.take(i - 1));
        }
        let header = rest.pop().unwrap();
        if is_reserved_header(&header.0) {
            proof {
                assert(spec_passthrough(all.take(i)) + kept@ =~= spec_passthrough(
                    all.take(i - 1),
                ) + kept@);
            }
        } else {
            proof {
                assert(spec_passthrough(all.take(i)) + kept@ =~= spec_passthrough(
                    all.take(i - 1),
                ) + kept@.insert(0, header));
            }
            kept.insert(0, header);
        }
    }
    proof {
        assert(spec_passthrough(rest@) + kept@ =~= kept@);
    }
    kept
}

} // verus!
