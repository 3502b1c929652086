//! gRPC route filters and the pipeline that runs them in order.
use vstd::prelude::*;
use crate::authz::Meta;
use crate::http_filter::ModifyRequestHeader;
use crate::request::{HeadersView, Request};

verus! {

/// A synthetic gRPC error response, with its status code.
pub struct RespondWithError {
    pub code: u16,
    pub message: String,
}

/// Why a configured gRPC error responder was refused.
#[derive(Clone, Copy, Debug, PartialEq, Eq, Structural)]
pub enum ErrorResponderError {
    /// A code that does not fit 16 bits.
    InvalidStatusNonU16(u32),
}

impl RespondWithError {
    /// Builds an error responder; the code must fit 16 bits.
    pub fn try_new(code: u32, message: String) -> (r: Result<RespondWithError, ErrorResponderError>)
        ensures
            code > 0xffff ==> r == Err::<RespondWithError, _>(
                ErrorResponderError::InvalidStatusNonU16(code),
            ),
            code <= 0xffff ==> r == Ok::<_, ErrorResponderError>(
                RespondWithError { code: code as u16, message },
            ),
    {
        if code > 0xffff {
            return Err(ErrorResponderError::InvalidStatusNonU16(code));
        }
        Ok(RespondWithError { code: code as u16, message })
    }

    pub fn duplicate(&self) -> (r: RespondWithError)
        ensures
            r == *self,
    {
        RespondWithError { code: self.code, message: self.message.clone() }
    }
}

/// A filter of a gRPC route.
pub enum GrpcRouteFilter {
    Error(RespondWithError),
    RequestHeaders(ModifyRequestHeader),
    /// A filter kind this library does not know; requests on its route fail
    /// rather than skip it.
    Unknown,
}

/// Why the filters stopped a gRPC request.
pub enum GrpcFilterOutcome {
    ErrorResponse(RespondWithError),
    UnknownFilter(Meta),
}

/// Runs `filters` in order on headers `h` of a request on a route labelled
/// `meta`: header filters rewrite the headers, and the first filter that
/// answers the request stops the run.
pub open spec fn spec_filters(filters: Seq<GrpcRouteFilter>, meta: Meta, h: HeadersView) -> (
    HeadersView,
    Result<(), GrpcFilterOutcome>,
)
    decreases filters.len(),
{
    if filters.len() == 0 {
        (h, Ok(()))
    } else {
        match filters[0] {
            GrpcRouteFilter::RequestHeaders(m) => spec_filters(
                filters.drop_first(),
                meta,
                m.spec_apply(h),
            ),
            GrpcRouteFilter::Error(e) => (h, Err(GrpcFilterOutcome::ErrorResponse(e))),
            GrpcRouteFilter::Unknown => (h, Err(GrpcFilterOutcome::UnknownFilter(meta))),
        }
    }
}

/// Runs the filters of a gRPC route on a request, in order, stopping at the
/// first that answers it.
pub fn apply_filters(filters: &Vec<GrpcRouteFilter>, meta: &Meta, req: &mut Request) -> (r: Result<
    (),
    GrpcFilterOutcome,
>)
    ensures
        final(req).method == old(req).method,
        final(req).uri == old(req).uri,
        (final(req)@.headers, r) == spec_filters(filters@, *meta, old(req)@.headers),
{
    let ghost all = spec_filters(filters@, *meta, req@.headers);
    let mut k: usize = 0;
    assert(filters@.subrange(0, filters@.len() as int) =~= filters@);
    while k < filters.len()
        invariant
            k <= filters@.len(),
            req.method == old(req).method,
            req.uri == old(req).uri,
            all == spec_filters(filters@, *meta, old(req)@.headers),
            spec_filters(filters@.subrange(k as int, filters@.len() as int), *meta, req@.headers)
                == all,
        decreases filters@.len() - k,
    {
        let ghost rest = filters@.subrange(k as int, filters@.len() as int);
        proof {
            assert(rest[0] == filters@[k as int]);
            assert(rest.drop_first() =~= filters@.subrange(k + 1, filters@.len() as int));
        }
        match &filters[k] {
            GrpcRouteFilter::RequestHeaders(m) => {
                m.apply(&mut req.headers);
            },
            GrpcRouteFilter::Error(e) => {
                return Err(GrpcFilterOutcome::ErrorResponse(e.duplicate()));
            },
            GrpcRouteFilter::Unknown => {
                return Err(GrpcFilterOutcome::UnknownFilter(meta.duplicate()));
            },
        }
        k = k + 1;
    }
    proof {
        assert(filters@.subrange(k as int, filters@.len() as int).len() == 0);
    }
    Ok(())
}

} // verus!
