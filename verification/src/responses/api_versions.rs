//! The api-versions response serializer: an error code, the byte size of the
//! version table, then one `(api key, min version, max version)` row per
//! supported API.

use vstd::prelude::*;

use crate::responses::primitive::{
    lemma_ser_elems_snoc, lemma_ser_elems_whole, ser_i16, ser_i32, spec_ser_elems, spec_ser_i16,
    spec_ser_i32,
};
use crate::parser::primitive::MAX_WIRE;

verus! {

/// One supported API: its key, lowest version and highest version.
#[derive(Debug, PartialEq, Clone, Copy)]
pub struct ApiVersion(pub i16, pub i16, pub i16);

impl DeepView for ApiVersion {
    type V = ApiVersion;

    open spec fn deep_view(&self) -> ApiVersion {
        *self
    }
}

#[derive(Debug, PartialEq)]
pub struct ApiVersionsResponse {
    pub error_code: i16,
    pub api_versions: Vec<ApiVersion>,
}

#[verifier::ext_equal]
pub struct ApiVersionsResponseV {
    pub error_code: i16,
    pub api_versions: Seq<ApiVersion>,
}

impl DeepView for ApiVersionsResponse {
    type V = ApiVersionsResponseV;

    open spec fn deep_view(&self) -> ApiVersionsResponseV {
        ApiVersionsResponseV {
            error_code: self.error_code,
            api_versions: self.api_versions.deep_view(),
        }
    }
}

/// One encoded version row: three two-byte integers.
pub open spec fn api_version_selem() -> spec_fn(ApiVersion) -> Seq<u8> {
    |a: ApiVersion| spec_ser_i16(a.0) + spec_ser_i16(a.1) + spec_ser_i16(a.2)
}

/// The bytes of a whole encoded api-versions response: the size prefix is the
/// byte size of the rows, six per row, not their count.
pub open spec fn spec_ser_api_versions_response(r: ApiVersionsResponseV) -> Seq<u8>
    recommends
        r.api_versions.len() * 6 <= MAX_WIRE,
{
    spec_ser_i16(r.error_code) + spec_ser_i32((r.api_versions.len() * 6) as i32) + spec_ser_elems(
        r.api_versions,
        api_version_selem(),
    )
}

/// Serializes a whole api-versions response onto `output`.
pub fn ser_api_versions_response(r: &ApiVersionsResponse, output: &mut Vec<u8>)
    requires
        r.api_versions@.len() * 6 <= MAX_WIRE,
    ensures
        final(output)@ == old(output)@ + spec_ser_api_versions_response(r.deep_view()),
{
    let ghost f = api_version_selem();
    let ghost av = r.api_versions.deep_view();
    proof {
        assert(av =~= r.api_versions@);
    }
    ser_i16(r.error_code, output);
    ser_i32((r.api_versions.len() as i32) * 3 * 2, output);
    let mut idx: usize = 0;
    while idx < r.api_versions.len()
        invariant
            f == api_version_selem(),
            av == r.api_versions@,
            av == r.api_versions.deep_view(),
            idx <= av.len() * 6 <= MAX_WIRE,
            idx <= av.len(),
            output@ == old(output)@ + spec_ser_i16(r.error_code) + spec_ser_i32(
                (av.len() * 6) as i32,
            ) + spec_ser_elems(av.take(idx as int), f),
        decreases av.len() - idx,
    {
        let a = r.api_versions[idx];
        ser_i16(a.0, output);
        ser_i16(a.1, output);
        ser_i16(a.2, output);
        proof {
            lemma_ser_elems_snoc(av, idx as int, f);
            assert(f(av[idx as int]) == spec_ser_i16(a.0) + spec_ser_i16(a.1) + spec_ser_i16(a.2));
            assert(output@ =~= old(output)@ + spec_ser_i16(r.error_code) + spec_ser_i32(
                (av.len() * 6) as i32,
            ) + spec_ser_elems(av.take(idx + 1), f));
        }
        idx = idx + 1;
    }
    proof {
        lemma_ser_elems_whole(av, f);
        assert(output@ =~= old(output)@ + spec_ser_api_versions_response(r.deep_view()));
    }
}

} // verus!
