//! Change-request endpoints' pure core: the request shape and the texts the
//! endpoints compute.
use vstd::prelude::*;

verus! {

/// The body of a create-change-request call.
pub struct CreateCRRequest {
    pub title: Option<String>,
    pub description: Option<String>,
}

/// The page URL of a change request.
pub open spec fn spec_cr_url(n: int) -> Seq<char> {
    "-/"@ + crate::text::spec_u64_digits(n) + "/-/about/"@
}

/// Builds the page URL of a change request.
pub fn cr_url(cr_number: u64) -> (r: String)
    ensures
        r@ == spec_cr_url(cr_number as int),
{
    let mut r = String::from_str("-/");
    r.append(crate::text::u64_to_string(cr_number).as_str());
    r.append("/-/about/");
    proof {
        assert(r@ =~= spec_cr_url(cr_number as int));
    }
    r
}

/// The default title of a change request without one.
pub open spec fn spec_default_cr_title(n: int) -> Seq<char> {
    "CR#"@ + crate::text::spec_u64_digits(n)
}

/// The title a request gets: its own, or the numbered default.
pub fn cr_title(request: &CreateCRRequest, cr_number: u64) -> (r: String)
    ensures
        match request.title {
            Some(t) => r@ == t@,
            None => r@ == spec_default_cr_title(cr_number as int),
        },
{
    match &request.title {
        Some(t) => t.clone(),
        None => {
            let mut r = String::from_str("CR#");
            r.append(crate::text::u64_to_string(cr_number).as_str());
            proof {
                assert(r@ =~= spec_default_cr_title(cr_number as int));
            }
            r
        },
    }
}

} // verus!
