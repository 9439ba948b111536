//! The Facebook identity provider's hook.
use vstd::prelude::*;

verus! {

/// The signed-in user as this provider reports it.
pub struct UserDetail {
    pub token: String,
    pub user_name: String,
    pub user_id: String,
}

/// Whether an identity claim names this provider.
pub open spec fn spec_claims_provider(identity: Seq<char>) -> bool {
    crate::p11::is_prefix(identity, "facebook"@)
}

/// The identities this provider vouches for. This provider implements no
/// matching, so identities naming it cannot be checked: a request carrying
/// any is a reported error listing them, never a silent empty result; a
/// request carrying none matches the empty list.
pub fn matched_identities(_ud: UserDetail, identities: &Vec<String>) -> (r: Result<
    Vec<String>,
    String,
>)
    ensures
        match r {
            Ok(matched) => matched@.len() == 0 && forall|k: int|
                0 <= k < identities@.len() ==> !spec_claims_provider(
                    #[trigger] identities@[k]@,
                ),
            Err(_) => exists|k: int|
                0 <= k < identities@.len() && spec_claims_provider(#[trigger] identities@[k]@),
        },
{
    proof {
        reveal_strlit("facebook");
    }
    let n = identities.len();
    let mut i: usize = 0;
    while i < n
        invariant
            0 <= i <= n == identities@.len(),
            forall|k: int| 0 <= k < i ==> !spec_claims_provider(#[trigger] identities@[k]@),
        decreases n - i,
    {
        if crate::text::str_starts_with(identities[i].as_str(), "facebook") {
            let mut m = String::from_str("unmatched identity for provider facebook: ");
            m.append(identities[i].as_str());
            proof {
                assert(spec_claims_provider(identities@[i as int]@));
            }
            return Err(m);
        }
        i += 1;
    }
    Ok(Vec::new())
}

} // verus!
