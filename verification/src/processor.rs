//! The user-details processor: a caller-supplied data-fetch hook producing
//! whether a signed-in session exists.
use vstd::prelude::*;

verus! {

/// Whether any known provider's session cookie is present.
pub open spec fn spec_is_login(cookies: Seq<bool>) -> bool {
    exists|i: int| 0 <= i < cookies.len() && cookies[i]
}

/// Builds the user-details record for a request: `is-login` is true exactly
/// when some provider's session cookie was found; with no request at all it
/// is false.
pub fn process(provider_cookies: &Option<Vec<bool>>) -> (r: crate::interpreter::Value)
    ensures
        r@ matches crate::interpreter::SpecValue::Record { name, fields } && name
            == "user-details"@ && fields.len() == 1 && fields[0].0 == "is-login"@ && fields[0].1
            == (crate::interpreter::SpecValue::Boolean {
            value: match provider_cookies {
                Some(cs) => spec_is_login(cs@),
                None => false,
            },
        }),
{
    let is_login = match provider_cookies {
        None => false,
        Some(cs) => {
            let n = cs.len();
            let mut found = false;
            let mut i: usize = 0;
            while i < n
                invariant
                    0 <= i <= n == cs@.len(),
                    found == exists|k: int| 0 <= k < i && cs@[k],
                decreases n - i,
            {
                if cs[i] {
                    proof {
                        assert(cs@[i as int]);
                    }
                    found = true;
                }
                i += 1;
            }
            proof {
                if found {
                    assert(spec_is_login(cs@));
                } else {
                    if spec_is_login(cs@) {
                        let k = choose|k: int| 0 <= k < cs@.len() && cs@[k];
                        assert(false);
                    }
                }
            }
            found
        },
    };
    let mut fields: Vec<(String, crate::interpreter::Value)> = Vec::new();
    fields.push(
        (
            String::from_str("is-login"),
            crate::interpreter::Value::Boolean { value: is_login },
        ),
    );
    let r = crate::interpreter::Value::Record {
        name: String::from_str("user-details"),
        fields,
    };
    proof {
        assert(crate::interpreter::value_fields_view(r->Record_fields, 0) == Seq::<
            (Seq<char>, crate::interpreter::SpecValue),
        >::empty());
        assert(crate::interpreter::value_fields_view(r->Record_fields, 1)
            == crate::interpreter::value_fields_view(r->Record_fields, 0).push(
            (r->Record_fields[0].0@, crate::interpreter::value_view(r->Record_fields[0].1)),
        ));
        assert(crate::interpreter::value_fields_view(r->Record_fields, 1) =~= Seq::<
            (Seq<char>, crate::interpreter::SpecValue),
        >::empty().push(("is-login"@, crate::interpreter::SpecValue::Boolean {
            value: is_login,
        })));
    }
    r
}

} // verus!
