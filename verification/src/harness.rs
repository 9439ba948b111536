//! Pure helpers of the file-driven test runner: grouping document paths with
//! their expectation files. The directory walking itself lives with the
//! caller.
use vstd::prelude::*;

verus! {

/// The path with its second-to-last extension segment replaced by `json`:
/// the stem up to its first dot, with `.json` appended.
pub open spec fn spec_json_name(stem: Seq<char>) -> Seq<char> {
    let di = crate::text::spec_index_of(stem, '.');
    (if di < 0 {
        stem
    } else {
        stem.take(di)
    }) + ".json"@
}

/// Replaces the second-to-last extension of a file stem with `json`.
pub fn filename_with_second_last_extension_replaced_with_json(stem: &str) -> (r: String)
    ensures
        r@ == spec_json_name(stem@),
{
    let chars = crate::text::str_to_chars(stem);
    proof {
        crate::text::lemma_index_of_bounds(chars@, '.');
    }
    let base = match crate::text::index_of_char(&chars, '.') {
        Some(di) => crate::text::chars_to_string(&crate::text::subvec(&chars, 0, di)),
        None => String::from_str(stem),
    };
    let mut r = base;
    r.append(".json");
    proof {
        assert(r@ =~= spec_json_name(stem@));
    }
    r
}

/// The grouping of sorted document stems under their expectation files:
/// consecutive stems sharing a JSON name share a group.
pub open spec fn spec_groups_fold(
    stems: Seq<Seq<char>>,
    acc: Seq<(Seq<Seq<char>>, Seq<char>)>,
) -> Seq<(Seq<Seq<char>>, Seq<char>)>
    decreases stems.len(),
{
    if stems.len() == 0 {
        acc
    } else {
        let json = spec_json_name(stems[0]);
        let acc2 = if acc.len() > 0 && acc.last().1 == json {
            acc.update(acc.len() - 1, (acc.last().0.push(stems[0]), json))
        } else {
            acc.push((seq![stems[0]], json))
        };
        spec_groups_fold(stems.drop_first(), acc2)
    }
}

/// The view of a group list.
pub open spec fn groups_view(v: Vec<(Vec<String>, String)>) -> Seq<(Seq<Seq<char>>, Seq<char>)> {
    v@.map_values(
        |g: (Vec<String>, String)| (g.0@.map_values(|s: String| s@), g.1@),
    )
}

/// Groups sorted document stems with their expectation files: one group per
/// run of stems sharing a JSON name.
pub fn find_file_groups(stems: &Vec<String>) -> (r: Vec<(Vec<String>, String)>)
    ensures
        groups_view(r) == spec_groups_fold(
            stems@.map_values(|s: String| s@),
            Seq::empty(),
        ),
{
    let ghost sv = stems@.map_values(|s: String| s@);
    proof {
        assert(sv.skip(0) =~= sv);
    }
    let n = stems.len();
    let mut out: Vec<(Vec<String>, String)> = Vec::new();
    proof {
        assert(groups_view(out) =~= Seq::<(Seq<Seq<char>>, Seq<char>)>::empty());
    }
    let mut i: usize = 0;
    while i < n
        invariant
            0 <= i <= n == stems@.len(),
            sv == stems@.map_values(|s: String| s@),
            sv.len() == n,
            spec_groups_fold(sv, Seq::empty()) == spec_groups_fold(
                sv.skip(i as int),
                groups_view(out),
            ),
        decreases n - i,
    {
        proof {
            assert(sv.skip(i as int)[0] == sv[i as int]);
            assert(sv[i as int] == stems@[i as int]@);
            assert(sv.skip(i as int).drop_first() =~= sv.skip(i + 1));
        }
        let json = filename_with_second_last_extension_replaced_with_json(stems[i].as_str());
        let matches_last = out.len() > 0 && crate::text::eq_str(
            out[out.len() - 1].1.as_str(),
            json.as_str(),
        );
        if matches_last {
            let ghost out0 = groups_view(out);
            let last_index = out.len() - 1;
            let mut last = match out.pop() {
                Some(g) => g,
                None => (Vec::new(), json.clone()),
            };
            let ghost popped = groups_view(out);
            last.0.push(stems[i].clone());
            out.push(last);
            proof {
                assert(groups_view(out) =~~= out0.update(
                    out0.len() - 1,
                    (out0.last().0.push(sv[i as int]), spec_json_name(sv[i as int])),
                ));
            }
        } else {
            let ghost out0 = groups_view(out);
            let mut members: Vec<String> = Vec::new();
            members.push(stems[i].clone());
            out.push((members, json));
            proof {
                assert(groups_view(out) =~~= out0.push(
                    (seq![sv[i as int]], spec_json_name(sv[i as int])),
                ));
            }
        }
        i += 1;
    }
    proof {
        assert(sv.skip(n as int) =~= Seq::<Seq<char>>::empty());
    }
    out
}

} // verus!
