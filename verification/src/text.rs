//! Character-level text utilities shared by the structural parser, the
//! expression parser and the code generators: splitting, trimming, searching
//! and building strings, each tied to a spec-level model over `Seq<char>`.
use vstd::prelude::*;

verus! {

/// Relies on std's `String::push`: appends the given character to the end of
/// the string.
pub assume_specification[ std::string::String::push ](s: &mut String, c: char)
    ensures
        final(s)@ == old(s)@.push(c),
;

/// Horizontal whitespace that trimming removes (never the line break itself).
pub open spec fn is_space(c: char) -> bool {
    c == ' ' || c == '\t' || c == '\r'
}

pub open spec fn spec_trim_left(s: Seq<char>) -> Seq<char>
    decreases s.len(),
{
    if s.len() > 0 && is_space(s[0]) {
        spec_trim_left(s.drop_first())
    } else {
        s
    }
}

pub open spec fn spec_trim_right(s: Seq<char>) -> Seq<char>
    decreases s.len(),
{
    if s.len() > 0 && is_space(s[s.len() - 1]) {
        spec_trim_right(s.drop_last())
    } else {
        s
    }
}

/// The string with horizontal whitespace removed from both ends.
pub open spec fn spec_trim(s: Seq<char>) -> Seq<char> {
    spec_trim_right(spec_trim_left(s))
}

proof fn lemma_trim_left_at(s: Seq<char>, i: int)
    requires
        0 <= i <= s.len(),
        forall|k: int| 0 <= k < i ==> is_space(s[k]),
        i < s.len() ==> !is_space(s[i]),
    ensures
        spec_trim_left(s) =~= s.subrange(i, s.len() as int),
    decreases i,
{
    if i == 0 {
        if s.len() > 0 && is_space(s[0]) {
            assert(false);
        }
        assert(s.subrange(0, s.len() as int) =~= s);
    } else {
        assert(is_space(s[0]));
        let t = s.drop_first();
        assert(forall|k: int| 0 <= k < i - 1 ==> is_space(#[trigger] t[k]));
        lemma_trim_left_at(t, i - 1);
        assert(t.subrange(i - 1, t.len() as int) =~= s.subrange(i, s.len() as int));
    }
}

proof fn lemma_trim_right_at(s: Seq<char>, j: int)
    requires
        0 <= j <= s.len(),
        forall|k: int| j <= k < s.len() ==> is_space(s[k]),
        j > 0 ==> !is_space(s[j - 1]),
    ensures
        spec_trim_right(s) =~= s.subrange(0, j),
    decreases s.len() - j,
{
    if j == s.len() {
        if s.len() > 0 && is_space(s[s.len() - 1]) {
            assert(false);
        }
        assert(s.subrange(0, s.len() as int) =~= s);
    } else {
        assert(is_space(s[s.len() - 1]));
        let t = s.drop_last();
        assert(forall|k: int| j <= k < t.len() ==> is_space(#[trigger] t[k]));
        lemma_trim_right_at(t, j);
        assert(t.subrange(0, j) =~= s.subrange(0, j));
    }
}

/// Whether a character counts as horizontal whitespace.
pub fn is_space_char(c: char) -> (r: bool)
    ensures
        r == is_space(c),
{
    c == ' ' || c == '\t' || c == '\r'
}

/// Removes horizontal whitespace from both ends of the line.
pub fn trim_chars(v: &Vec<char>) -> (r: Vec<char>)
    ensures
        r@ == spec_trim(v@),
{
    let n = v.len();
    let mut i: usize = 0;
    while i < n && is_space_char(v[i])
        invariant
            0 <= i <= n == v@.len(),
            forall|k: int| 0 <= k < i ==> is_space(v@[k]),
        decreases n - i,
    {
        i += 1;
    }
    let mut j: usize = n;
    while j > i && is_space_char(v[j - 1])
        invariant
            i <= j <= n == v@.len(),
            forall|k: int| j <= k < n ==> is_space(v@[k]),
        decreases j,
    {
        j -= 1;
    }
    let mut r: Vec<char> = Vec::new();
    let mut k: usize = i;
    while k < j
        invariant
            i <= k <= j <= v@.len(),
            r@ =~= v@.subrange(i as int, k as int),
        decreases j - k,
    {
        r.push(v[k]);
        assert(r@ =~= v@.subrange(i as int, k + 1 as int));
        k += 1;
    }
    proof {
        lemma_trim_left_at(v@, i as int);
        let t = v@.subrange(i as int, v@.len() as int);
        if j == i {
            // everything after i is whitespace, or the line is empty past i
            lemma_trim_right_at(t, 0);
        } else {
            lemma_trim_right_at(t, j - i);
        }
        assert(t.subrange(0, j - i) =~= v@.subrange(i as int, j as int));
    }
    r
}

/// The index of the first occurrence of `c` in `s`, or -1 when absent.
pub open spec fn spec_index_of(s: Seq<char>, c: char) -> int
    decreases s.len(),
{
    if s.len() == 0 {
        -1
    } else if s[0] == c {
        0
    } else {
        let r = spec_index_of(s.drop_first(), c);
        if r < 0 {
            -1
        } else {
            r + 1
        }
    }
}

pub proof fn lemma_index_of_bounds(s: Seq<char>, c: char)
    ensures
        spec_index_of(s, c) >= 0 ==> 0 <= spec_index_of(s, c) < s.len() && s[spec_index_of(s, c)]
            == c,
        spec_index_of(s, c) >= 0 ==> forall|k: int|
            0 <= k < spec_index_of(s, c) ==> s[k] != c,
        spec_index_of(s, c) < 0 ==> forall|k: int| 0 <= k < s.len() ==> s[k] != c,
    decreases s.len(),
{
    if s.len() > 0 && s[0] != c {
        let t = s.drop_first();
        lemma_index_of_bounds(t, c);
        assert(forall|k: int| 1 <= k < s.len() ==> #[trigger] s[k] == t[k - 1]);
    }
}

/// The first position of `c` in `v`, searching the whole vector.
pub fn index_of_char(v: &Vec<char>, c: char) -> (r: Option<usize>)
    ensures
        match r {
            Some(i) => spec_index_of(v@, c) == i as int,
            None => spec_index_of(v@, c) < 0,
        },
{
    proof {
        lemma_index_of_bounds(v@, c);
    }
    let n = v.len();
    let mut i: usize = 0;
    while i < n
        invariant
            0 <= i <= n == v@.len(),
            forall|k: int| 0 <= k < i ==> v@[k] != c,
            spec_index_of(v@, c) >= 0 ==> 0 <= spec_index_of(v@, c) < v@.len() && v@[spec_index_of(
                v@,
                c,
            )] == c,
            spec_index_of(v@, c) >= 0 ==> forall|k: int|
                0 <= k < spec_index_of(v@, c) ==> v@[k] != c,
            spec_index_of(v@, c) < 0 ==> forall|k: int| 0 <= k < v@.len() ==> v@[k] != c,
        decreases n - i,
    {
        if v[i] == c {
            return Some(i);
        }
        i += 1;
    }
    None
}

/// One step of splitting: a separator closes the piece under construction.
pub open spec fn split_step(acc: (Seq<Seq<char>>, Seq<char>), c: char, sep: char) -> (
    Seq<Seq<char>>,
    Seq<char>,
) {
    if c == sep {
        (acc.0.push(acc.1), Seq::empty())
    } else {
        (acc.0, acc.1.push(c))
    }
}

pub open spec fn split_fold(s: Seq<char>, sep: char, acc: (Seq<Seq<char>>, Seq<char>)) -> (
    Seq<Seq<char>>,
    Seq<char>,
)
    decreases s.len(),
{
    if s.len() == 0 {
        acc
    } else {
        split_fold(s.drop_first(), sep, split_step(acc, s[0], sep))
    }
}

/// The pieces of `s` between occurrences of `sep`; always one more piece than
/// there are separators, so the empty string splits to one empty piece.
pub open spec fn spec_split(s: Seq<char>, sep: char) -> Seq<Seq<char>> {
    let acc = split_fold(s, sep, (Seq::empty(), Seq::empty()));
    acc.0.push(acc.1)
}

pub proof fn lemma_split_fold_snoc(s: Seq<char>, c: char, sep: char, acc: (Seq<Seq<char>>, Seq<char>))
    ensures
        split_fold(s.push(c), sep, acc) == split_step(split_fold(s, sep, acc), c, sep),
    decreases s.len(),
{
    let p = s.push(c);
    assert(p.len() == s.len() + 1);
    if s.len() == 0 {
        assert(p.drop_first() =~= s);
        assert(p[0] == c);
        assert(split_fold(p, sep, acc) == split_fold(s, sep, split_step(acc, c, sep)));
        assert(split_fold(s, sep, split_step(acc, c, sep)) == split_step(acc, c, sep));
        assert(split_fold(s, sep, acc) == acc);
    } else {
        assert(p.drop_first() =~= s.drop_first().push(c));
        assert(p[0] == s[0]);
        assert(split_fold(p, sep, acc) == split_fold(
            s.drop_first().push(c),
            sep,
            split_step(acc, s[0], sep),
        ));
        lemma_split_fold_snoc(s.drop_first(), c, sep, split_step(acc, s[0], sep));
        assert(split_fold(s, sep, acc) == split_fold(s.drop_first(), sep, split_step(acc, s[0], sep)));
    }
}

/// Splits `v` at every occurrence of `sep`.
pub fn split_char(v: &Vec<char>, sep: char) -> (r: Vec<Vec<char>>)
    ensures
        r@.map_values(|p: Vec<char>| p@) == spec_split(v@, sep),
{
    let n = v.len();
    let mut pieces: Vec<Vec<char>> = Vec::new();
    let mut cur: Vec<char> = Vec::new();
    let mut i: usize = 0;
    while i < n
        invariant
            0 <= i <= n == v@.len(),
            (pieces@.map_values(|p: Vec<char>| p@), cur@) == split_fold(
                v@.subrange(0, i as int),
                sep,
                (Seq::<Seq<char>>::empty(), Seq::<char>::empty()),
            ),
        decreases n - i,
    {
        let c = v[i];
        proof {
            assert(v@.subrange(0, i + 1 as int) =~= v@.subrange(0, i as int).push(v@[i as int]));
            lemma_split_fold_snoc(
                v@.subrange(0, i as int),
                v@[i as int],
                sep,
                (Seq::<Seq<char>>::empty(), Seq::<char>::empty()),
            );
        }
        if c == sep {
            let ghost old_pieces = pieces@.map_values(|p: Vec<char>| p@);
            pieces.push(cur);
            proof {
                assert(pieces@.map_values(|p: Vec<char>| p@) =~= old_pieces.push(cur@));
            }
            cur = Vec::new();
        } else {
            cur.push(c);
        }
        i += 1;
    }
    proof {
        assert(v@.subrange(0, n as int) =~= v@);
        let ghost old_pieces = pieces@.map_values(|p: Vec<char>| p@);
    }
    let ghost final_pieces = pieces@.map_values(|p: Vec<char>| p@);
    pieces.push(cur);
    proof {
        assert(pieces@.map_values(|p: Vec<char>| p@) =~= final_pieces.push(cur@));
    }
    pieces
}

/// The index of the last occurrence of `c` in `s`, or -1 when absent.
pub open spec fn spec_last_index_of(s: Seq<char>, c: char) -> int
    decreases s.len(),
{
    if s.len() == 0 {
        -1
    } else if s[s.len() - 1] == c {
        s.len() - 1
    } else {
        spec_last_index_of(s.drop_last(), c)
    }
}

pub proof fn lemma_last_index_of_bounds(s: Seq<char>, c: char)
    ensures
        spec_last_index_of(s, c) >= 0 ==> 0 <= spec_last_index_of(s, c) < s.len() && s[
            spec_last_index_of(s, c)
        ] == c,
        spec_last_index_of(s, c) >= 0 ==> forall|k: int|
            spec_last_index_of(s, c) < k < s.len() ==> s[k] != c,
        spec_last_index_of(s, c) < 0 ==> forall|k: int| 0 <= k < s.len() ==> s[k] != c,
    decreases s.len(),
{
    if s.len() > 0 && s[s.len() - 1] != c {
        let t = s.drop_last();
        lemma_last_index_of_bounds(t, c);
        assert(forall|k: int| 0 <= k < s.len() - 1 ==> #[trigger] s[k] == t[k]);
    }
}

/// The last position of `c` in `v`.
pub fn last_index_of_char(v: &Vec<char>, c: char) -> (r: Option<usize>)
    ensures
        match r {
            Some(i) => spec_last_index_of(v@, c) == i as int,
            None => spec_last_index_of(v@, c) < 0,
        },
{
    proof {
        lemma_last_index_of_bounds(v@, c);
    }
    let n = v.len();
    let mut i: usize = n;
    while i > 0
        invariant
            0 <= i <= n == v@.len(),
            forall|k: int| i <= k < n ==> v@[k] != c,
            spec_last_index_of(v@, c) >= 0 ==> 0 <= spec_last_index_of(v@, c) < v@.len() && v@[
                spec_last_index_of(v@, c)
            ] == c,
            spec_last_index_of(v@, c) >= 0 ==> forall|k: int|
                spec_last_index_of(v@, c) < k < v@.len() ==> v@[k] != c,
            spec_last_index_of(v@, c) < 0 ==> forall|k: int| 0 <= k < v@.len() ==> v@[k] != c,
        decreases i,
    {
        if v[i - 1] == c {
            return Some(i - 1);
        }
        i -= 1;
    }
    None
}

/// The sub-vector of `v` from `i` (inclusive) to `j` (exclusive).
pub fn subvec(v: &Vec<char>, i: usize, j: usize) -> (r: Vec<char>)
    requires
        0 <= i <= j <= v@.len(),
    ensures
        r@ == v@.subrange(i as int, j as int),
{
    let mut r: Vec<char> = Vec::new();
    let mut k: usize = i;
    while k < j
        invariant
            i <= k <= j <= v@.len(),
            r@ =~= v@.subrange(i as int, k as int),
        decreases j - k,
    {
        r.push(v[k]);
        assert(r@ =~= v@.subrange(i as int, k + 1 as int));
        k += 1;
    }
    r
}

/// Removes horizontal whitespace from the right end only.
pub fn trim_right_chars(v: &Vec<char>) -> (r: Vec<char>)
    ensures
        r@ == spec_trim_right(v@),
{
    let n = v.len();
    let mut j: usize = n;
    while j > 0 && is_space_char(v[j - 1])
        invariant
            0 <= j <= n == v@.len(),
            forall|k: int| j <= k < n ==> is_space(v@[k]),
        decreases j,
    {
        j -= 1;
    }
    proof {
        lemma_trim_right_at(v@, j as int);
    }
    subvec(v, 0, j)
}

/// Copies the characters of a string into a vector.
pub fn str_to_chars(s: &str) -> (r: Vec<char>)
    ensures
        r@ == s@,
{
    let n = s.unicode_len();
    let mut r: Vec<char> = Vec::new();
    let mut i: usize = 0;
    while i < n
        invariant
            0 <= i <= n == s@.len(),
            r@ =~= s@.subrange(0, i as int),
        decreases n - i,
    {
        r.push(s.get_char(i));
        assert(r@ =~= s@.subrange(0, i + 1 as int));
        i += 1;
    }
    proof {
        assert(s@.subrange(0, n as int) =~= s@);
    }
    r
}

/// Builds a string out of a character vector.
pub fn chars_to_string(v: &Vec<char>) -> (r: String)
    ensures
        r@ == v@,
{
    let n = v.len();
    let mut r = String::new();
    let mut i: usize = 0;
    while i < n
        invariant
            0 <= i <= n == v@.len(),
            r@ =~= v@.subrange(0, i as int),
        decreases n - i,
    {
        r.push(v[i]);
        assert(r@ =~= v@.subrange(0, i + 1 as int));
        i += 1;
    }
    proof {
        assert(v@.subrange(0, n as int) =~= v@);
    }
    r
}

/// Character-by-character string equality.
pub fn eq_str(a: &str, b: &str) -> (r: bool)
    ensures
        r == (a@ == b@),
{
    let na = a.unicode_len();
    let nb = b.unicode_len();
    if na != nb {
        proof {
            assert(a@ != b@);
        }
        return false;
    }
    let mut i: usize = 0;
    while i < na
        invariant
            0 <= i <= na == a@.len(),
            na == b@.len(),
            forall|k: int| 0 <= k < i ==> a@[k] == b@[k],
        decreases na - i,
    {
        if a.get_char(i) != b.get_char(i) {
            proof {
                assert(a@ != b@);
            }
            return false;
        }
        i += 1;
    }
    proof {
        assert(a@ =~= b@);
    }
    true
}

/// The character of one decimal digit.
pub open spec fn digit_char(d: int) -> char {
    if d == 0 {
        '0'
    } else if d == 1 {
        '1'
    } else if d == 2 {
        '2'
    } else if d == 3 {
        '3'
    } else if d == 4 {
        '4'
    } else if d == 5 {
        '5'
    } else if d == 6 {
        '6'
    } else if d == 7 {
        '7'
    } else if d == 8 {
        '8'
    } else {
        '9'
    }
}

/// The decimal digits of a natural number, most significant first.
pub open spec fn spec_u64_digits(n: int) -> Seq<char>
    decreases n,
{
    if n < 10 {
        seq![digit_char(n)]
    } else {
        spec_u64_digits(n / 10).push(digit_char(n % 10))
    }
}

/// The decimal rendering of a signed integer.
pub open spec fn spec_i64_str(n: int) -> Seq<char> {
    if n >= 0 {
        spec_u64_digits(n)
    } else {
        seq!['-'] + spec_u64_digits(-n)
    }
}

/// Renders a natural number in decimal.
pub fn u64_to_string(n: u64) -> (r: String)
    ensures
        r@ == spec_u64_digits(n as int),
    decreases n,
{
    if n < 10 {
        let d = digit_to_char(n);
        let mut r = String::new();
        r.push(d);
        proof {
            assert(r@ =~= seq![digit_char(n as int)]);
        }
        r
    } else {
        let mut r = u64_to_string(n / 10);
        let d = digit_to_char(n % 10);
        r.push(d);
        r
    }
}

/// The character of one digit below ten.
fn digit_to_char(d: u64) -> (r: char)
    requires
        d < 10,
    ensures
        r == digit_char(d as int),
{
    if d == 0 {
        '0'
    } else if d == 1 {
        '1'
    } else if d == 2 {
        '2'
    } else if d == 3 {
        '3'
    } else if d == 4 {
        '4'
    } else if d == 5 {
        '5'
    } else if d == 6 {
        '6'
    } else if d == 7 {
        '7'
    } else if d == 8 {
        '8'
    } else {
        '9'
    }
}

/// Renders a signed integer in decimal.
pub fn i64_to_string(n: i64) -> (r: String)
    ensures
        r@ == spec_i64_str(n as int),
{
    if n >= 0 {
        u64_to_string(n as u64)
    } else {
        let mag: u64 = if n == i64::MIN {
            9223372036854775808u64
        } else {
            (-n) as u64
        };
        proof {
            assert(mag as int == -(n as int));
        }
        let mut r = String::new();
        r.push('-');
        let digits = u64_to_string(mag);
        r.append(digits.as_str());
        proof {
            assert(r@ =~= seq!['-'] + spec_u64_digits(mag as int));
        }
        r
    }
}

/// Whether the string `s` starts with the characters of `p`.
pub fn str_starts_with(s: &str, p: &str) -> (r: bool)
    ensures
        r == (p@.len() <= s@.len() && s@.subrange(0, p@.len() as int) == p@),
{
    let np = p.unicode_len();
    let ns = s.unicode_len();
    if np > ns {
        return false;
    }
    let mut i: usize = 0;
    while i < np
        invariant
            0 <= i <= np == p@.len(),
            np <= ns == s@.len(),
            forall|k: int| 0 <= k < i ==> s@[k] == p@[k],
        decreases np - i,
    {
        if s.get_char(i) != p.get_char(i) {
            proof {
                assert(s@.subrange(0, p@.len() as int)[i as int] != p@[i as int]);
            }
            return false;
        }
        i += 1;
    }
    proof {
        assert(s@.subrange(0, p@.len() as int) =~= p@);
    }
    true
}

/// Whether `v` starts with the characters of `p`.
pub fn starts_with_str(v: &Vec<char>, p: &str) -> (r: bool)
    ensures
        r == (p@.len() <= v@.len() && v@.subrange(0, p@.len() as int) == p@),
{
    let np = p.unicode_len();
    let nv = v.len();
    if np > nv {
        return false;
    }
    let mut i: usize = 0;
    while i < np
        invariant
            0 <= i <= np == p@.len(),
            np <= nv == v@.len(),
            forall|k: int| 0 <= k < i ==> v@[k] == p@[k],
        decreases np - i,
    {
        if v[i] != p.get_char(i) {
            proof {
                assert(v@.subrange(0, p@.len() as int)[i as int] != p@[i as int]);
            }
            return false;
        }
        i += 1;
    }
    proof {
        assert(v@.subrange(0, p@.len() as int) =~= p@);
    }
    true
}

} // verus!
