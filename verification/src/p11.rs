//! Structural parser: raw text to a tree of named sections with typed headers,
//! an optional free-form body and source line numbers. Shape only; no semantic
//! validation happens here.
use crate::text::{
    chars_to_string, index_of_char, spec_index_of, spec_split, spec_trim, split_char,
    starts_with_str, str_to_chars, subvec, trim_chars,
};
use vstd::prelude::*;

verus! {

broadcast use vstd::std_specs::vec::axiom_vec_index_decreases;

/// A `key: value` header with an optional kind annotation.
pub struct KV {
    pub line_number: usize,
    pub key: String,
    pub kind: Option<String>,
    pub value: Option<String>,
}

/// A header of a section: a plain key/value pair, or a key holding a block of
/// nested sections.
pub enum Header {
    KV(KV),
    Block(BlockHeader),
}

/// A header whose payload is a list of nested sections.
pub struct BlockHeader {
    pub line_number: usize,
    pub key: String,
    pub sections: Vec<Section>,
}

/// The free-form body of a section.
pub struct Body {
    pub line_number: usize,
    pub value: String,
}

/// One named section: `-- kind name: caption` with headers, an optional body
/// and sub-sections. Immutable once parsed.
pub struct Section {
    pub name: String,
    pub kind: Option<String>,
    pub caption: Option<String>,
    pub headers: Vec<Header>,
    pub body: Option<Body>,
    pub line_number: usize,
    pub sub_sections: Vec<Section>,
}

#[verifier::ext_equal]
pub struct SpecKV {
    pub line_number: int,
    pub key: Seq<char>,
    pub kind: Option<Seq<char>>,
    pub value: Option<Seq<char>>,
}

#[verifier::ext_equal]
pub enum SpecHeader {
    KV(SpecKV),
    Block { line_number: int, key: Seq<char>, sections: Seq<SpecSection> },
}

#[verifier::ext_equal]
pub struct SpecBody {
    pub line_number: int,
    pub value: Seq<char>,
}

#[verifier::ext_equal]
pub struct SpecSection {
    pub name: Seq<char>,
    pub kind: Option<Seq<char>>,
    pub caption: Option<Seq<char>>,
    pub headers: Seq<SpecHeader>,
    pub body: Option<SpecBody>,
    pub line_number: int,
    pub sub_sections: Seq<SpecSection>,
}

pub open spec fn opt_str(o: Option<String>) -> Option<Seq<char>> {
    match o {
        Some(s) => Some(s@),
        None => None,
    }
}

pub open spec fn opt_body(o: Option<Body>) -> Option<SpecBody> {
    match o {
        Some(b) => Some(SpecBody { line_number: b.line_number as int, value: b.value@ }),
        None => None,
    }
}

impl View for KV {
    type V = SpecKV;

    open spec fn view(&self) -> SpecKV {
        SpecKV {
            line_number: self.line_number as int,
            key: self.key@,
            kind: opt_str(self.kind),
            value: opt_str(self.value),
        }
    }
}

pub open spec fn sections_view(v: Vec<Section>, k: int) -> Seq<SpecSection>
    decreases v, k, 0int,
{
    if k <= 0 || k > v@.len() {
        Seq::empty()
    } else {
        sections_view(v, k - 1).push(v[k - 1].view())
    }
}

pub open spec fn headers_view(v: Vec<Header>, k: int) -> Seq<SpecHeader>
    decreases v, k, 0int,
{
    if k <= 0 || k > v@.len() {
        Seq::empty()
    } else {
        headers_view(v, k - 1).push(v[k - 1].view())
    }
}

impl View for Header {
    type V = SpecHeader;

    open spec fn view(&self) -> SpecHeader
        decreases self, 0int, 1int,
    {
        match self {
            Header::KV(kv) => SpecHeader::KV(kv@),
            Header::Block(b) => SpecHeader::Block {
                line_number: b.line_number as int,
                key: b.key@,
                sections: sections_view(b.sections, b.sections@.len() as int),
            },
        }
    }
}

impl View for Section {
    type V = SpecSection;

    open spec fn view(&self) -> SpecSection
        decreases self, 0int, 1int,
    {
        SpecSection {
            name: self.name@,
            kind: opt_str(self.kind),
            caption: opt_str(self.caption),
            headers: headers_view(self.headers, self.headers@.len() as int),
            body: opt_body(self.body),
            line_number: self.line_number as int,
            sub_sections: sections_view(self.sub_sections, self.sub_sections@.len() as int),
        }
    }
}

pub proof fn lemma_sections_view(v: Vec<Section>, k: int)
    requires
        0 <= k <= v@.len(),
    ensures
        sections_view(v, k).len() == k,
        forall|i: int| 0 <= i < k ==> sections_view(v, k)[i] == v[i]@,
    decreases k,
{
    if k > 0 {
        lemma_sections_view(v, k - 1);
        assert(sections_view(v, k) == sections_view(v, k - 1).push(v[k - 1].view()));
    } else {
        assert(sections_view(v, k) == Seq::<SpecSection>::empty());
    }
}

pub proof fn lemma_headers_view(v: Vec<Header>, k: int)
    requires
        0 <= k <= v@.len(),
    ensures
        headers_view(v, k).len() == k,
        forall|i: int| 0 <= i < k ==> headers_view(v, k)[i] == v[i]@,
    decreases k,
{
    if k > 0 {
        lemma_headers_view(v, k - 1);
        assert(headers_view(v, k) == headers_view(v, k - 1).push(v[k - 1].view()));
    } else {
        assert(headers_view(v, k) == Seq::<SpecHeader>::empty());
    }
}

/// The view of a whole parse result.
pub open spec fn all_sections_view(v: Vec<Section>) -> Seq<SpecSection> {
    sections_view(v, v@.len() as int)
}

/// Structural errors; each carries the document and the offending line.
#[derive(Debug)]
pub enum Error {
    SectionNotFound { doc_id: String, line_number: usize },
    MoreThanOneCaption { doc_id: String, line_number: usize },
    ParseError { message: String, doc_id: String, line_number: usize },
    ForbiddenUsage { message: String, doc_id: String, line_number: usize },
    NotFound { doc_id: String, line_number: usize, key: String },
    MoreThanOneSubSections { key: String, doc_id: String, line_number: usize },
}

#[verifier::ext_equal]
pub enum SpecError {
    SectionNotFound { doc_id: Seq<char>, line_number: int },
    MoreThanOneCaption { doc_id: Seq<char>, line_number: int },
    ParseError { message: Seq<char>, doc_id: Seq<char>, line_number: int },
    ForbiddenUsage { message: Seq<char>, doc_id: Seq<char>, line_number: int },
    NotFound { doc_id: Seq<char>, line_number: int, key: Seq<char> },
    MoreThanOneSubSections { key: Seq<char>, doc_id: Seq<char>, line_number: int },
}

impl View for Error {
    type V = SpecError;

    open spec fn view(&self) -> SpecError {
        match self {
            Error::SectionNotFound { doc_id, line_number } => SpecError::SectionNotFound {
                doc_id: doc_id@,
                line_number: *line_number as int,
            },
            Error::MoreThanOneCaption { doc_id, line_number } => SpecError::MoreThanOneCaption {
                doc_id: doc_id@,
                line_number: *line_number as int,
            },
            Error::ParseError { message, doc_id, line_number } => SpecError::ParseError {
                message: message@,
                doc_id: doc_id@,
                line_number: *line_number as int,
            },
            Error::ForbiddenUsage { message, doc_id, line_number } => SpecError::ForbiddenUsage {
                message: message@,
                doc_id: doc_id@,
                line_number: *line_number as int,
            },
            Error::NotFound { doc_id, line_number, key } => SpecError::NotFound {
                doc_id: doc_id@,
                line_number: *line_number as int,
                key: key@,
            },
            Error::MoreThanOneSubSections { key, doc_id, line_number } => {
                SpecError::MoreThanOneSubSections {
                    key: key@,
                    doc_id: doc_id@,
                    line_number: *line_number as int,
                }
            },
        }
    }
}

/// Whether `p` is a prefix of `s`.
pub open spec fn is_prefix(s: Seq<char>, p: Seq<char>) -> bool {
    p.len() <= s.len() && s.subrange(0, p.len() as int) == p
}

/// Splits a trimmed `kind name` phrase at its last space; everything before the
/// last word is the kind annotation.
pub open spec fn spec_name_kind(left: Seq<char>) -> (Seq<char>, Option<Seq<char>>) {
    let si = crate::text::spec_last_index_of(left, ' ');
    if si < 0 {
        (left, None)
    } else {
        (left.skip(si + 1), Some(spec_trim(left.take(si))))
    }
}

/// What a section line (after its leading dashes) parses to: `kind name: caption`.
pub open spec fn spec_section_line(rest: Seq<char>, ln: int, doc: Seq<char>) -> Result<
    SpecSection,
    SpecError,
> {
    let ci = spec_index_of(rest, ':');
    if ci < 0 {
        Err(
            SpecError::ParseError {
                message: "section line must contain a colon"@,
                doc_id: doc,
                line_number: ln,
            },
        )
    } else {
        let left = spec_trim(rest.take(ci));
        let right = spec_trim(rest.skip(ci + 1));
        if left.len() == 0 {
            Err(
                SpecError::ParseError {
                    message: "section name is missing"@,
                    doc_id: doc,
                    line_number: ln,
                },
            )
        } else {
            let nk = spec_name_kind(left);
            Ok(
                SpecSection {
                    name: nk.0,
                    kind: nk.1,
                    caption: if right.len() == 0 {
                        None
                    } else {
                        Some(right)
                    },
                    headers: Seq::empty(),
                    body: None,
                    line_number: ln,
                    sub_sections: Seq::empty(),
                },
            )
        }
    }
}

/// What a header line parses to: `kind key: value`.
pub open spec fn spec_header_line(line: Seq<char>, ln: int, doc: Seq<char>) -> Result<
    SpecKV,
    SpecError,
> {
    let ci = spec_index_of(line, ':');
    if ci < 0 {
        Err(
            SpecError::ParseError {
                message: "header line must contain a colon"@,
                doc_id: doc,
                line_number: ln,
            },
        )
    } else {
        let left = spec_trim(line.take(ci));
        let right = spec_trim(line.skip(ci + 1));
        if left.len() == 0 {
            Err(
                SpecError::ParseError {
                    message: "header key is missing"@,
                    doc_id: doc,
                    line_number: ln,
                },
            )
        } else {
            let nk = spec_name_kind(left);
            Ok(
                SpecKV {
                    line_number: ln,
                    key: nk.0,
                    kind: nk.1,
                    value: if right.len() == 0 {
                        None
                    } else {
                        Some(right)
                    },
                },
            )
        }
    }
}

/// The parser's running state: completed sections, the section being built,
/// and whether headers or body lines are currently expected.
#[verifier::ext_equal]
pub struct SpecPState {
    pub done: Seq<SpecSection>,
    pub cur: Option<SpecSection>,
    pub in_sub: bool,
    pub in_body: bool,
}

pub open spec fn spec_close(st: SpecPState) -> Seq<SpecSection> {
    match st.cur {
        Some(c) => st.done.push(c),
        None => st.done,
    }
}

pub open spec fn spec_with_header(c: SpecSection, kv: SpecKV) -> SpecSection {
    SpecSection { headers: c.headers.push(SpecHeader::KV(kv)), ..c }
}

pub open spec fn spec_with_body_line(c: SpecSection, bl: Seq<char>, ln: int) -> SpecSection {
    match c.body {
        None => SpecSection { body: Some(SpecBody { line_number: ln, value: bl }), ..c },
        Some(b) => SpecSection {
            body: Some(SpecBody { line_number: b.line_number, value: b.value + seq!['\n'] + bl }),
            ..c
        },
    }
}

/// Attaches a header to the active section: the last sub-section when one is
/// being built, the section itself otherwise.
pub open spec fn spec_attach_header(c: SpecSection, in_sub: bool, kv: SpecKV) -> SpecSection {
    if in_sub && c.sub_sections.len() > 0 {
        SpecSection {
            sub_sections: c.sub_sections.update(
                c.sub_sections.len() - 1,
                spec_with_header(c.sub_sections.last(), kv),
            ),
            ..c
        }
    } else {
        spec_with_header(c, kv)
    }
}

pub open spec fn spec_attach_body(c: SpecSection, in_sub: bool, bl: Seq<char>, ln: int) -> SpecSection {
    if in_sub && c.sub_sections.len() > 0 {
        SpecSection {
            sub_sections: c.sub_sections.update(
                c.sub_sections.len() - 1,
                spec_with_body_line(c.sub_sections.last(), bl, ln),
            ),
            ..c
        }
    } else {
        spec_with_body_line(c, bl, ln)
    }
}

/// One line of parsing: section and sub-section starts, blank lines switching
/// to body mode, header lines, and body lines.
pub open spec fn spec_step(st: SpecPState, line: Seq<char>, ln: int, doc: Seq<char>) -> Result<
    SpecPState,
    SpecError,
> {
    if is_prefix(line, "-- "@) {
        match spec_section_line(line.skip(3), ln, doc) {
            Ok(sec) => Ok(
                SpecPState { done: spec_close(st), cur: Some(sec), in_sub: false, in_body: false },
            ),
            Err(e) => Err(e),
        }
    } else if is_prefix(line, "--- "@) {
        match st.cur {
            None => Err(SpecError::SectionNotFound { doc_id: doc, line_number: ln }),
            Some(c) => match spec_section_line(line.skip(4), ln, doc) {
                Ok(sub) => Ok(
                    SpecPState {
                        done: st.done,
                        cur: Some(SpecSection { sub_sections: c.sub_sections.push(sub), ..c }),
                        in_sub: true,
                        in_body: false,
                    },
                ),
                Err(e) => Err(e),
            },
        }
    } else if spec_trim(line).len() == 0 {
        if st.cur is Some && !st.in_body {
            Ok(SpecPState { in_body: true, ..st })
        } else {
            Ok(st)
        }
    } else {
        match st.cur {
            None => Err(SpecError::SectionNotFound { doc_id: doc, line_number: ln }),
            Some(c) => if st.in_body {
                Ok(
                    SpecPState {
                        cur: Some(
                            spec_attach_body(c, st.in_sub, crate::text::spec_trim_right(line), ln),
                        ),
                        ..st
                    },
                )
            } else {
                match spec_header_line(line, ln, doc) {
                    Ok(kv) => Ok(
                        SpecPState { cur: Some(spec_attach_header(c, st.in_sub, kv)), ..st },
                    ),
                    Err(e) => Err(e),
                }
            },
        }
    }
}

pub open spec fn spec_parse_init() -> SpecPState {
    SpecPState { done: Seq::empty(), cur: None, in_sub: false, in_body: false }
}

pub open spec fn spec_parse_fold(
    lines: Seq<Seq<char>>,
    ln: int,
    doc: Seq<char>,
    st: SpecPState,
) -> Result<SpecPState, SpecError>
    decreases lines.len(),
{
    if lines.len() == 0 {
        Ok(st)
    } else {
        match spec_step(st, lines[0], ln, doc) {
            Ok(st2) => spec_parse_fold(lines.drop_first(), ln + 1, doc, st2),
            Err(e) => Err(e),
        }
    }
}

/// The whole grammar: the text split into lines and folded through `spec_step`,
/// the trailing open section closed at the end.
pub open spec fn spec_parse(text: Seq<char>, doc: Seq<char>) -> Result<Seq<SpecSection>, SpecError> {
    match spec_parse_fold(spec_split(text, '\n'), 1, doc, spec_parse_init()) {
        Ok(st) => Ok(spec_close(st)),
        Err(e) => Err(e),
    }
}

impl Error {
    /// The structured diagnostic triple every error carries.
    pub fn line_number(&self) -> (r: usize)
        ensures
            r as int == self.spec_line_number(),
    {
        match self {
            Error::SectionNotFound { line_number, .. } => *line_number,
            Error::MoreThanOneCaption { line_number, .. } => *line_number,
            Error::ParseError { line_number, .. } => *line_number,
            Error::ForbiddenUsage { line_number, .. } => *line_number,
            Error::NotFound { line_number, .. } => *line_number,
            Error::MoreThanOneSubSections { line_number, .. } => *line_number,
        }
    }

    pub open spec fn spec_line_number(&self) -> int {
        match self@ {
            SpecError::SectionNotFound { line_number, .. } => line_number,
            SpecError::MoreThanOneCaption { line_number, .. } => line_number,
            SpecError::ParseError { line_number, .. } => line_number,
            SpecError::ForbiddenUsage { line_number, .. } => line_number,
            SpecError::NotFound { line_number, .. } => line_number,
            SpecError::MoreThanOneSubSections { line_number, .. } => line_number,
        }
    }
}

} // verus!

verus! {

pub struct PState {
    pub done: Vec<Section>,
    pub cur: Option<Section>,
    pub in_sub: bool,
    pub in_body: bool,
}

pub open spec fn opt_section_view(o: Option<Section>) -> Option<SpecSection> {
    match o {
        Some(s) => Some(s@),
        None => None,
    }
}

impl View for PState {
    type V = SpecPState;

    open spec fn view(&self) -> SpecPState {
        SpecPState {
            done: all_sections_view(self.done),
            cur: opt_section_view(self.cur),
            in_sub: self.in_sub,
            in_body: self.in_body,
        }
    }
}

proof fn lemma_push_section_view(v1: Vec<Section>, v2: Vec<Section>, x: Section)
    requires
        v2@ == v1@.push(x),
    ensures
        all_sections_view(v2) =~= all_sections_view(v1).push(x@),
{
    lemma_sections_view(v1, v1@.len() as int);
    lemma_sections_view(v2, v2@.len() as int);
}

proof fn lemma_update_last_section_view(v1: Vec<Section>, v2: Vec<Section>, x: Section)
    requires
        v1@.len() > 0,
        v2@ == v1@.update(v1@.len() - 1, x),
    ensures
        all_sections_view(v2) =~= all_sections_view(v1).update(
            all_sections_view(v1).len() - 1,
            x@,
        ),
{
    lemma_sections_view(v1, v1@.len() as int);
    lemma_sections_view(v2, v2@.len() as int);
}

proof fn lemma_push_header_view(v1: Vec<Header>, v2: Vec<Header>, x: Header)
    requires
        v2@ == v1@.push(x),
    ensures
        headers_view(v2, v2@.len() as int) =~= headers_view(v1, v1@.len() as int).push(x@),
{
    lemma_headers_view(v1, v1@.len() as int);
    lemma_headers_view(v2, v2@.len() as int);
}

/// Splits a trimmed `kind name` phrase into the name and the optional kind.
fn name_kind(left: &Vec<char>) -> (r: (String, Option<String>))
    ensures
        r.0@ == spec_name_kind(left@).0,
        opt_str(r.1) == spec_name_kind(left@).1,
{
    proof {
        crate::text::lemma_last_index_of_bounds(left@, ' ');
    }
    let nleft = left.len();
    match crate::text::last_index_of_char(left, ' ') {
        None => (chars_to_string(left), None),
        Some(si) => {
            let name = subvec(left, si + 1, nleft);
            let kindv = trim_chars(&subvec(left, 0, si));
            (chars_to_string(&name), Some(chars_to_string(&kindv)))
        },
    }
}

/// Parses one section line after its leading dashes.
fn section_line(line: &Vec<char>, skip: usize, ln: usize, doc_id: &str) -> (r: Result<
    Section,
    Error,
>)
    requires
        skip <= line@.len(),
    ensures
        match r {
            Ok(s) => spec_section_line(line@.skip(skip as int), ln as int, doc_id@)
                == Result::<SpecSection, SpecError>::Ok(s@),
            Err(e) => spec_section_line(line@.skip(skip as int), ln as int, doc_id@)
                == Result::<SpecSection, SpecError>::Err(e@),
        },
{
    let rest = subvec(line, skip, line.len());
    match index_of_char(&rest, ':') {
        None => Err(
            Error::ParseError {
                message: String::from_str("section line must contain a colon"),
                doc_id: String::from_str(doc_id),
                line_number: ln,
            },
        ),
        Some(ci) => {
            proof {
                crate::text::lemma_index_of_bounds(rest@, ':');
            }
            let left = trim_chars(&subvec(&rest, 0, ci));
            let right = trim_chars(&subvec(&rest, ci + 1, rest.len()));
            if left.len() == 0 {
                Err(
                    Error::ParseError {
                        message: String::from_str("section name is missing"),
                        doc_id: String::from_str(doc_id),
                        line_number: ln,
                    },
                )
            } else {
                let nk = name_kind(&left);
                let caption = if right.len() == 0 {
                    None
                } else {
                    Some(chars_to_string(&right))
                };
                let s = Section {
                    name: nk.0,
                    kind: nk.1,
                    caption,
                    headers: Vec::new(),
                    body: None,
                    line_number: ln,
                    sub_sections: Vec::new(),
                };
                proof {
                    assert(headers_view(s.headers, s.headers@.len() as int) == Seq::<
                        SpecHeader,
                    >::empty());
                    assert(sections_view(s.sub_sections, s.sub_sections@.len() as int) == Seq::<
                        SpecSection,
                    >::empty());
                    let expect = spec_section_line(line@.skip(skip as int), ln as int, doc_id@);
                    assert(expect is Ok);
                    assert(s@ =~~= expect->Ok_0);
                }
                Ok(s)
            }
        },
    }
}

/// Parses one header line.
fn header_line(line: &Vec<char>, ln: usize, doc_id: &str) -> (r: Result<KV, Error>)
    ensures
        match r {
            Ok(kv) => spec_header_line(line@, ln as int, doc_id@) == Result::<
                SpecKV,
                SpecError,
            >::Ok(kv@),
            Err(e) => spec_header_line(line@, ln as int, doc_id@) == Result::<
                SpecKV,
                SpecError,
            >::Err(e@),
        },
{
    match index_of_char(line, ':') {
        None => Err(
            Error::ParseError {
                message: String::from_str("header line must contain a colon"),
                doc_id: String::from_str(doc_id),
                line_number: ln,
            },
        ),
        Some(ci) => {
            proof {
                crate::text::lemma_index_of_bounds(line@, ':');
            }
            let nline = line.len();
            let left = trim_chars(&subvec(line, 0, ci));
            let right = trim_chars(&subvec(line, ci + 1, nline));
            if left.len() == 0 {
                Err(
                    Error::ParseError {
                        message: String::from_str("header key is missing"),
                        doc_id: String::from_str(doc_id),
                        line_number: ln,
                    },
                )
            } else {
                let nk = name_kind(&left);
                let value = if right.len() == 0 {
                    None
                } else {
                    Some(chars_to_string(&right))
                };
                let kv = KV { line_number: ln, key: nk.0, kind: nk.1, value };
                proof {
                    let expect = spec_header_line(line@, ln as int, doc_id@);
                    assert(expect is Ok);
                    assert(kv@ =~~= expect->Ok_0);
                }
                Ok(kv)
            }
        },
    }
}

/// Attaches one header to the active section.
fn attach_header(c: Section, in_sub: bool, kv: KV) -> (r: Section)
    ensures
        r@ == spec_attach_header(c@, in_sub, kv@),
{
    let ghost c0 = c;
    let mut c = c;
    if in_sub && c.sub_sections.len() > 0 {
        proof {
            lemma_sections_view(c.sub_sections, c.sub_sections@.len() as int);
        }
        let mut last = c.sub_sections.pop().unwrap();
        let ghost last0 = last;
        last.headers.push(Header::KV(kv));
        proof {
            lemma_push_header_view(last0.headers, last.headers, Header::KV(kv));
            assert(last@ =~~= spec_with_header(last0@, kv@));
        }
        let ghost popped = c.sub_sections;
        c.sub_sections.push(last);
        proof {
            lemma_push_section_view(popped, c.sub_sections, last);
            assert(c0.sub_sections@.len() > 0);
            assert(all_sections_view(c.sub_sections) =~= all_sections_view(popped).push(last@));
            lemma_sections_view(popped, popped@.len() as int);
            assert(all_sections_view(c0.sub_sections) =~= all_sections_view(popped).push(last0@));
            assert(all_sections_view(c.sub_sections) =~~= c0@.sub_sections.update(
                c0@.sub_sections.len() - 1,
                spec_with_header(c0@.sub_sections.last(), kv@),
            ));
            assert(c@ =~~= spec_attach_header(c0@, in_sub, kv@));
        }
        c
    } else {
        let ghost h0 = c.headers;
        c.headers.push(Header::KV(kv));
        proof {
            lemma_push_header_view(h0, c.headers, Header::KV(kv));
            assert(c@ =~~= spec_attach_header(c0@, in_sub, kv@));
        }
        c
    }
}

/// Appends one body line to the active section's body.
fn attach_body(c: Section, in_sub: bool, bl: &Vec<char>, ln: usize) -> (r: Section)
    ensures
        r@ == spec_attach_body(c@, in_sub, bl@, ln as int),
{
    let ghost c0 = c;
    let mut c = c;
    if in_sub && c.sub_sections.len() > 0 {
        proof {
            lemma_sections_view(c.sub_sections, c.sub_sections@.len() as int);
        }
        let mut last = c.sub_sections.pop().unwrap();
        let ghost last0 = last;
        last = body_line_onto(last, bl, ln);
        let ghost popped = c.sub_sections;
        c.sub_sections.push(last);
        proof {
            lemma_push_section_view(popped, c.sub_sections, last);
            lemma_sections_view(popped, popped@.len() as int);
            assert(all_sections_view(c0.sub_sections) =~= all_sections_view(popped).push(last0@));
            assert(all_sections_view(c.sub_sections) =~~= c0@.sub_sections.update(
                c0@.sub_sections.len() - 1,
                spec_with_body_line(c0@.sub_sections.last(), bl@, ln as int),
            ));
            assert(c@ =~~= spec_attach_body(c0@, in_sub, bl@, ln as int));
        }
        c
    } else {
        let r = body_line_onto(c, bl, ln);
        proof {
            assert(r@ =~~= spec_attach_body(c0@, in_sub, bl@, ln as int));
        }
        r
    }
}

/// Starts or extends the body of one section.
fn body_line_onto(c: Section, bl: &Vec<char>, ln: usize) -> (r: Section)
    ensures
        r@ == spec_with_body_line(c@, bl@, ln as int),
{
    let ghost c0 = c;
    let mut c = c;
    let text = chars_to_string(bl);
    match c.body {
        None => {
            c.body = Some(Body { line_number: ln, value: text });
            proof {
                assert(c@ =~~= spec_with_body_line(c0@, bl@, ln as int));
            }
            c
        },
        Some(b) => {
            let mut value = b.value;
            value.push('\n');
            value.append(text.as_str());
            proof {
                assert(value@ =~= c0@.body->Some_0.value + seq!['\n'] + bl@);
            }
            c.body = Some(Body { line_number: b.line_number, value });
            proof {
                assert(c@ =~~= spec_with_body_line(c0@, bl@, ln as int));
            }
            c
        },
    }
}

/// Folds one line into the parser state.
fn pstep(st: PState, line: &Vec<char>, ln: usize, doc_id: &str) -> (r: Result<PState, Error>)
    ensures
        match r {
            Ok(st2) => spec_step(st@, line@, ln as int, doc_id@) == Result::<
                SpecPState,
                SpecError,
            >::Ok(st2@),
            Err(e) => spec_step(st@, line@, ln as int, doc_id@) == Result::<
                SpecPState,
                SpecError,
            >::Err(e@),
        },
{
    let ghost st0 = st;
    proof {
        reveal_strlit("-- ");
        reveal_strlit("--- ");
    }
    let PState { mut done, cur, in_sub, in_body } = st;
    if starts_with_str(line, "-- ") {
        match section_line(line, 3, ln, doc_id) {
            Ok(sec) => {
                let ghost done0 = done;
                match cur {
                    Some(c) => {
                        done.push(c);
                        proof {
                            lemma_push_section_view(done0, done, c);
                        }
                    },
                    None => {},
                }
                let st2 = PState { done, cur: Some(sec), in_sub: false, in_body: false };
                proof {
                    assert(st2@ =~~= spec_step(st0@, line@, ln as int, doc_id@)->Ok_0);
                }
                Ok(st2)
            },
            Err(e) => Err(e),
        }
    } else if starts_with_str(line, "--- ") {
        match cur {
            None => Err(
                Error::SectionNotFound { doc_id: String::from_str(doc_id), line_number: ln },
            ),
            Some(c) => match section_line(line, 4, ln, doc_id) {
                Ok(sub) => {
                    let ghost c0 = c;
                    let mut c = c;
                    let ghost subs0 = c.sub_sections;
                    c.sub_sections.push(sub);
                    proof {
                        lemma_push_section_view(subs0, c.sub_sections, sub);
                    }
                    let st2 = PState { done, cur: Some(c), in_sub: true, in_body: false };
                    proof {
                        assert(st2@ =~~= spec_step(st0@, line@, ln as int, doc_id@)->Ok_0);
                    }
                    Ok(st2)
                },
                Err(e) => Err(e),
            },
        }
    } else if trim_chars(line).len() == 0 {
        let has_cur = cur.is_some();
        let st2 = PState { done, cur, in_sub, in_body: if has_cur && !in_body {
            true
        } else {
            in_body
        } };
        proof {
            assert(st2@ =~~= spec_step(st0@, line@, ln as int, doc_id@)->Ok_0);
        }
        Ok(st2)
    } else {
        match cur {
            None => Err(
                Error::SectionNotFound { doc_id: String::from_str(doc_id), line_number: ln },
            ),
            Some(c) => {
                if in_body {
                    let bl = crate::text::trim_right_chars(line);
                    let c2 = attach_body(c, in_sub, &bl, ln);
                    let st2 = PState { done, cur: Some(c2), in_sub, in_body };
                    proof {
                        assert(st2@ =~~= spec_step(st0@, line@, ln as int, doc_id@)->Ok_0);
                    }
                    Ok(st2)
                } else {
                    match header_line(line, ln, doc_id) {
                        Ok(kv) => {
                            let c2 = attach_header(c, in_sub, kv);
                            let st2 = PState { done, cur: Some(c2), in_sub, in_body };
                            proof {
                                assert(st2@ =~~= spec_step(st0@, line@, ln as int, doc_id@)->Ok_0);
                            }
                            Ok(st2)
                        },
                        Err(e) => Err(e),
                    }
                }
            },
        }
    }
}

/// Parses raw text into the document's sections; shape only.
///
/// The result is exactly what the line-by-line grammar `spec_parse` assigns to
/// the text, or its first structural error.
pub fn parse(text: &str, doc_id: &str) -> (r: Result<Vec<Section>, Error>)
    ensures
        match r {
            Ok(secs) => spec_parse(text@, doc_id@) == Result::<Seq<SpecSection>, SpecError>::Ok(
                all_sections_view(secs),
            ),
            Err(e) => spec_parse(text@, doc_id@) == Result::<Seq<SpecSection>, SpecError>::Err(e@),
        },
{
    let chars = str_to_chars(text);
    let lines = split_char(&chars, '\n');
    let ghost lns = spec_split(text@, '\n');
    let mut st = PState { done: Vec::new(), cur: None, in_sub: false, in_body: false };
    proof {
        assert(all_sections_view(st.done) == Seq::<SpecSection>::empty());
        assert(st@ =~~= spec_parse_init());
        assert(lns.skip(0) =~= lns);
    }
    let n = lines.len();
    let mut i: usize = 0;
    while i < n
        invariant
            0 <= i <= n == lines@.len(),
            lines@.map_values(|p: Vec<char>| p@) == lns,
            lns == spec_split(text@, '\n'),
            spec_parse_fold(lns, 1, doc_id@, spec_parse_init()) == spec_parse_fold(
                lns.skip(i as int),
                i + 1,
                doc_id@,
                st@,
            ),
        decreases n - i,
    {
        proof {
            assert(lns.skip(i as int).len() == n - i);
            assert(lns.skip(i as int)[0] == lns[i as int]);
            assert(lns[i as int] == lines[i as int]@);
            assert(lns.skip(i as int).drop_first() =~= lns.skip(i + 1));
        }
        match pstep(st, &lines[i], i + 1, doc_id) {
            Ok(st2) => {
                st = st2;
            },
            Err(e) => {
                proof {
                    assert(spec_parse_fold(lns.skip(i as int), i + 1, doc_id@, st@)
                        == Result::<SpecPState, SpecError>::Err(e@));
                }
                return Err(e);
            },
        }
        i += 1;
    }
    proof {
        assert(lns.skip(n as int) =~= Seq::<Seq<char>>::empty());
        assert(spec_parse_fold(lns, 1, doc_id@, spec_parse_init()) == Result::<
            SpecPState,
            SpecError,
        >::Ok(st@));
    }
    let PState { mut done, cur, .. } = st;
    let ghost done0 = done;
    match cur {
        Some(c) => {
            done.push(c);
            proof {
                lemma_push_section_view(done0, done, c);
            }
        },
        None => {},
    }
    Ok(done)
}

} // verus!
