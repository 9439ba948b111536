//! Definition items: the typed shapes that sections declare. A `record`
//! section becomes a [`Record`] with one [`Field`] per header; a header
//! without a declared kind is a hard error.
use crate::ast;
use crate::p11::{
    all_sections_view, Header, Section, SpecHeader, SpecKV, SpecSection,
};
use crate::text::eq_str;
use vstd::prelude::*;

verus! {

/// The section kind that declares a record.
pub open spec fn spec_record_kind() -> Seq<char> {
    "record"@
}

/// A named product type: one field per header of its declaring section.
pub struct Record {
    name: String,
    fields: Vec<Field>,
}

/// One declared field: a name, a mandatory kind and an optional default.
pub struct Field {
    name: String,
    kind: String,
    value: Option<String>,
}

#[verifier::ext_equal]
pub struct SpecField {
    pub name: Seq<char>,
    pub kind: Seq<char>,
    pub value: Option<Seq<char>>,
}

#[verifier::ext_equal]
pub struct SpecRecord {
    pub name: Seq<char>,
    pub fields: Seq<SpecField>,
}

impl View for Field {
    type V = SpecField;

    closed spec fn view(&self) -> SpecField {
        SpecField { name: self.name@, kind: self.kind@, value: crate::p11::opt_str(self.value) }
    }
}

impl View for Record {
    type V = SpecRecord;

    closed spec fn view(&self) -> SpecRecord {
        SpecRecord { name: self.name@, fields: self.fields@.map_values(|f: Field| f@) }
    }
}

/// What one header contributes to a record: a field when it is a key/value
/// header with a kind, an error otherwise.
pub open spec fn spec_field_of_header(h: SpecHeader, doc: Seq<char>) -> Result<
    SpecField,
    ast::SpecError,
> {
    match h {
        SpecHeader::KV(kv) => match kv.kind {
            Some(k) => Ok(SpecField { name: kv.key, kind: k, value: kv.value }),
            None => Err(
                ast::SpecError::ParseError {
                    message: "cannot find kind for record field: "@ + kv.key,
                    doc_id: doc,
                    line_number: kv.line_number,
                },
            ),
        },
        SpecHeader::Block { line_number, key, .. } => Err(
            ast::SpecError::ParseError {
                message: "record field cannot hold nested sections: "@ + key,
                doc_id: doc,
                line_number: line_number,
            },
        ),
    }
}

/// The fields of all headers, or the first header error.
pub open spec fn spec_fields_of_headers(hs: Seq<SpecHeader>, doc: Seq<char>) -> Result<
    Seq<SpecField>,
    ast::SpecError,
>
    decreases hs.len(),
{
    if hs.len() == 0 {
        Ok(Seq::empty())
    } else {
        match spec_field_of_header(hs[0], doc) {
            Ok(f) => match spec_fields_of_headers(hs.drop_first(), doc) {
                Ok(rest) => Ok(seq![f] + rest),
                Err(e) => Err(e),
            },
            Err(e) => Err(e),
        }
    }
}

/// What a `record` section builds to.
pub open spec fn spec_record_of_section(s: SpecSection, doc: Seq<char>) -> Result<
    SpecRecord,
    ast::SpecError,
> {
    if s.kind != Some(spec_record_kind()) {
        Err(
            ast::SpecError::ParseError {
                message: "section is not a record section: "@ + s.name,
                doc_id: doc,
                line_number: s.line_number,
            },
        )
    } else {
        match spec_fields_of_headers(s.headers, doc) {
            Ok(fields) => Ok(SpecRecord { name: s.name, fields }),
            Err(e) => Err(e),
        }
    }
}

impl Field {
    /// Builds one field from one header; the kind annotation is mandatory.
    pub fn from_header(header: &Header, doc_id: &str) -> (r: Result<Field, ast::Error>)
        ensures
            match r {
                Ok(f) => spec_field_of_header(header@, doc_id@) == Result::<
                    SpecField,
                    ast::SpecError,
                >::Ok(f@),
                Err(e) => spec_field_of_header(header@, doc_id@) == Result::<
                    SpecField,
                    ast::SpecError,
                >::Err(e@),
            },
    {
        match header {
            Header::KV(kv) => match &kv.kind {
                Some(k) => {
                    let f = Field {
                        name: kv.key.clone(),
                        kind: k.clone(),
                        value: match &kv.value {
                            Some(v) => Some(v.clone()),
                            None => None,
                        },
                    };
                    proof {
                        assert(f@ =~~= spec_field_of_header(header@, doc_id@)->Ok_0);
                    }
                    Ok(f)
                },
                None => {
                    let mut message = String::from_str("cannot find kind for record field: ");
                    message.append(kv.key.as_str());
                    ast::parse_error(message, doc_id, kv.line_number)
                },
            },
            Header::Block(b) => {
                let mut message = String::from_str("record field cannot hold nested sections: ");
                message.append(b.key.as_str());
                ast::parse_error(message, doc_id, b.line_number)
            },
        }
    }

    /// Builds a field directly from its parts.
    pub fn new(name: &str, kind: &str, value: Option<String>) -> (r: Field)
        ensures
            r@.name == name@,
            r@.kind == kind@,
            r@.value == crate::p11::opt_str(value),
    {
        Field { name: String::from_str(name), kind: String::from_str(kind), value }
    }

    /// The field's name.
    pub fn name(&self) -> (r: &String)
        ensures
            r@ == self@.name,
    {
        &self.name
    }

    /// The field's declared kind.
    pub fn kind(&self) -> (r: &String)
        ensures
            r@ == self@.kind,
    {
        &self.kind
    }

    /// The field's declared default value, when one was given.
    pub fn value(&self) -> (r: &Option<String>)
        ensures
            crate::p11::opt_str(*r) == self@.value,
    {
        &self.value
    }
}

/// Builds the field list of a record from its section's headers.
pub fn get_fields_from_headers(headers: &Vec<Header>, doc_id: &str) -> (r: Result<
    Vec<Field>,
    ast::Error,
>)
    ensures
        match r {
            Ok(fields) => spec_fields_of_headers(
                crate::p11::headers_view(*headers, headers@.len() as int),
                doc_id@,
            ) == Result::<Seq<SpecField>, ast::SpecError>::Ok(fields@.map_values(|f: Field| f@)),
            Err(e) => spec_fields_of_headers(
                crate::p11::headers_view(*headers, headers@.len() as int),
                doc_id@,
            ) == Result::<Seq<SpecField>, ast::SpecError>::Err(e@),
        },
{
    let ghost hs = crate::p11::headers_view(*headers, headers@.len() as int);
    proof {
        crate::p11::lemma_headers_view(*headers, headers@.len() as int);
    }
    let mut fields: Vec<Field> = Vec::new();
    let n = headers.len();
    proof {
        assert(hs.skip(0) =~= hs);
        assert(fields@.map_values(|f: Field| f@) =~= Seq::<SpecField>::empty());
        if spec_fields_of_headers(hs, doc_id@) is Ok {
            assert(spec_fields_of_headers(hs, doc_id@)->Ok_0 =~= fields@.map_values(|f: Field| f@)
                + spec_fields_of_headers(hs, doc_id@)->Ok_0);
        }
    }
    let mut i: usize = 0;
    while i < n
        invariant
            0 <= i <= n == headers@.len(),
            hs == crate::p11::headers_view(*headers, headers@.len() as int),
            hs.len() == n,
            forall|k: int| 0 <= k < n ==> hs[k] == headers[k]@,
            spec_fields_of_headers(hs, doc_id@) matches Ok(all) ==> {
                &&& spec_fields_of_headers(hs.skip(i as int), doc_id@) matches Ok(rest)
                &&& all =~= fields@.map_values(|f: Field| f@) + rest
            },
            spec_fields_of_headers(hs, doc_id@) matches Err(e) ==> spec_fields_of_headers(
                hs.skip(i as int),
                doc_id@,
            ) == Result::<Seq<SpecField>, ast::SpecError>::Err(e),
        decreases n - i,
    {
        proof {
            assert(hs.skip(i as int).len() == n - i);
            assert(hs.skip(i as int)[0] == hs[i as int]);
            assert(hs.skip(i as int).drop_first() =~= hs.skip(i + 1));
        }
        match Field::from_header(&headers[i], doc_id) {
            Ok(f) => {
                let ghost fs0 = fields@.map_values(|f: Field| f@);
                fields.push(f);
                proof {
                    assert(fields@.map_values(|f: Field| f@) =~= fs0.push(f@));
                    if spec_fields_of_headers(hs, doc_id@) is Ok {
                        assert(fs0.push(f@) + spec_fields_of_headers(
                            hs.skip(i + 1),
                            doc_id@,
                        )->Ok_0 =~= fs0 + (seq![f@] + spec_fields_of_headers(
                            hs.skip(i + 1),
                            doc_id@,
                        )->Ok_0));
                    }
                }
            },
            Err(e) => {
                return Err(e);
            },
        }
        i += 1;
    }
    proof {
        assert(hs.skip(n as int) =~= Seq::<SpecHeader>::empty());
        if spec_fields_of_headers(hs, doc_id@) is Ok {
            assert(spec_fields_of_headers(hs, doc_id@)->Ok_0 =~= fields@.map_values(
                |f: Field| f@,
            ));
        }
    }
    Ok(fields)
}

impl Record {
    /// Whether the section is kinded `record`.
    pub fn is_record(section: &Section) -> (r: bool)
        ensures
            r == (section@.kind == Some(spec_record_kind())),
    {
        match &section.kind {
            Some(k) => eq_str(k.as_str(), "record"),
            None => false,
        }
    }

    /// Builds a record from its declaring section: the section must be kinded
    /// `record`, and every header must carry a kind.
    pub fn from_p1(section: &Section, doc_id: &str) -> (r: Result<Record, ast::Error>)
        ensures
            match r {
                Ok(rec) => spec_record_of_section(section@, doc_id@) == Result::<
                    SpecRecord,
                    ast::SpecError,
                >::Ok(rec@),
                Err(e) => spec_record_of_section(section@, doc_id@) == Result::<
                    SpecRecord,
                    ast::SpecError,
                >::Err(e@),
            },
    {
        if !Self::is_record(section) {
            let mut message = String::from_str("section is not a record section: ");
            message.append(section.name.as_str());
            return ast::parse_error(message, doc_id, section.line_number);
        }
        match get_fields_from_headers(&section.headers, doc_id) {
            Ok(fields) => {
                let rec = Record { name: section.name.clone(), fields };
                proof {
                    assert(rec@ =~~= spec_record_of_section(section@, doc_id@)->Ok_0);
                }
                Ok(rec)
            },
            Err(e) => Err(e),
        }
    }

    /// Builds an empty record with the given name.
    pub fn new(name: &str) -> (r: Record)
        ensures
            r@.name == name@,
            r@.fields.len() == 0,
    {
        let r = Record { name: String::from_str(name), fields: Vec::new() };
        proof {
            assert(r@.fields =~= Seq::<SpecField>::empty());
        }
        r
    }

    /// Appends one field to the record.
    pub fn add_field(self, name: &str, kind: &str, value: Option<String>) -> (r: Record)
        ensures
            r@.name == self@.name,
            r@.fields == self@.fields.push(
                SpecField { name: name@, kind: kind@, value: crate::p11::opt_str(value) },
            ),
    {
        let ghost fs0 = self@.fields;
        let mut record = self;
        let f = Field::new(name, kind, value);
        record.fields.push(f);
        proof {
            assert(record@.fields =~= fs0.push(f@));
        }
        record
    }

    /// The record's name.
    pub fn name(&self) -> (r: &String)
        ensures
            r@ == self@.name,
    {
        &self.name
    }

    /// The record's fields, in declaration order.
    pub fn fields(&self) -> (r: &Vec<Field>)
        ensures
            r@.map_values(|f: Field| f@) == self@.fields,
    {
        &self.fields
    }
}

} // verus!
