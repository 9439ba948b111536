//! Abstract-syntax construction: one typed node per declared section kind.
//! Shape is validated here; names and types are the interpreter's business.
use crate::p11;
use vstd::prelude::*;

verus! {

broadcast use vstd::std_specs::vec::axiom_vec_index_decreases;

/// Errors of the syntax-building stage: a structural error passed through, or
/// a section mismatched against its declared-kind grammar.
#[derive(Debug)]
pub enum Error {
    P1Error(p11::Error),
    ParseError { message: String, doc_id: String, line_number: usize },
}

#[verifier::ext_equal]
pub enum SpecError {
    P1Error(p11::SpecError),
    ParseError { message: Seq<char>, doc_id: Seq<char>, line_number: int },
}

impl View for Error {
    type V = SpecError;

    open spec fn view(&self) -> SpecError {
        match self {
            Error::P1Error(e) => SpecError::P1Error(e@),
            Error::ParseError { message, doc_id, line_number } => SpecError::ParseError {
                message: message@,
                doc_id: doc_id@,
                line_number: *line_number as int,
            },
        }
    }
}

/// Builds the diagnostic every syntax error carries: message, document, line.
pub fn parse_error<T>(m: String, doc_id: &str, line_number: usize) -> (r: Result<T, Error>)
    ensures
        r matches Err(e) && e@ == (SpecError::ParseError {
            message: m@,
            doc_id: doc_id@,
            line_number: line_number as int,
        }),
{
    Err(Error::ParseError { message: m, doc_id: String::from_str(doc_id), line_number })
}

/// An `import` node: the requested module and the alias its names go under.
pub struct ImportNode {
    pub module: String,
    pub alias: String,
    pub line_number: usize,
}

/// A variable definition: `-- kind name: value`, mutable when the name is
/// written `$name`, with an optional caller-run processor.
pub struct VariableDef {
    pub name: String,
    pub kind: String,
    pub mutable: bool,
    pub value: Option<String>,
    pub processor: Option<String>,
    pub line_number: usize,
}

/// A function definition: typed arguments and one expression per body line.
pub struct FunctionDef {
    pub name: String,
    pub arguments: Vec<crate::di::Field>,
    pub expressions: Vec<String>,
    pub line_number: usize,
}

/// An or-type definition: one typed variant per header.
pub struct OrTypeDef {
    pub name: String,
    pub variants: Vec<crate::di::Field>,
    pub line_number: usize,
}

/// A component definition: typed arguments and the invocations it expands to.
pub struct ComponentDef {
    pub name: String,
    pub arguments: Vec<crate::di::Field>,
    pub definition: Vec<InvocationNode>,
    pub line_number: usize,
}

/// One `key: value` property handed to an invocation.
pub struct PropertyNode {
    pub key: String,
    pub value: String,
    pub line_number: usize,
}

/// One event binding of an invocation: `on-<event>: action`.
pub struct EventNode {
    pub name: String,
    pub action: String,
}

/// A component invocation with its properties, visibility condition, loop,
/// events and child invocations.
pub struct InvocationNode {
    pub name: String,
    pub properties: Vec<PropertyNode>,
    pub condition: Option<String>,
    pub loop_on: Option<String>,
    pub loop_alias: Option<String>,
    pub events: Vec<EventNode>,
    pub children: Vec<InvocationNode>,
    pub line_number: usize,
}

/// One typed syntax node per declared section kind.
pub enum Ast {
    Import(ImportNode),
    RecordDefinition(crate::di::Record),
    OrTypeDefinition(OrTypeDef),
    VariableDefinition(VariableDef),
    FunctionDefinition(FunctionDef),
    ComponentDefinition(ComponentDef),
    ComponentInvocation(InvocationNode),
}

#[verifier::ext_equal]
pub struct SpecImportNode {
    pub module: Seq<char>,
    pub alias: Seq<char>,
    pub line_number: int,
}

#[verifier::ext_equal]
pub struct SpecVariableDef {
    pub name: Seq<char>,
    pub kind: Seq<char>,
    pub mutable: bool,
    pub value: Option<Seq<char>>,
    pub processor: Option<Seq<char>>,
    pub line_number: int,
}

#[verifier::ext_equal]
pub struct SpecFunctionDef {
    pub name: Seq<char>,
    pub arguments: Seq<crate::di::SpecField>,
    pub expressions: Seq<Seq<char>>,
    pub line_number: int,
}

#[verifier::ext_equal]
pub struct SpecOrTypeDef {
    pub name: Seq<char>,
    pub variants: Seq<crate::di::SpecField>,
    pub line_number: int,
}

#[verifier::ext_equal]
pub struct SpecComponentDef {
    pub name: Seq<char>,
    pub arguments: Seq<crate::di::SpecField>,
    pub definition: Seq<SpecInvocationNode>,
    pub line_number: int,
}

#[verifier::ext_equal]
pub struct SpecPropertyNode {
    pub key: Seq<char>,
    pub value: Seq<char>,
    pub line_number: int,
}

#[verifier::ext_equal]
pub struct SpecEventNode {
    pub name: Seq<char>,
    pub action: Seq<char>,
}

#[verifier::ext_equal]
pub struct SpecInvocationNode {
    pub name: Seq<char>,
    pub properties: Seq<SpecPropertyNode>,
    pub condition: Option<Seq<char>>,
    pub loop_on: Option<Seq<char>>,
    pub loop_alias: Option<Seq<char>>,
    pub events: Seq<SpecEventNode>,
    pub children: Seq<SpecInvocationNode>,
    pub line_number: int,
}

#[verifier::ext_equal]
pub enum SpecAst {
    Import(SpecImportNode),
    RecordDefinition(crate::di::SpecRecord),
    OrTypeDefinition(SpecOrTypeDef),
    VariableDefinition(SpecVariableDef),
    FunctionDefinition(SpecFunctionDef),
    ComponentDefinition(SpecComponentDef),
    ComponentInvocation(SpecInvocationNode),
}

impl View for PropertyNode {
    type V = SpecPropertyNode;

    open spec fn view(&self) -> SpecPropertyNode {
        SpecPropertyNode {
            key: self.key@,
            value: self.value@,
            line_number: self.line_number as int,
        }
    }
}

impl View for EventNode {
    type V = SpecEventNode;

    open spec fn view(&self) -> SpecEventNode {
        SpecEventNode { name: self.name@, action: self.action@ }
    }
}

pub open spec fn invocations_view(v: Vec<InvocationNode>, k: int) -> Seq<SpecInvocationNode>
    decreases v, k,
{
    if k <= 0 || k > v@.len() {
        Seq::empty()
    } else {
        invocations_view(v, k - 1).push(v[k - 1].view())
    }
}

impl View for InvocationNode {
    type V = SpecInvocationNode;

    open spec fn view(&self) -> SpecInvocationNode
        decreases self,
    {
        SpecInvocationNode {
            name: self.name@,
            properties: self.properties@.map_values(|p: PropertyNode| p@),
            condition: crate::p11::opt_str(self.condition),
            loop_on: crate::p11::opt_str(self.loop_on),
            loop_alias: crate::p11::opt_str(self.loop_alias),
            events: self.events@.map_values(|e: EventNode| e@),
            children: invocations_view(self.children, self.children@.len() as int),
            line_number: self.line_number as int,
        }
    }
}

pub proof fn lemma_invocations_view(v: Vec<InvocationNode>, k: int)
    requires
        0 <= k <= v@.len(),
    ensures
        invocations_view(v, k).len() == k,
        forall|i: int| 0 <= i < k ==> invocations_view(v, k)[i] == v[i]@,
    decreases k,
{
    if k > 0 {
        lemma_invocations_view(v, k - 1);
        assert(invocations_view(v, k) == invocations_view(v, k - 1).push(v[k - 1].view()));
    } else {
        assert(invocations_view(v, k) == Seq::<SpecInvocationNode>::empty());
    }
}

/// The view of a vector of invocations.
pub open spec fn all_invocations_view(v: Vec<InvocationNode>) -> Seq<SpecInvocationNode> {
    invocations_view(v, v@.len() as int)
}

impl View for ImportNode {
    type V = SpecImportNode;

    open spec fn view(&self) -> SpecImportNode {
        SpecImportNode {
            module: self.module@,
            alias: self.alias@,
            line_number: self.line_number as int,
        }
    }
}

impl View for VariableDef {
    type V = SpecVariableDef;

    open spec fn view(&self) -> SpecVariableDef {
        SpecVariableDef {
            name: self.name@,
            kind: self.kind@,
            mutable: self.mutable,
            value: crate::p11::opt_str(self.value),
            processor: crate::p11::opt_str(self.processor),
            line_number: self.line_number as int,
        }
    }
}

impl View for FunctionDef {
    type V = SpecFunctionDef;

    open spec fn view(&self) -> SpecFunctionDef {
        SpecFunctionDef {
            name: self.name@,
            arguments: self.arguments@.map_values(|f: crate::di::Field| f@),
            expressions: self.expressions@.map_values(|e: String| e@),
            line_number: self.line_number as int,
        }
    }
}

impl View for OrTypeDef {
    type V = SpecOrTypeDef;

    open spec fn view(&self) -> SpecOrTypeDef {
        SpecOrTypeDef {
            name: self.name@,
            variants: self.variants@.map_values(|f: crate::di::Field| f@),
            line_number: self.line_number as int,
        }
    }
}

impl View for ComponentDef {
    type V = SpecComponentDef;

    open spec fn view(&self) -> SpecComponentDef {
        SpecComponentDef {
            name: self.name@,
            arguments: self.arguments@.map_values(|f: crate::di::Field| f@),
            definition: all_invocations_view(self.definition),
            line_number: self.line_number as int,
        }
    }
}

impl View for Ast {
    type V = SpecAst;

    open spec fn view(&self) -> SpecAst {
        match self {
            Ast::Import(n) => SpecAst::Import(n@),
            Ast::RecordDefinition(r) => SpecAst::RecordDefinition(r@),
            Ast::OrTypeDefinition(o) => SpecAst::OrTypeDefinition(o@),
            Ast::VariableDefinition(v) => SpecAst::VariableDefinition(v@),
            Ast::FunctionDefinition(f) => SpecAst::FunctionDefinition(f@),
            Ast::ComponentDefinition(c) => SpecAst::ComponentDefinition(c@),
            Ast::ComponentInvocation(i) => SpecAst::ComponentInvocation(i@),
        }
    }
}

} // verus!

verus! {

/// Section kinds that declare things rather than invoke components.
pub open spec fn spec_or_type_kind() -> Seq<char> {
    "or-type"@
}

pub open spec fn spec_component_kind() -> Seq<char> {
    "component"@
}

pub open spec fn spec_function_kind() -> Seq<char> {
    "function"@
}

/// What an `import` section builds to: `-- import: module [as alias]`; with no
/// alias the module is its own alias.
pub open spec fn spec_import_of(s: p11::SpecSection, doc: Seq<char>) -> Result<
    SpecImportNode,
    SpecError,
> {
    match s.caption {
        None => Err(
            SpecError::ParseError {
                message: "import needs a module name"@,
                doc_id: doc,
                line_number: s.line_number,
            },
        ),
        Some(c) => {
            let fi = crate::text::spec_index_of(c, ' ');
            if fi < 0 {
                Ok(SpecImportNode { module: c, alias: c, line_number: s.line_number })
            } else {
                let li = crate::text::spec_last_index_of(c, ' ');
                Ok(
                    SpecImportNode {
                        module: c.take(fi),
                        alias: c.skip(li + 1),
                        line_number: s.line_number,
                    },
                )
            }
        },
    }
}

/// The processor header of a variable definition, when present; any other
/// header is an error.
pub open spec fn spec_processor_fold(
    hs: Seq<p11::SpecHeader>,
    acc: Option<Seq<char>>,
    doc: Seq<char>,
) -> Result<Option<Seq<char>>, SpecError>
    decreases hs.len(),
{
    if hs.len() == 0 {
        Ok(acc)
    } else {
        match hs[0] {
            p11::SpecHeader::KV(kv) => {
                if kv.key == "processor"@ && kv.kind is None {
                    match kv.value {
                        Some(v) => if acc is Some {
                            Err(
                                SpecError::ParseError {
                                    message: "more than one processor header"@,
                                    doc_id: doc,
                                    line_number: kv.line_number,
                                },
                            )
                        } else {
                            spec_processor_fold(hs.drop_first(), Some(v), doc)
                        },
                        None => Err(
                            SpecError::ParseError {
                                message: "processor header needs a name"@,
                                doc_id: doc,
                                line_number: kv.line_number,
                            },
                        ),
                    }
                } else {
                    Err(
                        SpecError::ParseError {
                            message: "unexpected header in variable definition: "@ + kv.key,
                            doc_id: doc,
                            line_number: kv.line_number,
                        },
                    )
                }
            },
            p11::SpecHeader::Block { line_number, key, .. } => Err(
                SpecError::ParseError {
                    message: "unexpected header in variable definition: "@ + key,
                    doc_id: doc,
                    line_number: line_number,
                },
            ),
        }
    }
}

/// What a variable-definition section builds to: the remaining kinds, a `$`
/// prefix marking mutability, the caption or body giving the value.
pub open spec fn spec_variable_of(s: p11::SpecSection, k: Seq<char>, doc: Seq<char>) -> Result<
    SpecVariableDef,
    SpecError,
> {
    match spec_processor_fold(s.headers, None, doc) {
        Err(e) => Err(e),
        Ok(processor) => {
            let mutable = s.name.len() > 0 && s.name[0] == '$';
            let name = if mutable {
                s.name.skip(1)
            } else {
                s.name
            };
            let value = match s.caption {
                Some(c) => Some(c),
                None => match s.body {
                    Some(b) => Some(b.value),
                    None => None,
                },
            };
            if value is None && processor is None {
                Err(
                    SpecError::ParseError {
                        message: "variable has no value"@,
                        doc_id: doc,
                        line_number: s.line_number,
                    },
                )
            } else {
                Ok(
                    SpecVariableDef {
                        name,
                        kind: k,
                        mutable,
                        value,
                        processor,
                        line_number: s.line_number,
                    },
                )
            }
        },
    }
}

/// What a `function` section builds to: typed arguments, one expression per
/// body line (or the caption when there is no body).
pub open spec fn spec_function_of(s: p11::SpecSection, doc: Seq<char>) -> Result<
    SpecFunctionDef,
    SpecError,
> {
    match crate::di::spec_fields_of_headers(s.headers, doc) {
        Err(e) => Err(e),
        Ok(arguments) => match s.body {
            Some(b) => Ok(
                SpecFunctionDef {
                    name: s.name,
                    arguments,
                    expressions: crate::text::spec_split(b.value, '\n'),
                    line_number: s.line_number,
                },
            ),
            None => match s.caption {
                Some(c) => Ok(
                    SpecFunctionDef {
                        name: s.name,
                        arguments,
                        expressions: seq![c],
                        line_number: s.line_number,
                    },
                ),
                None => Err(
                    SpecError::ParseError {
                        message: "function has no expression"@,
                        doc_id: doc,
                        line_number: s.line_number,
                    },
                ),
            },
        },
    }
}

/// The running classification of an invocation's headers.
#[verifier::ext_equal]
pub struct SpecInvAcc {
    pub properties: Seq<SpecPropertyNode>,
    pub condition: Option<Seq<char>>,
    pub loop_on: Option<Seq<char>>,
    pub loop_alias: Option<Seq<char>>,
    pub events: Seq<SpecEventNode>,
}

/// Classifies one invocation header: `if`, `repeat`, `as`, an `on-` event, or
/// a plain property.
pub open spec fn spec_inv_step(acc: SpecInvAcc, h: p11::SpecHeader, doc: Seq<char>) -> Result<
    SpecInvAcc,
    SpecError,
> {
    match h {
        p11::SpecHeader::Block { line_number, key, .. } => Err(
            SpecError::ParseError {
                message: "nested sections are not supported in invocation headers: "@ + key,
                doc_id: doc,
                line_number: line_number,
            },
        ),
        p11::SpecHeader::KV(kv) => {
            if kv.kind is Some {
                Err(
                    SpecError::ParseError {
                        message: "unexpected kind in invocation header: "@ + kv.key,
                        doc_id: doc,
                        line_number: kv.line_number,
                    },
                )
            } else {
                match kv.value {
                    None => Err(
                        SpecError::ParseError {
                            message: "header has no value: "@ + kv.key,
                            doc_id: doc,
                            line_number: kv.line_number,
                        },
                    ),
                    Some(v) => {
                        if kv.key == "if"@ {
                            if acc.condition is Some {
                                Err(
                                    SpecError::ParseError {
                                        message: "more than one if header"@,
                                        doc_id: doc,
                                        line_number: kv.line_number,
                                    },
                                )
                            } else {
                                Ok(SpecInvAcc { condition: Some(v), ..acc })
                            }
                        } else if kv.key == "repeat"@ {
                            if acc.loop_on is Some {
                                Err(
                                    SpecError::ParseError {
                                        message: "more than one repeat header"@,
                                        doc_id: doc,
                                        line_number: kv.line_number,
                                    },
                                )
                            } else {
                                Ok(SpecInvAcc { loop_on: Some(v), ..acc })
                            }
                        } else if kv.key == "as"@ {
                            if acc.loop_alias is Some {
                                Err(
                                    SpecError::ParseError {
                                        message: "more than one as header"@,
                                        doc_id: doc,
                                        line_number: kv.line_number,
                                    },
                                )
                            } else {
                                Ok(SpecInvAcc { loop_alias: Some(v), ..acc })
                            }
                        } else if p11::is_prefix(kv.key, "on-"@) {
                            Ok(
                                SpecInvAcc {
                                    events: acc.events.push(
                                        SpecEventNode { name: kv.key.skip(3), action: v },
                                    ),
                                    ..acc
                                },
                            )
                        } else {
                            Ok(
                                SpecInvAcc {
                                    properties: acc.properties.push(
                                        SpecPropertyNode {
                                            key: kv.key,
                                            value: v,
                                            line_number: kv.line_number,
                                        },
                                    ),
                                    ..acc
                                },
                            )
                        }
                    },
                }
            }
        },
    }
}

/// The initial accumulator of an invocation: its caption as the `caption`
/// property.
pub open spec fn spec_inv_init(s: p11::SpecSection) -> SpecInvAcc {
    SpecInvAcc {
        properties: match s.caption {
            Some(c) => seq![
                SpecPropertyNode { key: "caption"@, value: c, line_number: s.line_number },
            ],
            None => Seq::empty(),
        },
        condition: None,
        loop_on: None,
        loop_alias: None,
        events: Seq::empty(),
    }
}

pub open spec fn spec_inv_headers(
    hs: Seq<p11::SpecHeader>,
    acc: SpecInvAcc,
    doc: Seq<char>,
) -> Result<SpecInvAcc, SpecError>
    decreases hs.len(),
{
    if hs.len() == 0 {
        Ok(acc)
    } else {
        match spec_inv_step(acc, hs[0], doc) {
            Ok(acc2) => spec_inv_headers(hs.drop_first(), acc2, doc),
            Err(e) => Err(e),
        }
    }
}

/// What an un-kinded section builds to: a component invocation. The caption
/// becomes the `caption` property, the body the `body` property; a `repeat`
/// without an `as` alias is an error.
pub open spec fn spec_invocation_of(s: p11::SpecSection, doc: Seq<char>) -> Result<
    SpecInvocationNode,
    SpecError,
>
    decreases s, 0int,
{
    if s.kind is Some {
        Err(
            SpecError::ParseError {
                message: "definition section cannot stand here: "@ + s.name,
                doc_id: doc,
                line_number: s.line_number,
            },
        )
    } else {
        match spec_inv_headers(s.headers, spec_inv_init(s), doc) {
            Err(e) => Err(e),
            Ok(acc) => {
                if acc.loop_on is Some && acc.loop_alias is None {
                    Err(
                        SpecError::ParseError {
                            message: "repeat needs an as alias"@,
                            doc_id: doc,
                            line_number: s.line_number,
                        },
                    )
                } else {
                    match spec_invocations_of(s.sub_sections, doc) {
                        Err(e) => Err(e),
                        Ok(children) => Ok(
                            SpecInvocationNode {
                                name: s.name,
                                properties: match s.body {
                                    Some(b) => acc.properties.push(
                                        SpecPropertyNode {
                                            key: "body"@,
                                            value: b.value,
                                            line_number: b.line_number,
                                        },
                                    ),
                                    None => acc.properties,
                                },
                                condition: acc.condition,
                                loop_on: acc.loop_on,
                                loop_alias: acc.loop_alias,
                                events: acc.events,
                                children,
                                line_number: s.line_number,
                            },
                        ),
                    }
                }
            },
        }
    }
}

pub open spec fn spec_invocations_of(subs: Seq<p11::SpecSection>, doc: Seq<char>) -> Result<
    Seq<SpecInvocationNode>,
    SpecError,
>
    decreases subs, 1int,
{
    if subs.len() == 0 {
        Ok(Seq::empty())
    } else {
        match spec_invocation_of(subs[0], doc) {
            Err(e) => Err(e),
            Ok(inv) => match spec_invocations_of(subs.drop_first(), doc) {
                Err(e) => Err(e),
                Ok(rest) => Ok(seq![inv] + rest),
            },
        }
    }
}

/// What a `component` section builds to: typed arguments and the child
/// invocations of its sub-sections.
pub open spec fn spec_component_of(s: p11::SpecSection, doc: Seq<char>) -> Result<
    SpecComponentDef,
    SpecError,
> {
    match crate::di::spec_fields_of_headers(s.headers, doc) {
        Err(e) => Err(e),
        Ok(arguments) => match spec_invocations_of(s.sub_sections, doc) {
            Err(e) => Err(e),
            Ok(definition) => Ok(
                SpecComponentDef {
                    name: s.name,
                    arguments,
                    definition,
                    line_number: s.line_number,
                },
            ),
        },
    }
}

/// What an `or-type` section builds to: one typed variant per header.
pub open spec fn spec_or_type_of(s: p11::SpecSection, doc: Seq<char>) -> Result<
    SpecOrTypeDef,
    SpecError,
> {
    match crate::di::spec_fields_of_headers(s.headers, doc) {
        Err(e) => Err(e),
        Ok(variants) => Ok(
            SpecOrTypeDef { name: s.name, variants, line_number: s.line_number },
        ),
    }
}

/// One mapping per declared section kind: the whole grammar of the builder.
pub open spec fn spec_ast_of_section(s: p11::SpecSection, doc: Seq<char>) -> Result<
    SpecAst,
    SpecError,
> {
    if s.kind is None && s.name == "import"@ {
        match spec_import_of(s, doc) {
            Ok(n) => Ok(SpecAst::Import(n)),
            Err(e) => Err(e),
        }
    } else {
        match s.kind {
            None => match spec_invocation_of(s, doc) {
                Ok(n) => Ok(SpecAst::ComponentInvocation(n)),
                Err(e) => Err(e),
            },
            Some(k) => {
                if k == crate::di::spec_record_kind() {
                    match crate::di::spec_record_of_section(s, doc) {
                        Ok(r) => Ok(SpecAst::RecordDefinition(r)),
                        Err(e) => Err(e),
                    }
                } else if k == spec_or_type_kind() {
                    match spec_or_type_of(s, doc) {
                        Ok(o) => Ok(SpecAst::OrTypeDefinition(o)),
                        Err(e) => Err(e),
                    }
                } else if k == spec_component_kind() {
                    match spec_component_of(s, doc) {
                        Ok(c) => Ok(SpecAst::ComponentDefinition(c)),
                        Err(e) => Err(e),
                    }
                } else if k == spec_function_kind() {
                    match spec_function_of(s, doc) {
                        Ok(f) => Ok(SpecAst::FunctionDefinition(f)),
                        Err(e) => Err(e),
                    }
                } else {
                    match spec_variable_of(s, k, doc) {
                        Ok(v) => Ok(SpecAst::VariableDefinition(v)),
                        Err(e) => Err(e),
                    }
                }
            },
        }
    }
}

/// The syntax nodes of all sections, or the first malformed section's error.
pub open spec fn spec_asts_of_sections(secs: Seq<p11::SpecSection>, doc: Seq<char>) -> Result<
    Seq<SpecAst>,
    SpecError,
>
    decreases secs.len(),
{
    if secs.len() == 0 {
        Ok(Seq::empty())
    } else {
        match spec_ast_of_section(secs[0], doc) {
            Err(e) => Err(e),
            Ok(a) => match spec_asts_of_sections(secs.drop_first(), doc) {
                Err(e) => Err(e),
                Ok(rest) => Ok(seq![a] + rest),
            },
        }
    }
}

} // verus!

verus! {

/// Splits a string at line breaks into owned lines.
fn split_string_lines(s: &str) -> (r: Vec<String>)
    ensures
        r@.map_values(|l: String| l@) == crate::text::spec_split(s@, '\n'),
{
    let chars = crate::text::str_to_chars(s);
    let pieces = crate::text::split_char(&chars, '\n');
    let mut r: Vec<String> = Vec::new();
    let n = pieces.len();
    let ghost target = crate::text::spec_split(s@, '\n');
    proof {
        assert(pieces@.map_values(|p: Vec<char>| p@) == target);
    }
    let mut i: usize = 0;
    while i < n
        invariant
            0 <= i <= n == pieces@.len(),
            pieces@.map_values(|p: Vec<char>| p@) == target,
            r@.len() == i,
            forall|k: int| 0 <= k < i ==> r@.map_values(|l: String| l@)[k] == target[k],
        decreases n - i,
    {
        r.push(crate::text::chars_to_string(&pieces[i]));
        i += 1;
    }
    proof {
        assert(r@.map_values(|l: String| l@) =~= target);
    }
    r
}

/// Builds the import node of an `import` section.
fn import_of(s: &p11::Section, doc_id: &str) -> (r: Result<ImportNode, Error>)
    ensures
        match r {
            Ok(n) => spec_import_of(s@, doc_id@) == Result::<SpecImportNode, SpecError>::Ok(n@),
            Err(e) => spec_import_of(s@, doc_id@) == Result::<SpecImportNode, SpecError>::Err(e@),
        },
{
    match &s.caption {
        None => parse_error(String::from_str("import needs a module name"), doc_id, s.line_number),
        Some(c) => {
            let cv = crate::text::str_to_chars(c.as_str());
            proof {
                crate::text::lemma_index_of_bounds(cv@, ' ');
                crate::text::lemma_last_index_of_bounds(cv@, ' ');
            }
            let nc = cv.len();
            match crate::text::index_of_char(&cv, ' ') {
                None => {
                    let n = ImportNode {
                        module: c.clone(),
                        alias: c.clone(),
                        line_number: s.line_number,
                    };
                    proof {
                        assert(n@ =~~= spec_import_of(s@, doc_id@)->Ok_0);
                    }
                    Ok(n)
                },
                Some(fi) => {
                    let li = match crate::text::last_index_of_char(&cv, ' ') {
                        Some(li) => li,
                        None => fi,
                    };
                    let n = ImportNode {
                        module: crate::text::chars_to_string(&crate::text::subvec(&cv, 0, fi)),
                        alias: crate::text::chars_to_string(
                            &crate::text::subvec(&cv, li + 1, nc),
                        ),
                        line_number: s.line_number,
                    };
                    proof {
                        assert(n@ =~~= spec_import_of(s@, doc_id@)->Ok_0);
                    }
                    Ok(n)
                },
            }
        },
    }
}

/// Finds the processor header of a variable definition.
fn processor_of_headers(headers: &Vec<p11::Header>, doc_id: &str) -> (r: Result<
    Option<String>,
    Error,
>)
    ensures
        match r {
            Ok(p) => spec_processor_fold(
                p11::headers_view(*headers, headers@.len() as int),
                None,
                doc_id@,
            ) == Result::<Option<Seq<char>>, SpecError>::Ok(crate::p11::opt_str(p)),
            Err(e) => spec_processor_fold(
                p11::headers_view(*headers, headers@.len() as int),
                None,
                doc_id@,
            ) == Result::<Option<Seq<char>>, SpecError>::Err(e@),
        },
{
    let ghost hs = p11::headers_view(*headers, headers@.len() as int);
    proof {
        p11::lemma_headers_view(*headers, headers@.len() as int);
        assert(hs.skip(0) =~= hs);
    }
    let mut acc: Option<String> = None;
    let n = headers.len();
    let mut i: usize = 0;
    while i < n
        invariant
            0 <= i <= n == headers@.len(),
            hs == p11::headers_view(*headers, headers@.len() as int),
            hs.len() == n,
            forall|k: int| 0 <= k < n ==> hs[k] == headers[k]@,
            spec_processor_fold(hs, None, doc_id@) == spec_processor_fold(
                hs.skip(i as int),
                crate::p11::opt_str(acc),
                doc_id@,
            ),
        decreases n - i,
    {
        proof {
            assert(hs.skip(i as int).len() == n - i);
            assert(hs.skip(i as int)[0] == hs[i as int]);
            assert(hs.skip(i as int).drop_first() =~= hs.skip(i + 1));
        }
        match &headers[i] {
            p11::Header::KV(kv) => {
                let is_processor = crate::text::eq_str(kv.key.as_str(), "processor")
                    && kv.kind.is_none();
                if is_processor {
                    match &kv.value {
                        Some(v) => {
                            if acc.is_some() {
                                return parse_error(
                                    String::from_str("more than one processor header"),
                                    doc_id,
                                    kv.line_number,
                                );
                            }
                            acc = Some(v.clone());
                        },
                        None => {
                            return parse_error(
                                String::from_str("processor header needs a name"),
                                doc_id,
                                kv.line_number,
                            );
                        },
                    }
                } else {
                    let mut message = String::from_str(
                        "unexpected header in variable definition: ",
                    );
                    message.append(kv.key.as_str());
                    return parse_error(message, doc_id, kv.line_number);
                }
            },
            p11::Header::Block(b) => {
                let mut message = String::from_str("unexpected header in variable definition: ");
                message.append(b.key.as_str());
                return parse_error(message, doc_id, b.line_number);
            },
        }
        i += 1;
    }
    proof {
        assert(hs.skip(n as int) =~= Seq::<p11::SpecHeader>::empty());
    }
    Ok(acc)
}

/// Builds a variable definition from a section with a non-definition kind.
fn variable_of(s: &p11::Section, kind: &String, doc_id: &str) -> (r: Result<VariableDef, Error>)
    ensures
        match r {
            Ok(v) => spec_variable_of(s@, kind@, doc_id@) == Result::<
                SpecVariableDef,
                SpecError,
            >::Ok(v@),
            Err(e) => spec_variable_of(s@, kind@, doc_id@) == Result::<
                SpecVariableDef,
                SpecError,
            >::Err(e@),
        },
{
    match processor_of_headers(&s.headers, doc_id) {
        Err(e) => Err(e),
        Ok(processor) => {
            let nlen = s.name.as_str().unicode_len();
            let mutable = nlen > 0 && s.name.as_str().get_char(0) == '$';
            let name = if mutable {
                s.name.as_str().substring_char(1, nlen).to_owned()
            } else {
                s.name.clone()
            };
            proof {
                if mutable {
                    assert(name@ =~= s@.name.skip(1));
                }
            }
            let value: Option<String> = match &s.caption {
                Some(c) => Some(c.clone()),
                None => match &s.body {
                    Some(b) => Some(b.value.clone()),
                    None => None,
                },
            };
            if value.is_none() && processor.is_none() {
                return parse_error(
                    String::from_str("variable has no value"),
                    doc_id,
                    s.line_number,
                );
            }
            let v = VariableDef {
                name,
                kind: kind.clone(),
                mutable,
                value,
                processor,
                line_number: s.line_number,
            };
            proof {
                assert(v@ =~~= spec_variable_of(s@, kind@, doc_id@)->Ok_0);
            }
            Ok(v)
        },
    }
}

/// Builds a function definition: arguments from headers, expressions from the
/// body lines or the caption.
fn function_of(s: &p11::Section, doc_id: &str) -> (r: Result<FunctionDef, Error>)
    ensures
        match r {
            Ok(f) => spec_function_of(s@, doc_id@) == Result::<SpecFunctionDef, SpecError>::Ok(f@),
            Err(e) => spec_function_of(s@, doc_id@) == Result::<SpecFunctionDef, SpecError>::Err(
                e@,
            ),
        },
{
    match crate::di::get_fields_from_headers(&s.headers, doc_id) {
        Err(e) => Err(e),
        Ok(arguments) => {
            let expressions: Vec<String> = match &s.body {
                Some(b) => split_string_lines(b.value.as_str()),
                None => match &s.caption {
                    Some(c) => {
                        let mut one: Vec<String> = Vec::new();
                        one.push(c.clone());
                        proof {
                            assert(one@.map_values(|l: String| l@) =~= seq![c@]);
                        }
                        one
                    },
                    None => {
                        return parse_error(
                            String::from_str("function has no expression"),
                            doc_id,
                            s.line_number,
                        );
                    },
                },
            };
            let f = FunctionDef {
                name: s.name.clone(),
                arguments,
                expressions,
                line_number: s.line_number,
            };
            proof {
                assert(f@ =~~= spec_function_of(s@, doc_id@)->Ok_0);
            }
            Ok(f)
        },
    }
}

} // verus!

verus! {

/// The running classification of an invocation's headers.
struct InvAcc {
    properties: Vec<PropertyNode>,
    condition: Option<String>,
    loop_on: Option<String>,
    loop_alias: Option<String>,
    events: Vec<EventNode>,
}

impl View for InvAcc {
    type V = SpecInvAcc;

    closed spec fn view(&self) -> SpecInvAcc {
        SpecInvAcc {
            properties: self.properties@.map_values(|p: PropertyNode| p@),
            condition: crate::p11::opt_str(self.condition),
            loop_on: crate::p11::opt_str(self.loop_on),
            loop_alias: crate::p11::opt_str(self.loop_alias),
            events: self.events@.map_values(|e: EventNode| e@),
        }
    }
}

/// Classifies one invocation header into the accumulator.
fn inv_step(acc: InvAcc, h: &p11::Header, doc_id: &str) -> (r: Result<InvAcc, Error>)
    ensures
        match r {
            Ok(acc2) => spec_inv_step(acc@, h@, doc_id@) == Result::<SpecInvAcc, SpecError>::Ok(
                acc2@,
            ),
            Err(e) => spec_inv_step(acc@, h@, doc_id@) == Result::<SpecInvAcc, SpecError>::Err(
                e@,
            ),
        },
{
    let ghost acc0 = acc;
    let mut acc = acc;
    match h {
        p11::Header::Block(b) => {
            let mut message = String::from_str(
                "nested sections are not supported in invocation headers: ",
            );
            message.append(b.key.as_str());
            parse_error(message, doc_id, b.line_number)
        },
        p11::Header::KV(kv) => {
            if kv.kind.is_some() {
                let mut message = String::from_str("unexpected kind in invocation header: ");
                message.append(kv.key.as_str());
                return parse_error(message, doc_id, kv.line_number);
            }
            match &kv.value {
                None => {
                    let mut message = String::from_str("header has no value: ");
                    message.append(kv.key.as_str());
                    parse_error(message, doc_id, kv.line_number)
                },
                Some(v) => {
                    if crate::text::eq_str(kv.key.as_str(), "if") {
                        if acc.condition.is_some() {
                            return parse_error(
                                String::from_str("more than one if header"),
                                doc_id,
                                kv.line_number,
                            );
                        }
                        acc.condition = Some(v.clone());
                        proof {
                            assert(acc@ =~~= spec_inv_step(acc0@, h@, doc_id@)->Ok_0);
                        }
                        Ok(acc)
                    } else if crate::text::eq_str(kv.key.as_str(), "repeat") {
                        if acc.loop_on.is_some() {
                            return parse_error(
                                String::from_str("more than one repeat header"),
                                doc_id,
                                kv.line_number,
                            );
                        }
                        acc.loop_on = Some(v.clone());
                        proof {
                            assert(acc@ =~~= spec_inv_step(acc0@, h@, doc_id@)->Ok_0);
                        }
                        Ok(acc)
                    } else if crate::text::eq_str(kv.key.as_str(), "as") {
                        if acc.loop_alias.is_some() {
                            return parse_error(
                                String::from_str("more than one as header"),
                                doc_id,
                                kv.line_number,
                            );
                        }
                        acc.loop_alias = Some(v.clone());
                        proof {
                            assert(acc@ =~~= spec_inv_step(acc0@, h@, doc_id@)->Ok_0);
                        }
                        Ok(acc)
                    } else if crate::text::str_starts_with(kv.key.as_str(), "on-") {
                        proof {
                            reveal_strlit("on-");
                        }
                        let klen = kv.key.as_str().unicode_len();
                        let ghost ev0 = acc.events@.map_values(|e: EventNode| e@);
                        let ev = EventNode {
                            name: kv.key.as_str().substring_char(3, klen).to_owned(),
                            action: v.clone(),
                        };
                        acc.events.push(ev);
                        proof {
                            assert(ev@.name =~= kv.key@.skip(3));
                            assert(acc.events@.map_values(|e: EventNode| e@) =~= ev0.push(ev@));
                            assert(acc@ =~~= spec_inv_step(acc0@, h@, doc_id@)->Ok_0);
                        }
                        Ok(acc)
                    } else {
                        let ghost pr0 = acc.properties@.map_values(|p: PropertyNode| p@);
                        let p = PropertyNode {
                            key: kv.key.clone(),
                            value: v.clone(),
                            line_number: kv.line_number,
                        };
                        acc.properties.push(p);
                        proof {
                            assert(acc.properties@.map_values(|p: PropertyNode| p@) =~= pr0.push(
                                p@,
                            ));
                            assert(acc@ =~~= spec_inv_step(acc0@, h@, doc_id@)->Ok_0);
                        }
                        Ok(acc)
                    }
                },
            }
        },
    }
}

/// Builds one invocation from an un-kinded section, its children recursively.
fn invocation_of(s: &p11::Section, doc_id: &str) -> (r: Result<InvocationNode, Error>)
    ensures
        match r {
            Ok(n) => spec_invocation_of(s@, doc_id@) == Result::<
                SpecInvocationNode,
                SpecError,
            >::Ok(n@),
            Err(e) => spec_invocation_of(s@, doc_id@) == Result::<
                SpecInvocationNode,
                SpecError,
            >::Err(e@),
        },
    decreases *s, 0int,
{
    if s.kind.is_some() {
        let mut message = String::from_str("definition section cannot stand here: ");
        message.append(s.name.as_str());
        return parse_error(message, doc_id, s.line_number);
    }
    let mut acc = InvAcc {
        properties: Vec::new(),
        condition: None,
        loop_on: None,
        loop_alias: None,
        events: Vec::new(),
    };
    match &s.caption {
        Some(c) => {
            let p = PropertyNode {
                key: String::from_str("caption"),
                value: c.clone(),
                line_number: s.line_number,
            };
            acc.properties.push(p);
            proof {
                assert(acc.properties@.map_values(|p: PropertyNode| p@) =~= seq![p@]);
                assert(acc.events@.map_values(|e: EventNode| e@) =~= Seq::<SpecEventNode>::empty());
            }
        },
        None => {
            proof {
                assert(acc.properties@.map_values(|p: PropertyNode| p@) =~= Seq::<
                    SpecPropertyNode,
                >::empty());
                assert(acc.events@.map_values(|e: EventNode| e@) =~= Seq::<SpecEventNode>::empty());
            }
        },
    }
    let ghost hs = p11::headers_view(s.headers, s.headers@.len() as int);
    let ghost acc_init = acc@;
    proof {
        assert(acc_init =~~= spec_inv_init(s@));
        p11::lemma_headers_view(s.headers, s.headers@.len() as int);
        assert(hs.skip(0) =~= hs);
    }
    let n = s.headers.len();
    let mut i: usize = 0;
    while i < n
        invariant
            0 <= i <= n == s.headers@.len(),
            hs == p11::headers_view(s.headers, s.headers@.len() as int),
            hs.len() == n,
            acc_init == spec_inv_init(s@),
            s@.kind is None,
            forall|k: int| 0 <= k < n ==> hs[k] == s.headers[k]@,
            spec_inv_headers(hs, acc_init, doc_id@) == spec_inv_headers(
                hs.skip(i as int),
                acc@,
                doc_id@,
            ),
        decreases n - i,
    {
        proof {
            assert(hs.skip(i as int).len() == n - i);
            assert(hs.skip(i as int)[0] == hs[i as int]);
            assert(hs.skip(i as int).drop_first() =~= hs.skip(i + 1));
        }
        match inv_step(acc, &s.headers[i], doc_id) {
            Ok(acc2) => {
                acc = acc2;
            },
            Err(e) => {
                proof {
                    assert(spec_inv_headers(hs.skip(i as int), acc@, doc_id@) == Result::<
                        SpecInvAcc,
                        SpecError,
                    >::Err(e@));
                    assert(spec_invocation_of(s@, doc_id@) == Result::<
                        SpecInvocationNode,
                        SpecError,
                    >::Err(e@));
                }
                return Err(e);
            },
        }
        i += 1;
    }
    proof {
        assert(hs.skip(n as int) =~= Seq::<p11::SpecHeader>::empty());
    }
    if acc.loop_on.is_some() && acc.loop_alias.is_none() {
        return parse_error(String::from_str("repeat needs an as alias"), doc_id, s.line_number);
    }
    match invocations_of(&s.sub_sections, doc_id) {
        Err(e) => Err(e),
        Ok(children) => {
            let mut properties = acc.properties;
            let ghost props0 = properties@.map_values(|p: PropertyNode| p@);
            match &s.body {
                Some(b) => {
                    let p = PropertyNode {
                        key: String::from_str("body"),
                        value: b.value.clone(),
                        line_number: b.line_number,
                    };
                    properties.push(p);
                    proof {
                        assert(properties@.map_values(|p: PropertyNode| p@) =~= props0.push(p@));
                    }
                },
                None => {},
            }
            let node = InvocationNode {
                name: s.name.clone(),
                properties,
                condition: acc.condition,
                loop_on: acc.loop_on,
                loop_alias: acc.loop_alias,
                events: acc.events,
                children,
                line_number: s.line_number,
            };
            proof {
                assert(node@ =~~= spec_invocation_of(s@, doc_id@)->Ok_0);
            }
            Ok(node)
        },
    }
}

/// Builds the invocations of a list of sub-sections.
fn invocations_of(subs: &Vec<p11::Section>, doc_id: &str) -> (r: Result<Vec<InvocationNode>, Error>)
    ensures
        match r {
            Ok(ns) => spec_invocations_of(p11::all_sections_view(*subs), doc_id@) == Result::<
                Seq<SpecInvocationNode>,
                SpecError,
            >::Ok(all_invocations_view(ns)),
            Err(e) => spec_invocations_of(p11::all_sections_view(*subs), doc_id@) == Result::<
                Seq<SpecInvocationNode>,
                SpecError,
            >::Err(e@),
        },
    decreases *subs, 1int,
{
    let ghost ss = p11::all_sections_view(*subs);
    proof {
        p11::lemma_sections_view(*subs, subs@.len() as int);
        assert(ss.skip(0) =~= ss);
    }
    let mut out: Vec<InvocationNode> = Vec::new();
    let n = subs.len();
    proof {
        lemma_invocations_view(out, 0);
        if spec_invocations_of(ss, doc_id@) is Ok {
            assert(spec_invocations_of(ss, doc_id@)->Ok_0 =~= all_invocations_view(out)
                + spec_invocations_of(ss, doc_id@)->Ok_0);
        }
    }
    let mut i: usize = 0;
    while i < n
        invariant
            0 <= i <= n == subs@.len(),
            ss == p11::all_sections_view(*subs),
            ss.len() == n,
            forall|k: int| 0 <= k < n ==> ss[k] == subs[k]@,
            spec_invocations_of(ss, doc_id@) matches Ok(all) ==> {
                &&& spec_invocations_of(ss.skip(i as int), doc_id@) matches Ok(rest)
                &&& all =~= all_invocations_view(out) + rest
            },
            spec_invocations_of(ss, doc_id@) matches Err(e) ==> spec_invocations_of(
                ss.skip(i as int),
                doc_id@,
            ) == Result::<Seq<SpecInvocationNode>, SpecError>::Err(e),
        decreases n - i,
    {
        proof {
            assert(ss.skip(i as int).len() == n - i);
            assert(ss.skip(i as int)[0] == ss[i as int]);
            assert(ss.skip(i as int).drop_first() =~= ss.skip(i + 1));
        }
        match invocation_of(&subs[i], doc_id) {
            Ok(node) => {
                let ghost out0 = out;
                out.push(node);
                proof {
                    lemma_invocations_view(out0, out0@.len() as int);
                    lemma_invocations_view(out, out@.len() as int);
                    assert(all_invocations_view(out) =~= all_invocations_view(out0).push(node@));
                    if spec_invocations_of(ss, doc_id@) is Ok {
                        assert(all_invocations_view(out0).push(node@) + spec_invocations_of(
                            ss.skip(i + 1),
                            doc_id@,
                        )->Ok_0 =~= all_invocations_view(out0) + (seq![node@]
                            + spec_invocations_of(ss.skip(i + 1), doc_id@)->Ok_0));
                    }
                }
            },
            Err(e) => {
                return Err(e);
            },
        }
        i += 1;
    }
    proof {
        assert(ss.skip(n as int) =~= Seq::<p11::SpecSection>::empty());
        if spec_invocations_of(ss, doc_id@) is Ok {
            assert(spec_invocations_of(ss, doc_id@)->Ok_0 =~= all_invocations_view(out));
        }
    }
    Ok(out)
}

/// Builds a component definition: typed arguments and child invocations.
fn component_of(s: &p11::Section, doc_id: &str) -> (r: Result<ComponentDef, Error>)
    ensures
        match r {
            Ok(c) => spec_component_of(s@, doc_id@) == Result::<SpecComponentDef, SpecError>::Ok(
                c@,
            ),
            Err(e) => spec_component_of(s@, doc_id@) == Result::<SpecComponentDef, SpecError>::Err(
                e@,
            ),
        },
{
    match crate::di::get_fields_from_headers(&s.headers, doc_id) {
        Err(e) => Err(e),
        Ok(arguments) => match invocations_of(&s.sub_sections, doc_id) {
            Err(e) => Err(e),
            Ok(definition) => {
                let c = ComponentDef {
                    name: s.name.clone(),
                    arguments,
                    definition,
                    line_number: s.line_number,
                };
                proof {
                    assert(c@ =~~= spec_component_of(s@, doc_id@)->Ok_0);
                }
                Ok(c)
            },
        },
    }
}

/// Builds an or-type definition: one typed variant per header.
fn or_type_of(s: &p11::Section, doc_id: &str) -> (r: Result<OrTypeDef, Error>)
    ensures
        match r {
            Ok(o) => spec_or_type_of(s@, doc_id@) == Result::<SpecOrTypeDef, SpecError>::Ok(o@),
            Err(e) => spec_or_type_of(s@, doc_id@) == Result::<SpecOrTypeDef, SpecError>::Err(e@),
        },
{
    match crate::di::get_fields_from_headers(&s.headers, doc_id) {
        Err(e) => Err(e),
        Ok(variants) => {
            let o = OrTypeDef { name: s.name.clone(), variants, line_number: s.line_number };
            proof {
                assert(o@ =~~= spec_or_type_of(s@, doc_id@)->Ok_0);
            }
            Ok(o)
        },
    }
}

/// Builds the syntax node of one section: one mapping per declared kind.
pub fn ast_of_section(s: &p11::Section, doc_id: &str) -> (r: Result<Ast, Error>)
    ensures
        match r {
            Ok(a) => spec_ast_of_section(s@, doc_id@) == Result::<SpecAst, SpecError>::Ok(a@),
            Err(e) => spec_ast_of_section(s@, doc_id@) == Result::<SpecAst, SpecError>::Err(e@),
        },
{
    if s.kind.is_none() && crate::text::eq_str(s.name.as_str(), "import") {
        match import_of(s, doc_id) {
            Ok(n) => Ok(Ast::Import(n)),
            Err(e) => Err(e),
        }
    } else {
        match &s.kind {
            None => match invocation_of(s, doc_id) {
                Ok(n) => Ok(Ast::ComponentInvocation(n)),
                Err(e) => Err(e),
            },
            Some(k) => {
                if crate::text::eq_str(k.as_str(), "record") {
                    match crate::di::Record::from_p1(s, doc_id) {
                        Ok(rec) => Ok(Ast::RecordDefinition(rec)),
                        Err(e) => Err(e),
                    }
                } else if crate::text::eq_str(k.as_str(), "or-type") {
                    match or_type_of(s, doc_id) {
                        Ok(o) => Ok(Ast::OrTypeDefinition(o)),
                        Err(e) => Err(e),
                    }
                } else if crate::text::eq_str(k.as_str(), "component") {
                    match component_of(s, doc_id) {
                        Ok(c) => Ok(Ast::ComponentDefinition(c)),
                        Err(e) => Err(e),
                    }
                } else if crate::text::eq_str(k.as_str(), "function") {
                    match function_of(s, doc_id) {
                        Ok(f) => Ok(Ast::FunctionDefinition(f)),
                        Err(e) => Err(e),
                    }
                } else {
                    match variable_of(s, k, doc_id) {
                        Ok(v) => Ok(Ast::VariableDefinition(v)),
                        Err(e) => Err(e),
                    }
                }
            },
        }
    }
}

/// The view of a vector of syntax nodes.
pub open spec fn all_asts_view(v: Vec<Ast>) -> Seq<SpecAst> {
    v@.map_values(|a: Ast| a@)
}

/// Builds the syntax nodes of all sections, in order.
pub fn asts_of_sections(secs: &Vec<p11::Section>, doc_id: &str) -> (r: Result<Vec<Ast>, Error>)
    ensures
        match r {
            Ok(asts) => spec_asts_of_sections(p11::all_sections_view(*secs), doc_id@) == Result::<
                Seq<SpecAst>,
                SpecError,
            >::Ok(all_asts_view(asts)),
            Err(e) => spec_asts_of_sections(p11::all_sections_view(*secs), doc_id@) == Result::<
                Seq<SpecAst>,
                SpecError,
            >::Err(e@),
        },
{
    let ghost ss = p11::all_sections_view(*secs);
    proof {
        p11::lemma_sections_view(*secs, secs@.len() as int);
        assert(ss.skip(0) =~= ss);
    }
    let mut out: Vec<Ast> = Vec::new();
    let n = secs.len();
    proof {
        assert(all_asts_view(out) =~= Seq::<SpecAst>::empty());
        if spec_asts_of_sections(ss, doc_id@) is Ok {
            assert(spec_asts_of_sections(ss, doc_id@)->Ok_0 =~= all_asts_view(out)
                + spec_asts_of_sections(ss, doc_id@)->Ok_0);
        }
    }
    let mut i: usize = 0;
    while i < n
        invariant
            0 <= i <= n == secs@.len(),
            ss == p11::all_sections_view(*secs),
            ss.len() == n,
            forall|k: int| 0 <= k < n ==> ss[k] == secs[k]@,
            spec_asts_of_sections(ss, doc_id@) matches Ok(all) ==> {
                &&& spec_asts_of_sections(ss.skip(i as int), doc_id@) matches Ok(rest)
                &&& all =~= all_asts_view(out) + rest
            },
            spec_asts_of_sections(ss, doc_id@) matches Err(e) ==> spec_asts_of_sections(
                ss.skip(i as int),
                doc_id@,
            ) == Result::<Seq<SpecAst>, SpecError>::Err(e),
        decreases n - i,
    {
        proof {
            assert(ss.skip(i as int).len() == n - i);
            assert(ss.skip(i as int)[0] == ss[i as int]);
            assert(ss.skip(i as int).drop_first() =~= ss.skip(i + 1));
        }
        match ast_of_section(&secs[i], doc_id) {
            Ok(a) => {
                let ghost out0 = all_asts_view(out);
                out.push(a);
                proof {
                    assert(all_asts_view(out) =~= out0.push(a@));
                    if spec_asts_of_sections(ss, doc_id@) is Ok {
                        assert(out0.push(a@) + spec_asts_of_sections(
                            ss.skip(i + 1),
                            doc_id@,
                        )->Ok_0 =~= out0 + (seq![a@] + spec_asts_of_sections(
                            ss.skip(i + 1),
                            doc_id@,
                        )->Ok_0));
                    }
                }
            },
            Err(e) => {
                return Err(e);
            },
        }
        i += 1;
    }
    proof {
        assert(ss.skip(n as int) =~= Seq::<p11::SpecSection>::empty());
        if spec_asts_of_sections(ss, doc_id@) is Ok {
            assert(spec_asts_of_sections(ss, doc_id@)->Ok_0 =~= all_asts_view(out));
        }
    }
    Ok(out)
}

} // verus!
