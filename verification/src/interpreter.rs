//! The resumable interpreter: consumes syntax nodes in order, maintains the
//! global symbol bag, resolves references, and suspends on imports, processor
//! calls and foreign variables. The caller supplies the missing input and
//! resumes; the machine itself never blocks and never performs I/O.
use crate::ast;
use vstd::prelude::*;

verus! {

broadcast use vstd::std_specs::vec::axiom_vec_index_decreases;

/// A concrete interpreted value.
pub enum Value {
    String { text: String },
    Integer { value: i64 },
    Boolean { value: bool },
    Optional { data: Option<Box<Value>>, kind: String },
    List { data: Vec<Value>, kind: String },
    Record { name: String, fields: Vec<(String, Value)> },
    OrType { name: String, variant: String, value: Box<Value> },
}

#[verifier::ext_equal]
pub enum SpecValue {
    String { text: Seq<char> },
    Integer { value: int },
    Boolean { value: bool },
    Optional { data: Option<Box<SpecValue>>, kind: Seq<char> },
    List { data: Seq<SpecValue>, kind: Seq<char> },
    Record { name: Seq<char>, fields: Seq<(Seq<char>, SpecValue)> },
    OrType { name: Seq<char>, variant: Seq<char>, value: Box<SpecValue> },
}

pub open spec fn values_view(v: Vec<Value>, k: int) -> Seq<SpecValue>
    decreases v, k, 0int,
{
    if k <= 0 || k > v@.len() {
        Seq::empty()
    } else {
        values_view(v, k - 1).push(value_view(v[k - 1]))
    }
}

pub open spec fn value_fields_view(v: Vec<(String, Value)>, k: int) -> Seq<(Seq<char>, SpecValue)>
    decreases v, k, 0int,
{
    if k <= 0 || k > v@.len() {
        Seq::empty()
    } else {
        value_fields_view(v, k - 1).push((v[k - 1].0@, value_view(v[k - 1].1)))
    }
}

pub open spec fn value_view(v: Value) -> SpecValue
    decreases v, 0int, 1int,
{
    match v {
        Value::String { text } => SpecValue::String { text: text@ },
        Value::Integer { value } => SpecValue::Integer { value: value as int },
        Value::Boolean { value } => SpecValue::Boolean { value: value },
        Value::Optional { data, kind } => SpecValue::Optional {
            data: match data {
                Some(b) => Some(Box::new(value_view(*b))),
                None => None,
            },
            kind: kind@,
        },
        Value::List { data, kind } => SpecValue::List {
            data: values_view(data, data@.len() as int),
            kind: kind@,
        },
        Value::Record { name, fields } => SpecValue::Record {
            name: name@,
            fields: value_fields_view(fields, fields@.len() as int),
        },
        Value::OrType { name, variant, value } => SpecValue::OrType {
            name: name@,
            variant: variant@,
            value: Box::new(value_view(*value)),
        },
    }
}

impl View for Value {
    type V = SpecValue;

    open spec fn view(&self) -> SpecValue {
        value_view(*self)
    }
}

pub proof fn lemma_values_view(v: Vec<Value>, k: int)
    requires
        0 <= k <= v@.len(),
    ensures
        values_view(v, k).len() == k,
        forall|i: int| 0 <= i < k ==> values_view(v, k)[i] == v[i]@,
    decreases k,
{
    if k > 0 {
        lemma_values_view(v, k - 1);
        assert(values_view(v, k) == values_view(v, k - 1).push(v[k - 1].view()));
    } else {
        assert(values_view(v, k) == Seq::<SpecValue>::empty());
    }
}

/// A value, or a reference into the bag by fully-qualified name.
pub enum RefOrValue {
    Value { value: Value },
    Reference { name: String },
}

#[verifier::ext_equal]
pub enum SpecRefOrValue {
    Value { value: SpecValue },
    Reference { name: Seq<char> },
}

impl View for RefOrValue {
    type V = SpecRefOrValue;

    open spec fn view(&self) -> SpecRefOrValue {
        match self {
            RefOrValue::Value { value } => SpecRefOrValue::Value { value: value@ },
            RefOrValue::Reference { name } => SpecRefOrValue::Reference { name: name@ },
        }
    }
}

/// A conditional contribution to a property: the condition's expression text
/// and the references it reads.
pub struct Condition {
    pub expression: String,
    pub references: Vec<(String, RefOrValue)>,
}

#[verifier::ext_equal]
pub struct SpecCondition {
    pub expression: Seq<char>,
    pub references: Seq<(Seq<char>, SpecRefOrValue)>,
}

impl View for Condition {
    type V = SpecCondition;

    open spec fn view(&self) -> SpecCondition {
        SpecCondition {
            expression: self.expression@,
            references: self.references@.map_values(
                |p: (String, RefOrValue)| (p.0@, p.1@),
            ),
        }
    }
}

/// One property handed to a component: which argument it sets, its value, and
/// an optional condition.
pub struct Property {
    pub source: String,
    pub value: RefOrValue,
    pub condition: Option<Condition>,
    pub line_number: usize,
}

#[verifier::ext_equal]
pub struct SpecProperty {
    pub source: Seq<char>,
    pub value: SpecRefOrValue,
    pub condition: Option<SpecCondition>,
    pub line_number: int,
}

impl View for Property {
    type V = SpecProperty;

    open spec fn view(&self) -> SpecProperty {
        SpecProperty {
            source: self.source@,
            value: self.value@,
            condition: match self.condition {
                Some(c) => Some(c@),
                None => None,
            },
            line_number: self.line_number as int,
        }
    }
}

/// A property value: concrete data, a reference, or a formula over
/// conditional contributions. Whether a value is reactive is preserved here
/// through to code generation.
pub enum PropertyValue {
    Value { value: Value },
    Reference { name: String },
    Formula { properties: Vec<Property> },
}

#[verifier::ext_equal]
pub enum SpecPropertyValue {
    Value { value: SpecValue },
    Reference { name: Seq<char> },
    Formula { properties: Seq<SpecProperty> },
}

impl View for PropertyValue {
    type V = SpecPropertyValue;

    open spec fn view(&self) -> SpecPropertyValue {
        match self {
            PropertyValue::Value { value } => SpecPropertyValue::Value { value: value@ },
            PropertyValue::Reference { name } => SpecPropertyValue::Reference { name: name@ },
            PropertyValue::Formula { properties } => SpecPropertyValue::Formula {
                properties: properties@.map_values(|p: Property| p@),
            },
        }
    }
}

/// A declared argument of a component or function.
pub struct Argument {
    pub name: String,
    pub kind: String,
    pub mutable: bool,
    pub value: Option<RefOrValue>,
    pub line_number: usize,
}

#[verifier::ext_equal]
pub struct SpecArgument {
    pub name: Seq<char>,
    pub kind: Seq<char>,
    pub mutable: bool,
    pub value: Option<SpecRefOrValue>,
    pub line_number: int,
}

impl View for Argument {
    type V = SpecArgument;

    open spec fn view(&self) -> SpecArgument {
        SpecArgument {
            name: self.name@,
            kind: self.kind@,
            mutable: self.mutable,
            value: match self.value {
                Some(v) => Some(v@),
                None => None,
            },
            line_number: self.line_number as int,
        }
    }
}

/// A variable in the bag.
pub struct Variable {
    pub name: String,
    pub kind: String,
    pub mutable: bool,
    pub value: PropertyValue,
    pub line_number: usize,
}

#[verifier::ext_equal]
pub struct SpecVariable {
    pub name: Seq<char>,
    pub kind: Seq<char>,
    pub mutable: bool,
    pub value: SpecPropertyValue,
    pub line_number: int,
}

impl View for Variable {
    type V = SpecVariable;

    open spec fn view(&self) -> SpecVariable {
        SpecVariable {
            name: self.name@,
            kind: self.kind@,
            mutable: self.mutable,
            value: self.value@,
            line_number: self.line_number as int,
        }
    }
}

/// One expression of a user-defined function.
pub struct Expression {
    pub expression: String,
    pub line_number: usize,
}

#[verifier::ext_equal]
pub struct SpecExpression {
    pub expression: Seq<char>,
    pub line_number: int,
}

impl View for Expression {
    type V = SpecExpression;

    open spec fn view(&self) -> SpecExpression {
        SpecExpression { expression: self.expression@, line_number: self.line_number as int }
    }
}

/// A user-defined function in the bag.
pub struct Function {
    pub name: String,
    pub arguments: Vec<Argument>,
    pub expression: Vec<Expression>,
    pub line_number: usize,
}

#[verifier::ext_equal]
pub struct SpecFunction {
    pub name: Seq<char>,
    pub arguments: Seq<SpecArgument>,
    pub expression: Seq<SpecExpression>,
    pub line_number: int,
}

impl View for Function {
    type V = SpecFunction;

    open spec fn view(&self) -> SpecFunction {
        SpecFunction {
            name: self.name@,
            arguments: self.arguments@.map_values(|a: Argument| a@),
            expression: self.expression@.map_values(|e: Expression| e@),
            line_number: self.line_number as int,
        }
    }
}

/// An event binding of a component.
pub struct Event {
    pub name: String,
    pub action: String,
}

#[verifier::ext_equal]
pub struct SpecEvent {
    pub name: Seq<char>,
    pub action: Seq<char>,
}

impl View for Event {
    type V = SpecEvent;

    open spec fn view(&self) -> SpecEvent {
        SpecEvent { name: self.name@, action: self.action@ }
    }
}

/// The iteration marker of a component: what it loops over and the alias each
/// item is bound to.
pub struct Loop {
    pub on: RefOrValue,
    pub alias: String,
}

#[verifier::ext_equal]
pub struct SpecLoop {
    pub on: SpecRefOrValue,
    pub alias: Seq<char>,
}

impl View for Loop {
    type V = SpecLoop;

    open spec fn view(&self) -> SpecLoop {
        SpecLoop { on: self.on@, alias: self.alias@ }
    }
}

/// A resolved component invocation in the interpreted tree.
pub struct Component {
    pub name: String,
    pub properties: Vec<Property>,
    pub condition: Option<Condition>,
    pub iteration: Option<Loop>,
    pub events: Vec<Event>,
    pub children: Vec<Component>,
    pub line_number: usize,
}

#[verifier::ext_equal]
pub struct SpecComponent {
    pub name: Seq<char>,
    pub properties: Seq<SpecProperty>,
    pub condition: Option<SpecCondition>,
    pub iteration: Option<SpecLoop>,
    pub events: Seq<SpecEvent>,
    pub children: Seq<SpecComponent>,
    pub line_number: int,
}

pub open spec fn components_view(v: Vec<Component>, k: int) -> Seq<SpecComponent>
    decreases v, k,
{
    if k <= 0 || k > v@.len() {
        Seq::empty()
    } else {
        components_view(v, k - 1).push(v[k - 1].view())
    }
}

impl View for Component {
    type V = SpecComponent;

    open spec fn view(&self) -> SpecComponent
        decreases self,
    {
        SpecComponent {
            name: self.name@,
            properties: self.properties@.map_values(|p: Property| p@),
            condition: match self.condition {
                Some(c) => Some(c@),
                None => None,
            },
            iteration: match self.iteration {
                Some(l) => Some(l@),
                None => None,
            },
            events: self.events@.map_values(|e: Event| e@),
            children: components_view(self.children, self.children@.len() as int),
            line_number: self.line_number as int,
        }
    }
}

pub proof fn lemma_components_view(v: Vec<Component>, k: int)
    requires
        0 <= k <= v@.len(),
    ensures
        components_view(v, k).len() == k,
        forall|i: int| 0 <= i < k ==> components_view(v, k)[i] == v[i]@,
    decreases k,
{
    if k > 0 {
        lemma_components_view(v, k - 1);
        assert(components_view(v, k) == components_view(v, k - 1).push(v[k - 1].view()));
    } else {
        assert(components_view(v, k) == Seq::<SpecComponent>::empty());
    }
}

/// The view of a component list.
pub open spec fn all_components_view(v: Vec<Component>) -> Seq<SpecComponent> {
    components_view(v, v@.len() as int)
}

/// A component definition in the bag.
pub struct ComponentDefinition {
    pub name: String,
    pub arguments: Vec<Argument>,
    pub definition: Vec<Component>,
    pub line_number: usize,
}

#[verifier::ext_equal]
pub struct SpecComponentDefinition {
    pub name: Seq<char>,
    pub arguments: Seq<SpecArgument>,
    pub definition: Seq<SpecComponent>,
    pub line_number: int,
}

impl View for ComponentDefinition {
    type V = SpecComponentDefinition;

    open spec fn view(&self) -> SpecComponentDefinition {
        SpecComponentDefinition {
            name: self.name@,
            arguments: self.arguments@.map_values(|a: Argument| a@),
            definition: all_components_view(self.definition),
            line_number: self.line_number as int,
        }
    }
}

/// An or-type definition in the bag.
pub struct OrTypeThing {
    pub name: String,
    pub variants: Vec<crate::di::Field>,
    pub line_number: usize,
}

#[verifier::ext_equal]
pub struct SpecOrTypeThing {
    pub name: Seq<char>,
    pub variants: Seq<crate::di::SpecField>,
    pub line_number: int,
}

impl View for OrTypeThing {
    type V = SpecOrTypeThing;

    open spec fn view(&self) -> SpecOrTypeThing {
        SpecOrTypeThing {
            name: self.name@,
            variants: self.variants@.map_values(|f: crate::di::Field| f@),
            line_number: self.line_number as int,
        }
    }
}

/// A named definition in the bag.
pub enum Thing {
    Component(ComponentDefinition),
    Variable(Variable),
    Function(Function),
    Record(crate::di::Record),
    OrType(OrTypeThing),
}

#[verifier::ext_equal]
pub enum SpecThing {
    Component(SpecComponentDefinition),
    Variable(SpecVariable),
    Function(SpecFunction),
    Record(crate::di::SpecRecord),
    OrType(SpecOrTypeThing),
}

impl View for Thing {
    type V = SpecThing;

    open spec fn view(&self) -> SpecThing {
        match self {
            Thing::Component(c) => SpecThing::Component(c@),
            Thing::Variable(v) => SpecThing::Variable(v@),
            Thing::Function(f) => SpecThing::Function(f@),
            Thing::Record(r) => SpecThing::Record(r@),
            Thing::OrType(o) => SpecThing::OrType(o@),
        }
    }
}

/// The symbol bag: fully-qualified names to things, append-only, keys unique.
pub open spec fn bag_view(v: Vec<(String, Thing)>) -> Seq<(Seq<char>, SpecThing)> {
    v@.map_values(|p: (String, Thing)| (p.0@, p.1@))
}

/// The first index holding `name` in the bag, or -1.
pub open spec fn spec_bag_idx(bag: Seq<(Seq<char>, SpecThing)>, name: Seq<char>) -> int
    decreases bag.len(),
{
    if bag.len() == 0 {
        -1
    } else if bag[0].0 == name {
        0
    } else {
        let r = spec_bag_idx(bag.drop_first(), name);
        if r < 0 {
            -1
        } else {
            r + 1
        }
    }
}

pub proof fn lemma_bag_idx(bag: Seq<(Seq<char>, SpecThing)>, name: Seq<char>)
    ensures
        spec_bag_idx(bag, name) >= 0 ==> 0 <= spec_bag_idx(bag, name) < bag.len() && bag[
            spec_bag_idx(bag, name)
        ].0 == name,
        spec_bag_idx(bag, name) >= 0 ==> forall|k: int|
            0 <= k < spec_bag_idx(bag, name) ==> bag[k].0 != name,
        spec_bag_idx(bag, name) < 0 ==> forall|k: int| 0 <= k < bag.len() ==> bag[k].0 != name,
    decreases bag.len(),
{
    if bag.len() > 0 && bag[0].0 != name {
        let t = bag.drop_first();
        lemma_bag_idx(t, name);
        assert(forall|k: int| 1 <= k < bag.len() ==> #[trigger] bag[k] == t[k - 1]);
    }
}

/// A bag is well-formed when its names are pairwise distinct.
pub open spec fn bag_wf(bag: Seq<(Seq<char>, SpecThing)>) -> bool {
    forall|i: int, j: int| 0 <= i < j < bag.len() ==> bag[i].0 != bag[j].0
}

/// A fully interpreted document: the bag and the root component tree, owned
/// by the caller and read-only downstream.
pub struct Document {
    pub name: String,
    pub aliases: Vec<(String, String)>,
    pub data: Vec<(String, Thing)>,
    pub tree: Vec<Component>,
}

#[verifier::ext_equal]
pub struct SpecDocument {
    pub name: Seq<char>,
    pub aliases: Seq<(Seq<char>, Seq<char>)>,
    pub data: Seq<(Seq<char>, SpecThing)>,
    pub tree: Seq<SpecComponent>,
}

impl View for Document {
    type V = SpecDocument;

    open spec fn view(&self) -> SpecDocument {
        SpecDocument {
            name: self.name@,
            aliases: self.aliases@.map_values(|p: (String, String)| (p.0@, p.1@)),
            data: bag_view(self.data),
            tree: all_components_view(self.tree),
        }
    }
}

/// Interpreter diagnostics: every error carries the document and line.
#[derive(Debug)]
pub enum Error {
    UnresolvedName { name: String, doc_id: String, line_number: usize },
    DuplicateDefinition { name: String, doc_id: String, line_number: usize },
    MalformedExpression { message: String, doc_id: String, line_number: usize },
    InvalidValue { message: String, doc_id: String, line_number: usize },
    Ast(ast::Error),
    Other { message: String, doc_id: String, line_number: usize },
}

#[verifier::ext_equal]
pub enum SpecInterpreterError {
    UnresolvedName { name: Seq<char>, doc_id: Seq<char>, line_number: int },
    DuplicateDefinition { name: Seq<char>, doc_id: Seq<char>, line_number: int },
    MalformedExpression { message: Seq<char>, doc_id: Seq<char>, line_number: int },
    InvalidValue { message: Seq<char>, doc_id: Seq<char>, line_number: int },
    Ast(ast::SpecError),
    Other { message: Seq<char>, doc_id: Seq<char>, line_number: int },
}

impl View for Error {
    type V = SpecInterpreterError;

    open spec fn view(&self) -> SpecInterpreterError {
        match self {
            Error::UnresolvedName { name, doc_id, line_number } => {
                SpecInterpreterError::UnresolvedName {
                    name: name@,
                    doc_id: doc_id@,
                    line_number: *line_number as int,
                }
            },
            Error::DuplicateDefinition { name, doc_id, line_number } => {
                SpecInterpreterError::DuplicateDefinition {
                    name: name@,
                    doc_id: doc_id@,
                    line_number: *line_number as int,
                }
            },
            Error::MalformedExpression { message, doc_id, line_number } => {
                SpecInterpreterError::MalformedExpression {
                    message: message@,
                    doc_id: doc_id@,
                    line_number: *line_number as int,
                }
            },
            Error::InvalidValue { message, doc_id, line_number } => {
                SpecInterpreterError::InvalidValue {
                    message: message@,
                    doc_id: doc_id@,
                    line_number: *line_number as int,
                }
            },
            Error::Ast(e) => SpecInterpreterError::Ast(e@),
            Error::Other { message, doc_id, line_number } => SpecInterpreterError::Other {
                message: message@,
                doc_id: doc_id@,
                line_number: *line_number as int,
            },
        }
    }
}

/// Builds a general interpreter diagnostic.
pub fn e2<T>(message: String, doc_id: &str, line_number: usize) -> (r: Result<T, Error>)
    ensures
        r matches Err(e) && e@ == (SpecInterpreterError::Other {
            message: message@,
            doc_id: doc_id@,
            line_number: line_number as int,
        }),
{
    Err(Error::Other { message, doc_id: String::from_str(doc_id), line_number })
}

} // verus!

verus! {

/// The value of a decimal integer literal with an optional leading minus, up
/// to eighteen digits.
pub open spec fn spec_parse_i64(s: Seq<char>) -> Option<int> {
    if s.len() > 0 && s[0] == '-' {
        match spec_parse_u64(s.skip(1)) {
            Some(v) => Some(-v),
            None => None,
        }
    } else {
        spec_parse_u64(s)
    }
}

pub open spec fn spec_parse_u64(s: Seq<char>) -> Option<int> {
    if 1 <= s.len() <= 18 && (forall|k: int| 0 <= k < s.len() ==> crate::expr::is_digit(s[k])) {
        Some(crate::expr::spec_int_value(s))
    } else {
        None
    }
}

/// Parses a decimal integer literal.
pub fn parse_i64(s: &str) -> (r: Option<i64>)
    ensures
        match r {
            Some(v) => spec_parse_i64(s@) == Some(v as int),
            None => spec_parse_i64(s@) is None,
        },
{
    let chars = crate::text::str_to_chars(s);
    let neg = chars.len() > 0 && chars[0] == '-';
    let digits = if neg {
        crate::text::subvec(&chars, 1, chars.len())
    } else {
        crate::text::subvec(&chars, 0, chars.len())
    };
    proof {
        if !neg {
            assert(digits@ =~= s@);
        } else {
            assert(digits@ =~= s@.skip(1));
        }
    }
    match parse_u64_digits(&digits) {
        None => None,
        Some(v) => {
            if neg {
                Some(-v)
            } else {
                Some(v)
            }
        },
    }
}

/// Parses an unsigned run of at most eighteen digits.
fn parse_u64_digits(v: &Vec<char>) -> (r: Option<i64>)
    ensures
        match r {
            Some(x) => spec_parse_u64(v@) == Some(x as int) && x >= 0,
            None => spec_parse_u64(v@) is None,
        },
{
    let n = v.len();
    if n == 0 || n > 18 {
        return None;
    }
    let ghost digits = v@;
    let mut value: i64 = 0;
    let mut k: usize = 0;
    proof {
        assert(digits.take(0) =~= Seq::<char>::empty());
        assert(crate::expr::spec_int_value(Seq::<char>::empty()) == 0);
    }
    while k < n
        invariant
            0 <= k <= n == v@.len(),
            1 <= n <= 18,
            digits == v@,
            forall|m: int| 0 <= m < k ==> crate::expr::is_digit(digits[m]),
            value as int == crate::expr::spec_int_value(digits.take(k as int)),
            0 <= value as int,
            (value as int) < crate::expr::pow10(k as int),
        decreases n - k,
    {
        let d = v[k];
        if !('0' <= d && d <= '9') {
            proof {
                assert(!crate::expr::is_digit(digits[k as int]));
            }
            return None;
        }
        proof {
            reveal_with_fuel(crate::expr::pow10, 20);
            assert(digits.take(k + 1 as int).drop_last() =~= digits.take(k as int));
            assert(digits.take(k + 1 as int).last() == digits[k as int]);
            crate::expr::lemma_int_value_bound(digits.take(k + 1 as int), 18);
        }
        value = value * 10 + (d as i64 - 48);
        k += 1;
    }
    proof {
        assert(digits.take(n as int) =~= digits);
    }
    Some(value)
}

/// The fully-qualified form of a name: already-qualified names stay, an
/// aliased `alias.rest` becomes `module#rest`, anything else is the
/// document's own `doc#name`.
pub open spec fn spec_resolve_name(
    name: Seq<char>,
    doc: Seq<char>,
    aliases: Seq<(Seq<char>, Seq<char>)>,
) -> Seq<char> {
    if crate::text::spec_index_of(name, '#') >= 0 {
        name
    } else {
        let di = crate::text::spec_index_of(name, '.');
        if di >= 0 && spec_alias_lookup(aliases, name.take(di)) is Some {
            spec_alias_lookup(aliases, name.take(di))->Some_0 + "#"@ + name.skip(di + 1)
        } else {
            doc + "#"@ + name
        }
    }
}

/// The module an alias stands for, earliest binding first.
pub open spec fn spec_alias_lookup(
    aliases: Seq<(Seq<char>, Seq<char>)>,
    alias: Seq<char>,
) -> Option<Seq<char>>
    decreases aliases.len(),
{
    if aliases.len() == 0 {
        None
    } else if aliases[0].0 == alias {
        Some(aliases[0].1)
    } else {
        spec_alias_lookup(aliases.drop_first(), alias)
    }
}

pub proof fn lemma_alias_lookup(aliases: Seq<(Seq<char>, Seq<char>)>, alias: Seq<char>)
    ensures
        spec_alias_lookup(aliases, alias) is Some ==> exists|i: int|
            0 <= i < aliases.len() && aliases[i].0 == alias,
        spec_alias_lookup(aliases, alias) is None ==> forall|k: int|
            0 <= k < aliases.len() ==> aliases[k].0 != alias,
    decreases aliases.len(),
{
    if aliases.len() > 0 && aliases[0].0 != alias {
        let t = aliases.drop_first();
        lemma_alias_lookup(t, alias);
        assert(forall|k: int| 1 <= k < aliases.len() ==> #[trigger] aliases[k] == t[k - 1]);
        if spec_alias_lookup(t, alias) is Some {
            let i = choose|i: int| 0 <= i < t.len() && t[i].0 == alias;
            assert(aliases[i + 1].0 == alias);
        }
    }
}

/// The view of an alias table.
pub open spec fn aliases_view(v: Vec<(String, String)>) -> Seq<(Seq<char>, Seq<char>)> {
    v@.map_values(|p: (String, String)| (p.0@, p.1@))
}

/// Looks an alias up.
fn alias_lookup(aliases: &Vec<(String, String)>, alias: &str) -> (r: Option<String>)
    ensures
        match r {
            Some(m) => spec_alias_lookup(aliases_view(*aliases), alias@) == Some(m@),
            None => spec_alias_lookup(aliases_view(*aliases), alias@) is None,
        },
{
    let n = aliases.len();
    proof {
        assert(aliases_view(*aliases).skip(0) =~= aliases_view(*aliases));
    }
    let mut i: usize = 0;
    while i < n
        invariant
            0 <= i <= n == aliases@.len(),
            forall|k: int| 0 <= k < i ==> aliases_view(*aliases)[k].0 != alias@,
            spec_alias_lookup(aliases_view(*aliases).skip(i as int), alias@) == spec_alias_lookup(
                aliases_view(*aliases),
                alias@,
            ),
        decreases n - i,
    {
        proof {
            assert(aliases_view(*aliases)[i as int] == (
                aliases@[i as int].0@,
                aliases@[i as int].1@,
            ));
            assert(aliases_view(*aliases).skip(i as int)[0] == aliases_view(*aliases)[i as int]);
            assert(aliases_view(*aliases).skip(i as int).drop_first() =~= aliases_view(
                *aliases,
            ).skip(i + 1));
        }
        if crate::text::eq_str(aliases[i].0.as_str(), alias) {
            return Some(aliases[i].1.clone());
        }
        i += 1;
    }
    proof {
        assert(aliases_view(*aliases).skip(n as int) =~= Seq::<(Seq<char>, Seq<char>)>::empty());
    }
    None
}

/// Resolves a name against the document and its import aliases.
pub fn resolve_name(name: &str, doc_id: &str, aliases: &Vec<(String, String)>) -> (r: String)
    ensures
        r@ == spec_resolve_name(name@, doc_id@, aliases_view(*aliases)),
{
    let chars = crate::text::str_to_chars(name);
    match crate::text::index_of_char(&chars, '#') {
        Some(_) => String::from_str(name),
        None => {
            proof {
                crate::text::lemma_index_of_bounds(chars@, '.');
            }
            let nlen = chars.len();
            match crate::text::index_of_char(&chars, '.') {
                Some(di) => {
                    let alias = crate::text::chars_to_string(
                        &crate::text::subvec(&chars, 0, di),
                    );
                    match alias_lookup(aliases, alias.as_str()) {
                        Some(module) => {
                            let mut r = module;
                            r.push('#');
                            let rest = crate::text::chars_to_string(
                                &crate::text::subvec(&chars, di + 1, nlen),
                            );
                            r.append(rest.as_str());
                            proof {
                                reveal_strlit("#");
                                assert(r@ =~= spec_resolve_name(
                                    name@,
                                    doc_id@,
                                    aliases_view(*aliases),
                                ));
                            }
                            r
                        },
                        None => {
                            let mut r = String::from_str(doc_id);
                            r.push('#');
                            r.append(name);
                            proof {
                                reveal_strlit("#");
                                assert(r@ =~= spec_resolve_name(
                                    name@,
                                    doc_id@,
                                    aliases_view(*aliases),
                                ));
                            }
                            r
                        },
                    }
                },
                None => {
                    let mut r = String::from_str(doc_id);
                    r.push('#');
                    r.append(name);
                    proof {
                        reveal_strlit("#");
                        assert(r@ =~= spec_resolve_name(name@, doc_id@, aliases_view(*aliases)));
                    }
                    r
                },
            }
        },
    }
}

/// The position of `name` in the bag.
fn bag_find(bag: &Vec<(String, Thing)>, name: &str) -> (r: Option<usize>)
    ensures
        match r {
            Some(i) => spec_bag_idx(bag_view(*bag), name@) == i as int && i < bag@.len(),
            None => spec_bag_idx(bag_view(*bag), name@) < 0,
        },
{
    proof {
        lemma_bag_idx(bag_view(*bag), name@);
    }
    let n = bag.len();
    let mut i: usize = 0;
    while i < n
        invariant
            0 <= i <= n == bag@.len(),
            forall|k: int| 0 <= k < i ==> bag_view(*bag)[k].0 != name@,
            spec_bag_idx(bag_view(*bag), name@) >= 0 ==> 0 <= spec_bag_idx(bag_view(*bag), name@)
                < n && bag_view(*bag)[spec_bag_idx(bag_view(*bag), name@)].0 == name@,
            spec_bag_idx(bag_view(*bag), name@) >= 0 ==> forall|k: int|
                0 <= k < spec_bag_idx(bag_view(*bag), name@) ==> bag_view(*bag)[k].0 != name@,
            spec_bag_idx(bag_view(*bag), name@) < 0 ==> forall|k: int|
                0 <= k < n ==> bag_view(*bag)[k].0 != name@,
        decreases n - i,
    {
        proof {
            assert(bag_view(*bag)[i as int] == (bag@[i as int].0@, bag@[i as int].1@));
        }
        if crate::text::eq_str(bag[i].0.as_str(), name) {
            proof {
                assert(spec_bag_idx(bag_view(*bag), name@) == i as int);
            }
            return Some(i);
        }
        i += 1;
    }
    None
}

/// Whether the bag holds `name`.
pub fn bag_has(bag: &Vec<(String, Thing)>, name: &str) -> (r: bool)
    ensures
        r == (spec_bag_idx(bag_view(*bag), name@) >= 0),
{
    bag_find(bag, name).is_some()
}

/// Appends a new definition; a second definition of the same name at the same
/// scope is a duplicate-definition error.
pub fn bag_insert(
    bag: Vec<(String, Thing)>,
    name: String,
    thing: Thing,
    doc_id: &str,
    line_number: usize,
) -> (r: Result<Vec<(String, Thing)>, Error>)
    ensures
        match r {
            Ok(bag2) => spec_bag_idx(bag_view(bag), name@) < 0 && bag_view(bag2) == bag_view(
                bag,
            ).push((name@, thing@)),
            Err(e) => spec_bag_idx(bag_view(bag), name@) >= 0 && e@ == (
            SpecInterpreterError::DuplicateDefinition {
                name: name@,
                doc_id: doc_id@,
                line_number: line_number as int,
            }),
        },
{
    if bag_has(&bag, name.as_str()) {
        Err(
            Error::DuplicateDefinition { name, doc_id: String::from_str(doc_id), line_number },
        )
    } else {
        let ghost bag0 = bag_view(bag);
        let ghost namev = name@;
        let ghost thingv = thing@;
        let mut bag = bag;
        bag.push((name, thing));
        proof {
            assert(bag_view(bag) =~= bag0.push((namev, thingv)));
        }
        Ok(bag)
    }
}

pub proof fn lemma_bag_insert_wf(
    bag: Seq<(Seq<char>, SpecThing)>,
    name: Seq<char>,
    thing: SpecThing,
)
    requires
        bag_wf(bag),
        spec_bag_idx(bag, name) < 0,
    ensures
        bag_wf(bag.push((name, thing))),
{
    lemma_bag_idx(bag, name);
    let b2 = bag.push((name, thing));
    assert forall|i: int, j: int| 0 <= i < j < b2.len() implies b2[i].0 != b2[j].0 by {
        if j < bag.len() {
            assert(bag[i].0 != bag[j].0);
        } else {
            assert(b2[j].0 == name);
            assert(b2[i].0 == bag[i].0);
        }
    }
}

} // verus!

verus! {

/// What a declared field becomes as an argument: a literal default is carried
/// as a string value, a `$` default as a reference (resolved by the caller).
pub open spec fn spec_argument_of_field(f: crate::di::SpecField, ln: int) -> SpecArgument {
    SpecArgument {
        name: f.name,
        kind: f.kind,
        mutable: false,
        value: match f.value {
            Some(v) => Some(spec_ref_or_value(v)),
            None => None,
        },
        line_number: ln,
    }
}

/// A raw property string: `$name` is a reference, anything else string data.
/// References here keep their written name; qualification happens where the
/// document and aliases are known.
pub open spec fn spec_ref_or_value(text: Seq<char>) -> SpecRefOrValue {
    if text.len() > 0 && text[0] == '$' {
        SpecRefOrValue::Reference { name: text.skip(1) }
    } else {
        SpecRefOrValue::Value { value: SpecValue::String { text: text } }
    }
}

/// Reads a raw property string into a value or reference.
pub fn ref_or_value_of(text: &str) -> (r: RefOrValue)
    ensures
        r@ == spec_ref_or_value(text@),
{
    let n = text.unicode_len();
    if n > 0 && text.get_char(0) == '$' {
        let name = text.substring_char(1, n).to_owned();
        proof {
            assert(name@ =~= text@.skip(1));
        }
        RefOrValue::Reference { name }
    } else {
        RefOrValue::Value { value: Value::String { text: String::from_str(text) } }
    }
}

/// Builds one argument from a declared field.
pub fn argument_of_field(f: &crate::di::Field, ln: usize) -> (r: Argument)
    ensures
        r@ == spec_argument_of_field(f@, ln as int),
{
    let value = match f.value() {
        Some(v) => Some(ref_or_value_of(v.as_str())),
        None => None,
    };
    let a = Argument {
        name: f.name().clone(),
        kind: f.kind().clone(),
        mutable: false,
        value,
        line_number: ln,
    };
    proof {
        assert(a@ =~~= spec_argument_of_field(f@, ln as int));
    }
    a
}

/// Builds the argument list of a definition.
pub fn arguments_of_fields(fs: &Vec<crate::di::Field>, ln: usize) -> (r: Vec<Argument>)
    ensures
        r@.map_values(|a: Argument| a@) == fs@.map_values(|f: crate::di::Field| f@).map_values(
            |sf: crate::di::SpecField| spec_argument_of_field(sf, ln as int),
        ),
{
    let n = fs.len();
    let mut r: Vec<Argument> = Vec::new();
    let mut i: usize = 0;
    while i < n
        invariant
            0 <= i <= n == fs@.len(),
            r@.len() == i,
            forall|k: int|
                0 <= k < i ==> #[trigger] r@[k]@ == spec_argument_of_field(fs[k]@, ln as int),
        decreases n - i,
    {
        r.push(argument_of_field(&fs[i], ln));
        i += 1;
    }
    proof {
        assert(r@.map_values(|a: Argument| a@) =~= fs@.map_values(
            |f: crate::di::Field| f@,
        ).map_values(|sf: crate::di::SpecField| spec_argument_of_field(sf, ln as int)));
    }
    r
}

/// The names a parsed expression reads, in reading order.
pub open spec fn spec_collect_reads(n: crate::expr::SpecExprNode) -> Seq<Seq<char>>
    decreases n, 0int,
{
    match n.operator {
        crate::expr::SpecOperator::VariableIdentifierRead(name) => seq![name],
        _ => spec_collect_reads_seq(n.children),
    }
}

pub open spec fn spec_collect_reads_seq(cs: Seq<crate::expr::SpecExprNode>) -> Seq<Seq<char>>
    decreases cs, 1int,
{
    if cs.len() == 0 {
        Seq::empty()
    } else {
        spec_collect_reads(cs[0]) + spec_collect_reads_seq(cs.drop_first())
    }
}

/// Collects the names an expression reads.
pub fn collect_reads(n: &crate::expr::ExprNode) -> (r: Vec<String>)
    ensures
        r@.map_values(|s: String| s@) == spec_collect_reads(n@),
    decreases *n, 0int,
{
    proof {
        crate::expr::lemma_expr_nodes_view(n.children, n.children@.len() as int);
    }
    match &n.operator {
        crate::expr::Operator::VariableIdentifierRead(name) => {
            let mut r: Vec<String> = Vec::new();
            r.push(name.clone());
            proof {
                assert(r@.map_values(|s: String| s@) =~= seq![name@]);
            }
            r
        },
        _ => collect_reads_seq(&n.children),
    }
}

fn collect_reads_seq(cs: &Vec<crate::expr::ExprNode>) -> (r: Vec<String>)
    ensures
        r@.map_values(|s: String| s@) == spec_collect_reads_seq(
            crate::expr::all_expr_nodes_view(*cs),
        ),
    decreases *cs, 1int,
{
    proof {
        crate::expr::lemma_expr_nodes_view(*cs, cs@.len() as int);
    }
    let ghost csv = crate::expr::all_expr_nodes_view(*cs);
    let n = cs.len();
    let mut r: Vec<String> = Vec::new();
    proof {
        assert(csv.skip(0) =~= csv);
    }
    let mut i: usize = 0;
    while i < n
        invariant
            0 <= i <= n == cs@.len(),
            csv == crate::expr::all_expr_nodes_view(*cs),
            csv.len() == n,
            forall|k: int| 0 <= k < n ==> csv[k] == cs[k]@,
            r@.map_values(|s: String| s@) + spec_collect_reads_seq(csv.skip(i as int))
                =~= spec_collect_reads_seq(csv),
        decreases n - i,
    {
        proof {
            assert(csv.skip(i as int)[0] == csv[i as int]);
            assert(csv.skip(i as int).drop_first() =~= csv.skip(i + 1));
        }
        let ghost r0 = r@.map_values(|s: String| s@);
        let ghost r0len = r@.len();
        let mut sub = collect_reads(&cs[i]);
        let ghost subv = sub@.map_values(|s: String| s@);
        let m = sub.len();
        let mut j: usize = 0;
        while j < m
            invariant
                0 <= j <= m == sub@.len(),
                subv == sub@.map_values(|s: String| s@),
                r@.len() == r0len + j,
                r0.len() == r0len,
                forall|k: int| 0 <= k < r0len ==> #[trigger] r@[k]@ == r0[k],
                forall|k: int| 0 <= k < j ==> #[trigger] r@[r0len + k]@ == subv[k],
            decreases m - j,
        {
            r.push(sub[j].clone());
            proof {
                assert(r@[r0len + j]@ == subv[j as int]);
            }
            j += 1;
        }
        proof {
            assert forall|k: int| r0len <= k < r0len + m implies r@[k]@ == subv[k - r0len] by {
                assert(r@[r0len + (k - r0len)]@ == subv[k - r0len]);
            }
            assert(r@.map_values(|s: String| s@) =~= r0 + subv);
            assert((r0 + subv) + spec_collect_reads_seq(csv.skip(i + 1)) =~= r0 + (subv
                + spec_collect_reads_seq(csv.skip(i + 1))));
        }
        i += 1;
    }
    proof {
        assert(csv.skip(n as int) =~= Seq::<crate::expr::SpecExprNode>::empty());
        assert(r@.map_values(|s: String| s@) + Seq::<Seq<char>>::empty() =~= r@.map_values(
            |s: String| s@,
        ));
    }
    r
}

/// What a condition string becomes: its expression text and the references it
/// reads, each `$name` resolved against the document.
pub open spec fn spec_condition_of(
    text: Seq<char>,
    doc: Seq<char>,
    aliases: Seq<(Seq<char>, Seq<char>)>,
    ln: int,
) -> Result<SpecCondition, SpecInterpreterError> {
    match crate::expr::spec_build(text) {
        Err(m) => Err(
            SpecInterpreterError::MalformedExpression {
                message: m,
                doc_id: doc,
                line_number: ln,
            },
        ),
        Ok(node) => Ok(
            SpecCondition {
                expression: text,
                references: spec_collect_reads(node).map_values(
                    |name: Seq<char>| {
                        (
                            name,
                            SpecRefOrValue::Reference {
                                name: spec_resolve_name(spec_strip_dollar(name), doc, aliases),
                            },
                        )
                    },
                ),
            },
        ),
    }
}

/// The name without its `$` marker.
pub open spec fn spec_strip_dollar(name: Seq<char>) -> Seq<char> {
    if name.len() > 0 && name[0] == '$' {
        name.skip(1)
    } else {
        name
    }
}

fn strip_dollar(name: &str) -> (r: String)
    ensures
        r@ == spec_strip_dollar(name@),
{
    let n = name.unicode_len();
    if n > 0 && name.get_char(0) == '$' {
        let r = name.substring_char(1, n).to_owned();
        proof {
            assert(r@ =~= name@.skip(1));
        }
        r
    } else {
        String::from_str(name)
    }
}

/// Validates one condition and collects its references.
pub fn condition_of(
    text: &str,
    doc_id: &str,
    aliases: &Vec<(String, String)>,
    ln: usize,
) -> (r: Result<Condition, Error>)
    ensures
        match r {
            Ok(c) => spec_condition_of(text@, doc_id@, aliases_view(*aliases), ln as int)
                == Result::<SpecCondition, SpecInterpreterError>::Ok(c@),
            Err(e) => spec_condition_of(text@, doc_id@, aliases_view(*aliases), ln as int)
                == Result::<SpecCondition, SpecInterpreterError>::Err(e@),
        },
{
    match crate::expr::build_operator_tree(text) {
        Err(m) => Err(
            Error::MalformedExpression {
                message: m,
                doc_id: String::from_str(doc_id),
                line_number: ln,
            },
        ),
        Ok(node) => {
            let reads = collect_reads(&node);
            let ghost readsv = reads@.map_values(|s: String| s@);
            let mut references: Vec<(String, RefOrValue)> = Vec::new();
            let n = reads.len();
            let mut i: usize = 0;
            while i < n
                invariant
                    0 <= i <= n == reads@.len(),
                    readsv == reads@.map_values(|s: String| s@),
                    references@.len() == i,
                    forall|k: int|
                        0 <= k < i
                            ==> references@.map_values(|p: (String, RefOrValue)| (p.0@, p.1@))[k]
                            == (
                            readsv[k],
                            SpecRefOrValue::Reference {
                                name: spec_resolve_name(
                                    spec_strip_dollar(readsv[k]),
                                    doc_id@,
                                    aliases_view(*aliases),
                                ),
                            },
                        ),
                decreases n - i,
            {
                let stripped = strip_dollar(reads[i].as_str());
                let resolved = resolve_name(stripped.as_str(), doc_id, aliases);
                references.push((reads[i].clone(), RefOrValue::Reference { name: resolved }));
                i += 1;
            }
            let c = Condition { expression: String::from_str(text), references };
            proof {
                assert(c@.references =~= readsv.map_values(
                    |name: Seq<char>| {
                        (
                            name,
                            SpecRefOrValue::Reference {
                                name: spec_resolve_name(
                                    spec_strip_dollar(name),
                                    doc_id@,
                                    aliases_view(*aliases),
                                ),
                            },
                        )
                    },
                ));
                assert(c@ =~~= spec_condition_of(
                    text@,
                    doc_id@,
                    aliases_view(*aliases),
                    ln as int,
                )->Ok_0);
            }
            Ok(c)
        },
    }
}

} // verus!

verus! {

/// What one syntax property becomes: the key names the argument it sets.
pub open spec fn spec_property_of_node(p: ast::SpecPropertyNode) -> SpecProperty {
    SpecProperty {
        source: p.key,
        value: spec_ref_or_value(p.value),
        condition: None,
        line_number: p.line_number,
    }
}

/// What an invocation node becomes: properties, validated condition, loop,
/// events, and children, recursively.
pub open spec fn spec_component_of_inv(
    inv: ast::SpecInvocationNode,
    doc: Seq<char>,
    aliases: Seq<(Seq<char>, Seq<char>)>,
) -> Result<SpecComponent, SpecInterpreterError>
    decreases inv, 0int,
{
    let condition = match inv.condition {
        None => Ok(None),
        Some(text) => match spec_condition_of(text, doc, aliases, inv.line_number) {
            Ok(c) => Ok(Some(c)),
            Err(e) => Err(e),
        },
    };
    match condition {
        Err(e) => Err(e),
        Ok(cond) => match spec_components_of_invs(inv.children, doc, aliases) {
            Err(e) => Err(e),
            Ok(children) => Ok(
                SpecComponent {
                    name: inv.name,
                    properties: inv.properties.map_values(
                        |p: ast::SpecPropertyNode| spec_property_of_node(p),
                    ),
                    condition: cond,
                    iteration: match inv.loop_on {
                        Some(l) => Some(
                            SpecLoop {
                                on: spec_ref_or_value(l),
                                alias: match inv.loop_alias {
                                    Some(a) => a,
                                    None => Seq::empty(),
                                },
                            },
                        ),
                        None => None,
                    },
                    events: inv.events.map_values(
                        |e: ast::SpecEventNode| SpecEvent { name: e.name, action: e.action },
                    ),
                    children,
                    line_number: inv.line_number,
                },
            ),
        },
    }
}

pub open spec fn spec_components_of_invs(
    invs: Seq<ast::SpecInvocationNode>,
    doc: Seq<char>,
    aliases: Seq<(Seq<char>, Seq<char>)>,
) -> Result<Seq<SpecComponent>, SpecInterpreterError>
    decreases invs, 1int,
{
    if invs.len() == 0 {
        Ok(Seq::empty())
    } else {
        match spec_component_of_inv(invs[0], doc, aliases) {
            Err(e) => Err(e),
            Ok(c) => match spec_components_of_invs(invs.drop_first(), doc, aliases) {
                Err(e) => Err(e),
                Ok(rest) => Ok(seq![c] + rest),
            },
        }
    }
}

/// Builds one resolved component from an invocation node.
pub fn component_of_inv(
    inv: &ast::InvocationNode,
    doc_id: &str,
    aliases: &Vec<(String, String)>,
) -> (r: Result<Component, Error>)
    ensures
        match r {
            Ok(c) => spec_component_of_inv(inv@, doc_id@, aliases_view(*aliases)) == Result::<
                SpecComponent,
                SpecInterpreterError,
            >::Ok(c@),
            Err(e) => spec_component_of_inv(inv@, doc_id@, aliases_view(*aliases)) == Result::<
                SpecComponent,
                SpecInterpreterError,
            >::Err(e@),
        },
    decreases *inv, 0int,
{
    let condition: Option<Condition> = match &inv.condition {
        None => None,
        Some(text) => match condition_of(text.as_str(), doc_id, aliases, inv.line_number) {
            Ok(c) => Some(c),
            Err(e) => {
                return Err(e);
            },
        },
    };
    match components_of_invs(&inv.children, doc_id, aliases) {
        Err(e) => Err(e),
        Ok(children) => {
            let mut properties: Vec<Property> = Vec::new();
            let np = inv.properties.len();
            let mut i: usize = 0;
            while i < np
                invariant
                    0 <= i <= np == inv.properties@.len(),
                    properties@.len() == i,
                    forall|k: int|
                        0 <= k < i ==> #[trigger] properties@[k]@ == spec_property_of_node(
                            inv.properties[k]@,
                        ),
                decreases np - i,
            {
                let p = &inv.properties[i];
                let prop = Property {
                    source: p.key.clone(),
                    value: ref_or_value_of(p.value.as_str()),
                    condition: None,
                    line_number: p.line_number,
                };
                proof {
                    assert(prop@ =~~= spec_property_of_node(p@));
                }
                properties.push(prop);
                i += 1;
            }
            let mut events: Vec<Event> = Vec::new();
            let ne = inv.events.len();
            let mut j: usize = 0;
            while j < ne
                invariant
                    0 <= j <= ne == inv.events@.len(),
                    events@.len() == j,
                    forall|k: int|
                        0 <= k < j ==> #[trigger] events@[k]@ == (SpecEvent {
                            name: inv.events[k]@.name,
                            action: inv.events[k]@.action,
                        }),
                decreases ne - j,
            {
                let e = &inv.events[j];
                events.push(Event { name: e.name.clone(), action: e.action.clone() });
                j += 1;
            }
            let iteration: Option<Loop> = match &inv.loop_on {
                Some(l) => Some(
                    Loop {
                        on: ref_or_value_of(l.as_str()),
                        alias: match &inv.loop_alias {
                            Some(a) => a.clone(),
                            None => String::new(),
                        },
                    },
                ),
                None => None,
            };
            let c = Component {
                name: inv.name.clone(),
                properties,
                condition,
                iteration,
                events,
                children,
                line_number: inv.line_number,
            };
            proof {
                assert(c@.properties =~= inv@.properties.map_values(
                    |p: ast::SpecPropertyNode| spec_property_of_node(p),
                ));
                assert(c@.events =~= inv@.events.map_values(
                    |e: ast::SpecEventNode| SpecEvent { name: e.name, action: e.action },
                ));
                assert(c@ =~~= spec_component_of_inv(
                    inv@,
                    doc_id@,
                    aliases_view(*aliases),
                )->Ok_0);
            }
            Ok(c)
        },
    }
}

/// Builds the components of a list of invocation nodes.
pub fn components_of_invs(
    invs: &Vec<ast::InvocationNode>,
    doc_id: &str,
    aliases: &Vec<(String, String)>,
) -> (r: Result<Vec<Component>, Error>)
    ensures
        match r {
            Ok(cs) => spec_components_of_invs(
                ast::all_invocations_view(*invs),
                doc_id@,
                aliases_view(*aliases),
            ) == Result::<Seq<SpecComponent>, SpecInterpreterError>::Ok(all_components_view(cs)),
            Err(e) => spec_components_of_invs(
                ast::all_invocations_view(*invs),
                doc_id@,
                aliases_view(*aliases),
            ) == Result::<Seq<SpecComponent>, SpecInterpreterError>::Err(e@),
        },
    decreases *invs, 1int,
{
    let ghost iv = ast::all_invocations_view(*invs);
    proof {
        ast::lemma_invocations_view(*invs, invs@.len() as int);
        assert(iv.skip(0) =~= iv);
    }
    let mut out: Vec<Component> = Vec::new();
    let n = invs.len();
    proof {
        lemma_components_view(out, 0);
        if spec_components_of_invs(iv, doc_id@, aliases_view(*aliases)) is Ok {
            assert(spec_components_of_invs(iv, doc_id@, aliases_view(*aliases))->Ok_0
                =~= all_components_view(out) + spec_components_of_invs(
                iv,
                doc_id@,
                aliases_view(*aliases),
            )->Ok_0);
        }
    }
    let mut i: usize = 0;
    while i < n
        invariant
            0 <= i <= n == invs@.len(),
            iv == ast::all_invocations_view(*invs),
            iv.len() == n,
            forall|k: int| 0 <= k < n ==> iv[k] == invs[k]@,
            spec_components_of_invs(iv, doc_id@, aliases_view(*aliases)) matches Ok(all) ==> {
                &&& spec_components_of_invs(iv.skip(i as int), doc_id@, aliases_view(*aliases))
                    matches Ok(rest)
                &&& all =~= all_components_view(out) + rest
            },
            spec_components_of_invs(iv, doc_id@, aliases_view(*aliases)) matches Err(e)
                ==> spec_components_of_invs(iv.skip(i as int), doc_id@, aliases_view(*aliases))
                == Result::<Seq<SpecComponent>, SpecInterpreterError>::Err(e),
        decreases n - i,
    {
        proof {
            assert(iv.skip(i as int)[0] == iv[i as int]);
            assert(iv.skip(i as int).drop_first() =~= iv.skip(i + 1));
        }
        match component_of_inv(&invs[i], doc_id, aliases) {
            Ok(c) => {
                let ghost out0 = out;
                out.push(c);
                proof {
                    lemma_components_view(out0, out0@.len() as int);
                    lemma_components_view(out, out@.len() as int);
                    assert(all_components_view(out) =~= all_components_view(out0).push(c@));
                    if spec_components_of_invs(iv, doc_id@, aliases_view(*aliases)) is Ok {
                        assert(all_components_view(out0).push(c@) + spec_components_of_invs(
                            iv.skip(i + 1),
                            doc_id@,
                            aliases_view(*aliases),
                        )->Ok_0 =~= all_components_view(out0) + (seq![c@]
                            + spec_components_of_invs(
                            iv.skip(i + 1),
                            doc_id@,
                            aliases_view(*aliases),
                        )->Ok_0));
                    }
                }
            },
            Err(e) => {
                return Err(e);
            },
        }
        i += 1;
    }
    proof {
        assert(iv.skip(n as int) =~= Seq::<ast::SpecInvocationNode>::empty());
        if spec_components_of_invs(iv, doc_id@, aliases_view(*aliases)) is Ok {
            assert(spec_components_of_invs(iv, doc_id@, aliases_view(*aliases))->Ok_0
                =~= all_components_view(out));
        }
    }
    Ok(out)
}

} // verus!

verus! {

/// What a variable definition's written value becomes, checked against its
/// declared kind; a `$` reference must already resolve in the bag.
pub open spec fn spec_variable_value(
    v: ast::SpecVariableDef,
    doc: Seq<char>,
    aliases: Seq<(Seq<char>, Seq<char>)>,
    bag: Seq<(Seq<char>, SpecThing)>,
) -> Result<SpecPropertyValue, SpecInterpreterError> {
    match v.value {
        None => Err(
            SpecInterpreterError::InvalidValue {
                message: "variable has no value"@,
                doc_id: doc,
                line_number: v.line_number,
            },
        ),
        Some(text) => {
            if text.len() > 0 && text[0] == '$' {
                let name = spec_resolve_name(text.skip(1), doc, aliases);
                if spec_bag_idx(bag, name) >= 0 {
                    Ok(SpecPropertyValue::Reference { name })
                } else {
                    Err(
                        SpecInterpreterError::UnresolvedName {
                            name,
                            doc_id: doc,
                            line_number: v.line_number,
                        },
                    )
                }
            } else if v.kind == "integer"@ {
                match spec_parse_i64(text) {
                    Some(x) => Ok(
                        SpecPropertyValue::Value { value: SpecValue::Integer { value: x } },
                    ),
                    None => Err(
                        SpecInterpreterError::InvalidValue {
                            message: "expected an integer value"@,
                            doc_id: doc,
                            line_number: v.line_number,
                        },
                    ),
                }
            } else if v.kind == "boolean"@ {
                if text == "true"@ {
                    Ok(SpecPropertyValue::Value { value: SpecValue::Boolean { value: true } })
                } else if text == "false"@ {
                    Ok(SpecPropertyValue::Value { value: SpecValue::Boolean { value: false } })
                } else {
                    Err(
                        SpecInterpreterError::InvalidValue {
                            message: "expected a boolean value"@,
                            doc_id: doc,
                            line_number: v.line_number,
                        },
                    )
                }
            } else {
                Ok(SpecPropertyValue::Value { value: SpecValue::String { text } })
            }
        },
    }
}

/// Reads a variable definition's value.
pub fn variable_value(
    v: &ast::VariableDef,
    doc_id: &str,
    aliases: &Vec<(String, String)>,
    bag: &Vec<(String, Thing)>,
) -> (r: Result<PropertyValue, Error>)
    ensures
        match r {
            Ok(pv) => spec_variable_value(v@, doc_id@, aliases_view(*aliases), bag_view(*bag))
                == Result::<SpecPropertyValue, SpecInterpreterError>::Ok(pv@),
            Err(e) => spec_variable_value(v@, doc_id@, aliases_view(*aliases), bag_view(*bag))
                == Result::<SpecPropertyValue, SpecInterpreterError>::Err(e@),
        },
{
    match &v.value {
        None => Err(
            Error::InvalidValue {
                message: String::from_str("variable has no value"),
                doc_id: String::from_str(doc_id),
                line_number: v.line_number,
            },
        ),
        Some(text) => {
            let n = text.as_str().unicode_len();
            if n > 0 && text.as_str().get_char(0) == '$' {
                let bare = text.as_str().substring_char(1, n).to_owned();
                proof {
                    assert(bare@ =~= text@.skip(1));
                }
                let name = resolve_name(bare.as_str(), doc_id, aliases);
                if bag_has(bag, name.as_str()) {
                    Ok(PropertyValue::Reference { name })
                } else {
                    Err(
                        Error::UnresolvedName {
                            name,
                            doc_id: String::from_str(doc_id),
                            line_number: v.line_number,
                        },
                    )
                }
            } else if crate::text::eq_str(v.kind.as_str(), "integer") {
                match parse_i64(text.as_str()) {
                    Some(x) => Ok(PropertyValue::Value { value: Value::Integer { value: x } }),
                    None => Err(
                        Error::InvalidValue {
                            message: String::from_str("expected an integer value"),
                            doc_id: String::from_str(doc_id),
                            line_number: v.line_number,
                        },
                    ),
                }
            } else if crate::text::eq_str(v.kind.as_str(), "boolean") {
                if crate::text::eq_str(text.as_str(), "true") {
                    Ok(PropertyValue::Value { value: Value::Boolean { value: true } })
                } else if crate::text::eq_str(text.as_str(), "false") {
                    Ok(PropertyValue::Value { value: Value::Boolean { value: false } })
                } else {
                    Err(
                        Error::InvalidValue {
                            message: String::from_str("expected a boolean value"),
                            doc_id: String::from_str(doc_id),
                            line_number: v.line_number,
                        },
                    )
                }
            } else {
                Ok(PropertyValue::Value { value: Value::String { text: text.clone() } })
            }
        },
    }
}

/// Whether a module's registered foreign variables include `var`.
pub open spec fn spec_foreign_has(
    foreign: Seq<(Seq<char>, Seq<Seq<char>>)>,
    module: Seq<char>,
    var: Seq<char>,
) -> bool {
    exists|i: int|
        0 <= i < foreign.len() && foreign[i].0 == module && foreign[i].1.contains(var)
}

/// The view of the foreign-variable registry.
pub open spec fn foreign_view(v: Vec<(String, Vec<String>)>) -> Seq<(Seq<char>, Seq<Seq<char>>)> {
    v@.map_values(|p: (String, Vec<String>)| (p.0@, p.1@.map_values(|s: String| s@)))
}

/// Tests the foreign-variable registry.
fn foreign_has(foreign: &Vec<(String, Vec<String>)>, module: &str, var: &str) -> (r: bool)
    ensures
        r == spec_foreign_has(foreign_view(*foreign), module@, var@),
{
    let ghost fv = foreign_view(*foreign);
    let n = foreign.len();
    let mut i: usize = 0;
    while i < n
        invariant
            0 <= i <= n == foreign@.len(),
            fv == foreign_view(*foreign),
            fv.len() == n,
            forall|k: int|
                0 <= k < i ==> !(fv[k].0 == module@ && #[trigger] fv[k].1.contains(var@)),
        decreases n - i,
    {
        proof {
            assert(fv[i as int] == (
                foreign@[i as int].0@,
                foreign@[i as int].1@.map_values(|s: String| s@),
            ));
        }
        if crate::text::eq_str(foreign[i].0.as_str(), module) {
            let vars = &foreign[i].1;
            let m = vars.len();
            let mut j: usize = 0;
            while j < m
                invariant
                    0 <= j <= m == vars@.len(),
                    fv[i as int].1 == vars@.map_values(|s: String| s@),
                    i < n == fv.len(),
                    fv == foreign_view(*foreign),
                    fv[i as int].0 == module@,
                    forall|k: int| 0 <= k < j ==> fv[i as int].1[k] != var@,
                decreases m - j,
            {
                if crate::text::eq_str(vars[j].as_str(), var) {
                    proof {
                        assert(fv[i as int].1[j as int] == var@);
                        assert(fv[i as int].1.contains(var@));
                        assert((i as int) < fv.len() && fv[i as int].0 == module@ && fv[
                            i as int
                        ].1.contains(var@));
                    }
                    return true;
                }
                j += 1;
            }
            proof {
                if fv[i as int].1.contains(var@) {
                    let k = choose|k: int|
                        0 <= k < fv[i as int].1.len() && fv[i as int].1[k] == var@;
                    assert(false);
                }
            }
        } else {
            proof {
                assert(fv[i as int].0 != module@);
            }
        }
        i += 1;
    }
    proof {
        if spec_foreign_has(fv, module@, var@) {
            let k = choose|k: int|
                0 <= k < fv.len() && fv[k].0 == module@ && fv[k].1.contains(var@);
            assert(!(fv[k].0 == module@ && fv[k].1.contains(var@)));
        }
    }
    false
}

/// The foreign variable a definition's value refers to, when that variable is
/// registered for an imported module and not yet bound in the bag.
pub open spec fn spec_foreign_ref(
    v: ast::SpecVariableDef,
    aliases: Seq<(Seq<char>, Seq<char>)>,
    bag: Seq<(Seq<char>, SpecThing)>,
    foreign: Seq<(Seq<char>, Seq<Seq<char>>)>,
) -> Option<(Seq<char>, Seq<char>)> {
    match v.value {
        Some(text) => {
            if text.len() > 0 && text[0] == '$' {
                let rest = text.skip(1);
                let di = crate::text::spec_index_of(rest, '.');
                if crate::text::spec_index_of(rest, '#') < 0 && di >= 0 {
                    match spec_alias_lookup(aliases, rest.take(di)) {
                        Some(module) => {
                            let var = rest.skip(di + 1);
                            if spec_foreign_has(foreign, module, var) && spec_bag_idx(
                                bag,
                                module + "#"@ + var,
                            ) < 0 {
                                Some((module, var))
                            } else {
                                None
                            }
                        },
                        None => None,
                    }
                } else {
                    None
                }
            } else {
                None
            }
        },
        None => None,
    }
}

/// Finds the pending foreign variable of a definition, if any.
pub fn foreign_ref(
    v: &ast::VariableDef,
    aliases: &Vec<(String, String)>,
    bag: &Vec<(String, Thing)>,
    foreign: &Vec<(String, Vec<String>)>,
) -> (r: Option<(String, String)>)
    ensures
        match r {
            Some(mv) => spec_foreign_ref(
                v@,
                aliases_view(*aliases),
                bag_view(*bag),
                foreign_view(*foreign),
            ) == Some((mv.0@, mv.1@)),
            None => spec_foreign_ref(
                v@,
                aliases_view(*aliases),
                bag_view(*bag),
                foreign_view(*foreign),
            ) is None,
        },
{
    match &v.value {
        None => None,
        Some(text) => {
            let n = text.as_str().unicode_len();
            if n > 0 && text.as_str().get_char(0) == '$' {
                let rest = crate::text::str_to_chars(text.as_str());
                let rest = crate::text::subvec(&rest, 1, rest.len());
                proof {
                    assert(rest@ =~= text@.skip(1));
                    crate::text::lemma_index_of_bounds(rest@, '.');
                }
                let has_hash = crate::text::index_of_char(&rest, '#').is_some();
                let nrest = rest.len();
                match crate::text::index_of_char(&rest, '.') {
                    Some(di) if !has_hash => {
                        let alias = crate::text::chars_to_string(
                            &crate::text::subvec(&rest, 0, di),
                        );
                        match alias_lookup(aliases, alias.as_str()) {
                            Some(module) => {
                                let var = crate::text::chars_to_string(
                                    &crate::text::subvec(&rest, di + 1, nrest),
                                );
                                let mut qualified = module.clone();
                                qualified.push('#');
                                qualified.append(var.as_str());
                                proof {
                                    reveal_strlit("#");
                                    assert(qualified@ =~= module@ + "#"@ + var@);
                                }
                                if foreign_has(foreign, module.as_str(), var.as_str()) && !bag_has(
                                    bag,
                                    qualified.as_str(),
                                ) {
                                    Some((module, var))
                                } else {
                                    None
                                }
                            },
                            None => None,
                        }
                    },
                    _ => None,
                }
            } else {
                None
            }
        },
    }
}

} // verus!

verus! {

/// The machine's working state between steps and across suspensions.
pub struct InterpreterState {
    pub id: String,
    pub aliases: Vec<(String, String)>,
    pub bag: Vec<(String, Thing)>,
    pub tree: Vec<Component>,
    pub remaining: Vec<ast::Ast>,
    pub foreign: Vec<(String, Vec<String>)>,
    pub foreign_functions: Vec<(String, Vec<String>)>,
}

#[verifier::ext_equal]
pub struct SpecIState {
    pub id: Seq<char>,
    pub aliases: Seq<(Seq<char>, Seq<char>)>,
    pub bag: Seq<(Seq<char>, SpecThing)>,
    pub tree: Seq<SpecComponent>,
    pub remaining: Seq<ast::SpecAst>,
    pub foreign: Seq<(Seq<char>, Seq<Seq<char>>)>,
    pub foreign_functions: Seq<(Seq<char>, Seq<Seq<char>>)>,
}

impl View for InterpreterState {
    type V = SpecIState;

    open spec fn view(&self) -> SpecIState {
        SpecIState {
            id: self.id@,
            aliases: aliases_view(self.aliases),
            bag: bag_view(self.bag),
            tree: all_components_view(self.tree),
            remaining: self.remaining@.map_values(|a: ast::Ast| a@),
            foreign: foreign_view(self.foreign),
            foreign_functions: foreign_view(self.foreign_functions),
        }
    }
}

/// The document a finished state denotes.
pub open spec fn spec_doc_of(st: SpecIState) -> SpecDocument {
    SpecDocument { name: st.id, aliases: st.aliases, data: st.bag, tree: st.tree }
}

/// One step of the machine: consume the head syntax node, or finish, suspend
/// or fail.
#[verifier::ext_equal]
pub enum SpecIStep {
    Done(SpecDocument),
    Continue(SpecIState),
    StuckImport { module: Seq<char>, state: SpecIState },
    StuckProcessor { module: Seq<char>, ast: ast::SpecVariableDef, state: SpecIState },
    StuckForeign { module: Seq<char>, variable: Seq<char>, state: SpecIState },
    Fail(SpecInterpreterError),
}

/// Inserts one definition and consumes the head node.
pub open spec fn spec_insert_def(
    st: SpecIState,
    name: Seq<char>,
    thing: SpecThing,
    ln: int,
) -> SpecIStep {
    if spec_bag_idx(st.bag, name) >= 0 {
        SpecIStep::Fail(
            SpecInterpreterError::DuplicateDefinition {
                name,
                doc_id: st.id,
                line_number: ln,
            },
        )
    } else {
        SpecIStep::Continue(
            SpecIState {
                bag: st.bag.push((name, thing)),
                remaining: st.remaining.drop_first(),
                ..st
            },
        )
    }
}

/// The first expression of a function that does not parse, if any.
pub open spec fn spec_first_expr_err(exprs: Seq<Seq<char>>) -> Option<Seq<char>>
    decreases exprs.len(),
{
    if exprs.len() == 0 {
        None
    } else {
        match crate::expr::spec_build(exprs[0]) {
            Err(m) => Some(m),
            Ok(_) => spec_first_expr_err(exprs.drop_first()),
        }
    }
}

/// The function thing a definition becomes.
pub open spec fn spec_function_thing(f: ast::SpecFunctionDef, name: Seq<char>) -> SpecThing {
    SpecThing::Function(
        SpecFunction {
            name,
            arguments: f.arguments.map_values(
                |sf: crate::di::SpecField| spec_argument_of_field(sf, f.line_number),
            ),
            expression: f.expressions.map_values(
                |t: Seq<char>| SpecExpression { expression: t, line_number: f.line_number },
            ),
            line_number: f.line_number,
        },
    )
}

/// The step the head node causes.
pub open spec fn spec_istep(st: SpecIState) -> SpecIStep {
    if st.remaining.len() == 0 {
        SpecIStep::Done(spec_doc_of(st))
    } else {
        match st.remaining[0] {
            ast::SpecAst::Import(n) => SpecIStep::StuckImport { module: n.module, state: st },
            ast::SpecAst::RecordDefinition(r) => spec_insert_def(
                st,
                spec_resolve_name(r.name, st.id, st.aliases),
                SpecThing::Record(r),
                0,
            ),
            ast::SpecAst::OrTypeDefinition(o) => spec_insert_def(
                st,
                spec_resolve_name(o.name, st.id, st.aliases),
                SpecThing::OrType(
                    SpecOrTypeThing {
                        name: o.name,
                        variants: o.variants,
                        line_number: o.line_number,
                    },
                ),
                o.line_number,
            ),
            ast::SpecAst::FunctionDefinition(f) => match spec_first_expr_err(f.expressions) {
                Some(m) => SpecIStep::Fail(
                    SpecInterpreterError::MalformedExpression {
                        message: m,
                        doc_id: st.id,
                        line_number: f.line_number,
                    },
                ),
                None => spec_insert_def(
                    st,
                    spec_resolve_name(f.name, st.id, st.aliases),
                    spec_function_thing(f, spec_resolve_name(f.name, st.id, st.aliases)),
                    f.line_number,
                ),
            },
            ast::SpecAst::ComponentDefinition(c) => match spec_components_of_invs(
                c.definition,
                st.id,
                st.aliases,
            ) {
                Err(e) => SpecIStep::Fail(e),
                Ok(def) => spec_insert_def(
                    st,
                    spec_resolve_name(c.name, st.id, st.aliases),
                    SpecThing::Component(
                        SpecComponentDefinition {
                            name: spec_resolve_name(c.name, st.id, st.aliases),
                            arguments: c.arguments.map_values(
                                |sf: crate::di::SpecField|
                                    spec_argument_of_field(sf, c.line_number),
                            ),
                            definition: def,
                            line_number: c.line_number,
                        },
                    ),
                    c.line_number,
                ),
            },
            ast::SpecAst::VariableDefinition(v) => {
                if v.processor is Some {
                    SpecIStep::StuckProcessor {
                        module: v.processor->Some_0,
                        ast: v,
                        state: st,
                    }
                } else {
                    match spec_foreign_ref(v, st.aliases, st.bag, st.foreign) {
                        Some(mv) => SpecIStep::StuckForeign {
                            module: mv.0,
                            variable: mv.1,
                            state: st,
                        },
                        None => match spec_variable_value(v, st.id, st.aliases, st.bag) {
                            Err(e) => SpecIStep::Fail(e),
                            Ok(pv) => spec_insert_def(
                                st,
                                spec_resolve_name(v.name, st.id, st.aliases),
                                SpecThing::Variable(
                                    SpecVariable {
                                        name: spec_resolve_name(v.name, st.id, st.aliases),
                                        kind: v.kind,
                                        mutable: v.mutable,
                                        value: pv,
                                        line_number: v.line_number,
                                    },
                                ),
                                v.line_number,
                            ),
                        },
                    }
                }
            },
            ast::SpecAst::ComponentInvocation(i) => {
                let resolved = spec_resolve_name(i.name, st.id, st.aliases);
                let kernel = crate::p11::is_prefix(i.name, "ftd."@);
                if !kernel && spec_bag_idx(st.bag, resolved) < 0 {
                    SpecIStep::Fail(
                        SpecInterpreterError::UnresolvedName {
                            name: resolved,
                            doc_id: st.id,
                            line_number: i.line_number,
                        },
                    )
                } else {
                    match spec_component_of_inv(i, st.id, st.aliases) {
                        Err(e) => SpecIStep::Fail(e),
                        Ok(c) => SpecIStep::Continue(
                            SpecIState {
                                tree: st.tree.push(c),
                                remaining: st.remaining.drop_first(),
                                ..st
                            },
                        ),
                    }
                }
            },
        }
    }
}

/// Steps until the machine finishes, suspends or fails.
pub open spec fn spec_irun(st: SpecIState) -> SpecIStep
    decreases st.remaining.len(),
{
    match spec_istep(st) {
        SpecIStep::Continue(st2) => {
            if st2.remaining.len() < st.remaining.len() {
                spec_irun(st2)
            } else {
                SpecIStep::Fail(
                    SpecInterpreterError::Other {
                        message: "interpreter did not progress"@,
                        doc_id: st.id,
                        line_number: 0,
                    },
                )
            }
        },
        other => other,
    }
}

} // verus!

verus! {

/// The machine's observable states: finished, or awaiting caller input.
pub enum Interpreter {
    Done { document: Document },
    StuckOnImport { module: String, state: InterpreterState },
    StuckOnProcessor { module: String, ast: ast::VariableDef, state: InterpreterState },
    StuckOnForeignVariable { module: String, variable: String, state: InterpreterState },
}

#[verifier::ext_equal]
pub enum SpecInterpreter {
    Done { document: SpecDocument },
    StuckOnImport { module: Seq<char>, state: SpecIState },
    StuckOnProcessor { module: Seq<char>, ast: ast::SpecVariableDef, state: SpecIState },
    StuckOnForeignVariable { module: Seq<char>, variable: Seq<char>, state: SpecIState },
}

impl View for Interpreter {
    type V = SpecInterpreter;

    open spec fn view(&self) -> SpecInterpreter {
        match self {
            Interpreter::Done { document } => SpecInterpreter::Done { document: document@ },
            Interpreter::StuckOnImport { module, state } => SpecInterpreter::StuckOnImport {
                module: module@,
                state: state@,
            },
            Interpreter::StuckOnProcessor { module, ast, state } => {
                SpecInterpreter::StuckOnProcessor { module: module@, ast: ast@, state: state@ }
            },
            Interpreter::StuckOnForeignVariable { module, variable, state } => {
                SpecInterpreter::StuckOnForeignVariable {
                    module: module@,
                    variable: variable@,
                    state: state@,
                }
            },
        }
    }
}

/// The step outcome an observable state denotes.
pub open spec fn spec_step_of(i: SpecInterpreter) -> SpecIStep {
    match i {
        SpecInterpreter::Done { document } => SpecIStep::Done(document),
        SpecInterpreter::StuckOnImport { module, state } => SpecIStep::StuckImport {
            module,
            state,
        },
        SpecInterpreter::StuckOnProcessor { module, ast, state } => SpecIStep::StuckProcessor {
            module,
            ast,
            state,
        },
        SpecInterpreter::StuckOnForeignVariable { module, variable, state } => {
            SpecIStep::StuckForeign { module, variable, state }
        },
    }
}

/// How much work an observable state still holds.
pub open spec fn spec_interp_rem(i: SpecInterpreter) -> int {
    match i {
        SpecInterpreter::Done { .. } => 0,
        SpecInterpreter::StuckOnImport { state, .. } => state.remaining.len() as int,
        SpecInterpreter::StuckOnProcessor { state, .. } => state.remaining.len() as int,
        SpecInterpreter::StuckOnForeignVariable { state, .. } => state.remaining.len() as int,
    }
}

/// Copies a variable-definition node.
fn clone_variable_def(v: &ast::VariableDef) -> (r: ast::VariableDef)
    ensures
        r@ == v@,
{
    let r = ast::VariableDef {
        name: v.name.clone(),
        kind: v.kind.clone(),
        mutable: v.mutable,
        value: match &v.value {
            Some(s) => Some(s.clone()),
            None => None,
        },
        processor: match &v.processor {
            Some(s) => Some(s.clone()),
            None => None,
        },
        line_number: v.line_number,
    };
    proof {
        assert(r@ =~~= v@);
    }
    r
}

/// The first function expression that fails to parse.
fn first_expr_err(exprs: &Vec<String>) -> (r: Option<String>)
    ensures
        match r {
            Some(m) => spec_first_expr_err(exprs@.map_values(|s: String| s@)) == Some(m@),
            None => spec_first_expr_err(exprs@.map_values(|s: String| s@)) is None,
        },
{
    let ghost ev = exprs@.map_values(|s: String| s@);
    proof {
        assert(ev.skip(0) =~= ev);
    }
    let n = exprs.len();
    let mut i: usize = 0;
    while i < n
        invariant
            0 <= i <= n == exprs@.len(),
            ev == exprs@.map_values(|s: String| s@),
            spec_first_expr_err(ev) == spec_first_expr_err(ev.skip(i as int)),
        decreases n - i,
    {
        proof {
            assert(ev.skip(i as int)[0] == ev[i as int]);
            assert(ev.skip(i as int).drop_first() =~= ev.skip(i + 1));
        }
        match crate::expr::build_operator_tree(exprs[i].as_str()) {
            Err(m) => {
                return Some(m);
            },
            Ok(_) => {},
        }
        i += 1;
    }
    proof {
        assert(ev.skip(n as int) =~= Seq::<Seq<char>>::empty());
    }
    None
}

/// Builds the function thing of a definition.
fn function_thing(f: &ast::FunctionDef, name: String) -> (r: Thing)
    ensures
        r@ == spec_function_thing(f@, name@),
{
    let arguments = arguments_of_fields(&f.arguments, f.line_number);
    let mut expression: Vec<Expression> = Vec::new();
    let n = f.expressions.len();
    let mut i: usize = 0;
    while i < n
        invariant
            0 <= i <= n == f.expressions@.len(),
            expression@.len() == i,
            forall|k: int|
                0 <= k < i ==> #[trigger] expression@[k]@ == (SpecExpression {
                    expression: f.expressions[k]@,
                    line_number: f@.line_number,
                }),
        decreases n - i,
    {
        expression.push(
            Expression { expression: f.expressions[i].clone(), line_number: f.line_number },
        );
        i += 1;
    }
    let t = Thing::Function(
        Function { name, arguments, expression, line_number: f.line_number },
    );
    proof {
        assert(t@ =~~= spec_function_thing(f@, name@));
    }
    t
}

/// One step's outcome as the runner sees it.
enum IStep {
    Next(Interpreter),
    Continue(InterpreterState),
    Fail(Error),
}

/// Performs one step of the machine.
fn istep(st: InterpreterState) -> (r: IStep)
    ensures
        match r {
            IStep::Next(i) => spec_istep(st@) == spec_step_of(i@),
            IStep::Continue(st2) => spec_istep(st@) == SpecIStep::Continue(st2@),
            IStep::Fail(e) => spec_istep(st@) == SpecIStep::Fail(e@),
        },
{
    let ghost st0 = st@;
    let mut st = st;
    if st.remaining.len() == 0 {
        let d = Document { name: st.id, aliases: st.aliases, data: st.bag, tree: st.tree };
        proof {
            assert(d@ =~~= spec_doc_of(st0));
        }
        return IStep::Next(Interpreter::Done { document: d });
    }
    let head = st.remaining.remove(0);
    proof {
        assert(head@ == st0.remaining[0]);
        assert(st@.remaining =~= st0.remaining.drop_first());
    }
    match head {
        ast::Ast::Import(n) => {
            let module = n.module.clone();
            st.remaining.insert(0, ast::Ast::Import(n));
            proof {
                assert(st@.remaining =~= st0.remaining);
                assert(st@ =~~= st0);
            }
            IStep::Next(Interpreter::StuckOnImport { module, state: st })
        },
        ast::Ast::RecordDefinition(r) => {
            let name = resolve_name(r.name().clone().as_str(), st.id.as_str(), &st.aliases);
            let ghost rv = r@;
            match bag_insert(st.bag, name, Thing::Record(r), st.id.as_str(), 0) {
                Ok(bag2) => {
                    let st2 = InterpreterState { bag: bag2, ..st };
                    proof {
                        assert(st2@ =~~= spec_istep(st0)->Continue_0);
                    }
                    IStep::Continue(st2)
                },
                Err(e) => IStep::Fail(e),
            }
        },
        ast::Ast::OrTypeDefinition(o) => {
            let name = resolve_name(o.name.as_str(), st.id.as_str(), &st.aliases);
            let thing = Thing::OrType(
                OrTypeThing { name: o.name, variants: o.variants, line_number: o.line_number },
            );
            match bag_insert(st.bag, name, thing, st.id.as_str(), o.line_number) {
                Ok(bag2) => {
                    let st2 = InterpreterState { bag: bag2, ..st };
                    proof {
                        assert(st2@ =~~= spec_istep(st0)->Continue_0);
                    }
                    IStep::Continue(st2)
                },
                Err(e) => IStep::Fail(e),
            }
        },
        ast::Ast::FunctionDefinition(f) => {
            match first_expr_err(&f.expressions) {
                Some(m) => IStep::Fail(
                    Error::MalformedExpression {
                        message: m,
                        doc_id: st.id.clone(),
                        line_number: f.line_number,
                    },
                ),
                None => {
                    let name = resolve_name(f.name.as_str(), st.id.as_str(), &st.aliases);
                    let ln = f.line_number;
                    let thing = function_thing(&f, name.clone());
                    match bag_insert(st.bag, name, thing, st.id.as_str(), ln) {
                        Ok(bag2) => {
                            let st2 = InterpreterState { bag: bag2, ..st };
                            proof {
                                assert(st2@ =~~= spec_istep(st0)->Continue_0);
                            }
                            IStep::Continue(st2)
                        },
                        Err(e) => IStep::Fail(e),
                    }
                },
            }
        },
        ast::Ast::ComponentDefinition(c) => {
            match components_of_invs(&c.definition, st.id.as_str(), &st.aliases) {
                Err(e) => IStep::Fail(e),
                Ok(def) => {
                    let name = resolve_name(c.name.as_str(), st.id.as_str(), &st.aliases);
                    let arguments = arguments_of_fields(&c.arguments, c.line_number);
                    let ln = c.line_number;
                    let thing = Thing::Component(
                        ComponentDefinition {
                            name: name.clone(),
                            arguments,
                            definition: def,
                            line_number: c.line_number,
                        },
                    );
                    proof {
                        assert(thing@ =~~= (SpecThing::Component(
                            SpecComponentDefinition {
                                name: spec_resolve_name(c@.name, st0.id, st0.aliases),
                                arguments: c@.arguments.map_values(
                                    |sf: crate::di::SpecField|
                                        spec_argument_of_field(sf, c@.line_number),
                                ),
                                definition: spec_components_of_invs(
                                    c@.definition,
                                    st0.id,
                                    st0.aliases,
                                )->Ok_0,
                                line_number: c@.line_number,
                            },
                        )));
                    }
                    match bag_insert(st.bag, name, thing, st.id.as_str(), ln) {
                        Ok(bag2) => {
                            let st2 = InterpreterState { bag: bag2, ..st };
                            proof {
                                assert(st2@ =~~= spec_istep(st0)->Continue_0);
                            }
                            IStep::Continue(st2)
                        },
                        Err(e) => IStep::Fail(e),
                    }
                },
            }
        },
        ast::Ast::VariableDefinition(v) => {
            if v.processor.is_some() {
                let module = match &v.processor {
                    Some(p) => p.clone(),
                    None => String::new(),
                };
                let ast_copy = clone_variable_def(&v);
                st.remaining.insert(0, ast::Ast::VariableDefinition(v));
                proof {
                    assert(st@.remaining =~= st0.remaining);
                    assert(st@ =~~= st0);
                }
                IStep::Next(
                    Interpreter::StuckOnProcessor { module, ast: ast_copy, state: st },
                )
            } else {
                match foreign_ref(&v, &st.aliases, &st.bag, &st.foreign) {
                    Some(mv) => {
                        st.remaining.insert(0, ast::Ast::VariableDefinition(v));
                        proof {
                            assert(st@.remaining =~= st0.remaining);
                            assert(st@ =~~= st0);
                        }
                        IStep::Next(
                            Interpreter::StuckOnForeignVariable {
                                module: mv.0,
                                variable: mv.1,
                                state: st,
                            },
                        )
                    },
                    None => {
                        match variable_value(&v, st.id.as_str(), &st.aliases, &st.bag) {
                            Err(e) => IStep::Fail(e),
                            Ok(pv) => {
                                let name = resolve_name(
                                    v.name.as_str(),
                                    st.id.as_str(),
                                    &st.aliases,
                                );
                                let ln = v.line_number;
                                let thing = Thing::Variable(
                                    Variable {
                                        name: name.clone(),
                                        kind: v.kind,
                                        mutable: v.mutable,
                                        value: pv,
                                        line_number: v.line_number,
                                    },
                                );
                                match bag_insert(st.bag, name, thing, st.id.as_str(), ln) {
                                    Ok(bag2) => {
                                        let st2 = InterpreterState { bag: bag2, ..st };
                                        proof {
                                            assert(st2@ =~~= spec_istep(st0)->Continue_0);
                                        }
                                        IStep::Continue(st2)
                                    },
                                    Err(e) => IStep::Fail(e),
                                }
                            },
                        }
                    },
                }
            }
        },
        ast::Ast::ComponentInvocation(i) => {
            let resolved = resolve_name(i.name.as_str(), st.id.as_str(), &st.aliases);
            proof {
                reveal_strlit("ftd.");
            }
            let kernel = crate::text::str_starts_with(i.name.as_str(), "ftd.");
            if !kernel && !bag_has(&st.bag, resolved.as_str()) {
                IStep::Fail(
                    Error::UnresolvedName {
                        name: resolved,
                        doc_id: st.id.clone(),
                        line_number: i.line_number,
                    },
                )
            } else {
                match component_of_inv(&i, st.id.as_str(), &st.aliases) {
                    Err(e) => IStep::Fail(e),
                    Ok(c) => {
                        let ghost tree0 = all_components_view(st.tree);
                        let ghost treeg = st.tree;
                        let cv = c;
                        st.tree.push(cv);
                        proof {
                            lemma_components_view(treeg, treeg@.len() as int);
                            lemma_components_view(st.tree, st.tree@.len() as int);
                            assert(all_components_view(st.tree) =~= tree0.push(
                                spec_component_of_inv(i@, st0.id, st0.aliases)->Ok_0,
                            ));
                            assert(st@ =~~= spec_istep(st0)->Continue_0);
                        }
                        IStep::Continue(st)
                    },
                }
            }
        },
    }
}

proof fn lemma_istep_continue(st: SpecIState)
    ensures
        spec_istep(st) matches SpecIStep::Continue(st2) ==> st2.remaining
            == st.remaining.drop_first() && st.remaining.len() > 0,
{
}

/// A continuing step consumes exactly the head node and touches neither the
/// foreign registry nor the document id.
pub proof fn lemma_istep_continue_shape(st: SpecIState)
    ensures
        spec_istep(st) matches SpecIStep::Continue(st2) ==> st2.remaining
            == st.remaining.drop_first() && st2.foreign == st.foreign && st2.id == st.id
            && st.remaining.len() > 0,
{
}

/// Runs the machine to its next observable state: finished, suspended on
/// caller input, or failed.
#[verifier::rlimit(50)]
#[verifier::loop_isolation(false)]
pub fn run(state: InterpreterState) -> (r: Result<Interpreter, Error>)
    ensures
        match r {
            Ok(i) => spec_irun(state@) == spec_step_of(i@) && spec_interp_rem(i@)
                <= state@.remaining.len(),
            Err(e) => spec_irun(state@) == SpecIStep::Fail(e@),
        },
{
    let ghost start = state@;
    let mut st = state;
    loop
        invariant
            spec_irun(start) == spec_irun(st@),
            st@.remaining.len() <= start.remaining.len(),
        decreases st@.remaining.len(),
    {
        match istep(st) {
            IStep::Continue(st2) => {
                proof {
                    lemma_istep_continue(st@);
                    assert(st2@.remaining.len() < st@.remaining.len());
                    assert(spec_irun(st@) == spec_irun(st2@));
                }
                st = st2;
            },
            IStep::Next(i) => {
                proof {
                    assert(spec_irun(st@) == spec_step_of(i@));
                }
                return Ok(i);
            },
            IStep::Fail(e) => {
                proof {
                    assert(spec_irun(st@) == SpecIStep::Fail(e@));
                }
                return Err(e);
            },
        }
    }
}

/// What interpreting a document from source denotes: parse, build, then run
/// until the first suspension, the first error, or completion.
pub open spec fn spec_interpret(name: Seq<char>, source: Seq<char>) -> SpecIStep {
    match crate::p11::spec_parse(source, name) {
        Err(e) => SpecIStep::Fail(
            SpecInterpreterError::Ast(ast::SpecError::P1Error(e)),
        ),
        Ok(secs) => match ast::spec_asts_of_sections(secs, name) {
            Err(e) => SpecIStep::Fail(SpecInterpreterError::Ast(e)),
            Ok(asts) => spec_irun(
                SpecIState {
                    id: name,
                    aliases: Seq::empty(),
                    bag: Seq::empty(),
                    tree: Seq::empty(),
                    remaining: asts,
                    foreign: Seq::empty(),
                    foreign_functions: Seq::empty(),
                },
            ),
        },
    }
}

/// Interprets a document's source text up to its first suspension point.
pub fn interpret(name: &str, source: &str) -> (r: Result<Interpreter, Error>)
    ensures
        match r {
            Ok(i) => spec_interpret(name@, source@) == spec_step_of(i@),
            Err(e) => spec_interpret(name@, source@) == SpecIStep::Fail(e@),
        },
{
    match crate::p11::parse(source, name) {
        Err(e) => Err(Error::Ast(ast::Error::P1Error(e))),
        Ok(secs) => match ast::asts_of_sections(&secs, name) {
            Err(e) => Err(Error::Ast(e)),
            Ok(asts) => {
                let st = InterpreterState {
                    id: String::from_str(name),
                    aliases: Vec::new(),
                    bag: Vec::new(),
                    tree: Vec::new(),
                    remaining: asts,
                    foreign: Vec::new(),
                    foreign_functions: Vec::new(),
                };
                proof {
                    assert(st@ =~~= (SpecIState {
                        id: name@,
                        aliases: Seq::empty(),
                        bag: Seq::empty(),
                        tree: Seq::empty(),
                        remaining: ast::all_asts_view(asts),
                        foreign: Seq::empty(),
                        foreign_functions: Seq::empty(),
                    }));
                }
                run(st)
            },
        },
    }
}

} // verus!

verus! {

/// What merging an imported module's syntax nodes adds to the bag: its
/// definitions under `module#name`; imports and processors cannot appear in
/// an imported module, and its invocations contribute nothing.
pub open spec fn spec_merge_module(
    asts: Seq<ast::SpecAst>,
    module: Seq<char>,
    bag: Seq<(Seq<char>, SpecThing)>,
) -> Result<Seq<(Seq<char>, SpecThing)>, SpecInterpreterError>
    decreases asts.len(),
{
    if asts.len() == 0 {
        Ok(bag)
    } else {
        match spec_merge_one(asts[0], module, bag) {
            Err(e) => Err(e),
            Ok(bag2) => spec_merge_module(asts.drop_first(), module, bag2),
        }
    }
}

pub open spec fn spec_module_insert(
    bag: Seq<(Seq<char>, SpecThing)>,
    name: Seq<char>,
    thing: SpecThing,
    module: Seq<char>,
    ln: int,
) -> Result<Seq<(Seq<char>, SpecThing)>, SpecInterpreterError> {
    if spec_bag_idx(bag, name) >= 0 {
        Err(
            SpecInterpreterError::DuplicateDefinition {
                name,
                doc_id: module,
                line_number: ln,
            },
        )
    } else {
        Ok(bag.push((name, thing)))
    }
}

pub open spec fn spec_merge_one(
    a: ast::SpecAst,
    module: Seq<char>,
    bag: Seq<(Seq<char>, SpecThing)>,
) -> Result<Seq<(Seq<char>, SpecThing)>, SpecInterpreterError> {
    match a {
        ast::SpecAst::Import(n) => Err(
            SpecInterpreterError::Other {
                message: "nested imports are not supported"@,
                doc_id: module,
                line_number: n.line_number,
            },
        ),
        ast::SpecAst::RecordDefinition(r) => spec_module_insert(
            bag,
            spec_resolve_name(r.name, module, Seq::empty()),
            SpecThing::Record(r),
            module,
            0,
        ),
        ast::SpecAst::OrTypeDefinition(o) => spec_module_insert(
            bag,
            spec_resolve_name(o.name, module, Seq::empty()),
            SpecThing::OrType(
                SpecOrTypeThing { name: o.name, variants: o.variants, line_number: o.line_number },
            ),
            module,
            o.line_number,
        ),
        ast::SpecAst::FunctionDefinition(f) => match spec_first_expr_err(f.expressions) {
            Some(m) => Err(
                SpecInterpreterError::MalformedExpression {
                    message: m,
                    doc_id: module,
                    line_number: f.line_number,
                },
            ),
            None => spec_module_insert(
                bag,
                spec_resolve_name(f.name, module, Seq::empty()),
                spec_function_thing(f, spec_resolve_name(f.name, module, Seq::empty())),
                module,
                f.line_number,
            ),
        },
        ast::SpecAst::ComponentDefinition(c) => match spec_components_of_invs(
            c.definition,
            module,
            Seq::empty(),
        ) {
            Err(e) => Err(e),
            Ok(def) => spec_module_insert(
                bag,
                spec_resolve_name(c.name, module, Seq::empty()),
                SpecThing::Component(
                    SpecComponentDefinition {
                        name: spec_resolve_name(c.name, module, Seq::empty()),
                        arguments: c.arguments.map_values(
                            |sf: crate::di::SpecField| spec_argument_of_field(sf, c.line_number),
                        ),
                        definition: def,
                        line_number: c.line_number,
                    },
                ),
                module,
                c.line_number,
            ),
        },
        ast::SpecAst::VariableDefinition(v) => {
            if v.processor is Some {
                Err(
                    SpecInterpreterError::Other {
                        message: "processor not allowed in imported module"@,
                        doc_id: module,
                        line_number: v.line_number,
                    },
                )
            } else {
                match spec_variable_value(v, module, Seq::empty(), bag) {
                    Err(e) => Err(e),
                    Ok(pv) => spec_module_insert(
                        bag,
                        spec_resolve_name(v.name, module, Seq::empty()),
                        SpecThing::Variable(
                            SpecVariable {
                                name: spec_resolve_name(v.name, module, Seq::empty()),
                                kind: v.kind,
                                mutable: v.mutable,
                                value: pv,
                                line_number: v.line_number,
                            },
                        ),
                        module,
                        v.line_number,
                    ),
                }
            }
        },
        ast::SpecAst::ComponentInvocation(_) => Ok(bag),
    }
}

/// Copies a record definition.
fn clone_record(r: &crate::di::Record) -> (out: crate::di::Record)
    ensures
        out@ == r@,
{
    let mut out = crate::di::Record::new(r.name().as_str());
    let fs = r.fields();
    let n = fs.len();
    let ghost fsv = r@.fields;
    proof {
        assert(fsv.len() == n);
        assert(out@.fields =~= fsv.take(0));
    }
    let mut i: usize = 0;
    while i < n
        invariant
            0 <= i <= n == fs@.len(),
            fsv == r@.fields,
            fsv.len() == n,
            forall|k: int| 0 <= k < n ==> fsv[k] == fs[k]@,
            out@.name == r@.name,
            out@.fields =~= fsv.take(i as int),
        decreases n - i,
    {
        let f = &fs[i];
        let value: Option<String> = match f.value() {
            Some(v) => Some(v.clone()),
            None => None,
        };
        out = out.add_field(f.name().as_str(), f.kind().as_str(), value);
        proof {
            assert(fsv.take(i + 1 as int) =~= fsv.take(i as int).push(fsv[i as int]));
            assert(out@.fields =~= fsv.take(i + 1 as int));
        }
        i += 1;
    }
    proof {
        assert(fsv.take(n as int) =~= fsv);
        assert(out@ =~~= r@);
    }
    out
}

/// Copies a field list.
fn clone_fields(fs: &Vec<crate::di::Field>) -> (out: Vec<crate::di::Field>)
    ensures
        out@.map_values(|f: crate::di::Field| f@) == fs@.map_values(|f: crate::di::Field| f@),
{
    let n = fs.len();
    let mut out: Vec<crate::di::Field> = Vec::new();
    let mut i: usize = 0;
    while i < n
        invariant
            0 <= i <= n == fs@.len(),
            out@.len() == i,
            forall|k: int| 0 <= k < i ==> #[trigger] out@[k]@ == fs[k]@,
        decreases n - i,
    {
        let f = &fs[i];
        let value: Option<String> = match f.value() {
            Some(v) => Some(v.clone()),
            None => None,
        };
        let nf = crate::di::Field::new(f.name().as_str(), f.kind().as_str(), value);
        proof {
            assert(nf@ =~~= fs[i as int]@);
        }
        out.push(nf);
        i += 1;
    }
    proof {
        assert(out@.map_values(|f: crate::di::Field| f@) =~= fs@.map_values(
            |f: crate::di::Field| f@,
        ));
    }
    out
}

/// Merges one syntax node of an imported module.
#[verifier::rlimit(50)]
fn merge_one(
    a: &ast::Ast,
    module: &str,
    bag: Vec<(String, Thing)>,
    empty_aliases: &Vec<(String, String)>,
) -> (r: Result<Vec<(String, Thing)>, Error>)
    requires
        empty_aliases@.len() == 0,
    ensures
        match r {
            Ok(bag2) => spec_merge_one(a@, module@, bag_view(bag)) == Result::<
                Seq<(Seq<char>, SpecThing)>,
                SpecInterpreterError,
            >::Ok(bag_view(bag2)),
            Err(e) => spec_merge_one(a@, module@, bag_view(bag)) == Result::<
                Seq<(Seq<char>, SpecThing)>,
                SpecInterpreterError,
            >::Err(e@),
        },
{
    proof {
        assert(aliases_view(*empty_aliases) =~= Seq::<(Seq<char>, Seq<char>)>::empty());
    }
    let ghost bag0 = bag_view(bag);
    match a {
        ast::Ast::Import(n) => Err(
            Error::Other {
                message: String::from_str("nested imports are not supported"),
                doc_id: String::from_str(module),
                line_number: n.line_number,
            },
        ),
        ast::Ast::RecordDefinition(rec) => {
            let owned = clone_record(rec);
            let name = resolve_name(owned.name().clone().as_str(), module, empty_aliases);
            module_insert(bag, name, Thing::Record(owned), module, 0)
        },
        ast::Ast::OrTypeDefinition(o) => {
            let name = resolve_name(o.name.as_str(), module, empty_aliases);
            let thing = Thing::OrType(
                OrTypeThing {
                    name: o.name.clone(),
                    variants: clone_fields(&o.variants),
                    line_number: o.line_number,
                },
            );
            proof {
                assert(thing@ =~~= (SpecThing::OrType(
                    SpecOrTypeThing {
                        name: a@->OrTypeDefinition_0.name,
                        variants: a@->OrTypeDefinition_0.variants,
                        line_number: a@->OrTypeDefinition_0.line_number,
                    },
                )));
            }
            module_insert(bag, name, thing, module, o.line_number)
        },
        ast::Ast::FunctionDefinition(f) => {
            match first_expr_err(&f.expressions) {
                Some(m) => Err(
                    Error::MalformedExpression {
                        message: m,
                        doc_id: String::from_str(module),
                        line_number: f.line_number,
                    },
                ),
                None => {
                    let name = resolve_name(f.name.as_str(), module, empty_aliases);
                    let thing = function_thing(f, name.clone());
                    module_insert(bag, name, thing, module, f.line_number)
                },
            }
        },
        ast::Ast::ComponentDefinition(c) => {
            match components_of_invs(&c.definition, module, empty_aliases) {
                Err(e) => Err(e),
                Ok(def) => {
                    let name = resolve_name(c.name.as_str(), module, empty_aliases);
                    let arguments = arguments_of_fields(&c.arguments, c.line_number);
                    let thing = Thing::Component(
                        ComponentDefinition {
                            name: name.clone(),
                            arguments,
                            definition: def,
                            line_number: c.line_number,
                        },
                    );
                    proof {
                        assert(thing@ =~~= (SpecThing::Component(
                            SpecComponentDefinition {
                                name: spec_resolve_name(c@.name, module@, Seq::empty()),
                                arguments: c@.arguments.map_values(
                                    |sf: crate::di::SpecField|
                                        spec_argument_of_field(sf, c@.line_number),
                                ),
                                definition: spec_components_of_invs(
                                    c@.definition,
                                    module@,
                                    Seq::empty(),
                                )->Ok_0,
                                line_number: c@.line_number,
                            },
                        )));
                    }
                    module_insert(bag, name, thing, module, c.line_number)
                },
            }
        },
        ast::Ast::VariableDefinition(v) => {
            if v.processor.is_some() {
                Err(
                    Error::Other {
                        message: String::from_str("processor not allowed in imported module"),
                        doc_id: String::from_str(module),
                        line_number: v.line_number,
                    },
                )
            } else {
                match variable_value(v, module, empty_aliases, &bag) {
                    Err(e) => Err(e),
                    Ok(pv) => {
                        let name = resolve_name(v.name.as_str(), module, empty_aliases);
                        let thing = Thing::Variable(
                            Variable {
                                name: name.clone(),
                                kind: v.kind.clone(),
                                mutable: v.mutable,
                                value: pv,
                                line_number: v.line_number,
                            },
                        );
                        module_insert(bag, name, thing, module, v.line_number)
                    },
                }
            }
        },
        ast::Ast::ComponentInvocation(_) => Ok(bag),
    }
}

/// Inserts one merged definition, refusing duplicates.
fn module_insert(
    bag: Vec<(String, Thing)>,
    name: String,
    thing: Thing,
    module: &str,
    ln: usize,
) -> (r: Result<Vec<(String, Thing)>, Error>)
    ensures
        match r {
            Ok(bag2) => spec_module_insert(bag_view(bag), name@, thing@, module@, ln as int)
                == Result::<Seq<(Seq<char>, SpecThing)>, SpecInterpreterError>::Ok(bag_view(bag2)),
            Err(e) => spec_module_insert(bag_view(bag), name@, thing@, module@, ln as int)
                == Result::<Seq<(Seq<char>, SpecThing)>, SpecInterpreterError>::Err(e@),
        },
{
    if bag_has(&bag, name.as_str()) {
        Err(
            Error::DuplicateDefinition {
                name,
                doc_id: String::from_str(module),
                line_number: ln,
            },
        )
    } else {
        let ghost bag0 = bag_view(bag);
        let ghost namev = name@;
        let ghost thingv = thing@;
        let mut bag = bag;
        bag.push((name, thing));
        proof {
            assert(bag_view(bag) =~= bag0.push((namev, thingv)));
        }
        Ok(bag)
    }
}

/// Merges one imported module's definitions into the bag.
#[verifier::loop_isolation(false)]
fn merge_module(
    asts: Vec<ast::Ast>,
    module: &str,
    bag: Vec<(String, Thing)>,
) -> (r: Result<Vec<(String, Thing)>, Error>)
    ensures
        match r {
            Ok(bag2) => spec_merge_module(ast::all_asts_view(asts), module@, bag_view(bag))
                == Result::<Seq<(Seq<char>, SpecThing)>, SpecInterpreterError>::Ok(bag_view(bag2)),
            Err(e) => spec_merge_module(ast::all_asts_view(asts), module@, bag_view(bag))
                == Result::<Seq<(Seq<char>, SpecThing)>, SpecInterpreterError>::Err(e@),
        },
{
    let ghost av = ast::all_asts_view(asts);
    let ghost bag0 = bag_view(bag);
    proof {
        assert(av.skip(0) =~= av);
    }
    let empty_aliases: Vec<(String, String)> = Vec::new();
    let n = asts.len();
    let mut cur = bag;
    let mut i: usize = 0;
    while i < n
        invariant
            0 <= i <= n,
            spec_merge_module(av, module@, bag0) == spec_merge_module(
                av.skip(i as int),
                module@,
                bag_view(cur),
            ),
        decreases n - i,
    {
        proof {
            assert(av.skip(i as int)[0] == av[i as int]);
            assert(av[i as int] == asts[i as int]@);
            assert(av.skip(i as int).drop_first() =~= av.skip(i + 1));
        }
        match merge_one(&asts[i], module, cur, &empty_aliases) {
            Ok(bag2) => {
                cur = bag2;
            },
            Err(e) => {
                return Err(e);
            },
        }
        i += 1;
    }
    proof {
        assert(av.skip(n as int) =~= Seq::<ast::SpecAst>::empty());
    }
    Ok(cur)
}

/// What resuming after an import denotes: the module's definitions merged
/// under its alias, its foreign names registered, and the machine run on.
pub open spec fn spec_continue_import(
    st: SpecIState,
    module: Seq<char>,
    source: Seq<char>,
    fv: Seq<Seq<char>>,
    ff: Seq<Seq<char>>,
) -> SpecIStep {
    if st.remaining.len() > 0 && (st.remaining[0] matches ast::SpecAst::Import(n) && n.module
        == module) {
        let n = st.remaining[0]->Import_0;
        match crate::p11::spec_parse(source, module) {
            Err(e) => SpecIStep::Fail(SpecInterpreterError::Ast(ast::SpecError::P1Error(e))),
            Ok(secs) => match ast::spec_asts_of_sections(secs, module) {
                Err(e) => SpecIStep::Fail(SpecInterpreterError::Ast(e)),
                Ok(masts) => match spec_merge_module(masts, module, st.bag) {
                    Err(e) => SpecIStep::Fail(e),
                    Ok(bag2) => spec_irun(
                        SpecIState {
                            aliases: st.aliases.push((n.alias, module)),
                            bag: bag2,
                            foreign: st.foreign.push((module, fv)),
                            foreign_functions: st.foreign_functions.push((module, ff)),
                            remaining: st.remaining.drop_first(),
                            ..st
                        },
                    ),
                },
            },
        }
    } else {
        SpecIStep::Fail(
            SpecInterpreterError::Other {
                message: "resumption does not match the pending state"@,
                doc_id: st.id,
                line_number: 0,
            },
        )
    }
}

impl InterpreterState {
    /// Resumes after an import: the caller hands over the requested module's
    /// source (empty text for an absent module) and the names of its foreign
    /// variables and functions.
    pub fn continue_after_import(
        self,
        module: &str,
        source: &str,
        foreign_variable: Vec<String>,
        foreign_function: Vec<String>,
    ) -> (r: Result<Interpreter, Error>)
        ensures
            match r {
                Ok(i) => spec_continue_import(
                    self@,
                    module@,
                    source@,
                    foreign_variable@.map_values(|s: String| s@),
                    foreign_function@.map_values(|s: String| s@),
                ) == spec_step_of(i@) && spec_interp_rem(i@) < self@.remaining.len(),
                Err(e) => spec_continue_import(
                    self@,
                    module@,
                    source@,
                    foreign_variable@.map_values(|s: String| s@),
                    foreign_function@.map_values(|s: String| s@),
                ) == SpecIStep::Fail(e@),
            },
    {
        let ghost st0 = self@;
        let mut st = self;
        let matches_head = st.remaining.len() > 0 && (match &st.remaining[0] {
            ast::Ast::Import(n) => crate::text::eq_str(n.module.as_str(), module),
            _ => false,
        });
        if !matches_head {
            return Err(
                Error::Other {
                    message: String::from_str("resumption does not match the pending state"),
                    doc_id: st.id,
                    line_number: 0,
                },
            );
        }
        match crate::p11::parse(source, module) {
            Err(e) => Err(Error::Ast(ast::Error::P1Error(e))),
            Ok(secs) => match ast::asts_of_sections(&secs, module) {
                Err(e) => Err(Error::Ast(e)),
                Ok(masts) => {
                    let bag = st.bag;
                    st.bag = Vec::new();
                    match merge_module(masts, module, bag) {
                        Err(e) => Err(e),
                        Ok(bag2) => {
                            let head = st.remaining.remove(0);
                            let alias = match head {
                                ast::Ast::Import(n) => n.alias,
                                _ => String::new(),
                            };
                            st.bag = bag2;
                            st.aliases.push((alias, String::from_str(module)));
                            st.foreign.push((String::from_str(module), foreign_variable));
                            st.foreign_functions.push(
                                (String::from_str(module), foreign_function),
                            );
                            proof {
                                assert(st@.remaining =~= st0.remaining.drop_first());
                                assert(st@.aliases =~= st0.aliases.push(
                                    (st0.remaining[0]->Import_0.alias, module@),
                                ));
                                assert(st@.foreign =~= st0.foreign.push(
                                    (module@, foreign_variable@.map_values(|s: String| s@)),
                                ));
                                assert(st@.foreign_functions =~= st0.foreign_functions.push(
                                    (module@, foreign_function@.map_values(|s: String| s@)),
                                ));
                                assert(st@ =~~= (SpecIState {
                                    aliases: st0.aliases.push(
                                        (st0.remaining[0]->Import_0.alias, module@),
                                    ),
                                    bag: spec_merge_module(
                                        ast::all_asts_view(masts),
                                        module@,
                                        st0.bag,
                                    )->Ok_0,
                                    foreign: st0.foreign.push(
                                        (module@, foreign_variable@.map_values(|s: String| s@)),
                                    ),
                                    foreign_functions: st0.foreign_functions.push(
                                        (module@, foreign_function@.map_values(|s: String| s@)),
                                    ),
                                    remaining: st0.remaining.drop_first(),
                                    ..st0
                                }));
                            }
                            run(st)
                        },
                    }
                },
            },
        }
    }
}

/// What resuming after a processor call denotes: the produced value bound to
/// the pending variable, and the machine run on.
pub open spec fn spec_continue_processor(st: SpecIState, value: SpecValue) -> SpecIStep {
    if st.remaining.len() > 0 && (st.remaining[0] matches ast::SpecAst::VariableDefinition(v)
        && v.processor is Some) {
        let v = st.remaining[0]->VariableDefinition_0;
        let name = spec_resolve_name(v.name, st.id, st.aliases);
        if spec_bag_idx(st.bag, name) >= 0 {
            SpecIStep::Fail(
                SpecInterpreterError::DuplicateDefinition {
                    name,
                    doc_id: st.id,
                    line_number: v.line_number,
                },
            )
        } else {
            spec_irun(
                SpecIState {
                    bag: st.bag.push(
                        (
                            name,
                            SpecThing::Variable(
                                SpecVariable {
                                    name,
                                    kind: v.kind,
                                    mutable: v.mutable,
                                    value: SpecPropertyValue::Value { value },
                                    line_number: v.line_number,
                                },
                            ),
                        ),
                    ),
                    remaining: st.remaining.drop_first(),
                    ..st
                },
            )
        }
    } else {
        SpecIStep::Fail(
            SpecInterpreterError::Other {
                message: "resumption does not match the pending state"@,
                doc_id: st.id,
                line_number: 0,
            },
        )
    }
}

/// What resuming after a foreign-variable lookup denotes: the value bound
/// under the module's name, the pending variable re-read, the machine run on.
pub open spec fn spec_continue_variable(
    st: SpecIState,
    module: Seq<char>,
    variable: Seq<char>,
    value: SpecValue,
) -> SpecIStep {
    if st.remaining.len() > 0 && (st.remaining[0] matches ast::SpecAst::VariableDefinition(v)
        && spec_foreign_ref(v, st.aliases, st.bag, st.foreign) == Some((module, variable))) {
        let v = st.remaining[0]->VariableDefinition_0;
        let fname = module + "#"@ + variable;
        let bag2 = st.bag.push(
            (
                fname,
                SpecThing::Variable(
                    SpecVariable {
                        name: fname,
                        kind: v.kind,
                        mutable: false,
                        value: SpecPropertyValue::Value { value },
                        line_number: v.line_number,
                    },
                ),
            ),
        );
        match spec_variable_value(v, st.id, st.aliases, bag2) {
            Err(e) => SpecIStep::Fail(e),
            Ok(pv) => {
                let name = spec_resolve_name(v.name, st.id, st.aliases);
                if spec_bag_idx(bag2, name) >= 0 {
                    SpecIStep::Fail(
                        SpecInterpreterError::DuplicateDefinition {
                            name,
                            doc_id: st.id,
                            line_number: v.line_number,
                        },
                    )
                } else {
                    spec_irun(
                        SpecIState {
                            bag: bag2.push(
                                (
                                    name,
                                    SpecThing::Variable(
                                        SpecVariable {
                                            name,
                                            kind: v.kind,
                                            mutable: v.mutable,
                                            value: pv,
                                            line_number: v.line_number,
                                        },
                                    ),
                                ),
                            ),
                            remaining: st.remaining.drop_first(),
                            ..st
                        },
                    )
                }
            },
        }
    } else {
        SpecIStep::Fail(
            SpecInterpreterError::Other {
                message: "resumption does not match the pending state"@,
                doc_id: st.id,
                line_number: 0,
            },
        )
    }
}

impl InterpreterState {
    /// Resumes after a processor call with the value the caller produced.
    pub fn continue_after_processor(self, value: Value) -> (r: Result<Interpreter, Error>)
        ensures
            match r {
                Ok(i) => spec_continue_processor(self@, value@) == spec_step_of(i@)
                    && spec_interp_rem(i@) < self@.remaining.len(),
                Err(e) => spec_continue_processor(self@, value@) == SpecIStep::Fail(e@),
            },
    {
        let ghost st0 = self@;
        let mut st = self;
        let matches_head = st.remaining.len() > 0 && (match &st.remaining[0] {
            ast::Ast::VariableDefinition(v) => v.processor.is_some(),
            _ => false,
        });
        if !matches_head {
            return Err(
                Error::Other {
                    message: String::from_str("resumption does not match the pending state"),
                    doc_id: st.id,
                    line_number: 0,
                },
            );
        }
        let head = st.remaining.remove(0);
        let v = match head {
            ast::Ast::VariableDefinition(v) => v,
            _ => {
                return Err(
                    Error::Other {
                        message: String::from_str("resumption does not match the pending state"),
                        doc_id: st.id,
                        line_number: 0,
                    },
                );
            },
        };
        let name = resolve_name(v.name.as_str(), st.id.as_str(), &st.aliases);
        if bag_has(&st.bag, name.as_str()) {
            return Err(
                Error::DuplicateDefinition {
                    name,
                    doc_id: st.id,
                    line_number: v.line_number,
                },
            );
        }
        let ghost bagv = bag_view(st.bag);
        let thing = Thing::Variable(
            Variable {
                name: name.clone(),
                kind: v.kind,
                mutable: v.mutable,
                value: PropertyValue::Value { value },
                line_number: v.line_number,
            },
        );
        st.bag.push((name, thing));
        proof {
            assert(st@.remaining =~= st0.remaining.drop_first());
            assert(st@ =~~= (SpecIState {
                bag: bagv.push(
                    (
                        spec_resolve_name(
                            st0.remaining[0]->VariableDefinition_0.name,
                            st0.id,
                            st0.aliases,
                        ),
                        SpecThing::Variable(
                            SpecVariable {
                                name: spec_resolve_name(
                                    st0.remaining[0]->VariableDefinition_0.name,
                                    st0.id,
                                    st0.aliases,
                                ),
                                kind: st0.remaining[0]->VariableDefinition_0.kind,
                                mutable: st0.remaining[0]->VariableDefinition_0.mutable,
                                value: SpecPropertyValue::Value { value: value@ },
                                line_number: st0.remaining[0]->VariableDefinition_0.line_number,
                            },
                        ),
                    ),
                ),
                remaining: st0.remaining.drop_first(),
                ..st0
            }));
        }
        run(st)
    }

    /// Resumes after a foreign-variable lookup with the caller's value.
    pub fn continue_after_variable(
        self,
        module: &str,
        variable: &str,
        value: Value,
    ) -> (r: Result<Interpreter, Error>)
        ensures
            match r {
                Ok(i) => spec_continue_variable(self@, module@, variable@, value@)
                    == spec_step_of(i@) && spec_interp_rem(i@) < self@.remaining.len(),
                Err(e) => spec_continue_variable(self@, module@, variable@, value@)
                    == SpecIStep::Fail(e@),
            },
    {
        let ghost st0 = self@;
        let mut st = self;
        let matches_head = st.remaining.len() > 0 && (match &st.remaining[0] {
            ast::Ast::VariableDefinition(v) => {
                match foreign_ref(v, &st.aliases, &st.bag, &st.foreign) {
                    Some(mv) => crate::text::eq_str(mv.0.as_str(), module) && crate::text::eq_str(
                        mv.1.as_str(),
                        variable,
                    ),
                    None => false,
                }
            },
            _ => false,
        });
        if !matches_head {
            return Err(
                Error::Other {
                    message: String::from_str("resumption does not match the pending state"),
                    doc_id: st.id,
                    line_number: 0,
                },
            );
        }
        let head = st.remaining.remove(0);
        let v = match head {
            ast::Ast::VariableDefinition(v) => v,
            _ => {
                return Err(
                    Error::Other {
                        message: String::from_str("resumption does not match the pending state"),
                        doc_id: st.id,
                        line_number: 0,
                    },
                );
            },
        };
        let mut fname = String::from_str(module);
        fname.push('#');
        fname.append(variable);
        proof {
            reveal_strlit("#");
            assert(fname@ =~= module@ + "#"@ + variable@);
        }
        let ghost bag0 = bag_view(st.bag);
        let fthing = Thing::Variable(
            Variable {
                name: fname.clone(),
                kind: v.kind.clone(),
                mutable: false,
                value: PropertyValue::Value { value },
                line_number: v.line_number,
            },
        );
        st.bag.push((fname, fthing));
        let ghost vv = st0.remaining[0]->VariableDefinition_0;
        proof {
            assert(bag_view(st.bag) =~= bag0.push(
                (
                    module@ + "#"@ + variable@,
                    SpecThing::Variable(
                        SpecVariable {
                            name: module@ + "#"@ + variable@,
                            kind: vv.kind,
                            mutable: false,
                            value: SpecPropertyValue::Value { value: value@ },
                            line_number: vv.line_number,
                        },
                    ),
                ),
            ));
        }
        match variable_value(&v, st.id.as_str(), &st.aliases, &st.bag) {
            Err(e) => Err(e),
            Ok(pv) => {
                let name = resolve_name(v.name.as_str(), st.id.as_str(), &st.aliases);
                if bag_has(&st.bag, name.as_str()) {
                    return Err(
                        Error::DuplicateDefinition {
                            name,
                            doc_id: st.id,
                            line_number: v.line_number,
                        },
                    );
                }
                let ghost bag2 = bag_view(st.bag);
                let thing = Thing::Variable(
                    Variable {
                        name: name.clone(),
                        kind: v.kind,
                        mutable: v.mutable,
                        value: pv,
                        line_number: v.line_number,
                    },
                );
                st.bag.push((name, thing));
                proof {
                    assert(st@.remaining =~= st0.remaining.drop_first());
                    assert(st@ =~~= (SpecIState {
                        bag: bag2.push(
                            (
                                spec_resolve_name(vv.name, st0.id, st0.aliases),
                                SpecThing::Variable(
                                    SpecVariable {
                                        name: spec_resolve_name(vv.name, st0.id, st0.aliases),
                                        kind: vv.kind,
                                        mutable: vv.mutable,
                                        value: spec_variable_value(
                                            vv,
                                            st0.id,
                                            st0.aliases,
                                            bag2,
                                        )->Ok_0,
                                        line_number: vv.line_number,
                                    },
                                ),
                            ),
                        ),
                        remaining: st0.remaining.drop_first(),
                        ..st0
                    }));
                }
                run(st)
            },
        }
    }
}

} // verus!

verus! {

/// The character uppercased, for ASCII letters only.
pub open spec fn spec_upper_char(c: char) -> char {
    if 'a' <= c && c <= 'z' {
        ((c as u8) - 32) as char
    } else {
        c
    }
}

/// The string with its ASCII letters uppercased.
pub open spec fn spec_upper(s: Seq<char>) -> Seq<char> {
    s.map_values(|c: char| spec_upper_char(c))
}

/// Uppercases the ASCII letters of a string.
pub fn ascii_upper(s: &str) -> (r: String)
    ensures
        r@ == spec_upper(s@),
{
    let n = s.unicode_len();
    let mut r = String::new();
    let mut i: usize = 0;
    while i < n
        invariant
            0 <= i <= n == s@.len(),
            r@.len() == i,
            forall|k: int| 0 <= k < i ==> r@[k] == spec_upper_char(s@[k]),
        decreases n - i,
    {
        let c = s.get_char(i);
        let u = if 'a' <= c && c <= 'z' {
            ((c as u8) - 32) as char
        } else {
            c
        };
        r.push(u);
        i += 1;
    }
    proof {
        assert(r@ =~= spec_upper(s@));
    }
    r
}

/// The foreign-variable names the canned resolver reports for a module.
pub open spec fn spec_canned_fv(module: Seq<char>) -> Seq<Seq<char>> {
    if module == "test"@ {
        seq!["var"@]
    } else {
        Seq::empty()
    }
}

pub open spec fn spec_canned_ff(module: Seq<char>) -> Seq<Seq<char>> {
    if module == "test"@ {
        seq!["fn"@]
    } else {
        Seq::empty()
    }
}

/// Driving the machine with canned resolver answers: imports resolve to the
/// empty module, processors and foreign variables to uppercased names.
pub open spec fn spec_canned_drive(step: SpecIStep, fuel: int) -> Result<
    SpecDocument,
    SpecInterpreterError,
>
    decreases
            (if fuel > 0 {
                fuel
            } else {
                0
            }),
{
    match step {
        SpecIStep::Done(d) => Ok(d),
        SpecIStep::Fail(e) => Err(e),
        SpecIStep::Continue(st) => Err(
            SpecInterpreterError::Other {
                message: "interpreter did not progress"@,
                doc_id: st.id,
                line_number: 0,
            },
        ),
        SpecIStep::StuckImport { module, state } => {
            if fuel <= 0 {
                Err(
                    SpecInterpreterError::Other {
                        message: "resolver loop did not finish"@,
                        doc_id: state.id,
                        line_number: 0,
                    },
                )
            } else {
                spec_canned_drive(
                    spec_continue_import(
                        state,
                        module,
                        Seq::empty(),
                        spec_canned_fv(module),
                        spec_canned_ff(module),
                    ),
                    fuel - 1,
                )
            }
        },
        SpecIStep::StuckProcessor { module, ast, state } => {
            if fuel <= 0 {
                Err(
                    SpecInterpreterError::Other {
                        message: "resolver loop did not finish"@,
                        doc_id: state.id,
                        line_number: 0,
                    },
                )
            } else {
                let text = match ast.value {
                    Some(c) => c,
                    None => module,
                };
                spec_canned_drive(
                    spec_continue_processor(
                        state,
                        SpecValue::String { text: spec_upper(text) },
                    ),
                    fuel - 1,
                )
            }
        },
        SpecIStep::StuckForeign { module, variable, state } => {
            if fuel <= 0 {
                Err(
                    SpecInterpreterError::Other {
                        message: "resolver loop did not finish"@,
                        doc_id: state.id,
                        line_number: 0,
                    },
                )
            } else if module == "test"@ {
                spec_canned_drive(
                    spec_continue_variable(
                        state,
                        module,
                        variable,
                        SpecValue::String { text: spec_upper(variable) },
                    ),
                    fuel - 1,
                )
            } else {
                Err(
                    SpecInterpreterError::Other {
                        message: "unknown module: "@ + module,
                        doc_id: module,
                        line_number: 0,
                    },
                )
            }
        },
    }
}

/// Answers an import suspension with the canned resolver.
fn drive_import(module: String, state: InterpreterState) -> (r: Result<Interpreter, Error>)
    ensures
        match r {
            Ok(i) => spec_continue_import(
                state@,
                module@,
                Seq::empty(),
                spec_canned_fv(module@),
                spec_canned_ff(module@),
            ) == spec_step_of(i@) && spec_interp_rem(i@) < state@.remaining.len(),
            Err(e) => spec_continue_import(
                state@,
                module@,
                Seq::empty(),
                spec_canned_fv(module@),
                spec_canned_ff(module@),
            ) == SpecIStep::Fail(e@),
        },
{
    let mut fv: Vec<String> = Vec::new();
    let mut ff: Vec<String> = Vec::new();
    if crate::text::eq_str(module.as_str(), "test") {
        fv.push(String::from_str("var"));
        ff.push(String::from_str("fn"));
        proof {
            assert(fv@.map_values(|x: String| x@) =~= spec_canned_fv(module@));
            assert(ff@.map_values(|x: String| x@) =~= spec_canned_ff(module@));
        }
    } else {
        proof {
            assert(fv@.map_values(|x: String| x@) =~= spec_canned_fv(module@));
            assert(ff@.map_values(|x: String| x@) =~= spec_canned_ff(module@));
        }
    }
    proof {
        reveal_strlit("");
        assert(""@ =~= Seq::<char>::empty());
    }
    state.continue_after_import(module.as_str(), "", fv, ff)
}

/// Answers a processor suspension with the canned resolver.
fn drive_processor(module: String, ast: ast::VariableDef, state: InterpreterState) -> (r: Result<
    Interpreter,
    Error,
>)
    ensures
        match r {
            Ok(i) => spec_continue_processor(
                state@,
                SpecValue::String {
                    text: spec_upper(
                        match ast@.value {
                            Some(c) => c,
                            None => module@,
                        },
                    ),
                },
            ) == spec_step_of(i@) && spec_interp_rem(i@) < state@.remaining.len(),
            Err(e) => spec_continue_processor(
                state@,
                SpecValue::String {
                    text: spec_upper(
                        match ast@.value {
                            Some(c) => c,
                            None => module@,
                        },
                    ),
                },
            ) == SpecIStep::Fail(e@),
        },
{
    let text = match &ast.value {
        Some(c) => c.clone(),
        None => module,
    };
    let value = Value::String { text: ascii_upper(text.as_str()) };
    proof {
        assert(value@ =~~= (SpecValue::String {
            text: spec_upper(
                match ast@.value {
                    Some(c) => c,
                    None => module@,
                },
            ),
        }));
    }
    state.continue_after_processor(value)
}

/// Answers a foreign-variable suspension with the canned resolver.
fn drive_foreign(
    module: String,
    variable: String,
    state: InterpreterState,
) -> (r: Result<Interpreter, Error>)
    ensures
        match r {
            Ok(i) => spec_continue_variable(
                state@,
                module@,
                variable@,
                SpecValue::String { text: spec_upper(variable@) },
            ) == spec_step_of(i@) && spec_interp_rem(i@) < state@.remaining.len(),
            Err(e) => spec_continue_variable(
                state@,
                module@,
                variable@,
                SpecValue::String { text: spec_upper(variable@) },
            ) == SpecIStep::Fail(e@),
        },
{
    let value = Value::String { text: ascii_upper(variable.as_str()) };
    state.continue_after_variable(module.as_str(), variable.as_str(), value)
}

proof fn lemma_drive_import_step(module: Seq<char>, st: SpecIState, f: int)
    requires
        f >= 1,
    ensures
        spec_canned_drive(SpecIStep::StuckImport { module, state: st }, f) == spec_canned_drive(
            spec_continue_import(
                st,
                module,
                Seq::empty(),
                spec_canned_fv(module),
                spec_canned_ff(module),
            ),
            f - 1,
        ),
{
}

proof fn lemma_drive_processor_step(module: Seq<char>, a: ast::SpecVariableDef, st: SpecIState, f: int)
    requires
        f >= 1,
    ensures
        spec_canned_drive(SpecIStep::StuckProcessor { module, ast: a, state: st }, f)
            == spec_canned_drive(
            spec_continue_processor(
                st,
                SpecValue::String {
                    text: spec_upper(
                        match a.value {
                            Some(c) => c,
                            None => module,
                        },
                    ),
                },
            ),
            f - 1,
        ),
{
}

proof fn lemma_drive_foreign_step(module: Seq<char>, variable: Seq<char>, st: SpecIState, f: int)
    requires
        f >= 1,
        module == "test"@,
    ensures
        spec_canned_drive(SpecIStep::StuckForeign { module, variable, state: st }, f)
            == spec_canned_drive(
            spec_continue_variable(
                st,
                module,
                variable,
                SpecValue::String { text: spec_upper(variable) },
            ),
            f - 1,
        ),
{
}

proof fn lemma_drive_foreign_unknown(module: Seq<char>, variable: Seq<char>, st: SpecIState, f: int)
    requires
        f >= 1,
        module != "test"@,
    ensures
        spec_canned_drive(SpecIStep::StuckForeign { module, variable, state: st }, f)
            == Result::<SpecDocument, SpecInterpreterError>::Err(
            SpecInterpreterError::Other {
                message: "unknown module: "@ + module,
                doc_id: module,
                line_number: 0,
            },
        ),
{
}

proof fn lemma_drive_terminal(step: SpecIStep, f: int)
    ensures
        step matches SpecIStep::Done(d) ==> spec_canned_drive(step, f) == Result::<
            SpecDocument,
            SpecInterpreterError,
        >::Ok(d),
        step matches SpecIStep::Fail(e) ==> spec_canned_drive(step, f) == Result::<
            SpecDocument,
            SpecInterpreterError,
        >::Err(e),
{
}

/// How much work a step outcome still holds.
pub open spec fn spec_step_rem(step: SpecIStep) -> int {
    match step {
        SpecIStep::Done(_) => 0,
        SpecIStep::Fail(_) => 0,
        SpecIStep::Continue(st) => st.remaining.len() as int,
        SpecIStep::StuckImport { state, .. } => state.remaining.len() as int,
        SpecIStep::StuckProcessor { state, .. } => state.remaining.len() as int,
        SpecIStep::StuckForeign { state, .. } => state.remaining.len() as int,
    }
}

/// The canned drive at its sufficient fuel: every resumption consumes at
/// least one pending node, so one unit of fuel per node (plus one) always
/// reaches the outcome.
pub open spec fn spec_canned_outcome(step: SpecIStep) -> Result<
    SpecDocument,
    SpecInterpreterError,
> {
    spec_canned_drive(step, spec_step_rem(step) + 1)
}

/// Interprets a document to completion, answering every suspension with the
/// canned resolver: imports resolve to the empty module (`test` declaring the
/// foreign variable `var` and function `fn`), processors and foreign
/// variables produce their uppercased name or caption. The result is exactly
/// the canned drive of `spec_interpret` at its sufficient fuel.
#[verifier::loop_isolation(false)]
#[verifier::rlimit(100)]
pub fn interpret_helper(name: &str, source: &str) -> (r: Result<Document, Error>)
    ensures
        match r {
            Ok(d) => spec_canned_outcome(spec_interpret(name@, source@)) == Result::<
                SpecDocument,
                SpecInterpreterError,
            >::Ok(d@),
            Err(e) => spec_canned_outcome(spec_interpret(name@, source@)) == Result::<
                SpecDocument,
                SpecInterpreterError,
            >::Err(e@),
        },
{
    let ghost initial = spec_interpret(name@, source@);
    let mut s = match interpret(name, source) {
        Ok(s) => s,
        Err(e) => {
            proof {
                lemma_drive_terminal(initial, spec_step_rem(initial) + 1);
            }
            return Err(e);
        },
    };
    let ghost budget = spec_step_rem(initial) + 1;
    proof {
        assert(spec_step_rem(initial) == spec_interp_rem(s@));
    }
    let ghost mut steps: int = 0;
    loop
        invariant
            steps >= 0,
            steps + spec_interp_rem(s@) <= spec_step_rem(initial),
            forall|f: int|
                f >= 0 ==> spec_canned_drive(initial, f + steps) == #[trigger] spec_canned_drive(
                    spec_step_of(s@),
                    f,
                ),
        decreases spec_interp_rem(s@),
    {
        let ghost sv = s@;
        let ghost old_rem = spec_interp_rem(sv);
        let outcome: Result<Interpreter, Error> = match s {
            Interpreter::Done { document } => {
                proof {
                    let f = budget - steps;
                    assert(f >= 1);
                    lemma_drive_terminal(spec_step_of(sv), f);
                    assert(spec_canned_drive(initial, f + steps) == Result::<
                        SpecDocument,
                        SpecInterpreterError,
                    >::Ok(document@));
                    assert(f + steps == budget);
                }
                return Ok(document);
            },
            Interpreter::StuckOnImport { module, state } => {
                let ghost mv = module@;
                let ghost stv = state@;
                proof {
                    assert(sv == (SpecInterpreter::StuckOnImport { module: mv, state: stv }));
                }
                match drive_import(module, state) {
                    Ok(s2) => Ok(s2),
                    Err(e) => {
                        proof {
                            let f = budget - steps;
                            assert(f >= 1);
                            lemma_drive_import_step(mv, stv, f);
                            lemma_drive_terminal(
                                spec_continue_import(
                                    stv,
                                    mv,
                                    Seq::empty(),
                                    spec_canned_fv(mv),
                                    spec_canned_ff(mv),
                                ),
                                f - 1,
                            );
                            assert(spec_canned_drive(spec_step_of(sv), f) == Result::<
                                SpecDocument,
                                SpecInterpreterError,
                            >::Err(e@));
                            assert(spec_canned_drive(initial, f + steps) == Result::<
                                SpecDocument,
                                SpecInterpreterError,
                            >::Err(e@));
                            assert(f + steps == budget);
                        }
                        return Err(e);
                    },
                }
            },
            Interpreter::StuckOnProcessor { module, ast, state } => {
                let ghost mv = module@;
                let ghost av = ast@;
                let ghost stv = state@;
                proof {
                    assert(sv == (SpecInterpreter::StuckOnProcessor {
                        module: mv,
                        ast: av,
                        state: stv,
                    }));
                }
                match drive_processor(module, ast, state) {
                    Ok(s2) => Ok(s2),
                    Err(e) => {
                        proof {
                            let f = budget - steps;
                            assert(f >= 1);
                            lemma_drive_processor_step(mv, av, stv, f);
                            lemma_drive_terminal(
                                spec_continue_processor(
                                    stv,
                                    SpecValue::String {
                                        text: spec_upper(
                                            match av.value {
                                                Some(c) => c,
                                                None => mv,
                                            },
                                        ),
                                    },
                                ),
                                f - 1,
                            );
                            assert(spec_canned_drive(spec_step_of(sv), f) == Result::<
                                SpecDocument,
                                SpecInterpreterError,
                            >::Err(e@));
                            assert(spec_canned_drive(initial, f + steps) == Result::<
                                SpecDocument,
                                SpecInterpreterError,
                            >::Err(e@));
                            assert(f + steps == budget);
                        }
                        return Err(e);
                    },
                }
            },
            Interpreter::StuckOnForeignVariable { module, variable, state } => {
                if crate::text::eq_str(module.as_str(), "test") {
                    let ghost mv = module@;
                    let ghost vv = variable@;
                    let ghost stv = state@;
                    proof {
                        assert(sv == (SpecInterpreter::StuckOnForeignVariable {
                            module: mv,
                            variable: vv,
                            state: stv,
                        }));
                    }
                    match drive_foreign(module, variable, state) {
                        Ok(s2) => Ok(s2),
                        Err(e) => {
                            proof {
                                let f = budget - steps;
                                assert(f >= 1);
                                lemma_drive_foreign_step(mv, vv, stv, f);
                                lemma_drive_terminal(
                                    spec_continue_variable(
                                        stv,
                                        mv,
                                        vv,
                                        SpecValue::String { text: spec_upper(vv) },
                                    ),
                                    f - 1,
                                );
                                assert(spec_canned_drive(spec_step_of(sv), f) == Result::<
                                    SpecDocument,
                                    SpecInterpreterError,
                                >::Err(e@));
                                assert(spec_canned_drive(initial, f + steps) == Result::<
                                    SpecDocument,
                                    SpecInterpreterError,
                                >::Err(e@));
                                assert(f + steps == budget);
                            }
                            return Err(e);
                        },
                    }
                } else {
                    let mut message = String::from_str("unknown module: ");
                    message.append(module.as_str());
                    let e = Error::Other { message, doc_id: module, line_number: 0 };
                    proof {
                        let f = budget - steps;
                        assert(f >= 1);
                        lemma_drive_foreign_unknown(
                            sv->StuckOnForeignVariable_module,
                            sv->StuckOnForeignVariable_variable,
                            sv->StuckOnForeignVariable_state,
                            f,
                        );
                        assert(spec_canned_drive(spec_step_of(sv), f) == Result::<
                            SpecDocument,
                            SpecInterpreterError,
                        >::Err(e@));
                        assert(spec_canned_drive(initial, f + steps) == Result::<
                            SpecDocument,
                            SpecInterpreterError,
                        >::Err(e@));
                        assert(f + steps == budget);
                    }
                    return Err(e);
                }
            },
        };
        match outcome {
            Ok(s2) => {
                proof {
                    assert forall|f: int| f >= 0 implies spec_canned_drive(
                        initial,
                        f + (steps + 1),
                    ) == #[trigger] spec_canned_drive(spec_step_of(s2@), f) by {
                        assert(spec_canned_drive(initial, (f + 1) + steps) == spec_canned_drive(
                            spec_step_of(sv),
                            f + 1,
                        ));
                        match sv {
                            SpecInterpreter::StuckOnImport { module, state } => {
                                lemma_drive_import_step(module, state, f + 1);
                            },
                            SpecInterpreter::StuckOnProcessor { module, ast, state } => {
                                lemma_drive_processor_step(module, ast, state, f + 1);
                            },
                            SpecInterpreter::StuckOnForeignVariable {
                                module,
                                variable,
                                state,
                            } => {
                                lemma_drive_foreign_step(module, variable, state, f + 1);
                            },
                            _ => {},
                        }
                        assert(spec_canned_drive(spec_step_of(sv), f + 1) == spec_canned_drive(
                            spec_step_of(s2@),
                            f,
                        ));
                    }
                    steps = steps + 1;
                    assert(spec_interp_rem(s2@) < old_rem);
                }
                s = s2;
            },
            Err(e) => {
                return Err(e);
            },
        }
    }
}

} // verus!
