//! The executor: expands the interpreted root component tree into a tree of
//! concrete styled render nodes, inlining arguments, evaluating statically
//! known visibility conditions, and expanding loops. A loop over a reactive
//! source becomes a single dummy node carrying its unresolved properties.
use crate::interpreter::{
    Argument, Component, ComponentDefinition, Event, Property, RefOrValue, SpecArgument,
    SpecComponent, SpecEvent, SpecProperty, SpecRefOrValue, SpecThing, SpecValue, Thing, Value,
};
use vstd::prelude::*;

verus! {

broadcast use vstd::std_specs::vec::axiom_vec_index_decreases;

/// Render-stage diagnostics.
#[derive(Debug)]
pub enum Error {
    Interpreter(crate::interpreter::Error),
    UnresolvedComponent { name: String, doc_id: String, line_number: usize },
    BindingFailure { argument: String, component: String, doc_id: String, line_number: usize },
    ParseError { message: String, doc_id: String, line_number: usize },
}

#[verifier::ext_equal]
pub enum SpecExecutorError {
    Interpreter(crate::interpreter::SpecInterpreterError),
    UnresolvedComponent { name: Seq<char>, doc_id: Seq<char>, line_number: int },
    BindingFailure {
        argument: Seq<char>,
        component: Seq<char>,
        doc_id: Seq<char>,
        line_number: int,
    },
    ParseError { message: Seq<char>, doc_id: Seq<char>, line_number: int },
}

impl View for Error {
    type V = SpecExecutorError;

    open spec fn view(&self) -> SpecExecutorError {
        match self {
            Error::Interpreter(e) => SpecExecutorError::Interpreter(e@),
            Error::UnresolvedComponent { name, doc_id, line_number } => {
                SpecExecutorError::UnresolvedComponent {
                    name: name@,
                    doc_id: doc_id@,
                    line_number: *line_number as int,
                }
            },
            Error::BindingFailure { argument, component, doc_id, line_number } => {
                SpecExecutorError::BindingFailure {
                    argument: argument@,
                    component: component@,
                    doc_id: doc_id@,
                    line_number: *line_number as int,
                }
            },
            Error::ParseError { message, doc_id, line_number } => SpecExecutorError::ParseError {
                message: message@,
                doc_id: doc_id@,
                line_number: *line_number as int,
            },
        }
    }
}

/// Whether a declared kind is a list kind (`... list`).
pub open spec fn spec_is_list_kind(k: Seq<char>) -> bool {
    k.len() >= 5 && k.skip(k.len() - 5) == " list"@
}

/// Whether a declared kind is optional (`optional ...`).
pub open spec fn spec_is_optional_kind(k: Seq<char>) -> bool {
    k.len() >= 9 && k.take(9) == "optional "@
}

/// Tests for a list kind.
pub fn is_list_kind(k: &str) -> (r: bool)
    ensures
        r == spec_is_list_kind(k@),
{
    let n = k.unicode_len();
    if n < 5 {
        proof {
            reveal_strlit(" list");
        }
        return false;
    }
    let tail = k.substring_char(n - 5, n);
    let r = crate::text::eq_str(tail, " list");
    proof {
        reveal_strlit(" list");
        assert(tail@ =~= k@.skip(k@.len() - 5));
    }
    r
}

/// Tests for an optional kind.
pub fn is_optional_kind(k: &str) -> (r: bool)
    ensures
        r == spec_is_optional_kind(k@),
{
    let n = k.unicode_len();
    if n < 9 {
        proof {
            reveal_strlit("optional ");
        }
        return false;
    }
    let head = k.substring_char(0, 9);
    let r = crate::text::eq_str(head, "optional ");
    proof {
        reveal_strlit("optional ");
        assert(head@ =~= k@.take(9));
    }
    r
}

/// The first property whose source names the argument.
pub open spec fn spec_find_property(ps: Seq<SpecProperty>, name: Seq<char>) -> Option<SpecProperty>
    decreases ps.len(),
{
    if ps.len() == 0 {
        None
    } else if ps[0].source == name {
        Some(ps[0])
    } else {
        spec_find_property(ps.drop_first(), name)
    }
}

/// What binding one declared argument against the call site yields: the
/// property's value, the declared default, a kind-based default (lists default
/// to empty, optionals to absent), or a binding failure naming the argument
/// and the component.
pub open spec fn spec_bind_argument(
    arg: SpecArgument,
    ps: Seq<SpecProperty>,
    component: Seq<char>,
    doc: Seq<char>,
    ln: int,
) -> Result<SpecRefOrValue, SpecExecutorError> {
    match spec_find_property(ps, arg.name) {
        Some(p) => Ok(p.value),
        None => match arg.value {
            Some(d) => Ok(d),
            None => {
                if spec_is_list_kind(arg.kind) {
                    Ok(
                        SpecRefOrValue::Value {
                            value: SpecValue::List { data: Seq::empty(), kind: arg.kind },
                        },
                    )
                } else if spec_is_optional_kind(arg.kind) {
                    Ok(
                        SpecRefOrValue::Value {
                            value: SpecValue::Optional { data: None, kind: arg.kind },
                        },
                    )
                } else {
                    Err(
                        SpecExecutorError::BindingFailure {
                            argument: arg.name,
                            component,
                            doc_id: doc,
                            line_number: ln,
                        },
                    )
                }
            },
        },
    }
}

/// All arguments bound in declaration order.
pub open spec fn spec_bind_arguments(
    args: Seq<SpecArgument>,
    ps: Seq<SpecProperty>,
    component: Seq<char>,
    doc: Seq<char>,
    ln: int,
) -> Result<Seq<(Seq<char>, SpecRefOrValue)>, SpecExecutorError>
    decreases args.len(),
{
    if args.len() == 0 {
        Ok(Seq::empty())
    } else {
        match spec_bind_argument(args[0], ps, component, doc, ln) {
            Err(e) => Err(e),
            Ok(v) => match spec_bind_arguments(args.drop_first(), ps, component, doc, ln) {
                Err(e) => Err(e),
                Ok(rest) => Ok(seq![(args[0].name, v)] + rest),
            },
        }
    }
}

/// Copies a value or reference.
pub fn clone_rov(v: &RefOrValue) -> (r: RefOrValue)
    ensures
        r@ == v@,
{
    match v {
        RefOrValue::Reference { name } => RefOrValue::Reference { name: name.clone() },
        RefOrValue::Value { value } => RefOrValue::Value { value: clone_value(value) },
    }
}

/// Copies a concrete value.
pub fn clone_value(v: &Value) -> (r: Value)
    ensures
        r@ == v@,
    decreases *v, 0int, 0int,
{
    match v {
        Value::String { text } => Value::String { text: text.clone() },
        Value::Integer { value } => Value::Integer { value: *value },
        Value::Boolean { value } => Value::Boolean { value: *value },
        Value::Optional { data, kind } => {
            let d: Option<Box<Value>> = match data {
                Some(b) => Some(Box::new(clone_value(&*b))),
                None => None,
            };
            let r = Value::Optional { data: d, kind: kind.clone() };
            proof {
                assert(r@ =~~= v@);
            }
            r
        },
        Value::List { data, kind } => {
            let out = clone_values(data, 0);
            let r = Value::List { data: out, kind: kind.clone() };
            proof {
                crate::interpreter::lemma_values_view(*data, data@.len() as int);
                crate::interpreter::lemma_values_view(r->List_data, r->List_data@.len() as int);
                assert(crate::interpreter::values_view(r->List_data, r->List_data@.len() as int)
                    =~= crate::interpreter::values_view(*data, data@.len() as int));
                assert(r@ =~~= v@);
            }
            r
        },
        Value::Record { name, fields } => {
            let out = clone_value_fields(fields, 0);
            let r = Value::Record { name: name.clone(), fields: out };
            proof {
                lemma_value_fields_local(*fields, fields@.len() as int);
                lemma_value_fields_local(r->Record_fields, r->Record_fields@.len() as int);
                assert(crate::interpreter::value_fields_view(
                    r->Record_fields,
                    r->Record_fields@.len() as int,
                ) =~= crate::interpreter::value_fields_view(*fields, fields@.len() as int));
                assert(r@ =~~= v@);
            }
            r
        },
        Value::OrType { name, variant, value } => {
            let r = Value::OrType {
                name: name.clone(),
                variant: variant.clone(),
                value: Box::new(clone_value(&*value)),
            };
            proof {
                assert(r@ =~~= v@);
            }
            r
        },
    }
}

/// Copies the values from position `i` on.
fn clone_values(data: &Vec<Value>, i: usize) -> (r: Vec<Value>)
    requires
        i <= data@.len(),
    ensures
        r@.len() == data@.len() - i,
        forall|k: int| 0 <= k < r@.len() ==> #[trigger] r@[k]@ == data[i + k]@,
    decreases *data, 1int, data@.len() - i,
{
    if i == data.len() {
        Vec::new()
    } else {
        let first = clone_value(&data[i]);
        let mut out = clone_values(data, i + 1);
        let ghost rest = out@;
        out.insert(0, first);
        proof {
            assert forall|k: int| 0 <= k < out@.len() implies #[trigger] out@[k]@ == data[i + k]@
            by {
                if k > 0 {
                    assert(out@[k] == rest[k - 1]);
                    assert(rest[k - 1]@ == data[i + 1 + (k - 1)]@);
                }
            }
        }
        out
    }
}

/// Copies named value fields from position `i` on.
fn clone_value_fields(fields: &Vec<(String, Value)>, i: usize) -> (r: Vec<(String, Value)>)
    requires
        i <= fields@.len(),
    ensures
        r@.len() == fields@.len() - i,
        forall|k: int|
            0 <= k < r@.len() ==> (#[trigger] r@[k]).0@ == fields[i + k].0@ && r@[k].1@ == fields[
                i + k
            ].1@,
    decreases *fields, 1int, fields@.len() - i,
{
    if i == fields.len() {
        Vec::new()
    } else {
        let first = (fields[i].0.clone(), clone_value(&fields[i].1));
        let mut out = clone_value_fields(fields, i + 1);
        let ghost rest = out@;
        out.insert(0, first);
        proof {
            assert forall|k: int| 0 <= k < out@.len() implies (#[trigger] out@[k]).0@ == fields[
                i + k
            ].0@ && out@[k].1@ == fields[i + k].1@ by {
                if k > 0 {
                    assert(out@[k] == rest[k - 1]);
                    assert(rest[k - 1].0@ == fields[i + 1 + (k - 1)].0@);
                    assert(rest[k - 1].1@ == fields[i + 1 + (k - 1)].1@);
                }
            }
        }
        out
    }
}

proof fn lemma_value_fields_local(v: Vec<(String, Value)>, k: int)
    requires
        0 <= k <= v@.len(),
    ensures
        crate::interpreter::value_fields_view(v, k).len() == k,
        forall|i: int|
            0 <= i < k ==> #[trigger] crate::interpreter::value_fields_view(v, k)[i] == (
                v[i].0@,
                v[i].1@,
            ),
    decreases k,
{
    if k > 0 {
        lemma_value_fields_local(v, k - 1);
        assert(crate::interpreter::value_fields_view(v, k)
            == crate::interpreter::value_fields_view(v, k - 1).push(
            (v[k - 1].0@, crate::interpreter::value_view(v[k - 1].1)),
        ));
    } else {
        assert(crate::interpreter::value_fields_view(v, k) == Seq::<
            (Seq<char>, SpecValue),
        >::empty());
    }
}

/// Binds the declared arguments of a component against the properties of one
/// call site.
pub fn bind_arguments(
    args: &Vec<Argument>,
    ps: &Vec<Property>,
    component: &str,
    doc_id: &str,
    ln: usize,
) -> (r: Result<Vec<(String, RefOrValue)>, Error>)
    ensures
        match r {
            Ok(bs) => spec_bind_arguments(
                args@.map_values(|a: Argument| a@),
                ps@.map_values(|p: Property| p@),
                component@,
                doc_id@,
                ln as int,
            ) == Result::<Seq<(Seq<char>, SpecRefOrValue)>, SpecExecutorError>::Ok(
                bs@.map_values(|b: (String, RefOrValue)| (b.0@, b.1@)),
            ),
            Err(e) => spec_bind_arguments(
                args@.map_values(|a: Argument| a@),
                ps@.map_values(|p: Property| p@),
                component@,
                doc_id@,
                ln as int,
            ) == Result::<Seq<(Seq<char>, SpecRefOrValue)>, SpecExecutorError>::Err(e@),
        },
{
    let ghost av = args@.map_values(|a: Argument| a@);
    let ghost pv = ps@.map_values(|p: Property| p@);
    proof {
        assert(av.skip(0) =~= av);
    }
    let mut out: Vec<(String, RefOrValue)> = Vec::new();
    let n = args.len();
    proof {
        if spec_bind_arguments(av, pv, component@, doc_id@, ln as int) is Ok {
            assert(spec_bind_arguments(av, pv, component@, doc_id@, ln as int)->Ok_0
                =~= out@.map_values(|b: (String, RefOrValue)| (b.0@, b.1@)) + spec_bind_arguments(
                av,
                pv,
                component@,
                doc_id@,
                ln as int,
            )->Ok_0);
        }
    }
    let mut i: usize = 0;
    while i < n
        invariant
            0 <= i <= n == args@.len(),
            av == args@.map_values(|a: Argument| a@),
            pv == ps@.map_values(|p: Property| p@),
            av.len() == n,
            spec_bind_arguments(av, pv, component@, doc_id@, ln as int) matches Ok(all) ==> {
                &&& spec_bind_arguments(av.skip(i as int), pv, component@, doc_id@, ln as int)
                    matches Ok(rest)
                &&& all =~= out@.map_values(|b: (String, RefOrValue)| (b.0@, b.1@)) + rest
            },
            spec_bind_arguments(av, pv, component@, doc_id@, ln as int) matches Err(e)
                ==> spec_bind_arguments(av.skip(i as int), pv, component@, doc_id@, ln as int)
                == Result::<Seq<(Seq<char>, SpecRefOrValue)>, SpecExecutorError>::Err(e),
        decreases n - i,
    {
        proof {
            assert(av.skip(i as int)[0] == av[i as int]);
            assert(av[i as int] == args[i as int]@);
            assert(av.skip(i as int).drop_first() =~= av.skip(i + 1));
        }
        match bind_argument(&args[i], ps, component, doc_id, ln) {
            Err(e) => {
                return Err(e);
            },
            Ok(v) => {
                let ghost out0 = out@.map_values(|b: (String, RefOrValue)| (b.0@, b.1@));
                out.push((args[i].name.clone(), v));
                proof {
                    assert(out@.map_values(|b: (String, RefOrValue)| (b.0@, b.1@)) =~= out0.push(
                        (av[i as int].name, spec_bind_argument(
                            av[i as int],
                            pv,
                            component@,
                            doc_id@,
                            ln as int,
                        )->Ok_0),
                    ));
                    if spec_bind_arguments(av, pv, component@, doc_id@, ln as int) is Ok {
                        assert(out0.push(
                            (av[i as int].name, spec_bind_argument(
                                av[i as int],
                                pv,
                                component@,
                                doc_id@,
                                ln as int,
                            )->Ok_0),
                        ) + spec_bind_arguments(
                            av.skip(i + 1),
                            pv,
                            component@,
                            doc_id@,
                            ln as int,
                        )->Ok_0 =~= out0 + (seq![
                            (av[i as int].name, spec_bind_argument(
                                av[i as int],
                                pv,
                                component@,
                                doc_id@,
                                ln as int,
                            )->Ok_0),
                        ] + spec_bind_arguments(
                            av.skip(i + 1),
                            pv,
                            component@,
                            doc_id@,
                            ln as int,
                        )->Ok_0));
                    }
                }
            },
        }
        i += 1;
    }
    proof {
        assert(av.skip(n as int) =~= Seq::<SpecArgument>::empty());
        if spec_bind_arguments(av, pv, component@, doc_id@, ln as int) is Ok {
            assert(spec_bind_arguments(av, pv, component@, doc_id@, ln as int)->Ok_0
                =~= out@.map_values(|b: (String, RefOrValue)| (b.0@, b.1@)));
        }
    }
    Ok(out)
}

/// Binds one declared argument.
pub fn bind_argument(
    arg: &Argument,
    ps: &Vec<Property>,
    component: &str,
    doc_id: &str,
    ln: usize,
) -> (r: Result<RefOrValue, Error>)
    ensures
        match r {
            Ok(v) => spec_bind_argument(
                arg@,
                ps@.map_values(|p: Property| p@),
                component@,
                doc_id@,
                ln as int,
            ) == Result::<SpecRefOrValue, SpecExecutorError>::Ok(v@),
            Err(e) => spec_bind_argument(
                arg@,
                ps@.map_values(|p: Property| p@),
                component@,
                doc_id@,
                ln as int,
            ) == Result::<SpecRefOrValue, SpecExecutorError>::Err(e@),
        },
{
    let ghost pv = ps@.map_values(|p: Property| p@);
    proof {
        assert(pv.skip(0) =~= pv);
    }
    let n = ps.len();
    let mut i: usize = 0;
    while i < n
        invariant
            0 <= i <= n == ps@.len(),
            pv == ps@.map_values(|p: Property| p@),
            pv.len() == n,
            spec_find_property(pv, arg@.name) == spec_find_property(
                pv.skip(i as int),
                arg@.name,
            ),
        decreases n - i,
    {
        proof {
            assert(pv.skip(i as int)[0] == pv[i as int]);
            assert(pv[i as int] == ps[i as int]@);
            assert(pv.skip(i as int).drop_first() =~= pv.skip(i + 1));
        }
        if crate::text::eq_str(ps[i].source.as_str(), arg.name.as_str()) {
            return Ok(clone_rov(&ps[i].value));
        }
        i += 1;
    }
    proof {
        assert(pv.skip(n as int) =~= Seq::<SpecProperty>::empty());
    }
    match &arg.value {
        Some(d) => Ok(clone_rov(d)),
        None => {
            if is_list_kind(arg.kind.as_str()) {
                let v = RefOrValue::Value {
                    value: Value::List { data: Vec::new(), kind: arg.kind.clone() },
                };
                proof {
                    assert(crate::interpreter::values_view(
                        v->Value_value->List_data,
                        v->Value_value->List_data@.len() as int,
                    ) =~= Seq::<SpecValue>::empty());
                    assert(v@ =~~= spec_bind_argument(
                        arg@,
                        pv,
                        component@,
                        doc_id@,
                        ln as int,
                    )->Ok_0);
                }
                Ok(v)
            } else if is_optional_kind(arg.kind.as_str()) {
                let v = RefOrValue::Value {
                    value: Value::Optional { data: None, kind: arg.kind.clone() },
                };
                proof {
                    assert(v@ =~~= spec_bind_argument(
                        arg@,
                        pv,
                        component@,
                        doc_id@,
                        ln as int,
                    )->Ok_0);
                }
                Ok(v)
            } else {
                Err(
                    Error::BindingFailure {
                        argument: arg.name.clone(),
                        component: String::from_str(component),
                        doc_id: String::from_str(doc_id),
                        line_number: ln,
                    },
                )
            }
        },
    }
}

} // verus!

verus! {

/// A concrete render node. A node marked `dummy` (via `raw_data`) carries an
/// unresolved property list instead of resolved content; a `null` node
/// contributes nothing to the output.
pub struct Node {
    pub node: String,
    pub data_id: String,
    pub attrs: Vec<(String, Option<String>)>,
    pub style: Vec<(String, Option<String>)>,
    pub classes: Vec<String>,
    pub text: Option<String>,
    pub visible: bool,
    pub events: Vec<Event>,
    pub children: Vec<Node>,
    pub null: bool,
    pub raw_data: Option<RawNodeData>,
    pub web_component: Option<WebComponent>,
}

/// The deferred payload of a dummy node.
pub struct RawNodeData {
    pub properties: Vec<Property>,
    pub iteration: Option<crate::interpreter::Loop>,
}

/// The reactive wiring of a web component: each property reads one variable
/// through the page's mutable or immutable value registry.
pub struct WebComponent {
    pub properties: Vec<(String, WebRef)>,
}

/// One wired reference of a web component.
pub struct WebRef {
    pub reference: String,
    pub mutable: bool,
}

#[verifier::ext_equal]
pub struct SpecRawNodeData {
    pub properties: Seq<SpecProperty>,
    pub iteration: Option<crate::interpreter::SpecLoop>,
}

#[verifier::ext_equal]
pub struct SpecWebRef {
    pub reference: Seq<char>,
    pub mutable: bool,
}

#[verifier::ext_equal]
pub struct SpecWebComponent {
    pub properties: Seq<(Seq<char>, SpecWebRef)>,
}

impl View for WebRef {
    type V = SpecWebRef;

    open spec fn view(&self) -> SpecWebRef {
        SpecWebRef { reference: self.reference@, mutable: self.mutable }
    }
}

impl View for WebComponent {
    type V = SpecWebComponent;

    open spec fn view(&self) -> SpecWebComponent {
        SpecWebComponent {
            properties: self.properties@.map_values(|p: (String, WebRef)| (p.0@, p.1@)),
        }
    }
}

impl View for RawNodeData {
    type V = SpecRawNodeData;

    open spec fn view(&self) -> SpecRawNodeData {
        SpecRawNodeData {
            properties: self.properties@.map_values(|p: Property| p@),
            iteration: match self.iteration {
                Some(l) => Some(l@),
                None => None,
            },
        }
    }
}

#[verifier::ext_equal]
pub struct SpecNode {
    pub node: Seq<char>,
    pub data_id: Seq<char>,
    pub attrs: Seq<(Seq<char>, Option<Seq<char>>)>,
    pub style: Seq<(Seq<char>, Option<Seq<char>>)>,
    pub classes: Seq<Seq<char>>,
    pub text: Option<Seq<char>>,
    pub visible: bool,
    pub events: Seq<SpecEvent>,
    pub children: Seq<SpecNode>,
    pub null: bool,
    pub raw_data: Option<SpecRawNodeData>,
    pub web_component: Option<SpecWebComponent>,
}

pub open spec fn opt_sv(o: Option<String>) -> Option<Seq<char>> {
    match o {
        Some(s) => Some(s@),
        None => None,
    }
}

pub open spec fn nodes_view(v: Vec<Node>, k: int) -> Seq<SpecNode>
    decreases v, k,
{
    if k <= 0 || k > v@.len() {
        Seq::empty()
    } else {
        nodes_view(v, k - 1).push(v[k - 1].view())
    }
}

impl View for Node {
    type V = SpecNode;

    open spec fn view(&self) -> SpecNode
        decreases self,
    {
        SpecNode {
            node: self.node@,
            data_id: self.data_id@,
            attrs: self.attrs@.map_values(|p: (String, Option<String>)| (p.0@, opt_sv(p.1))),
            style: self.style@.map_values(|p: (String, Option<String>)| (p.0@, opt_sv(p.1))),
            classes: self.classes@.map_values(|c: String| c@),
            text: opt_sv(self.text),
            visible: self.visible,
            events: self.events@.map_values(|e: Event| e@),
            children: nodes_view(self.children, self.children@.len() as int),
            null: self.null,
            raw_data: match self.raw_data {
                Some(r) => Some(r@),
                None => None,
            },
            web_component: match self.web_component {
                Some(w) => Some(w@),
                None => None,
            },
        }
    }
}

pub proof fn lemma_nodes_view(v: Vec<Node>, k: int)
    requires
        0 <= k <= v@.len(),
    ensures
        nodes_view(v, k).len() == k,
        forall|i: int| 0 <= i < k ==> nodes_view(v, k)[i] == v[i]@,
    decreases k,
{
    if k > 0 {
        lemma_nodes_view(v, k - 1);
        assert(nodes_view(v, k) == nodes_view(v, k - 1).push(v[k - 1].view()));
    } else {
        assert(nodes_view(v, k) == Seq::<SpecNode>::empty());
    }
}

/// The view of a node list.
pub open spec fn all_nodes_view(v: Vec<Node>) -> Seq<SpecNode> {
    nodes_view(v, v@.len() as int)
}

impl Node {
    /// Whether the node contributes nothing to the rendered output.
    pub fn is_null(&self) -> (r: bool)
        ensures
            r == self@.null,
    {
        self.null
    }
}

/// Structural soundness of a render node: a null node carries no content,
/// and every child is itself well formed.
pub open spec fn wf_node(n: SpecNode) -> bool
    decreases n,
{
    &&& (n.null ==> n.children.len() == 0 && n.text is None && n.events.len() == 0)
    &&& (forall|k: int| 0 <= k < n.children.len() ==> wf_node(#[trigger] n.children[k]))
}

pub open spec fn wf_nodes(ns: Seq<SpecNode>) -> bool {
    forall|k: int| 0 <= k < ns.len() ==> wf_node(#[trigger] ns[k])
}

/// The view of an argument-binding environment.
pub open spec fn bindings_view(v: Vec<(String, RefOrValue)>) -> Seq<(Seq<char>, SpecRefOrValue)> {
    v@.map_values(|b: (String, RefOrValue)| (b.0@, b.1@))
}

/// The thing the bag holds under a name, earliest entry first.
pub open spec fn spec_bag_thing(
    bag: Seq<(Seq<char>, SpecThing)>,
    name: Seq<char>,
) -> Option<SpecThing> {
    let i = crate::interpreter::spec_bag_idx(bag, name);
    if i < 0 {
        None
    } else {
        Some(bag[i].1)
    }
}

/// The binding of a name in the environment, earliest entry first.
pub open spec fn spec_binding_get(
    bs: Seq<(Seq<char>, SpecRefOrValue)>,
    name: Seq<char>,
) -> Option<SpecRefOrValue>
    decreases bs.len(),
{
    if bs.len() == 0 {
        None
    } else if bs[0].0 == name {
        Some(bs[0].1)
    } else {
        spec_binding_get(bs.drop_first(), name)
    }
}

/// Looks a thing up in the bag.
fn bag_get<'a>(bag: &'a Vec<(String, Thing)>, name: &str) -> (r: Option<&'a Thing>)
    ensures
        match r {
            Some(t) => spec_bag_thing(crate::interpreter::bag_view(*bag), name@) == Some(t@),
            None => spec_bag_thing(crate::interpreter::bag_view(*bag), name@) is None,
        },
{
    let ghost bv = crate::interpreter::bag_view(*bag);
    proof {
        crate::interpreter::lemma_bag_idx(bv, name@);
    }
    let n = bag.len();
    let mut i: usize = 0;
    while i < n
        invariant
            0 <= i <= n == bag@.len(),
            bv == crate::interpreter::bag_view(*bag),
            bv.len() == n,
            forall|k: int| 0 <= k < i ==> bv[k].0 != name@,
            crate::interpreter::spec_bag_idx(bv, name@) >= 0 ==> 0 <= crate::interpreter::spec_bag_idx(
                bv,
                name@,
            ) < n && bv[crate::interpreter::spec_bag_idx(bv, name@)].0 == name@,
            crate::interpreter::spec_bag_idx(bv, name@) >= 0 ==> forall|k: int|
                0 <= k < crate::interpreter::spec_bag_idx(bv, name@) ==> bv[k].0 != name@,
            crate::interpreter::spec_bag_idx(bv, name@) < 0 ==> forall|k: int|
                0 <= k < n ==> bv[k].0 != name@,
        decreases n - i,
    {
        proof {
            assert(bv[i as int] == (bag@[i as int].0@, bag@[i as int].1@));
        }
        if crate::text::eq_str(bag[i].0.as_str(), name) {
            proof {
                assert(crate::interpreter::spec_bag_idx(bv, name@) == i as int);
            }
            return Some(&bag[i].1);
        }
        i += 1;
    }
    None
}

/// Finds a binding by name.
fn binding_get<'a>(bindings: &'a Vec<(String, RefOrValue)>, name: &str) -> (r: Option<
    &'a RefOrValue,
>)
    ensures
        match r {
            Some(v) => spec_binding_get(bindings_view(*bindings), name@) == Some(v@),
            None => spec_binding_get(bindings_view(*bindings), name@) is None,
        },
{
    let ghost bv = bindings_view(*bindings);
    proof {
        assert(bv.skip(0) =~= bv);
    }
    let n = bindings.len();
    let mut i: usize = 0;
    while i < n
        invariant
            0 <= i <= n == bindings@.len(),
            bv == bindings_view(*bindings),
            bv.len() == n,
            spec_binding_get(bv.skip(i as int), name@) == spec_binding_get(bv, name@),
        decreases n - i,
    {
        proof {
            assert(bv.skip(i as int)[0] == bv[i as int]);
            assert(bv[i as int] == (bindings@[i as int].0@, bindings@[i as int].1@));
            assert(bv.skip(i as int).drop_first() =~= bv.skip(i + 1));
        }
        if crate::text::eq_str(bindings[i].0.as_str(), name) {
            return Some(&bindings[i].1);
        }
        i += 1;
    }
    proof {
        assert(bv.skip(n as int) =~= Seq::<(Seq<char>, SpecRefOrValue)>::empty());
    }
    None
}

/// The text a scalar value renders as.
pub open spec fn spec_value_text(v: SpecValue) -> Option<Seq<char>> {
    match v {
        SpecValue::String { text } => Some(text),
        SpecValue::Integer { value } => Some(crate::text::spec_i64_str(value)),
        SpecValue::Boolean { value } => Some(
            if value {
                "true"@
            } else {
                "false"@
            },
        ),
        _ => None,
    }
}

/// The element text a bound value resolves to, following one level of
/// reference into the current bindings.
pub open spec fn spec_resolve_text(
    v: SpecRefOrValue,
    bs: Seq<(Seq<char>, SpecRefOrValue)>,
) -> Option<Seq<char>> {
    match v {
        SpecRefOrValue::Value { value } => spec_value_text(value),
        SpecRefOrValue::Reference { name } => match spec_binding_get(bs, name) {
            Some(SpecRefOrValue::Value { value }) => spec_value_text(value),
            _ => None,
        },
    }
}

/// Renders a bound value as element text.
fn resolve_text(v: &RefOrValue, bindings: &Vec<(String, RefOrValue)>) -> (r: Option<String>)
    ensures
        opt_sv(r) == spec_resolve_text(v@, bindings_view(*bindings)),
{
    match v {
        RefOrValue::Value { value } => value_text(value),
        RefOrValue::Reference { name } => match binding_get(bindings, name.as_str()) {
            Some(RefOrValue::Value { value }) => value_text(value),
            _ => None,
        },
    }
}

/// The text a scalar value renders as.
fn value_text(v: &Value) -> (r: Option<String>)
    ensures
        opt_sv(r) == spec_value_text(v@),
{
    match v {
        Value::String { text } => Some(text.clone()),
        Value::Integer { value } => Some(crate::text::i64_to_string(*value)),
        Value::Boolean { value } => {
            if *value {
                Some(String::from_str("true"))
            } else {
                Some(String::from_str("false"))
            }
        },
        _ => None,
    }
}

/// The content value of an element: the first property keyed `text`, then
/// `caption`, then `body`.
pub open spec fn spec_content_property(ps: Seq<SpecProperty>) -> Option<SpecRefOrValue> {
    match spec_find_property(ps, "text"@) {
        Some(p) => Some(p.value),
        None => match spec_find_property(ps, "caption"@) {
            Some(p) => Some(p.value),
            None => match spec_find_property(ps, "body"@) {
                Some(p) => Some(p.value),
                None => None,
            },
        },
    }
}

/// Finds the first property with the given content key.
fn find_property<'a>(ps: &'a Vec<Property>, key: &str) -> (r: Option<&'a RefOrValue>)
    ensures
        match r {
            Some(v) => spec_find_property(ps@.map_values(|p: Property| p@), key@) matches Some(p)
                && p.value == v@,
            None => spec_find_property(ps@.map_values(|p: Property| p@), key@) is None,
        },
{
    let ghost pv = ps@.map_values(|p: Property| p@);
    proof {
        assert(pv.skip(0) =~= pv);
    }
    let n = ps.len();
    let mut i: usize = 0;
    while i < n
        invariant
            0 <= i <= n == ps@.len(),
            pv == ps@.map_values(|p: Property| p@),
            pv.len() == n,
            spec_find_property(pv.skip(i as int), key@) == spec_find_property(pv, key@),
        decreases n - i,
    {
        proof {
            assert(pv.skip(i as int)[0] == pv[i as int]);
            assert(pv[i as int] == ps[i as int]@);
            assert(pv.skip(i as int).drop_first() =~= pv.skip(i + 1));
        }
        if crate::text::eq_str(ps[i].source.as_str(), key) {
            return Some(&ps[i].value);
        }
        i += 1;
    }
    proof {
        assert(pv.skip(n as int) =~= Seq::<SpecProperty>::empty());
    }
    None
}

/// The first property with one of the content keys, in priority order.
fn content_property<'a>(ps: &'a Vec<Property>) -> (r: Option<&'a RefOrValue>)
    ensures
        match r {
            Some(v) => spec_content_property(ps@.map_values(|p: Property| p@)) == Some(v@),
            None => spec_content_property(ps@.map_values(|p: Property| p@)) is None,
        },
{
    proof {
        reveal_strlit("text");
        reveal_strlit("caption");
        reveal_strlit("body");
    }
    match find_property(ps, "text") {
        Some(v) => Some(v),
        None => match find_property(ps, "caption") {
            Some(v) => Some(v),
            None => find_property(ps, "body"),
        },
    }
}

/// Copies events.
fn clone_events(es: &Vec<Event>) -> (r: Vec<Event>)
    ensures
        r@.map_values(|e: Event| e@) == es@.map_values(|e: Event| e@),
{
    let n = es.len();
    let mut out: Vec<Event> = Vec::new();
    let mut i: usize = 0;
    while i < n
        invariant
            0 <= i <= n == es@.len(),
            out@.len() == i,
            forall|k: int| 0 <= k < i ==> #[trigger] out@[k]@ == es[k]@,
        decreases n - i,
    {
        out.push(Event { name: es[i].name.clone(), action: es[i].action.clone() });
        i += 1;
    }
    proof {
        assert(out@.map_values(|e: Event| e@) =~= es@.map_values(|e: Event| e@));
    }
    out
}

/// Copies properties for a deferred fragment.
pub fn clone_properties_public(ps: &Vec<Property>) -> (r: Vec<Property>)
    ensures
        r@.map_values(|p: Property| p@) == ps@.map_values(|p: Property| p@),
{
    let n = ps.len();
    let mut out: Vec<Property> = Vec::new();
    let mut i: usize = 0;
    while i < n
        invariant
            0 <= i <= n == ps@.len(),
            out@.len() == i,
            forall|k: int| 0 <= k < i ==> #[trigger] out@[k]@ == ps[k]@,
        decreases n - i,
    {
        out.push(clone_properties_public_one(&ps[i]));
        i += 1;
    }
    proof {
        assert(out@.map_values(|p: Property| p@) =~= ps@.map_values(|p: Property| p@));
    }
    out
}

/// Copies one property.
pub fn clone_properties_public_one(p: &Property) -> (r: Property)
    ensures
        r@ == p@,
{
    let condition: Option<crate::interpreter::Condition> = match &p.condition {
        Some(c) => {
            let m = c.references.len();
            let mut refs: Vec<(String, RefOrValue)> = Vec::new();
            let mut j: usize = 0;
            while j < m
                invariant
                    0 <= j <= m == c.references@.len(),
                    refs@.len() == j,
                    forall|k: int|
                        0 <= k < j ==> (#[trigger] refs@[k]).0@ == c.references[k].0@
                            && refs@[k].1@ == c.references[k].1@,
                decreases m - j,
            {
                refs.push((c.references[j].0.clone(), clone_rov(&c.references[j].1)));
                j += 1;
            }
            let cc = crate::interpreter::Condition {
                expression: c.expression.clone(),
                references: refs,
            };
            proof {
                assert(cc@.references =~= c@.references);
                assert(cc@ =~~= c@);
            }
            Some(cc)
        },
        None => None,
    };
    let r = Property {
        source: p.source.clone(),
        value: clone_rov(&p.value),
        condition,
        line_number: p.line_number,
    };
    proof {
        assert(r@ =~~= p@);
    }
    r
}

/// Copies bindings.
fn clone_bindings(bs: &Vec<(String, RefOrValue)>) -> (r: Vec<(String, RefOrValue)>)
    ensures
        bindings_view(r) == bindings_view(*bs),
{
    let n = bs.len();
    let mut out: Vec<(String, RefOrValue)> = Vec::new();
    let mut i: usize = 0;
    while i < n
        invariant
            0 <= i <= n == bs@.len(),
            out@.len() == i,
            forall|k: int|
                0 <= k < i ==> (#[trigger] out@[k]).0@ == bs[k].0@ && out@[k].1@ == bs[k].1@,
        decreases n - i,
    {
        out.push((bs[i].0.clone(), clone_rov(&bs[i].1)));
        i += 1;
    }
    proof {
        assert(bindings_view(out) =~= bindings_view(*bs));
    }
    out
}

/// What a visibility condition decides now: a condition without references
/// is evaluated against the empty context; one with references is reactive
/// and stays visible for the client runtime to decide.
pub open spec fn spec_static_visibility(c: SpecComponent, doc: Seq<char>) -> Result<
    bool,
    SpecExecutorError,
> {
    match c.condition {
        None => Ok(true),
        Some(cond) => {
            if cond.references.len() > 0 {
                Ok(true)
            } else {
                match crate::expr::spec_build(cond.expression) {
                    Err(m) => Err(
                        SpecExecutorError::ParseError {
                            message: m,
                            doc_id: doc,
                            line_number: c.line_number,
                        },
                    ),
                    Ok(node) => match crate::expr::spec_eval(node, Seq::empty()) {
                        Err(m) => Err(
                            SpecExecutorError::ParseError {
                                message: m,
                                doc_id: doc,
                                line_number: c.line_number,
                            },
                        ),
                        Ok((crate::expr::SpecExprValue::Boolean(b), _)) => Ok(b),
                        Ok(_) => Err(
                            SpecExecutorError::ParseError {
                                message: "visibility condition must be boolean"@,
                                doc_id: doc,
                                line_number: c.line_number,
                            },
                        ),
                    },
                }
            }
        },
    }
}

/// Evaluates a statically known visibility condition.
fn static_visibility(c: &Component, doc_id: &str) -> (r: Result<bool, Error>)
    ensures
        match r {
            Ok(v) => spec_static_visibility(c@, doc_id@) == Result::<
                bool,
                SpecExecutorError,
            >::Ok(v),
            Err(e) => spec_static_visibility(c@, doc_id@) == Result::<
                bool,
                SpecExecutorError,
            >::Err(e@),
        },
{
    match &c.condition {
        None => Ok(true),
        Some(cond) => {
            if cond.references.len() > 0 {
                return Ok(true);
            }
            match crate::expr::build_operator_tree(cond.expression.as_str()) {
                Err(m) => Err(
                    Error::ParseError {
                        message: m,
                        doc_id: String::from_str(doc_id),
                        line_number: c.line_number,
                    },
                ),
                Ok(node) => {
                    let ctx: Vec<(String, crate::expr::ExprValue)> = Vec::new();
                    proof {
                        assert(crate::expr::ctx_view(ctx) =~= Seq::<
                            (Seq<char>, crate::expr::SpecExprValue),
                        >::empty());
                    }
                    match crate::expr::eval(&node, ctx) {
                        Err(m) => Err(
                            Error::ParseError {
                                message: m,
                                doc_id: String::from_str(doc_id),
                                line_number: c.line_number,
                            },
                        ),
                        Ok((crate::expr::ExprValue::Boolean(b), _)) => Ok(b),
                        Ok(_) => Err(
                            Error::ParseError {
                                message: String::from_str(
                                    "visibility condition must be boolean",
                                ),
                                doc_id: String::from_str(doc_id),
                                line_number: c.line_number,
                            },
                        ),
                    }
                },
            }
        },
    }
}

/// The element's generated identity: its line number rendered in decimal.
pub open spec fn spec_node_data_id(ln: int) -> Seq<char> {
    "n"@ + crate::text::spec_u64_digits(ln)
}

fn node_data_id(ln: usize) -> (r: String)
    ensures
        r@ == spec_node_data_id(ln as int),
{
    let mut r = String::from_str("n");
    r.append(crate::text::u64_to_string(ln as u64).as_str());
    proof {
        reveal_strlit("n");
        assert(r@ =~= spec_node_data_id(ln as int));
    }
    r
}

/// The `src` attributes an image element takes from its properties.
pub open spec fn spec_image_attrs(
    ps: Seq<SpecProperty>,
    bs: Seq<(Seq<char>, SpecRefOrValue)>,
) -> Seq<(Seq<char>, Option<Seq<char>>)>
    decreases ps.len(),
{
    if ps.len() == 0 {
        Seq::empty()
    } else {
        let rest = spec_image_attrs(ps.drop_first(), bs);
        if ps[0].source == "src"@ {
            seq![("src"@, spec_resolve_text(ps[0].value, bs))] + rest
        } else {
            rest
        }
    }
}

/// What the expansion of one component yields: one node per iteration of a
/// statically known list, one dummy node for a reactive loop source, one
/// styled node otherwise; binding, lookup and visibility failures are the
/// exact errors below.
pub open spec fn spec_expand_component(
    c: SpecComponent,
    bag: Seq<(Seq<char>, SpecThing)>,
    bs: Seq<(Seq<char>, SpecRefOrValue)>,
    doc: Seq<char>,
    depth: int,
) -> Result<Seq<SpecNode>, SpecExecutorError>
    decreases (if depth >= 0 { depth } else { 0 }), 3int, 0int,
{
    if depth <= 0 {
        Err(
            SpecExecutorError::ParseError {
                message: "component nesting too deep"@,
                doc_id: doc,
                line_number: c.line_number,
            },
        )
    } else {
        match c.iteration {
            Some(l) => {
                match l.on {
                    SpecRefOrValue::Value { value: SpecValue::List { data, .. } } => {
                        spec_expand_loop(c, bag, bs, doc, depth, data, 0)
                    },
                    SpecRefOrValue::Value { .. } => Err(
                        SpecExecutorError::ParseError {
                            message: "loop source must be a list"@,
                            doc_id: doc,
                            line_number: c.line_number,
                        },
                    ),
                    SpecRefOrValue::Reference { .. } => Ok(
                        seq![
                            SpecNode {
                                node: c.name,
                                data_id: spec_node_data_id(c.line_number),
                                attrs: Seq::empty(),
                                style: Seq::empty(),
                                classes: Seq::empty(),
                                text: None,
                                visible: true,
                                events: Seq::empty(),
                                children: Seq::empty(),
                                null: false,
                                raw_data: Some(
                                    SpecRawNodeData {
                                        properties: c.properties,
                                        iteration: Some(l),
                                    },
                                ),
                                web_component: None,
                            },
                        ],
                    ),
                }
            },
            None => match spec_expand_single(c, bag, bs, doc, depth) {
                Err(e) => Err(e),
                Ok(node) => Ok(seq![node]),
            },
        }
    }
}

/// One node per list item, the alias bound to the item.
pub open spec fn spec_expand_loop(
    c: SpecComponent,
    bag: Seq<(Seq<char>, SpecThing)>,
    bs: Seq<(Seq<char>, SpecRefOrValue)>,
    doc: Seq<char>,
    depth: int,
    items: Seq<SpecValue>,
    i: int,
) -> Result<Seq<SpecNode>, SpecExecutorError>
    decreases (if depth >= 0 { depth } else { 0 }), 2int, (if items.len() - i >= 0 { items.len() - i } else { 0 }),
{
    if depth <= 0 || i < 0 || i >= items.len() {
        Ok(Seq::empty())
    } else {
        let alias = match c.iteration {
            Some(l) => l.alias,
            None => Seq::empty(),
        };
        let bs2 = bs.push((alias, SpecRefOrValue::Value { value: items[i] }));
        match spec_expand_single(c, bag, bs2, doc, depth) {
            Err(e) => Err(e),
            Ok(node) => match spec_expand_loop(c, bag, bs, doc, depth, items, i + 1) {
                Err(e) => Err(e),
                Ok(rest) => Ok(seq![node] + rest),
            },
        }
    }
}

/// One component, its loop already handled: a kernel element, or a user
/// component looked up in the bag, its arguments bound and its definition
/// expanded under them.
pub open spec fn spec_expand_single(
    c: SpecComponent,
    bag: Seq<(Seq<char>, SpecThing)>,
    bs: Seq<(Seq<char>, SpecRefOrValue)>,
    doc: Seq<char>,
    depth: int,
) -> Result<SpecNode, SpecExecutorError>
    decreases (if depth >= 0 { depth } else { 0 }), 1int, 0int,
{
    if depth <= 0 {
        Err(
            SpecExecutorError::ParseError {
                message: "component nesting too deep"@,
                doc_id: doc,
                line_number: c.line_number,
            },
        )
    } else {
        match spec_static_visibility(c, doc) {
            Err(e) => Err(e),
            Ok(visible) => {
                if crate::p11::is_prefix(c.name, "ftd."@) {
                    spec_kernel_node(c, bag, bs, doc, visible, depth)
                } else {
                    let resolved = crate::interpreter::spec_resolve_name(
                        c.name,
                        doc,
                        Seq::empty(),
                    );
                    match spec_bag_thing(bag, resolved) {
                        Some(SpecThing::Component(d)) => {
                            match spec_bind_arguments(
                                d.arguments,
                                c.properties,
                                d.name,
                                doc,
                                c.line_number,
                            ) {
                                Err(e) => Err(e),
                                Ok(bound) => match spec_expand_components(
                                    d.definition,
                                    bag,
                                    bound,
                                    doc,
                                    depth - 1,
                                    0,
                                ) {
                                    Err(e) => Err(e),
                                    Ok(children) => Ok(
                                        SpecNode {
                                            node: "div"@,
                                            data_id: spec_node_data_id(c.line_number),
                                            attrs: Seq::empty(),
                                            style: Seq::empty(),
                                            classes: Seq::empty(),
                                            text: None,
                                            visible,
                                            events: c.events,
                                            children,
                                            null: false,
                                            raw_data: None,
                                            web_component: None,
                                        },
                                    ),
                                },
                            }
                        },
                        _ => Err(
                            SpecExecutorError::UnresolvedComponent {
                                name: resolved,
                                doc_id: doc,
                                line_number: c.line_number,
                            },
                        ),
                    }
                }
            },
        }
    }
}

/// The node of one built-in render primitive: a text-like element renders
/// its content property (a null node when no content resolves), an image its
/// `src`, a row or column a flex container holding its children.
pub open spec fn spec_kernel_node(
    c: SpecComponent,
    bag: Seq<(Seq<char>, SpecThing)>,
    bs: Seq<(Seq<char>, SpecRefOrValue)>,
    doc: Seq<char>,
    visible: bool,
    depth: int,
) -> Result<SpecNode, SpecExecutorError>
    decreases (if depth >= 0 { depth } else { 0 }), 0int, 0int,
{
    let is_text = c.name == "ftd.text"@ || c.name == "ftd.integer"@ || c.name == "ftd.boolean"@;
    let is_container = c.name == "ftd.column"@ || c.name == "ftd.row"@;
    let is_image = c.name == "ftd.image"@;
    if depth <= 0 || (!is_text && !is_container && !is_image) {
        Err(
            SpecExecutorError::UnresolvedComponent {
                name: c.name,
                doc_id: doc,
                line_number: c.line_number,
            },
        )
    } else if is_text {
        let text = match spec_content_property(c.properties) {
            Some(v) => spec_resolve_text(v, bs),
            None => None,
        };
        match text {
            None => Ok(
                SpecNode {
                    node: "div"@,
                    data_id: spec_node_data_id(c.line_number),
                    attrs: Seq::empty(),
                    style: Seq::empty(),
                    classes: Seq::empty(),
                    text: None,
                    visible,
                    events: Seq::empty(),
                    children: Seq::empty(),
                    null: true,
                    raw_data: None,
                    web_component: None,
                },
            ),
            Some(t) => Ok(
                SpecNode {
                    node: "div"@,
                    data_id: spec_node_data_id(c.line_number),
                    attrs: Seq::empty(),
                    style: Seq::empty(),
                    classes: Seq::empty(),
                    text: Some(t),
                    visible,
                    events: c.events,
                    children: Seq::empty(),
                    null: false,
                    raw_data: None,
                    web_component: None,
                },
            ),
        }
    } else if is_image {
        Ok(
            SpecNode {
                node: "img"@,
                data_id: spec_node_data_id(c.line_number),
                attrs: spec_image_attrs(c.properties, bs),
                style: Seq::empty(),
                classes: Seq::empty(),
                text: None,
                visible,
                events: c.events,
                children: Seq::empty(),
                null: false,
                raw_data: None,
                web_component: None,
            },
        )
    } else {
        match spec_expand_components(c.children, bag, bs, doc, depth - 1, 0) {
            Err(e) => Err(e),
            Ok(children) => Ok(
                SpecNode {
                    node: "div"@,
                    data_id: spec_node_data_id(c.line_number),
                    attrs: Seq::empty(),
                    style: seq![
                        ("display"@, Some("flex"@)),
                        ("flex-direction"@, Some(
                            if c.name == "ftd.row"@ {
                                "row"@
                            } else {
                                "column"@
                            },
                        )),
                    ],
                    classes: Seq::empty(),
                    text: None,
                    visible,
                    events: c.events,
                    children,
                    null: false,
                    raw_data: None,
                    web_component: None,
                },
            ),
        }
    }
}

/// The concatenated expansions of the components from position `i` on.
pub open spec fn spec_expand_components(
    cs: Seq<SpecComponent>,
    bag: Seq<(Seq<char>, SpecThing)>,
    bs: Seq<(Seq<char>, SpecRefOrValue)>,
    doc: Seq<char>,
    depth: int,
    i: int,
) -> Result<Seq<SpecNode>, SpecExecutorError>
    decreases (if depth >= 0 { depth } else { 0 }), 4int, (if cs.len() - i >= 0 { cs.len() - i } else { 0 }),
{
    if i < 0 || i >= cs.len() {
        Ok(Seq::empty())
    } else {
        match spec_expand_component(cs[i], bag, bs, doc, depth) {
            Err(e) => Err(e),
            Ok(first) => match spec_expand_components(cs, bag, bs, doc, depth, i + 1) {
                Err(e) => Err(e),
                Ok(rest) => Ok(first + rest),
            },
        }
    }
}

/// Expands one resolved component into render nodes.
fn expand_component(
    c: &Component,
    bag: &Vec<(String, Thing)>,
    bindings: &Vec<(String, RefOrValue)>,
    doc_id: &str,
    depth: usize,
) -> (r: Result<Vec<Node>, Error>)
    ensures
        match r {
            Ok(ns) => spec_expand_component(
                c@,
                crate::interpreter::bag_view(*bag),
                bindings_view(*bindings),
                doc_id@,
                depth as int,
            ) == Result::<Seq<SpecNode>, SpecExecutorError>::Ok(all_nodes_view(ns)) && wf_nodes(
                all_nodes_view(ns),
            ),
            Err(e) => spec_expand_component(
                c@,
                crate::interpreter::bag_view(*bag),
                bindings_view(*bindings),
                doc_id@,
                depth as int,
            ) == Result::<Seq<SpecNode>, SpecExecutorError>::Err(e@),
        },
    decreases depth, 3int, 0int,
{
    let ghost bagv = crate::interpreter::bag_view(*bag);
    let ghost bsv = bindings_view(*bindings);
    if depth == 0 {
        return Err(
            Error::ParseError {
                message: String::from_str("component nesting too deep"),
                doc_id: String::from_str(doc_id),
                line_number: c.line_number,
            },
        );
    }
    match &c.iteration {
        Some(l) => {
            match &l.on {
                RefOrValue::Value { value: Value::List { data, .. } } => {
                    proof {
                        crate::interpreter::lemma_values_view(*data, data@.len() as int);
                    }
                    let ghost items = crate::interpreter::values_view(*data, data@.len() as int);
                    let mut out: Vec<Node> = Vec::new();
                    let n = data.len();
                    proof {
                        lemma_nodes_view(out, 0);
                        if spec_expand_loop(c@, bagv, bsv, doc_id@, depth as int, items, 0) is Ok {
                            assert(spec_expand_loop(
                                c@,
                                bagv,
                                bsv,
                                doc_id@,
                                depth as int,
                                items,
                                0,
                            )->Ok_0 =~= all_nodes_view(out) + spec_expand_loop(
                                c@,
                                bagv,
                                bsv,
                                doc_id@,
                                depth as int,
                                items,
                                0,
                            )->Ok_0);
                        }
                    }
                    let mut i: usize = 0;
                    while i < n
                        invariant
                            0 <= i <= n == data@.len(),
                            depth >= 1,
                            items == crate::interpreter::values_view(*data, data@.len() as int),
                            items.len() == n,
                            forall|k: int| 0 <= k < n ==> items[k] == data[k]@,
                            bagv == crate::interpreter::bag_view(*bag),
                            bsv == bindings_view(*bindings),
                            c@.iteration == Some(l@),
                            (l@.on matches SpecRefOrValue::Value { value } && (value matches
                            SpecValue::List { data, .. } && data == items)),
                            wf_nodes(all_nodes_view(out)),
                            spec_expand_loop(c@, bagv, bsv, doc_id@, depth as int, items, 0)
                                matches Ok(all) ==> {
                                &&& spec_expand_loop(
                                    c@,
                                    bagv,
                                    bsv,
                                    doc_id@,
                                    depth as int,
                                    items,
                                    i as int,
                                ) matches Ok(rest)
                                &&& all =~= all_nodes_view(out) + rest
                            },
                            spec_expand_loop(c@, bagv, bsv, doc_id@, depth as int, items, 0)
                                matches Err(e) ==> spec_expand_loop(
                                c@,
                                bagv,
                                bsv,
                                doc_id@,
                                depth as int,
                                items,
                                i as int,
                            ) == Result::<Seq<SpecNode>, SpecExecutorError>::Err(e),
                        decreases n - i,
                    {
                        let mut bs2 = clone_bindings(bindings);
                        bs2.push(
                            (l.alias.clone(), RefOrValue::Value { value: clone_value(&data[i]) }),
                        );
                        proof {
                            assert(bindings_view(bs2) =~= bsv.push(
                                (c@.iteration->Some_0.alias, SpecRefOrValue::Value {
                                    value: items[i as int],
                                }),
                            ));
                        }
                        match expand_single(c, bag, &bs2, doc_id, depth) {
                            Err(e) => {
                                proof {
                                    assert(spec_expand_loop(
                                        c@,
                                        bagv,
                                        bsv,
                                        doc_id@,
                                        depth as int,
                                        items,
                                        i as int,
                                    ) == Result::<Seq<SpecNode>, SpecExecutorError>::Err(e@));
                                    if spec_expand_loop(
                                        c@,
                                        bagv,
                                        bsv,
                                        doc_id@,
                                        depth as int,
                                        items,
                                        0,
                                    ) is Ok {
                                        assert(false);
                                    }
                                    assert(spec_expand_component(
                                        c@,
                                        bagv,
                                        bsv,
                                        doc_id@,
                                        depth as int,
                                    ) == Result::<Seq<SpecNode>, SpecExecutorError>::Err(e@));
                                }
                                return Err(e);
                            },
                            Ok(node) => {
                                let ghost out0 = out;
                                out.push(node);
                                proof {
                                    lemma_nodes_view(out0, out0@.len() as int);
                                    lemma_nodes_view(out, out@.len() as int);
                                    assert(all_nodes_view(out) =~= all_nodes_view(out0).push(
                                        node@,
                                    ));
                                    if spec_expand_loop(
                                        c@,
                                        bagv,
                                        bsv,
                                        doc_id@,
                                        depth as int,
                                        items,
                                        0,
                                    ) is Ok {
                                        assert(all_nodes_view(out0).push(node@)
                                            + spec_expand_loop(
                                            c@,
                                            bagv,
                                            bsv,
                                            doc_id@,
                                            depth as int,
                                            items,
                                            i + 1,
                                        )->Ok_0 =~= all_nodes_view(out0) + (seq![node@]
                                            + spec_expand_loop(
                                            c@,
                                            bagv,
                                            bsv,
                                            doc_id@,
                                            depth as int,
                                            items,
                                            i + 1,
                                        )->Ok_0));
                                    }
                                }
                            },
                        }
                        i += 1;
                    }
                    proof {
                        assert(spec_expand_loop(
                            c@,
                            bagv,
                            bsv,
                            doc_id@,
                            depth as int,
                            items,
                            n as int,
                        ) == Result::<Seq<SpecNode>, SpecExecutorError>::Ok(Seq::empty()));
                        if spec_expand_loop(c@, bagv, bsv, doc_id@, depth as int, items, 0) is Ok {
                            assert(spec_expand_loop(
                                c@,
                                bagv,
                                bsv,
                                doc_id@,
                                depth as int,
                                items,
                                0,
                            )->Ok_0 =~= all_nodes_view(out));
                        }
                    }
                    Ok(out)
                },
                RefOrValue::Value { .. } => Err(
                    Error::ParseError {
                        message: String::from_str("loop source must be a list"),
                        doc_id: String::from_str(doc_id),
                        line_number: c.line_number,
                    },
                ),
                RefOrValue::Reference { .. } => {
                    let node = Node {
                        node: c.name.clone(),
                        data_id: node_data_id(c.line_number),
                        attrs: Vec::new(),
                        style: Vec::new(),
                        classes: Vec::new(),
                        text: None,
                        visible: true,
                        events: Vec::new(),
                        children: Vec::new(),
                        null: false,
                        raw_data: Some(
                            RawNodeData {
                                properties: clone_properties_public(&c.properties),
                                iteration: Some(
                                    crate::interpreter::Loop {
                                        on: clone_rov(&l.on),
                                        alias: l.alias.clone(),
                                    },
                                ),
                            },
                        ),
                        web_component: None,
                    };
                    let mut out: Vec<Node> = Vec::new();
                    proof {
                        assert(all_nodes_view(node.children) =~= Seq::<SpecNode>::empty());
                        assert(node@.attrs =~= Seq::<(Seq<char>, Option<Seq<char>>)>::empty());
                        assert(node@.style =~= Seq::<(Seq<char>, Option<Seq<char>>)>::empty());
                        assert(node@.classes =~= Seq::<Seq<char>>::empty());
                        assert(node@.events =~= Seq::<SpecEvent>::empty());
                        assert(node@.raw_data->Some_0 =~~= (SpecRawNodeData {
                            properties: c@.properties,
                            iteration: Some(c@.iteration->Some_0),
                        }));
                        assert(wf_node(node@));
                    }
                    out.push(node);
                    proof {
                        lemma_nodes_view(out, out@.len() as int);
                        assert(wf_nodes(all_nodes_view(out)));
                        assert(all_nodes_view(out) =~~= spec_expand_component(
                            c@,
                            bagv,
                            bsv,
                            doc_id@,
                            depth as int,
                        )->Ok_0);
                    }
                    Ok(out)
                },
            }
        },
        None => {
            match expand_single(c, bag, bindings, doc_id, depth) {
                Err(e) => Err(e),
                Ok(node) => {
                    let ghost nodev = node@;
                    let mut out: Vec<Node> = Vec::new();
                    out.push(node);
                    proof {
                        lemma_nodes_view(out, out@.len() as int);
                        assert(wf_nodes(all_nodes_view(out)));
                        assert(all_nodes_view(out) =~= seq![nodev]);
                    }
                    Ok(out)
                },
            }
        },
    }
}

/// Expands one component, its loop (if any) already handled.
fn expand_single(
    c: &Component,
    bag: &Vec<(String, Thing)>,
    bindings: &Vec<(String, RefOrValue)>,
    doc_id: &str,
    depth: usize,
) -> (r: Result<Node, Error>)
    requires
        depth >= 1,
    ensures
        match r {
            Ok(n) => spec_expand_single(
                c@,
                crate::interpreter::bag_view(*bag),
                bindings_view(*bindings),
                doc_id@,
                depth as int,
            ) == Result::<SpecNode, SpecExecutorError>::Ok(n@) && wf_node(n@),
            Err(e) => spec_expand_single(
                c@,
                crate::interpreter::bag_view(*bag),
                bindings_view(*bindings),
                doc_id@,
                depth as int,
            ) == Result::<SpecNode, SpecExecutorError>::Err(e@),
        },
    decreases depth, 1int, 0int,
{
    let ghost bagv = crate::interpreter::bag_view(*bag);
    let ghost bsv = bindings_view(*bindings);
    let visible = match static_visibility(c, doc_id) {
        Ok(v) => v,
        Err(e) => {
            return Err(e);
        },
    };
    proof {
        reveal_strlit("ftd.");
    }
    if crate::text::str_starts_with(c.name.as_str(), "ftd.") {
        kernel_node(c, bag, bindings, doc_id, visible, depth)
    } else {
        let empty_aliases: Vec<(String, String)> = Vec::new();
        proof {
            assert(crate::interpreter::aliases_view(empty_aliases) =~= Seq::<
                (Seq<char>, Seq<char>),
            >::empty());
        }
        let resolved = crate::interpreter::resolve_name(c.name.as_str(), doc_id, &empty_aliases);
        let definition = match bag_get(bag, resolved.as_str()) {
            Some(Thing::Component(d)) => d,
            _ => {
                return Err(
                    Error::UnresolvedComponent {
                        name: resolved,
                        doc_id: String::from_str(doc_id),
                        line_number: c.line_number,
                    },
                );
            },
        };
        let bound = match bind_arguments(
            &definition.arguments,
            &c.properties,
            definition.name.as_str(),
            doc_id,
            c.line_number,
        ) {
            Ok(b) => b,
            Err(e) => {
                return Err(e);
            },
        };
        proof {
            assert(definition.arguments@.map_values(|a: Argument| a@)
                == bagv[crate::interpreter::spec_bag_idx(
                bagv,
                crate::interpreter::spec_resolve_name(c@.name, doc_id@, Seq::empty()),
            )].1->Component_0.arguments);
        }
        match expand_components(&definition.definition, bag, &bound, doc_id, depth - 1) {
            Err(e) => Err(e),
            Ok(children) => {
                let node = Node {
                    node: String::from_str("div"),
                    data_id: node_data_id(c.line_number),
                    attrs: Vec::new(),
                    style: Vec::new(),
                    classes: Vec::new(),
                    text: None,
                    visible,
                    events: clone_events(&c.events),
                    children,
                    null: false,
                    raw_data: None,
                    web_component: None,
                };
                proof {
                    lemma_nodes_view(node.children, node.children@.len() as int);
                    assert(wf_node(node@));
                    assert(node@ =~~= spec_expand_single(
                        c@,
                        bagv,
                        bsv,
                        doc_id@,
                        depth as int,
                    )->Ok_0);
                }
                Ok(node)
            },
        }
    }
}

/// Builds the node of one built-in render primitive.
fn kernel_node(
    c: &Component,
    bag: &Vec<(String, Thing)>,
    bindings: &Vec<(String, RefOrValue)>,
    doc_id: &str,
    visible: bool,
    depth: usize,
) -> (r: Result<Node, Error>)
    requires
        depth >= 1,
        crate::p11::is_prefix(c@.name, "ftd."@),
    ensures
        match r {
            Ok(n) => spec_kernel_node(
                c@,
                crate::interpreter::bag_view(*bag),
                bindings_view(*bindings),
                doc_id@,
                visible,
                depth as int,
            ) == Result::<SpecNode, SpecExecutorError>::Ok(n@) && wf_node(n@),
            Err(e) => spec_kernel_node(
                c@,
                crate::interpreter::bag_view(*bag),
                bindings_view(*bindings),
                doc_id@,
                visible,
                depth as int,
            ) == Result::<SpecNode, SpecExecutorError>::Err(e@),
        },
    decreases depth, 0int, 0int,
{
    let ghost bagv = crate::interpreter::bag_view(*bag);
    let ghost bsv = bindings_view(*bindings);
    proof {
        reveal_strlit("ftd.text");
        reveal_strlit("ftd.integer");
        reveal_strlit("ftd.boolean");
        reveal_strlit("ftd.column");
        reveal_strlit("ftd.row");
        reveal_strlit("ftd.image");
    }
    let is_text = crate::text::eq_str(c.name.as_str(), "ftd.text") || crate::text::eq_str(
        c.name.as_str(),
        "ftd.integer",
    ) || crate::text::eq_str(c.name.as_str(), "ftd.boolean");
    let is_container = crate::text::eq_str(c.name.as_str(), "ftd.column") || crate::text::eq_str(
        c.name.as_str(),
        "ftd.row",
    );
    let is_image = crate::text::eq_str(c.name.as_str(), "ftd.image");
    if !is_text && !is_container && !is_image {
        return Err(
            Error::UnresolvedComponent {
                name: c.name.clone(),
                doc_id: String::from_str(doc_id),
                line_number: c.line_number,
            },
        );
    }
    if is_text {
        let text = match content_property(&c.properties) {
            Some(v) => resolve_text(v, bindings),
            None => None,
        };
        match text {
            None => {
                let node = Node {
                    node: String::from_str("div"),
                    data_id: node_data_id(c.line_number),
                    attrs: Vec::new(),
                    style: Vec::new(),
                    classes: Vec::new(),
                    text: None,
                    visible,
                    events: Vec::new(),
                    children: Vec::new(),
                    null: true,
                    raw_data: None,
                    web_component: None,
                };
                proof {
                    assert(all_nodes_view(node.children) =~= Seq::<SpecNode>::empty());
                    assert(node@.events =~= Seq::<SpecEvent>::empty());
                    assert(wf_node(node@));
                    assert(node@ =~~= spec_kernel_node(
                        c@,
                        bagv,
                        bsv,
                        doc_id@,
                        visible,
                        depth as int,
                    )->Ok_0);
                }
                Ok(node)
            },
            Some(t) => {
                let node = Node {
                    node: String::from_str("div"),
                    data_id: node_data_id(c.line_number),
                    attrs: Vec::new(),
                    style: Vec::new(),
                    classes: Vec::new(),
                    text: Some(t),
                    visible,
                    events: clone_events(&c.events),
                    children: Vec::new(),
                    null: false,
                    raw_data: None,
                    web_component: None,
                };
                proof {
                    assert(all_nodes_view(node.children) =~= Seq::<SpecNode>::empty());
                    assert(wf_node(node@));
                    assert(node@ =~~= spec_kernel_node(
                        c@,
                        bagv,
                        bsv,
                        doc_id@,
                        visible,
                        depth as int,
                    )->Ok_0);
                }
                Ok(node)
            },
        }
    } else if is_image {
        let ghost pv = c@.properties;
        proof {
            assert(pv.skip(0) =~= pv);
        }
        let mut attrs: Vec<(String, Option<String>)> = Vec::new();
        proof {
            assert(attrs@.map_values(|p: (String, Option<String>)| (p.0@, opt_sv(p.1)))
                + spec_image_attrs(pv.skip(0), bsv) =~= spec_image_attrs(pv, bsv));
        }
        let mut i: usize = 0;
        let n = c.properties.len();
        while i < n
            invariant
                0 <= i <= n == c.properties@.len(),
                pv == c@.properties,
                pv.len() == n,
                bsv == bindings_view(*bindings),
                attrs@.map_values(|p: (String, Option<String>)| (p.0@, opt_sv(p.1)))
                    + spec_image_attrs(pv.skip(i as int), bsv) =~= spec_image_attrs(pv, bsv),
            decreases n - i,
        {
            proof {
                assert(pv.skip(i as int)[0] == pv[i as int]);
                assert(pv[i as int] == c.properties[i as int]@);
                assert(pv.skip(i as int).drop_first() =~= pv.skip(i + 1));
                reveal_strlit("src");
            }
            let p = &c.properties[i];
            if crate::text::eq_str(p.source.as_str(), "src") {
                let ghost a0 = attrs@.map_values(
                    |p: (String, Option<String>)| (p.0@, opt_sv(p.1)),
                );
                let entry = (String::from_str("src"), resolve_text(&p.value, bindings));
                attrs.push(entry);
                proof {
                    assert(attrs@.map_values(|p: (String, Option<String>)| (p.0@, opt_sv(p.1)))
                        =~= a0.push(("src"@, spec_resolve_text(pv[i as int].value, bsv))));
                    assert(a0.push(("src"@, spec_resolve_text(pv[i as int].value, bsv)))
                        + spec_image_attrs(pv.skip(i + 1), bsv) =~= a0 + (seq![
                        ("src"@, spec_resolve_text(pv[i as int].value, bsv)),
                    ] + spec_image_attrs(pv.skip(i + 1), bsv)));
                }
            }
            i += 1;
        }
        proof {
            assert(pv.skip(n as int) =~= Seq::<SpecProperty>::empty());
            assert(attrs@.map_values(|p: (String, Option<String>)| (p.0@, opt_sv(p.1)))
                =~= spec_image_attrs(pv, bsv));
        }
        let node = Node {
            node: String::from_str("img"),
            data_id: node_data_id(c.line_number),
            attrs,
            style: Vec::new(),
            classes: Vec::new(),
            text: None,
            visible,
            events: clone_events(&c.events),
            children: Vec::new(),
            null: false,
            raw_data: None,
            web_component: None,
        };
        proof {
            assert(all_nodes_view(node.children) =~= Seq::<SpecNode>::empty());
            assert(wf_node(node@));
            assert(node@ =~~= spec_kernel_node(c@, bagv, bsv, doc_id@, visible, depth as int)->Ok_0);
        }
        Ok(node)
    } else {
        let mut style: Vec<(String, Option<String>)> = Vec::new();
        style.push((String::from_str("display"), Some(String::from_str("flex"))));
        if crate::text::eq_str(c.name.as_str(), "ftd.row") {
            style.push((String::from_str("flex-direction"), Some(String::from_str("row"))));
        } else {
            style.push((String::from_str("flex-direction"), Some(String::from_str("column"))));
        }
        match expand_components(&c.children, bag, bindings, doc_id, depth - 1) {
            Err(e) => Err(e),
            Ok(children) => {
                let node = Node {
                    node: String::from_str("div"),
                    data_id: node_data_id(c.line_number),
                    attrs: Vec::new(),
                    style,
                    classes: Vec::new(),
                    text: None,
                    visible,
                    events: clone_events(&c.events),
                    children,
                    null: false,
                    raw_data: None,
                    web_component: None,
                };
                proof {
                    lemma_nodes_view(node.children, node.children@.len() as int);
                    assert(wf_node(node@));
                    assert(node@.style =~= seq![
                        ("display"@, Some("flex"@)),
                        ("flex-direction"@, Some(
                            if c@.name == "ftd.row"@ {
                                "row"@
                            } else {
                                "column"@
                            },
                        )),
                    ]);
                    assert(node@ =~~= spec_kernel_node(
                        c@,
                        bagv,
                        bsv,
                        doc_id@,
                        visible,
                        depth as int,
                    )->Ok_0);
                }
                Ok(node)
            },
        }
    }
}

/// Expands a list of components.
fn expand_components(
    cs: &Vec<Component>,
    bag: &Vec<(String, Thing)>,
    bindings: &Vec<(String, RefOrValue)>,
    doc_id: &str,
    depth: usize,
) -> (r: Result<Vec<Node>, Error>)
    ensures
        match r {
            Ok(ns) => spec_expand_components(
                all_components_view_local(*cs),
                crate::interpreter::bag_view(*bag),
                bindings_view(*bindings),
                doc_id@,
                depth as int,
                0,
            ) == Result::<Seq<SpecNode>, SpecExecutorError>::Ok(all_nodes_view(ns)) && wf_nodes(
                all_nodes_view(ns),
            ),
            Err(e) => spec_expand_components(
                all_components_view_local(*cs),
                crate::interpreter::bag_view(*bag),
                bindings_view(*bindings),
                doc_id@,
                depth as int,
                0,
            ) == Result::<Seq<SpecNode>, SpecExecutorError>::Err(e@),
        },
    decreases depth, 4int, 0int,
{
    let ghost csv = all_components_view_local(*cs);
    let ghost bagv = crate::interpreter::bag_view(*bag);
    let ghost bsv = bindings_view(*bindings);
    proof {
        crate::interpreter::lemma_components_view(*cs, cs@.len() as int);
    }
    let mut out: Vec<Node> = Vec::new();
    let n = cs.len();
    proof {
        lemma_nodes_view(out, 0);
        if spec_expand_components(csv, bagv, bsv, doc_id@, depth as int, 0) is Ok {
            assert(spec_expand_components(csv, bagv, bsv, doc_id@, depth as int, 0)->Ok_0
                =~= all_nodes_view(out) + spec_expand_components(
                csv,
                bagv,
                bsv,
                doc_id@,
                depth as int,
                0,
            )->Ok_0);
        }
    }
    let mut i: usize = 0;
    while i < n
        invariant
            0 <= i <= n == cs@.len(),
            csv == all_components_view_local(*cs),
            csv.len() == n,
            forall|k: int| 0 <= k < n ==> csv[k] == cs[k]@,
            bagv == crate::interpreter::bag_view(*bag),
            bsv == bindings_view(*bindings),
            wf_nodes(all_nodes_view(out)),
            spec_expand_components(csv, bagv, bsv, doc_id@, depth as int, 0) matches Ok(all)
                ==> {
                &&& spec_expand_components(csv, bagv, bsv, doc_id@, depth as int, i as int)
                    matches Ok(rest)
                &&& all =~= all_nodes_view(out) + rest
            },
            spec_expand_components(csv, bagv, bsv, doc_id@, depth as int, 0) matches Err(e)
                ==> spec_expand_components(csv, bagv, bsv, doc_id@, depth as int, i as int)
                == Result::<Seq<SpecNode>, SpecExecutorError>::Err(e),
        decreases n - i,
    {
        match expand_component(&cs[i], bag, bindings, doc_id, depth) {
            Err(e) => {
                proof {
                    assert(spec_expand_components(csv, bagv, bsv, doc_id@, depth as int, i as int)
                        == Result::<Seq<SpecNode>, SpecExecutorError>::Err(e@));
                    if spec_expand_components(csv, bagv, bsv, doc_id@, depth as int, 0) is Ok {
                        assert(false);
                    }
                }
                return Err(e);
            },
            Ok(nodes) => {
                let ghost nv = all_nodes_view(nodes);
                proof {
                    lemma_nodes_view(nodes, nodes@.len() as int);
                }
                let m = nodes.len();
                let mut nodes = nodes;
                let ghost out_before = all_nodes_view(out);
                let mut j: usize = 0;
                while j < m
                    invariant
                        0 <= j <= m,
                        nodes@.len() == m - j,
                        nv.len() == m,
                        wf_nodes(nv),
                        forall|k: int| 0 <= k < m - j ==> nodes[k]@ == nv[j + k],
                        all_nodes_view(out) =~= out_before + nv.take(j as int),
                        wf_nodes(all_nodes_view(out)),
                    decreases m - j,
                {
                    let ghost out0 = out;
                    let ghost nodes0 = nodes;
                    let node = nodes.remove(0);
                    proof {
                        assert(node@ == nv[j as int]);
                        assert(forall|k: int|
                            0 <= k < m - j - 1 ==> #[trigger] nodes[k]@ == nodes0[k + 1]@);
                    }
                    out.push(node);
                    proof {
                        lemma_nodes_view(out0, out0@.len() as int);
                        lemma_nodes_view(out, out@.len() as int);
                        assert(all_nodes_view(out) =~= all_nodes_view(out0).push(node@));
                        assert(nv.take(j + 1 as int) =~= nv.take(j as int).push(nv[j as int]));
                    }
                    j += 1;
                }
                proof {
                    assert(nv.take(m as int) =~= nv);
                    assert(all_nodes_view(out) =~= out_before + nv);
                    if spec_expand_components(csv, bagv, bsv, doc_id@, depth as int, 0) is Ok {
                        assert((out_before + nv) + spec_expand_components(
                            csv,
                            bagv,
                            bsv,
                            doc_id@,
                            depth as int,
                            i + 1,
                        )->Ok_0 =~= out_before + (nv + spec_expand_components(
                            csv,
                            bagv,
                            bsv,
                            doc_id@,
                            depth as int,
                            i + 1,
                        )->Ok_0));
                    }
                }
            },
        }
        i += 1;
    }
    proof {
        assert(spec_expand_components(csv, bagv, bsv, doc_id@, depth as int, n as int)
            == Result::<Seq<SpecNode>, SpecExecutorError>::Ok(Seq::empty()));
        if spec_expand_components(csv, bagv, bsv, doc_id@, depth as int, 0) is Ok {
            assert(spec_expand_components(csv, bagv, bsv, doc_id@, depth as int, 0)->Ok_0
                =~= all_nodes_view(out));
        }
    }
    Ok(out)
}

/// The view of a component list.
pub open spec fn all_components_view_local(v: Vec<Component>) -> Seq<SpecComponent> {
    crate::interpreter::components_view(v, v@.len() as int)
}

/// The depth bound on component nesting.
pub open spec fn spec_expansion_depth() -> int {
    64
}

/// The rendered tree with the bag and aliases it was built from.
pub struct RT {
    pub name: String,
    pub aliases: Vec<(String, String)>,
    pub bag: Vec<(String, Thing)>,
    pub main: Vec<Node>,
}

/// What executing a whole document yields: its root tree expanded against
/// its bag under empty bindings, to the fixed nesting depth.
pub open spec fn spec_execute(doc: crate::interpreter::SpecDocument) -> Result<
    Seq<SpecNode>,
    SpecExecutorError,
> {
    spec_expand_components(doc.tree, doc.data, Seq::empty(), doc.name, spec_expansion_depth(), 0)
}

/// The executor's entry point.
pub struct ExecuteDoc {
}

impl ExecuteDoc {
    /// Expands an interpreted document into its render-node tree: exactly
    /// `spec_execute` of the document, the bag and aliases passing through
    /// untouched, every produced node well formed.
    pub fn from_interpreter(doc: crate::interpreter::Document) -> (r: Result<RT, Error>)
        ensures
            match r {
                Ok(rt) => {
                    &&& rt.name@ == doc@.name
                    &&& crate::interpreter::bag_view(rt.bag) == doc@.data
                    &&& crate::interpreter::aliases_view(rt.aliases) == doc@.aliases
                    &&& spec_execute(doc@) == Result::<Seq<SpecNode>, SpecExecutorError>::Ok(
                        all_nodes_view(rt.main),
                    )
                    &&& wf_nodes(all_nodes_view(rt.main))
                },
                Err(e) => spec_execute(doc@) == Result::<Seq<SpecNode>, SpecExecutorError>::Err(
                    e@,
                ),
            },
    {
        let bindings: Vec<(String, RefOrValue)> = Vec::new();
        let doc_id = doc.name.clone();
        proof {
            assert(bindings_view(bindings) =~= Seq::<(Seq<char>, SpecRefOrValue)>::empty());
        }
        match expand_components(&doc.tree, &doc.data, &bindings, doc_id.as_str(), 64) {
            Err(e) => Err(e),
            Ok(main) => Ok(
                RT { name: doc.name, aliases: doc.aliases, bag: doc.data, main },
            ),
        }
    }
}

} // verus!
