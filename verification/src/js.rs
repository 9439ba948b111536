//! The JS back end: walks the bag directly and emits one reactive instruction
//! per user-defined thing. Formulas keep explicit dependency lists so the
//! companion runtime re-evaluates only affected values; loops and
//! conditionals are never materialized at generation time.
use crate::interpreter::{
    Argument, Component, Property, PropertyValue, RefOrValue, SpecArgument, SpecProperty,
    SpecPropertyValue, SpecRefOrValue, SpecThing, SpecValue, Thing, Variable,
};
use vstd::prelude::*;

verus! {

broadcast use vstd::std_specs::vec::axiom_vec_index_decreases;

/// A generation error: a construct outside the closed, explicit operator and
/// value set. Never a silent default, never an abort.
#[derive(Debug)]
pub struct GenError {
    pub message: String,
}

#[verifier::ext_equal]
pub struct SpecGenError {
    pub message: Seq<char>,
}

impl View for GenError {
    type V = SpecGenError;

    open spec fn view(&self) -> SpecGenError {
        SpecGenError { message: self.message@ }
    }
}

fn gen_err<T>(m: &str) -> (r: Result<T, GenError>)
    ensures
        r matches Err(e) && e@.message == m@,
{
    Err(GenError { message: String::from_str(m) })
}

/// A value as the companion runtime receives it.
pub enum SetPropertyValue {
    Value { text: String },
    Reference { name: String },
    Formula { deps: Vec<String>, conditional_values: Vec<ConditionalValue> },
}

/// One conditional contribution of a formula.
pub struct ConditionalValue {
    pub condition: Option<String>,
    pub expression: String,
}

#[verifier::ext_equal]
pub enum SpecSetPropertyValue {
    Value { text: Seq<char> },
    Reference { name: Seq<char> },
    Formula { deps: Seq<Seq<char>>, conditional_values: Seq<SpecConditionalValue> },
}

#[verifier::ext_equal]
pub struct SpecConditionalValue {
    pub condition: Option<Seq<char>>,
    pub expression: Seq<char>,
}

impl View for ConditionalValue {
    type V = SpecConditionalValue;

    open spec fn view(&self) -> SpecConditionalValue {
        SpecConditionalValue {
            condition: crate::p11::opt_str(self.condition),
            expression: self.expression@,
        }
    }
}

impl View for SetPropertyValue {
    type V = SpecSetPropertyValue;

    open spec fn view(&self) -> SpecSetPropertyValue {
        match self {
            SetPropertyValue::Value { text } => SpecSetPropertyValue::Value { text: text@ },
            SetPropertyValue::Reference { name } => SpecSetPropertyValue::Reference {
                name: name@,
            },
            SetPropertyValue::Formula { deps, conditional_values } => {
                SpecSetPropertyValue::Formula {
                    deps: deps@.map_values(|d: String| d@),
                    conditional_values: conditional_values@.map_values(
                        |c: ConditionalValue| c@,
                    ),
                }
            },
        }
    }
}

/// The kind of element property an instruction sets.
pub enum PropertyKind {
    Text,
    Value,
}

/// One set-property instruction.
pub struct SetProperty {
    pub kind: PropertyKind,
    pub value: SetPropertyValue,
    pub element_name: String,
}

/// The JS variant and value flag of an or-type value: only the closed
/// built-in sets are known; anything else is a reported error.
pub open spec fn spec_variant_of(name: Seq<char>, rest: Seq<char>) -> Result<
    (Seq<char>, bool),
    Seq<char>,
> {
    if name == "ftd#resizing"@ {
        if rest == "fixed"@ {
            Ok(("fastn_dom.Resizing.Fixed"@, true))
        } else if rest == "fill-container"@ {
            Ok(("fastn_dom.Resizing.FillContainer"@, false))
        } else if rest == "hug-content"@ {
            Ok(("fastn_dom.Resizing.HugContent"@, false))
        } else {
            Err("unknown resizing variant"@)
        }
    } else if name == "ftd#length"@ {
        match spec_length_variant(rest) {
            Some(v) => Ok(("fastn_dom.Length."@ + v, true)),
            None => Err("unknown length variant"@),
        }
    } else if name == "ftd#border-style"@ {
        match spec_border_style_variant(rest) {
            Some(v) => Ok(("fastn_dom.BorderStyle."@ + v, false)),
            None => Err("unknown border-style variant"@),
        }
    } else {
        Err("unknown or-type in JS generation"@)
    }
}

pub open spec fn spec_length_variant(name: Seq<char>) -> Option<Seq<char>> {
    if name == "px"@ {
        Some("Px"@)
    } else if name == "em"@ {
        Some("Em"@)
    } else if name == "rem"@ {
        Some("Rem"@)
    } else if name == "percent"@ {
        Some("Percent"@)
    } else if name == "vh"@ {
        Some("Vh"@)
    } else if name == "vw"@ {
        Some("Vw"@)
    } else if name == "calc"@ {
        Some("Calc"@)
    } else {
        None
    }
}

pub open spec fn spec_border_style_variant(name: Seq<char>) -> Option<Seq<char>> {
    if name == "solid"@ {
        Some("Solid"@)
    } else if name == "dashed"@ {
        Some("Dashed"@)
    } else if name == "dotted"@ {
        Some("Dotted"@)
    } else if name == "groove"@ {
        Some("Groove"@)
    } else if name == "inset"@ {
        Some("Inset"@)
    } else if name == "outset"@ {
        Some("Outset"@)
    } else if name == "ridge"@ {
        Some("Ridge"@)
    } else if name == "double"@ {
        Some("Double"@)
    } else {
        None
    }
}

/// Maps a resizing variant to its JS name and whether it carries a value.
pub fn resizing_variants(name: &str) -> (r: Result<(String, bool), GenError>)
    ensures
        match r {
            Ok(v) => spec_variant_of("ftd#resizing"@, name@) == Result::<
                (Seq<char>, bool),
                Seq<char>,
            >::Ok((v.0@, v.1)),
            Err(e) => spec_variant_of("ftd#resizing"@, name@) matches Err(m) && m == e@.message,
        },
{
    proof {
        reveal_strlit("ftd#resizing");
    }
    if crate::text::eq_str(name, "fixed") {
        Ok((String::from_str("fastn_dom.Resizing.Fixed"), true))
    } else if crate::text::eq_str(name, "fill-container") {
        Ok((String::from_str("fastn_dom.Resizing.FillContainer"), false))
    } else if crate::text::eq_str(name, "hug-content") {
        Ok((String::from_str("fastn_dom.Resizing.HugContent"), false))
    } else {
        gen_err("unknown resizing variant")
    }
}

/// Maps a length variant to its JS name.
pub fn length_variants(name: &str) -> (r: Result<String, GenError>)
    ensures
        match r {
            Ok(v) => spec_length_variant(name@) == Some(v@),
            Err(e) => spec_length_variant(name@) is None && e@.message
                == "unknown length variant"@,
        },
{
    if crate::text::eq_str(name, "px") {
        Ok(String::from_str("Px"))
    } else if crate::text::eq_str(name, "em") {
        Ok(String::from_str("Em"))
    } else if crate::text::eq_str(name, "rem") {
        Ok(String::from_str("Rem"))
    } else if crate::text::eq_str(name, "percent") {
        Ok(String::from_str("Percent"))
    } else if crate::text::eq_str(name, "vh") {
        Ok(String::from_str("Vh"))
    } else if crate::text::eq_str(name, "vw") {
        Ok(String::from_str("Vw"))
    } else if crate::text::eq_str(name, "calc") {
        Ok(String::from_str("Calc"))
    } else {
        gen_err("unknown length variant")
    }
}

/// Maps a border-style variant to its JS name.
pub fn border_style_variants(name: &str) -> (r: Result<String, GenError>)
    ensures
        match r {
            Ok(v) => spec_border_style_variant(name@) == Some(v@),
            Err(e) => spec_border_style_variant(name@) is None && e@.message
                == "unknown border-style variant"@,
        },
{
    if crate::text::eq_str(name, "solid") {
        Ok(String::from_str("Solid"))
    } else if crate::text::eq_str(name, "dashed") {
        Ok(String::from_str("Dashed"))
    } else if crate::text::eq_str(name, "dotted") {
        Ok(String::from_str("Dotted"))
    } else if crate::text::eq_str(name, "groove") {
        Ok(String::from_str("Groove"))
    } else if crate::text::eq_str(name, "inset") {
        Ok(String::from_str("Inset"))
    } else if crate::text::eq_str(name, "outset") {
        Ok(String::from_str("Outset"))
    } else if crate::text::eq_str(name, "ridge") {
        Ok(String::from_str("Ridge"))
    } else if crate::text::eq_str(name, "double") {
        Ok(String::from_str("Double"))
    } else {
        gen_err("unknown border-style variant")
    }
}

/// Splits `name.variant` and maps it to its JS variant and value flag.
pub fn ftd_to_js_variant(name: &str, variant: &str) -> (r: Result<(String, bool), GenError>)
    ensures
        match r {
            Ok(v) => crate::p11::is_prefix(variant@, name@ + "."@) && spec_variant_of(
                name@,
                variant@.skip(name@.len() as int + 1),
            ) == Result::<(Seq<char>, bool), Seq<char>>::Ok((v.0@, v.1)),
            Err(e) => (!crate::p11::is_prefix(variant@, name@ + "."@) && e@.message
                == "or-type variant does not name its type"@) || (crate::p11::is_prefix(
                variant@,
                name@ + "."@,
            ) && (spec_variant_of(name@, variant@.skip(name@.len() as int + 1)) matches Err(m)
                && m == e@.message)),
        },
{
    let mut prefix = String::from_str(name);
    prefix.push('.');
    proof {
        reveal_strlit(".");
        assert(prefix@ =~= name@ + "."@);
    }
    if !crate::text::str_starts_with(variant, prefix.as_str()) {
        return gen_err("or-type variant does not name its type");
    }
    let vlen = variant.unicode_len();
    let plen = prefix.as_str().unicode_len();
    let rest = variant.substring_char(plen, vlen).to_owned();
    proof {
        assert(rest@ =~= variant@.skip(name@.len() as int + 1));
    }
    proof {
        reveal_strlit("ftd#resizing");
        reveal_strlit("ftd#length");
        reveal_strlit("ftd#border-style");
        reveal_strlit("fastn_dom.Length.");
        reveal_strlit("fastn_dom.BorderStyle.");
    }
    if crate::text::eq_str(name, "ftd#resizing") {
        match resizing_variants(rest.as_str()) {
            Ok(v) => Ok(v),
            Err(e) => Err(e),
        }
    } else if crate::text::eq_str(name, "ftd#length") {
        match length_variants(rest.as_str()) {
            Ok(v) => {
                let mut out = String::from_str("fastn_dom.Length.");
                out.append(v.as_str());
                proof {
                    assert(out@ =~= "fastn_dom.Length."@ + v@);
                }
                Ok((out, true))
            },
            Err(e) => Err(e),
        }
    } else if crate::text::eq_str(name, "ftd#border-style") {
        match border_style_variants(rest.as_str()) {
            Ok(v) => {
                let mut out = String::from_str("fastn_dom.BorderStyle.");
                out.append(v.as_str());
                proof {
                    assert(out@ =~= "fastn_dom.BorderStyle."@ + v@);
                }
                Ok((out, false))
            },
            Err(e) => Err(e),
        }
    } else {
        gen_err("unknown or-type in JS generation")
    }
}

/// The JS text of a concrete value: strings are quoted, integers and
/// booleans printed, or-types mapped through their variant table with a
/// value-carrying variant keeping its rendered payload; every other value
/// kind is a reported error.
pub open spec fn spec_value_js(v: SpecValue) -> Result<Seq<char>, Seq<char>>
    decreases v,
{
    match v {
        SpecValue::String { text } => Ok(crate::html::spec_quote(text)),
        SpecValue::Integer { value } => Ok(crate::text::spec_i64_str(value)),
        SpecValue::Boolean { value } => Ok(
            if value {
                "true"@
            } else {
                "false"@
            },
        ),
        SpecValue::OrType { name, variant, value } => {
            if crate::p11::is_prefix(variant, name + "."@) {
                match spec_variant_of(name, variant.skip(name.len() as int + 1)) {
                    Ok(jv) => if jv.1 {
                        match spec_value_js(*value) {
                            Ok(payload) => Ok(jv.0 + "("@ + payload + ")"@),
                            Err(m) => Err(m),
                        }
                    } else {
                        Ok(jv.0)
                    },
                    Err(m) => Err(m),
                }
            } else {
                Err("or-type variant does not name its type"@)
            }
        },
        _ => Err("unsupported value kind in JS generation"@),
    }
}

/// Renders one concrete value as JS text.
pub fn value_js(v: &crate::interpreter::Value) -> (r: Result<String, GenError>)
    ensures
        match r {
            Ok(t) => spec_value_js(v@) == Result::<Seq<char>, Seq<char>>::Ok(t@),
            Err(e) => spec_value_js(v@) matches Err(m) && m == e@.message,
        },
    decreases *v,
{
    match v {
        crate::interpreter::Value::String { text } => Ok(crate::html::quote(text.as_str())),
        crate::interpreter::Value::Integer { value } => Ok(crate::text::i64_to_string(*value)),
        crate::interpreter::Value::Boolean { value } => {
            if *value {
                Ok(String::from_str("true"))
            } else {
                Ok(String::from_str("false"))
            }
        },
        crate::interpreter::Value::OrType { name, variant, value } => {
            match ftd_to_js_variant(name.as_str(), variant.as_str()) {
                Err(e) => Err(e),
                Ok(jv) => {
                    if jv.1 {
                        match value_js(&*value) {
                            Err(e) => Err(e),
                            Ok(payload) => {
                                let mut out = jv.0;
                                out.push('(');
                                out.append(payload.as_str());
                                out.push(')');
                                proof {
                                    reveal_strlit("(");
                                    reveal_strlit(")");
                                    assert(out@ =~= spec_value_js(v@)->Ok_0);
                                }
                                Ok(out)
                            },
                        }
                    } else {
                        Ok(jv.0)
                    }
                },
            }
        },
        _ => gen_err("unsupported value kind in JS generation"),
    }
}

/// A property value bound for JS generation: concrete data, a reference into
/// the bag, or a formula over conditional contributions.
pub enum Value {
    Data(crate::interpreter::Value),
    Reference(String),
    Formula(Vec<Property>),
}

#[verifier::ext_equal]
pub enum SpecJsValue {
    Data(SpecValue),
    Reference(Seq<char>),
    Formula(Seq<SpecProperty>),
}

impl View for Value {
    type V = SpecJsValue;

    open spec fn view(&self) -> SpecJsValue {
        match self {
            Value::Data(v) => SpecJsValue::Data(v@),
            Value::Reference(n) => SpecJsValue::Reference(n@),
            Value::Formula(ps) => SpecJsValue::Formula(ps@.map_values(|p: Property| p@)),
        }
    }
}

/// The dependency list of a formula: the reference of each contribution's
/// value, then the references its condition reads, in reading order.
pub open spec fn spec_formula_deps(ps: Seq<SpecProperty>) -> Seq<Seq<char>>
    decreases ps.len(),
{
    if ps.len() == 0 {
        Seq::empty()
    } else {
        spec_property_deps(ps[0]) + spec_formula_deps(ps.drop_first())
    }
}

pub open spec fn spec_property_deps(p: SpecProperty) -> Seq<Seq<char>> {
    let own = match p.value {
        SpecRefOrValue::Reference { name } => seq![name],
        _ => Seq::<Seq<char>>::empty(),
    };
    own + (match p.condition {
        Some(c) => spec_condition_deps(c.references),
        None => Seq::<Seq<char>>::empty(),
    })
}

pub open spec fn spec_condition_deps(refs: Seq<(Seq<char>, SpecRefOrValue)>) -> Seq<Seq<char>>
    decreases refs.len(),
{
    if refs.len() == 0 {
        Seq::empty()
    } else {
        (match refs[0].1 {
            SpecRefOrValue::Reference { name } => seq![name],
            _ => Seq::<Seq<char>>::empty(),
        }) + spec_condition_deps(refs.drop_first())
    }
}

/// Collects one property's dependencies into the list.
fn push_property_deps(deps: Vec<String>, p: &Property) -> (r: Vec<String>)
    ensures
        r@.map_values(|d: String| d@) == deps@.map_values(|d: String| d@) + spec_property_deps(
            p@,
        ),
{
    let ghost deps0 = deps@.map_values(|d: String| d@);
    let mut deps = deps;
    match &p.value {
        RefOrValue::Reference { name } => {
            deps.push(name.clone());
            proof {
                assert(deps@.map_values(|d: String| d@) =~= deps0.push(name@));
            }
        },
        _ => {},
    }
    let ghost mid = deps@.map_values(|d: String| d@);
    match &p.condition {
        None => {
            proof {
                assert(deps@.map_values(|d: String| d@) =~= deps0 + spec_property_deps(p@));
            }
        },
        Some(c) => {
            let ghost rv = c@.references;
            proof {
                assert(rv.skip(0) =~= rv);
            }
            let n = c.references.len();
            let mut i: usize = 0;
            while i < n
                invariant
                    0 <= i <= n == c.references@.len(),
                    rv == c@.references,
                    rv.len() == n,
                    deps@.map_values(|d: String| d@) + spec_condition_deps(rv.skip(i as int))
                        =~= mid + spec_condition_deps(rv),
                decreases n - i,
            {
                proof {
                    assert(rv.skip(i as int)[0] == rv[i as int]);
                    assert(rv[i as int] == (c.references@[i as int].0@, c.references@[i as int].1@));
                    assert(rv.skip(i as int).drop_first() =~= rv.skip(i + 1));
                }
                match &c.references[i].1 {
                    RefOrValue::Reference { name } => {
                        let ghost d0 = deps@.map_values(|d: String| d@);
                        deps.push(name.clone());
                        proof {
                            assert(deps@.map_values(|d: String| d@) =~= d0.push(name@));
                            assert(d0.push(name@) + spec_condition_deps(rv.skip(i + 1)) =~= d0 + (
                            seq![name@] + spec_condition_deps(rv.skip(i + 1))));
                        }
                    },
                    _ => {},
                }
                i += 1;
            }
            proof {
                assert(rv.skip(n as int) =~= Seq::<(Seq<char>, SpecRefOrValue)>::empty());
                assert(deps@.map_values(|d: String| d@) =~= mid + spec_condition_deps(rv));
                assert(deps@.map_values(|d: String| d@) =~= deps0 + spec_property_deps(p@));
            }
        },
    }
    deps
}

/// The JS text a bound value renders as.
pub open spec fn spec_rov_js(v: SpecRefOrValue) -> Result<Seq<char>, Seq<char>> {
    match v {
        SpecRefOrValue::Value { value } => spec_value_js(value),
        SpecRefOrValue::Reference { name } => Ok(name),
    }
}

/// Renders one bound value as JS text.
pub fn rov_js(v: &RefOrValue) -> (r: Result<String, GenError>)
    ensures
        match r {
            Ok(t) => spec_rov_js(v@) == Result::<Seq<char>, Seq<char>>::Ok(t@),
            Err(e) => spec_rov_js(v@) matches Err(m) && m == e@.message,
        },
{
    match v {
        RefOrValue::Value { value } => value_js(value),
        RefOrValue::Reference { name } => Ok(name.clone()),
    }
}

/// What a formula carries to the runtime: its dependency list and one
/// conditional value per contribution.
pub open spec fn spec_formula(ps: Seq<SpecProperty>) -> Result<
    (Seq<Seq<char>>, Seq<SpecConditionalValue>),
    Seq<char>,
> {
    match spec_conditional_values(ps) {
        Err(m) => Err(m),
        Ok(cvs) => Ok((spec_formula_deps(ps), cvs)),
    }
}

pub open spec fn spec_conditional_values(ps: Seq<SpecProperty>) -> Result<
    Seq<SpecConditionalValue>,
    Seq<char>,
>
    decreases ps.len(),
{
    if ps.len() == 0 {
        Ok(Seq::empty())
    } else {
        match spec_rov_js(ps[0].value) {
            Err(m) => Err(m),
            Ok(expr) => match spec_conditional_values(ps.drop_first()) {
                Err(m) => Err(m),
                Ok(rest) => Ok(
                    seq![
                        SpecConditionalValue {
                            condition: match ps[0].condition {
                                Some(c) => Some(c.expression),
                                None => None,
                            },
                            expression: expr,
                        },
                    ] + rest,
                ),
            },
        }
    }
}

/// Builds the formula of a conditional property list: the dependency list
/// holds every referenced name, and one conditional value per contribution.
pub fn formulas_to_js_value(properties: &Vec<Property>) -> (r: Result<SetPropertyValue, GenError>)
    ensures
        match r {
            Ok(f) => f@ matches SpecSetPropertyValue::Formula { deps, conditional_values } && (
            spec_formula(properties@.map_values(|p: Property| p@)) == Result::<
                (Seq<Seq<char>>, Seq<SpecConditionalValue>),
                Seq<char>,
            >::Ok((deps, conditional_values))),
            Err(e) => spec_formula(properties@.map_values(|p: Property| p@)) matches Err(m) && m
                == e@.message,
        },
{
    let ghost pv = properties@.map_values(|p: Property| p@);
    proof {
        assert(pv.skip(0) =~= pv);
    }
    let n = properties.len();
    let mut deps: Vec<String> = Vec::new();
    let mut cvs: Vec<ConditionalValue> = Vec::new();
    proof {
        assert(deps@.map_values(|d: String| d@) + spec_formula_deps(pv.skip(0))
            =~= spec_formula_deps(pv));
        if spec_conditional_values(pv) is Ok {
            assert(spec_conditional_values(pv)->Ok_0 =~= cvs@.map_values(|c: ConditionalValue| c@)
                + spec_conditional_values(pv)->Ok_0);
        }
    }
    let mut i: usize = 0;
    while i < n
        invariant
            0 <= i <= n == properties@.len(),
            pv == properties@.map_values(|p: Property| p@),
            pv.len() == n,
            deps@.map_values(|d: String| d@) + spec_formula_deps(pv.skip(i as int))
                =~= spec_formula_deps(pv),
            spec_conditional_values(pv) matches Ok(all) ==> {
                &&& spec_conditional_values(pv.skip(i as int)) matches Ok(rest)
                &&& all =~= cvs@.map_values(|c: ConditionalValue| c@) + rest
            },
            spec_conditional_values(pv) matches Err(m) ==> spec_conditional_values(
                pv.skip(i as int),
            ) == Result::<Seq<SpecConditionalValue>, Seq<char>>::Err(m),
        decreases n - i,
    {
        proof {
            assert(pv.skip(i as int)[0] == pv[i as int]);
            assert(pv[i as int] == properties[i as int]@);
            assert(pv.skip(i as int).drop_first() =~= pv.skip(i + 1));
        }
        let p = &properties[i];
        deps = push_property_deps(deps, p);
        match rov_js(&p.value) {
            Err(e) => {
                return Err(e);
            },
            Ok(expr) => {
                let cv = ConditionalValue {
                    condition: match &p.condition {
                        Some(c) => Some(c.expression.clone()),
                        None => None,
                    },
                    expression: expr,
                };
                let ghost cvs0 = cvs@.map_values(|c: ConditionalValue| c@);
                proof {
                    assert(cv@ =~~= (SpecConditionalValue {
                        condition: match pv[i as int].condition {
                            Some(c) => Some(c.expression),
                            None => None,
                        },
                        expression: spec_rov_js(pv[i as int].value)->Ok_0,
                    }));
                }
                cvs.push(cv);
                proof {
                    assert(cvs@.map_values(|c: ConditionalValue| c@) =~= cvs0.push(cv@));
                    if spec_conditional_values(pv) is Ok {
                        assert(cvs0.push(cv@) + spec_conditional_values(pv.skip(i + 1))->Ok_0
                            =~= cvs0 + (seq![cv@] + spec_conditional_values(pv.skip(i + 1))->Ok_0));
                    }
                }
            },
        }
        i += 1;
    }
    proof {
        assert(pv.skip(n as int) =~= Seq::<SpecProperty>::empty());
        assert(deps@.map_values(|d: String| d@) =~= spec_formula_deps(pv));
        if spec_conditional_values(pv) is Ok {
            assert(spec_conditional_values(pv)->Ok_0 =~= cvs@.map_values(
                |c: ConditionalValue| c@,
            ));
        }
    }
    Ok(SetPropertyValue::Formula { deps, conditional_values: cvs })
}

/// What a bound value renders to for the runtime, or the exact failure.
pub open spec fn spec_spv(v: SpecJsValue) -> Result<SpecSetPropertyValue, Seq<char>> {
    match v {
        SpecJsValue::Data(d) => match spec_value_js(d) {
            Ok(t) => Ok(SpecSetPropertyValue::Value { text: t }),
            Err(m) => Err(m),
        },
        SpecJsValue::Reference(n) => Ok(SpecSetPropertyValue::Reference { name: n }),
        SpecJsValue::Formula(ps) => match spec_formula(ps) {
            Ok(f) => Ok(
                SpecSetPropertyValue::Formula { deps: f.0, conditional_values: f.1 },
            ),
            Err(m) => Err(m),
        },
    }
}

impl Value {
    /// Renders this bound value for the runtime; a value outside the closed
    /// set is the exact error of `spec_spv`.
    pub fn to_set_property_value(&self) -> (r: Result<SetPropertyValue, GenError>)
        ensures
            match r {
                Ok(spv) => spec_spv(self@) == Result::<SpecSetPropertyValue, Seq<char>>::Ok(spv@),
                Err(e) => spec_spv(self@) matches Err(m) && m == e@.message,
            },
    {
        match self {
            Value::Data(v) => match value_js(v) {
                Ok(t) => Ok(SetPropertyValue::Value { text: t }),
                Err(e) => Err(e),
            },
            Value::Reference(n) => Ok(SetPropertyValue::Reference { name: n.clone() }),
            Value::Formula(ps) => match formulas_to_js_value(ps) {
                Ok(f) => {
                    proof {
                        assert(spec_spv(self@) == Result::<SpecSetPropertyValue, Seq<char>>::Ok(
                            f@,
                        ));
                    }
                    Ok(f)
                },
                Err(e) => Err(e),
            },
        }
    }

    /// Renders this bound value as a set-property instruction carrying the
    /// given kind and element.
    pub fn to_set_property(&self, kind: PropertyKind, element_name: &str) -> (r: Result<
        SetProperty,
        GenError,
    >)
        ensures
            match r {
                Ok(sp) => sp.element_name@ == element_name@ && spec_spv(self@) == Result::<
                    SpecSetPropertyValue,
                    Seq<char>,
                >::Ok(sp.value@) && ((sp.kind is Text) <==> (kind is Text)),
                Err(e) => spec_spv(self@) matches Err(m) && m == e@.message,
            },
    {
        match self.to_set_property_value() {
            Ok(value) => Ok(
                SetProperty { kind, value, element_name: String::from_str(element_name) },
            ),
            Err(e) => Err(e),
        }
    }
}

/// What one declared argument contributes with no call-site property: its
/// default, the kind-based empty list or absent optional, or nothing.
pub open spec fn spec_default_value(a: SpecArgument) -> Option<SpecJsValue> {
    match a.value {
        Some(SpecRefOrValue::Value { value }) => Some(SpecJsValue::Data(value)),
        Some(SpecRefOrValue::Reference { name }) => Some(SpecJsValue::Reference(name)),
        None => {
            if crate::executor::spec_is_list_kind(a.kind) {
                Some(
                    SpecJsValue::Data(SpecValue::List { data: Seq::empty(), kind: a.kind }),
                )
            } else if crate::executor::spec_is_optional_kind(a.kind) {
                Some(SpecJsValue::Data(SpecValue::Optional { data: None, kind: a.kind }))
            } else {
                None
            }
        },
    }
}

/// The call-site properties that set one argument.
pub open spec fn spec_arg_properties(ps: Seq<SpecProperty>, name: Seq<char>) -> Seq<SpecProperty>
    decreases ps.len(),
{
    if ps.len() == 0 {
        Seq::empty()
    } else {
        let rest = spec_arg_properties(ps.drop_first(), name);
        if ps[0].source == name {
            seq![ps[0]] + rest
        } else {
            rest
        }
    }
}

/// What one argument binds to at a call site, for generation: a single
/// unconditional property gives its value directly; several properties, or a
/// conditional one, give a formula.
pub open spec fn spec_optional_value(a: SpecArgument, ps: Seq<SpecProperty>) -> Option<
    SpecJsValue,
> {
    let mine = spec_arg_properties(ps, a.name);
    if mine.len() == 0 {
        None
    } else if mine.len() == 1 && mine[0].condition is None {
        Some(
            match mine[0].value {
                SpecRefOrValue::Value { value } => SpecJsValue::Data(value),
                SpecRefOrValue::Reference { name } => SpecJsValue::Reference(name),
            },
        )
    } else {
        Some(SpecJsValue::Formula(mine))
    }
}

impl crate::interpreter::RefOrValue {
    /// Reads this bound value into the generator's value form.
    pub fn to_value(&self) -> (r: Value)
        ensures
            r@ == (match self@ {
                SpecRefOrValue::Value { value } => SpecJsValue::Data(value),
                SpecRefOrValue::Reference { name } => SpecJsValue::Reference(name),
            }),
    {
        match self {
            RefOrValue::Value { value } => Value::Data(crate::executor::clone_value(value)),
            RefOrValue::Reference { name } => Value::Reference(name.clone()),
        }
    }
}

impl Argument {
    /// The argument's default, when its declaration or kind provides one.
    pub fn get_default_value(&self) -> (r: Option<Value>)
        ensures
            match r {
                Some(v) => spec_default_value(self@) == Some(v@),
                None => spec_default_value(self@) is None,
            },
    {
        match &self.value {
            Some(v) => Some(v.to_value()),
            None => {
                if crate::executor::is_list_kind(self.kind.as_str()) {
                    let empty_data: Vec<crate::interpreter::Value> = Vec::new();
                    proof {
                        assert(crate::interpreter::values_view(empty_data, 0) =~= Seq::<
                            SpecValue,
                        >::empty());
                    }
                    let v = Value::Data(
                        crate::interpreter::Value::List {
                            data: empty_data,
                            kind: self.kind.clone(),
                        },
                    );
                    proof {
                        assert(v@ =~~= spec_default_value(self@)->Some_0);
                    }
                    Some(v)
                } else if crate::executor::is_optional_kind(self.kind.as_str()) {
                    let v = Value::Data(
                        crate::interpreter::Value::Optional {
                            data: None,
                            kind: self.kind.clone(),
                        },
                    );
                    proof {
                        assert(v@ =~~= spec_default_value(self@)->Some_0);
                    }
                    Some(v)
                } else {
                    None
                }
            },
        }
    }

    /// The value this argument takes at one call site, when the call site
    /// sets it.
    pub fn get_optional_value(&self, properties: &Vec<Property>) -> (r: Option<Value>)
        ensures
            match r {
                Some(v) => spec_optional_value(
                    self@,
                    properties@.map_values(|p: Property| p@),
                ) == Some(v@),
                None => spec_optional_value(self@, properties@.map_values(|p: Property| p@))
                    is None,
            },
    {
        let ghost pv = properties@.map_values(|p: Property| p@);
        proof {
            assert(pv.skip(0) =~= pv);
        }
        let n = properties.len();
        let mut mine: Vec<Property> = Vec::new();
        proof {
            assert(mine@.map_values(|p: Property| p@) + spec_arg_properties(
                pv.skip(0),
                self@.name,
            ) =~= spec_arg_properties(pv, self@.name));
        }
        let mut i: usize = 0;
        while i < n
            invariant
                0 <= i <= n == properties@.len(),
                pv == properties@.map_values(|p: Property| p@),
                pv.len() == n,
                mine@.map_values(|p: Property| p@) + spec_arg_properties(
                    pv.skip(i as int),
                    self@.name,
                ) =~= spec_arg_properties(pv, self@.name),
            decreases n - i,
        {
            proof {
                assert(pv.skip(i as int)[0] == pv[i as int]);
                assert(pv[i as int] == properties[i as int]@);
                assert(pv.skip(i as int).drop_first() =~= pv.skip(i + 1));
            }
            if crate::text::eq_str(properties[i].source.as_str(), self.name.as_str()) {
                let ghost mine0 = mine@.map_values(|p: Property| p@);
                let copied = crate::executor::clone_properties_public_one(&properties[i]);
                mine.push(copied);
                proof {
                    assert(mine@.map_values(|p: Property| p@) =~= mine0.push(pv[i as int]));
                    assert(mine0.push(pv[i as int]) + spec_arg_properties(
                        pv.skip(i + 1),
                        self@.name,
                    ) =~= mine0 + (seq![pv[i as int]] + spec_arg_properties(
                        pv.skip(i + 1),
                        self@.name,
                    )));
                }
            }
            i += 1;
        }
        proof {
            assert(pv.skip(n as int) =~= Seq::<SpecProperty>::empty());
            assert(mine@.map_values(|p: Property| p@) =~= spec_arg_properties(pv, self@.name));
        }
        if mine.len() == 0 {
            return None;
        }
        if mine.len() == 1 && mine[0].condition.is_none() {
            let v = mine[0].value.to_value();
            return Some(v);
        }
        Some(Value::Formula(mine))
    }

    /// The value this argument takes: the call site's, else the default; an
    /// argument with neither is a reported error naming it. (The component
    /// being instantiated is not in scope here; the executor's binding states
    /// the failure with both names.)
    pub fn get_value(&self, properties: &Vec<Property>) -> (r: Result<Value, GenError>)
        ensures
            match r {
                Ok(v) => spec_optional_value(self@, properties@.map_values(|p: Property| p@))
                    == Some(v@) || (spec_optional_value(
                    self@,
                    properties@.map_values(|p: Property| p@),
                ) is None && spec_default_value(self@) == Some(v@)),
                Err(e) => spec_optional_value(self@, properties@.map_values(|p: Property| p@))
                    is None && spec_default_value(self@) is None && e@.message
                    == "expected value for argument: "@ + self@.name,
            },
    {
        match self.get_optional_value(properties) {
            Some(v) => Ok(v),
            None => match self.get_default_value() {
                Some(v) => Ok(v),
                None => {
                    let mut m = String::from_str("expected value for argument: ");
                    m.append(self.name.as_str());
                    Err(GenError { message: m })
                },
            },
        }
    }
}

/// The first declared argument carrying a name.
pub open spec fn spec_find_argument(args: Seq<SpecArgument>, name: Seq<char>) -> Option<
    SpecArgument,
>
    decreases args.len(),
{
    if args.len() == 0 {
        None
    } else if args[0].name == name {
        Some(args[0])
    } else {
        spec_find_argument(args.drop_first(), name)
    }
}

/// Looks an argument up by name and reads its call-site value; a key naming
/// no declared argument is the reported error below.
pub fn get_properties(key: &str, properties: &Vec<Property>, arguments: &Vec<Argument>) -> (r:
    Result<Option<Value>, GenError>)
    ensures
        match r {
            Ok(o) => spec_find_argument(args_view(*arguments), key@) matches Some(a) && (match o {
                Some(v) => spec_optional_value(a, properties@.map_values(|p: Property| p@))
                    == Some(v@),
                None => spec_optional_value(a, properties@.map_values(|p: Property| p@)) is None,
            }),
            Err(e) => spec_find_argument(args_view(*arguments), key@) is None && e@.message
                == "unknown argument key"@,
        },
{
    let ghost av = args_view(*arguments);
    proof {
        assert(av.skip(0) =~= av);
    }
    let n = arguments.len();
    let mut i: usize = 0;
    while i < n
        invariant
            0 <= i <= n == arguments@.len(),
            av == args_view(*arguments),
            av.len() == n,
            spec_find_argument(av.skip(i as int), key@) == spec_find_argument(av, key@),
        decreases n - i,
    {
        proof {
            assert(av.skip(i as int)[0] == av[i as int]);
            assert(av[i as int] == arguments[i as int]@);
            assert(av.skip(i as int).drop_first() =~= av.skip(i + 1));
        }
        if crate::text::eq_str(arguments[i].name.as_str(), key) {
            let r = arguments[i].get_optional_value(properties);
            return Ok(r);
        }
        i += 1;
    }
    proof {
        assert(av.skip(n as int) =~= Seq::<SpecArgument>::empty());
    }
    gen_err("unknown argument key")
}

/// The view of an argument list.
pub open spec fn args_view(v: Vec<Argument>) -> Seq<SpecArgument> {
    v@.map_values(|a: Argument| a@)
}

impl crate::interpreter::PropertyValue {
    /// Reads an interpreted property value into the generator's value form.
    pub fn to_value(&self) -> (r: Value)
        ensures
            r@ == (match self@ {
                SpecPropertyValue::Value { value } => SpecJsValue::Data(value),
                SpecPropertyValue::Reference { name } => SpecJsValue::Reference(name),
                SpecPropertyValue::Formula { properties } => SpecJsValue::Formula(properties),
            }),
    {
        match self {
            PropertyValue::Value { value } => Value::Data(crate::executor::clone_value(value)),
            PropertyValue::Reference { name } => Value::Reference(name.clone()),
            PropertyValue::Formula { properties } => {
                let ps = crate::executor::clone_properties_public(properties);
                let v = Value::Formula(ps);
                proof {
                    assert(v@ =~~= (SpecJsValue::Formula(self@->Formula_properties)));
                }
                v
            },
        }
    }
}

} // verus!

verus! {

/// One reactive instruction for the companion runtime.
pub enum JsAst {
    MutableVariable { name: String, value: String, is_quoted: bool },
    StaticVariable { name: String, value: String, is_quoted: bool },
    ComponentDeclaration { name: String, params: Vec<String>, body: Vec<ComponentStatement> },
    FunctionDeclaration { name: String, params: Vec<String>, body: Vec<String> },
}

/// One statement of a component declaration.
pub enum ComponentStatement {
    InstantiateComponent { name: String, arguments: Vec<SetPropertyValue>, parent: String },
}

#[verifier::ext_equal]
pub enum SpecJsAst {
    MutableVariable { name: Seq<char>, value: Seq<char>, is_quoted: bool },
    StaticVariable { name: Seq<char>, value: Seq<char>, is_quoted: bool },
    ComponentDeclaration {
        name: Seq<char>,
        params: Seq<Seq<char>>,
        body: Seq<SpecComponentStatement>,
    },
    FunctionDeclaration { name: Seq<char>, params: Seq<Seq<char>>, body: Seq<Seq<char>> },
}

#[verifier::ext_equal]
pub enum SpecComponentStatement {
    InstantiateComponent {
        name: Seq<char>,
        arguments: Seq<SpecSetPropertyValue>,
        parent: Seq<char>,
    },
}

impl View for ComponentStatement {
    type V = SpecComponentStatement;

    open spec fn view(&self) -> SpecComponentStatement {
        match self {
            ComponentStatement::InstantiateComponent { name, arguments, parent } => {
                SpecComponentStatement::InstantiateComponent {
                    name: name@,
                    arguments: arguments@.map_values(|a: SetPropertyValue| a@),
                    parent: parent@,
                }
            },
        }
    }
}

impl View for JsAst {
    type V = SpecJsAst;

    open spec fn view(&self) -> SpecJsAst {
        match self {
            JsAst::MutableVariable { name, value, is_quoted } => SpecJsAst::MutableVariable {
                name: name@,
                value: value@,
                is_quoted: *is_quoted,
            },
            JsAst::StaticVariable { name, value, is_quoted } => SpecJsAst::StaticVariable {
                name: name@,
                value: value@,
                is_quoted: *is_quoted,
            },
            JsAst::ComponentDeclaration { name, params, body } => SpecJsAst::ComponentDeclaration {
                name: name@,
                params: params@.map_values(|x: String| x@),
                body: body@.map_values(|b: ComponentStatement| b@),
            },
            JsAst::FunctionDeclaration { name, params, body } => SpecJsAst::FunctionDeclaration {
                name: name@,
                params: params@.map_values(|x: String| x@),
                body: body@.map_values(|x: String| x@),
            },
        }
    }
}

/// The declaration a variable emits: its rendered value when the value is
/// concrete data or a reference; a formula value is a reported error.
pub open spec fn spec_variable_js(v: crate::interpreter::SpecVariable) -> Result<
    Seq<char>,
    Seq<char>,
> {
    match v.value {
        SpecPropertyValue::Value { value } => spec_value_js(value),
        SpecPropertyValue::Reference { name } => Ok(name),
        SpecPropertyValue::Formula { .. } => Err("variable value cannot be a formula"@),
    }
}

impl Variable {
    /// Emits this variable: a mutable or static declaration carrying its
    /// rendered value, unquoted; a formula-valued or unrenderable variable is
    /// the exact error of `spec_variable_js`.
    pub fn to_ast(&self) -> (r: Result<JsAst, GenError>)
        ensures
            match r {
                Ok(a) => spec_variable_js(self@) matches Ok(t) && a@ == (if self@.mutable {
                    SpecJsAst::MutableVariable { name: self@.name, value: t, is_quoted: false }
                } else {
                    SpecJsAst::StaticVariable { name: self@.name, value: t, is_quoted: false }
                }),
                Err(e) => spec_variable_js(self@) matches Err(m) && m == e@.message,
            },
    {
        let rendered = match &self.value {
            PropertyValue::Value { value } => match value_js(value) {
                Ok(t) => t,
                Err(e) => {
                    return Err(e);
                },
            },
            PropertyValue::Reference { name } => name.clone(),
            PropertyValue::Formula { .. } => {
                return gen_err("variable value cannot be a formula");
            },
        };
        if self.mutable {
            Ok(
                JsAst::MutableVariable {
                    name: self.name.clone(),
                    value: rendered,
                    is_quoted: false,
                },
            )
        } else {
            Ok(
                JsAst::StaticVariable {
                    name: self.name.clone(),
                    value: rendered,
                    is_quoted: false,
                },
            )
        }
    }
}

/// The rewritten statements of a function's expressions, from position `i`
/// on, or the first expression that fails to parse.
pub open spec fn spec_fn_body(
    exprs: Seq<crate::interpreter::SpecExpression>,
    args: Seq<Seq<char>>,
    i: int,
) -> Result<Seq<Seq<char>>, Seq<char>>
    decreases (if exprs.len() - i >= 0 { exprs.len() - i } else { 0 }),
{
    if i < 0 || i >= exprs.len() {
        Ok(Seq::empty())
    } else {
        match crate::expr::spec_build(exprs[i].expression) {
            Err(m) => Err(m),
            Ok(node) => match spec_fn_body(exprs, args, i + 1) {
                Err(m) => Err(m),
                Ok(rest) => Ok(seq![crate::html::spec_expr_str(node, true, args)] + rest),
            },
        }
    }
}

/// The declaration a function emits.
pub open spec fn spec_function_ast(f: crate::interpreter::SpecFunction) -> Result<
    SpecJsAst,
    Seq<char>,
> {
    let params = f.arguments.map_values(|a: SpecArgument| a.name);
    match spec_fn_body(f.expression, params, 0) {
        Err(m) => Err(m),
        Ok(body) => Ok(SpecJsAst::FunctionDeclaration { name: f.name, params, body }),
    }
}

impl crate::interpreter::Function {
    /// Emits this function: its parameters in declaration order and one
    /// rewritten statement per expression; a malformed expression is the
    /// exact parse error.
    pub fn to_ast(&self) -> (r: Result<JsAst, GenError>)
        ensures
            match r {
                Ok(a) => spec_function_ast(self@) == Result::<SpecJsAst, Seq<char>>::Ok(a@),
                Err(e) => spec_function_ast(self@) matches Err(m) && m == e@.message,
            },
    {
        let ghost pv = self@.arguments.map_values(|a: SpecArgument| a.name);
        let na = self.arguments.len();
        let mut params: Vec<String> = Vec::new();
        let mut i: usize = 0;
        while i < na
            invariant
                0 <= i <= na == self.arguments@.len(),
                params@.len() == i,
                forall|k: int| 0 <= k < i ==> #[trigger] params@[k]@ == self.arguments[k]@.name,
            decreases na - i,
        {
            params.push(self.arguments[i].name.clone());
            i += 1;
        }
        proof {
            assert(params@.map_values(|x: String| x@) =~= pv);
        }
        let ghost ev = self@.expression;
        let ne = self.expression.len();
        let mut body: Vec<String> = Vec::new();
        proof {
            if spec_fn_body(ev, pv, 0) is Ok {
                assert(spec_fn_body(ev, pv, 0)->Ok_0 =~= body@.map_values(|x: String| x@)
                    + spec_fn_body(ev, pv, 0)->Ok_0);
            }
        }
        let mut j: usize = 0;
        while j < ne
            invariant
                0 <= j <= ne == self.expression@.len(),
                ev == self@.expression,
                ev.len() == ne,
                pv == params@.map_values(|x: String| x@),
                pv == self@.arguments.map_values(|a: SpecArgument| a.name),
                spec_fn_body(ev, pv, 0) matches Ok(all) ==> {
                    &&& spec_fn_body(ev, pv, j as int) matches Ok(rest)
                    &&& all =~= body@.map_values(|x: String| x@) + rest
                },
                spec_fn_body(ev, pv, 0) matches Err(m) ==> spec_fn_body(ev, pv, j as int)
                    == Result::<Seq<Seq<char>>, Seq<char>>::Err(m),
            decreases ne - j,
        {
            proof {
                assert(ev[j as int] == self.expression[j as int]@);
            }
            match crate::expr::build_operator_tree(self.expression[j].expression.as_str()) {
                Err(m) => {
                    proof {
                        assert(spec_fn_body(ev, pv, j as int) == Result::<
                            Seq<Seq<char>>,
                            Seq<char>,
                        >::Err(m@));
                        if spec_fn_body(ev, pv, 0) is Ok {
                            assert(false);
                        }
                    }
                    return Err(GenError { message: m });
                },
                Ok(node) => {
                    let generator = crate::html::ExpressionGenerator;
                    let line = generator.to_string(&node, true, &params);
                    let ghost body0 = body@.map_values(|x: String| x@);
                    body.push(line);
                    proof {
                        assert(body@.map_values(|x: String| x@) =~= body0.push(line@));
                        if spec_fn_body(ev, pv, 0) is Ok {
                            assert(body0.push(line@) + spec_fn_body(ev, pv, j + 1)->Ok_0 =~= body0
                                + (seq![line@] + spec_fn_body(ev, pv, j + 1)->Ok_0));
                        }
                    }
                },
            }
            j += 1;
        }
        proof {
            assert(spec_fn_body(ev, pv, ne as int) == Result::<Seq<Seq<char>>, Seq<char>>::Ok(
                Seq::empty(),
            ));
            if spec_fn_body(ev, pv, 0) is Ok {
                assert(spec_fn_body(ev, pv, 0)->Ok_0 =~= body@.map_values(|x: String| x@));
            }
        }
        let a = JsAst::FunctionDeclaration { name: self.name.clone(), params, body };
        proof {
            assert(a@ =~~= spec_function_ast(self@)->Ok_0);
        }
        Ok(a)
    }
}

/// The first component definition in the bag carrying a name.
pub open spec fn spec_find_component(
    bag: Seq<(Seq<char>, SpecThing)>,
    name: Seq<char>,
) -> Option<crate::interpreter::SpecComponentDefinition>
    decreases bag.len(),
{
    if bag.len() == 0 {
        None
    } else {
        match bag[0].1 {
            SpecThing::Component(d) => if d.name == name {
                Some(d)
            } else {
                spec_find_component(bag.drop_first(), name)
            },
            _ => spec_find_component(bag.drop_first(), name),
        }
    }
}

/// The runtime values a kernel instantiation carries: one rendered value per
/// call-site property, from position `i` on.
pub open spec fn spec_kernel_arguments(ps: Seq<SpecProperty>, i: int) -> Result<
    Seq<SpecSetPropertyValue>,
    Seq<char>,
>
    decreases (if ps.len() - i >= 0 { ps.len() - i } else { 0 }),
{
    if i < 0 || i >= ps.len() {
        Ok(Seq::empty())
    } else {
        match spec_rov_js(ps[i].value) {
            Err(m) => Err(m),
            Ok(t) => match spec_kernel_arguments(ps, i + 1) {
                Err(m) => Err(m),
                Ok(rest) => Ok(seq![SpecSetPropertyValue::Value { text: t }] + rest),
            },
        }
    }
}

/// The value one declared argument takes at a call site, rendered for the
/// runtime: the call site's, else the default, else the exact naming error.
pub open spec fn spec_gen_value(a: SpecArgument, ps: Seq<SpecProperty>) -> Result<
    SpecSetPropertyValue,
    Seq<char>,
> {
    match spec_optional_value(a, ps) {
        Some(v) => spec_spv(v),
        None => match spec_default_value(a) {
            Some(v) => spec_spv(v),
            None => Err("expected value for argument: "@ + a.name),
        },
    }
}

/// All declared arguments bound and rendered, from position `i` on.
pub open spec fn spec_gen_arguments(
    args: Seq<SpecArgument>,
    ps: Seq<SpecProperty>,
    i: int,
) -> Result<Seq<SpecSetPropertyValue>, Seq<char>>
    decreases (if args.len() - i >= 0 { args.len() - i } else { 0 }),
{
    if i < 0 || i >= args.len() {
        Ok(Seq::empty())
    } else {
        match spec_gen_value(args[i], ps) {
            Err(m) => Err(m),
            Ok(v) => match spec_gen_arguments(args, ps, i + 1) {
                Err(m) => Err(m),
                Ok(rest) => Ok(seq![v] + rest),
            },
        }
    }
}

/// The one statement instantiating a component under a parent: a kernel
/// `ftd.` element carries its rendered properties, a user component its
/// declared arguments bound in declaration order; an unknown name is the
/// reported error below.
pub open spec fn spec_component_statement(
    c: crate::interpreter::SpecComponent,
    parent: Seq<char>,
    bag: Seq<(Seq<char>, SpecThing)>,
) -> Result<SpecComponentStatement, Seq<char>> {
    if crate::p11::is_prefix(c.name, "ftd."@) {
        match spec_kernel_arguments(c.properties, 0) {
            Err(m) => Err(m),
            Ok(arguments) => Ok(
                SpecComponentStatement::InstantiateComponent {
                    name: c.name,
                    arguments,
                    parent,
                },
            ),
        }
    } else {
        match spec_find_component(bag, c.name) {
            None => Err("unknown component in JS generation"@),
            Some(d) => match spec_gen_arguments(d.arguments, c.properties, 0) {
                Err(m) => Err(m),
                Ok(arguments) => Ok(
                    SpecComponentStatement::InstantiateComponent {
                        name: c.name,
                        arguments,
                        parent,
                    },
                ),
            },
        }
    }
}

/// The statements of a component list under a parent, from position `i` on.
pub open spec fn spec_statements_of(
    cs: Seq<crate::interpreter::SpecComponent>,
    parent: Seq<char>,
    bag: Seq<(Seq<char>, SpecThing)>,
    i: int,
) -> Result<Seq<SpecComponentStatement>, Seq<char>>
    decreases (if cs.len() - i >= 0 { cs.len() - i } else { 0 }),
{
    if i < 0 || i >= cs.len() {
        Ok(Seq::empty())
    } else {
        match spec_component_statement(cs[i], parent, bag) {
            Err(m) => Err(m),
            Ok(stmt) => match spec_statements_of(cs, parent, bag, i + 1) {
                Err(m) => Err(m),
                Ok(rest) => Ok(seq![stmt] + rest),
            },
        }
    }
}

impl Component {
    /// Emits the one statement instantiating this component under a parent;
    /// an unknown name or unrenderable argument is the exact error of
    /// `spec_component_statement`, never an abort.
    pub fn to_component_statements(
        &self,
        parent: &str,
        bag: &Vec<(String, Thing)>,
    ) -> (r: Result<Vec<ComponentStatement>, GenError>)
        ensures
            match r {
                Ok(ss) => spec_component_statement(
                    self@,
                    parent@,
                    crate::interpreter::bag_view(*bag),
                ) matches Ok(stmt) && ss@.map_values(|x: ComponentStatement| x@) == seq![stmt],
                Err(e) => spec_component_statement(
                    self@,
                    parent@,
                    crate::interpreter::bag_view(*bag),
                ) matches Err(m) && m == e@.message,
            },
    {
        let ghost bagv = crate::interpreter::bag_view(*bag);
        let ghost pv = self@.properties;
        proof {
            reveal_strlit("ftd.");
        }
        if crate::text::str_starts_with(self.name.as_str(), "ftd.") {
            let np = self.properties.len();
            let mut arguments: Vec<SetPropertyValue> = Vec::new();
            proof {
                if spec_kernel_arguments(pv, 0) is Ok {
                    assert(spec_kernel_arguments(pv, 0)->Ok_0 =~= arguments@.map_values(
                        |a: SetPropertyValue| a@,
                    ) + spec_kernel_arguments(pv, 0)->Ok_0);
                }
            }
            let mut i: usize = 0;
            while i < np
                invariant
                    0 <= i <= np == self.properties@.len(),
                    pv == self@.properties,
                    pv.len() == np,
                    crate::p11::is_prefix(self@.name, "ftd."@),
                    spec_kernel_arguments(pv, 0) matches Ok(all) ==> {
                        &&& spec_kernel_arguments(pv, i as int) matches Ok(rest)
                        &&& all =~= arguments@.map_values(|a: SetPropertyValue| a@) + rest
                    },
                    spec_kernel_arguments(pv, 0) matches Err(m) ==> spec_kernel_arguments(
                        pv,
                        i as int,
                    ) == Result::<Seq<SpecSetPropertyValue>, Seq<char>>::Err(m),
                decreases np - i,
            {
                proof {
                    assert(pv[i as int] == self.properties[i as int]@);
                }
                match rov_js(&self.properties[i].value) {
                    Ok(t) => {
                        let ghost a0 = arguments@.map_values(|a: SetPropertyValue| a@);
                        arguments.push(SetPropertyValue::Value { text: t });
                        proof {
                            assert(arguments@.map_values(|a: SetPropertyValue| a@) =~= a0.push(
                                SpecSetPropertyValue::Value { text: t@ },
                            ));
                            if spec_kernel_arguments(pv, 0) is Ok {
                                assert(a0.push(SpecSetPropertyValue::Value { text: t@ })
                                    + spec_kernel_arguments(pv, i + 1)->Ok_0 =~= a0 + (seq![
                                    SpecSetPropertyValue::Value { text: t@ },
                                ] + spec_kernel_arguments(pv, i + 1)->Ok_0));
                            }
                        }
                    },
                    Err(e) => {
                        proof {
                            assert(spec_kernel_arguments(pv, i as int) == Result::<
                                Seq<SpecSetPropertyValue>,
                                Seq<char>,
                            >::Err(e@.message));
                            if spec_kernel_arguments(pv, 0) is Ok {
                                assert(false);
                            }
                        }
                        return Err(e);
                    },
                }
                i += 1;
            }
            proof {
                assert(spec_kernel_arguments(pv, np as int) == Result::<
                    Seq<SpecSetPropertyValue>,
                    Seq<char>,
                >::Ok(Seq::empty()));
                if spec_kernel_arguments(pv, 0) is Ok {
                    assert(spec_kernel_arguments(pv, 0)->Ok_0 =~= arguments@.map_values(
                        |a: SetPropertyValue| a@,
                    ));
                }
            }
            let stmt = ComponentStatement::InstantiateComponent {
                name: self.name.clone(),
                arguments,
                parent: String::from_str(parent),
            };
            let mut out: Vec<ComponentStatement> = Vec::new();
            let ghost stmtv = stmt@;
            out.push(stmt);
            proof {
                assert(out@.map_values(|x: ComponentStatement| x@) =~= seq![stmtv]);
                assert(stmtv =~~= spec_component_statement(self@, parent@, bagv)->Ok_0);
            }
            Ok(out)
        } else {
            let ghost target = spec_find_component(bagv, self@.name);
            proof {
                assert(bagv.skip(0) =~= bagv);
            }
            let n = bag.len();
            let mut i: usize = 0;
            while i < n
                invariant
                    0 <= i <= n == bag@.len(),
                    bagv == crate::interpreter::bag_view(*bag),
                    bagv.len() == n,
                    target == spec_find_component(bagv, self@.name),
                    spec_find_component(bagv.skip(i as int), self@.name) == target,
                    !crate::p11::is_prefix(self@.name, "ftd."@),
                decreases n - i,
            {
                proof {
                    assert(bagv.skip(i as int)[0] == bagv[i as int]);
                    assert(bagv[i as int] == (bag@[i as int].0@, bag@[i as int].1@));
                    assert(bagv.skip(i as int).drop_first() =~= bagv.skip(i + 1));
                }
                let found = match &bag[i].1 {
                    Thing::Component(d) => crate::text::eq_str(
                        d.name.as_str(),
                        self.name.as_str(),
                    ),
                    _ => false,
                };
                if found {
                    let definition = match &bag[i].1 {
                        Thing::Component(d) => d,
                        _ => {
                            return gen_err("unknown component in JS generation");
                        },
                    };
                    proof {
                        assert(target == Some(bagv[i as int].1->Component_0));
                        assert(definition@ == bagv[i as int].1->Component_0);
                    }
                    match gen_arguments(&definition.arguments, &self.properties) {
                        Err(e) => {
                            proof {
                                assert(spec_component_statement(self@, parent@, bagv)
                                    matches Err(m) && m == e@.message);
                            }
                            return Err(e);
                        },
                        Ok(arguments) => {
                            let stmt = ComponentStatement::InstantiateComponent {
                                name: self.name.clone(),
                                arguments,
                                parent: String::from_str(parent),
                            };
                            let mut out: Vec<ComponentStatement> = Vec::new();
                            let ghost stmtv = stmt@;
                            out.push(stmt);
                            proof {
                                assert(out@.map_values(|x: ComponentStatement| x@) =~= seq![
                                    stmtv,
                                ]);
                                assert(stmtv =~~= spec_component_statement(
                                    self@,
                                    parent@,
                                    bagv,
                                )->Ok_0);
                            }
                            return Ok(out);
                        },
                    }
                }
                i += 1;
            }
            proof {
                assert(bagv.skip(n as int) =~= Seq::<(Seq<char>, SpecThing)>::empty());
                assert(target is None);
            }
            gen_err("unknown component in JS generation")
        }
    }
}

/// Binds and renders the declared arguments of a definition at one call
/// site.
fn gen_arguments(args: &Vec<Argument>, ps: &Vec<Property>) -> (r: Result<
    Vec<SetPropertyValue>,
    GenError,
>)
    ensures
        match r {
            Ok(out) => spec_gen_arguments(args_view(*args), ps@.map_values(|p: Property| p@), 0)
                == Result::<Seq<SpecSetPropertyValue>, Seq<char>>::Ok(
                out@.map_values(|a: SetPropertyValue| a@),
            ),
            Err(e) => spec_gen_arguments(args_view(*args), ps@.map_values(|p: Property| p@), 0)
                matches Err(m) && m == e@.message,
        },
{
    let ghost av = args_view(*args);
    let ghost pv = ps@.map_values(|p: Property| p@);
    let n = args.len();
    let mut out: Vec<SetPropertyValue> = Vec::new();
    proof {
        if spec_gen_arguments(av, pv, 0) is Ok {
            assert(spec_gen_arguments(av, pv, 0)->Ok_0 =~= out@.map_values(
                |a: SetPropertyValue| a@,
            ) + spec_gen_arguments(av, pv, 0)->Ok_0);
        }
    }
    let mut i: usize = 0;
    while i < n
        invariant
            0 <= i <= n == args@.len(),
            av == args_view(*args),
            pv == ps@.map_values(|p: Property| p@),
            av.len() == n,
            spec_gen_arguments(av, pv, 0) matches Ok(all) ==> {
                &&& spec_gen_arguments(av, pv, i as int) matches Ok(rest)
                &&& all =~= out@.map_values(|a: SetPropertyValue| a@) + rest
            },
            spec_gen_arguments(av, pv, 0) matches Err(m) ==> spec_gen_arguments(av, pv, i as int)
                == Result::<Seq<SpecSetPropertyValue>, Seq<char>>::Err(m),
        decreases n - i,
    {
        proof {
            assert(av[i as int] == args[i as int]@);
        }
        let v = match args[i].get_value(ps) {
            Ok(v) => v,
            Err(e) => {
                proof {
                    assert(spec_gen_value(av[i as int], pv) == Result::<
                        SpecSetPropertyValue,
                        Seq<char>,
                    >::Err(e@.message));
                    if spec_gen_arguments(av, pv, 0) is Ok {
                        assert(false);
                    }
                }
                return Err(e);
            },
        };
        match v.to_set_property_value() {
            Err(e) => {
                proof {
                    assert(spec_gen_value(av[i as int], pv) == Result::<
                        SpecSetPropertyValue,
                        Seq<char>,
                    >::Err(e@.message));
                    if spec_gen_arguments(av, pv, 0) is Ok {
                        assert(false);
                    }
                }
                return Err(e);
            },
            Ok(spv) => {
                let ghost o0 = out@.map_values(|a: SetPropertyValue| a@);
                let ghost spvv = spv@;
                out.push(spv);
                proof {
                    assert(out@.map_values(|a: SetPropertyValue| a@) =~= o0.push(spvv));
                    if spec_gen_arguments(av, pv, 0) is Ok {
                        assert(o0.push(spvv) + spec_gen_arguments(av, pv, i + 1)->Ok_0 =~= o0 + (
                        seq![spvv] + spec_gen_arguments(av, pv, i + 1)->Ok_0));
                    }
                }
            },
        }
        i += 1;
    }
    proof {
        assert(spec_gen_arguments(av, pv, n as int) == Result::<
            Seq<SpecSetPropertyValue>,
            Seq<char>,
        >::Ok(Seq::empty()));
        if spec_gen_arguments(av, pv, 0) is Ok {
            assert(spec_gen_arguments(av, pv, 0)->Ok_0 =~= out@.map_values(
                |a: SetPropertyValue| a@,
            ));
        }
    }
    Ok(out)
}

/// The declaration a component definition emits.
pub open spec fn spec_component_ast(
    c: crate::interpreter::SpecComponentDefinition,
    bag: Seq<(Seq<char>, SpecThing)>,
) -> Result<SpecJsAst, Seq<char>> {
    match spec_statements_of(c.definition, "parent"@, bag, 0) {
        Err(m) => Err(m),
        Ok(body) => Ok(
            SpecJsAst::ComponentDeclaration {
                name: c.name,
                params: c.arguments.map_values(|a: SpecArgument| a.name),
                body,
            },
        ),
    }
}

impl crate::interpreter::ComponentDefinition {
    /// Emits this component definition: its parameters and the statements
    /// its definition expands to under the parent slot.
    pub fn to_ast(&self, bag: &Vec<(String, Thing)>) -> (r: Result<JsAst, GenError>)
        ensures
            match r {
                Ok(a) => spec_component_ast(self@, crate::interpreter::bag_view(*bag))
                    == Result::<SpecJsAst, Seq<char>>::Ok(a@),
                Err(e) => spec_component_ast(self@, crate::interpreter::bag_view(*bag))
                    matches Err(m) && m == e@.message,
            },
    {
        let na = self.arguments.len();
        let mut params: Vec<String> = Vec::new();
        let mut i: usize = 0;
        while i < na
            invariant
                0 <= i <= na == self.arguments@.len(),
                params@.len() == i,
                forall|k: int| 0 <= k < i ==> #[trigger] params@[k]@ == self.arguments[k]@.name,
            decreases na - i,
        {
            params.push(self.arguments[i].name.clone());
            i += 1;
        }
        proof {
            assert(params@.map_values(|x: String| x@) =~= self@.arguments.map_values(
                |a: SpecArgument| a.name,
            ));
        }
        match from_components(&self.definition, bag) {
            Err(e) => Err(e),
            Ok(body) => {
                let a = JsAst::ComponentDeclaration { name: self.name.clone(), params, body };
                proof {
                    assert(a@ =~~= spec_component_ast(
                        self@,
                        crate::interpreter::bag_view(*bag),
                    )->Ok_0);
                }
                Ok(a)
            },
        }
    }
}

/// The statements of a component list under the parent slot.
fn from_components(cs: &Vec<Component>, bag: &Vec<(String, Thing)>) -> (r: Result<
    Vec<ComponentStatement>,
    GenError,
>)
    ensures
        match r {
            Ok(out) => spec_statements_of(
                crate::interpreter::all_components_view(*cs),
                "parent"@,
                crate::interpreter::bag_view(*bag),
                0,
            ) == Result::<Seq<SpecComponentStatement>, Seq<char>>::Ok(
                out@.map_values(|x: ComponentStatement| x@),
            ),
            Err(e) => spec_statements_of(
                crate::interpreter::all_components_view(*cs),
                "parent"@,
                crate::interpreter::bag_view(*bag),
                0,
            ) matches Err(m) && m == e@.message,
        },
{
    let ghost csv = crate::interpreter::all_components_view(*cs);
    let ghost bagv = crate::interpreter::bag_view(*bag);
    proof {
        crate::interpreter::lemma_components_view(*cs, cs@.len() as int);
        reveal_strlit("parent");
    }
    let n = cs.len();
    let mut out: Vec<ComponentStatement> = Vec::new();
    proof {
        if spec_statements_of(csv, "parent"@, bagv, 0) is Ok {
            assert(spec_statements_of(csv, "parent"@, bagv, 0)->Ok_0 =~= out@.map_values(
                |x: ComponentStatement| x@,
            ) + spec_statements_of(csv, "parent"@, bagv, 0)->Ok_0);
        }
    }
    let mut i: usize = 0;
    while i < n
        invariant
            0 <= i <= n == cs@.len(),
            csv == crate::interpreter::all_components_view(*cs),
            bagv == crate::interpreter::bag_view(*bag),
            csv.len() == n,
            forall|k: int| 0 <= k < n ==> csv[k] == cs[k]@,
            spec_statements_of(csv, "parent"@, bagv, 0) matches Ok(all) ==> {
                &&& spec_statements_of(csv, "parent"@, bagv, i as int) matches Ok(rest)
                &&& all =~= out@.map_values(|x: ComponentStatement| x@) + rest
            },
            spec_statements_of(csv, "parent"@, bagv, 0) matches Err(m) ==> spec_statements_of(
                csv,
                "parent"@,
                bagv,
                i as int,
            ) == Result::<Seq<SpecComponentStatement>, Seq<char>>::Err(m),
        decreases n - i,
    {
        match cs[i].to_component_statements("parent", bag) {
            Err(e) => {
                proof {
                    if spec_statements_of(csv, "parent"@, bagv, 0) is Ok {
                        assert(false);
                    }
                }
                return Err(e);
            },
            Ok(ss) => {
                proof {
                    assert(ss@.map_values(|x: ComponentStatement| x@).len() == 1);
                }
                let mut ss = ss;
                let stmt = match ss.pop() {
                    Some(stmt) => stmt,
                    None => {
                        return gen_err("unknown component in JS generation");
                    },
                };
                let ghost o0 = out@.map_values(|x: ComponentStatement| x@);
                let ghost stmtv = stmt@;
                out.push(stmt);
                proof {
                    assert(out@.map_values(|x: ComponentStatement| x@) =~= o0.push(stmtv));
                    if spec_statements_of(csv, "parent"@, bagv, 0) is Ok {
                        assert(o0.push(stmtv) + spec_statements_of(
                            csv,
                            "parent"@,
                            bagv,
                            i + 1,
                        )->Ok_0 =~= o0 + (seq![stmtv] + spec_statements_of(
                            csv,
                            "parent"@,
                            bagv,
                            i + 1,
                        )->Ok_0));
                    }
                }
            },
        }
        i += 1;
    }
    proof {
        assert(spec_statements_of(csv, "parent"@, bagv, n as int) == Result::<
            Seq<SpecComponentStatement>,
            Seq<char>,
        >::Ok(Seq::empty()));
        if spec_statements_of(csv, "parent"@, bagv, 0) is Ok {
            assert(spec_statements_of(csv, "parent"@, bagv, 0)->Ok_0 =~= out@.map_values(
                |x: ComponentStatement| x@,
            ));
        }
    }
    Ok(out)
}

/// The `main` declaration of a root tree.
pub open spec fn spec_main_ast(
    tree: Seq<crate::interpreter::SpecComponent>,
    bag: Seq<(Seq<char>, SpecThing)>,
) -> Result<SpecJsAst, Seq<char>> {
    match spec_statements_of(tree, "parent"@, bag, 0) {
        Err(m) => Err(m),
        Ok(body) => Ok(
            SpecJsAst::ComponentDeclaration { name: "main"@, params: Seq::empty(), body },
        ),
    }
}

/// Emits the root tree as the `main` component declaration.
pub fn from_tree(tree: &Vec<Component>, bag: &Vec<(String, Thing)>) -> (r: Result<JsAst, GenError>)
    ensures
        match r {
            Ok(a) => spec_main_ast(
                crate::interpreter::all_components_view(*tree),
                crate::interpreter::bag_view(*bag),
            ) == Result::<SpecJsAst, Seq<char>>::Ok(a@),
            Err(e) => spec_main_ast(
                crate::interpreter::all_components_view(*tree),
                crate::interpreter::bag_view(*bag),
            ) matches Err(m) && m == e@.message,
        },
{
    match from_components(tree, bag) {
        Err(e) => Err(e),
        Ok(body) => {
            let a = JsAst::ComponentDeclaration {
                name: String::from_str("main"),
                params: Vec::new(),
                body,
            };
            proof {
                assert(a@->ComponentDeclaration_params =~= Seq::<Seq<char>>::empty());
                assert(a@ =~~= spec_main_ast(
                    crate::interpreter::all_components_view(*tree),
                    crate::interpreter::bag_view(*bag),
                )->Ok_0);
            }
            Ok(a)
        },
    }
}

/// The instructions the bag's user-defined things emit, from position `i`
/// on: one per component, variable and function, in bag order.
pub open spec fn spec_bag_asts(bag: Seq<(Seq<char>, SpecThing)>, i: int) -> Result<
    Seq<SpecJsAst>,
    Seq<char>,
>
    decreases (if bag.len() - i >= 0 { bag.len() - i } else { 0 }),
{
    if i < 0 || i >= bag.len() {
        Ok(Seq::empty())
    } else {
        let own: Result<Seq<SpecJsAst>, Seq<char>> = match bag[i].1 {
            SpecThing::Component(c) => match spec_component_ast(c, bag) {
                Err(m) => Err(m),
                Ok(a) => Ok(seq![a]),
            },
            SpecThing::Variable(v) => match spec_variable_js(v) {
                Err(m) => Err(m),
                Ok(t) => Ok(
                    seq![
                        if v.mutable {
                            SpecJsAst::MutableVariable {
                                name: v.name,
                                value: t,
                                is_quoted: false,
                            }
                        } else {
                            SpecJsAst::StaticVariable {
                                name: v.name,
                                value: t,
                                is_quoted: false,
                            }
                        },
                    ],
                ),
            },
            SpecThing::Function(f) => match spec_function_ast(f) {
                Err(m) => Err(m),
                Ok(a) => Ok(seq![a]),
            },
            _ => Ok(Seq::empty()),
        };
        match own {
            Err(m) => Err(m),
            Ok(first) => match spec_bag_asts(bag, i + 1) {
                Err(m) => Err(m),
                Ok(rest) => Ok(first + rest),
            },
        }
    }
}

/// The whole instruction sequence of a document: the `main` declaration,
/// then the bag's instructions.
pub open spec fn spec_document_asts(doc: crate::interpreter::SpecDocument) -> Result<
    Seq<SpecJsAst>,
    Seq<char>,
> {
    match spec_main_ast(doc.tree, doc.data) {
        Err(m) => Err(m),
        Ok(main) => match spec_bag_asts(doc.data, 0) {
            Err(m) => Err(m),
            Ok(rest) => Ok(seq![main] + rest),
        },
    }
}

/// Walks the bag and the root tree and emits the whole instruction
/// sequence, exactly `spec_document_asts`.
pub fn document_into_js_ast(document: &crate::interpreter::Document) -> (r: Result<
    Vec<JsAst>,
    GenError,
>)
    ensures
        match r {
            Ok(asts) => spec_document_asts(document@) == Result::<Seq<SpecJsAst>, Seq<char>>::Ok(
                asts@.map_values(|a: JsAst| a@),
            ),
            Err(e) => spec_document_asts(document@) matches Err(m) && m == e@.message,
        },
{
    let ghost dv = document@;
    let main = match from_tree(&document.tree, &document.data) {
        Err(e) => {
            return Err(e);
        },
        Ok(m) => m,
    };
    let mut asts: Vec<JsAst> = Vec::new();
    let ghost mainv = main@;
    asts.push(main);
    proof {
        assert(asts@.map_values(|a: JsAst| a@) =~= seq![mainv]);
        if spec_bag_asts(dv.data, 0) is Ok {
            assert(seq![mainv] + spec_bag_asts(dv.data, 0)->Ok_0 =~= asts@.map_values(
                |a: JsAst| a@,
            ) + spec_bag_asts(dv.data, 0)->Ok_0);
        }
    }
    let n = document.data.len();
    let mut i: usize = 0;
    while i < n
        invariant
            0 <= i <= n == document.data@.len(),
            dv == document@,
            dv.data.len() == n,
            spec_main_ast(dv.tree, dv.data) == Result::<SpecJsAst, Seq<char>>::Ok(mainv),
            spec_bag_asts(dv.data, 0) matches Ok(all) ==> {
                &&& spec_bag_asts(dv.data, i as int) matches Ok(rest)
                &&& seq![mainv] + all =~= asts@.map_values(|a: JsAst| a@) + rest
            },
            spec_bag_asts(dv.data, 0) matches Err(m) ==> spec_bag_asts(dv.data, i as int)
                == Result::<Seq<SpecJsAst>, Seq<char>>::Err(m),
        decreases n - i,
    {
        proof {
            assert(dv.data[i as int] == (document.data@[i as int].0@, document.data@[i as int].1@));
        }
        match &document.data[i].1 {
            Thing::Component(c) => match c.to_ast(&document.data) {
                Err(e) => {
                    proof {
                        if spec_bag_asts(dv.data, 0) is Ok {
                            assert(false);
                        }
                    }
                    return Err(e);
                },
                Ok(a) => {
                    let ghost a0 = asts@.map_values(|x: JsAst| x@);
                    let ghost av = a@;
                    asts.push(a);
                    proof {
                        assert(asts@.map_values(|x: JsAst| x@) =~= a0.push(av));
                        if spec_bag_asts(dv.data, 0) is Ok {
                            assert(a0.push(av) + spec_bag_asts(dv.data, i + 1)->Ok_0 =~= a0 + (
                            seq![av] + spec_bag_asts(dv.data, i + 1)->Ok_0));
                        }
                    }
                },
            },
            Thing::Variable(v) => match v.to_ast() {
                Err(e) => {
                    proof {
                        if spec_bag_asts(dv.data, 0) is Ok {
                            assert(false);
                        }
                    }
                    return Err(e);
                },
                Ok(a) => {
                    let ghost a0 = asts@.map_values(|x: JsAst| x@);
                    let ghost av = a@;
                    asts.push(a);
                    proof {
                        assert(asts@.map_values(|x: JsAst| x@) =~= a0.push(av));
                        if spec_bag_asts(dv.data, 0) is Ok {
                            assert(a0.push(av) + spec_bag_asts(dv.data, i + 1)->Ok_0 =~= a0 + (
                            seq![av] + spec_bag_asts(dv.data, i + 1)->Ok_0));
                        }
                    }
                },
            },
            Thing::Function(f) => match f.to_ast() {
                Err(e) => {
                    proof {
                        if spec_bag_asts(dv.data, 0) is Ok {
                            assert(false);
                        }
                    }
                    return Err(e);
                },
                Ok(a) => {
                    let ghost a0 = asts@.map_values(|x: JsAst| x@);
                    let ghost av = a@;
                    asts.push(a);
                    proof {
                        assert(asts@.map_values(|x: JsAst| x@) =~= a0.push(av));
                        if spec_bag_asts(dv.data, 0) is Ok {
                            assert(a0.push(av) + spec_bag_asts(dv.data, i + 1)->Ok_0 =~= a0 + (
                            seq![av] + spec_bag_asts(dv.data, i + 1)->Ok_0));
                        }
                    }
                },
            },
            _ => {
                proof {
                    if spec_bag_asts(dv.data, 0) is Ok {
                        assert(spec_bag_asts(dv.data, i as int)->Ok_0 =~= spec_bag_asts(
                            dv.data,
                            i + 1,
                        )->Ok_0);
                    }
                }
            },
        }
        i += 1;
    }
    proof {
        assert(spec_bag_asts(dv.data, n as int) == Result::<Seq<SpecJsAst>, Seq<char>>::Ok(
            Seq::empty(),
        ));
        if spec_bag_asts(dv.data, 0) is Ok {
            assert(seq![mainv] + spec_bag_asts(dv.data, 0)->Ok_0 =~= asts@.map_values(
                |a: JsAst| a@,
            ));
        }
    }
    Ok(asts)
}

} // verus!
