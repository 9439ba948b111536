//! The library's stated laws, each proved over the spec functions that the
//! executable functions' contracts are pinned to.
use crate::ast;
use crate::executor::{SpecNode};
use crate::interpreter::{SpecIState, SpecIStep, SpecInterpreterError};
use vstd::prelude::*;

verus! {

/// Identical input and identical resolver answers give byte-identical
/// output: the whole HTML-path record is pinned field by field, so any two
/// assembled outputs over the same rendered tree, bag, page id and document
/// name agree on every channel — html, css, js, dependencies, variables,
/// functions, variable dependencies, outer events, dummy and raw fragments,
/// both value registries, and the page titles.
pub proof fn lemma_output_idempotent(
    ui1: crate::html::HtmlUI,
    ui2: crate::html::HtmlUI,
    main: Seq<SpecNode>,
    bag: Seq<(Seq<char>, crate::interpreter::SpecThing)>,
    id: Seq<char>,
    doc_name: Seq<char>,
)
    requires
        crate::html::spec_ui_pinned(ui1, main, bag, id, doc_name),
        crate::html::spec_ui_pinned(ui2, main, bag, id, doc_name),
    ensures
        ui1.html@ == ui2.html@,
        ui1.css@ == ui2.css@,
        ui1.js@ == ui2.js@,
        ui1.dependencies@ == ui2.dependencies@,
        ui1.variables@ == ui2.variables@,
        ui1.functions@ == ui2.functions@,
        ui1.variable_dependencies@ == ui2.variable_dependencies@,
        ui1.outer_events@ == ui2.outer_events@,
        ui1.dummy_html@ == ui2.dummy_html@,
        ui1.raw_html@ == ui2.raw_html@,
        ui1.mutable_variable@ == ui2.mutable_variable@,
        ui1.immutable_variable@ == ui2.immutable_variable@,
        crate::p11::opt_str(ui1.html_data.title) == crate::p11::opt_str(ui2.html_data.title),
        crate::p11::opt_str(ui1.html_data.og_title) == crate::p11::opt_str(
            ui2.html_data.og_title,
        ),
{
}

/// The same sequence of resolver answers drives the interpreter to the same
/// terminal document, however many suspensions were traversed on the way:
/// the canned drive is pinned at a definite fuel, so any two documents
/// satisfying the helper's contract for one name and source are equal.
pub proof fn lemma_resumption_deterministic(
    d1: crate::interpreter::Document,
    d2: crate::interpreter::Document,
    name: Seq<char>,
    source: Seq<char>,
)
    requires
        crate::interpreter::spec_canned_outcome(crate::interpreter::spec_interpret(name, source))
            == Result::<
            crate::interpreter::SpecDocument,
            crate::interpreter::SpecInterpreterError,
        >::Ok(d1@),
        crate::interpreter::spec_canned_outcome(crate::interpreter::spec_interpret(name, source))
            == Result::<
            crate::interpreter::SpecDocument,
            crate::interpreter::SpecInterpreterError,
        >::Ok(d2@),
    ensures
        d1@ == d2@,
{
}

/// A syntax node that needs no caller input: not an import, and not a
/// processor-backed variable.
pub open spec fn ast_pure(a: ast::SpecAst) -> bool {
    &&& !(a is Import)
    &&& (a matches ast::SpecAst::VariableDefinition(v) ==> v.processor is None)
}

pub open spec fn state_pure(st: SpecIState) -> bool {
    &&& st.foreign.len() == 0
    &&& forall|k: int| 0 <= k < st.remaining.len() ==> ast_pure(#[trigger] st.remaining[k])
}

/// A pure machine never suspends: it runs to `Done` or fails, in one call.
pub proof fn lemma_pure_runs_to_done(st: SpecIState)
    requires
        state_pure(st),
    ensures
        crate::interpreter::spec_irun(st) is Done || crate::interpreter::spec_irun(st) is Fail,
    decreases st.remaining.len(),
{
    let step = crate::interpreter::spec_istep(st);
    if st.remaining.len() == 0 {
    } else {
        assert(ast_pure(st.remaining[0]));
        match step {
            SpecIStep::Continue(st2) => {
                assert(st2.remaining == st.remaining.drop_first() && st2.foreign == st.foreign)
                    by {
                    crate::interpreter::lemma_istep_continue_shape(st);
                }
                assert(forall|k: int|
                    0 <= k < st2.remaining.len() ==> ast_pure(#[trigger] st2.remaining[k])) by {
                    assert(forall|k: int|
                        0 <= k < st2.remaining.len() ==> st2.remaining[k] == st.remaining[k + 1]);
                }
                lemma_pure_runs_to_done(st2);
            },
            SpecIStep::StuckImport { .. } => {
                assert(false);
            },
            SpecIStep::StuckProcessor { .. } => {
                assert(false);
            },
            SpecIStep::StuckForeign { module, variable, state } => {
                assert(false);
            },
            _ => {},
        }
    }
}

/// A document whose syntax nodes need no caller input reaches `Done` in
/// exactly one interpreter call, never entering a stuck state.
pub proof fn lemma_round_trip(name: Seq<char>, source: Seq<char>)
    requires
        crate::p11::spec_parse(source, name) matches Ok(secs) && (ast::spec_asts_of_sections(
            secs,
            name,
        ) matches Ok(asts) && forall|k: int| 0 <= k < asts.len() ==> ast_pure(#[trigger] asts[k])),
    ensures
        crate::interpreter::spec_interpret(name, source) is Done
            || crate::interpreter::spec_interpret(name, source) is Fail,
{
    let secs = crate::p11::spec_parse(source, name)->Ok_0;
    let asts = ast::spec_asts_of_sections(secs, name)->Ok_0;
    let st = SpecIState {
        id: name,
        aliases: Seq::empty(),
        bag: Seq::empty(),
        tree: Seq::empty(),
        remaining: asts,
        foreign: Seq::empty(),
        foreign_functions: Seq::empty(),
    };
    lemma_pure_runs_to_done(st);
}

/// A null render node contributes the empty string and no entry to either
/// events list.
pub proof fn lemma_null_node_renders_nothing(n: SpecNode, id: Seq<char>)
    requires
        n.null,
    ensures
        crate::html::spec_as_html(n, id).0 == Seq::<char>::empty(),
        crate::html::spec_as_html(n, id).1 == Seq::<(Seq<char>, Seq<char>, Seq<char>)>::empty(),
{
}

/// A required argument with no call-site property, no declared default and
/// no kind fallback makes binding fail, naming the missing argument and the
/// component.
pub proof fn lemma_missing_argument_fails(
    arg: crate::interpreter::SpecArgument,
    ps: Seq<crate::interpreter::SpecProperty>,
    component: Seq<char>,
    doc: Seq<char>,
    ln: int,
)
    requires
        forall|k: int| 0 <= k < ps.len() ==> (#[trigger] ps[k].source) != arg.name,
        arg.value is None,
        !crate::executor::spec_is_list_kind(arg.kind),
        !crate::executor::spec_is_optional_kind(arg.kind),
    ensures
        crate::executor::spec_bind_argument(arg, ps, component, doc, ln) == Result::<
            crate::interpreter::SpecRefOrValue,
            crate::executor::SpecExecutorError,
        >::Err(
            crate::executor::SpecExecutorError::BindingFailure {
                argument: arg.name,
                component,
                doc_id: doc,
                line_number: ln,
            },
        ),
{
    lemma_find_property_none(ps, arg.name);
}

proof fn lemma_find_property_none(ps: Seq<crate::interpreter::SpecProperty>, name: Seq<char>)
    requires
        forall|k: int| 0 <= k < ps.len() ==> (#[trigger] ps[k].source) != name,
    ensures
        crate::executor::spec_find_property(ps, name) is None,
    decreases ps.len(),
{
    if ps.len() > 0 {
        let t = ps.drop_first();
        assert(forall|k: int| 0 <= k < t.len() ==> #[trigger] t[k] == ps[k + 1]);
        lemma_find_property_none(t, name);
    }
}

/// A formula with one unconditional contribution referencing a variable has
/// that variable's name in its dependency list exactly once.
pub proof fn lemma_single_reference_dependency(
    p: crate::interpreter::SpecProperty,
    name: Seq<char>,
)
    requires
        p.value == (crate::interpreter::SpecRefOrValue::Reference { name }),
        p.condition is None,
    ensures
        crate::js::spec_formula_deps(seq![p]) =~= seq![name],
{
    assert(crate::js::spec_formula_deps(seq![p]) == crate::js::spec_property_deps(p)
        + crate::js::spec_formula_deps(Seq::<crate::interpreter::SpecProperty>::empty())) by {
        assert(seq![p].drop_first() =~= Seq::<crate::interpreter::SpecProperty>::empty());
        assert(seq![p][0] == p);
    }
}

/// An outside-click or global-key handler lands in the outer-events side
/// channel, keyed by the element's fully-qualified id, and produces no
/// inline attribute.
pub proof fn lemma_outer_event_routed(e: crate::interpreter::SpecEvent, id: Seq<char>, data_id: Seq<char>)
    requires
        crate::html::spec_is_outer_event(e.name),
    ensures
        crate::html::spec_grouped_events(seq![e]) =~= seq![(e.name, e.action)],
        crate::html::spec_outer_events(seq![(e.name, e.action)], id, data_id) =~= seq![
            (crate::html::spec_full_data_id(id, data_id), e.name, crate::html::spec_handler(
                id,
                e.action,
            )),
        ],
        crate::html::spec_inline_events(seq![(e.name, e.action)], id) == Seq::<char>::empty(),
{
    let ev = seq![e];
    assert(ev[0] == e);
    assert(crate::html::spec_pair_idx(Seq::<(Seq<char>, Seq<char>)>::empty(), e.name) == -1);
    assert(crate::html::spec_group_fold(ev, 1, seq![(e.name, e.action)]) =~= seq![
        (e.name, e.action),
    ]);
    assert(crate::html::spec_grouped_events(ev) =~= seq![(e.name, e.action)]);
    let g = seq![(e.name, e.action)];
    assert(g.drop_first() =~= Seq::<(Seq<char>, Seq<char>)>::empty());
    assert(g[0] == (e.name, e.action));
    assert(crate::html::spec_outer_events(
        Seq::<(Seq<char>, Seq<char>)>::empty(),
        id,
        data_id,
    ) == Seq::<(Seq<char>, Seq<char>, Seq<char>)>::empty());
    assert(crate::html::spec_inline_events(Seq::<(Seq<char>, Seq<char>)>::empty(), id)
        == Seq::<char>::empty());
    assert(crate::html::spec_inline_events(g, id) =~= Seq::<char>::empty());
}

/// Every entry of the outer-events channel is keyed by the element's
/// fully-qualified id.
pub proof fn lemma_outer_events_keyed(
    events: Seq<(Seq<char>, Seq<char>)>,
    id: Seq<char>,
    data_id: Seq<char>,
)
    ensures
        forall|k: int|
            0 <= k < crate::html::spec_outer_events(events, id, data_id).len()
                ==> (#[trigger] crate::html::spec_outer_events(events, id, data_id)[k]).0
                == crate::html::spec_full_data_id(id, data_id),
    decreases events.len(),
{
    if events.len() > 0 {
        let rest = crate::html::spec_outer_events(events.drop_first(), id, data_id);
        lemma_outer_events_keyed(events.drop_first(), id, data_id);
        let whole = crate::html::spec_outer_events(events, id, data_id);
        if crate::html::spec_is_outer_event(events[0].0) {
            assert(whole == seq![
                (crate::html::spec_full_data_id(id, data_id), events[0].0,
                crate::html::spec_handler(id, events[0].1)),
            ] + rest);
            assert forall|k: int| 0 <= k < whole.len() implies (#[trigger] whole[k]).0
                == crate::html::spec_full_data_id(id, data_id) by {
                if k > 0 {
                    assert(whole[k] == rest[k - 1]);
                }
            }
        } else {
            assert(whole == rest);
        }
    } else {
        assert(crate::html::spec_outer_events(events, id, data_id) == Seq::<
            (Seq<char>, Seq<char>, Seq<char>),
        >::empty());
    }
}

} // verus!
