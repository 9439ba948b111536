//! The HTML back end: one element per non-null render node, flattened styles,
//! event wiring through the shared dispatcher, and outside-click and
//! global-key bindings routed to a separate outer-events side channel instead
//! of inline attributes.
use crate::executor::{all_nodes_view, Node, SpecNode};
use crate::interpreter::{Event, SpecEvent, SpecThing, Thing};
use vstd::prelude::*;

verus! {

broadcast use vstd::std_specs::vec::axiom_vec_index_decreases;

/// One escaped character of embedded text: angle brackets and ampersands
/// become their escape sequences.
pub open spec fn spec_escape_char(c: char) -> Seq<char> {
    if c == '>' {
        "\\u003E"@
    } else if c == '<' {
        "\\u003C"@
    } else if c == '&' {
        "\\u0026"@
    } else {
        seq![c]
    }
}

pub open spec fn spec_escape(s: Seq<char>) -> Seq<char>
    decreases s.len(),
{
    if s.len() == 0 {
        Seq::empty()
    } else {
        spec_escape(s.drop_last()) + spec_escape_char(s.last())
    }
}

/// Escapes angle brackets and ampersands for embedding.
pub fn escape(s: &str) -> (r: String)
    ensures
        r@ == spec_escape(s@),
{
    let n = s.unicode_len();
    let mut r = String::new();
    proof {
        assert(s@.take(0) =~= Seq::<char>::empty());
    }
    let mut i: usize = 0;
    while i < n
        invariant
            0 <= i <= n == s@.len(),
            r@ == spec_escape(s@.take(i as int)),
        decreases n - i,
    {
        let c = s.get_char(i);
        proof {
            reveal_strlit("\\u003E");
            reveal_strlit("\\u003C");
            reveal_strlit("\\u0026");
            assert(s@.take(i + 1 as int).drop_last() =~= s@.take(i as int));
            assert(s@.take(i + 1 as int).last() == s@[i as int]);
        }
        if c == '>' {
            r.append("\\u003E");
        } else if c == '<' {
            r.append("\\u003C");
        } else if c == '&' {
            r.append("\\u0026");
        } else {
            r.push(c);
            proof {
                assert(spec_escape_char(c) =~= seq![c]);
            }
        }
        i += 1;
    }
    proof {
        assert(s@.take(n as int) =~= s@);
    }
    r
}

/// One character of a quoted attribute value: quotes and backslashes are
/// escaped with a backslash.
pub open spec fn spec_quote_char(c: char) -> Seq<char> {
    if c == '"' {
        seq!['\\', '"']
    } else if c == '\\' {
        seq!['\\', '\\']
    } else {
        seq![c]
    }
}

pub open spec fn spec_quote_body(s: Seq<char>) -> Seq<char>
    decreases s.len(),
{
    if s.len() == 0 {
        Seq::empty()
    } else {
        spec_quote_body(s.drop_last()) + spec_quote_char(s.last())
    }
}

/// The string as a double-quoted literal.
pub open spec fn spec_quote(s: Seq<char>) -> Seq<char> {
    seq!['"'] + spec_quote_body(s) + seq!['"']
}

/// Renders a string as a double-quoted literal.
pub fn quote(i: &str) -> (r: String)
    ensures
        r@ == spec_quote(i@),
{
    let n = i.unicode_len();
    let mut r = String::new();
    r.push('"');
    proof {
        assert(i@.take(0) =~= Seq::<char>::empty());
        assert(r@ =~= seq!['"'] + spec_quote_body(i@.take(0)));
    }
    let mut k: usize = 0;
    while k < n
        invariant
            0 <= k <= n == i@.len(),
            r@ == seq!['"'] + spec_quote_body(i@.take(k as int)),
        decreases n - k,
    {
        let c = i.get_char(k);
        proof {
            assert(i@.take(k + 1 as int).drop_last() =~= i@.take(k as int));
            assert(i@.take(k + 1 as int).last() == i@[k as int]);
        }
        if c == '"' {
            r.push('\\');
            r.push('"');
        } else if c == '\\' {
            r.push('\\');
            r.push('\\');
        } else {
            r.push(c);
            proof {
                assert(spec_quote_char(c) =~= seq![c]);
            }
        }
        k += 1;
    }
    r.push('"');
    proof {
        assert(i@.take(n as int) =~= i@);
        assert(r@ =~= spec_quote(i@));
    }
    r
}

/// Copies a borrowed string.
pub fn s(x: &str) -> (r: String)
    ensures
        r@ == x@,
{
    String::from_str(x)
}

/// The items joined with a separator.
pub open spec fn spec_join(items: Seq<Seq<char>>, sep: Seq<char>) -> Seq<char>
    decreases items.len(),
{
    if items.len() == 0 {
        Seq::empty()
    } else if items.len() == 1 {
        items[0]
    } else {
        items[0] + sep + spec_join(items.drop_first(), sep)
    }
}

/// Joins strings from position `i` on.
fn join_from(items: &Vec<String>, i: usize, sep: &str) -> (r: String)
    requires
        i <= items@.len(),
    ensures
        r@ == spec_join(items@.map_values(|x: String| x@).skip(i as int), sep@),
    decreases items@.len() - i,
{
    let ghost iv = items@.map_values(|x: String| x@);
    let n = items.len();
    if i == n {
        proof {
            assert(iv.skip(i as int) =~= Seq::<Seq<char>>::empty());
        }
        String::new()
    } else if i + 1 == n {
        proof {
            assert(iv.skip(i as int).len() == 1);
            assert(iv.skip(i as int)[0] == iv[i as int]);
        }
        items[i].clone()
    } else {
        let mut r = items[i].clone();
        r.append(sep);
        let rest = join_from(items, i + 1, sep);
        r.append(rest.as_str());
        proof {
            assert(iv.skip(i as int)[0] == iv[i as int]);
            assert(iv.skip(i as int).drop_first() =~= iv.skip(i + 1));
            assert(r@ =~= iv.skip(i as int)[0] + sep@ + spec_join(iv.skip(i + 1), sep@));
        }
        r
    }
}

/// Joins the items with a separator.
pub fn join_strings(items: &Vec<String>, sep: &str) -> (r: String)
    ensures
        r@ == spec_join(items@.map_values(|x: String| x@), sep@),
{
    let r = join_from(items, 0, sep);
    proof {
        assert(items@.map_values(|x: String| x@).skip(0) =~= items@.map_values(|x: String| x@));
    }
    r
}

/// The marker value that stands for a key carrying no value.
pub open spec fn spec_no_value_marker() -> Seq<char> {
    "$no-value$"@
}

/// The marker value that drops its entry from the output.
pub open spec fn spec_ignore_marker() -> Seq<char> {
    "$ignore-key$"@
}

/// The kept style entries: keys whose value is present; the no-value marker
/// renders the key with an empty value, the ignore marker drops the entry;
/// an invisible node gets `display: none` forced on the end.
pub open spec fn spec_style_items(style: Seq<(Seq<char>, Option<Seq<char>>)>) -> Seq<Seq<char>>
    decreases style.len(),
{
    if style.len() == 0 {
        Seq::empty()
    } else {
        let rest = spec_style_items(style.drop_first());
        match style[0].1 {
            Some(v) => if v == spec_ignore_marker() {
                rest
            } else if v == spec_no_value_marker() {
                seq![style[0].0 + ": "@] + rest
            } else {
                seq![style[0].0 + ": "@ + spec_escape(v)] + rest
            },
            None => rest,
        }
    }
}

/// The flattened `style` attribute body.
pub open spec fn spec_style_to_html(
    style: Seq<(Seq<char>, Option<Seq<char>>)>,
    visible: bool,
) -> Seq<char> {
    let items = if visible {
        spec_style_items(style)
    } else {
        spec_style_items(style).push("display: none"@)
    };
    spec_join(items, "; "@)
}

/// The `class` attribute, empty when the node has no classes.
pub open spec fn spec_class_to_html(classes: Seq<Seq<char>>) -> Seq<char> {
    if classes.len() == 0 {
        Seq::empty()
    } else {
        "class=\""@ + spec_join(classes, " "@) + "\""@
    }
}

/// The plain attributes: `class` entries are skipped and absent values
/// dropped; the ignore marker empties the slot, the no-value marker renders
/// the bare key, and a `data-id` value is qualified with the page id so the
/// element can be found under the keys the outer-events channel uses.
pub open spec fn spec_attr_items(
    attrs: Seq<(Seq<char>, Option<Seq<char>>)>,
    id: Seq<char>,
) -> Seq<Seq<char>>
    decreases attrs.len(),
{
    if attrs.len() == 0 {
        Seq::empty()
    } else {
        let rest = spec_attr_items(attrs.drop_first(), id);
        if attrs[0].0 == "class"@ {
            rest
        } else {
            match attrs[0].1 {
                Some(v) => if v == spec_ignore_marker() {
                    seq![Seq::<char>::empty()] + rest
                } else if v == spec_no_value_marker() {
                    seq![attrs[0].0] + rest
                } else if attrs[0].0 == "data-id"@ {
                    seq!["data-id="@ + spec_quote(spec_full_data_id(id, v))] + rest
                } else {
                    seq![attrs[0].0 + "="@ + spec_quote(v)] + rest
                },
                None => rest,
            }
        }
    }
}

/// The attributes a web component's wiring adds: each property reads its
/// variable through the page's mutable or immutable value registry.
pub open spec fn spec_web_attrs(
    props: Seq<(Seq<char>, crate::executor::SpecWebRef)>,
    id: Seq<char>,
) -> Seq<Seq<char>>
    decreases props.len(),
{
    if props.len() == 0 {
        Seq::empty()
    } else {
        seq![
            props[0].0 + "=\""@ + "window.ftd."@ + (if props[0].1.mutable {
                "mutable_value_"@
            } else {
                "immutable_value_"@
            }) + id + "['"@ + props[0].1.reference + "']\""@,
        ] + spec_web_attrs(props.drop_first(), id)
    }
}

pub open spec fn spec_attrs_to_html(
    attrs: Seq<(Seq<char>, Option<Seq<char>>)>,
    web: Option<crate::executor::SpecWebComponent>,
    id: Seq<char>,
) -> Seq<char> {
    spec_join(
        spec_attr_items(attrs, id) + (match web {
            Some(w) => spec_web_attrs(w.properties, id),
            None => Seq::<Seq<char>>::empty(),
        }),
        " "@,
    )
}

/// Whether an event must attach to the window or document rather than the
/// element: outside clicks and global key bindings.
pub open spec fn spec_is_outer_event(name: Seq<char>) -> bool {
    name == "click-outside"@ || crate::p11::is_prefix(name, "global-key"@)
}

/// The name without its dashes.
pub open spec fn spec_strip_dashes(s: Seq<char>) -> Seq<char>
    decreases s.len(),
{
    if s.len() == 0 {
        Seq::empty()
    } else {
        spec_strip_dashes(s.drop_last()) + (if s.last() != '-' {
            seq![s.last()]
        } else {
            Seq::<char>::empty()
        })
    }
}

/// The JS attribute name of an event: `on` plus the name without its dashes.
pub open spec fn spec_js_event_name(name: Seq<char>) -> Seq<char> {
    "on"@ + spec_strip_dashes(name)
}

/// The dispatcher call every event renders as.
pub open spec fn spec_handler(id: Seq<char>, action: Seq<char>) -> Seq<char> {
    "window.ftd.handle_event(event, '"@ + id + "', '"@ + action + "', this)"@
}

/// The element's fully-qualified id.
pub open spec fn spec_full_data_id(id: Seq<char>, data_id: Seq<char>) -> Seq<char> {
    data_id + ":"@ + id
}

/// One character of an inline action: double quotes become `&quot;`.
pub open spec fn spec_quot_char(c: char) -> Seq<char> {
    if c == '"' {
        "&quot;"@
    } else {
        seq![c]
    }
}

pub open spec fn spec_quot_escape(s: Seq<char>) -> Seq<char>
    decreases s.len(),
{
    if s.len() == 0 {
        Seq::empty()
    } else {
        spec_quot_escape(s.drop_last()) + spec_quot_char(s.last())
    }
}

/// The first position of a name among grouped events, or -1.
pub open spec fn spec_pair_idx(acc: Seq<(Seq<char>, Seq<char>)>, name: Seq<char>) -> int
    decreases acc.len(),
{
    if acc.len() == 0 {
        -1
    } else if acc[0].0 == name {
        0
    } else {
        let r = spec_pair_idx(acc.drop_first(), name);
        if r < 0 {
            -1
        } else {
            r + 1
        }
    }
}

/// Groups the events by name, first occurrence first; the actions of one
/// name join into one semicolon-separated chain.
pub open spec fn spec_group_fold(
    events: Seq<SpecEvent>,
    i: int,
    acc: Seq<(Seq<char>, Seq<char>)>,
) -> Seq<(Seq<char>, Seq<char>)>
    decreases (if events.len() - i >= 0 { events.len() - i } else { 0 }),
{
    if i < 0 || i >= events.len() {
        acc
    } else {
        let idx = spec_pair_idx(acc, events[i].name);
        let acc2 = if idx < 0 {
            acc.push((events[i].name, events[i].action))
        } else {
            acc.update(idx, (events[i].name, acc[idx].1 + ";"@ + events[i].action))
        };
        spec_group_fold(events, i + 1, acc2)
    }
}

pub open spec fn spec_grouped_events(events: Seq<SpecEvent>) -> Seq<(Seq<char>, Seq<char>)> {
    spec_group_fold(events, 0, Seq::empty())
}

/// The inline event attributes of the non-outer grouped events; the chained
/// actions have their double quotes escaped before quoting.
pub open spec fn spec_inline_events(
    events: Seq<(Seq<char>, Seq<char>)>,
    id: Seq<char>,
) -> Seq<char>
    decreases events.len(),
{
    if events.len() == 0 {
        Seq::empty()
    } else {
        let rest = spec_inline_events(events.drop_first(), id);
        if spec_is_outer_event(events[0].0) {
            rest
        } else {
            " "@ + spec_js_event_name(events[0].0) + "="@ + spec_quote(
                spec_handler(id, spec_quot_escape(events[0].1)),
            ) + rest
        }
    }
}

/// The outer-events side channel entries of one node: keyed by the element's
/// fully-qualified id, never inlined as attributes.
pub open spec fn spec_outer_events(
    events: Seq<(Seq<char>, Seq<char>)>,
    id: Seq<char>,
    data_id: Seq<char>,
) -> Seq<(Seq<char>, Seq<char>, Seq<char>)>
    decreases events.len(),
{
    if events.len() == 0 {
        Seq::empty()
    } else {
        let rest = spec_outer_events(events.drop_first(), id, data_id);
        if spec_is_outer_event(events[0].0) {
            seq![
                (spec_full_data_id(id, data_id), events[0].0, spec_handler(
                    id,
                    events[0].1,
                )),
            ] + rest
        } else {
            rest
        }
    }
}

/// What one node renders as: its HTML text and its outer-events entries. A
/// null node contributes the empty string and no events; a dummy node renders
/// as a placeholder marker.
pub open spec fn spec_as_html(n: SpecNode, id: Seq<char>) -> (
    Seq<char>,
    Seq<(Seq<char>, Seq<char>, Seq<char>)>,
)
    decreases n, 0int,
{
    if n.null {
        (Seq::empty(), Seq::empty())
    } else if n.raw_data is Some {
        (seq!['{'] + n.node + seq!['}'], Seq::empty())
    } else {
        let style = "style=\""@ + spec_style_to_html(n.style, n.visible) + "\""@;
        let classes = spec_class_to_html(n.classes);
        let grouped = spec_grouped_events(n.events);
        let attrs = spec_attrs_to_html(n.attrs, n.web_component, id) + spec_inline_events(
            grouped,
            id,
        );
        let outer = spec_outer_events(grouped, id, n.data_id);
        let body_events = match n.text {
            Some(t) => (t, Seq::<(Seq<char>, Seq<char>, Seq<char>)>::empty()),
            None => spec_children_html(n.children, id),
        };
        (
            "<"@ + n.node + " "@ + attrs + " "@ + style + " "@ + classes + ">"@ + body_events.0
                + "</"@ + n.node + ">"@,
            outer + body_events.1,
        )
    }
}

pub open spec fn spec_children_html(cs: Seq<SpecNode>, id: Seq<char>) -> (
    Seq<char>,
    Seq<(Seq<char>, Seq<char>, Seq<char>)>,
)
    decreases cs, 1int,
{
    if cs.len() == 0 {
        (Seq::empty(), Seq::empty())
    } else {
        let first = spec_as_html(cs[0], id);
        let rest = spec_children_html(cs.drop_first(), id);
        (first.0 + rest.0, first.1 + rest.1)
    }
}

/// Escapes double quotes of an inline action chain.
pub fn quot_escape(s: &str) -> (r: String)
    ensures
        r@ == spec_quot_escape(s@),
{
    let n = s.unicode_len();
    let mut r = String::new();
    proof {
        assert(s@.take(0) =~= Seq::<char>::empty());
    }
    let mut i: usize = 0;
    while i < n
        invariant
            0 <= i <= n == s@.len(),
            r@ == spec_quot_escape(s@.take(i as int)),
        decreases n - i,
    {
        let c = s.get_char(i);
        proof {
            reveal_strlit("&quot;");
            assert(s@.take(i + 1 as int).drop_last() =~= s@.take(i as int));
            assert(s@.take(i + 1 as int).last() == s@[i as int]);
        }
        if c == '"' {
            r.append("&quot;");
        } else {
            r.push(c);
            proof {
                assert(spec_quot_char(c) =~= seq![c]);
            }
        }
        i += 1;
    }
    proof {
        assert(s@.take(n as int) =~= s@);
    }
    r
}

pub proof fn lemma_pair_idx(acc: Seq<(Seq<char>, Seq<char>)>, name: Seq<char>)
    ensures
        spec_pair_idx(acc, name) >= 0 ==> 0 <= spec_pair_idx(acc, name) < acc.len() && acc[
            spec_pair_idx(acc, name)
        ].0 == name,
        spec_pair_idx(acc, name) >= 0 ==> forall|k: int|
            0 <= k < spec_pair_idx(acc, name) ==> acc[k].0 != name,
        spec_pair_idx(acc, name) < 0 ==> forall|k: int| 0 <= k < acc.len() ==> acc[k].0 != name,
    decreases acc.len(),
{
    if acc.len() > 0 && acc[0].0 != name {
        let t = acc.drop_first();
        lemma_pair_idx(t, name);
        assert(forall|k: int| 1 <= k < acc.len() ==> #[trigger] acc[k] == t[k - 1]);
    }
}

/// The view of a grouped-events list.
pub open spec fn pairs_view(v: Vec<(String, String)>) -> Seq<(Seq<char>, Seq<char>)> {
    v@.map_values(|p: (String, String)| (p.0@, p.1@))
}

/// The position of a name among the grouped events so far.
fn pair_find(acc: &Vec<(String, String)>, name: &str) -> (r: Option<usize>)
    ensures
        match r {
            Some(i) => spec_pair_idx(pairs_view(*acc), name@) == i as int && i < acc@.len(),
            None => spec_pair_idx(pairs_view(*acc), name@) < 0,
        },
{
    proof {
        lemma_pair_idx(pairs_view(*acc), name@);
    }
    let n = acc.len();
    let mut i: usize = 0;
    while i < n
        invariant
            0 <= i <= n == acc@.len(),
            forall|k: int| 0 <= k < i ==> pairs_view(*acc)[k].0 != name@,
            spec_pair_idx(pairs_view(*acc), name@) >= 0 ==> 0 <= spec_pair_idx(
                pairs_view(*acc),
                name@,
            ) < n && pairs_view(*acc)[spec_pair_idx(pairs_view(*acc), name@)].0 == name@,
            spec_pair_idx(pairs_view(*acc), name@) >= 0 ==> forall|k: int|
                0 <= k < spec_pair_idx(pairs_view(*acc), name@) ==> pairs_view(*acc)[k].0 != name@,
            spec_pair_idx(pairs_view(*acc), name@) < 0 ==> forall|k: int|
                0 <= k < n ==> pairs_view(*acc)[k].0 != name@,
        decreases n - i,
    {
        proof {
            assert(pairs_view(*acc)[i as int] == (acc@[i as int].0@, acc@[i as int].1@));
        }
        if crate::text::eq_str(acc[i].0.as_str(), name) {
            proof {
                assert(spec_pair_idx(pairs_view(*acc), name@) == i as int);
            }
            return Some(i);
        }
        i += 1;
    }
    None
}

/// Groups a node's events by name, joining the actions of one name into a
/// semicolon-separated chain, first occurrence first.
pub fn group_events(events: &Vec<Event>) -> (r: Vec<(String, String)>)
    ensures
        pairs_view(r) == spec_grouped_events(events@.map_values(|e: Event| e@)),
{
    let ghost evv = events@.map_values(|e: Event| e@);
    let n = events.len();
    let mut acc: Vec<(String, String)> = Vec::new();
    proof {
        assert(pairs_view(acc) =~= Seq::<(Seq<char>, Seq<char>)>::empty());
    }
    let mut i: usize = 0;
    while i < n
        invariant
            0 <= i <= n == events@.len(),
            evv == events@.map_values(|e: Event| e@),
            evv.len() == n,
            spec_group_fold(evv, i as int, pairs_view(acc)) == spec_grouped_events(evv),
        decreases n - i,
    {
        proof {
            assert(evv[i as int] == events[i as int]@);
        }
        let e = &events[i];
        let ghost acc0 = pairs_view(acc);
        match pair_find(&acc, e.name.as_str()) {
            None => {
                acc.push((e.name.clone(), e.action.clone()));
                proof {
                    assert(pairs_view(acc) =~= acc0.push((evv[i as int].name, evv[i as int].action)));
                }
            },
            Some(idx) => {
                let mut joined = acc[idx].1.clone();
                joined.push(';');
                joined.append(e.action.as_str());
                proof {
                    reveal_strlit(";");
                    assert(joined@ =~= acc0[idx as int].1 + ";"@ + evv[i as int].action);
                }
                acc.set(idx, (e.name.clone(), joined));
                proof {
                    assert(pairs_view(acc) =~= acc0.update(
                        idx as int,
                        (evv[i as int].name, acc0[idx as int].1 + ";"@ + evv[i as int].action),
                    ));
                }
            },
        }
        i += 1;
    }
    proof {
        assert(spec_group_fold(evv, n as int, pairs_view(acc)) == pairs_view(acc));
    }
    acc
}

/// Walks the render tree and produces HTML plus the outer-events channel.
pub struct HtmlGenerator {
    pub id: String,
}

impl HtmlGenerator {
    /// Builds a generator for one rendered page.
    pub fn new(id: &str) -> (r: HtmlGenerator)
        ensures
            r.id@ == id@,
    {
        HtmlGenerator { id: String::from_str(id) }
    }

    /// Flattens a node's style map; an invisible node is forced to
    /// `display: none`.
    pub fn style_to_html(&self, node: &Node, visible: bool) -> (r: String)
        ensures
            r@ == spec_style_to_html(node@.style, visible),
    {
        let n = node.style.len();
        let ghost sv = node@.style;
        let mut items: Vec<String> = Vec::new();
        proof {
            assert(sv.skip(0) =~= sv);
            assert(items@.map_values(|x: String| x@) + spec_style_items(sv.skip(0))
                =~= spec_style_items(sv));
        }
        let mut i: usize = 0;
        while i < n
            invariant
                0 <= i <= n == node.style@.len(),
                sv == node@.style,
                sv.len() == n,
                items@.map_values(|x: String| x@) + spec_style_items(sv.skip(i as int))
                    =~= spec_style_items(sv),
            decreases n - i,
        {
            proof {
                assert(sv.skip(i as int)[0] == sv[i as int]);
                assert(sv[i as int] == (
                    node.style@[i as int].0@,
                    crate::executor::opt_sv(node.style@[i as int].1),
                ));
                assert(sv.skip(i as int).drop_first() =~= sv.skip(i + 1));
            }
            match &node.style[i].1 {
                Some(v) => {
                    proof {
                        reveal_strlit("$ignore-key$");
                        reveal_strlit("$no-value$");
                    }
                    if crate::text::eq_str(v.as_str(), "$ignore-key$") {
                    } else {
                        let mut item = node.style[i].0.clone();
                        item.append(": ");
                        if crate::text::eq_str(v.as_str(), "$no-value$") {
                            proof {
                                reveal_strlit(": ");
                                assert(item@ =~= sv[i as int].0 + ": "@);
                            }
                        } else {
                            item.append(escape(v.as_str()).as_str());
                            proof {
                                reveal_strlit(": ");
                                assert(item@ =~= sv[i as int].0 + ": "@ + spec_escape(
                                    sv[i as int].1->Some_0,
                                ));
                            }
                        }
                        let ghost items0 = items@.map_values(|x: String| x@);
                        items.push(item);
                        proof {
                            assert(items@.map_values(|x: String| x@) =~= items0.push(item@));
                            assert(items0.push(item@) + spec_style_items(sv.skip(i + 1)) =~= items0
                                + (seq![item@] + spec_style_items(sv.skip(i + 1))));
                        }
                    }
                },
                None => {},
            }
            i += 1;
        }
        proof {
            assert(sv.skip(n as int) =~= Seq::<(Seq<char>, Option<Seq<char>>)>::empty());
            assert(items@.map_values(|x: String| x@) =~= spec_style_items(sv));
        }
        if !visible {
            let ghost items0 = items@.map_values(|x: String| x@);
            items.push(String::from_str("display: none"));
            proof {
                assert(items@.map_values(|x: String| x@) =~= items0.push("display: none"@));
            }
        }
        join_strings(&items, "; ")
    }

    /// The node's `class` attribute.
    pub fn class_to_html(&self, node: &Node) -> (r: String)
        ensures
            r@ == spec_class_to_html(node@.classes),
    {
        if node.classes.len() == 0 {
            return String::new();
        }
        let mut r = String::from_str("class=\"");
        r.append(join_strings(&node.classes, " ").as_str());
        r.push('"');
        proof {
            reveal_strlit("class=\"");
            reveal_strlit("\"");
            assert(r@ =~= "class=\""@ + spec_join(node@.classes, " "@) + "\""@);
        }
        r
    }

    /// The node's plain attributes and web-component wiring: `class`
    /// excluded, absent values dropped, markers honoured, `data-id` values
    /// qualified with the page id.
    pub fn attrs_to_html(&self, node: &Node) -> (r: String)
        ensures
            r@ == spec_attrs_to_html(node@.attrs, node@.web_component, self.id@),
    {
        let n = node.attrs.len();
        let ghost av = node@.attrs;
        let mut items: Vec<String> = Vec::new();
        proof {
            assert(av.skip(0) =~= av);
            assert(items@.map_values(|x: String| x@) + spec_attr_items(av.skip(0), self.id@)
                =~= spec_attr_items(av, self.id@));
        }
        let mut i: usize = 0;
        while i < n
            invariant
                0 <= i <= n == node.attrs@.len(),
                av == node@.attrs,
                av.len() == n,
                items@.map_values(|x: String| x@) + spec_attr_items(av.skip(i as int), self.id@)
                    =~= spec_attr_items(av, self.id@),
            decreases n - i,
        {
            proof {
                assert(av.skip(i as int)[0] == av[i as int]);
                assert(av[i as int] == (
                    node.attrs@[i as int].0@,
                    crate::executor::opt_sv(node.attrs@[i as int].1),
                ));
                assert(av.skip(i as int).drop_first() =~= av.skip(i + 1));
                reveal_strlit("class");
                reveal_strlit("data-id");
                reveal_strlit("data-id=");
                reveal_strlit("$ignore-key$");
                reveal_strlit("$no-value$");
                reveal_strlit("=");
            }
            let is_class = crate::text::eq_str(node.attrs[i].0.as_str(), "class");
            if !is_class {
                match &node.attrs[i].1 {
                    Some(v) => {
                        let item: String = if crate::text::eq_str(v.as_str(), "$ignore-key$") {
                            String::new()
                        } else if crate::text::eq_str(v.as_str(), "$no-value$") {
                            node.attrs[i].0.clone()
                        } else if crate::text::eq_str(node.attrs[i].0.as_str(), "data-id") {
                            let mut w = String::from_str("data-id=");
                            w.append(
                                quote(
                                    full_data_id(self.id.as_str(), v.as_str()).as_str(),
                                ).as_str(),
                            );
                            proof {
                                assert(w@ =~= "data-id="@ + spec_quote(
                                    spec_full_data_id(self.id@, av[i as int].1->Some_0),
                                ));
                            }
                            w
                        } else {
                            let mut w = node.attrs[i].0.clone();
                            w.push('=');
                            w.append(quote(v.as_str()).as_str());
                            proof {
                                assert(w@ =~= av[i as int].0 + "="@ + spec_quote(
                                    av[i as int].1->Some_0,
                                ));
                            }
                            w
                        };
                        let ghost items0 = items@.map_values(|x: String| x@);
                        items.push(item);
                        proof {
                            assert(items@.map_values(|x: String| x@) =~= items0.push(item@));
                            assert(items0.push(item@) + spec_attr_items(av.skip(i + 1), self.id@)
                                =~= items0 + (seq![item@] + spec_attr_items(
                                av.skip(i + 1),
                                self.id@,
                            )));
                        }
                    },
                    None => {},
                }
            }
            i += 1;
        }
        proof {
            assert(av.skip(n as int) =~= Seq::<(Seq<char>, Option<Seq<char>>)>::empty());
            assert(items@.map_values(|x: String| x@) =~= spec_attr_items(av, self.id@));
        }
        match &node.web_component {
            None => {
                proof {
                    assert(items@.map_values(|x: String| x@) =~= spec_attr_items(av, self.id@)
                        + Seq::<Seq<char>>::empty());
                }
            },
            Some(wc) => {
                let ghost wv = node@.web_component->Some_0.properties;
                proof {
                    assert(wv.skip(0) =~= wv);
                    assert(items@.map_values(|x: String| x@) + spec_web_attrs(
                        wv.skip(0),
                        self.id@,
                    ) =~= spec_attr_items(av, self.id@) + spec_web_attrs(wv, self.id@));
                }
                let m = wc.properties.len();
                let mut j: usize = 0;
                while j < m
                    invariant
                        0 <= j <= m == wc.properties@.len(),
                        wv == wc@.properties,
                        wv.len() == m,
                        items@.map_values(|x: String| x@) + spec_web_attrs(
                            wv.skip(j as int),
                            self.id@,
                        ) =~= spec_attr_items(av, self.id@) + spec_web_attrs(wv, self.id@),
                    decreases m - j,
                {
                    proof {
                        assert(wv.skip(j as int)[0] == wv[j as int]);
                        assert(wv[j as int] == (
                            wc.properties@[j as int].0@,
                            wc.properties@[j as int].1@,
                        ));
                        assert(wv.skip(j as int).drop_first() =~= wv.skip(j + 1));
                        reveal_strlit("=\"");
                        reveal_strlit("window.ftd.");
                        reveal_strlit("mutable_value_");
                        reveal_strlit("immutable_value_");
                        reveal_strlit("['");
                        reveal_strlit("']\"");
                    }
                    let pr = &wc.properties[j];
                    let mut w = pr.0.clone();
                    w.append("=\"");
                    w.append("window.ftd.");
                    if pr.1.mutable {
                        w.append("mutable_value_");
                    } else {
                        w.append("immutable_value_");
                    }
                    w.append(self.id.as_str());
                    w.append("['");
                    w.append(pr.1.reference.as_str());
                    w.append("']\"");
                    proof {
                        assert(w@ =~= wv[j as int].0 + "=\""@ + "window.ftd."@ + (if wv[
                            j as int
                        ].1.mutable {
                            "mutable_value_"@
                        } else {
                            "immutable_value_"@
                        }) + self.id@ + "['"@ + wv[j as int].1.reference + "']\""@);
                    }
                    let ghost items0 = items@.map_values(|x: String| x@);
                    items.push(w);
                    proof {
                        assert(items@.map_values(|x: String| x@) =~= items0.push(w@));
                        assert(items0.push(w@) + spec_web_attrs(wv.skip(j + 1), self.id@)
                            =~= items0 + (seq![w@] + spec_web_attrs(wv.skip(j + 1), self.id@)));
                    }
                    j += 1;
                }
                proof {
                    assert(wv.skip(m as int) =~= Seq::<
                        (Seq<char>, crate::executor::SpecWebRef),
                    >::empty());
                    assert(items@.map_values(|x: String| x@) =~= spec_attr_items(av, self.id@)
                        + spec_web_attrs(wv, self.id@));
                }
            },
        }
        join_strings(&items, " ")
    }
}

} // verus!

verus! {

/// The view of an outer-events list.
pub open spec fn events3_view(v: Vec<(String, String, String)>) -> Seq<
    (Seq<char>, Seq<char>, Seq<char>),
> {
    v@.map_values(|t: (String, String, String)| (t.0@, t.1@, t.2@))
}

/// Tests an event name for the outer channel.
fn is_outer_event(name: &str) -> (r: bool)
    ensures
        r == spec_is_outer_event(name@),
{
    proof {
        reveal_strlit("click-outside");
        reveal_strlit("global-key");
    }
    crate::text::eq_str(name, "click-outside") || crate::text::str_starts_with(name, "global-key")
}

/// Builds the JS attribute name of an event.
fn js_event_name(name: &str) -> (r: String)
    ensures
        r@ == spec_js_event_name(name@),
{
    let n = name.unicode_len();
    let mut r = String::from_str("on");
    proof {
        reveal_strlit("on");
        assert(name@.take(0) =~= Seq::<char>::empty());
        assert(r@ =~= "on"@ + spec_strip_dashes(name@.take(0)));
    }
    let mut i: usize = 0;
    while i < n
        invariant
            0 <= i <= n == name@.len(),
            r@ == "on"@ + spec_strip_dashes(name@.take(i as int)),
        decreases n - i,
    {
        let c = name.get_char(i);
        proof {
            assert(name@.take(i + 1 as int).drop_last() =~= name@.take(i as int));
            assert(name@.take(i + 1 as int).last() == name@[i as int]);
        }
        if c != '-' {
            r.push(c);
        }
        proof {
            assert(r@ =~= "on"@ + spec_strip_dashes(name@.take(i + 1 as int)));
        }
        i += 1;
    }
    proof {
        assert(name@.take(n as int) =~= name@);
    }
    r
}

/// Builds the dispatcher call of one event.
fn handler(id: &str, action: &str) -> (r: String)
    ensures
        r@ == spec_handler(id@, action@),
{
    let mut r = String::from_str("window.ftd.handle_event(event, '");
    r.append(id);
    r.append("', '");
    r.append(action);
    r.append("', this)");
    proof {
        assert(r@ =~= spec_handler(id@, action@));
    }
    r
}

/// Builds an element's fully-qualified id.
pub fn full_data_id(id: &str, data_id: &str) -> (r: String)
    ensures
        r@ == spec_full_data_id(id@, data_id@),
{
    let mut r = String::from_str(data_id);
    r.push(':');
    r.append(id);
    proof {
        reveal_strlit(":");
        assert(r@ =~= data_id@ + ":"@ + id@);
    }
    r
}

impl HtmlGenerator {
    /// Renders one node: its HTML and its outer-events entries. Null nodes
    /// render as the empty string and contribute no entry to either events
    /// list.
    pub fn as_html_(&self, node: &Node) -> (r: (String, Vec<(String, String, String)>))
        ensures
            (r.0@, events3_view(r.1)) == spec_as_html(node@, self.id@),
        decreases *node, 0int,
    {
        if node.is_null() {
            let r = (String::new(), Vec::<(String, String, String)>::new());
            proof {
                assert(events3_view(r.1) =~= Seq::<(Seq<char>, Seq<char>, Seq<char>)>::empty());
            }
            return r;
        }
        if node.raw_data.is_some() {
            let mut h = String::new();
            h.push('{');
            h.append(node.node.as_str());
            h.push('}');
            let r = (h, Vec::<(String, String, String)>::new());
            proof {
                assert(r.0@ =~= seq!['{'] + node@.node + seq!['}']);
                assert(events3_view(r.1) =~= Seq::<(Seq<char>, Seq<char>, Seq<char>)>::empty());
            }
            return r;
        }
        let mut style = String::from_str("style=\"");
        style.append(self.style_to_html(node, node.visible).as_str());
        style.push('"');
        proof {
            reveal_strlit("style=\"");
            reveal_strlit("\"");
            assert(style@ =~= "style=\""@ + spec_style_to_html(node@.style, node@.visible)
                + "\""@);
        }
        let classes = self.class_to_html(node);
        let mut attrs = self.attrs_to_html(node);
        let ghost attrs_base = attrs@;
        let mut outer: Vec<(String, String, String)> = Vec::new();
        let grouped = group_events(&node.events);
        let ghost gv = spec_grouped_events(node@.events);
        proof {
            assert(gv == pairs_view(grouped));
            assert(gv.skip(0) =~= gv);
            assert(attrs@ + spec_inline_events(gv.skip(0), self.id@) =~= attrs_base
                + spec_inline_events(gv, self.id@));
            assert(events3_view(outer) + spec_outer_events(gv.skip(0), self.id@, node@.data_id)
                =~= spec_outer_events(gv, self.id@, node@.data_id));
        }
        let n = grouped.len();
        let mut i: usize = 0;
        while i < n
            invariant
                0 <= i <= n == grouped@.len(),
                gv == pairs_view(grouped),
                gv.len() == n,
                attrs@ + spec_inline_events(gv.skip(i as int), self.id@) =~= attrs_base
                    + spec_inline_events(gv, self.id@),
                events3_view(outer) + spec_outer_events(gv.skip(i as int), self.id@, node@.data_id)
                    =~= spec_outer_events(gv, self.id@, node@.data_id),
            decreases n - i,
        {
            proof {
                assert(gv.skip(i as int)[0] == gv[i as int]);
                assert(gv[i as int] == (grouped@[i as int].0@, grouped@[i as int].1@));
                assert(gv.skip(i as int).drop_first() =~= gv.skip(i + 1));
            }
            let (name, actions) = (&grouped[i].0, &grouped[i].1);
            if is_outer_event(name.as_str()) {
                let h = handler(self.id.as_str(), actions.as_str());
                let ghost outer0 = events3_view(outer);
                let entry = (
                    full_data_id(self.id.as_str(), node.data_id.as_str()),
                    name.clone(),
                    h,
                );
                outer.push(entry);
                proof {
                    assert(events3_view(outer) =~= outer0.push((entry.0@, entry.1@, entry.2@)));
                    assert(outer0.push((entry.0@, entry.1@, entry.2@)) + spec_outer_events(
                        gv.skip(i + 1),
                        self.id@,
                        node@.data_id,
                    ) =~= outer0 + (seq![(entry.0@, entry.1@, entry.2@)] + spec_outer_events(
                        gv.skip(i + 1),
                        self.id@,
                        node@.data_id,
                    )));
                }
            } else {
                let escaped = quot_escape(actions.as_str());
                let h = handler(self.id.as_str(), escaped.as_str());
                attrs.push(' ');
                attrs.append(js_event_name(name.as_str()).as_str());
                attrs.push('=');
                attrs.append(quote(h.as_str()).as_str());
                proof {
                    reveal_strlit(" ");
                    reveal_strlit("=");
                }
            }
            i += 1;
        }
        proof {
            assert(gv.skip(n as int) =~= Seq::<(Seq<char>, Seq<char>)>::empty());
            assert(attrs@ =~= attrs_base + spec_inline_events(gv, self.id@));
            assert(events3_view(outer) =~= spec_outer_events(gv, self.id@, node@.data_id));
        }
        let (body, child_events) = match &node.text {
            Some(t) => {
                let emptyv = Vec::<(String, String, String)>::new();
                proof {
                    assert(events3_view(emptyv) =~= Seq::<
                        (Seq<char>, Seq<char>, Seq<char>),
                    >::empty());
                }
                (t.clone(), emptyv)
            },
            None => self.children_html(&node.children),
        };
        let ghost spec_pair = spec_as_html(node@, self.id@);
        let mut html = String::new();
        html.push('<');
        html.append(node.node.as_str());
        html.push(' ');
        html.append(attrs.as_str());
        html.push(' ');
        html.append(style.as_str());
        html.push(' ');
        html.append(classes.as_str());
        html.push('>');
        html.append(body.as_str());
        html.append("</");
        html.append(node.node.as_str());
        html.push('>');
        proof {
            reveal_strlit("<");
            reveal_strlit(" ");
            reveal_strlit(">");
            reveal_strlit("</");
            assert(html@ =~= "<"@ + node@.node + " "@ + (attrs_base + spec_inline_events(
                gv,
                self.id@,
            )) + " "@ + style@ + " "@ + classes@ + ">"@ + body@ + "</"@ + node@.node + ">"@);
        }
        let mut all_events = outer;
        let m = child_events.len();
        let ghost cev = events3_view(child_events);
        proof {
            assert(cev.len() == m);
        }
        let mut j: usize = 0;
        while j < m
            invariant
                0 <= j <= m == child_events@.len(),
                cev == events3_view(child_events),
                events3_view(all_events) =~= spec_outer_events(gv, self.id@, node@.data_id)
                    + cev.take(j as int),
            decreases m - j,
        {
            let ghost all0 = events3_view(all_events);
            all_events.push(
                (
                    child_events[j].0.clone(),
                    child_events[j].1.clone(),
                    child_events[j].2.clone(),
                ),
            );
            proof {
                assert(events3_view(all_events) =~= all0.push(cev[j as int]));
                assert(cev.take(j + 1 as int) =~= cev.take(j as int).push(cev[j as int]));
            }
            j += 1;
        }
        proof {
            assert(cev.take(m as int) =~= cev);
            assert(events3_view(all_events) =~= spec_outer_events(gv, self.id@, node@.data_id)
                + cev);
            assert((html@, events3_view(all_events)) == spec_pair);
        }
        (html, all_events)
    }

    /// Renders a list of sibling nodes.
    pub fn children_html(&self, nodes: &Vec<Node>) -> (r: (String, Vec<(String, String, String)>))
        ensures
            (r.0@, events3_view(r.1)) == spec_children_html(all_nodes_view(*nodes), self.id@),
        decreases *nodes, 3int,
    {
        let r = self.children_html_from(nodes, 0);
        proof {
            assert(all_nodes_view(*nodes).skip(0) =~= all_nodes_view(*nodes));
        }
        r
    }

    /// Renders siblings from position `i` on.
    fn children_html_from(&self, nodes: &Vec<Node>, i: usize) -> (r: (
        String,
        Vec<(String, String, String)>,
    ))
        requires
            i <= nodes@.len(),
        ensures
            (r.0@, events3_view(r.1)) == spec_children_html(
                all_nodes_view(*nodes).skip(i as int),
                self.id@,
            ),
        decreases *nodes, 2int, nodes@.len() - i,
    {
        let ghost nv = all_nodes_view(*nodes);
        proof {
            crate::executor::lemma_nodes_view(*nodes, nodes@.len() as int);
        }
        let n = nodes.len();
        if i == n {
            let r = (String::new(), Vec::<(String, String, String)>::new());
            proof {
                assert(nv.skip(i as int) =~= Seq::<SpecNode>::empty());
                assert(events3_view(r.1) =~= Seq::<(Seq<char>, Seq<char>, Seq<char>)>::empty());
            }
            r
        } else {
            proof {
                assert(nv.skip(i as int)[0] == nv[i as int]);
                assert(nv.skip(i as int).drop_first() =~= nv.skip(i + 1));
            }
            let (h0, e0) = self.as_html_(&nodes[i]);
            let (h1, e1) = self.children_html_from(nodes, i + 1);
            let mut h = h0;
            h.append(h1.as_str());
            let mut es = e0;
            let ghost es0 = events3_view(es);
            let ghost e1v = events3_view(e1);
            let m = e1.len();
            let mut j: usize = 0;
            let mut e1m = e1;
            while j < m
                invariant
                    0 <= j <= m,
                    e1m@.len() == m - j,
                    e1v.len() == m,
                    forall|k: int|
                        0 <= k < m - j ==> (#[trigger] e1m@[k].0@, e1m@[k].1@, e1m@[k].2@) == e1v[
                            j + k
                        ],
                    events3_view(es) =~= es0 + e1v.take(j as int),
                decreases m - j,
            {
                let ghost esb = events3_view(es);
                let ghost e1mb = e1m@;
                let t = e1m.remove(0);
                proof {
                    assert((e1mb[0].0@, e1mb[0].1@, e1mb[0].2@) == e1v[j as int]);
                    assert(forall|k: int|
                        0 <= k < e1m@.len() ==> #[trigger] e1m@[k] == e1mb[k + 1]);
                }
                es.push(t);
                proof {
                    assert(events3_view(es) =~= esb.push(e1v[j as int]));
                    assert(e1v.take(j + 1 as int) =~= e1v.take(j as int).push(e1v[j as int]));
                }
                j += 1;
            }
            proof {
                assert(e1v.take(m as int) =~= e1v);
                assert(events3_view(es) =~= es0 + e1v);
            }
            (h, es)
        }
    }
}

} // verus!

verus! {

/// One line of the outer-events wiring: the fully-qualified id, the event
/// name, and the dispatcher call, colon-separated.
pub open spec fn spec_event_line(t: (Seq<char>, Seq<char>, Seq<char>)) -> Seq<char> {
    t.0 + "|"@ + t.1 + "|"@ + t.2
}

pub open spec fn spec_events_to_string(es: Seq<(Seq<char>, Seq<char>, Seq<char>)>) -> Seq<char>
    decreases es.len(),
{
    if es.len() == 0 {
        Seq::empty()
    } else {
        spec_event_line(es[0]) + "\n"@ + spec_events_to_string(es.drop_first())
    }
}

/// Renders the outer-events channel, one line per entry.
pub fn events_to_string(es: &Vec<(String, String, String)>) -> (r: String)
    ensures
        r@ == spec_events_to_string(events3_view(*es)),
{
    let ghost ev = events3_view(*es);
    proof {
        assert(ev.skip(0) =~= ev);
    }
    let n = es.len();
    let mut r = String::new();
    let mut i: usize = 0;
    while i < n
        invariant
            0 <= i <= n == es@.len(),
            ev == events3_view(*es),
            ev.len() == n,
            r@ + spec_events_to_string(ev.skip(i as int)) =~= spec_events_to_string(ev),
        decreases n - i,
    {
        proof {
            assert(ev.skip(i as int)[0] == ev[i as int]);
            assert(ev[i as int] == (es@[i as int].0@, es@[i as int].1@, es@[i as int].2@));
            assert(ev.skip(i as int).drop_first() =~= ev.skip(i + 1));
        }
        r.append(es[i].0.as_str());
        r.push('|');
        r.append(es[i].1.as_str());
        r.push('|');
        r.append(es[i].2.as_str());
        r.push('\n');
        proof {
            reveal_strlit("|");
            reveal_strlit("\n");
            assert(r@ + spec_events_to_string(ev.skip(i + 1)) =~= spec_events_to_string(ev));
        }
        i += 1;
    }
    proof {
        assert(ev.skip(n as int) =~= Seq::<(Seq<char>, Seq<char>, Seq<char>)>::empty());
        assert(r@ =~= spec_events_to_string(ev));
    }
    r
}

/// The wired references a web component reads, one list entry per property
/// of the asked mutability.
pub open spec fn spec_web_refs(
    props: Seq<(Seq<char>, crate::executor::SpecWebRef)>,
    mutable: bool,
) -> Seq<Seq<char>>
    decreases props.len(),
{
    if props.len() == 0 {
        Seq::empty()
    } else {
        let rest = spec_web_refs(props.drop_first(), mutable);
        if props[0].1.mutable == mutable {
            seq![props[0].1.reference] + rest
        } else {
            rest
        }
    }
}

/// The references the rendering traversal reads through web components: a
/// null or dummy node contributes nothing, a text node does not descend.
pub open spec fn spec_node_refs(n: SpecNode, mutable: bool) -> Seq<Seq<char>>
    decreases n, 0int,
{
    if n.null || n.raw_data is Some {
        Seq::empty()
    } else {
        (match n.web_component {
            Some(w) => spec_web_refs(w.properties, mutable),
            None => Seq::<Seq<char>>::empty(),
        }) + (match n.text {
            Some(_) => Seq::<Seq<char>>::empty(),
            None => spec_tree_refs(n.children, mutable),
        })
    }
}

pub open spec fn spec_tree_refs(ns: Seq<SpecNode>, mutable: bool) -> Seq<Seq<char>>
    decreases ns, 1int,
{
    if ns.len() == 0 {
        Seq::empty()
    } else {
        spec_node_refs(ns[0], mutable) + spec_tree_refs(ns.drop_first(), mutable)
    }
}

/// One value registry of a page: the wired references of one mutability,
/// newline-joined.
pub open spec fn spec_registry(ns: Seq<SpecNode>, mutable: bool) -> Seq<char> {
    spec_join(spec_tree_refs(ns, mutable), "\n"@)
}

/// Collects the wired references of one node.
fn collect_node_refs(n: &Node, mutable: bool) -> (r: Vec<String>)
    ensures
        r@.map_values(|x: String| x@) == spec_node_refs(n@, mutable),
    decreases *n, 0int,
{
    let mut out: Vec<String> = Vec::new();
    if n.is_null() || n.raw_data.is_some() {
        proof {
            assert(out@.map_values(|x: String| x@) =~= spec_node_refs(n@, mutable));
        }
        return out;
    }
    match &n.web_component {
        None => {
            proof {
                assert(out@.map_values(|x: String| x@) =~= Seq::<Seq<char>>::empty());
            }
        },
        Some(wc) => {
            let ghost wv = n@.web_component->Some_0.properties;
            proof {
                assert(wv.skip(0) =~= wv);
                assert(out@.map_values(|x: String| x@) + spec_web_refs(wv.skip(0), mutable)
                    =~= spec_web_refs(wv, mutable));
            }
            let m = wc.properties.len();
            let mut j: usize = 0;
            while j < m
                invariant
                    0 <= j <= m == wc.properties@.len(),
                    wv == wc@.properties,
                    wv.len() == m,
                    out@.map_values(|x: String| x@) + spec_web_refs(wv.skip(j as int), mutable)
                        =~= spec_web_refs(wv, mutable),
                decreases m - j,
            {
                proof {
                    assert(wv.skip(j as int)[0] == wv[j as int]);
                    assert(wv[j as int] == (
                        wc.properties@[j as int].0@,
                        wc.properties@[j as int].1@,
                    ));
                    assert(wv.skip(j as int).drop_first() =~= wv.skip(j + 1));
                }
                if wc.properties[j].1.mutable == mutable {
                    let ghost o0 = out@.map_values(|x: String| x@);
                    out.push(wc.properties[j].1.reference.clone());
                    proof {
                        assert(out@.map_values(|x: String| x@) =~= o0.push(
                            wv[j as int].1.reference,
                        ));
                        assert(o0.push(wv[j as int].1.reference) + spec_web_refs(
                            wv.skip(j + 1),
                            mutable,
                        ) =~= o0 + (seq![wv[j as int].1.reference] + spec_web_refs(
                            wv.skip(j + 1),
                            mutable,
                        )));
                    }
                }
                j += 1;
            }
            proof {
                assert(wv.skip(m as int) =~= Seq::<
                    (Seq<char>, crate::executor::SpecWebRef),
                >::empty());
                assert(out@.map_values(|x: String| x@) =~= spec_web_refs(wv, mutable));
            }
        },
    }
    let ghost own = out@.map_values(|x: String| x@);
    proof {
        assert(own + Seq::<Seq<char>>::empty() =~= own);
    }
    match &n.text {
        Some(_) => {
            proof {
                assert(out@.map_values(|x: String| x@) =~= spec_node_refs(n@, mutable));
            }
        },
        None => {
            let kids = collect_tree_refs(&n.children, 0, mutable);
            let m = kids.len();
            let ghost kv = kids@.map_values(|x: String| x@);
            let mut kids = kids;
            let mut j: usize = 0;
            while j < m
                invariant
                    0 <= j <= m,
                    kids@.len() == m - j,
                    kv.len() == m,
                    forall|k: int| 0 <= k < m - j ==> kids[k]@ == kv[j + k],
                    out@.map_values(|x: String| x@) =~= own + kv.take(j as int),
                decreases m - j,
            {
                let ghost o0 = out@.map_values(|x: String| x@);
                let ghost kids0 = kids;
                let x = kids.remove(0);
                proof {
                    assert(x@ == kv[j as int]);
                    assert(forall|k: int|
                        0 <= k < m - j - 1 ==> #[trigger] kids[k]@ == kids0[k + 1]@);
                }
                out.push(x);
                proof {
                    assert(out@.map_values(|y: String| y@) =~= o0.push(kv[j as int]));
                    assert(kv.take(j + 1 as int) =~= kv.take(j as int).push(kv[j as int]));
                }
                j += 1;
            }
            proof {
                assert(kv.take(m as int) =~= kv);
                assert(out@.map_values(|x: String| x@) =~= own + kv);
                assert(crate::executor::all_nodes_view(n.children).skip(0)
                    =~= crate::executor::all_nodes_view(n.children));
                assert(out@.map_values(|x: String| x@) =~= spec_node_refs(n@, mutable));
            }
        },
    }
    out
}

/// Collects the wired references of the nodes from position `i` on.
fn collect_tree_refs(ns: &Vec<Node>, i: usize, mutable: bool) -> (r: Vec<String>)
    requires
        i <= ns@.len(),
    ensures
        r@.map_values(|x: String| x@) == spec_tree_refs(
            crate::executor::all_nodes_view(*ns).skip(i as int),
            mutable,
        ),
    decreases *ns, 1int, ns@.len() - i,
{
    let ghost nv = crate::executor::all_nodes_view(*ns);
    proof {
        crate::executor::lemma_nodes_view(*ns, ns@.len() as int);
    }
    if i == ns.len() {
        let out: Vec<String> = Vec::new();
        proof {
            assert(nv.skip(i as int) =~= Seq::<SpecNode>::empty());
            assert(out@.map_values(|x: String| x@) =~= Seq::<Seq<char>>::empty());
        }
        out
    } else {
        proof {
            assert(nv.skip(i as int)[0] == nv[i as int]);
            assert(nv.skip(i as int).drop_first() =~= nv.skip(i + 1));
        }
        let mut out = collect_node_refs(&ns[i], mutable);
        let ghost own = out@.map_values(|x: String| x@);
        let rest = collect_tree_refs(ns, i + 1, mutable);
        let m = rest.len();
        let ghost rv = rest@.map_values(|x: String| x@);
        let mut rest = rest;
        let mut j: usize = 0;
        while j < m
            invariant
                0 <= j <= m,
                rest@.len() == m - j,
                rv.len() == m,
                forall|k: int| 0 <= k < m - j ==> rest[k]@ == rv[j + k],
                out@.map_values(|x: String| x@) =~= own + rv.take(j as int),
            decreases m - j,
        {
            let ghost o0 = out@.map_values(|x: String| x@);
            let ghost rest0 = rest;
            let x = rest.remove(0);
            proof {
                assert(x@ == rv[j as int]);
                assert(forall|k: int| 0 <= k < m - j - 1 ==> #[trigger] rest[k]@ == rest0[k + 1]@);
            }
            out.push(x);
            proof {
                assert(out@.map_values(|y: String| y@) =~= o0.push(rv[j as int]));
                assert(rv.take(j + 1 as int) =~= rv.take(j as int).push(rv[j as int]));
            }
            j += 1;
        }
        proof {
            assert(rv.take(m as int) =~= rv);
            assert(out@.map_values(|x: String| x@) =~= own + rv);
        }
        out
    }
}

impl HtmlGenerator {
    /// Renders the whole tree: the HTML, the rendered outer-events channel,
    /// and the page's mutable and immutable value registries collected from
    /// the web-component wiring.
    pub fn as_html_and_outer_events(&self, nodes: &Vec<Node>) -> (r: (
        String,
        String,
        String,
        String,
    ))
        ensures
            r.0@ == spec_children_html(all_nodes_view(*nodes), self.id@).0,
            r.1@ == spec_events_to_string(
                spec_children_html(all_nodes_view(*nodes), self.id@).1,
            ),
            r.2@ == spec_registry(all_nodes_view(*nodes), true),
            r.3@ == spec_registry(all_nodes_view(*nodes), false),
    {
        let (html, events) = self.children_html(nodes);
        let ev_str = events_to_string(&events);
        let mutable_refs = collect_tree_refs(nodes, 0, true);
        let immutable_refs = collect_tree_refs(nodes, 0, false);
        proof {
            assert(all_nodes_view(*nodes).skip(0) =~= all_nodes_view(*nodes));
        }
        let mutable_value = join_strings(&mutable_refs, "\n");
        let immutable_value = join_strings(&immutable_refs, "\n");
        (html, ev_str, mutable_value, immutable_value)
    }
}

/// A deferred fragment of a dummy subtree: its placeholder, unresolved
/// properties and iteration marker, and the named sub-template fragments
/// reconstructed client-side at update time.
pub struct RawHtmlGenerator {
    pub name: String,
    pub html: String,
    pub properties: Vec<crate::interpreter::Property>,
    pub properties_string: Option<String>,
    pub iteration: Option<crate::interpreter::Loop>,
    pub helper_html: Vec<(String, RawHtmlGenerator)>,
    pub children: Vec<RawHtmlGenerator>,
}

#[verifier::ext_equal]
pub struct SpecRawHtmlGenerator {
    pub name: Seq<char>,
    pub html: Seq<char>,
    pub properties: Seq<crate::interpreter::SpecProperty>,
    pub properties_string: Option<Seq<char>>,
    pub iteration: Option<crate::interpreter::SpecLoop>,
    pub helper_html: Seq<(Seq<char>, SpecRawHtmlGenerator)>,
    pub children: Seq<SpecRawHtmlGenerator>,
}

pub open spec fn raw_gens_view(v: Vec<RawHtmlGenerator>, k: int) -> Seq<SpecRawHtmlGenerator>
    decreases v, k, 0int,
{
    if k <= 0 || k > v@.len() {
        Seq::empty()
    } else {
        raw_gens_view(v, k - 1).push(v[k - 1].view())
    }
}

pub open spec fn raw_pairs_view(v: Vec<(String, RawHtmlGenerator)>, k: int) -> Seq<
    (Seq<char>, SpecRawHtmlGenerator),
>
    decreases v, k, 0int,
{
    if k <= 0 || k > v@.len() {
        Seq::empty()
    } else {
        raw_pairs_view(v, k - 1).push((v[k - 1].0@, v[k - 1].1.view()))
    }
}

impl View for RawHtmlGenerator {
    type V = SpecRawHtmlGenerator;

    open spec fn view(&self) -> SpecRawHtmlGenerator
        decreases self, 0int, 1int,
    {
        SpecRawHtmlGenerator {
            name: self.name@,
            html: self.html@,
            properties: self.properties@.map_values(|p: crate::interpreter::Property| p@),
            properties_string: crate::p11::opt_str(self.properties_string),
            iteration: match self.iteration {
                Some(l) => Some(l@),
                None => None,
            },
            helper_html: raw_pairs_view(self.helper_html, self.helper_html@.len() as int),
            children: raw_gens_view(self.children, self.children@.len() as int),
        }
    }
}

pub proof fn lemma_raw_gens_view(v: Vec<RawHtmlGenerator>, k: int)
    requires
        0 <= k <= v@.len(),
    ensures
        raw_gens_view(v, k).len() == k,
        forall|i: int| 0 <= i < k ==> raw_gens_view(v, k)[i] == v[i]@,
    decreases k,
{
    if k > 0 {
        lemma_raw_gens_view(v, k - 1);
        assert(raw_gens_view(v, k) == raw_gens_view(v, k - 1).push(v[k - 1].view()));
    } else {
        assert(raw_gens_view(v, k) == Seq::<SpecRawHtmlGenerator>::empty());
    }
}

pub proof fn lemma_raw_pairs_view(v: Vec<(String, RawHtmlGenerator)>, k: int)
    requires
        0 <= k <= v@.len(),
    ensures
        raw_pairs_view(v, k).len() == k,
        forall|i: int| 0 <= i < k ==> raw_pairs_view(v, k)[i] == (v[i].0@, v[i].1@),
    decreases k,
{
    if k > 0 {
        lemma_raw_pairs_view(v, k - 1);
        assert(raw_pairs_view(v, k) == raw_pairs_view(v, k - 1).push((v[k - 1].0@, v[k - 1].1@)));
    } else {
        assert(raw_pairs_view(v, k) == Seq::<(Seq<char>, SpecRawHtmlGenerator)>::empty());
    }
}

/// A fresh, empty dummy fragment.
pub open spec fn spec_empty_raw() -> SpecRawHtmlGenerator {
    SpecRawHtmlGenerator {
        name: Seq::empty(),
        html: Seq::empty(),
        properties: Seq::empty(),
        properties_string: None,
        iteration: None,
        helper_html: Seq::empty(),
        children: Seq::empty(),
    }
}

/// What deferring one node into a dummy fragment yields: a raw node keeps
/// its placeholder, properties and iteration with its children deferred
/// recursively; any other node is rendered to HTML in place.
pub open spec fn spec_dummy_filled(
    n: SpecNode,
    id: Seq<char>,
    old_d: SpecRawHtmlGenerator,
) -> SpecRawHtmlGenerator
    decreases n, 0int,
{
    if n.raw_data is Some {
        SpecRawHtmlGenerator {
            name: n.node,
            html: seq!['{'] + n.node + seq!['}'],
            properties: n.raw_data->Some_0.properties,
            properties_string: None,
            iteration: n.raw_data->Some_0.iteration,
            helper_html: Seq::empty(),
            children: spec_dummies_of(n.children, id),
        }
    } else {
        SpecRawHtmlGenerator { html: spec_as_html(n, id).0, ..old_d }
    }
}

pub open spec fn spec_dummies_of(cs: Seq<SpecNode>, id: Seq<char>) -> Seq<SpecRawHtmlGenerator>
    decreases cs, 1int,
{
    if cs.len() == 0 {
        Seq::empty()
    } else {
        seq![spec_dummy_filled(cs[0], id, spec_empty_raw())] + spec_dummies_of(
            cs.drop_first(),
            id,
        )
    }
}

/// What rendering one node for a dummy tree yields: a raw node becomes a
/// fresh numbered entry of the sub-template map (its placeholder returned,
/// its children deferred onto the fragment), any other node renders as its
/// HTML and outer events.
pub open spec fn spec_as_dummy_html_(n: SpecNode, id: Seq<char>, d: SpecRawHtmlGenerator) -> (
    SpecRawHtmlGenerator,
    Seq<char>,
    Seq<(Seq<char>, Seq<char>, Seq<char>)>,
)
    decreases n, 2int,
{
    if n.null {
        (d, Seq::empty(), Seq::empty())
    } else if n.raw_data is Some {
        let fresh = n.node + "_"@ + crate::text::spec_u64_digits(d.helper_html.len() as int);
        let entry = SpecRawHtmlGenerator {
            name: fresh,
            html: seq!['{'] + fresh + seq!['}'],
            properties: n.raw_data->Some_0.properties,
            properties_string: None,
            iteration: n.raw_data->Some_0.iteration,
            helper_html: Seq::empty(),
            children: Seq::empty(),
        };
        (
            SpecRawHtmlGenerator {
                helper_html: d.helper_html.push((fresh, entry)),
                children: d.children + spec_dummies_of(n.children, id),
                ..d
            },
            fresh,
            Seq::empty(),
        )
    } else {
        (d, spec_as_html(n, id).0, spec_as_html(n, id).1)
    }
}

impl HtmlGenerator {
    /// Defers one node into a dummy fragment.
    pub fn as_dummy_html(&self, node: &Node, dummy: &mut RawHtmlGenerator)
        ensures
            final(dummy)@ == spec_dummy_filled(node@, self.id@, old(dummy)@),
        decreases *node, 3int,
    {
        match &node.raw_data {
            Some(rd) => {
                let kids = self.dummy_children(&node.children, 0);
                let mut h = String::new();
                h.push('{');
                h.append(node.node.as_str());
                h.push('}');
                let out = RawHtmlGenerator {
                    name: node.node.clone(),
                    html: h,
                    properties: crate::executor::clone_properties_public(&rd.properties),
                    properties_string: None,
                    iteration: match &rd.iteration {
                        Some(l) => Some(
                            crate::interpreter::Loop {
                                on: crate::executor::clone_rov(&l.on),
                                alias: l.alias.clone(),
                            },
                        ),
                        None => None,
                    },
                    helper_html: Vec::new(),
                    children: kids,
                };
                *dummy = out;
                proof {
                    lemma_raw_pairs_view(dummy.helper_html, 0);
                    assert(dummy@.helper_html =~= Seq::<
                        (Seq<char>, SpecRawHtmlGenerator),
                    >::empty());
                    assert(all_nodes_view(node.children).skip(0) =~= all_nodes_view(
                        node.children,
                    ));
                    assert(dummy@.children == spec_dummies_of(node@.children, self.id@));
                    assert(dummy@.html =~= seq!['{'] + node@.node + seq!['}']);
                    assert(dummy@ =~~= spec_dummy_filled(node@, self.id@, old(dummy)@));
                }
            },
            None => {
                let pair = self.as_dummy_html_(node, dummy);
                dummy.html = pair.0;
                proof {
                    if node@.null {
                        assert(spec_as_html(node@, self.id@).0 == Seq::<char>::empty());
                    }
                    assert(pair.0@ == spec_as_html(node@, self.id@).0);
                    assert(dummy@.html == spec_as_html(node@, self.id@).0);
                    assert(dummy@.name == old(dummy)@.name);
                    assert(dummy@.helper_html == old(dummy)@.helper_html);
                    assert(dummy@.children == old(dummy)@.children);
                    assert(dummy@.properties == old(dummy)@.properties);
                    assert(dummy@.properties_string == old(dummy)@.properties_string);
                    assert(dummy@.iteration == old(dummy)@.iteration);
                    assert(!(node@.raw_data is Some));
                    assert(spec_dummy_filled(node@, self.id@, old(dummy)@)
                        == (SpecRawHtmlGenerator {
                        html: spec_as_html(node@, self.id@).0,
                        ..old(dummy)@
                    }));
                    assert(dummy@ =~~= (SpecRawHtmlGenerator {
                        html: spec_as_html(node@, self.id@).0,
                        ..old(dummy)@
                    }));
                }
            },
        }
    }

    /// Defers the nodes from position `i` on into fresh dummy fragments.
    fn dummy_children(&self, ns: &Vec<Node>, i: usize) -> (r: Vec<RawHtmlGenerator>)
        requires
            i <= ns@.len(),
        ensures
            raw_gens_view(r, r@.len() as int) == spec_dummies_of(
                all_nodes_view(*ns).skip(i as int),
                self.id@,
            ),
        decreases *ns, 4int, ns@.len() - i,
    {
        let ghost nv = all_nodes_view(*ns);
        proof {
            crate::executor::lemma_nodes_view(*ns, ns@.len() as int);
        }
        if i == ns.len() {
            let out: Vec<RawHtmlGenerator> = Vec::new();
            proof {
                assert(nv.skip(i as int) =~= Seq::<SpecNode>::empty());
                lemma_raw_gens_view(out, 0);
                assert(raw_gens_view(out, 0) =~= Seq::<SpecRawHtmlGenerator>::empty());
            }
            out
        } else {
            proof {
                assert(nv.skip(i as int)[0] == nv[i as int]);
                assert(nv.skip(i as int).drop_first() =~= nv.skip(i + 1));
            }
            let mut first = empty_raw();
            proof {
                assert(first@ =~~= spec_empty_raw());
            }
            self.as_dummy_html(&ns[i], &mut first);
            let rest = self.dummy_children(ns, i + 1);
            let ghost restv = raw_gens_view(rest, rest@.len() as int);
            let mut out = rest;
            let ghost out_pre = out;
            out.insert(0, first);
            proof {
                lemma_raw_gens_view(out_pre, out_pre@.len() as int);
                lemma_raw_gens_view(out, out@.len() as int);
                assert(raw_gens_view(out, out@.len() as int) =~= seq![first@] + restv);
            }
            out
        }
    }

    /// Renders one node for embedding within a dummy tree: a raw node joins
    /// the fragment's sub-template map under a fresh numbered name; any
    /// other node renders as HTML with its outer events.
    pub fn as_dummy_html_(&self, node: &Node, dummy: &mut RawHtmlGenerator) -> (r: (
        String,
        Vec<(String, String, String)>,
    ))
        ensures
            ({
                let expect = spec_as_dummy_html_(node@, self.id@, old(dummy)@);
                &&& final(dummy)@ == expect.0
                &&& r.0@ == expect.1
                &&& events3_view(r.1) == expect.2
            }),
        decreases *node, 1int,
    {
        if node.is_null() {
            let r = (String::new(), Vec::<(String, String, String)>::new());
            proof {
                assert(events3_view(r.1) =~= Seq::<(Seq<char>, Seq<char>, Seq<char>)>::empty());
            }
            return r;
        }
        match &node.raw_data {
            Some(rd) => {
                let mut fresh = node.node.clone();
                fresh.push('_');
                fresh.append(
                    crate::text::u64_to_string(dummy.helper_html.len() as u64).as_str(),
                );
                proof {
                    reveal_strlit("_");
                    lemma_raw_pairs_view(dummy.helper_html, dummy.helper_html@.len() as int);
                    assert(old(dummy)@.helper_html.len() == dummy.helper_html@.len());
                    assert(fresh@ =~= node@.node + "_"@ + crate::text::spec_u64_digits(
                        old(dummy)@.helper_html.len() as int,
                    ));
                }
                let mut h = String::new();
                h.push('{');
                h.append(fresh.as_str());
                h.push('}');
                let entry = RawHtmlGenerator {
                    name: fresh.clone(),
                    html: h,
                    properties: crate::executor::clone_properties_public(&rd.properties),
                    properties_string: None,
                    iteration: match &rd.iteration {
                        Some(l) => Some(
                            crate::interpreter::Loop {
                                on: crate::executor::clone_rov(&l.on),
                                alias: l.alias.clone(),
                            },
                        ),
                        None => None,
                    },
                    helper_html: Vec::new(),
                    children: Vec::new(),
                };
                proof {
                    lemma_raw_pairs_view(entry.helper_html, 0);
                    lemma_raw_gens_view(entry.children, 0);
                    assert(entry@.helper_html =~= Seq::<
                        (Seq<char>, SpecRawHtmlGenerator),
                    >::empty());
                    assert(entry@.children =~= Seq::<SpecRawHtmlGenerator>::empty());
                    assert(entry@.html =~= seq!['{'] + fresh@ + seq!['}']);
                    assert(entry@ =~~= (SpecRawHtmlGenerator {
                        name: node@.node + "_"@ + crate::text::spec_u64_digits(
                            old(dummy)@.helper_html.len() as int,
                        ),
                        html: seq!['{'] + (node@.node + "_"@ + crate::text::spec_u64_digits(
                            old(dummy)@.helper_html.len() as int,
                        )) + seq!['}'],
                        properties: node@.raw_data->Some_0.properties,
                        properties_string: None,
                        iteration: node@.raw_data->Some_0.iteration,
                        helper_html: Seq::empty(),
                        children: Seq::empty(),
                    }));
                }
                let ghost helper0 = dummy@.helper_html;
                let ghost entryv = entry@;
                let ghost freshv = fresh@;
                let ghost helper_vec0 = dummy.helper_html;
                dummy.helper_html.push((fresh.clone(), entry));
                proof {
                    lemma_raw_pairs_view(helper_vec0, helper_vec0@.len() as int);
                    lemma_raw_pairs_view(dummy.helper_html, dummy.helper_html@.len() as int);
                    assert(dummy@.helper_html =~= helper0.push((freshv, entryv)));
                }
                let kids = self.dummy_children(&node.children, 0);
                let ghost kidsv = raw_gens_view(kids, kids@.len() as int);
                proof {
                    lemma_raw_gens_view(kids, kids@.len() as int);
                }
                let ghost children0 = dummy@.children;
                let m = kids.len();
                let mut kids = kids;
                let mut j: usize = 0;
                while j < m
                    invariant
                        0 <= j <= m,
                        kids@.len() == m - j,
                        kidsv.len() == m,
                        forall|k: int| 0 <= k < m - j ==> kids[k]@ == kidsv[j + k],
                        dummy@.children =~= children0 + kidsv.take(j as int),
                        dummy@.helper_html == helper0.push((freshv, entryv)),
                        dummy@.name == old(dummy)@.name,
                        dummy@.html == old(dummy)@.html,
                        dummy@.properties == old(dummy)@.properties,
                        dummy@.properties_string == old(dummy)@.properties_string,
                        dummy@.iteration == old(dummy)@.iteration,
                    decreases m - j,
                {
                    let ghost d0 = dummy@.children;
                    let ghost dvec0 = dummy.children;
                    let ghost kids0 = kids;
                    let x = kids.remove(0);
                    proof {
                        assert(x@ == kidsv[j as int]);
                        assert(forall|k: int|
                            0 <= k < m - j - 1 ==> #[trigger] kids[k]@ == kids0[k + 1]@);
                    }
                    dummy.children.push(x);
                    proof {
                        lemma_raw_gens_view(dvec0, dvec0@.len() as int);
                        lemma_raw_gens_view(dummy.children, dummy.children@.len() as int);
                        assert(dummy@.children =~= d0.push(kidsv[j as int]));
                        assert(kidsv.take(j + 1 as int) =~= kidsv.take(j as int).push(
                            kidsv[j as int],
                        ));
                    }
                    j += 1;
                }
                proof {
                    assert(kidsv.take(m as int) =~= kidsv);
                    assert(all_nodes_view(node.children).skip(0) =~= all_nodes_view(
                        node.children,
                    ));
                    assert(dummy@.children =~= children0 + spec_dummies_of(
                        node@.children,
                        self.id@,
                    ));
                    assert(dummy@ =~~= spec_as_dummy_html_(node@, self.id@, old(dummy)@).0);
                }
                let out = (fresh, Vec::<(String, String, String)>::new());
                proof {
                    assert(events3_view(out.1) =~= Seq::<
                        (Seq<char>, Seq<char>, Seq<char>),
                    >::empty());
                }
                out
            },
            None => {
                let pair = self.as_html_(node);
                proof {
                    assert(dummy@ == old(dummy)@);
                }
                pair
            },
        }
    }
}

/// A fresh, empty dummy fragment.
pub fn empty_raw() -> (r: RawHtmlGenerator)
    ensures
        r@ == spec_empty_raw(),
{
    let r = RawHtmlGenerator {
        name: String::new(),
        html: String::new(),
        properties: Vec::new(),
        properties_string: None,
        iteration: None,
        helper_html: Vec::new(),
        children: Vec::new(),
    };
    proof {
        lemma_raw_gens_view(r.children, 0);
        lemma_raw_pairs_view(r.helper_html, 0);
        assert(r@.children =~= Seq::<SpecRawHtmlGenerator>::empty());
        assert(r@.helper_html =~= Seq::<(Seq<char>, SpecRawHtmlGenerator)>::empty());
        assert(r@.properties =~= Seq::<crate::interpreter::SpecProperty>::empty());
        assert(r@ =~~= spec_empty_raw());
    }
    r
}

impl RawHtmlGenerator {
    /// Defers one node into a fresh dummy fragment.
    pub fn from_node(id: &str, node: &Node) -> (r: RawHtmlGenerator)
        ensures
            r@ == spec_dummy_filled(node@, id@, spec_empty_raw()),
    {
        let generator = HtmlGenerator::new(id);
        let mut dummy = empty_raw();
        generator.as_dummy_html(node, &mut dummy);
        dummy
    }
}

/// The string without one pair of surrounding parentheses.
pub open spec fn spec_trim_brackets(s: Seq<char>) -> Seq<char> {
    if s.len() >= 2 && s[0] == '(' && s[s.len() - 1] == ')' {
        s.subrange(1, s.len() - 1)
    } else {
        s
    }
}

/// Removes one pair of surrounding parentheses.
pub fn trim_brackets(s: &str) -> (r: String)
    ensures
        r@ == spec_trim_brackets(s@),
{
    let n = s.unicode_len();
    if n >= 2 && s.get_char(0) == '(' && s.get_char(n - 1) == ')' {
        s.substring_char(1, n - 1).to_owned()
    } else {
        String::from_str(s)
    }
}

/// Whether the argument list holds the name.
pub fn contains_str(args: &Vec<String>, x: &str) -> (r: bool)
    ensures
        r == args@.map_values(|a: String| a@).contains(x@),
{
    let ghost av = args@.map_values(|a: String| a@);
    let n = args.len();
    let mut i: usize = 0;
    while i < n
        invariant
            0 <= i <= n == args@.len(),
            av == args@.map_values(|a: String| a@),
            av.len() == n,
            forall|k: int| 0 <= k < i ==> av[k] != x@,
        decreases n - i,
    {
        proof {
            assert(av[i as int] == args@[i as int]@);
        }
        if crate::text::eq_str(args[i].as_str(), x) {
            proof {
                assert(av[i as int] == x@);
            }
            return true;
        }
        i += 1;
    }
    proof {
        if av.contains(x@) {
            let k = choose|k: int| 0 <= k < av.len() && av[k] == x@;
            assert(false);
        }
    }
    false
}

/// Rewrites one operator tree into statement text: assignments become local
/// declarations unless the target is a parameter, chains become
/// newline-joined statements, parameters read through their reactive box.
pub open spec fn spec_expr_str(
    n: crate::expr::SpecExprNode,
    root: bool,
    args: Seq<Seq<char>>,
) -> Seq<char>
    decreases n, 3int,
{
    match n.operator {
        crate::expr::SpecOperator::RootNode => {
            let joined = spec_exprs_concat(n.children, args);
            let flags = if n.children.len() == 0 {
                (false, true)
            } else {
                let first_op = n.children[0].operator;
                let is_ac = first_op is Assign || first_op is Chain;
                (
                    is_ac,
                    is_ac || spec_has_value(first_op) is Some || first_op is Tuple,
                )
            };
            let f = if !flags.1 {
                "("@ + joined + ")"@
            } else {
                joined
            };
            if root && !flags.0 && f.len() > 0 {
                "return "@ + f + ";"@
            } else {
                f
            }
        },
        crate::expr::SpecOperator::Chain => spec_join(
            spec_chain_strs(n.children, args),
            "\n"@,
        ),
        crate::expr::SpecOperator::Tuple => "("@ + spec_join(
            spec_exprs_strs(n.children, args),
            ","@,
        ) + ")"@,
        crate::expr::SpecOperator::Assign => {
            if n.children.len() == 2 {
                let target = crate::expr::spec_op_text(n.children[0].operator);
                let prefix = if args.contains(target) {
                    Seq::<char>::empty()
                } else {
                    "let "@
                };
                prefix + spec_expr_str(n.children[0], false, args) + "="@ + spec_expr_str(
                    n.children[1],
                    false,
                    args,
                )
            } else {
                crate::expr::spec_op_text(n.operator)
            }
        },
        crate::expr::SpecOperator::FunctionIdentifier(name) => name + spec_join(
            spec_exprs_strs(n.children, args),
            " "@,
        ),
        crate::expr::SpecOperator::Const(_) => spec_value_leaf(n.operator, args),
        crate::expr::SpecOperator::VariableIdentifierRead(_) => spec_value_leaf(n.operator, args),
        crate::expr::SpecOperator::VariableIdentifierWrite(_) => spec_value_leaf(
            n.operator,
            args,
        ),
        _ => {
            if n.children.len() == 2 {
                spec_expr_str(n.children[0], false, args) + crate::expr::spec_op_text(n.operator)
                    + spec_expr_str(n.children[1], false, args)
            } else if n.children.len() == 1 {
                crate::expr::spec_op_text(n.operator) + spec_expr_str(n.children[0], false, args)
            } else {
                crate::expr::spec_op_text(n.operator)
            }
        },
    }
}

/// A value leaf: parameters read `.value` through their reactive box.
pub open spec fn spec_value_leaf(op: crate::expr::SpecOperator, args: Seq<Seq<char>>) -> Seq<
    char,
> {
    let text = crate::expr::spec_op_text(op);
    if args.contains(text) {
        text + ".value"@
    } else {
        text
    }
}

/// The operator's printable value, for constants and identifiers.
pub open spec fn spec_has_value(op: crate::expr::SpecOperator) -> Option<Seq<char>> {
    match op {
        crate::expr::SpecOperator::Const(_) => Some(crate::expr::spec_op_text(op)),
        crate::expr::SpecOperator::VariableIdentifierRead(s) => Some(s),
        crate::expr::SpecOperator::VariableIdentifierWrite(s) => Some(s),
        _ => None,
    }
}

pub open spec fn spec_exprs_concat(
    cs: Seq<crate::expr::SpecExprNode>,
    args: Seq<Seq<char>>,
) -> Seq<char>
    decreases cs, 4int,
{
    if cs.len() == 0 {
        Seq::empty()
    } else {
        spec_expr_str(cs[0], false, args) + spec_exprs_concat(cs.drop_first(), args)
    }
}

pub open spec fn spec_exprs_strs(
    cs: Seq<crate::expr::SpecExprNode>,
    args: Seq<Seq<char>>,
) -> Seq<Seq<char>>
    decreases cs, 4int,
{
    if cs.len() == 0 {
        Seq::empty()
    } else {
        seq![spec_expr_str(cs[0], false, args)] + spec_exprs_strs(cs.drop_first(), args)
    }
}

/// The nonempty statements of a chain, each closed with a semicolon.
pub open spec fn spec_chain_strs(
    cs: Seq<crate::expr::SpecExprNode>,
    args: Seq<Seq<char>>,
) -> Seq<Seq<char>>
    decreases cs, 4int,
{
    if cs.len() == 0 {
        Seq::empty()
    } else {
        let val = spec_trim_brackets(crate::text::spec_trim(spec_expr_str(cs[0], true, args)));
        let rest = spec_chain_strs(cs.drop_first(), args);
        if crate::text::spec_trim(val).len() == 0 {
            rest
        } else {
            let closed = if val.len() > 0 && val[val.len() - 1] == ';' {
                val
            } else {
                val + ";"@
            };
            seq![closed] + rest
        }
    }
}

/// Rewrites the evaluator's parse trees into statement sequences for the
/// generated page functions.
pub struct ExpressionGenerator;

impl ExpressionGenerator {
    /// Rewrites one operator tree into statement text.
    pub fn to_string(
        &self,
        node: &crate::expr::ExprNode,
        root: bool,
        args: &Vec<String>,
    ) -> (r: String)
        ensures
            r@ == spec_expr_str(node@, root, args@.map_values(|a: String| a@)),
        decreases *node, 3int,
    {
        let ghost av = args@.map_values(|a: String| a@);
        proof {
            crate::expr::lemma_expr_nodes_view(node.children, node.children@.len() as int);
        }
        match &node.operator {
            crate::expr::Operator::RootNode => {
                let joined = self.exprs_concat(&node.children, args);
                let (is_ac, only_one) = if node.children.len() == 0 {
                    (false, true)
                } else {
                    let first = &node.children[0];
                    let is_ac = self.is_assignment(&first.operator) || self.is_chain(
                        &first.operator,
                    );
                    (
                        is_ac,
                        is_ac || self.has_value(&first.operator).is_some() || self.is_tuple(
                            &first.operator,
                        ),
                    )
                };
                let f = if !only_one {
                    let mut w = String::new();
                    w.push('(');
                    w.append(joined.as_str());
                    w.push(')');
                    proof {
                        reveal_strlit("(");
                        reveal_strlit(")");
                        assert(w@ =~= "("@ + joined@ + ")"@);
                    }
                    w
                } else {
                    joined
                };
                if root && !is_ac && f.as_str().unicode_len() > 0 {
                    let mut w = String::from_str("return ");
                    w.append(f.as_str());
                    w.push(';');
                    proof {
                        reveal_strlit("return ");
                        reveal_strlit(";");
                        assert(w@ =~= "return "@ + f@ + ";"@);
                    }
                    w
                } else {
                    f
                }
            },
            crate::expr::Operator::Chain => {
                let items = self.chain_strs(&node.children, args);
                join_strings(&items, "\n")
            },
            crate::expr::Operator::Tuple => {
                let items = self.exprs_strs(&node.children, args);
                let mut w = String::new();
                w.push('(');
                w.append(join_strings(&items, ",").as_str());
                w.push(')');
                proof {
                    reveal_strlit("(");
                    reveal_strlit(")");
                    reveal_strlit(",");
                    assert(w@ =~= "("@ + spec_join(spec_exprs_strs(node@.children, av), ","@)
                        + ")"@);
                }
                w
            },
            crate::expr::Operator::Assign => {
                if node.children.len() == 2 {
                    let target = node.children[0].operator.text();
                    let mut w = if contains_str(args, target.as_str()) {
                        String::new()
                    } else {
                        String::from_str("let ")
                    };
                    w.append(self.to_string(&node.children[0], false, args).as_str());
                    w.push('=');
                    w.append(self.to_string(&node.children[1], false, args).as_str());
                    proof {
                        reveal_strlit("let ");
                        reveal_strlit("=");
                        assert(w@ =~= spec_expr_str(node@, root, av));
                    }
                    w
                } else {
                    node.operator.text()
                }
            },
            crate::expr::Operator::FunctionIdentifier(name) => {
                let items = self.exprs_strs(&node.children, args);
                let mut w = name.clone();
                w.append(join_strings(&items, " ").as_str());
                w
            },
            crate::expr::Operator::Const(_) => self.value_leaf(&node.operator, args),
            crate::expr::Operator::VariableIdentifierRead(_) => self.value_leaf(
                &node.operator,
                args,
            ),
            crate::expr::Operator::VariableIdentifierWrite(_) => self.value_leaf(
                &node.operator,
                args,
            ),
            _ => {
                if node.children.len() == 2 {
                    let mut w = self.to_string(&node.children[0], false, args);
                    w.append(node.operator.text().as_str());
                    w.append(self.to_string(&node.children[1], false, args).as_str());
                    w
                } else if node.children.len() == 1 {
                    let mut w = node.operator.text();
                    w.append(self.to_string(&node.children[0], false, args).as_str());
                    w
                } else {
                    node.operator.text()
                }
            },
        }
    }

    /// Renders a value leaf; parameters read through their reactive box.
    fn value_leaf(&self, op: &crate::expr::Operator, args: &Vec<String>) -> (r: String)
        ensures
            r@ == spec_value_leaf(op@, args@.map_values(|a: String| a@)),
    {
        let text = op.text();
        if contains_str(args, text.as_str()) {
            let mut w = text;
            w.append(".value");
            proof {
                reveal_strlit(".value");
            }
            w
        } else {
            text
        }
    }

    /// Concatenates the rewritten children.
    fn exprs_concat(&self, cs: &Vec<crate::expr::ExprNode>, args: &Vec<String>) -> (r: String)
        ensures
            r@ == spec_exprs_concat(
                crate::expr::all_expr_nodes_view(*cs),
                args@.map_values(|a: String| a@),
            ),
        decreases *cs, 6int, 0int,
    {
        let r = self.exprs_concat_from(cs, 0, args);
        proof {
            assert(crate::expr::all_expr_nodes_view(*cs).skip(0) =~= crate::expr::all_expr_nodes_view(
                *cs,
            ));
        }
        r
    }

    fn exprs_concat_from(
        &self,
        cs: &Vec<crate::expr::ExprNode>,
        i: usize,
        args: &Vec<String>,
    ) -> (r: String)
        requires
            i <= cs@.len(),
        ensures
            r@ == spec_exprs_concat(
                crate::expr::all_expr_nodes_view(*cs).skip(i as int),
                args@.map_values(|a: String| a@),
            ),
        decreases *cs, 5int, cs@.len() - i,
    {
        let ghost cv = crate::expr::all_expr_nodes_view(*cs);
        proof {
            crate::expr::lemma_expr_nodes_view(*cs, cs@.len() as int);
        }
        if i == cs.len() {
            proof {
                assert(cv.skip(i as int) =~= Seq::<crate::expr::SpecExprNode>::empty());
            }
            String::new()
        } else {
            proof {
                assert(cv.skip(i as int)[0] == cv[i as int]);
                assert(cv.skip(i as int).drop_first() =~= cv.skip(i + 1));
            }
            let mut w = self.to_string(&cs[i], false, args);
            w.append(self.exprs_concat_from(cs, i + 1, args).as_str());
            w
        }
    }

    /// The rewritten children as separate items.
    fn exprs_strs(&self, cs: &Vec<crate::expr::ExprNode>, args: &Vec<String>) -> (r: Vec<String>)
        ensures
            r@.map_values(|x: String| x@) == spec_exprs_strs(
                crate::expr::all_expr_nodes_view(*cs),
                args@.map_values(|a: String| a@),
            ),
        decreases *cs, 4int, 0int,
    {
        let ghost cv = crate::expr::all_expr_nodes_view(*cs);
        let ghost av = args@.map_values(|a: String| a@);
        proof {
            crate::expr::lemma_expr_nodes_view(*cs, cs@.len() as int);
            lemma_exprs_strs_index(cv, av);
        }
        let n = cs.len();
        let mut out: Vec<String> = Vec::new();
        let mut i: usize = 0;
        while i < n
            invariant
                0 <= i <= n == cs@.len(),
                cv == crate::expr::all_expr_nodes_view(*cs),
                cv.len() == n,
                av == args@.map_values(|a: String| a@),
                forall|k: int| 0 <= k < n ==> cv[k] == cs[k]@,
                spec_exprs_strs(cv, av).len() == n,
                forall|k: int|
                    0 <= k < n ==> #[trigger] spec_exprs_strs(cv, av)[k] == spec_expr_str(
                        cv[k],
                        false,
                        av,
                    ),
                out@.len() == i,
                forall|k: int|
                    0 <= k < i ==> #[trigger] out@[k]@ == spec_exprs_strs(cv, av)[k],
            decreases n - i,
        {
            out.push(self.to_string(&cs[i], false, args));
            i += 1;
        }
        proof {
            assert(out@.map_values(|x: String| x@) =~= spec_exprs_strs(cv, av));
        }
        out
    }

    /// The nonempty statements of a chain, semicolon-closed.
    fn chain_strs(&self, cs: &Vec<crate::expr::ExprNode>, args: &Vec<String>) -> (r: Vec<String>)
        ensures
            r@.map_values(|x: String| x@) == spec_chain_strs(
                crate::expr::all_expr_nodes_view(*cs),
                args@.map_values(|a: String| a@),
            ),
        decreases *cs, 4int, 0int,
    {
        let ghost cv = crate::expr::all_expr_nodes_view(*cs);
        let ghost av = args@.map_values(|a: String| a@);
        proof {
            crate::expr::lemma_expr_nodes_view(*cs, cs@.len() as int);
            assert(cv.skip(0) =~= cv);
        }
        let n = cs.len();
        let mut out: Vec<String> = Vec::new();
        proof {
            assert(out@.map_values(|x: String| x@) + spec_chain_strs(cv.skip(0), av)
                =~= spec_chain_strs(cv, av));
        }
        let mut i: usize = 0;
        while i < n
            invariant
                0 <= i <= n == cs@.len(),
                cv == crate::expr::all_expr_nodes_view(*cs),
                cv.len() == n,
                av == args@.map_values(|a: String| a@),
                forall|k: int| 0 <= k < n ==> cv[k] == cs[k]@,
                out@.map_values(|x: String| x@) + spec_chain_strs(cv.skip(i as int), av)
                    =~= spec_chain_strs(cv, av),
            decreases n - i,
        {
            proof {
                assert(cv.skip(i as int)[0] == cv[i as int]);
                assert(cv.skip(i as int).drop_first() =~= cv.skip(i + 1));
            }
            let rendered = self.to_string(&cs[i], true, args);
            let trimmed_ws = crate::text::chars_to_string(
                &crate::text::trim_chars(&crate::text::str_to_chars(rendered.as_str())),
            );
            let val = trim_brackets(trimmed_ws.as_str());
            let val_trim = crate::text::trim_chars(&crate::text::str_to_chars(val.as_str()));
            proof {
                assert(val@ == spec_trim_brackets(crate::text::spec_trim(spec_expr_str(
                    cv[i as int],
                    true,
                    av,
                ))));
            }
            if val_trim.len() > 0 {
                let vlen = val.as_str().unicode_len();
                let closed = if vlen > 0 && val.as_str().get_char(vlen - 1) == ';' {
                    val
                } else {
                    let mut w = val;
                    w.push(';');
                    proof {
                        reveal_strlit(";");
                    }
                    w
                };
                let ghost out0 = out@.map_values(|x: String| x@);
                out.push(closed);
                proof {
                    reveal_strlit(";");
                    assert(out@.map_values(|x: String| x@) =~= out0.push(closed@));
                    let sval = spec_trim_brackets(
                        crate::text::spec_trim(spec_expr_str(cv.skip(i as int)[0], true, av)),
                    );
                    assert(sval == val@);
                    assert(crate::text::spec_trim(sval).len() > 0);
                    assert(closed@ == (if sval.len() > 0 && sval[sval.len() - 1] == ';' {
                        sval
                    } else {
                        sval + ";"@
                    }));
                    assert(spec_chain_strs(cv.skip(i as int), av) =~= seq![closed@]
                        + spec_chain_strs(cv.skip(i + 1), av));
                    assert(out0.push(closed@) + spec_chain_strs(cv.skip(i + 1), av) =~= out0 + (
                    seq![closed@] + spec_chain_strs(cv.skip(i + 1), av)));
                }
            } else {
                proof {
                    assert(spec_chain_strs(cv.skip(i as int), av) == spec_chain_strs(
                        cv.skip(i + 1),
                        av,
                    ));
                }
            }
            i += 1;
        }
        proof {
            assert(cv.skip(n as int) =~= Seq::<crate::expr::SpecExprNode>::empty());
            assert(out@.map_values(|x: String| x@) =~= spec_chain_strs(cv, av));
        }
        out
    }

    /// The operator's printable value, for constants and identifiers.
    pub fn has_value(&self, operator: &crate::expr::Operator) -> (r: Option<String>)
        ensures
            match r {
                Some(v) => spec_has_value(operator@) == Some(v@),
                None => spec_has_value(operator@) is None,
            },
    {
        match operator {
            crate::expr::Operator::Const(_) => Some(operator.text()),
            crate::expr::Operator::VariableIdentifierRead(s) => Some(s.clone()),
            crate::expr::Operator::VariableIdentifierWrite(s) => Some(s.clone()),
            _ => None,
        }
    }

    /// The operator's function name, when it is a call.
    pub fn has_function(&self, operator: &crate::expr::Operator) -> (r: Option<String>)
        ensures
            match r {
                Some(v) => operator@ matches crate::expr::SpecOperator::FunctionIdentifier(s) && s
                    == v@,
                None => !(operator@ is FunctionIdentifier),
            },
    {
        match operator {
            crate::expr::Operator::FunctionIdentifier(s) => Some(s.clone()),
            _ => None,
        }
    }

    /// Whether the operator assigns.
    pub fn is_assignment(&self, operator: &crate::expr::Operator) -> (r: bool)
        ensures
            r == (operator@ is Assign),
    {
        matches!(operator, crate::expr::Operator::Assign)
    }

    /// Whether the operator chains statements.
    pub fn is_chain(&self, operator: &crate::expr::Operator) -> (r: bool)
        ensures
            r == (operator@ is Chain),
    {
        matches!(operator, crate::expr::Operator::Chain)
    }

    /// Whether the operator groups a tuple.
    pub fn is_tuple(&self, operator: &crate::expr::Operator) -> (r: bool)
        ensures
            r == (operator@ is Tuple),
    {
        matches!(operator, crate::expr::Operator::Tuple)
    }

    /// The operator's infix text, when it is none of the structural kinds.
    pub fn has_operator(&self, operator: &crate::expr::Operator) -> (r: Option<String>)
        ensures
            match r {
                Some(v) => spec_has_value(operator@) is None && !(operator@ is FunctionIdentifier)
                    && !(operator@ is Chain) && !(operator@ is RootNode) && !(operator@ is Tuple)
                    && !(operator@ is Assign) && v@ == crate::expr::spec_op_text(operator@),
                None => spec_has_value(operator@) is Some || operator@ is FunctionIdentifier
                    || operator@ is Chain || operator@ is RootNode || operator@ is Tuple
                    || operator@ is Assign,
            },
    {
        let structural = self.has_value(operator).is_some() || self.has_function(
            operator,
        ).is_some() || self.is_chain(operator) || self.is_root(operator) || self.is_tuple(
            operator,
        ) || self.is_assignment(operator);
        if structural {
            None
        } else {
            Some(operator.text())
        }
    }

    /// Whether the operator is the tree's root marker.
    pub fn is_root(&self, operator: &crate::expr::Operator) -> (r: bool)
        ensures
            r == (operator@ is RootNode),
    {
        matches!(operator, crate::expr::Operator::RootNode)
    }
}

proof fn lemma_exprs_strs_index(cs: Seq<crate::expr::SpecExprNode>, args: Seq<Seq<char>>)
    ensures
        spec_exprs_strs(cs, args).len() == cs.len(),
        forall|k: int|
            0 <= k < cs.len() ==> #[trigger] spec_exprs_strs(cs, args)[k] == spec_expr_str(
                cs[k],
                false,
                args,
            ),
    decreases cs.len(),
{
    if cs.len() > 0 {
        lemma_exprs_strs_index(cs.drop_first(), args);
        assert(forall|k: int| 1 <= k < cs.len() ==> #[trigger] cs[k] == cs.drop_first()[k - 1]);
    }
}

} // verus!

verus! {

/// One sanitized character of a generated function name.
pub open spec fn spec_js_name_char(c: char) -> char {
    if c == '#' || c == '.' || c == '-' {
        '_'
    } else {
        c
    }
}

/// The JS function name of a page function: sanitized and suffixed with the
/// page id.
pub open spec fn spec_js_fn_name(name: Seq<char>, id: Seq<char>) -> Seq<char> {
    name.map_values(|c: char| spec_js_name_char(c)) + "_"@ + id
}

/// Builds the JS function name of a page function.
pub fn js_fn_name(name: &str, id: &str) -> (r: String)
    ensures
        r@ == spec_js_fn_name(name@, id@),
{
    let n = name.unicode_len();
    let mut r = String::new();
    let mut i: usize = 0;
    while i < n
        invariant
            0 <= i <= n == name@.len(),
            r@.len() == i,
            forall|k: int| 0 <= k < i ==> r@[k] == spec_js_name_char(name@[k]),
        decreases n - i,
    {
        let c = name.get_char(i);
        if c == '#' || c == '.' || c == '-' {
            r.push('_');
        } else {
            r.push(c);
        }
        i += 1;
    }
    r.push('_');
    r.append(id);
    proof {
        reveal_strlit("_");
        assert(r@ =~= spec_js_fn_name(name@, id@));
    }
    r
}

/// What one user function renders as: its sanitized name, its parameter
/// list, and one rewritten statement per expression; an expression outside
/// the operator grammar is a reported error.
pub open spec fn spec_function_js(
    f: crate::interpreter::SpecFunction,
    id: Seq<char>,
) -> Result<Seq<char>, Seq<char>> {
    let args = f.arguments.map_values(|a: crate::interpreter::SpecArgument| a.name);
    match spec_function_body(f.expression, args) {
        Err(m) => Err(m),
        Ok(lines) => Ok(
            "function "@ + spec_js_fn_name(f.name, id) + "("@ + spec_join(args, ","@) + "){\n"@
                + spec_join(lines, "\n"@) + "\n}\n"@,
        ),
    }
}

pub open spec fn spec_function_body(
    exprs: Seq<crate::interpreter::SpecExpression>,
    args: Seq<Seq<char>>,
) -> Result<Seq<Seq<char>>, Seq<char>>
    decreases exprs.len(),
{
    if exprs.len() == 0 {
        Ok(Seq::empty())
    } else {
        match crate::expr::spec_build(exprs[0].expression) {
            Err(m) => Err(m),
            Ok(node) => match spec_function_body(exprs.drop_first(), args) {
                Err(m) => Err(m),
                Ok(rest) => Ok(
                    seq![spec_trim_brackets(spec_expr_str(node, true, args))] + rest,
                ),
            },
        }
    }
}

/// Generates the page functions of one document.
pub struct FunctionGenerator {
    id: String,
}

impl FunctionGenerator {
    /// Builds a generator for one rendered page.
    pub fn new(id: &str) -> (r: FunctionGenerator)
        ensures
            r.id_view() == id@,
    {
        FunctionGenerator { id: String::from_str(id) }
    }

    /// The page id the generator renders for.
    pub closed spec fn id_view(&self) -> Seq<char> {
        self.id@
    }

    /// Renders every user function of the bag, joined by blank lines.
    pub fn get_functions(&self, bag: &Vec<(String, crate::interpreter::Thing)>) -> (r: Result<
        String,
        String,
    >)
        ensures
            match r {
                Ok(out) => spec_get_functions(crate::interpreter::bag_view(*bag), self.id_view())
                    == Result::<Seq<char>, Seq<char>>::Ok(out@),
                Err(m) => spec_get_functions(crate::interpreter::bag_view(*bag), self.id_view())
                    == Result::<Seq<char>, Seq<char>>::Err(m@),
            },
    {
        let ghost bv = crate::interpreter::bag_view(*bag);
        proof {
            assert(bv.skip(0) =~= bv);
        }
        let n = bag.len();
        let mut items: Vec<String> = Vec::new();
        proof {
            if spec_function_items(bv, self.id_view()) is Ok {
                assert(spec_function_items(bv, self.id_view())->Ok_0 =~= items@.map_values(
                    |x: String| x@,
                ) + spec_function_items(bv, self.id_view())->Ok_0);
            }
        }
        let mut i: usize = 0;
        while i < n
            invariant
                0 <= i <= n == bag@.len(),
                bv == crate::interpreter::bag_view(*bag),
                bv.len() == n,
                spec_function_items(bv, self.id_view()) matches Ok(all) ==> {
                    &&& spec_function_items(bv.skip(i as int), self.id_view()) matches Ok(rest)
                    &&& all =~= items@.map_values(|x: String| x@) + rest
                },
                spec_function_items(bv, self.id_view()) matches Err(m) ==> spec_function_items(
                    bv.skip(i as int),
                    self.id_view(),
                ) == Result::<Seq<Seq<char>>, Seq<char>>::Err(m),
            decreases n - i,
        {
            proof {
                assert(bv.skip(i as int)[0] == bv[i as int]);
                assert(bv[i as int] == (bag@[i as int].0@, bag@[i as int].1@));
                assert(bv.skip(i as int).drop_first() =~= bv.skip(i + 1));
            }
            match &bag[i].1 {
                crate::interpreter::Thing::Function(f) => {
                    match self.get_function(f) {
                        Err(m) => {
                            return Err(m);
                        },
                        Ok(code) => {
                            let ghost items0 = items@.map_values(|x: String| x@);
                            items.push(code);
                            proof {
                                assert(items@.map_values(|x: String| x@) =~= items0.push(code@));
                                if spec_function_items(bv, self.id_view()) is Ok {
                                    assert(items0.push(code@) + spec_function_items(
                                        bv.skip(i + 1),
                                        self.id_view(),
                                    )->Ok_0 =~= items0 + (seq![code@] + spec_function_items(
                                        bv.skip(i + 1),
                                        self.id_view(),
                                    )->Ok_0));
                                }
                            }
                        },
                    }
                },
                _ => {},
            }
            i += 1;
        }
        proof {
            assert(bv.skip(n as int) =~= Seq::<(Seq<char>, crate::interpreter::SpecThing)>::empty());
            if spec_function_items(bv, self.id_view()) is Ok {
                assert(spec_function_items(bv, self.id_view())->Ok_0 =~= items@.map_values(
                    |x: String| x@,
                ));
            }
        }
        Ok(join_strings(&items, "\n\n"))
    }

    /// Renders one user function.
    pub fn get_function(&self, function: &crate::interpreter::Function) -> (r: Result<
        String,
        String,
    >)
        ensures
            match r {
                Ok(out) => spec_function_js(function@, self.id_view()) == Result::<
                    Seq<char>,
                    Seq<char>,
                >::Ok(out@),
                Err(m) => spec_function_js(function@, self.id_view()) == Result::<
                    Seq<char>,
                    Seq<char>,
                >::Err(m@),
            },
    {
        let ghost av = function@.arguments.map_values(
            |a: crate::interpreter::SpecArgument| a.name,
        );
        let na = function.arguments.len();
        let mut args: Vec<String> = Vec::new();
        let mut i: usize = 0;
        while i < na
            invariant
                0 <= i <= na == function.arguments@.len(),
                args@.len() == i,
                forall|k: int| 0 <= k < i ==> #[trigger] args@[k]@ == function.arguments[k]@.name,
            decreases na - i,
        {
            args.push(function.arguments[i].name.clone());
            i += 1;
        }
        proof {
            assert(args@.map_values(|a: String| a@) =~= av);
        }
        let ghost ev = function@.expression;
        proof {
            assert(ev.skip(0) =~= ev);
        }
        let ne = function.expression.len();
        let mut lines: Vec<String> = Vec::new();
        proof {
            if spec_function_body(ev, av) is Ok {
                assert(spec_function_body(ev, av)->Ok_0 =~= lines@.map_values(|x: String| x@)
                    + spec_function_body(ev, av)->Ok_0);
            }
        }
        let mut j: usize = 0;
        while j < ne
            invariant
                0 <= j <= ne == function.expression@.len(),
                ev == function@.expression,
                ev.len() == ne,
                av == args@.map_values(|a: String| a@),
                av == function@.arguments.map_values(
                    |a: crate::interpreter::SpecArgument| a.name,
                ),
                spec_function_body(ev, av) matches Ok(all) ==> {
                    &&& spec_function_body(ev.skip(j as int), av) matches Ok(rest)
                    &&& all =~= lines@.map_values(|x: String| x@) + rest
                },
                spec_function_body(ev, av) matches Err(m) ==> spec_function_body(
                    ev.skip(j as int),
                    av,
                ) == Result::<Seq<Seq<char>>, Seq<char>>::Err(m),
            decreases ne - j,
        {
            proof {
                assert(ev.skip(j as int)[0] == ev[j as int]);
                assert(ev[j as int] == function.expression@[j as int]@);
                assert(ev.skip(j as int).drop_first() =~= ev.skip(j + 1));
            }
            match crate::expr::build_operator_tree(function.expression[j].expression.as_str()) {
                Err(m) => {
                    proof {
                        assert(spec_function_body(ev.skip(j as int), av) == Result::<
                            Seq<Seq<char>>,
                            Seq<char>,
                        >::Err(m@));
                    }
                    return Err(m);
                },
                Ok(node) => {
                    let generator = ExpressionGenerator;
                    let rendered = generator.to_string(&node, true, &args);
                    let line = trim_brackets(rendered.as_str());
                    let ghost lines0 = lines@.map_values(|x: String| x@);
                    lines.push(line);
                    proof {
                        assert(lines@.map_values(|x: String| x@) =~= lines0.push(line@));
                        if spec_function_body(ev, av) is Ok {
                            assert(lines0.push(line@) + spec_function_body(
                                ev.skip(j + 1),
                                av,
                            )->Ok_0 =~= lines0 + (seq![line@] + spec_function_body(
                                ev.skip(j + 1),
                                av,
                            )->Ok_0));
                        }
                    }
                },
            }
            j += 1;
        }
        proof {
            assert(ev.skip(ne as int) =~= Seq::<crate::interpreter::SpecExpression>::empty());
            if spec_function_body(ev, av) is Ok {
                assert(spec_function_body(ev, av)->Ok_0 =~= lines@.map_values(|x: String| x@));
            }
        }
        let mut out = String::from_str("function ");
        out.append(js_fn_name(function.name.as_str(), self.id.as_str()).as_str());
        out.push('(');
        out.append(join_strings(&args, ",").as_str());
        out.append("){\n");
        out.append(join_strings(&lines, "\n").as_str());
        out.append("\n}\n");
        proof {
            reveal_strlit("function ");
            reveal_strlit("(");
            reveal_strlit("){\n");
            reveal_strlit("\n}\n");
            reveal_strlit(",");
            reveal_strlit("\n");
            assert(out@ =~= spec_function_js(function@, self.id_view())->Ok_0);
        }
        Ok(out)
    }
}

/// The rendered functions of every function thing in the bag, in bag order.
pub open spec fn spec_function_items(
    bag: Seq<(Seq<char>, crate::interpreter::SpecThing)>,
    id: Seq<char>,
) -> Result<Seq<Seq<char>>, Seq<char>>
    decreases bag.len(),
{
    if bag.len() == 0 {
        Ok(Seq::empty())
    } else {
        let rest = spec_function_items(bag.drop_first(), id);
        match bag[0].1 {
            crate::interpreter::SpecThing::Function(f) => match spec_function_js(f, id) {
                Err(m) => Err(m),
                Ok(code) => match rest {
                    Err(m) => Err(m),
                    Ok(items) => Ok(seq![code] + items),
                },
            },
            _ => rest,
        }
    }
}

pub open spec fn spec_get_functions(
    bag: Seq<(Seq<char>, crate::interpreter::SpecThing)>,
    id: Seq<char>,
) -> Result<Seq<char>, Seq<char>> {
    match spec_function_items(bag, id) {
        Err(m) => Err(m),
        Ok(items) => Ok(spec_join(items, "\n\n"@)),
    }
}

/// The page titles handed through to the host shell.
pub struct HTMLData {
    pub title: Option<String>,
    pub og_title: Option<String>,
}

impl HTMLData {
    /// Converts the page-level data into the output form.
    pub fn to_html_data(&self) -> (r: HTMLData)
        ensures
            crate::p11::opt_str(r.title) == crate::p11::opt_str(self.title),
            crate::p11::opt_str(r.og_title) == crate::p11::opt_str(self.og_title),
    {
        HTMLData {
            title: match &self.title {
                Some(t) => Some(t.clone()),
                None => None,
            },
            og_title: match &self.og_title {
                Some(t) => Some(t.clone()),
                None => None,
            },
        }
    }
}

/// Everything the HTML path produces for one page.
pub struct HtmlUI {
    pub html: String,
    pub dependencies: String,
    pub variables: String,
    pub functions: String,
    pub variable_dependencies: String,
    pub outer_events: String,
    pub dummy_html: String,
    pub raw_html: String,
    pub mutable_variable: String,
    pub immutable_variable: String,
    pub html_data: HTMLData,
    pub js: String,
    pub css: String,
}

/// The variable registry: one `name: kind` line per variable thing.
pub open spec fn spec_variable_lines(
    bag: Seq<(Seq<char>, crate::interpreter::SpecThing)>,
) -> Seq<Seq<char>>
    decreases bag.len(),
{
    if bag.len() == 0 {
        Seq::empty()
    } else {
        let rest = spec_variable_lines(bag.drop_first());
        match bag[0].1 {
            crate::interpreter::SpecThing::Variable(v) => seq![v.name + ": "@ + v.kind] + rest,
            _ => rest,
        }
    }
}

/// The deferred-fragment channel: one placeholder line per dummy root node.
pub open spec fn spec_dummy_lines(ns: Seq<SpecNode>) -> Seq<Seq<char>>
    decreases ns.len(),
{
    if ns.len() == 0 {
        Seq::empty()
    } else {
        let rest = spec_dummy_lines(ns.drop_first());
        if ns[0].raw_data is Some {
            seq![seq!['{'] + ns[0].node + seq!['}']] + rest
        } else {
            rest
        }
    }
}

/// The page title a bag variable holds as a string value, if any.
pub open spec fn spec_bag_title(
    bag: Seq<(Seq<char>, crate::interpreter::SpecThing)>,
    qualified: Seq<char>,
) -> Option<Seq<char>> {
    match crate::executor::spec_bag_thing(bag, qualified) {
        Some(crate::interpreter::SpecThing::Variable(v)) => match v.value {
            crate::interpreter::SpecPropertyValue::Value {
                value: crate::interpreter::SpecValue::String { text },
            } => Some(text),
            _ => None,
        },
        _ => None,
    }
}

/// Reads a title variable from the bag.
fn bag_title(bag: &Vec<(String, Thing)>, qualified: &str) -> (r: Option<String>)
    ensures
        crate::p11::opt_str(r) == spec_bag_title(crate::interpreter::bag_view(*bag), qualified@),
{
    let ghost bv = crate::interpreter::bag_view(*bag);
    proof {
        crate::interpreter::lemma_bag_idx(bv, qualified@);
    }
    let n = bag.len();
    let mut i: usize = 0;
    while i < n
        invariant
            0 <= i <= n == bag@.len(),
            bv == crate::interpreter::bag_view(*bag),
            bv.len() == n,
            forall|k: int| 0 <= k < i ==> bv[k].0 != qualified@,
            crate::interpreter::spec_bag_idx(bv, qualified@) >= 0 ==> 0
                <= crate::interpreter::spec_bag_idx(bv, qualified@) < n && bv[
                crate::interpreter::spec_bag_idx(bv, qualified@)
            ].0 == qualified@,
            crate::interpreter::spec_bag_idx(bv, qualified@) >= 0 ==> forall|k: int|
                0 <= k < crate::interpreter::spec_bag_idx(bv, qualified@) ==> bv[k].0
                    != qualified@,
            crate::interpreter::spec_bag_idx(bv, qualified@) < 0 ==> forall|k: int|
                0 <= k < n ==> bv[k].0 != qualified@,
        decreases n - i,
    {
        proof {
            assert(bv[i as int] == (bag@[i as int].0@, bag@[i as int].1@));
        }
        if crate::text::eq_str(bag[i].0.as_str(), qualified) {
            proof {
                assert(crate::interpreter::spec_bag_idx(bv, qualified@) == i as int);
            }
            match &bag[i].1 {
                Thing::Variable(v) => match &v.value {
                    crate::interpreter::PropertyValue::Value {
                        value: crate::interpreter::Value::String { text },
                    } => {
                        return Some(text.clone());
                    },
                    _ => {
                        return None;
                    },
                },
                _ => {
                    return None;
                },
            }
        }
        i += 1;
    }
    None
}

/// The whole HTML-path output pinned: every field of the assembled record as
/// a function of the rendered tree, the bag, the page id and the document
/// name alone.
pub open spec fn spec_ui_pinned(
    ui: HtmlUI,
    main: Seq<SpecNode>,
    bag: Seq<(Seq<char>, crate::interpreter::SpecThing)>,
    id: Seq<char>,
    doc_name: Seq<char>,
) -> bool {
    &&& ui.html@ == spec_children_html(main, id).0
    &&& ui.outer_events@ == spec_events_to_string(spec_children_html(main, id).1)
    &&& spec_get_functions(bag, id) == Result::<Seq<char>, Seq<char>>::Ok(ui.functions@)
    &&& ui.variables@ == spec_join(spec_variable_lines(bag), "\n"@)
    &&& ui.mutable_variable@ == spec_registry(main, true)
    &&& ui.immutable_variable@ == spec_registry(main, false)
    &&& ui.dummy_html@ == spec_join(spec_dummy_lines(main), "\n"@)
    &&& crate::p11::opt_str(ui.html_data.title) == spec_bag_title(bag, doc_name + "#title"@)
    &&& crate::p11::opt_str(ui.html_data.og_title) == spec_bag_title(
        bag,
        doc_name + "#og-title"@,
    )
    &&& ui.dependencies@ == Seq::<char>::empty()
    &&& ui.variable_dependencies@ == Seq::<char>::empty()
    &&& ui.raw_html@ == Seq::<char>::empty()
    &&& ui.js@ == Seq::<char>::empty()
    &&& ui.css@ == Seq::<char>::empty()
}

impl HtmlUI {
    /// Assembles the whole HTML path output of one rendered tree. Every
    /// field is pinned: the HTML and the rendered outer-events channel, the
    /// page functions, the variable registry, the web-component value
    /// registries, the deferred-fragment channel, the page titles read from
    /// the document's `title` and `og-title` variables, and the dependency,
    /// raw, js and css channels, which this kernel element set leaves empty.
    pub fn from_node_data(rt: &crate::executor::RT, id: &str) -> (r: Result<HtmlUI, String>)
        ensures
            match r {
                Ok(ui) => spec_ui_pinned(
                    ui,
                    all_nodes_view(rt.main),
                    crate::interpreter::bag_view(rt.bag),
                    id@,
                    rt.name@,
                ),
                Err(m) => spec_get_functions(crate::interpreter::bag_view(rt.bag), id@)
                    == Result::<Seq<char>, Seq<char>>::Err(m@),
            },
    {
        let functions = match FunctionGenerator::new(id).get_functions(&rt.bag) {
            Ok(f) => f,
            Err(m) => {
                return Err(m);
            },
        };
        let generator = HtmlGenerator::new(id);
        let (html, outer_events, mutable_variable, immutable_variable) =
            generator.as_html_and_outer_events(&rt.main);
        let ghost bv = crate::interpreter::bag_view(rt.bag);
        proof {
            assert(bv.skip(0) =~= bv);
        }
        let n = rt.bag.len();
        let mut lines: Vec<String> = Vec::new();
        proof {
            assert(lines@.map_values(|x: String| x@) + spec_variable_lines(bv.skip(0))
                =~= spec_variable_lines(bv));
        }
        let mut i: usize = 0;
        while i < n
            invariant
                0 <= i <= n == rt.bag@.len(),
                bv == crate::interpreter::bag_view(rt.bag),
                bv.len() == n,
                lines@.map_values(|x: String| x@) + spec_variable_lines(bv.skip(i as int))
                    =~= spec_variable_lines(bv),
            decreases n - i,
        {
            proof {
                assert(bv.skip(i as int)[0] == bv[i as int]);
                assert(bv[i as int] == (rt.bag@[i as int].0@, rt.bag@[i as int].1@));
                assert(bv.skip(i as int).drop_first() =~= bv.skip(i + 1));
            }
            match &rt.bag[i].1 {
                crate::interpreter::Thing::Variable(v) => {
                    let mut line = v.name.clone();
                    line.append(": ");
                    line.append(v.kind.as_str());
                    let ghost lines0 = lines@.map_values(|x: String| x@);
                    lines.push(line);
                    proof {
                        reveal_strlit(": ");
                        assert(line@ =~= bv[i as int].1->Variable_0.name + ": "@ + bv[
                            i as int
                        ].1->Variable_0.kind);
                        assert(lines@.map_values(|x: String| x@) =~= lines0.push(line@));
                        assert(lines0.push(line@) + spec_variable_lines(bv.skip(i + 1)) =~= lines0
                            + (seq![line@] + spec_variable_lines(bv.skip(i + 1))));
                    }
                },
                _ => {},
            }
            i += 1;
        }
        proof {
            assert(bv.skip(n as int) =~= Seq::<
                (Seq<char>, crate::interpreter::SpecThing),
            >::empty());
            assert(lines@.map_values(|x: String| x@) =~= spec_variable_lines(bv));
        }
        let variables = join_strings(&lines, "\n");
        let ghost mv = all_nodes_view(rt.main);
        proof {
            crate::executor::lemma_nodes_view(rt.main, rt.main@.len() as int);
            assert(mv.skip(0) =~= mv);
        }
        let m = rt.main.len();
        let mut dummies: Vec<String> = Vec::new();
        proof {
            assert(dummies@.map_values(|x: String| x@) + spec_dummy_lines(mv.skip(0))
                =~= spec_dummy_lines(mv));
        }
        let mut j: usize = 0;
        while j < m
            invariant
                0 <= j <= m == rt.main@.len(),
                mv == all_nodes_view(rt.main),
                mv.len() == m,
                forall|k: int| 0 <= k < m ==> mv[k] == rt.main[k]@,
                dummies@.map_values(|x: String| x@) + spec_dummy_lines(mv.skip(j as int))
                    =~= spec_dummy_lines(mv),
            decreases m - j,
        {
            proof {
                assert(mv.skip(j as int)[0] == mv[j as int]);
                assert(mv.skip(j as int).drop_first() =~= mv.skip(j + 1));
            }
            if rt.main[j].raw_data.is_some() {
                let mut line = String::new();
                line.push('{');
                line.append(rt.main[j].node.as_str());
                line.push('}');
                let ghost d0 = dummies@.map_values(|x: String| x@);
                dummies.push(line);
                proof {
                    assert(line@ =~= seq!['{'] + mv[j as int].node + seq!['}']);
                    assert(dummies@.map_values(|x: String| x@) =~= d0.push(line@));
                    assert(d0.push(line@) + spec_dummy_lines(mv.skip(j + 1)) =~= d0 + (seq![
                        line@,
                    ] + spec_dummy_lines(mv.skip(j + 1))));
                }
            }
            j += 1;
        }
        proof {
            assert(mv.skip(m as int) =~= Seq::<SpecNode>::empty());
            assert(dummies@.map_values(|x: String| x@) =~= spec_dummy_lines(mv));
        }
        let dummy_html = join_strings(&dummies, "\n");
        let mut title_name = rt.name.clone();
        title_name.append("#title");
        let mut og_name = rt.name.clone();
        og_name.append("#og-title");
        proof {
            reveal_strlit("#title");
            reveal_strlit("#og-title");
        }
        let html_data = HTMLData {
            title: bag_title(&rt.bag, title_name.as_str()),
            og_title: bag_title(&rt.bag, og_name.as_str()),
        };
        Ok(
            HtmlUI {
                html,
                dependencies: String::new(),
                variables,
                functions,
                variable_dependencies: String::new(),
                outer_events,
                dummy_html,
                raw_html: String::new(),
                mutable_variable,
                immutable_variable,
                html_data,
                js: String::new(),
                css: String::new(),
            },
        )
    }
}

} // verus!
