//! Builds the filter tree that a parsed notation describes, at run time.
//!
//! The values it knows are `CompFilter::new("N")`, `PropFilter::new("N")`,
//! `ParamFilter::new("N")`, `TextMatch::new("T")`, `TextMatch::default()`,
//! `TimeRange::default()`, `TimeRange { start: B, end: B }` with each bound
//! `None` or `UtcDateTime::new(y, mo, d, h, mi, s)`, string literals and
//! `true` / `false`; the calls it knows are the builder methods of those
//! types.
use vstd::prelude::*;
use crate::dsl::{
    DslError, ErrorKind, Field, is_digit, is_tok, tok_is, Step, Token, TokenKind, Value, field_text, is_path_sep,
    parse_notation, parses_to, path_sep, syntax_error,
};
use crate::time::{DateTimeModel, TimeRange, UtcDateTime, opt_view, valid_instant};
use crate::filter::{CompFilter, Filter, ParamFilter, PropFilter, TextMatch, filter_xml, comp_children_xml, comp_child_xml, comp_filter_xml, CompChild, lemma_comp_children_in_order};

verus! {

/// A value met while building.
#[derive(Debug)]
pub enum Node {
    Comp(CompFilter),
    Prop(PropFilter),
    Param(ParamFilter),
    Text(TextMatch),
    Str(String),
    Bool(bool),
    Time(TimeRange),
}

pub open spec fn is_str_lit(t: Token) -> bool {
    t.kind == TokenKind::Literal && t.text@.len() >= 2 && t.text@[0] == '\x22'
}

/// What a string literal token says, without its quotes.
pub open spec fn lit_content(t: Token) -> Seq<char> {
    t.text@.subrange(1, t.text@.len() - 1)
}

/// The value is a call `ty::method(...)`.
pub open spec fn call_of(toks: Seq<Token>, v: Value, ty: Seq<char>, method: Seq<char>) -> bool {
    match v {
        Value::Call(a, p, c) => {
            &&& p == a + 3
            &&& p < toks.len()
            &&& toks[a as int].text@ == ty
            &&& is_path_sep(toks[a + 1])
            &&& toks[a + 2].text@ == method
        },
        _ => false,
    }
}

/// The one string literal that a call takes.
pub open spec fn str_arg(toks: Seq<Token>, v: Value) -> Option<Seq<char>> {
    match v {
        Value::Call(a, p, c) => if c == p + 2 && p + 1 < toks.len() && is_str_lit(toks[p + 1]) {
            Some(lit_content(toks[p + 1]))
        } else {
            None
        },
        _ => None,
    }
}

/// The name given to `ty::new("name")`.
pub open spec fn new_arg(toks: Seq<Token>, v: Value, ty: Seq<char>) -> Option<Seq<char>> {
    if call_of(toks, v, ty, "new"@) {
        str_arg(toks, v)
    } else {
        None
    }
}

/// The text that a `TextMatch` value starts with.
pub open spec fn text_base(toks: Seq<Token>, v: Value) -> Option<Seq<char>> {
    if call_of(toks, v, "TextMatch"@, "new"@) {
        str_arg(toks, v)
    } else if call_of(toks, v, "TextMatch"@, "default"@) && v->Call_2 == v->Call_1 + 1 {
        Some(Seq::empty())
    } else {
        None
    }
}

pub open spec fn lit_str(toks: Seq<Token>, v: Value) -> Option<Seq<char>> {
    match v {
        Value::Lit(i) => if i < toks.len() && is_str_lit(toks[i as int]) {
            Some(lit_content(toks[i as int]))
        } else {
            None
        },
        _ => None,
    }
}

pub open spec fn lit_bool(toks: Seq<Token>, v: Value) -> Option<bool> {
    match v {
        Value::Lit(i) => if i < toks.len() && toks[i as int].text@ == "true"@ {
            Some(true)
        } else if i < toks.len() && toks[i as int].text@ == "false"@ {
            Some(false)
        } else {
            None
        },
        _ => None,
    }
}

pub open spec fn digit_of(c: char) -> int {
    if c == '1' { 1 } else if c == '2' { 2 } else if c == '3' { 3 } else if c == '4' { 4 }
    else if c == '5' { 5 } else if c == '6' { 6 } else if c == '7' { 7 } else if c == '8' { 8 }
    else if c == '9' { 9 } else { 0 }
}

/// The number that a run of decimal digits writes.
pub open spec fn decimal_value(s: Seq<char>) -> int
    decreases s.len(),
{
    if s.len() == 0 {
        0
    } else {
        decimal_value(s.drop_last()) * 10 + digit_of(s.last())
    }
}

/// An integer literal of one to nine decimal digits.
pub open spec fn num_at(toks: Seq<Token>, j: int) -> bool {
    &&& 0 <= j < toks.len()
    &&& toks[j].kind == TokenKind::Literal
    &&& 1 <= toks[j].text@.len() <= 9
    &&& forall|k: int| 0 <= k < toks[j].text@.len() ==> is_digit(#[trigger] toks[j].text@[k])
}

pub open spec fn num_val(toks: Seq<Token>, j: int) -> int {
    decimal_value(toks[j].text@)
}

pub open spec fn text_at(toks: Seq<Token>, j: int, s: Seq<char>) -> bool {
    0 <= j < toks.len() && toks[j].text@ == s
}

pub open spec fn tok_at(toks: Seq<Token>, j: int, kind: TokenKind, c: char) -> bool {
    0 <= j < toks.len() && is_tok(toks[j], kind, c)
}

/// `UtcDateTime::new(y, mo, d, h, mi, s)` over the 16 tokens from `j`.
pub open spec fn instant_call_at(toks: Seq<Token>, j: int) -> bool {
    &&& text_at(toks, j, "UtcDateTime"@)
    &&& 0 <= j + 1 < toks.len() && is_path_sep(toks[j + 1])
    &&& text_at(toks, j + 2, "new"@)
    &&& tok_at(toks, j + 3, TokenKind::Open, '\x28')
    &&& forall|i: int| 0 <= i < 6 ==> #[trigger] num_at(toks, j + 4 + 2 * i)
    &&& forall|i: int| 0 <= i < 5 ==> #[trigger] tok_at(toks, j + 5 + 2 * i, TokenKind::Punct, ',')
    &&& tok_at(toks, j + 15, TokenKind::Close, '\x29')
}

pub open spec fn instant_model_at(toks: Seq<Token>, j: int) -> DateTimeModel {
    DateTimeModel {
        year: num_val(toks, j + 4),
        month: num_val(toks, j + 6),
        day: num_val(toks, j + 8),
        hour: num_val(toks, j + 10),
        minute: num_val(toks, j + 12),
        second: num_val(toks, j + 14),
    }
}

/// A bound of a time range at `j` (`None` or `UtcDateTime::new(...)`, which
/// is `None` too for parts that name no valid instant), and the index after it.
pub open spec fn bound_at(toks: Seq<Token>, j: int) -> Option<(Option<DateTimeModel>, int)> {
    if text_at(toks, j, "None"@) {
        Some((None, j + 1))
    } else if instant_call_at(toks, j) {
        let m = instant_model_at(toks, j);
        Some((if valid_instant(m) { Some(m) } else { None }, j + 16))
    } else {
        None
    }
}

/// The bounds that a `TimeRange { start: B, end: B }` literal or a
/// `TimeRange::default()` call gives.
pub open spec fn time_value(toks: Seq<Token>, v: Value) -> Option<(Option<DateTimeModel>, Option<DateTimeModel>)> {
    match v {
        Value::Struct(a, c) => if text_at(toks, a as int, "TimeRange"@) && text_at(toks, a + 2, "start"@)
            && tok_at(toks, a + 3, TokenKind::Punct, ':') {
            match bound_at(toks, a + 4) {
                Some((start, j)) => if tok_at(toks, j, TokenKind::Punct, ',') && text_at(toks, j + 1, "end"@)
                    && tok_at(toks, j + 2, TokenKind::Punct, ':') {
                    match bound_at(toks, j + 3) {
                        Some((end, q)) => if q == c || (q + 1 == c && tok_at(toks, q, TokenKind::Punct, ',')) {
                            Some((start, end))
                        } else {
                            None
                        },
                        None => None,
                    }
                } else {
                    None
                },
                None => None,
            }
        } else {
            None
        },
        Value::Call(_, p, c) => if call_of(toks, v, "TimeRange"@, "default"@) && c == p + 1 {
            Some((None, None))
        } else {
            None
        },
        _ => None,
    }
}

/// `n` is what the value of step `k` becomes once the calls of the steps
/// after it are made: the value, then at most one call on it whose argument
/// is built from the next step.
pub open spec fn builds(toks: Seq<Token>, steps: Seq<Step>, k: int, n: Node) -> bool
    decreases steps.len() - k,
{
    if k < 0 || k >= steps.len() {
        false
    } else {
        let v = steps[k].value;
        let last = k + 1 >= steps.len();
        let m = if last {
            Seq::<char>::empty()
        } else {
            field_text(toks, steps[k + 1].field)
        };
        match n {
            Node::Comp(c) => new_arg(toks, v, "CompFilter"@) == Some(c.name@) && if last {
                c.is_not_defined is None && c.children@.len() == 0
            } else if m == "append"@ {
                &&& c.is_not_defined is None
                &&& c.children@.len() == 1
                &&& c.children@[0] is CompFilter
                &&& builds(toks, steps, k + 1, Node::Comp(c.children@[0]->CompFilter_0))
            } else if m == "prop_filter"@ {
                &&& c.is_not_defined is None
                &&& c.children@.len() == 1
                &&& c.children@[0] is PropFilter
                &&& builds(toks, steps, k + 1, Node::Prop(c.children@[0]->PropFilter_0))
            } else if m == "is_not_defined"@ {
                c.children@.len() == 0 && builds(toks, steps, k + 1, Node::Bool(c.is_not_defined is Some))
            } else if m == "time_range"@ {
                &&& c.is_not_defined is None
                &&& c.children@.len() == 1
                &&& c.children@[0] is TimeRange
                &&& builds(toks, steps, k + 1, Node::Time(c.children@[0]->TimeRange_0))
            } else {
                false
            },
            Node::Prop(p) => new_arg(toks, v, "PropFilter"@) == Some(p.name@) && if last {
                p.is_not_defined is None && p.children@.len() == 0
            } else if m == "append"@ {
                &&& p.is_not_defined is None
                &&& p.children@.len() == 1
                &&& p.children@[0] is ParamFilter
                &&& builds(toks, steps, k + 1, Node::Param(p.children@[0]->ParamFilter_0))
            } else if m == "text_match"@ {
                &&& p.is_not_defined is None
                &&& p.children@.len() == 1
                &&& p.children@[0] is TextMatch
                &&& builds(toks, steps, k + 1, Node::Text(p.children@[0]->TextMatch_0))
            } else if m == "is_not_defined"@ {
                p.children@.len() == 0 && builds(toks, steps, k + 1, Node::Bool(p.is_not_defined is Some))
            } else if m == "time_range"@ {
                &&& p.is_not_defined is None
                &&& p.children@.len() == 1
                &&& p.children@[0] is TimeRange
                &&& builds(toks, steps, k + 1, Node::Time(p.children@[0]->TimeRange_0))
            } else {
                false
            },
            Node::Param(p) => new_arg(toks, v, "ParamFilter"@) == Some(p.name@) && if last {
                p.params@.len() == 0
            } else if m == "append"@ {
                &&& p.params@.len() == 1
                &&& builds(toks, steps, k + 1, Node::Text(p.params@[0]->TextMatch_0))
            } else {
                false
            },
            Node::Text(t) => text_base(toks, v) is Some && if last {
                t.text@ == text_base(toks, v)->0 && t.collation is None && !t.negate_condition
            } else if m == "collation"@ {
                &&& t.text@ == text_base(toks, v)->0
                &&& t.collation is Some
                &&& !t.negate_condition
                &&& builds(toks, steps, k + 1, Node::Str(t.collation->0))
            } else if m == "negate_condition"@ {
                &&& t.text@ == text_base(toks, v)->0
                &&& t.collation is None
                &&& builds(toks, steps, k + 1, Node::Bool(t.negate_condition))
            } else if m == "text"@ {
                &&& t.collation is None
                &&& !t.negate_condition
                &&& builds(toks, steps, k + 1, Node::Str(t.text))
            } else {
                false
            },
            Node::Str(s) => last && lit_str(toks, v) == Some(s@),
            Node::Bool(b) => last && lit_bool(toks, v) == Some(b),
            Node::Time(t) => last && time_value(toks, v) == Some((opt_view(t.start), opt_view(t.end))),
        }
    }
}

/// `f` is the filter that the steps describe: `Filter::new()` with the
/// component filter of the first step appended.
pub open spec fn filter_built(toks: Seq<Token>, steps: Seq<Step>, f: Filter) -> bool {
    &&& steps.len() >= 1
    &&& field_text(toks, steps[0].field) == "append"@
    &&& f.comp_filter is Some
    &&& builds(toks, steps, 0, Node::Comp(f.comp_filter->0))
}

pub open spec fn node_kind(n: Node) -> int {
    match n {
        Node::Comp(_) => 0,
        Node::Prop(_) => 1,
        Node::Param(_) => 2,
        Node::Text(_) => 3,
        Node::Str(_) => 4,
        Node::Bool(_) => 5,
        Node::Time(_) => 6,
    }
}

/// The kind of node that a value starts.
pub open spec fn value_kind(toks: Seq<Token>, v: Value) -> int {
    if new_arg(toks, v, "CompFilter"@) is Some {
        0
    } else if new_arg(toks, v, "PropFilter"@) is Some {
        1
    } else if new_arg(toks, v, "ParamFilter"@) is Some {
        2
    } else if text_base(toks, v) is Some {
        3
    } else if lit_str(toks, v) is Some {
        4
    } else if lit_bool(toks, v) is Some {
        5
    } else if time_value(toks, v) is Some {
        6
    } else {
        7
    }
}

proof fn lemma_names_differ()
    ensures
        "CompFilter"@ != "PropFilter"@,
        "CompFilter"@ != "ParamFilter"@,
        "CompFilter"@ != "TextMatch"@,
        "PropFilter"@ != "ParamFilter"@,
        "PropFilter"@ != "TextMatch"@,
        "ParamFilter"@ != "TextMatch"@,
        "TimeRange"@ != "CompFilter"@,
        "TimeRange"@ != "PropFilter"@,
        "TimeRange"@ != "ParamFilter"@,
        "TimeRange"@ != "TextMatch"@,
        "true"@.len() == 4 && "true"@[0] == 't',
        "false"@.len() == 5 && "false"@[0] == 'f',
{
    reveal_strlit("CompFilter");
    reveal_strlit("PropFilter");
    reveal_strlit("ParamFilter");
    reveal_strlit("TextMatch");
    reveal_strlit("TimeRange");
    reveal_strlit("true");
    reveal_strlit("false");
    assert("CompFilter"@[0] != "PropFilter"@[0]);
    assert("CompFilter"@[1] != "ParamFilter"@[1]);
    assert("CompFilter"@[0] != "TextMatch"@[0]);
    assert("PropFilter"@[1] != "ParamFilter"@[1]);
    assert("PropFilter"@[0] != "TextMatch"@[0]);
    assert("ParamFilter"@[0] != "TextMatch"@[0]);
    assert("TimeRange"@[0] != "CompFilter"@[0]);
    assert("TimeRange"@[0] != "PropFilter"@[0]);
    assert("TimeRange"@[0] != "ParamFilter"@[0]);
    assert("TimeRange"@[1] != "TextMatch"@[1]);
}

/// The kind of what a step builds is the kind of its value.
proof fn lemma_builds_kind(toks: Seq<Token>, steps: Seq<Step>, k: int)
    ensures
        forall|n: Node| #[trigger] builds(toks, steps, k, n) ==> node_kind(n) == value_kind(toks, steps[k].value),
{
    lemma_names_differ();
}

fn str_eq(a: &str, b: &str) -> (r: bool)
    ensures
        r == (a@ == b@),
{
    let n = a.unicode_len();
    if n != b.unicode_len() {
        return false;
    }
    let mut i: usize = 0;
    while i < n
        invariant
            n == a@.len(),
            n == b@.len(),
            i <= n,
            forall|j: int| 0 <= j < i ==> a@[j] == b@[j],
        decreases n - i,
    {
        if a.get_char(i) != b.get_char(i) {
            return false;
        }
        i = i + 1;
    }
    proof {
        assert(a@ =~= b@);
    }
    true
}

fn field_is(toks: &Vec<Token>, f: Field, s: &str) -> (r: bool)
    ensures
        r == (field_text(toks@, f) == s@),
{
    match f {
        Field::Append => str_eq("append", s),
        Field::Named(i) => if i < toks.len() {
            str_eq(toks[i].text.as_str(), s)
        } else {
            proof {
                assert(s@.len() == 0 ==> s@ =~= Seq::<char>::empty());
            }
            s.unicode_len() == 0
        },
    }
}

fn is_str_lit_exec(t: &Token) -> (r: bool)
    ensures
        r == is_str_lit(*t),
{
    let text = t.text.as_str();
    matches!(t.kind, TokenKind::Literal) && text.unicode_len() >= 2 && text.get_char(0) == '\x22'
}

fn lit_content_exec(t: &Token) -> (r: String)
    requires
        is_str_lit(*t),
    ensures
        r@ == lit_content(*t),
{
    let text = t.text.as_str();
    let n = text.unicode_len();
    text.substring_char(1, n - 1).to_owned()
}

fn call_of_exec(toks: &Vec<Token>, v: Value, ty: &str, method: &str) -> (r: bool)
    ensures
        r == call_of(toks@, v, ty@, method@),
{
    match v {
        Value::Call(a, p, c) => a <= p && p - a == 3 && p < toks.len() && str_eq(
            toks[a].text.as_str(),
            ty,
        ) && path_sep(&toks[a + 1]) && str_eq(toks[a + 2].text.as_str(), method),
        _ => false,
    }
}

fn str_arg_exec(toks: &Vec<Token>, v: Value) -> (r: Option<String>)
    ensures
        r is Some == str_arg(toks@, v) is Some,
        r is Some ==> r->0@ == str_arg(toks@, v)->0,
{
    match v {
        Value::Call(a, p, c) => if p < toks.len() && p + 1 < toks.len() && c == p + 2 && is_str_lit_exec(
            &toks[p + 1],
        ) {
            Some(lit_content_exec(&toks[p + 1]))
        } else {
            None
        },
        _ => None,
    }
}

fn new_arg_exec(toks: &Vec<Token>, v: Value, ty: &str) -> (r: Option<String>)
    ensures
        r is Some == new_arg(toks@, v, ty@) is Some,
        r is Some ==> r->0@ == new_arg(toks@, v, ty@)->0,
{
    if call_of_exec(toks, v, ty, "new") {
        str_arg_exec(toks, v)
    } else {
        None
    }
}

fn text_base_exec(toks: &Vec<Token>, v: Value) -> (r: Option<String>)
    ensures
        r is Some == text_base(toks@, v) is Some,
        r is Some ==> r->0@ == text_base(toks@, v)->0,
{
    if call_of_exec(toks, v, "TextMatch", "new") {
        str_arg_exec(toks, v)
    } else if call_of_exec(toks, v, "TextMatch", "default") && match v {
        Value::Call(_, p, c) => p < usize::MAX && c == p + 1,
        _ => false,
    } {
        Some(String::new())
    } else {
        None
    }
}

fn lit_str_exec(toks: &Vec<Token>, v: Value) -> (r: Option<String>)
    ensures
        r is Some == lit_str(toks@, v) is Some,
        r is Some ==> r->0@ == lit_str(toks@, v)->0,
{
    match v {
        Value::Lit(i) => if i < toks.len() && is_str_lit_exec(&toks[i]) {
            Some(lit_content_exec(&toks[i]))
        } else {
            None
        },
        _ => None,
    }
}

fn lit_bool_exec(toks: &Vec<Token>, v: Value) -> (r: Option<bool>)
    ensures
        r == lit_bool(toks@, v),
{
    match v {
        Value::Lit(i) => if i < toks.len() && str_eq(toks[i].text.as_str(), "true") {
            Some(true)
        } else if i < toks.len() && str_eq(toks[i].text.as_str(), "false") {
            Some(false)
        } else {
            None
        },
        _ => None,
    }
}

proof fn no_build_without_child(toks: Seq<Token>, steps: Seq<Step>, k: int, n: Node)
    requires
        0 <= k,
        k + 1 < steps.len(),
        forall|x: Node| !#[trigger] builds(toks, steps, k + 1, x),
    ensures
        !builds(toks, steps, k, n),
{
    match n {
        Node::Comp(c) => {
            if c.children@.len() == 1 {
                assert(!builds(toks, steps, k + 1, Node::Comp(c.children@[0]->CompFilter_0)));
                assert(!builds(toks, steps, k + 1, Node::Prop(c.children@[0]->PropFilter_0)));
            }
            assert(!builds(toks, steps, k + 1, Node::Bool(c.is_not_defined is Some)));
            if c.children@.len() == 1 {
                assert(!builds(toks, steps, k + 1, Node::Time(c.children@[0]->TimeRange_0)));
            }
        },
        Node::Prop(p) => {
            if p.children@.len() == 1 {
                assert(!builds(toks, steps, k + 1, Node::Param(p.children@[0]->ParamFilter_0)));
                assert(!builds(toks, steps, k + 1, Node::Text(p.children@[0]->TextMatch_0)));
            }
            assert(!builds(toks, steps, k + 1, Node::Bool(p.is_not_defined is Some)));
            if p.children@.len() == 1 {
                assert(!builds(toks, steps, k + 1, Node::Time(p.children@[0]->TimeRange_0)));
            }
        },
        Node::Param(p) => {
            if p.params@.len() == 1 {
                assert(!builds(toks, steps, k + 1, Node::Text(p.params@[0]->TextMatch_0)));
            }
        },
        Node::Text(t) => {
            if t.collation is Some {
                assert(!builds(toks, steps, k + 1, Node::Str(t.collation->0)));
            }
            assert(!builds(toks, steps, k + 1, Node::Bool(t.negate_condition)));
            assert(!builds(toks, steps, k + 1, Node::Str(t.text)));
        },
        _ => {},
    }
}

/// With the value's kind and the kind of what the next step builds fixed,
/// a step builds something only through the call that takes that kind.
proof fn child_kind_decides(toks: Seq<Token>, steps: Seq<Step>, k: int, n: Node, child: Node)
    requires
        0 <= k,
        k + 1 < steps.len(),
        builds(toks, steps, k + 1, child),
        forall|x: Node| #[trigger] builds(toks, steps, k + 1, x) ==> node_kind(x) == value_kind(toks, steps[k + 1].value),
        builds(toks, steps, k, n),
    ensures
        node_kind(n) == value_kind(toks, steps[k].value),
        ({
            let m = field_text(toks, steps[k + 1].field);
            match n {
                Node::Comp(_) => (m == "append"@ && child is Comp) || (m != "append"@ && m == "prop_filter"@ && child is Prop) || (m != "append"@ && m != "prop_filter"@ && m == "is_not_defined"@ && child is Bool) || (m != "append"@ && m != "prop_filter"@ && m != "is_not_defined"@ && m == "time_range"@ && child is Time),
                Node::Prop(_) => (m == "append"@ && child is Param) || (m != "append"@ && m == "text_match"@ && child is Text) || (m != "append"@ && m != "text_match"@ && m == "is_not_defined"@ && child is Bool) || (m != "append"@ && m != "text_match"@ && m != "is_not_defined"@ && m == "time_range"@ && child is Time),
                Node::Param(_) => m == "append"@ && child is Text,
                Node::Text(_) => (m == "collation"@ && child is Str) || (m != "collation"@ && m == "negate_condition"@ && child is Bool) || (m != "collation"@ && m != "negate_condition"@ && m == "text"@ && child is Str),
                _ => false,
            }
        }),
{
    lemma_builds_kind(toks, steps, k);
    let m = field_text(toks, steps[k + 1].field);
    assert(node_kind(child) == value_kind(toks, steps[k + 1].value));
    match n {
        Node::Comp(c) => {
            if m == "append"@ {
                let x = Node::Comp(c.children@[0]->CompFilter_0);
                assert(builds(toks, steps, k + 1, x));
                assert(node_kind(x) == value_kind(toks, steps[k + 1].value));
            } else if m == "prop_filter"@ {
                let x = Node::Prop(c.children@[0]->PropFilter_0);
                assert(builds(toks, steps, k + 1, x));
            } else if m == "is_not_defined"@ {
                let x = Node::Bool(c.is_not_defined is Some);
                assert(builds(toks, steps, k + 1, x));
            } else {
                let x = Node::Time(c.children@[0]->TimeRange_0);
                assert(builds(toks, steps, k + 1, x));
            }
        },
        Node::Prop(p) => {
            if m == "append"@ {
                let x = Node::Param(p.children@[0]->ParamFilter_0);
                assert(builds(toks, steps, k + 1, x));
            } else if m == "text_match"@ {
                let x = Node::Text(p.children@[0]->TextMatch_0);
                assert(builds(toks, steps, k + 1, x));
            } else if m == "is_not_defined"@ {
                let x = Node::Bool(p.is_not_defined is Some);
                assert(builds(toks, steps, k + 1, x));
            } else {
                let x = Node::Time(p.children@[0]->TimeRange_0);
                assert(builds(toks, steps, k + 1, x));
            }
        },
        Node::Param(p) => {
            let x = Node::Text(p.params@[0]->TextMatch_0);
            assert(builds(toks, steps, k + 1, x));
        },
        Node::Text(t) => {
            if m == "collation"@ {
                let x = Node::Str(t.collation->0);
                assert(builds(toks, steps, k + 1, x));
            } else if m == "negate_condition"@ {
                let x = Node::Bool(t.negate_condition);
                assert(builds(toks, steps, k + 1, x));
            } else {
                let x = Node::Str(t.text);
                assert(builds(toks, steps, k + 1, x));
            }
        },
        _ => {},
    }
}

pub open spec fn pow10(i: nat) -> int
    decreases i,
{
    if i == 0 {
        1
    } else {
        10 * pow10((i - 1) as nat)
    }
}

proof fn lemma_pow10_le(i: nat)
    requires
        i <= 9,
    ensures
        1 <= pow10(i) <= 1_000_000_000,
    decreases 9 - i,
{
    if i < 9 {
        lemma_pow10_le(i + 1);
    } else {
        reveal_with_fuel(pow10, 10);
    }
}

fn digit_value(c: char) -> (r: u32)
    ensures
        r as int == digit_of(c),
        r < 10,
{
    if c == '1' { 1 } else if c == '2' { 2 } else if c == '3' { 3 } else if c == '4' { 4 }
    else if c == '5' { 5 } else if c == '6' { 6 } else if c == '7' { 7 } else if c == '8' { 8 }
    else if c == '9' { 9 } else { 0 }
}

fn num_exec(toks: &Vec<Token>, j: usize) -> (r: Option<u32>)
    ensures
        r is Some == num_at(toks@, j as int),
        r is Some ==> r->0 as int == num_val(toks@, j as int) && r->0 < 1_000_000_000,
{
    if j >= toks.len() || !matches!(toks[j].kind, TokenKind::Literal) {
        return None;
    }
    let text = toks[j].text.as_str();
    let n = text.unicode_len();
    if n < 1 || n > 9 {
        return None;
    }
    let mut acc: u32 = 0;
    let mut i: usize = 0;
    proof {
        assert(text@.subrange(0, 0) =~= Seq::<char>::empty());
    }
    while i < n
        invariant
            text@ == toks@[j as int].text@,
            n == text@.len(),
            1 <= n <= 9,
            i <= n,
            forall|k: int| 0 <= k < i ==> is_digit(#[trigger] text@[k]),
            acc as int == decimal_value(text@.subrange(0, i as int)),
            acc < pow10(i as nat),
        decreases n - i,
    {
        let c = text.get_char(i);
        if !('0' <= c && c <= '9') {
            return None;
        }
        proof {
            lemma_pow10_le((i + 1) as nat);
            assert(text@.subrange(0, i + 1).drop_last() =~= text@.subrange(0, i as int));
        }
        acc = acc * 10 + digit_value(c);
        i = i + 1;
    }
    proof {
        assert(text@.subrange(0, n as int) =~= text@);
        lemma_pow10_le(n as nat);
    }
    Some(acc)
}

/// The bound of a time range at `j`, and the index after it.
fn bound_at_exec(toks: &Vec<Token>, j: usize) -> (r: Option<(Option<UtcDateTime>, usize)>)
    ensures
        match bound_at(toks@, j as int) {
            Some((b, q)) => match r {
                Some((rb, rq)) => opt_view(rb) == b && rq as int == q && q <= toks@.len(),
                None => false,
            },
            None => r is None,
        },
{
    let len = toks.len();
    if j < len && str_eq(toks[j].text.as_str(), "None") {
        return Some((None, j + 1));
    }
    if j >= len || len - j < 16 {
        return None;
    }
    let head = str_eq(toks[j].text.as_str(), "UtcDateTime") && path_sep(&toks[j + 1]) && str_eq(
        toks[j + 2].text.as_str(),
        "new",
    ) && tok_is(&toks[j + 3], TokenKind::Open, '\x28') && tok_is(&toks[j + 15], TokenKind::Close, '\x29');
    let commas = tok_is(&toks[j + 5], TokenKind::Punct, ',') && tok_is(&toks[j + 7], TokenKind::Punct, ',')
        && tok_is(&toks[j + 9], TokenKind::Punct, ',') && tok_is(&toks[j + 11], TokenKind::Punct, ',')
        && tok_is(&toks[j + 13], TokenKind::Punct, ',');
    let y = num_exec(toks, j + 4);
    let mo = num_exec(toks, j + 6);
    let d = num_exec(toks, j + 8);
    let h = num_exec(toks, j + 10);
    let mi = num_exec(toks, j + 12);
    let se = num_exec(toks, j + 14);
    let ghost jj = j as int;
    match (y, mo, d, h, mi, se) {
        (Some(y), Some(mo), Some(d), Some(h), Some(mi), Some(se)) => {
            if !(head && commas) {
                proof {
                    if instant_call_at(toks@, jj) {
                        assert(tok_at(toks@, jj + 5 + 2 * 0, TokenKind::Punct, ','));
                        assert(tok_at(toks@, jj + 5 + 2 * 1, TokenKind::Punct, ','));
                        assert(tok_at(toks@, jj + 5 + 2 * 2, TokenKind::Punct, ','));
                        assert(tok_at(toks@, jj + 5 + 2 * 3, TokenKind::Punct, ','));
                        assert(tok_at(toks@, jj + 5 + 2 * 4, TokenKind::Punct, ','));
                    }
                }
                return None;
            }
            proof {
                assert forall|i: int| 0 <= i < 6 implies #[trigger] num_at(toks@, jj + 4 + 2 * i) by {
                    if i == 0 {} else if i == 1 {} else if i == 2 {} else if i == 3 {} else if i == 4 {} else {}
                }
                assert forall|i: int| 0 <= i < 5 implies #[trigger] tok_at(toks@, jj + 5 + 2 * i, TokenKind::Punct, ',') by {
                    if i == 0 {} else if i == 1 {} else if i == 2 {} else if i == 3 {} else {}
                }
                assert(instant_call_at(toks@, jj));
                assert(!text_at(toks@, jj, "None"@)) by {
                    reveal_strlit("None");
                    reveal_strlit("UtcDateTime");
                    assert("None"@.len() != "UtcDateTime"@.len());
                }
            }
            let dt = UtcDateTime::new(y as i32, mo, d, h, mi, se);
            Some((dt, j + 16))
        },
        _ => {
            proof {
                if instant_call_at(toks@, jj) {
                    assert(num_at(toks@, jj + 4 + 2 * 0));
                    assert(num_at(toks@, jj + 4 + 2 * 1));
                    assert(num_at(toks@, jj + 4 + 2 * 2));
                    assert(num_at(toks@, jj + 4 + 2 * 3));
                    assert(num_at(toks@, jj + 4 + 2 * 4));
                    assert(num_at(toks@, jj + 4 + 2 * 5));
                }
            }
            None
        },
    }
}

/// The time range that a value gives.
fn time_value_exec(toks: &Vec<Token>, v: Value) -> (r: Option<TimeRange>)
    ensures
        match time_value(toks@, v) {
            Some((start, end)) => r is Some && opt_view(r->0.start) == start && opt_view(r->0.end) == end,
            None => r is None,
        },
{
    let len = toks.len();
    match v {
        Value::Struct(a, c) => {
            if !(a < len && len - a > 3 && str_eq(toks[a].text.as_str(), "TimeRange") && str_eq(
                toks[a + 2].text.as_str(),
                "start",
            ) && tok_is(&toks[a + 3], TokenKind::Punct, ':')) {
                return None;
            }
            let (start, j) = match bound_at_exec(toks, a + 4) {
                Some(p) => p,
                None => {
                    return None;
                },
            };
            if !(j < len && len - j > 2 && tok_is(&toks[j], TokenKind::Punct, ',') && str_eq(
                toks[j + 1].text.as_str(),
                "end",
            ) && tok_is(&toks[j + 2], TokenKind::Punct, ':')) {
                return None;
            }
            let (end, q) = match bound_at_exec(toks, j + 3) {
                Some(p) => p,
                None => {
                    return None;
                },
            };
            if q == c || (q < len && q < usize::MAX && q + 1 == c && tok_is(&toks[q], TokenKind::Punct, ',')) {
                Some(TimeRange::new(start, end))
            } else {
                None
            }
        },
        Value::Call(_, p, c) => {
            if call_of_exec(toks, v, "TimeRange", "default") && p < usize::MAX && c == p + 1 {
                Some(TimeRange::new(None, None))
            } else {
                None
            }
        },
        _ => None,
    }
}

/// Builds what step `k` and the steps after it describe.
fn build_at(toks: &Vec<Token>, steps: &Vec<Step>, k: usize) -> (r: Result<Node, DslError>)
    requires
        k < steps@.len(),
    ensures
        match r {
            Ok(n) => builds(toks@, steps@, k as int, n),
            Err(e) => e.kind == ErrorKind::Unsupported && forall|n: Node|
                !#[trigger] builds(toks@, steps@, k as int, n),
        },
    decreases steps@.len() - k,
{
    proof {
        lemma_names_differ();
    }
    let v = steps[k].value;
    let unsupported = DslError { kind: ErrorKind::Unsupported, pos: k };
    if k >= steps.len() - 1 {
        if let Some(name) = new_arg_exec(toks, v, "CompFilter") {
            return Ok(Node::Comp(CompFilter::new(name.as_str())));
        }
        if let Some(name) = new_arg_exec(toks, v, "PropFilter") {
            return Ok(Node::Prop(PropFilter::new(name.as_str())));
        }
        if let Some(name) = new_arg_exec(toks, v, "ParamFilter") {
            return Ok(Node::Param(ParamFilter::new(name.as_str())));
        }
        if let Some(text) = text_base_exec(toks, v) {
            return Ok(Node::Text(TextMatch::new(text.as_str())));
        }
        if let Some(text) = lit_str_exec(toks, v) {
            return Ok(Node::Str(text));
        }
        if let Some(b) = lit_bool_exec(toks, v) {
            return Ok(Node::Bool(b));
        }
        if let Some(t) = time_value_exec(toks, v) {
            return Ok(Node::Time(t));
        }
        return Err(unsupported);
    }
    let child = match build_at(toks, steps, k + 1) {
        Ok(n) => n,
        Err(e) => {
            proof {
                assert forall|n: Node| !#[trigger] builds(toks@, steps@, k as int, n) by {
                    no_build_without_child(toks@, steps@, k as int, n);
                }
            }
            return Err(e);
        },
    };
    proof {
        lemma_builds_kind(toks@, steps@, k + 1);
    }
    let f = steps[k + 1].field;
    if let Some(name) = new_arg_exec(toks, v, "CompFilter") {
        let c = CompFilter::new(name.as_str());
        if field_is(toks, f, "append") {
            if let Node::Comp(x) = child {
                return Ok(Node::Comp(c.append(x)));
            }
        } else if field_is(toks, f, "prop_filter") {
            if let Node::Prop(x) = child {
                return Ok(Node::Comp(c.prop_filter(x)));
            }
        } else if field_is(toks, f, "is_not_defined") {
            if let Node::Bool(b) = child {
                return Ok(Node::Comp(c.is_not_defined(b)));
            }
        } else if field_is(toks, f, "time_range") {
            if let Node::Time(x) = child {
                return Ok(Node::Comp(c.time_range(x)));
            }
        }
        proof {
            assert forall|n: Node| !#[trigger] builds(toks@, steps@, k as int, n) by {
                if builds(toks@, steps@, k as int, n) {
                    child_kind_decides(toks@, steps@, k as int, n, child);
                }
            }
        }
        return Err(unsupported);
    }
    if let Some(name) = new_arg_exec(toks, v, "PropFilter") {
        let p = PropFilter::new(name.as_str());
        if field_is(toks, f, "append") {
            if let Node::Param(x) = child {
                return Ok(Node::Prop(p.append(x)));
            }
        } else if field_is(toks, f, "text_match") {
            if let Node::Text(x) = child {
                return Ok(Node::Prop(p.text_match(x)));
            }
        } else if field_is(toks, f, "is_not_defined") {
            if let Node::Bool(b) = child {
                return Ok(Node::Prop(p.is_not_defined(b)));
            }
        } else if field_is(toks, f, "time_range") {
            if let Node::Time(x) = child {
                return Ok(Node::Prop(p.time_range(x)));
            }
        }
        proof {
            assert forall|n: Node| !#[trigger] builds(toks@, steps@, k as int, n) by {
                if builds(toks@, steps@, k as int, n) {
                    child_kind_decides(toks@, steps@, k as int, n, child);
                }
            }
        }
        return Err(unsupported);
    }
    if let Some(name) = new_arg_exec(toks, v, "ParamFilter") {
        let p = ParamFilter::new(name.as_str());
        if field_is(toks, f, "append") {
            if let Node::Text(x) = child {
                return Ok(Node::Param(p.append(x)));
            }
        }
        proof {
            assert forall|n: Node| !#[trigger] builds(toks@, steps@, k as int, n) by {
                if builds(toks@, steps@, k as int, n) {
                    child_kind_decides(toks@, steps@, k as int, n, child);
                }
            }
        }
        return Err(unsupported);
    }
    if let Some(text) = text_base_exec(toks, v) {
        let t = TextMatch::new(text.as_str());
        if field_is(toks, f, "collation") {
            if let Node::Str(x) = child {
                let r = t.collation(x.as_str());
                proof {
                    let c = r.collation->0;
                    assert(c@ == x@);
                    assert(builds(toks@, steps@, k + 1, Node::Str(x)));
                    assert(builds(toks@, steps@, k + 1, Node::Str(c)));
                }
                return Ok(Node::Text(r));
            }
        } else if field_is(toks, f, "negate_condition") {
            if let Node::Bool(b) = child {
                return Ok(Node::Text(t.negate_condition(b)));
            }
        } else if field_is(toks, f, "text") {
            if let Node::Str(x) = child {
                let r = t.text(x.as_str());
                proof {
                    assert(builds(toks@, steps@, k + 1, Node::Str(x)));
                    assert(builds(toks@, steps@, k + 1, Node::Str(r.text)));
                }
                return Ok(Node::Text(r));
            }
        }
        proof {
            assert forall|n: Node| !#[trigger] builds(toks@, steps@, k as int, n) by {
                if builds(toks@, steps@, k as int, n) {
                    child_kind_decides(toks@, steps@, k as int, n, child);
                }
            }
        }
        return Err(unsupported);
    }
    Err(unsupported)
}

/// The token where the value of a step starts.
fn value_start(v: Value) -> (r: usize) {
    match v {
        Value::Lit(i) => i,
        Value::Path(a, _) => a,
        Value::Call(a, _, _) => a,
        Value::Struct(a, _) => a,
    }
}

/// Builds the filter that the notation in `src` describes. A syntax error
/// is at a character offset; so is an `Unsupported` one, at the value that
/// could not be built.
pub fn build(src: &str) -> (r: Result<Filter, DslError>)
    ensures
        match r {
            Ok(f) => exists|toks: Seq<Token>, steps: Seq<Step>|
                parses_to(src@, toks, steps) && filter_built(toks, steps, f),
            Err(e) => syntax_error(src@, e) || (e.kind == ErrorKind::Unsupported && exists|
                toks: Seq<Token>,
                steps: Seq<Step>,
            | parses_to(src@, toks, steps) && forall|f: Filter| !#[trigger] filter_built(toks, steps, f)),
        },
{
    let (toks, steps) = match parse_notation(src) {
        Ok(p) => p,
        Err(e) => {
            return Err(e);
        },
    };
    let ghost t = toks@;
    let ghost st = steps@;
    if steps.len() == 0 || !field_is(&toks, steps[0].field, "append") {
        proof {
            assert(parses_to(src@, t, st));
            assert forall|f: Filter| !#[trigger] filter_built(t, st, f) by {}
        }
        return Err(DslError { kind: ErrorKind::Unsupported, pos: 0 });
    }
    let at = value_start(steps[0].value);
    let pos = if at < toks.len() {
        toks[at].start
    } else {
        src.unicode_len()
    };
    match build_at(&toks, &steps, 0) {
        Ok(Node::Comp(c)) => {
            let f = Filter::new().append(c);
            proof {
                assert(parses_to(src@, t, st));
                assert(filter_built(t, st, f));
            }
            Ok(f)
        },
        Ok(other) => {
            proof {
                lemma_builds_kind(t, st, 0);
                assert(parses_to(src@, t, st));
                assert forall|f: Filter| !#[trigger] filter_built(t, st, f) by {
                    if filter_built(t, st, f) {
                        assert(builds(t, st, 0, Node::Comp(f.comp_filter->0)));
                    }
                }
            }
            Err(DslError { kind: ErrorKind::Unsupported, pos })
        },
        Err(_) => {
            proof {
                assert(parses_to(src@, t, st));
                assert forall|f: Filter| !#[trigger] filter_built(t, st, f) by {
                    if filter_built(t, st, f) {
                        assert(builds(t, st, 0, Node::Comp(f.comp_filter->0)));
                    }
                }
            }
            Err(DslError { kind: ErrorKind::Unsupported, pos })
        },
    }
}

/// A notation of one `CompFilter::new("N")` builds the filter that renders
/// as the hand-built `Filter::new().append(CompFilter::new("N"))` does.
pub proof fn lemma_single_component_notation(toks: Seq<Token>, steps: Seq<Step>, f: Filter)
    requires
        filter_built(toks, steps, f),
        steps.len() == 1,
    ensures
        filter_xml(f) == "<c:filter>"@ + ("<c:comp-filter name=\""@ + new_arg(
            toks,
            steps[0].value,
            "CompFilter"@,
        )->0 + "\" />"@) + "</c:filter>"@,
{
    let c = f.comp_filter->0;
    assert(builds(toks, steps, 0, Node::Comp(c)));
}

/// A notation of a component filter with one component filter in its block
/// builds a filter whose inner component is nested one element deep in the
/// outer one.
pub proof fn lemma_nested_component_notation(toks: Seq<Token>, steps: Seq<Step>, f: Filter)
    requires
        filter_built(toks, steps, f),
        steps.len() == 2,
        field_text(toks, steps[1].field) == "append"@,
    ensures
        filter_xml(f) == "<c:filter>"@ + ("<c:comp-filter name=\""@ + new_arg(
            toks,
            steps[0].value,
            "CompFilter"@,
        )->0 + "\">"@ + ("<c:comp-filter name=\""@ + new_arg(toks, steps[1].value, "CompFilter"@)->0
            + "\" />"@) + "</c:comp-filter>"@) + "</c:filter>"@,
{
    let c = f.comp_filter->0;
    assert(builds(toks, steps, 0, Node::Comp(c)));
    let inner = c.children@[0]->CompFilter_0;
    assert(builds(toks, steps, 1, Node::Comp(inner)));
    let k = c.children@[0];
    lemma_comp_children_in_order(Seq::<CompChild>::empty(), k);
    assert(c.children@ =~= Seq::<CompChild>::empty().push(k));
    assert(comp_children_xml(Seq::<CompChild>::empty()) == Seq::<char>::empty());
    assert(comp_children_xml(c.children@) =~= comp_child_xml(k));
    assert(comp_filter_xml(c) =~= "<c:comp-filter name=\""@ + c.name@ + "\">"@ + comp_filter_xml(
        inner,
    ) + "</c:comp-filter>"@);
}

} // verus!
