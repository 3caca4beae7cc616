//! The filter tree of a calendar query (RFC 4791, section 9.7) and its XML.
//!
//! Names, text and collations are written into the XML as they are: the caller
//! supplies XML-safe content.
use vstd::prelude::*;
use crate::time::{TimeRange, time_range_xml};

verus! {

/// `<c:is-not-defined />`
pub open spec fn is_not_defined_xml() -> Seq<char> {
    "<c:is-not-defined />"@
}

/// The text of an optional `is-not-defined` marker.
pub open spec fn marker_xml(m: Option<IsNotDefined>) -> Seq<char> {
    match m {
        Some(_) => is_not_defined_xml(),
        None => Seq::empty(),
    }
}

/// `<c:text-match{ collation="C"}{ negate-condition="yes"}><![CDATA[text]]></c:text-match>`
pub open spec fn text_match_xml(m: TextMatch) -> Seq<char> {
    "<c:text-match"@ + match m.collation {
        Some(c) => " collation=\""@ + c@ + "\""@,
        None => Seq::empty(),
    } + if m.negate_condition {
        " negate-condition=\"yes\""@
    } else {
        Seq::empty()
    } + "><![CDATA["@ + m.text@ + "]]></c:text-match>"@
}

pub open spec fn param_node_xml(p: ParamNode) -> Seq<char> {
    match p {
        ParamNode::TextMatch(m) => text_match_xml(m),
    }
}

/// The parameters' XML, concatenated in order.
pub open spec fn params_xml(s: Seq<ParamNode>) -> Seq<char>
    decreases s.len(),
{
    if s.len() == 0 {
        Seq::empty()
    } else {
        params_xml(s.drop_last()) + param_node_xml(s.last())
    }
}

/// `<c:param-filter name="N">{params...}</c:param-filter>`
pub open spec fn param_filter_xml(p: ParamFilter) -> Seq<char> {
    "<c:param-filter name=\""@ + p.name@ + "\">"@ + params_xml(p.params@) + "</c:param-filter>"@
}

pub open spec fn prop_child_xml(c: PropChild) -> Seq<char> {
    match c {
        PropChild::ParamFilter(p) => param_filter_xml(p),
        PropChild::TextMatch(m) => text_match_xml(m),
        PropChild::TimeRange(t) => time_range_xml(t),
    }
}

/// The children's XML, concatenated in order.
pub open spec fn prop_children_xml(s: Seq<PropChild>) -> Seq<char>
    decreases s.len(),
{
    if s.len() == 0 {
        Seq::empty()
    } else {
        prop_children_xml(s.drop_last()) + prop_child_xml(s.last())
    }
}

/// `<c:prop-filter name="N" />` when there is neither marker nor child, else
/// `<c:prop-filter name="N">{is-not-defined}{children...}</c:prop-filter>`.
pub open spec fn prop_filter_xml(p: PropFilter) -> Seq<char> {
    if p.is_not_defined is None && p.children.len() == 0 {
        "<c:prop-filter name=\""@ + p.name@ + "\" />"@
    } else {
        "<c:prop-filter name=\""@ + p.name@ + "\">"@ + marker_xml(p.is_not_defined)
            + prop_children_xml(p.children@) + "</c:prop-filter>"@
    }
}

pub open spec fn comp_child_xml(c: CompChild) -> Seq<char>
    decreases c,
{
    match c {
        CompChild::CompFilter(f) => comp_filter_xml(f),
        CompChild::PropFilter(p) => prop_filter_xml(p),
        CompChild::TimeRange(t) => time_range_xml(t),
    }
}

/// The children's XML, concatenated in order.
pub open spec fn comp_children_xml(s: Seq<CompChild>) -> Seq<char>
    decreases s,
{
    if s.len() == 0 {
        Seq::empty()
    } else {
        comp_children_xml(s.subrange(0, s.len() - 1)) + comp_child_xml(s[s.len() - 1])
    }
}

/// `<c:comp-filter name="N" />` when there is neither marker nor child, else
/// `<c:comp-filter name="N">{is-not-defined}{children...}</c:comp-filter>`.
pub open spec fn comp_filter_xml(f: CompFilter) -> Seq<char>
    decreases f,
{
    if f.is_not_defined is None && f.children.len() == 0 {
        "<c:comp-filter name=\""@ + f.name@ + "\" />"@
    } else {
        "<c:comp-filter name=\""@ + f.name@ + "\">"@ + marker_xml(f.is_not_defined)
            + comp_children_xml(f.children@) + "</c:comp-filter>"@
    }
}

/// `<c:filter>{comp_filter or nothing}</c:filter>`
pub open spec fn filter_xml(f: Filter) -> Seq<char> {
    "<c:filter>"@ + match f.comp_filter {
        Some(c) => comp_filter_xml(c),
        None => Seq::empty(),
    } + "</c:filter>"@
}

/// The marker that a component or property must be absent.
#[derive(Clone, Copy, Debug, Default, PartialEq, Eq)]
pub struct IsNotDefined;

impl IsNotDefined {
    pub fn to_xml(&self) -> (r: String)
        ensures
            r@ == is_not_defined_xml(),
    {
        String::from_str("<c:is-not-defined />")
    }
}

fn marker_to_xml(m: &Option<IsNotDefined>) -> (r: String)
    ensures
        r@ == marker_xml(*m),
{
    match m {
        Some(n) => n.to_xml(),
        None => String::new(),
    }
}

fn marker_of(value: bool) -> (r: Option<IsNotDefined>)
    ensures
        r is Some <==> value,
{
    if value {
        Some(IsNotDefined)
    } else {
        None
    }
}

/// A text match on a property or parameter value.
#[derive(Clone, Debug, Default, PartialEq, Eq)]
pub struct TextMatch {
    pub text: String,
    pub collation: Option<String>,
    pub negate_condition: bool,
}

impl TextMatch {
    pub fn new(text: &str) -> (r: TextMatch)
        ensures
            r.text@ == text@,
            r.collation is None,
            !r.negate_condition,
    {
        TextMatch { text: text.to_owned(), collation: None, negate_condition: false }
    }

    pub fn collation(self, collation: &str) -> (r: TextMatch)
        ensures
            r.text == self.text,
            r.collation is Some && r.collation->0@ == collation@,
            r.negate_condition == self.negate_condition,
    {
        TextMatch { collation: Some(collation.to_owned()), ..self }
    }

    pub fn negate_condition(self, value: bool) -> (r: TextMatch)
        ensures
            r.text == self.text,
            r.collation == self.collation,
            r.negate_condition == value,
    {
        TextMatch { negate_condition: value, ..self }
    }

    pub fn text(self, text: &str) -> (r: TextMatch)
        ensures
            r.text@ == text@,
            r.collation == self.collation,
            r.negate_condition == self.negate_condition,
    {
        TextMatch { text: text.to_owned(), ..self }
    }

    pub fn to_xml(&self) -> (r: String)
        ensures
            r@ == text_match_xml(*self),
    {
        let mut s = String::from_str("<c:text-match");
        match &self.collation {
            Some(c) => {
                s.append(" collation=\"");
                s.append(c.as_str());
                s.append("\"");
            },
            None => {},
        }
        if self.negate_condition {
            s.append(" negate-condition=\"yes\"");
        }
        s.append("><![CDATA[");
        s.append(self.text.as_str());
        s.append("]]></c:text-match>");
        s
    }
}

/// What a parameter filter may hold.
#[derive(Clone, Debug, PartialEq, Eq)]
pub enum ParamNode {
    TextMatch(TextMatch),
}

impl ParamNode {
    pub fn to_xml(&self) -> (r: String)
        ensures
            r@ == param_node_xml(*self),
    {
        match self {
            ParamNode::TextMatch(m) => m.to_xml(),
        }
    }
}

/// A node that can stand in a parameter filter.
pub trait Param: Sized {
    spec fn param_node(&self) -> ParamNode;

    fn into_param(self) -> (r: ParamNode)
        ensures
            r == self.param_node(),
    ;
}

impl Param for TextMatch {
    open spec fn param_node(&self) -> ParamNode {
        ParamNode::TextMatch(*self)
    }

    fn into_param(self) -> (r: ParamNode) {
        ParamNode::TextMatch(self)
    }
}

/// A filter on a property parameter.
#[derive(Clone, Debug, PartialEq, Eq)]
pub struct ParamFilter {
    pub name: String,
    pub params: Vec<ParamNode>,
}

impl ParamFilter {
    pub fn new(name: &str) -> (r: ParamFilter)
        ensures
            r.name@ == name@,
            r.params@ == Seq::<ParamNode>::empty(),
    {
        ParamFilter { name: name.to_owned(), params: Vec::new() }
    }

    pub fn append<P: Param>(self, param: P) -> (r: ParamFilter)
        ensures
            r.name == self.name,
            r.params@ == self.params@.push(param.param_node()),
    {
        let mut r = self;
        r.params.push(param.into_param());
        r
    }

    pub fn to_xml(&self) -> (r: String)
        ensures
            r@ == param_filter_xml(*self),
    {
        let mut s = String::from_str("<c:param-filter name=\"");
        s.append(self.name.as_str());
        s.append("\">");
        let mut i: usize = 0;
        while i < self.params.len()
            invariant
                i <= self.params@.len(),
                s@ == "<c:param-filter name=\""@ + self.name@ + "\">"@ + params_xml(
                    self.params@.subrange(0, i as int),
                ),
            decreases self.params@.len() - i,
        {
            let piece = self.params[i].to_xml();
            proof {
                let t = self.params@.subrange(0, i + 1);
                assert(t.drop_last() =~= self.params@.subrange(0, i as int));
            }
            s.append(piece.as_str());
            proof {
                assert(s@ =~= "<c:param-filter name=\""@ + self.name@ + "\">"@ + params_xml(
                    self.params@.subrange(0, i + 1),
                ));
            }
            i = i + 1;
        }
        proof {
            assert(self.params@.subrange(0, i as int) =~= self.params@);
        }
        s.append("</c:param-filter>");
        s
    }
}

/// A child of a property filter.
#[derive(Clone, Debug, PartialEq, Eq)]
pub enum PropChild {
    ParamFilter(ParamFilter),
    TextMatch(TextMatch),
    TimeRange(TimeRange),
}

impl PropChild {
    pub fn to_xml(&self) -> (r: String)
        ensures
            r@ == prop_child_xml(*self),
    {
        match self {
            PropChild::ParamFilter(p) => p.to_xml(),
            PropChild::TextMatch(m) => m.to_xml(),
            PropChild::TimeRange(t) => t.to_xml(),
        }
    }
}

/// A filter on a calendar property.
#[derive(Clone, Debug, PartialEq, Eq)]
pub struct PropFilter {
    pub name: String,
    pub is_not_defined: Option<IsNotDefined>,
    pub children: Vec<PropChild>,
}

impl PropFilter {
    pub fn new(name: &str) -> (r: PropFilter)
        ensures
            r.name@ == name@,
            r.is_not_defined is None,
            r.children@ == Seq::<PropChild>::empty(),
    {
        PropFilter { name: name.to_owned(), is_not_defined: None, children: Vec::new() }
    }

    fn push_child(self, child: PropChild) -> (r: PropFilter)
        ensures
            r.name == self.name,
            r.is_not_defined == self.is_not_defined,
            r.children@ == self.children@.push(child),
    {
        let mut r = self;
        r.children.push(child);
        r
    }

    pub fn append(self, param_filter: ParamFilter) -> (r: PropFilter)
        ensures
            r.name == self.name,
            r.is_not_defined == self.is_not_defined,
            r.children@ == self.children@.push(PropChild::ParamFilter(param_filter)),
    {
        self.push_child(PropChild::ParamFilter(param_filter))
    }

    pub fn is_not_defined(self, value: bool) -> (r: PropFilter)
        ensures
            r.name == self.name,
            r.is_not_defined is Some <==> value,
            r.children == self.children,
    {
        PropFilter { is_not_defined: marker_of(value), ..self }
    }

    pub fn text_match(self, text_match: TextMatch) -> (r: PropFilter)
        ensures
            r.name == self.name,
            r.is_not_defined == self.is_not_defined,
            r.children@ == self.children@.push(PropChild::TextMatch(text_match)),
    {
        self.push_child(PropChild::TextMatch(text_match))
    }

    pub fn time_range(self, time_range: TimeRange) -> (r: PropFilter)
        ensures
            r.name == self.name,
            r.is_not_defined == self.is_not_defined,
            r.children@ == self.children@.push(PropChild::TimeRange(time_range)),
    {
        self.push_child(PropChild::TimeRange(time_range))
    }

    fn children_to_xml(&self) -> (r: String)
        ensures
            r@ == prop_children_xml(self.children@),
    {
        let mut s = String::new();
        let mut i: usize = 0;
        while i < self.children.len()
            invariant
                i <= self.children@.len(),
                s@ == prop_children_xml(self.children@.subrange(0, i as int)),
            decreases self.children@.len() - i,
        {
            let piece = self.children[i].to_xml();
            proof {
                let t = self.children@.subrange(0, i + 1);
                assert(t.drop_last() =~= self.children@.subrange(0, i as int));
            }
            s.append(piece.as_str());
            i = i + 1;
        }
        proof {
            assert(self.children@.subrange(0, i as int) =~= self.children@);
        }
        s
    }

    pub fn to_xml(&self) -> (r: String)
        ensures
            r@ == prop_filter_xml(*self),
    {
        let mut s = String::from_str("<c:prop-filter name=\"");
        s.append(self.name.as_str());
        if self.is_not_defined.is_none() && self.children.len() == 0 {
            s.append("\" />");
            return s;
        }
        s.append("\">");
        let marker = marker_to_xml(&self.is_not_defined);
        s.append(marker.as_str());
        let children = self.children_to_xml();
        s.append(children.as_str());
        s.append("</c:prop-filter>");
        s
    }
}

/// A child of a component filter.
#[derive(Debug, PartialEq, Eq)]
pub enum CompChild {
    CompFilter(CompFilter),
    PropFilter(PropFilter),
    TimeRange(TimeRange),
}

/// A filter on a calendar component.
#[derive(Debug, PartialEq, Eq)]
pub struct CompFilter {
    pub name: String,
    pub is_not_defined: Option<IsNotDefined>,
    pub children: Vec<CompChild>,
}

impl CompFilter {
    pub fn new(name: &str) -> (r: CompFilter)
        ensures
            r.name@ == name@,
            r.is_not_defined is None,
            r.children@ == Seq::<CompChild>::empty(),
    {
        CompFilter { name: name.to_owned(), is_not_defined: None, children: Vec::new() }
    }

    fn push_child(self, child: CompChild) -> (r: CompFilter)
        ensures
            r.name == self.name,
            r.is_not_defined == self.is_not_defined,
            r.children@ == self.children@.push(child),
    {
        let mut r = self;
        r.children.push(child);
        r
    }

    pub fn append(self, comp_filter: CompFilter) -> (r: CompFilter)
        ensures
            r.name == self.name,
            r.is_not_defined == self.is_not_defined,
            r.children@ == self.children@.push(CompChild::CompFilter(comp_filter)),
    {
        self.push_child(CompChild::CompFilter(comp_filter))
    }

    pub fn is_not_defined(self, value: bool) -> (r: CompFilter)
        ensures
            r.name == self.name,
            r.is_not_defined is Some <==> value,
            r.children == self.children,
    {
        CompFilter { is_not_defined: marker_of(value), ..self }
    }

    pub fn prop_filter(self, prop_filter: PropFilter) -> (r: CompFilter)
        ensures
            r.name == self.name,
            r.is_not_defined == self.is_not_defined,
            r.children@ == self.children@.push(CompChild::PropFilter(prop_filter)),
    {
        self.push_child(CompChild::PropFilter(prop_filter))
    }

    pub fn time_range(self, time_range: TimeRange) -> (r: CompFilter)
        ensures
            r.name == self.name,
            r.is_not_defined == self.is_not_defined,
            r.children@ == self.children@.push(CompChild::TimeRange(time_range)),
    {
        self.push_child(CompChild::TimeRange(time_range))
    }

    pub fn to_xml(&self) -> (r: String)
        ensures
            r@ == comp_filter_xml(*self),
        decreases self,
    {
        let mut s = String::from_str("<c:comp-filter name=\"");
        s.append(self.name.as_str());
        if self.is_not_defined.is_none() && self.children.len() == 0 {
            s.append("\" />");
            return s;
        }
        s.append("\">");
        let marker = marker_to_xml(&self.is_not_defined);
        s.append(marker.as_str());
        let mut inner = String::new();
        let mut i: usize = 0;
        while i < self.children.len()
            invariant
                i <= self.children@.len(),
                inner@ == comp_children_xml(self.children@.subrange(0, i as int)),
            decreases self.children@.len() - i,
        {
            let piece = match &self.children[i] {
                CompChild::CompFilter(f) => {
                    proof {
                        assert(decreases_to!(self => self.children));
                        assert(decreases_to!(self.children => self.children@));
                        assert(decreases_to!(self.children@ => self.children@[i as int]));
                    }
                    f.to_xml()
                },
                CompChild::PropFilter(p) => p.to_xml(),
                CompChild::TimeRange(t) => t.to_xml(),
            };
            proof {
                let t = self.children@.subrange(0, i + 1);
                assert(t.subrange(0, t.len() - 1) =~= self.children@.subrange(0, i as int));
                assert(piece@ == comp_child_xml(self.children@[i as int]));
                assert(comp_children_xml(t) == comp_children_xml(
                    self.children@.subrange(0, i as int),
                ) + comp_child_xml(self.children@[i as int]));
            }
            inner.append(piece.as_str());
            i = i + 1;
        }
        proof {
            assert(self.children@.subrange(0, i as int) =~= self.children@);
        }
        s.append(inner.as_str());
        s.append("</c:comp-filter>");
        s
    }
}

/// The root of a calendar-query filter: at most one component filter.
#[derive(Debug, Default, PartialEq, Eq)]
pub struct Filter {
    pub comp_filter: Option<CompFilter>,
}

impl Filter {
    pub fn new() -> (r: Filter)
        ensures
            r.comp_filter is None,
    {
        Filter { comp_filter: None }
    }

    /// Sets the top-level component filter, replacing any earlier one.
    pub fn append(self, comp_filter: CompFilter) -> (r: Filter)
        ensures
            r.comp_filter == Some(comp_filter),
    {
        Filter { comp_filter: Some(comp_filter) }
    }

    pub fn to_xml(&self) -> (r: String)
        ensures
            r@ == filter_xml(*self),
    {
        let mut s = String::from_str("<c:filter>");
        match &self.comp_filter {
            Some(c) => {
                let inner = c.to_xml();
                s.append(inner.as_str());
            },
            None => {},
        }
        s.append("</c:filter>");
        s
    }
}

/// A component filter with neither marker nor child renders as a self-closing
/// element that carries only its name.
pub proof fn lemma_empty_comp_filter_self_closes(f: CompFilter)
    requires
        f.is_not_defined is None,
        f.children@.len() == 0,
    ensures
        comp_filter_xml(f) == "<c:comp-filter name=\""@ + f.name@ + "\" />"@,
{
}

/// A property filter with neither marker nor child renders as a self-closing
/// element that carries only its name.
pub proof fn lemma_empty_prop_filter_self_closes(p: PropFilter)
    requires
        p.is_not_defined is None,
        p.children@.len() == 0,
    ensures
        prop_filter_xml(p) == "<c:prop-filter name=\""@ + p.name@ + "\" />"@,
{
}

/// A property filter marked not defined and without children renders the
/// marker inside an open and a close tag, never the self-closing form.
pub proof fn lemma_marked_prop_filter_holds_marker(p: PropFilter)
    requires
        p.is_not_defined is Some,
        p.children@.len() == 0,
    ensures
        prop_filter_xml(p) == "<c:prop-filter name=\""@ + p.name@ + "\">"@
            + "<c:is-not-defined />"@ + "</c:prop-filter>"@,
{
    assert(prop_children_xml(p.children@) =~= Seq::<char>::empty());
    assert(prop_filter_xml(p) =~= "<c:prop-filter name=\""@ + p.name@ + "\">"@
        + "<c:is-not-defined />"@ + "</c:prop-filter>"@);
}

/// A text match with no collation and no negation renders its text in a CDATA
/// section and no attribute.
pub proof fn lemma_plain_text_match(m: TextMatch)
    requires
        m.collation is None,
        !m.negate_condition,
    ensures
        text_match_xml(m) == "<c:text-match><![CDATA["@ + m.text@ + "]]></c:text-match>"@,
{
    reveal_strlit("<c:text-match");
    reveal_strlit("><![CDATA[");
    reveal_strlit("<c:text-match><![CDATA[");
    assert(text_match_xml(m) =~= "<c:text-match><![CDATA["@ + m.text@
        + "]]></c:text-match>"@);
}

/// A text match with a collation and negation renders both attributes,
/// collation first.
pub proof fn lemma_text_match_attribute_order(m: TextMatch)
    requires
        m.collation is Some,
        m.negate_condition,
    ensures
        text_match_xml(m) == "<c:text-match collation=\""@ + m.collation->0@
            + "\" negate-condition=\"yes\"><![CDATA["@ + m.text@ + "]]></c:text-match>"@,
{
    reveal_strlit("<c:text-match");
    reveal_strlit(" collation=\"");
    reveal_strlit("\"");
    reveal_strlit(" negate-condition=\"yes\"");
    reveal_strlit("><![CDATA[");
    reveal_strlit("<c:text-match collation=\"");
    reveal_strlit("\" negate-condition=\"yes\"><![CDATA[");
    assert(text_match_xml(m) =~= "<c:text-match collation=\""@ + m.collation->0@
        + "\" negate-condition=\"yes\"><![CDATA["@ + m.text@ + "]]></c:text-match>"@);
}

/// Children of a component render one after another in the order they were
/// appended.
pub proof fn lemma_comp_children_in_order(s: Seq<CompChild>, k: CompChild)
    ensures
        comp_children_xml(s.push(k)) == comp_children_xml(s) + comp_child_xml(k),
{
    let t = s.push(k);
    assert(t.subrange(0, t.len() - 1) =~= s);
}

/// Children of a property render one after another in the order they were
/// appended.
pub proof fn lemma_prop_children_in_order(s: Seq<PropChild>, k: PropChild)
    ensures
        prop_children_xml(s.push(k)) == prop_children_xml(s) + prop_child_xml(k),
{
    assert(s.push(k).drop_last() =~= s);
}

/// Appending a child to a component filter (as `append`, `prop_filter` and
/// `time_range` do) nests the child's element one level inside the
/// component's element, after the earlier children.
pub proof fn lemma_comp_append_nests_last(f: CompFilter, k: CompChild, g: CompFilter)
    requires
        g.name == f.name,
        g.is_not_defined == f.is_not_defined,
        g.children@ == f.children@.push(k),
    ensures
        comp_filter_xml(g) == "<c:comp-filter name=\""@ + f.name@ + "\">"@ + marker_xml(
            f.is_not_defined,
        ) + comp_children_xml(f.children@) + comp_child_xml(k) + "</c:comp-filter>"@,
{
    lemma_comp_children_in_order(f.children@, k);
    assert(g.children@.len() > 0);
}

/// Appending a child to a property filter (as `append`, `text_match` and
/// `time_range` do) nests the child's element one level inside the
/// property's element, after the earlier children.
pub proof fn lemma_prop_append_nests_last(p: PropFilter, k: PropChild, q: PropFilter)
    requires
        q.name == p.name,
        q.is_not_defined == p.is_not_defined,
        q.children@ == p.children@.push(k),
    ensures
        prop_filter_xml(q) == "<c:prop-filter name=\""@ + p.name@ + "\">"@ + marker_xml(
            p.is_not_defined,
        ) + prop_children_xml(p.children@) + prop_child_xml(k) + "</c:prop-filter>"@,
{
    lemma_prop_children_in_order(p.children@, k);
    assert(q.children@.len() > 0);
}

/// Parameters of a parameter filter render in the order they were appended,
/// inside the parameter filter's element.
pub proof fn lemma_param_append_nests_last(p: ParamFilter, k: ParamNode, q: ParamFilter)
    requires
        q.name == p.name,
        q.params@ == p.params@.push(k),
    ensures
        param_filter_xml(q) == "<c:param-filter name=\""@ + p.name@ + "\">"@ + params_xml(
            p.params@,
        ) + param_node_xml(k) + "</c:param-filter>"@,
{
    assert(q.params@.drop_last() =~= p.params@);
}

} // verus!
