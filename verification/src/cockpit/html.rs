//! Markup that cannot be unescaped by accident. There is no template engine here and no
//! template string: a page is a tree of [`El`] values, and the only way text reaches the
//! output is through a method that escapes it.
//!
//! The Cockpit renders what the repository holds — rule bodies, prompt text, file paths, a
//! peer's announced intent — and every one of those is content this process did not write.
//! A page that wants raw markup has to say [`El::raw`] and be read for it.

use vstd::prelude::*;

use crate::strings::{push_char, push_str, str_eq};

verus! {

// ------------------------------------------------------------------ the model

/// What a node is, as the contracts speak of it.
pub enum NodeModel {
    /// An element.
    Element(ElementModel),
    /// Text, escaped when written.
    Text(Seq<char>),
    /// Markup this process produced itself.
    Raw(Seq<char>),
}

/// What an element is, as the contracts speak of it: its tag, its attributes in the order
/// they were first set, and its children.
pub struct ElementModel {
    /// The tag.
    pub tag: Seq<char>,
    /// Name and value of every attribute; an empty value is a boolean attribute.
    pub attrs: Seq<(Seq<char>, Seq<char>)>,
    /// The children, in order.
    pub children: Seq<NodeModel>,
}

/// An element with a tag and nothing else.
pub open spec fn bare(tag: Seq<char>) -> ElementModel {
    ElementModel { tag, attrs: seq![], children: seq![] }
}

/// The same element with one more child.
pub open spec fn with_child(e: ElementModel, n: NodeModel) -> ElementModel {
    ElementModel { children: e.children.push(n), ..e }
}

/// The same element with an attribute set.
pub open spec fn with_attr(e: ElementModel, name: Seq<char>, value: Seq<char>) -> ElementModel {
    ElementModel { attrs: set_attr(e.attrs, name, value), ..e }
}

/// The same element with a boolean attribute set.
pub open spec fn with_flag(e: ElementModel, name: Seq<char>) -> ElementModel {
    ElementModel { attrs: set_flag(e.attrs, name), ..e }
}

/// The same element with more children after the ones it has.
pub open spec fn with_children(e: ElementModel, more: Seq<NodeModel>) -> ElementModel {
    ElementModel { children: e.children + more, ..e }
}

/// The index of the first attribute with this name, or the length when there is none.
pub open spec fn attr_index(attrs: Seq<(Seq<char>, Seq<char>)>, name: Seq<char>) -> int
    decreases attrs.len(),
{
    if attrs.len() == 0 {
        0
    } else if attrs[0].0 == name {
        0
    } else {
        1 + attr_index(attrs.drop_first(), name)
    }
}

/// Setting an attribute: the first attribute of that name takes the value, and an
/// attribute nobody set yet is appended.
pub open spec fn set_attr(
    attrs: Seq<(Seq<char>, Seq<char>)>,
    name: Seq<char>,
    value: Seq<char>,
) -> Seq<(Seq<char>, Seq<char>)> {
    let i = attr_index(attrs, name);
    if i < attrs.len() {
        attrs.update(i, (name, value))
    } else {
        attrs.push((name, value))
    }
}

/// Setting a boolean attribute: appended without a value unless the name is already set.
pub open spec fn set_flag(
    attrs: Seq<(Seq<char>, Seq<char>)>,
    name: Seq<char>,
) -> Seq<(Seq<char>, Seq<char>)> {
    if attr_index(attrs, name) < attrs.len() {
        attrs
    } else {
        attrs.push((name, seq![]))
    }
}

/// The escaped form of one character.
pub open spec fn escape_char(c: char) -> Seq<char> {
    if c == '<' {
        seq!['&', 'l', 't', ';']
    } else if c == '>' {
        seq!['&', 'g', 't', ';']
    } else if c == '&' {
        seq!['&', 'a', 'm', 'p', ';']
    } else if c == '"' {
        seq!['&', 'q', 'u', 'o', 't', ';']
    } else if c == '\'' {
        seq!['&', '#', '3', '9', ';']
    } else {
        seq![c]
    }
}

/// Text with every character escaped.
pub open spec fn escaped(s: Seq<char>) -> Seq<char>
    decreases s.len(),
{
    if s.len() == 0 {
        seq![]
    } else {
        escaped(s.drop_last()) + escape_char(s.last())
    }
}

/// The text an escaped text stands for: each entity the escaping writes read back as its
/// character.
pub open spec fn unescaped(s: Seq<char>) -> Seq<char>
    decreases s.len(),
{
    if s.len() == 0 {
        seq![]
    } else if s.len() >= 4 && s.take(4) == seq!['&', 'l', 't', ';'] {
        seq!['<'] + unescaped(s.skip(4))
    } else if s.len() >= 4 && s.take(4) == seq!['&', 'g', 't', ';'] {
        seq!['>'] + unescaped(s.skip(4))
    } else if s.len() >= 5 && s.take(5) == seq!['&', 'a', 'm', 'p', ';'] {
        seq!['&'] + unescaped(s.skip(5))
    } else if s.len() >= 6 && s.take(6) == seq!['&', 'q', 'u', 'o', 't', ';'] {
        seq!['"'] + unescaped(s.skip(6))
    } else if s.len() >= 5 && s.take(5) == seq!['&', '#', '3', '9', ';'] {
        seq!['\''] + unescaped(s.skip(5))
    } else {
        seq![s[0]] + unescaped(s.drop_first())
    }
}

proof fn lemma_escaped_front(s: Seq<char>)
    requires
        s.len() > 0,
    ensures
        escaped(s) == escape_char(s[0]) + escaped(s.drop_first()),
    decreases s.len(),
{
    if s.len() == 1 {
        assert(s.drop_last() =~= seq![]);
        assert(s.drop_first() =~= seq![]);
        assert(escaped(s) =~= escape_char(s[0]) + escaped(s.drop_first()));
    } else {
        lemma_escaped_front(s.drop_last());
        assert(s.drop_last().drop_first() =~= s.drop_first().drop_last());
        assert(s.drop_first().last() == s.last());
        assert(escaped(s) =~= escape_char(s[0]) + escaped(s.drop_first()));
    }
}

proof fn lemma_unescaped_char(c: char, t: Seq<char>)
    ensures
        unescaped(escape_char(c) + t) == seq![c] + unescaped(t),
{
    let e = escape_char(c) + t;
    if c == '<' {
        assert(e.take(4) =~= seq!['&', 'l', 't', ';']);
        assert(e.skip(4) =~= t);
    } else if c == '>' {
        assert(e.take(4) =~= seq!['&', 'g', 't', ';']);
        assert(e.take(4) != seq!['&', 'l', 't', ';']);
        assert(e.skip(4) =~= t);
    } else if c == '&' {
        assert(e.take(4)[1] == 'a');
        assert(e.take(4) != seq!['&', 'l', 't', ';']);
        assert(e.take(4) != seq!['&', 'g', 't', ';']);
        assert(e.take(5) =~= seq!['&', 'a', 'm', 'p', ';']);
        assert(e.skip(5) =~= t);
    } else if c == '"' {
        assert(e.take(4)[1] == 'q');
        assert(e.take(4) != seq!['&', 'l', 't', ';']);
        assert(e.take(4) != seq!['&', 'g', 't', ';']);
        assert(e.take(5)[1] == 'q');
        assert(e.take(5) != seq!['&', 'a', 'm', 'p', ';']);
        assert(e.take(6) =~= seq!['&', 'q', 'u', 'o', 't', ';']);
        assert(e.skip(6) =~= t);
    } else if c == '\'' {
        assert(e.take(4)[1] == '#');
        assert(e.take(4) != seq!['&', 'l', 't', ';']);
        assert(e.take(4) != seq!['&', 'g', 't', ';']);
        assert(e.take(5)[1] == '#');
        assert(e.take(5) != seq!['&', 'a', 'm', 'p', ';']);
        if e.len() >= 6 {
            assert(e.take(6)[1] == '#');
            assert(e.take(6) != seq!['&', 'q', 'u', 'o', 't', ';']);
        }
        assert(e.take(5) =~= seq!['&', '#', '3', '9', ';']);
        assert(e.skip(5) =~= t);
    } else {
        assert(e[0] == c);
        if e.len() >= 4 {
            assert(e.take(4)[0] == c);
        }
        if e.len() >= 5 {
            assert(e.take(5)[0] == c);
        }
        if e.len() >= 4 {
            assert(e.take(4) != seq!['&', 'l', 't', ';']);
            assert(e.take(4) != seq!['&', 'g', 't', ';']);
        }
        if e.len() >= 5 {
            assert(e.take(5) != seq!['&', 'a', 'm', 'p', ';']);
            assert(e.take(5) != seq!['&', '#', '3', '9', ';']);
        }
        if e.len() >= 6 {
            assert(e.take(6)[0] == c);
            assert(e.take(6) != seq!['&', 'q', 'u', 'o', 't', ';']);
        }
        assert(e.drop_first() =~= t);
    }
}

/// Escaping loses nothing: what a reader's browser reads back from escaped text is the
/// text itself, every character of it.
pub proof fn law_escaping_reads_back_as_the_text(s: Seq<char>)
    ensures
        unescaped(escaped(s)) == s,
    decreases s.len(),
{
    if s.len() > 0 {
        lemma_escaped_front(s);
        law_escaping_reads_back_as_the_text(s.drop_first());
        lemma_unescaped_char(s[0], escaped(s.drop_first()));
        assert(seq![s[0]] + s.drop_first() =~= s);
    }
}

/// Escaped text can open no tag and close no attribute: it holds no `<`, `>`, `"` or `'`.
pub proof fn law_escaped_text_holds_no_markup(s: Seq<char>)
    ensures
        !escaped(s).contains('<'),
        !escaped(s).contains('>'),
        !escaped(s).contains('"'),
        !escaped(s).contains('\''),
    decreases s.len(),
{
    if s.len() > 0 {
        law_escaped_text_holds_no_markup(s.drop_last());
        let a = escaped(s.drop_last());
        let b = escape_char(s.last());
        assert forall|i: int| 0 <= i < (a + b).len() implies (a + b)[i] != '<' && (a + b)[i] != '>' && (a + b)[i]
            != '"' && (a + b)[i] != '\'' by {
            if i < a.len() {
                assert((a + b)[i] == a[i]);
            } else {
                assert((a + b)[i] == b[i - a.len()]);
            }
        }
    }
}

/// The tags written without a closing tag.
pub open spec fn is_void_tag(t: Seq<char>) -> bool {
    t == "area"@ || t == "base"@ || t == "br"@ || t == "col"@ || t == "embed"@ || t == "hr"@
        || t == "img"@ || t == "input"@ || t == "link"@ || t == "meta"@ || t == "source"@
        || t == "track"@ || t == "wbr"@
}

/// One attribute as written inside a start tag.
pub open spec fn attr_text(a: (Seq<char>, Seq<char>)) -> Seq<char> {
    if a.1.len() == 0 {
        seq![' '] + a.0
    } else {
        seq![' '] + a.0 + seq!['=', '"'] + escaped(a.1) + seq!['"']
    }
}

/// Every attribute as written inside a start tag.
pub open spec fn attrs_text(attrs: Seq<(Seq<char>, Seq<char>)>) -> Seq<char>
    decreases attrs.len(),
{
    if attrs.len() == 0 {
        seq![]
    } else {
        attrs_text(attrs.drop_last()) + attr_text(attrs.last())
    }
}

/// An element's start tag.
pub open spec fn start_tag(e: ElementModel) -> Seq<char> {
    seq!['<'] + e.tag + attrs_text(e.attrs) + seq!['>']
}

/// An element's end tag.
pub open spec fn end_tag(e: ElementModel) -> Seq<char> {
    seq!['<', '/'] + e.tag + seq!['>']
}

/// The markup of an element: the start tag, and for a non-void element its children and
/// its end tag.
pub open spec fn markup(e: ElementModel) -> Seq<char>
    decreases e, 1int,
{
    if is_void_tag(e.tag) {
        start_tag(e)
    } else {
        start_tag(e) + children_markup(e.children) + end_tag(e)
    }
}

/// The markup of a sequence of nodes, one after the other.
pub open spec fn children_markup(s: Seq<NodeModel>) -> Seq<char>
    decreases s, 0int,
{
    if s.len() == 0 {
        seq![]
    } else {
        children_markup(s.subrange(0, s.len() - 1)) + node_markup(s[s.len() - 1])
    }
}

/// The markup of one node: an element's, escaped text, or raw markup as it is.
pub open spec fn node_markup(n: NodeModel) -> Seq<char>
    decreases n, 0int,
{
    match n {
        NodeModel::Element(e) => markup(e),
        NodeModel::Text(t) => escaped(t),
        NodeModel::Raw(r) => r,
    }
}

// -------------------------------------------------------------- the values

/// One node of a page: an element with attributes and children, or a piece of text.
#[derive(Debug)]
pub enum Node {
    /// An element.
    Element(El),
    /// Text, escaped when written.
    Text(String),
    /// Markup this process produced itself and vouches for.
    Raw(String),
}

/// An element under construction. Every builder method takes and returns `self`, so a
/// page reads as one expression.
#[derive(Debug)]
pub struct El {
    tag: &'static str,
    attributes: Vec<(String, String)>,
    children: Vec<Node>,
}

/// The model of an attribute list.
pub closed spec fn attrs_model(a: Seq<(String, String)>) -> Seq<(Seq<char>, Seq<char>)> {
    a.map_values(|p: (String, String)| (p.0@, p.1@))
}

/// The model of an element.
pub closed spec fn el_model(e: El) -> ElementModel
    decreases e, 2int,
{
    ElementModel {
        tag: e.tag@,
        attrs: attrs_model(e.attributes@),
        children: nodes_model(e.children@),
    }
}

/// The model of a sequence of nodes.
pub closed spec fn nodes_model(s: Seq<Node>) -> Seq<NodeModel>
    decreases s, 1int,
{
    if s.len() == 0 {
        seq![]
    } else {
        nodes_model(s.subrange(0, s.len() - 1)).push(node_model(s[s.len() - 1]))
    }
}

/// The model of a node.
pub closed spec fn node_model(n: Node) -> NodeModel
    decreases n, 1int,
{
    match n {
        Node::Element(e) => NodeModel::Element(el_model(e)),
        Node::Text(t) => NodeModel::Text(t@),
        Node::Raw(r) => NodeModel::Raw(r@),
    }
}

/// An element taken as a node is seen as that element.
pub broadcast proof fn lemma_element_node(e: El)
    ensures
        #[trigger] Node::Element(e).view() == NodeModel::Element(e@),
{
}

/// The models of some elements, as child nodes.
pub open spec fn els_model(s: Seq<El>) -> Seq<NodeModel> {
    s.map_values(|c: El| NodeModel::Element(c@))
}

/// The models of some nodes.
pub open spec fn nodes_views(s: Seq<Node>) -> Seq<NodeModel> {
    s.map_values(|n: Node| n@)
}

impl View for El {
    type V = ElementModel;

    closed spec fn view(&self) -> ElementModel {
        el_model(*self)
    }
}

impl View for Node {
    type V = NodeModel;

    closed spec fn view(&self) -> NodeModel {
        node_model(*self)
    }
}


// --------------------------------------------------------------- model lemmas

proof fn lemma_nodes_push(s: Seq<Node>, x: Node)
    ensures
        nodes_model(s.push(x)) == nodes_model(s).push(node_model(x)),
        nodes_model(s.push(x)).len() == s.len() + 1,
{
    assert(s.push(x).subrange(0, s.len() as int) =~= s);
    assert(s.push(x)[s.len() as int] == x);
    lemma_nodes_len(s);
}

proof fn lemma_nodes_len(s: Seq<Node>)
    ensures
        nodes_model(s).len() == s.len(),
    decreases s.len(),
{
    if s.len() > 0 {
        lemma_nodes_len(s.subrange(0, s.len() - 1));
    }
}

proof fn lemma_attr_index(attrs: Seq<(Seq<char>, Seq<char>)>, name: Seq<char>, i: int)
    requires
        0 <= i <= attrs.len(),
        forall|j: int| 0 <= j < i ==> attrs[j].0 != name,
        i == attrs.len() || attrs[i].0 == name,
    ensures
        attr_index(attrs, name) == i,
    decreases i,
{
    if i > 0 {
        let rest = attrs.drop_first();
        assert forall|j: int| 0 <= j < i - 1 implies rest[j].0 != name by {
            assert(rest[j] == attrs[j + 1]);
        }
        lemma_attr_index(rest, name, i - 1);
    }
}

proof fn lemma_attr_index_bound(attrs: Seq<(Seq<char>, Seq<char>)>, name: Seq<char>)
    ensures
        0 <= attr_index(attrs, name) <= attrs.len(),
        attr_index(attrs, name) < attrs.len() ==> attrs[attr_index(attrs, name)].0 == name,
        forall|j: int| 0 <= j < attr_index(attrs, name) ==> attrs[j].0 != name,
    decreases attrs.len(),
{
    if attrs.len() > 0 && attrs[0].0 != name {
        let rest = attrs.drop_first();
        lemma_attr_index_bound(rest, name);
        assert forall|j: int| 0 <= j < attr_index(attrs, name) implies attrs[j].0 != name by {
            if j > 0 {
                assert(attrs[j] == rest[j - 1]);
            }
        }
    }
}

proof fn lemma_escaped_step(s: Seq<char>, i: int)
    requires
        0 <= i < s.len(),
    ensures
        escaped(s.subrange(0, i + 1)) == escaped(s.subrange(0, i)) + escape_char(s[i]),
{
    assert(s.subrange(0, i + 1).drop_last() =~= s.subrange(0, i));
}

// ------------------------------------------------------------------ escaping

fn push_escaped(out: &mut String, c: char)
    ensures
        final(out)@ == old(out)@ + escape_char(c),
{
    if c == '<' {
        push_char(out, '&');
        push_char(out, 'l');
        push_char(out, 't');
        push_char(out, ';');
    } else if c == '>' {
        push_char(out, '&');
        push_char(out, 'g');
        push_char(out, 't');
        push_char(out, ';');
    } else if c == '&' {
        push_char(out, '&');
        push_char(out, 'a');
        push_char(out, 'm');
        push_char(out, 'p');
        push_char(out, ';');
    } else if c == '"' {
        push_char(out, '&');
        push_char(out, 'q');
        push_char(out, 'u');
        push_char(out, 'o');
        push_char(out, 't');
        push_char(out, ';');
    } else if c == '\'' {
        push_char(out, '&');
        push_char(out, '#');
        push_char(out, '3');
        push_char(out, '9');
        push_char(out, ';');
    } else {
        push_char(out, c);
    }
    assert(final(out)@ =~= old(out)@ + escape_char(c));
}

fn push_escaped_str(out: &mut String, text: &str)
    ensures
        final(out)@ == old(out)@ + escaped(text@),
{
    let ghost start = out@;
    let n = text.unicode_len();
    let mut i: usize = 0;
    assert(text@.subrange(0, 0) =~= Seq::<char>::empty());
    while i < n
        invariant
            n == text@.len(),
            i <= n,
            out@ == start + escaped(text@.subrange(0, i as int)),
        decreases n - i,
    {
        let c = text.get_char(i);
        proof {
            lemma_escaped_step(text@, i as int);
        }
        push_escaped(out, c);
        assert(out@ =~= start + escaped(text@.subrange(0, i + 1)));
        i += 1;
    }
    assert(text@.subrange(0, n as int) =~= text@);
}

/// Escape text for an element body or an attribute value. The five characters that can
/// leave either context are replaced; nothing else is touched, so UTF-8 stays UTF-8.
pub fn escape(text: &str) -> (r: String)
    ensures
        r@ == escaped(text@),
{
    let mut out = String::new();
    push_escaped_str(&mut out, text);
    assert(out@ =~= escaped(text@));
    out
}

// ------------------------------------------------------------------ building

/// An element with this tag.
pub fn el(tag: &'static str) -> (r: El)
    ensures
        r@ == bare(tag@),
{
    let r = El { tag, attributes: Vec::new(), children: Vec::new() };
    assert(attrs_model(r.attributes@) =~= Seq::<(Seq<char>, Seq<char>)>::empty());
    assert(r@ =~= bare(tag@));
    r
}

/// A text node.
pub fn text(value: &str) -> (r: Node)
    ensures
        r@ == NodeModel::Text(value@),
{
    Node::Text(String::from_str(value))
}

/// Markup this process produced itself: an inlined icon, a fragment already rendered by
/// another function here. Never repository content, never a request parameter.
pub fn raw(markup: &str) -> (r: Node)
    ensures
        r@ == NodeModel::Raw(markup@),
{
    Node::Raw(String::from_str(markup))
}

/// Nothing. For a conditional branch that renders no element.
pub fn empty() -> (r: Node)
    ensures
        r@ == NodeModel::Raw(seq![]),
{
    Node::Raw(String::new())
}

impl El {
    /// The tag this element was made with.
    pub fn tag(&self) -> (r: &'static str)
        ensures
            r@ == self@.tag,
    {
        self.tag
    }

    /// Set an attribute. A later set of the same name replaces the earlier one, so a
    /// helper can set a default that a caller overrides.
    pub fn attr(self, name: &str, value: &str) -> (r: Self)
        ensures
            r@ == with_attr(self@, name@, value@),
    {
        let mut e = self;
        let ghost before = e.attributes@;
        let n = e.attributes.len();
        let mut i: usize = 0;
        while i < n
            invariant
                n == e.attributes@.len(),
                e.attributes@ == before,
                e.tag == self.tag,
                e.children == self.children,
                before == self.attributes@,
                i <= n,
                forall|j: int| 0 <= j < i ==> before[j].0@ != name@,
            decreases n - i,
        {
            if str_eq(e.attributes[i].0.as_str(), name) {
                proof {
                    lemma_attr_index(attrs_model(before), name@, i as int);
                }
                e.attributes.set(i, (String::from_str(name), String::from_str(value)));
                assert(attrs_model(e.attributes@) =~= attrs_model(before).update(
                    i as int,
                    (name@, value@),
                ));
                return e;
            }
            i += 1;
        }
        proof {
            lemma_attr_index(attrs_model(before), name@, n as int);
        }
        e.attributes.push((String::from_str(name), String::from_str(value)));
        assert(attrs_model(e.attributes@) =~= attrs_model(before).push((name@, value@)));
        e
    }

    /// Set an attribute only when there is a value.
    pub fn attr_if(self, name: &str, value: Option<&str>) -> (r: Self)
        ensures
            r@ == match value {
                Some(v) => with_attr(self@, name@, v@),
                None => self@,
            },
    {
        match value {
            Some(v) => self.attr(name, v),
            None => self,
        }
    }

    /// A boolean attribute, present without a value (`hidden`, `open`, `disabled`).
    pub fn flag(self, name: &str) -> (r: Self)
        ensures
            r@ == with_flag(self@, name@),
    {
        let mut e = self;
        let ghost before = e.attributes@;
        let n = e.attributes.len();
        let mut i: usize = 0;
        while i < n
            invariant
                n == e.attributes@.len(),
                e.attributes@ == before,
                e.tag == self.tag,
                e.children == self.children,
                before == self.attributes@,
                i <= n,
                forall|j: int| 0 <= j < i ==> before[j].0@ != name@,
            decreases n - i,
        {
            if str_eq(e.attributes[i].0.as_str(), name) {
                proof {
                    lemma_attr_index(attrs_model(before), name@, i as int);
                }
                return e;
            }
            i += 1;
        }
        proof {
            lemma_attr_index(attrs_model(before), name@, n as int);
        }
        e.attributes.push((String::from_str(name), String::new()));
        assert(attrs_model(e.attributes@) =~= attrs_model(before).push((name@, seq![])));
        e
    }

    /// Set `class`.
    pub fn class(self, value: &str) -> (r: Self)
        ensures
            r@ == with_attr(self@, "class"@, value@),
    {
        self.attr("class", value)
    }

    /// Add a child element.
    pub fn child(self, child: El) -> (r: Self)
        ensures
            r@ == with_child(self@, NodeModel::Element(child@)),
    {
        let mut e = self;
        proof {
            lemma_nodes_push(e.children@, Node::Element(child));
        }
        e.children.push(Node::Element(child));
        e
    }

    /// Add a node.
    pub fn node(self, node: Node) -> (r: Self)
        ensures
            r@ == with_child(self@, node@),
    {
        let mut e = self;
        proof {
            lemma_nodes_push(e.children@, node);
        }
        e.children.push(node);
        e
    }

    /// Add several children.
    pub fn children(self, children: Vec<El>) -> (r: Self)
        ensures
            r@ == with_children(self@, els_model(children@)),
    {
        let mut e = self;
        let mut rest = children;
        let ghost all = children@;
        let mut k: usize = 0;
        assert(all.len() == rest.len());
        while rest.len() > 0
            invariant
                k <= all.len(),
                k + rest@.len() == all.len(),
                all.len() <= usize::MAX,
                rest@ == all.subrange(k as int, all.len() as int),
                e@ == with_children(self@, els_model(all.subrange(0, k as int))),
            decreases rest.len(),
        {
            let c = rest.remove(0);
            assert(c == all[k as int]);
            let ghost before = e@;
            e = e.child(c);
            assert(els_model(all.subrange(0, k + 1)) =~= els_model(all.subrange(0, k as int)).push(
                NodeModel::Element(c@),
            ));
            k += 1;
            assert(rest@ =~= all.subrange(k as int, all.len() as int));
            assert(e@.children =~= self@.children + els_model(all.subrange(0, k as int)));
        }
        assert(all.subrange(0, k as int) =~= all);
        e
    }

    /// Add several nodes.
    pub fn nodes(self, nodes: Vec<Node>) -> (r: Self)
        ensures
            r@ == with_children(self@, nodes_views(nodes@)),
    {
        let mut e = self;
        let mut rest = nodes;
        let ghost all = nodes@;
        let mut k: usize = 0;
        assert(all.len() == rest.len());
        while rest.len() > 0
            invariant
                k <= all.len(),
                k + rest@.len() == all.len(),
                all.len() <= usize::MAX,
                rest@ == all.subrange(k as int, all.len() as int),
                e@ == with_children(self@, nodes_views(all.subrange(0, k as int))),
            decreases rest.len(),
        {
            let c = rest.remove(0);
            assert(c == all[k as int]);
            e = e.node(c);
            assert(nodes_views(all.subrange(0, k + 1)) =~= nodes_views(all.subrange(0, k as int)).push(
                c@,
            ));
            k += 1;
            assert(rest@ =~= all.subrange(k as int, all.len() as int));
            assert(e@.children =~= self@.children + nodes_views(all.subrange(0, k as int)));
        }
        assert(all.subrange(0, k as int) =~= all);
        e
    }

    /// Add escaped text.
    pub fn text(self, value: &str) -> (r: Self)
        ensures
            r@ == with_child(self@, NodeModel::Text(value@)),
    {
        self.node(text(value))
    }

    /// Add markup this process produced itself. Never repository content.
    pub fn raw(self, markup: &str) -> (r: Self)
        ensures
            r@ == with_child(self@, NodeModel::Raw(markup@)),
    {
        self.node(raw(markup))
    }

    /// Apply a function when the condition holds: for a branch inside a builder chain.
    pub fn when<F: FnOnce(Self) -> Self>(self, condition: bool, f: F) -> (r: Self)
        requires
            condition ==> f.requires((self,)),
        ensures
            condition ==> f.ensures((self,), r),
            !condition ==> r == self,
    {
        if condition {
            f(self)
        } else {
            self
        }
    }

    /// The element as markup.
    pub fn render(&self) -> (r: String)
        ensures
            r@ == markup(self@),
    {
        let mut out = String::new();
        self.write(&mut out);
        assert(out@ =~= markup(self@));
        out
    }

    fn write(&self, out: &mut String)
        ensures
            final(out)@ == old(out)@ + markup(self@),
        decreases self,
    {
        let ghost start = out@;
        push_char(out, '<');
        push_str(out, self.tag);
        let n = self.attributes.len();
        let mut i: usize = 0;
        assert(self.attributes@.subrange(0, 0) =~= Seq::<(String, String)>::empty());
        assert(attrs_model(self.attributes@.subrange(0, 0)) =~= Seq::<(Seq<char>, Seq<char>)>::empty());
        while i < n
            invariant
                n == self.attributes@.len(),
                i <= n,
                out@ == start + seq!['<'] + self.tag@ + attrs_text(
                    attrs_model(self.attributes@.subrange(0, i as int)),
                ),
            decreases n - i,
        {
            let name = self.attributes[i].0.as_str();
            let value = self.attributes[i].1.as_str();
            let ghost prefix = attrs_model(self.attributes@.subrange(0, i as int));
            let ghost next = attrs_model(self.attributes@.subrange(0, i + 1));
            assert(next.drop_last() =~= prefix);
            assert(next.last() == (name@, value@));
            push_char(out, ' ');
            push_str(out, name);
            if value.unicode_len() > 0 {
                push_char(out, '=');
                push_char(out, '"');
                push_escaped_str(out, value);
                push_char(out, '"');
            }
            assert(out@ =~= start + seq!['<'] + self.tag@ + attrs_text(next));
            i += 1;
        }
        assert(self.attributes@.subrange(0, n as int) =~= self.attributes@);
        push_char(out, '>');
        assert(out@ =~= start + start_tag(self@));
        if is_void(self.tag) {
            return ;
        }
        let ghost after_start = out@;
        let m = self.children.len();
        let mut k: usize = 0;
        assert(self.children@.subrange(0, 0) =~= Seq::<Node>::empty());
        while k < m
            invariant
                m == self.children@.len(),
                k <= m,
                out@ == after_start + children_markup(
                    nodes_model(self.children@.subrange(0, k as int)),
                ),
            decreases m - k,
        {
            let ghost sub = self.children@.subrange(0, k as int);
            let ghost sub1 = self.children@.subrange(0, k + 1);
            proof {
                assert(sub1 =~= sub.push(self.children@[k as int]));
                lemma_nodes_push(sub, self.children@[k as int]);
                lemma_nodes_len(sub);
                let ms = nodes_model(sub1);
                assert(ms.subrange(0, ms.len() - 1) =~= nodes_model(sub));
            }
            let ghost c = self.children@[k as int];
            let ghost before = out@;
            match &self.children[k] {
                Node::Element(e) => {
                    assert(decreases_to!(self => self.children));
                    e.write(out);
                },
                Node::Text(t) => {
                    push_escaped_str(out, t.as_str());
                },
                Node::Raw(r) => {
                    push_str(out, r.as_str());
                },
            }
            proof {
                let ms = nodes_model(sub1);
                assert(ms[ms.len() - 1] == node_model(c));
                assert(before == after_start + children_markup(nodes_model(sub)));
                assert(out@ == before + node_markup(node_model(c)));
                assert(children_markup(ms) == children_markup(nodes_model(sub)) + node_markup(
                    node_model(c),
                ));
                assert(out@ =~= after_start + children_markup(ms));
            }
            k += 1;
        }
        assert(self.children@.subrange(0, m as int) =~= self.children@);
        push_char(out, '<');
        push_char(out, '/');
        push_str(out, self.tag);
        push_char(out, '>');
        assert(out@ =~= start + markup(self@));
    }
}

/// Is this a tag written without a closing tag?
pub fn is_void(tag: &str) -> (r: bool)
    ensures
        r == is_void_tag(tag@),
{
    str_eq(tag, "area") || str_eq(tag, "base") || str_eq(tag, "br") || str_eq(tag, "col")
        || str_eq(tag, "embed") || str_eq(tag, "hr") || str_eq(tag, "img") || str_eq(
        tag,
        "input",
    ) || str_eq(tag, "link") || str_eq(tag, "meta") || str_eq(tag, "source") || str_eq(
        tag,
        "track",
    ) || str_eq(tag, "wbr")
}


// ------------------------------------------------------------------ documents

/// The markup of some elements, one after the other.
pub open spec fn elements_markup(s: Seq<ElementModel>) -> Seq<char>
    decreases s.len(),
{
    if s.len() == 0 {
        seq![]
    } else {
        elements_markup(s.drop_last()) + markup(s.last())
    }
}

/// The models of some elements.
pub open spec fn els_views(s: Seq<El>) -> Seq<ElementModel> {
    s.map_values(|e: El| e@)
}

/// A whole page: the doctype, the head every page gets, the page's own head elements, and
/// its body.
pub open spec fn document_text(
    title: Seq<char>,
    head: Seq<ElementModel>,
    body: ElementModel,
) -> Seq<char> {
    "<!doctype html>\n<html lang=\"en\">\n<head>\n"@ + markup(
        with_attr(bare("meta"@), "charset"@, "utf-8"@),
    ) + markup(
        with_attr(
            with_attr(bare("meta"@), "name"@, "viewport"@),
            "content"@,
            "width=device-width, initial-scale=1"@,
        ),
    ) + markup(with_child(bare("title"@), NodeModel::Text(title))) + elements_markup(head)
        + "\n</head>\n"@ + markup(body) + "\n</html>\n"@
}

/// A whole page: the doctype, the head this Cockpit always emits, and a body.
///
/// The head is not a template a page may replace. Its content — the character set, the
/// viewport, the title — is the same on every page by construction.
pub fn document(title: &str, head: Vec<El>, body: El) -> (r: String)
    ensures
        r@ == document_text(title@, els_views(head@), body@),
{
    let mut out = String::from_str("<!doctype html>\n<html lang=\"en\">\n<head>\n");
    let ghost start = out@;
    let charset = el("meta").attr("charset", "utf-8").render();
    push_str(&mut out, charset.as_str());
    let viewport = el("meta").attr("name", "viewport").attr(
        "content",
        "width=device-width, initial-scale=1",
    ).render();
    push_str(&mut out, viewport.as_str());
    let title_markup = el("title").text(title).render();
    push_str(&mut out, title_markup.as_str());
    let ghost before_head = out@;
    let mut i: usize = 0;
    assert(els_views(head@.subrange(0, 0)) =~= Seq::<ElementModel>::empty());
    while i < head.len()
        invariant
            i <= head@.len(),
            out@ == before_head + elements_markup(els_views(head@.subrange(0, i as int))),
        decreases head.len() - i,
    {
        proof {
            let m = els_views(head@.subrange(0, i + 1));
            assert(m.drop_last() =~= els_views(head@.subrange(0, i as int)));
        }
        let part = head[i].render();
        push_str(&mut out, part.as_str());
        i += 1;
    }
    assert(head@.subrange(0, head@.len() as int) =~= head@);
    push_str(&mut out, "\n</head>\n");
    let body_markup = body.render();
    push_str(&mut out, body_markup.as_str());
    push_str(&mut out, "\n</html>\n");
    assert(out@ =~= document_text(title@, els_views(head@), body@));
    out
}

} // verus!
