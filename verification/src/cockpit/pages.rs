//! The pages: what every one of them hands back, and the pieces they are built from that
//! depend on nothing but what they are given.

use vstd::prelude::*;

use crate::strings::{join_with_text, lowercase, lowercase_of, push_decimal_u64, push_str, str_eq, views, decimal_of};
use crate::url::{percent_encode, percent_encoded};

use super::html::{bare, el, with_attr, with_child, with_flag, El, ElementModel, NodeModel};
use super::nav::Area;
pub use super::board::board;
pub use super::catalogue::capabilities;
pub use super::outputs::artifacts;
pub use super::checkouts::worktrees;
pub use super::descriptor::capability;
pub use super::design::design;
pub use super::graphs::{graph, graphs};
pub use super::integrity::{integrity, integrity_capability};
pub use super::intents::intent;
pub use super::landing::overview;
pub use super::layer::directories;
pub use super::mesh::mesh;
pub use super::milestones::milestone;
pub use super::models::models;
pub use super::repertoire::commands;
pub use super::search::search;
pub use super::sessions::sessions;
pub use super::roadmap::plan;
pub use super::runs::execution;
pub use super::surfaces::{api, topology};
pub use super::versions::release;
pub use super::wellbeing::health;

use super::view::{alert, alert_model, card, card_model, link, link_model};

verus! {

broadcast use super::html::lemma_element_node;

/// What a page hands back: the area it belongs to, its title and subtitle, its trail, and
/// its content. The shell is added by the router, so no page renders a `<html>`.
pub struct Page {
    /// The area of the navigation.
    pub area: Area,
    /// The heading.
    pub title: String,
    /// One line under the heading.
    pub subtitle: Option<String>,
    /// The trail; the last entry has no href.
    pub breadcrumbs: Vec<(String, Option<String>)>,
    /// The body.
    pub main: El,
    /// The HTTP status: 200; 404 for a page about something that does not exist; 500 when
    /// the capability behind the page did not answer; 400 for a request it cannot read.
    pub status: u16,
    /// Script modules this page needs beyond the shell's, by file name.
    pub scripts: Vec<&'static str>,
}

/// A trail as text.
pub open spec fn trail_views(t: Seq<(String, Option<String>)>) -> Seq<(Seq<char>, Option<Seq<char>>)> {
    t.map_values(|p: (String, Option<String>)| (p.0@, crate::cockpit::nav::opt_text(p.1)))
}

/// A trail as written at a call site, as text.
pub open spec fn given_trail(t: Seq<(&str, Option<&str>)>) -> Seq<(Seq<char>, Option<Seq<char>>)> {
    t.map_values(|p: (&str, Option<&str>)| (p.0@, match p.1 { Some(h) => Some(h@), None => None }))
}

impl Page {
    /// A page of an area, with its title and body: found, and with no trail yet.
    pub fn new(area: Area, title: &str, main: El) -> (r: Self)
        ensures
            r.area == area,
            r.title@ == title@,
            r.subtitle is None,
            r.breadcrumbs@.len() == 0,
            r.main@ == main@,
            r.status == 200,
            r.scripts@.len() == 0,
    {
        Page {
            area,
            title: String::from_str(title),
            subtitle: None,
            breadcrumbs: Vec::new(),
            main,
            status: 200,
            scripts: Vec::new(),
        }
    }

    /// The same page with a line under its heading.
    pub fn subtitle(self, subtitle: &str) -> (r: Self)
        ensures
            r.subtitle matches Some(s) && s@ == subtitle@,
            r.area == self.area && r.title == self.title && r.breadcrumbs == self.breadcrumbs && r.main == self.main
                && r.status == self.status && r.scripts == self.scripts,
    {
        let mut p = self;
        p.subtitle = Some(String::from_str(subtitle));
        p
    }

    /// The same page with its trail.
    pub fn trail(self, trail: Vec<(&str, Option<&str>)>) -> (r: Self)
        ensures
            trail_views(r.breadcrumbs@) == given_trail(trail@),
            r.area == self.area && r.title == self.title && r.subtitle == self.subtitle && r.main == self.main
                && r.status == self.status && r.scripts == self.scripts,
    {
        let mut crumbs: Vec<(String, Option<String>)> = Vec::new();
        for i in 0..trail.len()
            invariant
                trail_views(crumbs@) == given_trail(trail@.take(i as int)),
        {
            let (l, h) = trail[i];
            let href = match h {
                Some(x) => Some(String::from_str(x)),
                None => None,
            };
            let ghost hv = match h {
                Some(x) => Some(x@),
                None => None,
            };
            crumbs.push((String::from_str(l), href));
            assert(given_trail(trail@.take(i + 1)) =~= given_trail(trail@.take(i as int)).push((l@, hv)));
            assert(trail_views(crumbs@) =~= trail_views(crumbs@.drop_last()).push((l@, hv)));
        }
        assert(trail@.take(trail@.len() as int) =~= trail@);
        let mut p = self;
        p.breadcrumbs = crumbs;
        p
    }

    /// The same page with one more script module.
    pub fn script(self, name: &'static str) -> (r: Self)
        ensures
            r.scripts@ == self.scripts@.push(name),
            r.area == self.area && r.title == self.title && r.subtitle == self.subtitle && r.breadcrumbs
                == self.breadcrumbs && r.main == self.main && r.status == self.status,
    {
        let mut p = self;
        p.scripts.push(name);
        p
    }

    /// The same page with another status.
    pub fn status(self, status: u16) -> (r: Self)
        ensures
            r.status == status,
            r.area == self.area && r.title == self.title && r.subtitle == self.subtitle && r.breadcrumbs
                == self.breadcrumbs && r.main == self.main && r.scripts == self.scripts,
    {
        let mut p = self;
        p.status = status;
        p
    }
}

/// The body of a page whose capability did not answer.
pub open spec fn failed_body(reason: Seq<char>) -> ElementModel {
    with_child(
        with_child(bare("div"@), NodeModel::Element(alert_model("fail"@, reason))),
        NodeModel::Element(
            with_child(
                with_attr(bare("p"@), "class"@, "mj-empty"@),
                NodeModel::Text("The capability behind this page did not answer. Nothing was changed."@),
            ),
        ),
    )
}

/// A page that says what went wrong instead of showing a blank one.
pub fn failed(area: Area, title: &str, reason: &str) -> (r: Page)
    ensures
        r.area == area,
        r.title@ == title@,
        r.main@ == failed_body(reason@),
        r.status == 500,
        r.subtitle is None,
        r.breadcrumbs@.len() == 0,
        r.scripts@.len() == 0,
{
    Page::new(
        area,
        title,
        el("div").child(alert("fail", reason)).child(
            el("p").class("mj-empty").text("The capability behind this page did not answer. Nothing was changed."),
        ),
    ).status(500)
}

/// One entry of a list of links.
pub open spec fn link_item(href: Seq<char>, label: Seq<char>) -> NodeModel {
    NodeModel::Element(with_child(bare("li"@), NodeModel::Element(link_model(href, label))))
}

/// The places a reader who asked for no page is sent to.
pub open spec fn elsewhere() -> Seq<NodeModel> {
    seq![
        link_item("/cockpit"@, "Overview"@),
        link_item("/cockpit/capabilities"@, "Capabilities"@),
        link_item("/cockpit/objects"@, "Objects"@),
        link_item("/cockpit/graphs"@, "Graphs"@),
        link_item("/cockpit/health"@, "Health"@),
    ]
}

/// The body of the page for a path the Cockpit does not serve.
pub open spec fn not_found_body(path: Seq<char>) -> ElementModel {
    with_child(
        with_child(bare("div"@), NodeModel::Element(alert_model("fail"@, "The Cockpit serves no page at "@ + path + "."@))),
        NodeModel::Element(
            ElementModel { children: elsewhere(), ..with_attr(bare("ul"@), "class"@, "mj-list"@) },
        ),
    )
}

/// A page for a path the Cockpit does not serve: it says so, and offers the way back.
pub fn not_found(path: &str) -> (r: Page)
    ensures
        r.area == Area::NoArea,
        r.title@ == "Not a page"@,
        r.main@ == not_found_body(path@),
        r.status == 404,
        r.subtitle is None,
        r.breadcrumbs@.len() == 0,
        r.scripts@.len() == 0,
{
    let mut message = String::from_str("The Cockpit serves no page at ");
    push_str(&mut message, path);
    push_str(&mut message, ".");
    let list = el("ul").class("mj-list").child(el("li").child(link("/cockpit", "Overview"))).child(
        el("li").child(link("/cockpit/capabilities", "Capabilities")),
    ).child(el("li").child(link("/cockpit/objects", "Objects"))).child(el("li").child(link("/cockpit/graphs", "Graphs"))).child(
        el("li").child(link("/cockpit/health", "Health")),
    );
    assert(list@.children =~= elsewhere());
    assert(list@ =~= (ElementModel { children: elsewhere(), ..with_attr(bare("ul"@), "class"@, "mj-list"@) }));
    Page::new(Area::NoArea, "Not a page", el("div").child(alert("fail", message.as_str())).child(list)).status(404)
}

/// A section of a page that could not be read, in place of the section: one section that
/// failed never hides the ones that answered.
pub fn section_error(title: &str, e: &str) -> (r: El)
    ensures
        r@ == card_model(title@, alert_model("fail"@, e@)),
{
    card(title, alert("fail", e))
}

// ------------------------------------------------------------------ the query string

/// Is a key one of those being set?
pub open spec fn overridden(set: Seq<(&str, Option<&str>)>, key: Seq<char>) -> bool {
    exists|j: int| 0 <= j < set.len() && set[j].0@ == key
}

/// The pairs of the query that are kept: those with a value, whose key is not being set.
pub open spec fn kept_pairs(query: Seq<(String, String)>, set: Seq<(&str, Option<&str>)>) -> Seq<(Seq<char>, Seq<char>)>
    decreases query.len(),
{
    if query.len() == 0 {
        seq![]
    } else {
        let rest = kept_pairs(query.drop_last(), set);
        let (k, v) = query.last();
        if v@.len() > 0 && !overridden(set, k@) {
            rest.push((k@, v@))
        } else {
            rest
        }
    }
}

/// The pairs being set to a value.
pub open spec fn set_pairs(set: Seq<(&str, Option<&str>)>) -> Seq<(Seq<char>, Seq<char>)>
    decreases set.len(),
{
    if set.len() == 0 {
        seq![]
    } else {
        let rest = set_pairs(set.drop_last());
        match set.last().1 {
            Some(v) => rest.push((set.last().0@, v@)),
            None => rest,
        }
    }
}

/// An address with its query: the base alone when no pair is left, else each pair encoded,
/// joined by `&`.
pub open spec fn href_text(base: Seq<char>, pairs: Seq<(Seq<char>, Seq<char>)>) -> Seq<char> {
    if pairs.len() == 0 {
        base
    } else {
        base + "?"@ + join_with_text(
            pairs.map_values(|p: (Seq<char>, Seq<char>)| percent_encoded(p.0) + "="@ + percent_encoded(p.1)),
            "&"@,
        )
    }
}

fn is_overridden(set: &[(&str, Option<&str>)], key: &str) -> (r: bool)
    ensures
        r == overridden(set@, key@),
{
    let mut j: usize = 0;
    while j < set.len()
        invariant
            j <= set@.len(),
            forall|i: int| 0 <= i < j ==> set@[i].0@ != key@,
        decreases set.len() - j,
    {
        if str_eq(set[j].0, key) {
            return true;
        }
        j += 1;
    }
    false
}

/// The address of a listing with some parameters changed: the parameters in force kept,
/// those being set replaced or dropped, and the empty ones left out. Filters and paging
/// go through here, so a filter link never keeps a page number it should not.
pub fn href_with(base: &str, query: &[(String, String)], set: &[(&str, Option<&str>)]) -> (r: String)
    ensures
        r@ == href_text(base@, kept_pairs(query@, set@) + set_pairs(set@)),
{
    let mut pairs: Vec<(String, String)> = Vec::new();
    for i in 0..query.len()
        invariant
            pairs@.map_values(|p: (String, String)| (p.0@, p.1@)) == kept_pairs(query@.take(i as int), set@),
    {
        let ghost t = query@.take(i + 1);
        assert(t.drop_last() =~= query@.take(i as int));
        let (k, v) = (&query[i].0, &query[i].1);
        if v.unicode_len() > 0 && !is_overridden(set, k.as_str()) {
            pairs.push((String::from_str(k.as_str()), String::from_str(v.as_str())));
            assert(pairs@.map_values(|p: (String, String)| (p.0@, p.1@)) =~= kept_pairs(t, set@));
        }
    }
    assert(query@.take(query@.len() as int) =~= query@);
    let ghost kept = kept_pairs(query@, set@);
    for i in 0..set.len()
        invariant
            pairs@.map_values(|p: (String, String)| (p.0@, p.1@)) == kept + set_pairs(set@.take(i as int)),
    {
        let ghost t = set@.take(i + 1);
        assert(t.drop_last() =~= set@.take(i as int));
        let (k, v) = set[i];
        match v {
            Some(v) => {
                let ghost before = pairs@.map_values(|p: (String, String)| (p.0@, p.1@));
                pairs.push((String::from_str(k), String::from_str(v)));
                assert(t.last() == set@[i as int]);
                assert(set_pairs(t) == set_pairs(set@.take(i as int)).push((k@, v@)));
                assert(pairs@.map_values(|p: (String, String)| (p.0@, p.1@)) =~= before.push((k@, v@)));
                assert(pairs@.map_values(|p: (String, String)| (p.0@, p.1@)) =~= kept + set_pairs(t));
            },
            None => {},
        }
    }
    assert(set@.take(set@.len() as int) =~= set@);
    let ghost all = pairs@.map_values(|p: (String, String)| (p.0@, p.1@));
    if pairs.len() == 0 {
        return String::from_str(base);
    }
    let ghost encoded = all.map_values(|p: (Seq<char>, Seq<char>)| percent_encoded(p.0) + "="@ + percent_encoded(p.1));
    let mut out = String::from_str(base);
    push_str(&mut out, "?");
    let ghost head = out@;
    for i in 0..pairs.len()
        invariant
            all == pairs@.map_values(|p: (String, String)| (p.0@, p.1@)),
            encoded == all.map_values(|p: (Seq<char>, Seq<char>)| percent_encoded(p.0) + "="@ + percent_encoded(p.1)),
            out@ == head + join_with_text(encoded.take(i as int), "&"@),
    {
        let ghost before = out@;
        if i > 0 {
            push_str(&mut out, "&");
        }
        let ek = percent_encode(pairs[i].0.as_str());
        let ev = percent_encode(pairs[i].1.as_str());
        push_str(&mut out, ek.as_str());
        push_str(&mut out, "=");
        push_str(&mut out, ev.as_str());
        proof {
            let t = encoded.take(i + 1);
            assert(t.drop_last() =~= encoded.take(i as int));
            assert(t.last() == encoded[i as int]);
            if i == 0 {
                assert(join_with_text(t, "&"@) == t[0]);
                assert(out@ =~= head + join_with_text(t, "&"@));
            } else {
                assert(join_with_text(t, "&"@) == join_with_text(t.drop_last(), "&"@) + "&"@ + t.last());
                assert(out@ =~= head + join_with_text(t, "&"@));
            }
        }
    }
    assert(encoded.take(pairs@.len() as int) =~= encoded);
    out
}

/// A number as the standard library reads one (`usize::from_str`): an optional `+`, then
/// at least one decimal digit, and no more than fits.
pub open spec fn digits_value(s: Seq<char>) -> int
    decreases s.len(),
{
    if s.len() == 0 {
        0
    } else {
        digits_value(s.drop_last()) * 10 + (s.last() as int - '0' as int)
    }
}

/// A text after its optional sign.
pub open spec fn unsigned_part(s: Seq<char>) -> Seq<char> {
    if s.len() > 0 && s[0] == '+' {
        s.drop_first()
    } else {
        s
    }
}

/// Is every character a decimal digit?
pub open spec fn all_digits(b: Seq<char>) -> bool {
    forall|i: int| 0 <= i < b.len() ==> '0' <= #[trigger] b[i] <= '9'
}

/// The number a text holds, when it holds one that fits.
pub open spec fn parsed_number(s: Seq<char>) -> Option<int> {
    let body = unsigned_part(s);
    if body.len() == 0 || !all_digits(body) {
        None
    } else if digits_value(body) > usize::MAX {
        None
    } else {
        Some(digits_value(body))
    }
}

proof fn lemma_digits_value_nonneg(s: Seq<char>)
    requires
        forall|i: int| 0 <= i < s.len() ==> '0' <= #[trigger] s[i] <= '9',
    ensures
        digits_value(s) >= 0,
    decreases s.len(),
{
    if s.len() > 0 {
        lemma_digits_value_nonneg(s.drop_last());
    }
}

proof fn lemma_digits_value_grows(s: Seq<char>, k: int)
    requires
        0 <= k <= s.len(),
        forall|i: int| 0 <= i < s.len() ==> '0' <= #[trigger] s[i] <= '9',
    ensures
        digits_value(s.take(k)) <= digits_value(s),
    decreases s.len() - k,
{
    if k < s.len() {
        lemma_digits_value_grows(s, k + 1);
        let t = s.take(k + 1);
        assert(t.drop_last() =~= s.take(k));
        assert(forall|i: int| 0 <= i < s.take(k).len() ==> '0' <= #[trigger] s.take(k)[i] <= '9');
        lemma_digits_value_nonneg(s.take(k));
    } else {
        assert(s.take(k) =~= s);
    }
}

/// The number a text holds, when it holds one that fits.
pub fn parse_number(s: &str) -> (r: Option<usize>)
    ensures
        match parsed_number(s@) {
            Some(n) => r matches Some(x) && x as int == n,
            None => r is None,
        },
{
    let n = s.unicode_len();
    let start: usize = if n > 0 && s.get_char(0) == '+' { 1 } else { 0 };
    let ghost body = unsigned_part(s@);
    assert(body =~= s@.subrange(start as int, n as int));
    if start >= n {
        assert(body.len() == 0);
        assert(parsed_number(s@) is None);
        return None;
    }
    let mut v: usize = 0;
    let mut i: usize = start;
    while i < n
        invariant
            n == s@.len(),
            start <= i <= n,
            body == unsigned_part(s@),
            body == s@.subrange(start as int, n as int),
            forall|j: int| 0 <= j < i - start ==> '0' <= #[trigger] body[j] <= '9',
            v as int == digits_value(body.take(i - start)),
        decreases n - i,
    {
        let c = s.get_char(i);
        assert(body[i - start] == c);
        if !('0' <= c && c <= '9') {
            assert(!all_digits(body));
            assert(parsed_number(s@) is None);
            return None;
        }
        let d = (c as u32 - '0' as u32) as usize;
        let ghost t = body.take(i - start + 1);
        assert(t.drop_last() =~= body.take(i - start));
        assert(t.last() == c);
        assert(digits_value(t) == v * 10 + d);
        if v > (usize::MAX - d) / 10 {
            assert(v * 10 + d > usize::MAX) by (nonlinear_arith)
                requires
                    v > (usize::MAX - d) / 10,
                    d <= 9,
            ;
            proof {
                if all_digits(body) {
                    lemma_digits_value_grows(body, i - start + 1);
                    assert(digits_value(body) > usize::MAX);
                }
            }
            assert(parsed_number(s@) is None);
            return None;
        }
        assert(v * 10 + d <= usize::MAX) by (nonlinear_arith)
            requires
                v <= (usize::MAX - d) / 10,
                d <= 9,
        ;
        v = v * 10 + d;
        i += 1;
    }
    assert(body.take(n - start) =~= body);
    assert(all_digits(body));
    assert(parsed_number(s@) == Some(v as int));
    Some(v)
}

/// The page a listing was asked for: the first `page` parameter, read as a number; page
/// one when there is none or it is not a number.
pub open spec fn asked_page_of(query: Seq<(String, String)>) -> int
    decreases query.len(),
{
    if query.len() == 0 {
        1
    } else if query[0].0@ == "page"@ {
        match parsed_number(query[0].1@) {
            Some(n) => n,
            None => 1,
        }
    } else {
        asked_page_of(query.drop_first())
    }
}

/// The page a listing was asked for. Anything that is not a page number is page one.
pub fn asked_page(query: &[(String, String)]) -> (r: usize)
    ensures
        r as int == asked_page_of(query@),
{
    let mut i: usize = 0;
    assert(query@.skip(0) =~= query@);
    while i < query.len()
        invariant
            i <= query@.len(),
            asked_page_of(query@) == asked_page_of(query@.skip(i as int)),
        decreases query.len() - i,
    {
        assert(query@.skip(i as int)[0] == query@[i as int]);
        assert(query@.skip(i as int).drop_first() =~= query@.skip(i + 1));
        if str_eq(query[i].0.as_str(), "page") {
            return match parse_number(query[i].1.as_str()) {
                Some(n) => n,
                None => 1,
            };
        }
        i += 1;
    }
    1
}

/// One query parameter, when it carries something: the first of that key, if it is not
/// empty.
pub open spec fn param_of(query: Seq<(String, String)>, key: Seq<char>) -> Option<Seq<char>>
    decreases query.len(),
{
    if query.len() == 0 {
        None
    } else if query[0].0@ == key {
        if query[0].1@.len() > 0 {
            Some(query[0].1@)
        } else {
            None
        }
    } else {
        param_of(query.drop_first(), key)
    }
}

/// One query parameter, when it carries something.
pub fn param(query: &[(String, String)], key: &str) -> (r: Option<String>)
    ensures
        crate::cockpit::nav::opt_text(r) == param_of(query@, key@),
{
    let mut i: usize = 0;
    assert(query@.skip(0) =~= query@);
    while i < query.len()
        invariant
            i <= query@.len(),
            param_of(query@, key@) == param_of(query@.skip(i as int), key@),
        decreases query.len() - i,
    {
        assert(query@.skip(i as int)[0] == query@[i as int]);
        assert(query@.skip(i as int).drop_first() =~= query@.skip(i + 1));
        if str_eq(query[i].0.as_str(), key) {
            if query[i].1.unicode_len() > 0 {
                return Some(String::from_str(query[i].1.as_str()));
            }
            return None;
        }
        i += 1;
    }
    None
}

// ------------------------------------------------------------------ controls

/// One option of a filter.
pub open spec fn option_model(value: Seq<char>, text: Seq<char>, selected: bool) -> ElementModel {
    let o = with_attr(bare("option"@), "value"@, value);
    with_child(if selected { with_flag(o, "selected"@) } else { o }, NodeModel::Text(text))
}

/// The options of a filter, as text.
pub open spec fn option_views(options: Seq<(String, String)>) -> Seq<(Seq<char>, Seq<char>)> {
    options.map_values(|p: (String, String)| (p.0@, p.1@))
}

/// The model of a filter.
pub open spec fn select_model(
    name: Seq<char>,
    label: Seq<char>,
    current: Option<Seq<char>>,
    options: Seq<(Seq<char>, Seq<char>)>,
) -> ElementModel {
    let first = option_model(seq![], "any "@ + lowercase_of(label), current is None);
    let field = ElementModel {
        children: seq![NodeModel::Element(first)] + options.map_values(
            |p: (Seq<char>, Seq<char>)| NodeModel::Element(option_model(p.0, p.1, current == Some(p.0))),
        ),
        ..with_attr(with_attr(bare("select"@), "class"@, "mj-select"@), "name"@, name)
    };
    with_child(
        with_child(
            with_attr(bare("label"@), "class"@, "mj-field"@),
            NodeModel::Element(with_child(with_attr(bare("span"@), "class"@, "mj-field-label"@), NodeModel::Text(label))),
        ),
        NodeModel::Element(field),
    )
}

/// A filter: any value, or one of the options, the one in force selected.
pub fn select(name: &str, label: &str, current: Option<&str>, options: Vec<(String, String)>) -> (r: El)
    ensures
        r@ == select_model(
            name@,
            label@,
            match current {
                Some(c) => Some(c@),
                None => None,
            },
            option_views(options@),
        ),
{
    let ghost cur = match current {
        Some(c) => Some(c@),
        None => None,
    };
    let mut any = String::from_str("any ");
    let lower = lowercase(label);
    push_str(&mut any, lower.as_str());
    proof {
        reveal_strlit("");
        assert(""@ =~= Seq::<char>::empty());
    }
    let mut first = el("option").attr("value", "");
    assert(first@ == with_attr(bare("option"@), "value"@, seq![]));
    if current.is_none() {
        first = first.flag("selected");
    }
    first = first.text(any.as_str());
    assert(any@ == "any "@ + lowercase_of(label@));
    assert(first@ == option_model(seq![], "any "@ + lowercase_of(label@), current is None));
    let mut field = el("select").class("mj-select").attr("name", name).child(first);
    let ghost base = field@;
    assert(base.children =~= seq![NodeModel::Element(option_model(seq![], "any "@ + lowercase_of(label@), current is None))]);
    let ghost f = |p: (Seq<char>, Seq<char>)| NodeModel::Element(option_model(p.0, p.1, cur == Some(p.0)));
    for i in 0..options.len()
        invariant
            f == (|p: (Seq<char>, Seq<char>)| NodeModel::Element(option_model(p.0, p.1, cur == Some(p.0)))),
            cur == (match current {
                Some(c) => Some(c@),
                None => None::<Seq<char>>,
            }),
            field@ == (ElementModel { children: base.children + option_views(options@.take(i as int)).map_values(f), ..base }),
    {
        let (value, text) = (&options[i].0, &options[i].1);
        let selected = match current {
            Some(c) => str_eq(c, value.as_str()),
            None => false,
        };
        let mut o = el("option").attr("value", value.as_str());
        if selected {
            o = o.flag("selected");
        }
        o = o.text(text.as_str());
        field = field.child(o);
        assert(option_views(options@.take(i + 1)).map_values(f) =~= option_views(options@.take(i as int)).map_values(f).push(
            f((value@, text@)),
        ));
        assert(field@.children =~= base.children + option_views(options@.take(i + 1)).map_values(f));
    }
    assert(options@.take(options@.len() as int) =~= options@);
    let r = el("label").class("mj-field").child(el("span").class("mj-field-label").text(label)).child(field);
    assert(field@ =~= (ElementModel {
        children: seq![NodeModel::Element(option_model(seq![], "any "@ + lowercase_of(label@), current is None))]
            + option_views(options@).map_values(f),
        ..with_attr(with_attr(bare("select"@), "class"@, "mj-select"@), "name"@, name@)
    }));
    r
}

/// The badge word for an effect: what a reader should feel about running it.
pub open spec fn effect_status_of(effect: Seq<char>) -> Seq<char> {
    if effect == "read_only"@ {
        "ok"@
    } else if effect == "local_mutation"@ {
        "info"@
    } else if effect == "repository_mutation"@ || effect == "network_mutation"@ {
        "warn"@
    } else {
        "fail"@
    }
}

/// The badge word for an effect.
pub fn effect_status(effect: &str) -> (r: &'static str)
    ensures
        r@ == effect_status_of(effect@),
{
    if str_eq(effect, "read_only") {
        "ok"
    } else if str_eq(effect, "local_mutation") {
        "info"
    } else if str_eq(effect, "repository_mutation") || str_eq(effect, "network_mutation") {
        "warn"
    } else {
        "fail"
    }
}

/// The model of a progress bar.
pub open spec fn progress_model(percent: nat) -> ElementModel {
    with_child(
        with_child(
            with_attr(
                with_attr(
                    with_attr(
                        with_attr(
                            with_attr(with_attr(bare("div"@), "class"@, "mj-progress"@), "role"@, "progressbar"@),
                            "aria-valuenow"@,
                            decimal_of(percent),
                        ),
                        "aria-valuemin"@,
                        "0"@,
                    ),
                    "aria-valuemax"@,
                    "100"@,
                ),
                "aria-label"@,
                "execution progress"@,
            ),
            NodeModel::Element(
                with_attr(with_attr(bare("div"@), "class"@, "mj-progress-bar"@), "style"@, "width:"@ + decimal_of(percent) + "%"@),
            ),
        ),
        NodeModel::Element(with_child(with_attr(bare("span"@), "class"@, "mj-progress-text"@), NodeModel::Text(decimal_of(percent) + "%"@))),
    )
}

/// A progress bar with the accessible semantics a progress bar needs.
pub fn progress_bar(percent: u64) -> (r: El)
    ensures
        r@ == progress_model(percent as nat),
{
    let mut n = String::new();
    push_decimal_u64(&mut n, percent);
    let mut width = String::from_str("width:");
    push_str(&mut width, n.as_str());
    push_str(&mut width, "%");
    let mut shown = String::from_str(n.as_str());
    push_str(&mut shown, "%");
    el("div").class("mj-progress").attr("role", "progressbar").attr("aria-valuenow", n.as_str()).attr(
        "aria-valuemin",
        "0",
    ).attr("aria-valuemax", "100").attr("aria-label", "execution progress").child(
        el("div").class("mj-progress-bar").attr("style", width.as_str()),
    ).child(el("span").class("mj-progress-text").text(shown.as_str()))
}


// ------------------------------------------------------------------ input forms

/// A JSON value, as the input schema of a capability holds it. A number is kept as the
/// text it is written with.
#[derive(Debug)]
pub enum Json {
    Null,
    Bool(bool),
    Number(String),
    Str(String),
    Array(Vec<Json>),
    Object(Vec<(String, Json)>),
}

/// The position of a key among an object's entries, or the count.
pub open spec fn key_position(entries: Seq<(String, Json)>, key: Seq<char>) -> int
    decreases entries.len(),
{
    if entries.len() == 0 {
        0
    } else if entries[0].0@ == key {
        0
    } else {
        1 + key_position(entries.drop_first(), key)
    }
}

/// A member of an object, when the value is one and has it.
pub open spec fn member(j: Json, key: Seq<char>) -> Option<Json> {
    match j {
        Json::Object(entries) => {
            let k = key_position(entries@, key);
            if 0 <= k < entries@.len() {
                Some(entries@[k].1)
            } else {
                None
            }
        },
        _ => None,
    }
}

proof fn lemma_key_position(entries: Seq<(String, Json)>, key: Seq<char>, k: int)
    requires
        0 <= k <= entries.len(),
        forall|j: int| 0 <= j < k ==> (#[trigger] entries[j]).0@ != key,
        k < entries.len() ==> entries[k].0@ == key,
    ensures
        key_position(entries, key) == k,
    decreases k,
{
    if k > 0 {
        let t = entries.drop_first();
        assert forall|j: int| 0 <= j < k - 1 implies (#[trigger] t[j]).0@ != key by {
            assert(t[j] == entries[j + 1]);
        }
        if k < entries.len() {
            assert(t[k - 1] == entries[k]);
        }
        assert(entries[0].0@ != key);
        lemma_key_position(t, key, k - 1);
    }
}

/// A member of an object.
pub fn get<'a>(j: &'a Json, key: &str) -> (r: Option<&'a Json>)
    ensures
        match member(*j, key@) {
            Some(m) => r == Some(&m),
            None => r is None,
        },
{
    match j {
        Json::Object(entries) => {
            let mut i: usize = 0;
            while i < entries.len()
                invariant
                    *j == Json::Object(*entries),
                    i <= entries@.len(),
                    forall|q: int| 0 <= q < i ==> (#[trigger] entries@[q]).0@ != key@,
                decreases entries.len() - i,
            {
                if str_eq(entries[i].0.as_str(), key) {
                    proof {
                        lemma_key_position(entries@, key@, i as int);
                        assert(member(*j, key@) == Some(entries@[i as int].1));
                    }
                    return Some(&entries[i].1);
                }
                i += 1;
            }
            proof {
                lemma_key_position(entries@, key@, entries@.len() as int);
            }
            None
        },
        _ => None,
    }
}

/// The text of a string value.
pub open spec fn str_of(j: Option<Json>) -> Option<Seq<char>> {
    match j {
        Some(Json::Str(s)) => Some(s@),
        _ => None,
    }
}

/// A scalar as text: a string as itself, a number as written, a boolean as its word.
pub open spec fn scalar_text_of(j: Json) -> Option<Seq<char>> {
    match j {
        Json::Str(s) => Some(s@),
        Json::Number(n) => Some(n@),
        Json::Bool(b) => Some(if b { "true"@ } else { "false"@ }),
        _ => None,
    }
}

/// A scalar as text.
pub fn scalar_text(j: &Json) -> (r: Option<String>)
    ensures
        crate::cockpit::nav::opt_text(r) == scalar_text_of(*j),
{
    match j {
        Json::Str(s) => Some(String::from_str(s.as_str())),
        Json::Number(n) => Some(String::from_str(n.as_str())),
        Json::Bool(b) => Some(String::from_str(if *b { "true" } else { "false" })),
        _ => None,
    }
}

/// The values a schema enumerates, when it enumerates scalars and at least one.
pub open spec fn enumeration_of(schema: Json) -> Option<Seq<Seq<char>>> {
    match member(schema, "enum"@) {
        Some(Json::Array(values)) => if values@.len() > 0 && forall|i: int|
            0 <= i < values@.len() ==> (#[trigger] scalar_text_of(values@[i])) is Some {
            Some(values@.map_values(|v: Json| scalar_text_of(v)->0))
        } else {
            None
        },
        _ => None,
    }
}

/// The values a schema enumerates.
pub fn enumeration(schema: &Json) -> (r: Option<Vec<String>>)
    ensures
        match enumeration_of(*schema) {
            Some(ws) => r matches Some(v) && views(v@) == ws,
            None => r is None,
        },
{
    let values = match get(schema, "enum") {
        Some(Json::Array(values)) => values,
        _ => return None,
    };
    if values.len() == 0 {
        return None;
    }
    let mut words: Vec<String> = Vec::new();
    for i in 0..values.len()
        invariant
            member(*schema, "enum"@) == Some(Json::Array(*values)),
            values@.len() > 0,
            forall|q: int| 0 <= q < i ==> (#[trigger] scalar_text_of(values@[q])) is Some,
            views(words@) == values@.take(i as int).map_values(|v: Json| scalar_text_of(v)->0),
    {
        match scalar_text(&values[i]) {
            Some(w) => {
                let ghost before = views(words@);
                words.push(w);
                assert(values@.take(i + 1).map_values(|v: Json| scalar_text_of(v)->0) =~= values@.take(i as int).map_values(
                    |v: Json| scalar_text_of(v)->0,
                ).push(scalar_text_of(values@[i as int])->0));
                assert(views(words@) =~= before.push(w@));
            },
            None => {
                assert(scalar_text_of(values@[i as int]) is None);
                return None;
            },
        }
    }
    assert(values@.take(values@.len() as int) =~= values@);
    Some(words)
}

/// How a property is edited. Derived from the JSON Schema the input type produced, never
/// from the property's name.
#[derive(Debug, Clone, Copy, PartialEq, Eq, Structural)]
pub enum FieldKind {
    Text,
    Integer,
    Number,
    Boolean,
    Structured,
}

/// The word a kind is announced by.
pub open spec fn field_kind_word(k: FieldKind) -> Seq<char> {
    match k {
        FieldKind::Text => "string"@,
        FieldKind::Integer => "integer"@,
        FieldKind::Number => "number"@,
        FieldKind::Boolean => "boolean"@,
        FieldKind::Structured => "json"@,
    }
}

impl FieldKind {
    /// The word a kind is announced by.
    pub fn word(self) -> (r: &'static str)
        ensures
            r@ == field_kind_word(self),
    {
        match self {
            FieldKind::Text => "string",
            FieldKind::Integer => "integer",
            FieldKind::Number => "number",
            FieldKind::Boolean => "boolean",
            FieldKind::Structured => "json",
        }
    }
}

/// The first type word of a list that is not `null`.
pub open spec fn first_non_null(ws: Seq<Json>) -> Option<Seq<char>>
    decreases ws.len(),
{
    if ws.len() == 0 {
        None
    } else {
        match ws[0] {
            Json::Str(s) => if s@ != "null"@ {
                Some(s@)
            } else {
                first_non_null(ws.drop_first())
            },
            _ => first_non_null(ws.drop_first()),
        }
    }
}

/// The type word a schema declares: a word, or the first non-null word of a list.
pub open spec fn type_word_of(schema: Json) -> Option<Seq<char>> {
    match member(schema, "type"@) {
        Some(Json::Str(s)) => Some(s@),
        Some(Json::Array(a)) => first_non_null(a@),
        _ => None,
    }
}

/// The kind a type word is edited as; a `$ref` or an untyped schema is edited as JSON,
/// the honest control.
pub open spec fn kind_of_word(w: Option<Seq<char>>) -> FieldKind {
    match w {
        Some(t) => if t == "integer"@ {
            FieldKind::Integer
        } else if t == "number"@ {
            FieldKind::Number
        } else if t == "boolean"@ {
            FieldKind::Boolean
        } else if t == "string"@ {
            FieldKind::Text
        } else {
            FieldKind::Structured
        },
        None => FieldKind::Structured,
    }
}

/// Is a branch of an alternative the `null` of an optional value?
pub open spec fn null_branch(b: Json) -> bool {
    str_of(member(b, "type"@)) == Some("null"@)
}

/// The first branch of an alternative that is not `null`, by position.
pub open spec fn first_real(bs: Seq<Json>) -> int
    decreases bs.len(),
{
    if bs.len() == 0 {
        0
    } else if !null_branch(bs[0]) {
        0
    } else {
        1 + first_real(bs.drop_first())
    }
}

proof fn lemma_first_real(bs: Seq<Json>, k: int)
    requires
        0 <= k <= bs.len(),
        forall|j: int| 0 <= j < k ==> null_branch(#[trigger] bs[j]),
        k < bs.len() ==> !null_branch(bs[k]),
    ensures
        first_real(bs) == k,
    decreases k,
{
    if k > 0 {
        let t = bs.drop_first();
        assert forall|j: int| 0 <= j < k - 1 implies null_branch(#[trigger] t[j]) by {
            assert(t[j] == bs[j + 1]);
        }
        if k < bs.len() {
            assert(t[k - 1] == bs[k]);
        }
        assert(null_branch(bs[0]));
        lemma_first_real(t, k - 1);
    }
}

/// The branches of an alternative under a key, when the schema has a list there.
pub open spec fn branches_of(schema: Json, key: Seq<char>) -> Seq<Json> {
    match member(schema, key) {
        Some(Json::Array(bs)) => bs@,
        _ => seq![],
    }
}

/// The branch an optional value is edited by: the first branch that is not `null` of
/// `anyOf`, else of `oneOf`, else of `allOf`.
pub open spec fn alternative(schema: Json) -> Option<Json> {
    let a = branches_of(schema, "anyOf"@);
    let o = branches_of(schema, "oneOf"@);
    let l = branches_of(schema, "allOf"@);
    if first_real(a) < a.len() {
        Some(a[first_real(a)])
    } else if first_real(o) < o.len() {
        Some(o[first_real(o)])
    } else if first_real(l) < l.len() {
        Some(l[first_real(l)])
    } else {
        None
    }
}

pub proof fn lemma_first_real_bounds(bs: Seq<Json>)
    ensures
        0 <= first_real(bs) <= bs.len(),
        first_real(bs) < bs.len() ==> !null_branch(bs[first_real(bs)]),
    decreases bs.len(),
{
    if bs.len() > 0 && null_branch(bs[0]) {
        lemma_first_real_bounds(bs.drop_first());
        if first_real(bs) < bs.len() {
            assert(bs[first_real(bs)] == bs.drop_first()[first_real(bs) - 1]);
        }
    }
}

pub proof fn lemma_member_smaller(j: Json, key: Seq<char>)
    requires
        member(j, key) is Some,
    ensures
        decreases_to!(j => member(j, key)->0),
{
    match j {
        Json::Object(entries) => {
            let k = key_position(entries@, key);
            assert(decreases_to!(j => entries));
            assert(decreases_to!(entries => entries@));
            assert(decreases_to!(entries@ => entries@[k]));
            assert(decreases_to!(entries@[k] => entries@[k].1));
        },
        _ => {},
    }
}

pub proof fn lemma_branch_smaller(schema: Json, key: Seq<char>, m: int)
    requires
        0 <= m < branches_of(schema, key).len(),
    ensures
        decreases_to!(schema => branches_of(schema, key)[m]),
{
    lemma_member_smaller(schema, key);
    match member(schema, key) {
        Some(Json::Array(bs)) => {
            let arr = member(schema, key)->0;
            assert(decreases_to!(arr => bs));
            assert(decreases_to!(bs => bs@));
            assert(decreases_to!(bs@ => bs@[m]));
        },
        _ => {},
    }
}

pub proof fn lemma_alternative_smaller(schema: Json)
    requires
        alternative(schema) is Some,
    ensures
        decreases_to!(schema => alternative(schema)->0),
{
    let a = branches_of(schema, "anyOf"@);
    let o = branches_of(schema, "oneOf"@);
    let l = branches_of(schema, "allOf"@);
    lemma_first_real_bounds(a);
    lemma_first_real_bounds(o);
    lemma_first_real_bounds(l);
    if first_real(a) < a.len() {
        lemma_branch_smaller(schema, "anyOf"@, first_real(a));
    } else if first_real(o) < o.len() {
        lemma_branch_smaller(schema, "oneOf"@, first_real(o));
    } else {
        lemma_branch_smaller(schema, "allOf"@, first_real(l));
    }
}

/// The shape of a property: its editable kind and its enumeration, looking through the
/// alternative an optional value produces.
pub open spec fn shape_of(schema: Json) -> (FieldKind, Option<Seq<Seq<char>>>)
    decreases schema,
{
    match enumeration_of(schema) {
        Some(vs) => (FieldKind::Text, Some(vs)),
        None => match alternative(schema) {
            Some(b) => {
                proof {
                    lemma_alternative_smaller(schema);
                }
                shape_of(b)
            },
            None => (kind_of_word(type_word_of(schema)), None),
        },
    }
}

fn first_real_branch<'a>(schema: &'a Json, key: &str) -> (r: Option<&'a Json>)
    ensures
        first_real(branches_of(*schema, key@)) < branches_of(*schema, key@).len() ==> r == Some(
            &branches_of(*schema, key@)[first_real(branches_of(*schema, key@))],
        ),
        first_real(branches_of(*schema, key@)) >= branches_of(*schema, key@).len() ==> r is None,
{
    let bs = match get(schema, key) {
        Some(Json::Array(bs)) => bs,
        _ => {
            proof {
                lemma_first_real_bounds(branches_of(*schema, key@));
            }
            return None;
        },
    };
    let mut i: usize = 0;
    while i < bs.len()
        invariant
            bs@ == branches_of(*schema, key@),
            i <= bs@.len(),
            forall|q: int| 0 <= q < i ==> null_branch(#[trigger] bs@[q]),
        decreases bs.len() - i,
    {
        let b = &bs[i];
        let is_null = match get(b, "type") {
            Some(Json::Str(t)) => str_eq(t.as_str(), "null"),
            _ => false,
        };
        if !is_null {
            proof {
                lemma_first_real(bs@, i as int);
            }
            return Some(b);
        }
        i += 1;
    }
    proof {
        lemma_first_real(bs@, bs@.len() as int);
    }
    None
}

fn type_word(schema: &Json) -> (r: Option<&str>)
    ensures
        match r {
            Some(t) => type_word_of(*schema) == Some(t@),
            None => type_word_of(*schema) is None,
        },
{
    match get(schema, "type") {
        Some(Json::Str(s)) => Some(s.as_str()),
        Some(Json::Array(a)) => {
            let mut i: usize = 0;
            assert(a@.skip(0) =~= a@);
            while i < a.len()
                invariant
                    member(*schema, "type"@) == Some(Json::Array(*a)),
                    i <= a@.len(),
                    first_non_null(a@) == first_non_null(a@.skip(i as int)),
                decreases a.len() - i,
            {
                assert(a@.skip(i as int)[0] == a@[i as int]);
                assert(a@.skip(i as int).drop_first() =~= a@.skip(i + 1));
                match &a[i] {
                    Json::Str(t) => {
                        if !str_eq(t.as_str(), "null") {
                            return Some(t.as_str());
                        }
                    },
                    _ => {},
                }
                i += 1;
            }
            None
        },
        _ => None,
    }
}

/// The shape of a property: its editable kind and its enumeration.
pub fn schema_shape(schema: &Json) -> (r: (FieldKind, Option<Vec<String>>))
    ensures
        r.0 == shape_of(*schema).0,
        match shape_of(*schema).1 {
            Some(vs) => r.1 matches Some(v) && views(v@) == vs,
            None => r.1 is None,
        },
    decreases *schema,
{
    match enumeration(schema) {
        Some(values) => return (FieldKind::Text, Some(values)),
        None => {},
    }
    let branch = match first_real_branch(schema, "anyOf") {
        Some(b) => Some(b),
        None => match first_real_branch(schema, "oneOf") {
            Some(b) => Some(b),
            None => first_real_branch(schema, "allOf"),
        },
    };
    match branch {
        Some(b) => {
            proof {
                lemma_alternative_smaller(*schema);
            }
            assert(alternative(*schema) == Some(*b));
            schema_shape(b)
        },
        None => {
            assert(alternative(*schema) is None);
            let kind = match type_word(schema) {
                Some(t) => if str_eq(t, "integer") {
                    FieldKind::Integer
                } else if str_eq(t, "number") {
                    FieldKind::Number
                } else if str_eq(t, "boolean") {
                    FieldKind::Boolean
                } else if str_eq(t, "string") {
                    FieldKind::Text
                } else {
                    FieldKind::Structured
                },
                None => FieldKind::Structured,
            };
            (kind, None)
        },
    }
}

/// The JSON text of the members of a property's schema that a form shows as written: its
/// minimum, its maximum and its default, each as the JSON serialiser writes it.
#[derive(Debug, Clone, PartialEq, Eq)]
pub struct FieldTexts {
    pub minimum: Option<String>,
    pub maximum: Option<String>,
    pub default: Option<String>,
}

fn opt_str(o: &Option<String>) -> (r: Option<&str>)
    ensures
        match r {
            Some(t) => o matches Some(x) && x@ == t@,
            None => o is None,
        },
{
    match o {
        Some(x) => Some(x.as_str()),
        None => None,
    }
}

/// An option of a choice a property enumerates.
pub open spec fn choice_model(v: Seq<char>, default: Option<Json>) -> NodeModel {
    let o = with_attr(bare("option"@), "value"@, v);
    NodeModel::Element(with_child(if str_of(default) == Some(v) { with_flag(o, "selected"@) } else { o }, NodeModel::Text(v)))
}

/// The control a property is edited with, before what every control carries.
pub open spec fn control_model(
    name: Seq<char>,
    schema: Json,
    required: bool,
    texts: FieldTexts,
) -> ElementModel {
    let (kind, enumeration) = shape_of(schema);
    let default = member(schema, "default"@);
    let value = match default {
        Some(d) => scalar_text_of(d),
        None => None,
    };
    match enumeration {
        Some(values) => {
            let s = with_attr(with_attr(bare("select"@), "class"@, "mj-select"@), "name"@, name);
            let s = if required {
                s
            } else {
                with_child(s, NodeModel::Element(with_child(with_attr(bare("option"@), "value"@, seq![]), NodeModel::Text("(unset)"@))))
            };
            ElementModel { children: s.children + values.map_values(|v: Seq<char>| choice_model(v, default)), ..s }
        },
        None => match kind {
            FieldKind::Boolean => {
                let i = with_attr(
                    with_attr(with_attr(bare("input"@), "class"@, "mj-checkbox"@), "type"@, "checkbox"@),
                    "name"@,
                    name,
                );
                if default == Some(Json::Bool(true)) {
                    with_flag(i, "checked"@)
                } else {
                    i
                }
            },
            FieldKind::Integer | FieldKind::Number => {
                let i = with_attr(
                    with_attr(with_attr(bare("input"@), "class"@, "mj-input"@), "type"@, "number"@),
                    "name"@,
                    name,
                );
                let i = if kind == FieldKind::Number { with_attr(i, "step"@, "any"@) } else { i };
                let i = match texts.minimum {
                    Some(m) => with_attr(i, "min"@, m@),
                    None => i,
                };
                let i = match texts.maximum {
                    Some(m) => with_attr(i, "max"@, m@),
                    None => i,
                };
                match value {
                    Some(v) => with_attr(i, "value"@, v),
                    None => i,
                }
            },
            FieldKind::Structured => with_child(
                with_attr(
                    with_attr(
                        with_attr(
                            with_attr(with_attr(bare("textarea"@), "class"@, "mj-textarea"@), "name"@, name),
                            "rows"@,
                            "4"@,
                        ),
                        "spellcheck"@,
                        "false"@,
                    ),
                    "placeholder"@,
                    "JSON"@,
                ),
                NodeModel::Text(
                    match texts.default {
                        Some(d) => d@,
                        None => seq![],
                    },
                ),
            ),
            FieldKind::Text => {
                let i = with_attr(
                    with_attr(
                        with_attr(with_attr(bare("input"@), "class"@, "mj-input"@), "type"@, "text"@),
                        "name"@,
                        name,
                    ),
                    "spellcheck"@,
                    "false"@,
                );
                match value {
                    Some(v) => with_attr(i, "value"@, v),
                    None => i,
                }
            },
        },
    }
}

/// The input control a property is edited with: what its schema says it is, its
/// requiredness, and its address.
pub open spec fn marked_control(name: Seq<char>, schema: Json, required: bool, texts: FieldTexts) -> ElementModel {
    let c = with_attr(control_model(name, schema, required, texts), "data-mj-type"@, field_kind_word(shape_of(schema).0));
    let c = if required { with_attr(with_flag(c, "required"@), "aria-required"@, "true"@) } else { c };
    with_attr(c, "id"@, "mj-field-"@ + name)
}

/// The model of one field of a form.
pub open spec fn field_model(name: Seq<char>, schema: Json, required: bool, texts: FieldTexts) -> ElementModel {
    let label = with_child(
        with_child(
            with_child(
                with_attr(with_attr(bare("label"@), "class"@, "mj-field-label"@), "for"@, "mj-field-"@ + name),
                NodeModel::Text(name),
            ),
            NodeModel::Element(
                if required {
                    with_child(with_attr(bare("span"@), "class"@, "mj-required"@), NodeModel::Text("required"@))
                } else {
                    with_child(with_attr(bare("span"@), "class"@, "mj-optional"@), NodeModel::Text("optional"@))
                },
            ),
        ),
        NodeModel::Element(
            with_child(with_attr(bare("span"@), "class"@, "mj-field-type"@), NodeModel::Text(field_kind_word(shape_of(schema).0))),
        ),
    );
    let description = match str_of(member(schema, "description"@)) {
        Some(d) => d,
        None => seq![],
    };
    let f = with_child(
        with_child(with_attr(bare("div"@), "class"@, "mj-field"@), NodeModel::Element(label)),
        NodeModel::Element(marked_control(name, schema, required, texts)),
    );
    with_child(
        f,
        if description.len() == 0 {
            NodeModel::Raw(seq![])
        } else {
            NodeModel::Element(with_child(with_attr(bare("p"@), "class"@, "mj-field-help"@), NodeModel::Text(description)))
        },
    )
}

fn control(name: &str, schema: &Json, required: bool, texts: &FieldTexts, kind: FieldKind, enumeration: Option<Vec<String>>) -> (r: El)
    requires
        kind == shape_of(*schema).0,
        match shape_of(*schema).1 {
            Some(vs) => enumeration matches Some(v) && views(v@) == vs,
            None => enumeration is None,
        },
    ensures
        r@ == control_model(name@, *schema, required, *texts),
{
    let default = get(schema, "default");
    let value: Option<String> = match default {
        Some(d) => scalar_text(d),
        None => None,
    };
    let default_str: Option<&str> = match default {
        Some(Json::Str(t)) => Some(t.as_str()),
        _ => None,
    };
    assert(match default_str { Some(t) => str_of(member(*schema, "default"@)) == Some(t@), None => str_of(member(*schema, "default"@)) is None });
    match enumeration {
        Some(values) => {
            let mut s = el("select").class("mj-select").attr("name", name);
            if !required {
                proof {
                    reveal_strlit("");
                    assert(""@ =~= Seq::<char>::empty());
                }
                s = s.child(el("option").attr("value", "").text("(unset)"));
            }
            let ghost base = s@;
            let ghost dflt = member(*schema, "default"@);
            for i in 0..values.len()
                invariant
                    dflt == member(*schema, "default"@),
                    match default_str { Some(t) => str_of(dflt) == Some(t@), None => str_of(dflt) is None },
                    s@ == (ElementModel { children: base.children + views(values@.take(i as int)).map_values(|v: Seq<char>| choice_model(v, dflt)), ..base }),
            {
                let v = values[i].as_str();
                let selected = match default_str {
                    Some(t) => str_eq(t, v),
                    None => false,
                };
                let mut o = el("option").attr("value", v);
                if selected {
                    o = o.flag("selected");
                }
                o = o.text(v);
                s = s.child(o);
                assert(views(values@.take(i + 1)).map_values(|v: Seq<char>| choice_model(v, dflt)) =~= views(values@.take(i as int)).map_values(
                    |v: Seq<char>| choice_model(v, dflt),
                ).push(choice_model(v@, dflt)));
                assert(s@.children =~= base.children + views(values@.take(i + 1)).map_values(|v: Seq<char>| choice_model(v, dflt)));
            }
            assert(values@.take(values@.len() as int) =~= values@);
            s
        },
        None => match kind {
            FieldKind::Boolean => {
                let i = el("input").class("mj-checkbox").attr("type", "checkbox").attr("name", name);
                let checked = match default {
                    Some(Json::Bool(b)) => *b,
                    _ => false,
                };
                if checked {
                    i.flag("checked")
                } else {
                    i
                }
            },
            FieldKind::Integer | FieldKind::Number => {
                let mut i = el("input").class("mj-input").attr("type", "number").attr("name", name);
                if kind == FieldKind::Number {
                    i = i.attr("step", "any");
                }
                i = i.attr_if("min", opt_str(&texts.minimum));
                i = i.attr_if("max", opt_str(&texts.maximum));
                i.attr_if("value", opt_str(&value))
            },
            FieldKind::Structured => {
                let text = match &texts.default {
                    Some(d) => d.as_str(),
                    None => {
                        proof {
                            reveal_strlit("");
                            assert(""@ =~= Seq::<char>::empty());
                        }
                        ""
                    },
                };
                el("textarea").class("mj-textarea").attr("name", name).attr("rows", "4").attr("spellcheck", "false").attr(
                    "placeholder",
                    "JSON",
                ).text(text)
            },
            FieldKind::Text => {
                let i = el("input").class("mj-input").attr("type", "text").attr("name", name).attr("spellcheck", "false");
                i.attr_if("value", opt_str(&value))
            },
        },
    }
}

/// One input control, from one property's schema: how it is edited is what the schema
/// says it is, never what the property is called.
pub fn field(name: &str, schema: &Json, required: bool, texts: &FieldTexts) -> (r: El)
    ensures
        r@ == field_model(name@, *schema, required, *texts),
{
    let (kind, enumeration) = schema_shape(schema);
    let mut id = String::from_str("mj-field-");
    push_str(&mut id, name);
    let mut c = control(name, schema, required, texts, kind, enumeration).attr("data-mj-type", kind.word());
    if required {
        c = c.flag("required").attr("aria-required", "true");
    }
    c = c.attr("id", id.as_str());
    let mark = if required {
        el("span").class("mj-required").text("required")
    } else {
        el("span").class("mj-optional").text("optional")
    };
    let label = el("label").class("mj-field-label").attr("for", id.as_str()).text(name).child(mark).child(
        el("span").class("mj-field-type").text(kind.word()),
    );
    let f = el("div").class("mj-field").child(label).child(c);
    let description: Option<&str> = match get(schema, "description") {
        Some(Json::Str(d)) => Some(d.as_str()),
        _ => None,
    };
    match description {
        Some(d) => {
            if d.unicode_len() == 0 {
                f.node(super::html::empty())
            } else {
                f.child(el("p").class("mj-field-help").text(d))
            }
        },
        None => f.node(super::html::empty()),
    }
}
} // verus!
