//! The shell every Cockpit page is rendered into, and the small vocabulary of components
//! the pages are built from.
//!
//! The pages carry no raw utility classes. Every class here is a semantic one, so the
//! design lives in stylesheets a designer can read and the code says what a thing *is*
//! rather than how it looks.

use vstd::prelude::*;

use crate::strings::{decimal, decimal_of, push_decimal, ascii_lower, chars_of, is_ascii_alnum, push_str, str_eq, string_of, to_ascii_lower};

pub use super::frame::{page, Shell, ThemeMarks};

use super::html::{bare, el, empty, with_attr, with_child, El, ElementModel, Node, NodeModel};

verus! {

/// Read the stored theme before the page paints: the one statement the design declaration
/// generates for every surface, so the site and the Cockpit honour one storage key and one
/// class. One statement, so that its digest is stable and the content-security policy can
/// name it. `compiled` is that statement, or `None` when the compiled declaration is
/// invalid: then no statement ships, and the page follows the system through the
/// stylesheet alone.
pub fn theme_bootstrap<'a>(compiled: Option<&'a str>) -> (r: &'a str)
    ensures
        r@ == match compiled {
            Some(s) => s@,
            None => ""@,
        },
{
    match compiled {
        Some(s) => s,
        None => "",
    }
}

// ------------------------------------------------------------------ css words

/// One character of a class-safe word.
pub open spec fn css_char(c: char) -> char {
    if is_ascii_alnum(c) {
        ascii_lower(c)
    } else {
        '-'
    }
}

/// A class-safe form of a status word: lowercase ASCII letters, digits and dashes, and
/// `unknown` for nothing at all.
pub open spec fn css_word_of(word: Seq<char>) -> Seq<char> {
    if word.len() == 0 {
        "unknown"@
    } else {
        word.map_values(|c: char| css_char(c))
    }
}

/// A class-safe form of a status word: lowercase ASCII letters, digits and dashes, so a
/// word from data can never build a class name that is not one.
pub fn css_word(word: &str) -> (r: String)
    ensures
        r@ == css_word_of(word@),
{
    let chars = chars_of(word);
    if chars.len() == 0 {
        return String::from_str("unknown");
    }
    let mut out: Vec<char> = Vec::new();
    let mut i: usize = 0;
    while i < chars.len()
        invariant
            chars@ == word@,
            i <= chars@.len(),
            out@ == chars@.subrange(0, i as int).map_values(|c: char| css_char(c)),
        decreases chars.len() - i,
    {
        let c = chars[i];
        let mapped = if ('a' <= c && c <= 'z') || ('A' <= c && c <= 'Z') || ('0' <= c && c
            <= '9') {
            to_ascii_lower(c)
        } else {
            '-'
        };
        out.push(mapped);
        assert(out@ =~= chars@.subrange(0, i + 1).map_values(|c: char| css_char(c)));
        i += 1;
    }
    assert(chars@.subrange(0, chars@.len() as int) =~= chars@);
    string_of(&out)
}

/// Two strings, one after the other.
fn joined(a: &str, b: &str) -> (r: String)
    ensures
        r@ == a@ + b@,
{
    let mut out = String::from_str(a);
    push_str(&mut out, b);
    out
}

// ------------------------------------------------------------------ components

/// The model of a link.
pub open spec fn link_model(href: Seq<char>, label: Seq<char>) -> ElementModel {
    with_child(
        with_attr(with_attr(bare("a"@), "class"@, "mj-link"@), "href"@, href),
        NodeModel::Text(label),
    )
}

/// A link.
pub fn link(href: &str, label: &str) -> (r: El)
    ensures
        r@ == link_model(href@, label@),
{
    el("a").class("mj-link").attr("href", href).text(label)
}

/// The model of a card.
pub open spec fn card_model(title: Seq<char>, body: ElementModel) -> ElementModel {
    with_child(
        with_child(
            with_attr(bare("section"@), "class"@, "mj-card"@),
            NodeModel::Element(
                with_child(
                    with_attr(bare("h2"@), "class"@, "mj-card-title"@),
                    NodeModel::Text(title),
                ),
            ),
        ),
        NodeModel::Element(body),
    )
}

/// A card: the Cockpit's one container.
pub fn card(title: &str, body: El) -> (r: El)
    ensures
        r@ == card_model(title@, body@),
{
    el("section").class("mj-card").child(el("h2").class("mj-card-title").text(title)).child(body)
}

/// The model of a card with something beside its title.
pub open spec fn card_with_model(
    title: Seq<char>,
    aside: ElementModel,
    body: ElementModel,
) -> ElementModel {
    with_child(
        with_child(
            with_attr(bare("section"@), "class"@, "mj-card"@),
            NodeModel::Element(
                with_child(
                    with_child(
                        with_attr(bare("div"@), "class"@, "mj-card-head"@),
                        NodeModel::Element(
                            with_child(
                                with_attr(bare("h2"@), "class"@, "mj-card-title"@),
                                NodeModel::Text(title),
                            ),
                        ),
                    ),
                    NodeModel::Element(aside),
                ),
            ),
        ),
        NodeModel::Element(body),
    )
}

/// A card with something in its header beside the title.
pub fn card_with(title: &str, aside: El, body: El) -> (r: El)
    ensures
        r@ == card_with_model(title@, aside@, body@),
{
    el("section").class("mj-card").child(
        el("div").class("mj-card-head").child(el("h2").class("mj-card-title").text(title)).child(
            aside,
        ),
    ).child(body)
}

/// The model of a definition list of facts, built up to some rows.
pub open spec fn facts_model(rows: Seq<(Seq<char>, NodeModel)>) -> ElementModel
    decreases rows.len(),
{
    if rows.len() == 0 {
        with_attr(bare("dl"@), "class"@, "mj-facts"@)
    } else {
        let (key, value) = rows.last();
        with_child(
            with_child(
                facts_model(rows.drop_last()),
                NodeModel::Element(
                    with_child(
                        with_attr(bare("dt"@), "class"@, "mj-facts-key"@),
                        NodeModel::Text(key),
                    ),
                ),
            ),
            NodeModel::Element(
                with_child(with_attr(bare("dd"@), "class"@, "mj-facts-value"@), value),
            ),
        )
    }
}

/// The models of the rows of a fact list.
pub open spec fn rows_model(rows: Seq<(&str, Node)>) -> Seq<(Seq<char>, NodeModel)> {
    rows.map_values(|r: (&str, Node)| (r.0@, r.1@))
}

/// A key and its value, for a definition list of facts.
pub fn facts(rows: Vec<(&str, Node)>) -> (r: El)
    ensures
        r@ == facts_model(rows_model(rows@)),
{
    let ghost all = rows@;
    let mut rest = rows;
    let mut list = el("dl").class("mj-facts");
    let mut k: usize = 0;
    assert(rows_model(all.subrange(0, 0)) =~= Seq::<(Seq<char>, NodeModel)>::empty());
    assert(all.len() == rest.len());
    while rest.len() > 0
        invariant
            k <= all.len(),
            k + rest@.len() == all.len(),
            all.len() <= usize::MAX,
            rest@ == all.subrange(k as int, all.len() as int),
            list@ == facts_model(rows_model(all.subrange(0, k as int))),
        decreases rest.len(),
    {
        let (key, value) = rest.remove(0);
        assert((key, value) == all[k as int]);
        proof {
            let m = rows_model(all.subrange(0, k + 1));
            assert(m.drop_last() =~= rows_model(all.subrange(0, k as int)));
            assert(m.last() == (key@, value@));
        }
        list = list.child(el("dt").class("mj-facts-key").text(key)).child(
            el("dd").class("mj-facts-value").node(value),
        );
        k += 1;
        assert(rest@ =~= all.subrange(k as int, all.len() as int));
    }
    assert(all.subrange(0, k as int) =~= all);
    list
}

/// The model of a table's header row.
pub open spec fn head_model(headers: Seq<Seq<char>>) -> ElementModel
    decreases headers.len(),
{
    if headers.len() == 0 {
        bare("tr"@)
    } else {
        with_child(
            head_model(headers.drop_last()),
            NodeModel::Element(
                with_child(with_attr(bare("th"@), "scope"@, "col"@), NodeModel::Text(headers.last())),
            ),
        )
    }
}

/// The model of a table.
pub open spec fn table_model(headers: Seq<Seq<char>>, rows: Seq<NodeModel>) -> ElementModel {
    with_child(
        with_attr(with_attr(bare("div"@), "class"@, "mj-table-wrap"@), "tabindex"@, "0"@),
        NodeModel::Element(
            with_child(
                with_child(
                    with_attr(bare("table"@), "class"@, "mj-table"@),
                    NodeModel::Element(
                        with_child(bare("thead"@), NodeModel::Element(head_model(headers))),
                    ),
                ),
                NodeModel::Element(
                    ElementModel { children: rows, ..bare("tbody"@) },
                ),
            ),
        ),
    )
}

/// The headers of a table as text.
pub open spec fn strs_model(s: Seq<&str>) -> Seq<Seq<char>> {
    s.map_values(|h: &str| h@)
}

/// A table with a header row.
pub fn table(headers: &[&str], rows: Vec<El>) -> (r: El)
    ensures
        r@ == table_model(strs_model(headers@), super::html::els_model(rows@)),
{
    let mut head = el("tr");
    let mut i: usize = 0;
    assert(strs_model(headers@.subrange(0, 0)) =~= Seq::<Seq<char>>::empty());
    while i < headers.len()
        invariant
            i <= headers@.len(),
            head@ == head_model(strs_model(headers@.subrange(0, i as int))),
        decreases headers.len() - i,
    {
        proof {
            let m = strs_model(headers@.subrange(0, i + 1));
            assert(m.drop_last() =~= strs_model(headers@.subrange(0, i as int)));
        }
        head = head.child(el("th").attr("scope", "col").text(headers[i]));
        i += 1;
    }
    assert(headers@.subrange(0, headers@.len() as int) =~= headers@);
    let body = el("tbody").children(rows);
    assert(body@ =~= (ElementModel { children: super::html::els_model(rows@), ..bare("tbody"@) }));
    el("div").class("mj-table-wrap").attr("tabindex", "0").child(
        el("table").class("mj-table").child(el("thead").child(head)).child(body),
    )
}

/// A row of cells.
pub fn row(cells: Vec<El>) -> (r: El)
    ensures
        r@ == (ElementModel { children: super::html::els_model(cells@), ..bare("tr"@) }),
{
    let r = el("tr").children(cells);
    assert(r@ =~= (ElementModel { children: super::html::els_model(cells@), ..bare("tr"@) }));
    r
}

/// A cell.
pub fn cell(content: El) -> (r: El)
    ensures
        r@ == with_child(bare("td"@), NodeModel::Element(content@)),
{
    el("td").child(content)
}

/// A cell of plain text.
pub fn text_cell(value: &str) -> (r: El)
    ensures
        r@ == with_child(bare("td"@), NodeModel::Text(value@)),
{
    el("td").text(value)
}

/// The model of a badge.
pub open spec fn badge_model(status: Seq<char>, label: Seq<char>) -> ElementModel {
    with_child(
        with_child(
            with_attr(bare("span"@), "class"@, "mj-badge mj-badge--"@ + css_word_of(status)),
            NodeModel::Element(
                with_attr(with_attr(bare("span"@), "class"@, "mj-badge-dot"@), "aria-hidden"@, "true"@),
            ),
        ),
        NodeModel::Text(label),
    )
}

/// A badge whose modifier is a status word the backend produced. The word is shown as
/// well as coloured, so the state is never carried by colour alone.
pub fn badge(status: &str, label: &str) -> (r: El)
    ensures
        r@ == badge_model(status@, label@),
{
    let word = css_word(status);
    let class = joined("mj-badge mj-badge--", word.as_str());
    el("span").class(class.as_str()).child(
        el("span").class("mj-badge-dot").attr("aria-hidden", "true"),
    ).text(label)
}

/// The word for a capability kind, as a badge coloured by that word.
pub fn kind_badge(kind: &str) -> (r: El)
    ensures
        r@ == badge_model(kind@, kind@),
{
    badge(kind, kind)
}

/// The model of a neutral badge.
pub open spec fn tag_model(label: Seq<char>) -> ElementModel {
    with_child(with_attr(bare("span"@), "class"@, "mj-tag"@), NodeModel::Text(label))
}

/// A badge for a status word that arrived as data. Filed under a status by the design
/// declaration, it is a badge and carries that status's colour; filed under nothing, it is
/// a plain tag, so an arbitrary word never wears a meaning nobody gave it. `filed` is the
/// design declaration's answer for this word.
pub fn word_badge(word: &str, filed: bool) -> (r: El)
    ensures
        r@ == if filed {
            badge_model(word@, word@)
        } else {
            tag_model(word@)
        },
{
    if filed {
        badge(word, word)
    } else {
        tag(word)
    }
}

/// A neutral badge.
pub fn tag(label: &str) -> (r: El)
    ensures
        r@ == tag_model(label@),
{
    el("span").class("mj-tag").text(label)
}

/// Monospaced inline text: an id, a path, a route.
pub fn mono(value: &str) -> (r: El)
    ensures
        r@ == with_child(with_attr(bare("code"@), "class"@, "mj-mono"@), NodeModel::Text(value@)),
{
    el("code").class("mj-mono").text(value)
}

/// The model of a block of repository text.
pub open spec fn pre_model(value: Seq<char>) -> ElementModel {
    with_child(
        with_attr(with_attr(bare("pre"@), "class"@, "mj-pre"@), "tabindex"@, "0"@),
        NodeModel::Element(with_child(bare("code"@), NodeModel::Text(value))),
    )
}

/// A block of text the repository holds, shown as it is. Escaped by the builder; nothing
/// in it is ever interpreted as markup. It scrolls, so it is in the tab order.
pub fn pre(value: &str) -> (r: El)
    ensures
        r@ == pre_model(value@),
{
    el("pre").class("mj-pre").attr("tabindex", "0").child(el("code").text(value))
}

/// The model of an alert.
pub open spec fn alert_model(level: Seq<char>, message: Seq<char>) -> ElementModel {
    with_child(
        with_attr(
            with_attr(bare("div"@), "class"@, "mj-alert mj-alert--"@ + css_word_of(level)),
            "role"@,
            if level == "fail"@ {
                "alert"@
            } else {
                "status"@
            },
        ),
        NodeModel::Text(message),
    )
}

/// An alert: `ok`, `warn`, `fail`, `info`.
pub fn alert(level: &str, message: &str) -> (r: El)
    ensures
        r@ == alert_model(level@, message@),
{
    let word = css_word(level);
    let class = joined("mj-alert mj-alert--", word.as_str());
    let role = if str_eq(level, "fail") {
        "alert"
    } else {
        "status"
    };
    el("div").class(class.as_str()).attr("role", role).text(message)
}

/// The model of a statistic.
pub open spec fn statistic_model(
    value: Seq<char>,
    label: Seq<char>,
    source: Seq<char>,
) -> ElementModel {
    with_child(
        with_child(
            with_child(
                with_attr(bare("div"@), "class"@, "mj-stat"@),
                NodeModel::Element(
                    with_child(with_attr(bare("span"@), "class"@, "mj-stat-value"@), NodeModel::Text(value)),
                ),
            ),
            NodeModel::Element(
                with_child(with_attr(bare("span"@), "class"@, "mj-stat-label"@), NodeModel::Text(label)),
            ),
        ),
        NodeModel::Element(
            with_child(with_attr(bare("span"@), "class"@, "mj-stat-source"@), NodeModel::Text(source)),
        ),
    )
}

/// A statistic with its provenance: the number, what it counts, and what produced it.
/// A figure without the third is a vanity metric, so the parameter is not optional.
pub fn statistic(value: &str, label: &str, source: &str) -> (r: El)
    ensures
        r@ == statistic_model(value@, label@, source@),
{
    el("div").class("mj-stat").child(el("span").class("mj-stat-value").text(value)).child(
        el("span").class("mj-stat-label").text(label),
    ).child(el("span").class("mj-stat-source").text(source))
}

/// The model of a closed `<details>` block.
pub open spec fn details_model(summary: Seq<char>, body: ElementModel) -> ElementModel {
    with_child(
        with_child(
            with_attr(bare("details"@), "class"@, "mj-details"@),
            NodeModel::Element(
                with_child(with_attr(bare("summary"@), "class"@, "mj-summary"@), NodeModel::Text(summary)),
            ),
        ),
        NodeModel::Element(body),
    )
}

/// A `<details>` block, closed by default.
pub fn details(summary: &str, body: El) -> (r: El)
    ensures
        r@ == details_model(summary@, body@),
{
    el("details").class("mj-details").child(el("summary").class("mj-summary").text(summary)).child(
        body,
    )
}

/// An empty state: what was looked for and what to try instead.
pub fn nothing(message: &str) -> (r: El)
    ensures
        r@ == with_child(with_attr(bare("p"@), "class"@, "mj-empty"@), NodeModel::Text(message@)),
{
    el("p").class("mj-empty").text(message)
}

// ------------------------------------------------------------------- listings

/// How many rows a listing shows at once before it is paged.
pub const PER_PAGE: usize = 50;

/// How many pages a result set of `total` rows has at `per_page` rows a page: never zero,
/// because an empty listing still has a page to show its empty state on.
pub open spec fn pages_of(total: int, per_page: int) -> int {
    let q = if total % per_page == 0 {
        total / per_page
    } else {
        total / per_page + 1
    };
    if q < 1 {
        1
    } else {
        q
    }
}

/// The window a listing is showing of its result set. The page number is a view parameter
/// and lives in the URL, so a window is a deep link like every other state.
#[derive(Debug, Clone, Copy, PartialEq, Eq, Structural)]
pub struct Window {
    /// The page being shown, 1-based and never past the last one.
    pub page: usize,
    /// How many rows a page holds.
    pub per_page: usize,
    /// How many rows matched, before the window was taken.
    pub total: usize,
}

impl Window {
    /// The window a request asks for, clamped to what the result set has: page 0 and page
    /// 900 of a 3-page listing are both a page that exists.
    pub fn new(page: usize, per_page: usize, total: usize) -> (r: Self)
        ensures
            r.per_page == if per_page == 0 {
                1
            } else {
                per_page
            },
            r.total == total,
            r.page == if page < 1 {
                1
            } else if page > pages_of(total as int, r.per_page as int) {
                pages_of(total as int, r.per_page as int)
            } else {
                page as int
            },
    {
        let per_page = if per_page == 0 {
            1
        } else {
            per_page
        };
        let pages = pages(total, per_page);
        let page = if page < 1 {
            1
        } else if page > pages {
            pages
        } else {
            page
        };
        Window { page, per_page, total }
    }

    /// How many pages the result set has; never zero.
    pub fn pages(&self) -> (r: usize)
        requires
            self.per_page > 0,
        ensures
            r == pages_of(self.total as int, self.per_page as int),
    {
        pages(self.total, self.per_page)
    }

    /// The half-open range of rows this window covers, for slicing the matches.
    pub fn range(&self) -> (r: std::ops::Range<usize>)
        requires
            self.page >= 1,
            self.page * self.per_page <= usize::MAX,
        ensures
            r.start == window_start(self.page as int, self.per_page as int),
            r.end == window_end(self.page as int, self.per_page as int, self.total as int),
    {
        proof {
            lemma_window_arith(self.page as int, self.per_page as int);
        }
        let start = (self.page - 1) * self.per_page;
        let end = if start + self.per_page < self.total {
            start + self.per_page
        } else {
            self.total
        };
        start..end
    }
}

/// Where the window of a page begins.
pub open spec fn window_start(page: int, per_page: int) -> int {
    (page - 1) * per_page
}

/// Where the window of a page ends: a page further on, or the end of the result set.
pub open spec fn window_end(page: int, per_page: int, total: int) -> int {
    if window_start(page, per_page) + per_page < total {
        window_start(page, per_page) + per_page
    } else {
        total
    }
}

proof fn lemma_pages_cover(total: int, per_page: int)
    requires
        per_page >= 1,
        total >= 0,
    ensures
        pages_of(total, per_page) >= 1,
        pages_of(total, per_page) * per_page >= total,
        total > 0 ==> (pages_of(total, per_page) - 1) * per_page < total,
{
    let q = total / per_page;
    let r = total % per_page;
    vstd::arithmetic::div_mod::lemma_fundamental_div_mod(total, per_page);
    assert(0 <= r < per_page);
    assert(q >= 0) by (nonlinear_arith)
        requires
            total >= 0,
            per_page >= 1,
            q == total / per_page,
    ;
    assert(q * per_page == per_page * q) by (nonlinear_arith);
    assert((q + 1) * per_page == q * per_page + per_page) by (nonlinear_arith);
    assert((q - 1) * per_page == q * per_page - per_page) by (nonlinear_arith);
    assert(q * per_page >= 0) by (nonlinear_arith)
        requires
            q >= 0,
            per_page >= 1,
    ;
    assert(q == 0 ==> q * per_page == 0) by (nonlinear_arith);
}

/// The windows of a listing partition its result set: the first begins at the first row,
/// each ends where the next begins, the last ends at the last row, none holds more than a
/// page, and none of a listing that has rows is empty.
pub proof fn law_the_windows_of_a_listing_partition_it(per_page: int, total: int)
    requires
        per_page >= 1,
        total >= 0,
    ensures
        pages_of(total, per_page) >= 1,
        window_start(1, per_page) == 0,
        forall|p: int|
            1 <= p < pages_of(total, per_page) ==> #[trigger] window_end(p, per_page, total) == window_start(p + 1, per_page),
        window_end(pages_of(total, per_page), per_page, total) == total,
        forall|p: int|
            1 <= p <= pages_of(total, per_page) ==> {
                &&& 0 <= #[trigger] window_end(p, per_page, total) - window_start(p, per_page) <= per_page
                &&& (total > 0 ==> window_start(p, per_page) < window_end(p, per_page, total))
            },
{
    let pages = pages_of(total, per_page);
    lemma_pages_cover(total, per_page);
    assert(window_start(1, per_page) == 0) by (nonlinear_arith);
    assert forall|p: int| 1 <= p <= pages implies {
        &&& window_start(p, per_page) + per_page == p * per_page
        &&& 0 <= window_start(p, per_page)
        &&& window_start(p, per_page) <= (pages - 1) * per_page
        &&& (p < pages ==> p * per_page <= (pages - 1) * per_page)
    } by {
        lemma_window_arith(p, per_page);
        assert((p - 1) * per_page <= (pages - 1) * per_page) by (nonlinear_arith)
            requires
                p <= pages,
                per_page >= 1,
        ;
        assert(p < pages ==> p * per_page <= (pages - 1) * per_page) by (nonlinear_arith)
            requires
                per_page >= 1,
        ;
    }
    assert forall|p: int| 1 <= p < pages implies #[trigger] window_end(p, per_page, total) == window_start(p + 1, per_page) by {
        lemma_window_arith(p + 1, per_page);
        if total == 0 {
            assert(pages == 1);
        }
    }
    lemma_window_arith(pages, per_page);
    assert forall|p: int| 1 <= p <= pages implies {
        &&& 0 <= #[trigger] window_end(p, per_page, total) - window_start(p, per_page) <= per_page
        &&& (total > 0 ==> window_start(p, per_page) < window_end(p, per_page, total))
    } by {
        lemma_window_arith(p, per_page);
        if total == 0 {
            assert(pages == 1);
        }
    }
}

proof fn lemma_window_arith(page: int, per_page: int)
    by (nonlinear_arith)
    requires
        page >= 1,
        per_page >= 0,
    ensures
        (page - 1) * per_page + per_page == page * per_page,
        0 <= (page - 1) * per_page,
{
}

/// The number of pages of a result set.
fn pages(total: usize, per_page: usize) -> (r: usize)
    requires
        per_page > 0,
    ensures
        r == pages_of(total as int, per_page as int),
        r >= 1,
{
    assert(total % per_page != 0 ==> total / per_page < usize::MAX) by (nonlinear_arith)
        requires
            per_page > 0,
            total <= usize::MAX,
    {
        if per_page == 1 {
            assert(total % per_page == 0);
        } else {
            assert(total / per_page <= total / 2);
        }
    }
    let q = if total % per_page == 0 {
        total / per_page
    } else {
        total / per_page + 1
    };
    if q < 1 {
        1
    } else {
        q
    }
}

/// A window made by [`Window::new`] shows only rows that exist: its range starts inside
/// the result set (or at zero for an empty one) and ends at or before its last row.
pub proof fn law_window_range_is_inside_the_result_set(page: usize, per_page: usize, total: usize)
    requires
        per_page >= 1,
        1 <= page <= pages_of(total as int, per_page as int),
    ensures
        (page - 1) * per_page <= total,
        total > 0 ==> (page - 1) * per_page < total,
{
    let q = total as int / per_page as int;
    let r = total as int % per_page as int;
    assert(total as int == q * per_page + r && 0 <= r < per_page) by (nonlinear_arith)
        requires
            per_page >= 1,
            q == total as int / per_page as int,
            r == total as int % per_page as int,
    ;
    if total == 0 {
        assert(q == 0 && r == 0) by (nonlinear_arith)
            requires
                total as int == q * per_page + r,
                0 <= r < per_page,
                total == 0,
                per_page >= 1,
                q >= 0,
        ;
        assert(page == 1);
    } else {
        assert(r == 0 ==> q >= 1) by (nonlinear_arith)
            requires
                total as int == q * per_page + r,
                total > 0,
                per_page >= 1,
                q >= 0,
        ;
        assert((page - 1) * per_page < total) by (nonlinear_arith)
            requires
                total as int == q * per_page + r,
                0 <= r < per_page,
                per_page >= 1,
                q >= 0,
                1 <= page,
                r == 0 ==> page <= q,
                r != 0 ==> page <= q + 1,
                total > 0,
        ;
    }
}

/// The pages a pagination control names: the first, the neighbours of the current one
/// that lie strictly between the first and the last, and the last.
pub open spec fn wanted_pages(current: int, pages: int) -> Seq<usize> {
    let lo = if current - 1 < 2 {
        2
    } else {
        current - 1
    };
    let hi = if current + 1 < pages - 1 {
        current + 1
    } else {
        pages - 1
    };
    let middle = Seq::new(
        if hi >= lo {
            (hi - lo + 1) as nat
        } else {
            0
        },
        |i: int| (lo + i) as usize,
    );
    seq![1usize] + middle + if pages > 1 {
        seq![pages as usize]
    } else {
        Seq::<usize>::empty()
    }
}

/// Page numbers with a gap marker wherever one or more pages are skipped.
pub open spec fn with_gaps(w: Seq<usize>) -> Seq<Option<usize>>
    decreases w.len(),
{
    if w.len() == 0 {
        seq![]
    } else if w.len() > 1 && w.last() > w[w.len() - 2] + 1 {
        with_gaps(w.drop_last()).push(None).push(Some(w.last()))
    } else {
        with_gaps(w.drop_last()).push(Some(w.last()))
    }
}

/// The pages wanted, as a vector.
fn wanted_vec(current: usize, pages: usize) -> (r: Vec<usize>)
    requires
        pages >= 1,
        current < usize::MAX,
    ensures
        r@ == wanted_pages(current as int, pages as int),
{
    let ghost want = wanted_pages(current as int, pages as int);
    let lo: usize = if current < 3 {
        2
    } else {
        current - 1
    };
    let hi: usize = if current + 1 < pages - 1 {
        current + 1
    } else {
        pages - 1
    };
    let mut wanted: Vec<usize> = Vec::new();
    wanted.push(1);
    let mut n = lo;
    while n <= hi
        invariant
            lo <= n,
            hi < usize::MAX,
            n <= hi + 1 || n == lo,
            wanted@.len() == 1 + (n - lo),
            wanted@[0] == 1,
            forall|i: int| 1 <= i < wanted@.len() ==> wanted@[i] == lo + (i - 1),
        decreases hi + 1 - n,
    {
        wanted.push(n);
        n += 1;
    }
    let ghost middle = wanted@;
    if pages > 1 {
        wanted.push(pages);
    }
    proof {
        let middle_len: int = if hi >= lo {
            hi - lo + 1
        } else {
            0
        };
        assert(middle.len() == 1 + middle_len);
        let m = Seq::new(middle_len as nat, |i: int| (lo + i) as usize);
        assert(middle =~= seq![1usize] + m);
        if pages > 1 {
            assert(wanted@ =~= seq![1usize] + m + seq![pages as usize]);
        } else {
            assert(wanted@ =~= seq![1usize] + m + Seq::<usize>::empty());
        }
    }
    wanted
}

/// Page numbers with a marker wherever a page is skipped.
fn gaps_of(wanted: &Vec<usize>) -> (r: Vec<Option<usize>>)
    ensures
        r@ == with_gaps(wanted@),
{
    let mut out: Vec<Option<usize>> = Vec::new();
    let mut i: usize = 0;
    assert(wanted@.subrange(0, 0) =~= Seq::<usize>::empty());
    while i < wanted.len()
        invariant
            i <= wanted@.len(),
            out@ == with_gaps(wanted@.subrange(0, i as int)),
        decreases wanted.len() - i,
    {
        let n = wanted[i];
        let ghost sub = wanted@.subrange(0, i + 1);
        assert(sub.drop_last() =~= wanted@.subrange(0, i as int));
        if i > 0 && n > wanted[i - 1] && n - wanted[i - 1] > 1 {
            out.push(None);
        }
        out.push(Some(n));
        i += 1;
    }
    assert(wanted@.subrange(0, wanted.len() as int) =~= wanted@);
    out
}

/// The page numbers a pagination control offers: the first, the last, the neighbours of
/// the current one, and a gap marker for what is skipped. Nine hundred pages must not
/// render nine hundred links.
pub fn page_numbers(current: usize, pages: usize) -> (r: Vec<Option<usize>>)
    requires
        pages >= 1,
        current < usize::MAX,
    ensures
        r@ == with_gaps(wanted_pages(current as int, pages as int)),
{
    let wanted = wanted_vec(current, pages);
    gaps_of(&wanted)
}

/// The text of a page link as some closure renders it.
pub open spec fn href_text<F: Fn(usize) -> String>(href: F, n: usize) -> Seq<char> {
    (choose|s: String| href.ensures((n,), s))@
}

/// The model of a pagination step, "Previous" or "Next".
pub open spec fn step_model(label: Seq<char>, to: Option<usize>, page: usize, href: Seq<char>) -> ElementModel {
    with_child(
        bare("li"@),
        NodeModel::Element(
            match to {
                Some(n) => with_child(
                    with_attr(
                        with_attr(with_attr(bare("a"@), "class"@, "mj-page-link"@), "href"@, href),
                        "rel"@,
                        if n < page {
                            "prev"@
                        } else {
                            "next"@
                        },
                    ),
                    NodeModel::Text(label),
                ),
                None => with_child(
                    with_attr(
                        with_attr(bare("span"@), "class"@, "mj-page-link mj-page-link--disabled"@),
                        "aria-disabled"@,
                        "true"@,
                    ),
                    NodeModel::Text(label),
                ),
            },
        ),
    )
}

/// The model of one slot of the page list.
pub open spec fn slot_model(slot: Option<usize>, page: usize, href: Seq<char>) -> ElementModel {
    with_child(
        bare("li"@),
        NodeModel::Element(
            match slot {
                Some(n) => if n == page {
                    with_child(
                        with_attr(
                            with_attr(bare("span"@), "class"@, "mj-page-link mj-page-link--current"@),
                            "aria-current"@,
                            "page"@,
                        ),
                        NodeModel::Text(decimal_of(n as nat)),
                    )
                } else {
                    with_child(
                        with_attr(
                            with_attr(with_attr(bare("a"@), "class"@, "mj-page-link"@), "href"@, href),
                            "aria-label"@,
                            "Page "@ + decimal_of(n as nat),
                        ),
                        NodeModel::Text(decimal_of(n as nat)),
                    )
                },
                None => with_child(
                    with_attr(with_attr(bare("span"@), "class"@, "mj-page-gap"@), "aria-hidden"@, "true"@),
                    NodeModel::Text("…"@),
                ),
            },
        ),
    )
}

/// The model of the page list, up to some slots, with the address of each page.
pub open spec fn slots_model(
    list: ElementModel,
    slots: Seq<Option<usize>>,
    page: usize,
    links: spec_fn(usize) -> Seq<char>,
) -> ElementModel
    decreases slots.len(),
{
    if slots.len() == 0 {
        list
    } else {
        let slot = slots.last();
        with_child(
            slots_model(list, slots.drop_last(), page, links),
            NodeModel::Element(
                slot_model(
                    slot,
                    page,
                    match slot {
                        Some(n) => links(n),
                        None => seq![],
                    },
                ),
            ),
        )
    }
}

/// The model of the summary line of a listing.
pub open spec fn summary_model(w: Window) -> ElementModel {
    let start = (w.page - 1) * w.per_page;
    let end = if start + w.per_page < w.total {
        start + w.per_page
    } else {
        w.total as int
    };
    with_child(
        with_attr(bare("p"@), "class"@, "mj-pagination-summary"@),
        NodeModel::Text(
            decimal_of((start + 1) as nat) + "–"@ + decimal_of(end as nat) + " of "@ + decimal_of(
                w.total as nat,
            ),
        ),
    )
}

/// The model of a pagination control, with the address of each page.
pub open spec fn pagination_of(w: Window, links: spec_fn(usize) -> Seq<char>) -> ElementModel {
    let pages = pages_of(w.total as int, w.per_page as int);
    let prev = if w.page > 1 {
        Some((w.page - 1) as usize)
    } else {
        None
    };
    let next = if w.page < pages {
        Some((w.page + 1) as usize)
    } else {
        None
    };
    if w.total == 0 {
        with_attr(bare("div"@), "class"@, "mj-hidden"@)
    } else if pages == 1 {
        with_child(
            with_attr(bare("nav"@), "class"@, "mj-pagination"@),
            NodeModel::Element(summary_model(w)),
        )
    } else {
        let first = with_child(
            with_attr(bare("ul"@), "class"@, "mj-pagination-list"@),
            NodeModel::Element(
                step_model(
                    "Previous"@,
                    prev,
                    w.page,
                    match prev {
                        Some(n) => links(n),
                        None => seq![],
                    },
                ),
            ),
        );
        let slots = slots_model(
            first,
            with_gaps(wanted_pages(w.page as int, pages)),
            w.page,
            links,
        );
        let list = with_child(
            slots,
            NodeModel::Element(
                step_model(
                    "Next"@,
                    next,
                    w.page,
                    match next {
                        Some(n) => links(n),
                        None => seq![],
                    },
                ),
            ),
        );
        with_child(
            with_child(
                with_attr(
                    with_attr(bare("nav"@), "class"@, "mj-pagination"@),
                    "aria-label"@,
                    "Pagination"@,
                ),
                NodeModel::Element(summary_model(w)),
            ),
            NodeModel::Element(list),
        )
    }
}

/// The model of a pagination control whose addresses a closure renders.
pub open spec fn pagination_model<F: Fn(usize) -> String>(w: Window, href: F) -> ElementModel {
    pagination_of(w, |n: usize| href_text(href, n))
}

/// Does a link closure answer page `n`, the same way each time?
pub open spec fn answers_page<F: Fn(usize) -> String>(href: F, n: usize) -> bool {
    &&& href.requires((n,))
    &&& forall|a: String, b: String| href.ensures((n,), a) && href.ensures((n,), b) ==> a@ == b@
}

/// The pages a pagination control over a window may link: those that exist, and the one
/// before the window's.
pub open spec fn linked_page(w: Window, n: usize) -> bool {
    1 <= n && (n <= pages_of(w.total as int, w.per_page as int) || n + 1 == w.page)
}

/// Does a link closure answer every page a control over the window may link?
pub open spec fn answers_window<F: Fn(usize) -> String>(href: F, w: Window) -> bool {
    forall|n: usize| linked_page(w, n) ==> #[trigger] answers_page(href, n)
}

proof fn lemma_gaps_from(ws: Seq<usize>, k: int)
    requires
        0 <= k < with_gaps(ws).len(),
        with_gaps(ws)[k] is Some,
    ensures
        ws.contains(with_gaps(ws)[k]->0),
    decreases ws.len(),
{
    if ws.len() > 0 {
        let g = with_gaps(ws.drop_last());
        if k < g.len() {
            if ws.len() > 1 && ws.last() > ws[ws.len() - 2] + 1 {
                assert(with_gaps(ws)[k] == g[k]);
            } else {
                assert(with_gaps(ws)[k] == g[k]);
            }
            lemma_gaps_from(ws.drop_last(), k);
            let x = with_gaps(ws)[k]->0;
            let j = choose|j: int| 0 <= j < ws.drop_last().len() && ws.drop_last()[j] == x;
            assert(ws[j] == x);
        } else {
            assert(with_gaps(ws)[k] == Some(ws.last()));
            assert(ws[ws.len() - 1] == ws.last());
        }
    }
}

proof fn lemma_wanted_exist(current: int, pages: int, x: usize)
    requires
        1 <= pages <= usize::MAX,
        wanted_pages(current, pages).contains(x),
    ensures
        1 <= x <= pages,
{
    let ws = wanted_pages(current, pages);
    let j = choose|j: int| 0 <= j < ws.len() && ws[j] == x;
    let lo = if current - 1 < 2 { 2 } else { current - 1 };
    let hi = if current + 1 < pages - 1 { current + 1 } else { pages - 1 };
    let m = if hi >= lo { (hi - lo + 1) as nat } else { 0 };
    let middle = Seq::new(m, |i: int| (lo + i) as usize);
    assert(ws == seq![1usize] + middle + if pages > 1 { seq![pages as usize] } else { Seq::<usize>::empty() });
    if j == 0 {
        assert(ws[j] == 1);
    } else if j < 1 + m {
        assert(ws[j] == middle[j - 1]);
        assert(2 <= lo + (j - 1) <= pages - 1);
    } else {
        assert(ws[j] == pages as usize);
    }
}

/// Where each page of a listing is: the address of page `n`, as the contracts see it and
/// as the code writes it.
pub trait PageLinks {
    /// The address of page `n`.
    spec fn link(&self, n: usize) -> Seq<char>;

    /// Whether the address of page `n` can be written.
    spec fn answers(&self, n: usize) -> bool;

    /// Write the address of page `n`.
    fn href(&self, n: usize) -> (r: String)
        requires
            self.answers(n),
        ensures
            r@ == self.link(n),
    ;
}

/// Page addresses a closure writes.
pub struct ClosureLinks<F: Fn(usize) -> String> {
    /// The closure.
    pub f: F,
}

impl<F: Fn(usize) -> String> PageLinks for ClosureLinks<F> {
    open spec fn link(&self, n: usize) -> Seq<char> {
        href_text(self.f, n)
    }

    open spec fn answers(&self, n: usize) -> bool {
        answers_page(self.f, n)
    }

    fn href(&self, n: usize) -> (r: String) {
        let s = (self.f)(n);
        assert(self.f.ensures((n,), s));
        s
    }
}

fn step<H: PageLinks>(label: &str, to: Option<usize>, page: usize, links: &H) -> (r: El)
    requires
        to matches Some(n) ==> links.answers(n),
    ensures
        r@ == step_model(
            label@,
            to,
            page,
            match to {
                Some(n) => links.link(n),
                None => seq![],
            },
        ),
{
    let li = el("li");
    match to {
        Some(n) => {
            let target = links.href(n);
            li.child(
                el("a").class("mj-page-link").attr("href", target.as_str()).attr(
                    "rel",
                    if n < page {
                        "prev"
                    } else {
                        "next"
                    },
                ).text(label),
            )
        },
        None => li.child(
            el("span").class("mj-page-link mj-page-link--disabled").attr("aria-disabled", "true").text(
                label,
            ),
        ),
    }
}

fn slot<H: PageLinks>(s: Option<usize>, page: usize, links: &H) -> (r: El)
    requires
        s matches Some(n) ==> (n != page ==> links.answers(n)),
    ensures
        r@ == slot_model(
            s,
            page,
            match s {
                Some(n) => links.link(n),
                None => seq![],
            },
        ),
{
    match s {
        Some(n) => if n == page {
            let number = decimal(n);
            el("li").child(
                el("span").class("mj-page-link mj-page-link--current").attr(
                    "aria-current",
                    "page",
                ).text(number.as_str()),
            )
        } else {
            let number = decimal(n);
            let target = links.href(n);
            let mut label = String::from_str("Page ");
            push_decimal(&mut label, n);
            el("li").child(
                el("a").class("mj-page-link").attr("href", target.as_str()).attr(
                    "aria-label",
                    label.as_str(),
                ).text(number.as_str()),
            )
        },
        None => el("li").child(
            el("span").class("mj-page-gap").attr("aria-hidden", "true").text("…"),
        ),
    }
}

/// Pagination over a listing whose page addresses some links write.
pub fn paginate<H: PageLinks>(w: Window, links: &H) -> (r: El)
    requires
        w.per_page > 0,
        w.page >= 1,
        w.page < usize::MAX,
        w.page * w.per_page <= usize::MAX,
        forall|n: usize| linked_page(w, n) ==> #[trigger] links.answers(n),
    ensures
        r@ == pagination_of(w, |n: usize| links.link(n)),
{
    if w.total == 0 {
        return el("div").class("mj-hidden");
    }
    proof {
        lemma_window_arith(w.page as int, w.per_page as int);
    }
    let range = w.range();
    let mut text = String::new();
    push_decimal(&mut text, range.start + 1);
    push_str(&mut text, "–");
    push_decimal(&mut text, range.end);
    push_str(&mut text, " of ");
    push_decimal(&mut text, w.total);
    let summary = el("p").class("mj-pagination-summary").text(text.as_str());
    assert(summary@ == summary_model(w));
    let pages = w.pages();
    if pages == 1 {
        return el("nav").class("mj-pagination").child(summary);
    }
    let previous = if w.page > 1 {
        Some(w.page - 1)
    } else {
        None
    };
    let mut list = el("ul").class("mj-pagination-list").child(step("Previous", previous, w.page, links));
    let ghost first = list@;
    let numbers = page_numbers(w.page, pages);
    let mut i: usize = 0;
    assert(numbers@.subrange(0, 0) =~= Seq::<Option<usize>>::empty());
    proof {
        assert forall|k: int| 0 <= k < numbers@.len() && #[trigger] numbers@[k] is Some implies linked_page(w, numbers@[k]->0) by {
            lemma_gaps_from(wanted_pages(w.page as int, pages as int), k);
            lemma_wanted_exist(w.page as int, pages as int, numbers@[k]->0);
        }
    }
    while i < numbers.len()
        invariant
            forall|n: usize| linked_page(w, n) ==> #[trigger] links.answers(n),
            forall|k: int| 0 <= k < numbers@.len() && #[trigger] numbers@[k] is Some ==> linked_page(w, numbers@[k]->0),
            i <= numbers@.len(),
            list@ == slots_model(first, numbers@.subrange(0, i as int), w.page, |n: usize| links.link(n)),
        decreases numbers.len() - i,
    {
        assert(numbers@.subrange(0, i + 1).drop_last() =~= numbers@.subrange(0, i as int));
        proof {
            if numbers@[i as int] is Some {
                assert(linked_page(w, numbers@[i as int]->0));
            }
        }
        list = list.child(slot(numbers[i], w.page, links));
        i += 1;
    }
    assert(numbers@.subrange(0, numbers@.len() as int) =~= numbers@);
    let next = if w.page < pages {
        Some(w.page + 1)
    } else {
        None
    };
    list = list.child(step("Next", next, w.page, links));
    el("nav").class("mj-pagination").attr("aria-label", "Pagination").child(summary).child(list)
}

/// Pagination over a listing: what is being shown, and the way to the rest of it.
///
/// `href` builds the URL of one page — the caller owns the listing's filters and puts
/// them back into every link, so paging never drops a filter.
pub fn pagination<F: Fn(usize) -> String>(w: Window, href: F) -> (r: El)
    requires
        w.per_page > 0,
        w.page >= 1,
        w.page < usize::MAX,
        w.page * w.per_page <= usize::MAX,
        answers_window(href, w),
    ensures
        r@ == pagination_model(w, href),
{
    let links = ClosureLinks { f: href };
    assert forall|n: usize| linked_page(w, n) implies #[trigger] links.answers(n) by {
        assert(answers_page(href, n));
    }
    let r = paginate(w, &links);
    assert((|n: usize| links.link(n)) =~= (|n: usize| href_text(href, n)));
    r
}

/// The model of a row of filter chips, up to some items.
pub open spec fn chips_model(items: Seq<(Seq<char>, Seq<char>, usize, bool)>) -> ElementModel
    decreases items.len(),
{
    if items.len() == 0 {
        with_attr(bare("ul"@), "class"@, "mj-chips"@)
    } else {
        let (label, href, count, current) = items.last();
        let a = with_attr(
            with_attr(
                bare("a"@),
                "class"@,
                if current {
                    "mj-chip mj-chip--current"@
                } else {
                    "mj-chip"@
                },
            ),
            "href"@,
            href,
        );
        let a = if current {
            with_attr(a, "aria-current"@, "true"@)
        } else {
            a
        };
        let a = with_child(
            with_child(
                a,
                NodeModel::Element(
                    with_child(with_attr(bare("span"@), "class"@, "mj-chip-label"@), NodeModel::Text(label)),
                ),
            ),
            NodeModel::Element(
                with_child(
                    with_attr(bare("span"@), "class"@, "mj-chip-count"@),
                    NodeModel::Text(decimal_of(count as nat)),
                ),
            ),
        );
        with_child(chips_model(items.drop_last()), NodeModel::Element(with_child(bare("li"@), NodeModel::Element(a))))
    }
}

/// The text of some chips.
pub open spec fn chip_items(items: Seq<(String, String, usize, bool)>) -> Seq<(Seq<char>, Seq<char>, usize, bool)> {
    items.map_values(|i: (String, String, usize, bool)| (i.0@, i.1@, i.2, i.3))
}

/// A row of filters a reader browses by: a label, where it goes, how many are behind it,
/// and whether it is the one in force.
pub fn chips(items: Vec<(String, String, usize, bool)>) -> (r: El)
    ensures
        r@ == if items@.len() == 0 {
            with_attr(bare("div"@), "class"@, "mj-hidden"@)
        } else {
            chips_model(chip_items(items@))
        },
{
    if items.len() == 0 {
        return el("div").class("mj-hidden");
    }
    let mut list = el("ul").class("mj-chips");
    let mut i: usize = 0;
    assert(chip_items(items@.subrange(0, 0)) =~= Seq::<(Seq<char>, Seq<char>, usize, bool)>::empty());
    while i < items.len()
        invariant
            i <= items@.len(),
            list@ == chips_model(chip_items(items@.subrange(0, i as int))),
        decreases items.len() - i,
    {
        let (label, href, count, current) = (&items[i].0, &items[i].1, items[i].2, items[i].3);
        proof {
            let m = chip_items(items@.subrange(0, i + 1));
            assert(m.drop_last() =~= chip_items(items@.subrange(0, i as int)));
        }
        let a = el("a").class(
            if current {
                "mj-chip mj-chip--current"
            } else {
                "mj-chip"
            },
        ).attr("href", href.as_str());
        let a = a.attr_if(
            "aria-current",
            if current {
                Some("true")
            } else {
                None
            },
        );
        let count_text = decimal(count);
        let a = a.child(el("span").class("mj-chip-label").text(label.as_str())).child(
            el("span").class("mj-chip-count").text(count_text.as_str()),
        );
        list = list.child(el("li").child(a));
        i += 1;
    }
    assert(items@.subrange(0, items@.len() as int) =~= items@);
    list
}

/// The model of an identifier cell.
pub open spec fn id_cell_model(href: Seq<char>, id: Seq<char>) -> ElementModel {
    with_child(
        with_attr(bare("td"@), "class"@, "mj-cell-id"@),
        NodeModel::Element(
            with_child(
                with_attr(
                    with_attr(with_attr(bare("a"@), "class"@, "mj-link mj-mono mj-id"@), "href"@, href),
                    "title"@,
                    id,
                ),
                NodeModel::Text(id),
            ),
        ),
    )
}

/// A cell holding an identifier: monospaced, on one line, and truncated with the whole of
/// it in the tooltip.
pub fn id_cell(href: &str, id: &str) -> (r: El)
    ensures
        r@ == id_cell_model(href@, id@),
{
    el("td").class("mj-cell-id").child(
        el("a").class("mj-link mj-mono mj-id").attr("href", href).attr("title", id).text(id),
    )
}

} // verus!
