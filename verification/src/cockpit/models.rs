//! The declared model catalogue: its vendors, with whether each one's credential is
//! configured, and its models, with what each declares of itself.

use vstd::prelude::*;

use crate::strings::{decimal, decimal_of, join_with_text, joined_by, push_decimal_u64, push_str, views};

use super::frame::{classed, holding, saying};
use super::html::{bare, el, els_model, with_children, El, ElementModel, Node, NodeModel};
use super::milestones::{word_el, word_model};
use super::nav::Area;
use super::pages::{failed, failed_body, Page};
use super::surfaces::mono_model;
use super::view::{card, card_model, card_with, card_with_model, facts, facts_model, mono, rows_model};

verus! {

broadcast use super::html::lemma_element_node;

/// Where a vendor's models run.
#[derive(Debug, Clone, Copy, PartialEq, Eq, Structural)]
pub enum Inference {
    /// On the vendor's side.
    Remote,
    /// On this machine.
    Local,
}

/// The word an inference is shown as.
pub open spec fn inference_word(i: Inference) -> Seq<char> {
    match i {
        Inference::Remote => "remote"@,
        Inference::Local => "local"@,
    }
}

/// Where a model stands in its vendor's life.
#[derive(Debug, Clone, Copy, PartialEq, Eq, Structural)]
pub enum ModelStatus {
    /// Offered.
    Available,
    /// Offered ahead of release.
    Preview,
    /// Offered, and on its way out.
    Deprecated,
    /// No longer offered.
    Retired,
}

/// The word a model status is shown as.
pub open spec fn status_word(s: ModelStatus) -> Seq<char> {
    match s {
        ModelStatus::Available => "available"@,
        ModelStatus::Preview => "preview"@,
        ModelStatus::Deprecated => "deprecated"@,
        ModelStatus::Retired => "retired"@,
    }
}

impl Inference {
    /// The word.
    pub fn as_str(self) -> (r: &'static str)
        ensures
            r@ == inference_word(self),
    {
        match self {
            Inference::Remote => "remote",
            Inference::Local => "local",
        }
    }
}

impl ModelStatus {
    /// The word.
    pub fn as_str(self) -> (r: &'static str)
        ensures
            r@ == status_word(self),
    {
        match self {
            ModelStatus::Available => "available",
            ModelStatus::Preview => "preview",
            ModelStatus::Deprecated => "deprecated",
            ModelStatus::Retired => "retired",
        }
    }
}

/// One vendor of the catalogue.
#[derive(Debug, Clone, PartialEq, Eq)]
pub struct VendorReport {
    /// Its id.
    pub id: String,
    /// Its name.
    pub title: String,
    /// Where its models run.
    pub inference: Inference,
    /// Whether its credential is configured; `None` when it declares none.
    pub credential_configured: Option<bool>,
}

/// One model of the catalogue.
#[derive(Debug, Clone, PartialEq, Eq)]
pub struct ModelReport {
    /// Its id.
    pub id: String,
    /// Its vendor.
    pub vendor: String,
    /// The id its vendor knows it by.
    pub native_id: String,
    /// How many tokens it reads, when that is declared.
    pub context_window: Option<u64>,
    /// What it can do.
    pub capabilities: Vec<String>,
    /// The other names it answers to.
    pub aliases: Vec<String>,
    /// Where it stands.
    pub status: ModelStatus,
    /// What the catalogue says of it.
    pub note: Option<String>,
}

/// What listing the catalogue answered.
#[derive(Debug, Clone, PartialEq, Eq)]
pub struct ModelsReport {
    /// Every vendor.
    pub vendors: Vec<VendorReport>,
    /// Every model.
    pub models: Vec<ModelReport>,
    /// How many models the catalogue holds.
    pub count: usize,
    /// What reading the catalogue found.
    pub diagnostics: Vec<String>,
}

/// What a vendor's card says of its credential.
pub open spec fn credential_text(c: Option<bool>) -> Seq<char> {
    match c {
        Some(true) => "credential configured"@,
        Some(false) => "credential not configured"@,
        None => "no credential declared"@,
    }
}

/// A vendor's card.
pub open spec fn vendor_model(v: VendorReport, filed: Seq<String>) -> NodeModel {
    NodeModel::Element(
        card_with_model(
            v.title@ + " — "@ + v.id@,
            word_model(filed, inference_word(v.inference)),
            saying(classed("p"@, "mj-prose"@), credential_text(v.credential_configured)),
        ),
    )
}

fn vendor_el(v: &VendorReport, filed: &Vec<String>) -> (r: El)
    ensures
        NodeModel::Element(r@) == vendor_model(*v, filed@),
{
    let credential = match v.credential_configured {
        Some(true) => "credential configured",
        Some(false) => "credential not configured",
        None => "no credential declared",
    };
    let mut title = String::from_str(v.title.as_str());
    push_str(&mut title, " — ");
    push_str(&mut title, v.id.as_str());
    card_with(title.as_str(), word_el(filed, v.inference.as_str()), el("p").class("mj-prose").text(credential))
}

/// The facts a model declares.
pub open spec fn model_facts(m: ModelReport) -> Seq<(Seq<char>, NodeModel)> {
    seq![
        ("Vendor"@, NodeModel::Element(saying(bare("span"@), m.vendor@))),
        ("Native id"@, NodeModel::Element(mono_model(m.native_id@))),
        (
            "Context"@,
            NodeModel::Element(
                saying(
                    bare("span"@),
                    match m.context_window {
                        Some(c) => decimal_of(c as nat),
                        None => "(not declared)"@,
                    },
                ),
            ),
        ),
        ("Capabilities"@, NodeModel::Element(saying(bare("span"@), join_with_text(views(m.capabilities@), ", "@)))),
    ]
}

/// A model's card.
pub open spec fn model_model(m: ModelReport, filed: Seq<String>) -> NodeModel {
    let inner = holding(bare("div"@), facts_model(model_facts(m)));
    let inner = if m.aliases@.len() > 0 {
        holding(
            inner,
            facts_model(seq![("Aliases"@, NodeModel::Element(saying(bare("span"@), join_with_text(views(m.aliases@), ", "@))))]),
        )
    } else {
        inner
    };
    let inner = match m.note {
        Some(n) => holding(inner, saying(classed("p"@, "mj-prose"@), n@)),
        None => inner,
    };
    NodeModel::Element(card_with_model(m.id@, word_model(filed, status_word(m.status)), inner))
}

fn model_el(m: &ModelReport, filed: &Vec<String>) -> (r: El)
    ensures
        NodeModel::Element(r@) == model_model(*m, filed@),
{
    let context = match m.context_window {
        Some(c) => {
            let mut t = String::new();
            push_decimal_u64(&mut t, c);
            assert(t@ =~= decimal_of(c as nat));
            t
        },
        None => String::from_str("(not declared)"),
    };
    let capabilities = joined_by(&m.capabilities, ", ");
    let mut rows: Vec<(&str, Node)> = Vec::new();
    rows.push(("Vendor", Node::Element(el("span").text(m.vendor.as_str()))));
    rows.push(("Native id", Node::Element(mono(m.native_id.as_str()))));
    rows.push(("Context", Node::Element(el("span").text(context.as_str()))));
    rows.push(("Capabilities", Node::Element(el("span").text(capabilities.as_str()))));
    assert(rows_model(rows@) =~= model_facts(*m));
    let mut inner = el("div").child(facts(rows));
    if m.aliases.len() > 0 {
        let aliases = joined_by(&m.aliases, ", ");
        let mut more: Vec<(&str, Node)> = Vec::new();
        more.push(("Aliases", Node::Element(el("span").text(aliases.as_str()))));
        assert(rows_model(more@) =~= seq![
            ("Aliases"@, NodeModel::Element(saying(bare("span"@), join_with_text(views(m.aliases@), ", "@)))),
        ]);
        inner = inner.child(facts(more));
    }
    match &m.note {
        Some(n) => {
            inner = inner.child(el("p").class("mj-prose").text(n.as_str()));
        },
        None => {},
    }
    card_with(m.id.as_str(), word_el(filed, m.status.as_str()), inner)
}

/// What the vendors card says when the catalogue declares none.
pub const NO_VENDOR: &'static str = "The catalogue declares no vendors. share/models.yaml is the one place to add one.";

/// What the models card says when the catalogue declares none.
pub const NO_MODEL: &'static str = "The catalogue declares no models; `models.route` answers that nothing qualifies, which is the truthful answer.";

/// The body of the models page.
pub open spec fn models_body(r: ModelsReport, filed: Seq<String>) -> ElementModel {
    let vendors = r.vendors@.map_values(|v: VendorReport| vendor_model(v, filed));
    let models = r.models@.map_values(|m: ModelReport| model_model(m, filed));
    let grid = holding(
        holding(
            classed("div"@, "mj-grid"@),
            card_model(
                "Vendors ("@ + decimal_of(r.vendors@.len()) + ")"@,
                if vendors.len() == 0 {
                    saying(classed("p"@, "mj-prose"@), NO_VENDOR@)
                } else {
                    with_children(classed("div"@, "mj-grid"@), vendors)
                },
            ),
        ),
        card_model(
            "Models ("@ + decimal_of(r.count as nat) + ")"@,
            if models.len() == 0 {
                saying(classed("p"@, "mj-prose"@), NO_MODEL@)
            } else {
                with_children(classed("div"@, "mj-grid"@), models)
            },
        ),
    );
    if r.diagnostics@.len() > 0 {
        holding(
            grid,
            card_model(
                "Findings"@,
                with_children(
                    classed("ul"@, "mj-list"@),
                    r.diagnostics@.map_values(|d: String| NodeModel::Element(saying(bare("li"@), d@))),
                ),
            ),
        )
    } else {
        grid
    }
}

/// The declared model catalogue. `report` is what listing it answered, or why it did
/// not; `filed` is the status words the design declaration files, which decide whether a
/// vendor's inference and a model's status are badges or tags.
pub fn models(report: Result<ModelsReport, String>, filed: &Vec<String>) -> (r: Page)
    ensures
        r.area == Area::Models,
        r.title@ == "Models"@,
        r.subtitle is None,
        r.breadcrumbs@.len() == 0,
        r.scripts@.len() == 0,
        match report {
            Err(e) => r.main@ == failed_body(e@) && r.status == 500,
            Ok(m) => r.main@ == models_body(m, filed@) && r.status == 200,
        },
{
    let m = match report {
        Ok(m) => m,
        Err(e) => return failed(Area::Models, "Models", e.as_str()),
    };
    let mut vendors: Vec<El> = Vec::new();
    for k in 0..m.vendors.len()
        invariant
            vendors@.len() == k,
            forall|j: int| 0 <= j < k ==> NodeModel::Element((#[trigger] vendors@[j])@) == vendor_model(m.vendors@[j], filed@),
    {
        vendors.push(vendor_el(&m.vendors[k], filed));
    }
    assert(els_model(vendors@) =~= m.vendors@.map_values(|v: VendorReport| vendor_model(v, filed@)));
    let mut cards: Vec<El> = Vec::new();
    for k in 0..m.models.len()
        invariant
            cards@.len() == k,
            forall|j: int| 0 <= j < k ==> NodeModel::Element((#[trigger] cards@[j])@) == model_model(m.models@[j], filed@),
    {
        cards.push(model_el(&m.models[k], filed));
    }
    assert(els_model(cards@) =~= m.models@.map_values(|x: ModelReport| model_model(x, filed@)));
    let mut vendors_title = String::from_str("Vendors (");
    push_str(&mut vendors_title, decimal(m.vendors.len()).as_str());
    push_str(&mut vendors_title, ")");
    let mut models_title = String::from_str("Models (");
    push_str(&mut models_title, decimal(m.count).as_str());
    push_str(&mut models_title, ")");
    let vendors_body = if vendors.len() == 0 {
        el("p").class("mj-prose").text(NO_VENDOR)
    } else {
        el("div").class("mj-grid").children(vendors)
    };
    let models_body = if cards.len() == 0 {
        el("p").class("mj-prose").text(NO_MODEL)
    } else {
        el("div").class("mj-grid").children(cards)
    };
    let mut body = el("div").class("mj-grid").child(card(vendors_title.as_str(), vendors_body)).child(
        card(models_title.as_str(), models_body),
    );
    if m.diagnostics.len() > 0 {
        let mut items: Vec<El> = Vec::new();
        for k in 0..m.diagnostics.len()
            invariant
                items@.len() == k,
                forall|j: int| 0 <= j < k ==> (#[trigger] items@[j])@ == saying(bare("li"@), m.diagnostics@[j]@),
        {
            items.push(el("li").text(m.diagnostics[k].as_str()));
        }
        assert(els_model(items@) =~= m.diagnostics@.map_values(|d: String| NodeModel::Element(saying(bare("li"@), d@))));
        body = body.child(card("Findings", el("ul").class("mj-list").children(items)));
    }
    Page::new(Area::Models, "Models", body)
}

} // verus!
