//! The artifacts page: every file the generator writes, from its own manifest, and where
//! the generated tree stands against it.

use vstd::prelude::*;

use crate::strings::{decimal, decimal_of};

use super::frame::{classed, holding, saying};
use super::html::{bare, el, els_model, with_children, El, ElementModel, Node, NodeModel};
use super::nav::Area;
use super::pages::{failed, failed_body, given_trail, trail_views, Page};
use super::surfaces::{cell_of, mono_model};
use super::view::{
    alert, alert_model, badge, badge_model, card, card_model, card_with, card_with_model, cell, facts, facts_model,
    mono, row, rows_model, statistic, statistic_model, strs_model, table, table_model, tag, tag_model, text_cell,
};

verus! {

broadcast use super::html::lemma_element_node;

/// One document the generator writes, in every encoding it is committed in.
#[derive(Debug, Clone, PartialEq, Eq)]
pub struct GeneratedDocument {
    /// Its identity.
    pub id: String,
    /// The file suffix of each encoding.
    pub formats: Vec<String>,
    /// Its schema, when it has one.
    pub schema: Option<String>,
    /// What it is written from.
    pub source: String,
}

/// One file of the manifest.
#[derive(Debug, Clone, PartialEq, Eq)]
pub struct GeneratedFile {
    /// Its path.
    pub path: String,
    /// The document it encodes.
    pub document: String,
    /// The suffix of its encoding.
    pub format: String,
    /// Its size, when it is there.
    pub bytes: Option<u64>,
    /// Where it stands against the manifest, as its word.
    pub state: String,
}

/// The manifest, counted.
#[derive(Debug, Clone, Copy, PartialEq, Eq)]
pub struct ArtifactTallies {
    /// Documents.
    pub documents: usize,
    /// Files.
    pub artifacts: usize,
    /// Files whose bytes match the manifest.
    pub current: usize,
    /// Files whose bytes do not.
    pub stale: usize,
    /// Files that are not there.
    pub missing: usize,
}

/// What listing the artifacts answered.
#[derive(Debug, Clone, PartialEq, Eq)]
pub struct ArtifactReport {
    /// Whether there is a generated tree at all.
    pub present: bool,
    /// The counts.
    pub tallies: ArtifactTallies,
    /// The manifest's path.
    pub manifest: String,
    /// Its schema.
    pub schema: String,
    /// The command that rewrites the tree.
    pub regenerate: String,
    /// The command that checks it.
    pub verify: String,
    /// Every document.
    pub documents: Vec<GeneratedDocument>,
    /// Every file.
    pub artifacts: Vec<GeneratedFile>,
}

/// Where the generated tree stands, as a status word and a label: not there, a file
/// missing, a file stale, or current.
pub open spec fn overall(r: ArtifactReport) -> (Seq<char>, Seq<char>) {
    if !r.present {
        ("warn"@, "not generated"@)
    } else if r.tallies.missing > 0 {
        ("fail"@, "missing"@)
    } else if r.tallies.stale > 0 {
        ("warn"@, "stale"@)
    } else {
        ("ok"@, "current"@)
    }
}

/// A dash for what is not there.
pub open spec fn dash() -> ElementModel {
    saying(classed("span"@, "mj-note"@), "—"@)
}

/// The row of a document.
pub open spec fn document_row(d: GeneratedDocument) -> NodeModel {
    NodeModel::Element(
        ElementModel {
            children: seq![
                cell_of(mono_model(d.id@)),
                cell_of(with_children(classed("span"@, "mj-marks"@), d.formats@.map_values(|f: String| NodeModel::Element(tag_model(f@))))),
                cell_of(
                    match d.schema {
                        Some(s) => mono_model(s@),
                        None => dash(),
                    },
                ),
                NodeModel::Element(saying(bare("td"@), d.source@)),
            ],
            ..bare("tr"@)
        },
    )
}

fn document_row_el(d: &GeneratedDocument) -> (r: El)
    ensures
        NodeModel::Element(r@) == document_row(*d),
{
    let mut formats: Vec<El> = Vec::new();
    for k in 0..d.formats.len()
        invariant
            formats@.len() == k,
            forall|i: int| 0 <= i < k ==> (#[trigger] formats@[i])@ == tag_model(d.formats@[i]@),
    {
        formats.push(tag(d.formats[k].as_str()));
    }
    assert(els_model(formats@) =~= d.formats@.map_values(|f: String| NodeModel::Element(tag_model(f@))));
    let mut cells: Vec<El> = Vec::new();
    cells.push(cell(mono(d.id.as_str())));
    cells.push(cell(el("span").class("mj-marks").children(formats)));
    cells.push(
        cell(
            match &d.schema {
                Some(s) => mono(s.as_str()),
                None => el("span").class("mj-note").text("—"),
            },
        ),
    );
    cells.push(text_cell(d.source.as_str()));
    let r = row(cells);
    assert(els_model(cells@) =~= match document_row(*d) {
        NodeModel::Element(x) => x.children,
        _ => seq![],
    });
    r
}

/// The row of a file.
pub open spec fn file_row(a: GeneratedFile) -> NodeModel {
    NodeModel::Element(
        ElementModel {
            children: seq![
                cell_of(mono_model(a.path@)),
                cell_of(mono_model(a.document@)),
                NodeModel::Element(saying(bare("td"@), a.format@)),
                NodeModel::Element(
                    saying(
                        bare("td"@),
                        match a.bytes {
                            Some(b) => decimal_of(b as nat),
                            None => "—"@,
                        },
                    ),
                ),
                cell_of(badge_model(a.state@, a.state@)),
            ],
            ..bare("tr"@)
        },
    )
}

fn file_row_el(a: &GeneratedFile) -> (r: El)
    ensures
        NodeModel::Element(r@) == file_row(*a),
{
    let size = match a.bytes {
        Some(b) => {
            let mut out = String::new();
            crate::strings::push_decimal_u64(&mut out, b);
            assert(out@ =~= decimal_of(b as nat));
            out
        },
        None => String::from_str("—"),
    };
    let mut cells: Vec<El> = Vec::new();
    cells.push(cell(mono(a.path.as_str())));
    cells.push(cell(mono(a.document.as_str())));
    cells.push(text_cell(a.format.as_str()));
    cells.push(text_cell(size.as_str()));
    cells.push(cell(badge(a.state.as_str(), a.state.as_str())));
    let r = row(cells);
    assert(els_model(cells@) =~= match file_row(*a) {
        NodeModel::Element(x) => x.children,
        _ => seq![],
    });
    r
}

/// What the first card says of the encodings.
pub const ONE_VALUE: &'static str = "A document is written in every encoding this repository commits it in, from one value: JSON for a program, YAML beside it, Markdown for a reader. The hashes here are the manifest's; `majordomus generate --check` compares every byte, which is the stronger statement.";

/// What the first card says when there is no generated tree.
pub const NOT_YET: &'static str = "This repository has no generated tree yet: the manifest is written by `majordomus generate`.";

/// The subtitle of the page.
pub const ARTIFACTS_SUBTITLE: &'static str = "Every file `majordomus generate` writes, from the generator's own manifest.";

/// The facts of the manifest.
pub open spec fn manifest_rows(r: ArtifactReport) -> Seq<(Seq<char>, NodeModel)> {
    seq![
        ("Manifest"@, NodeModel::Element(mono_model(r.manifest@))),
        ("Schema"@, NodeModel::Element(mono_model(r.schema@))),
        ("Rewrite"@, NodeModel::Element(mono_model(r.regenerate@))),
        ("Verify"@, NodeModel::Element(mono_model(r.verify@))),
    ]
}

/// The first card: where the tree stands, the counts, the manifest.
pub open spec fn standing_model(r: ArtifactReport) -> ElementModel {
    let t = r.tallies;
    let stats = holding(
        holding(
            holding(
                holding(
                    holding(classed("div"@, "mj-stats"@), statistic_model(decimal_of(t.documents as nat), "documents"@, "the manifest"@)),
                    statistic_model(decimal_of(t.artifacts as nat), "files"@, "the manifest"@),
                ),
                statistic_model(decimal_of(t.current as nat), "current"@, "sha256"@),
            ),
            statistic_model(decimal_of(t.stale as nat), "stale"@, "sha256"@),
        ),
        statistic_model(decimal_of(t.missing as nat), "missing"@, "the tree"@),
    );
    let d = holding(holding(bare("div"@), stats), facts_model(manifest_rows(r)));
    let d = if !r.present {
        holding(d, alert_model("warn"@, NOT_YET@))
    } else {
        d
    };
    let d = holding(d, saying(classed("p"@, "mj-note"@), ONE_VALUE@));
    card_with_model("Where the generated tree stands"@, badge_model(overall(r).0, overall(r).1), d)
}

/// The body of the page.
pub open spec fn artifacts_body(r: ArtifactReport) -> ElementModel {
    holding(
        holding(
            holding(classed("div"@, "mj-grid"@), standing_model(r)),
            card_model(
                "Documents"@,
                table_model(
                    seq!["document"@, "encodings"@, "schema"@, "source"@],
                    r.documents@.map_values(|d: GeneratedDocument| document_row(d)),
                ),
            ),
        ),
        card_model(
            "Files"@,
            table_model(
                seq!["path"@, "document"@, "format"@, "bytes"@, "state"@],
                r.artifacts@.map_values(|a: GeneratedFile| file_row(a)),
            ),
        ),
    )
}

/// Every file the generator writes. `report` is what listing the artifacts answered, or
/// why it did not.
pub fn artifacts(report: Result<ArtifactReport, String>) -> (r: Page)
    ensures
        r.area == Area::Artifacts,
        r.title@ == "Artifacts"@,
        match report {
            Err(e) => r.main@ == failed_body(e@) && r.status == 500,
            Ok(rep) => {
                &&& r.main@ == artifacts_body(rep)
                &&& r.subtitle matches Some(s) && s@ == ARTIFACTS_SUBTITLE@
                &&& trail_views(r.breadcrumbs@) == seq![("Cockpit"@, Some("/cockpit"@)), ("Artifacts"@, None::<Seq<char>>)]
                &&& r.status == 200
                &&& r.scripts@.len() == 0
            },
        },
{
    let rep = match report {
        Ok(r) => r,
        Err(e) => return failed(Area::Artifacts, "Artifacts", e.as_str()),
    };
    let t = &rep.tallies;
    let (status, label) = if !rep.present {
        ("warn", "not generated")
    } else if t.missing > 0 {
        ("fail", "missing")
    } else if t.stale > 0 {
        ("warn", "stale")
    } else {
        ("ok", "current")
    };
    let mut documents: Vec<El> = Vec::new();
    for k in 0..rep.documents.len()
        invariant
            documents@.len() == k,
            forall|i: int| 0 <= i < k ==> NodeModel::Element((#[trigger] documents@[i])@) == document_row(rep.documents@[i]),
    {
        documents.push(document_row_el(&rep.documents[k]));
    }
    assert(els_model(documents@) =~= rep.documents@.map_values(|d: GeneratedDocument| document_row(d)));
    let mut files: Vec<El> = Vec::new();
    for k in 0..rep.artifacts.len()
        invariant
            files@.len() == k,
            forall|i: int| 0 <= i < k ==> NodeModel::Element((#[trigger] files@[i])@) == file_row(rep.artifacts@[i]),
    {
        files.push(file_row_el(&rep.artifacts[k]));
    }
    assert(els_model(files@) =~= rep.artifacts@.map_values(|a: GeneratedFile| file_row(a)));
    let h1 = ["document", "encodings", "schema", "source"];
    let h2 = ["path", "document", "format", "bytes", "state"];
    proof {
        assert(strs_model(h1@) =~= seq!["document"@, "encodings"@, "schema"@, "source"@]);
        assert(strs_model(h2@) =~= seq!["path"@, "document"@, "format"@, "bytes"@, "state"@]);
    }
    let stats = el("div").class("mj-stats").child(statistic(decimal(t.documents).as_str(), "documents", "the manifest")).child(
        statistic(decimal(t.artifacts).as_str(), "files", "the manifest"),
    ).child(statistic(decimal(t.current).as_str(), "current", "sha256")).child(
        statistic(decimal(t.stale).as_str(), "stale", "sha256"),
    ).child(statistic(decimal(t.missing).as_str(), "missing", "the tree"));
    let mut rows: Vec<(&str, Node)> = Vec::new();
    rows.push(("Manifest", Node::Element(mono(rep.manifest.as_str()))));
    rows.push(("Schema", Node::Element(mono(rep.schema.as_str()))));
    rows.push(("Rewrite", Node::Element(mono(rep.regenerate.as_str()))));
    rows.push(("Verify", Node::Element(mono(rep.verify.as_str()))));
    assert(rows_model(rows@) =~= manifest_rows(rep));
    let mut d = el("div").child(stats).child(facts(rows));
    if !rep.present {
        d = d.child(alert("warn", NOT_YET));
    }
    d = d.child(el("p").class("mj-note").text(ONE_VALUE));
    let body = el("div").class("mj-grid").child(card_with("Where the generated tree stands", badge(status, label), d)).child(
        card("Documents", table(&h1, documents)),
    ).child(card("Files", table(&h2, files)));
    let mut trail: Vec<(&str, Option<&str>)> = Vec::new();
    trail.push(("Cockpit", Some("/cockpit")));
    trail.push(("Artifacts", None));
    assert(given_trail(trail@) =~= seq![("Cockpit"@, Some("/cockpit"@)), ("Artifacts"@, None::<Seq<char>>)]);
    Page::new(Area::Artifacts, "Artifacts", body).subtitle(ARTIFACTS_SUBTITLE).trail(trail)
}

} // verus!
