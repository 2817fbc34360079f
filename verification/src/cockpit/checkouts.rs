//! The branch-to-worktree topology page: every worktree with its standing, every branch
//! without one, every diagnostic with its remedy, and the migration plan with the command
//! that applies it. Rendered from what the topology and the migration plan answered.

use vstd::prelude::*;

use crate::strings::{decimal, decimal_of, push_char, push_str};

use super::frame::{classed, holding, saying};
use super::html::{bare, el, els_model, with_attr, El, ElementModel, Node, NodeModel};
use super::nav::{opt_text, Area};
use super::pages::{failed, failed_body, given_trail, trail_views, Page};
use super::surfaces::{cell_of, mono_model};
use super::view::{badge, badge_model, card, card_model, card_with, card_with_model, cell, facts, facts_model, link, link_model, mono, nothing, pre, pre_model, row, rows_model, statistic, statistic_model, strs_model, table, table_model, tag, tag_model, text_cell};

verus! {

broadcast use super::html::lemma_element_node;

// ------------------------------------------------------------------ what the page reads

/// Where a worktree stands against the rule that a branch's path is derived from its name.
#[derive(Debug, Clone, Copy, PartialEq, Eq, Structural)]
pub enum Standing {
    /// The repository's primary checkout.
    Primary,
    /// At the path its branch derives.
    Canonical,
    /// Somewhere else.
    Misplaced,
    /// Registered, but its directory is gone.
    Missing,
    /// A throwaway checkout, not meant to stay.
    Ephemeral,
    /// On no branch.
    Detached,
}

/// The word a standing is shown as.
pub open spec fn standing_word(s: Standing) -> Seq<char> {
    match s {
        Standing::Primary => "primary"@,
        Standing::Canonical => "canonical"@,
        Standing::Misplaced => "misplaced"@,
        Standing::Missing => "missing"@,
        Standing::Ephemeral => "ephemeral"@,
        Standing::Detached => "detached"@,
    }
}

/// The status word a standing is coloured by. Shown as well as coloured, never colour
/// alone.
pub open spec fn standing_status(s: Standing) -> Seq<char> {
    match s {
        Standing::Primary | Standing::Canonical => "ok"@,
        Standing::Misplaced | Standing::Missing => "fail"@,
        Standing::Ephemeral => "warn"@,
        Standing::Detached => "info"@,
    }
}

impl Standing {
    /// The word.
    pub fn as_str(self) -> (r: &'static str)
        ensures
            r@ == standing_word(self),
    {
        match self {
            Standing::Primary => "primary",
            Standing::Canonical => "canonical",
            Standing::Misplaced => "misplaced",
            Standing::Missing => "missing",
            Standing::Ephemeral => "ephemeral",
            Standing::Detached => "detached",
        }
    }

    /// The status word it is coloured by.
    pub fn status(self) -> (r: &'static str)
        ensures
            r@ == standing_status(self),
    {
        match self {
            Standing::Primary | Standing::Canonical => "ok",
            Standing::Misplaced | Standing::Missing => "fail",
            Standing::Ephemeral => "warn",
            Standing::Detached => "info",
        }
    }
}

/// How much a diagnostic matters.
#[derive(Debug, Clone, Copy, PartialEq, Eq, Structural)]
pub enum Severity {
    /// The topology is not valid.
    Error,
    /// Worth looking at.
    Warning,
    /// For the record.
    Info,
}

/// The word a severity is shown as.
pub open spec fn severity_word(s: Severity) -> Seq<char> {
    match s {
        Severity::Error => "error"@,
        Severity::Warning => "warning"@,
        Severity::Info => "info"@,
    }
}

/// The status word a severity is coloured by.
pub open spec fn severity_status(s: Severity) -> Seq<char> {
    match s {
        Severity::Error => "fail"@,
        Severity::Warning => "warn"@,
        Severity::Info => "info"@,
    }
}

impl Severity {
    /// The word.
    pub fn as_str(self) -> (r: &'static str)
        ensures
            r@ == severity_word(self),
    {
        match self {
            Severity::Error => "error",
            Severity::Warning => "warning",
            Severity::Info => "info",
        }
    }

    /// The status word it is coloured by.
    pub fn status(self) -> (r: &'static str)
        ensures
            r@ == severity_status(self),
    {
        match self {
            Severity::Error => "fail",
            Severity::Warning => "warn",
            Severity::Info => "info",
        }
    }
}

/// What a migration step came to.
#[derive(Debug, Clone, Copy, PartialEq, Eq, Structural)]
pub enum StepOutcome {
    /// It would move.
    Planned,
    /// Something stands in its way.
    Blocked,
    /// It moved, and the fingerprints before and after agree.
    Moved,
    /// It did not.
    Failed,
}

/// The uncommitted work of a worktree.
#[derive(Debug, Clone, PartialEq, Eq)]
pub struct DirtyState {
    /// Nothing uncommitted.
    pub clean: bool,
    /// Staged changes.
    pub staged: usize,
    /// Unstaged changes.
    pub unstaged: usize,
    /// Untracked files.
    pub untracked: usize,
    /// An operation in progress: a merge, a rebase.
    pub in_progress: Option<String>,
}

/// The branch a worktree's branch tracks.
#[derive(Debug, Clone, PartialEq, Eq)]
pub struct Upstream {
    /// Its name.
    pub name: String,
    /// Deleted on the remote.
    pub gone: bool,
    /// Commits ahead of it.
    pub ahead: Option<usize>,
    /// Commits behind it.
    pub behind: Option<usize>,
}

/// One worktree.
#[derive(Debug, Clone, PartialEq, Eq)]
pub struct WorktreeState {
    /// The branch it has checked out, or what stands for one.
    pub label: String,
    /// Where it is.
    pub path: String,
    /// Whether it is the one this process runs in.
    pub current: bool,
    /// The issue its branch names.
    pub issue: Option<String>,
    /// Where its branch says it belongs.
    pub expected_path: Option<String>,
    /// Why it is locked, when it is.
    pub locked: Option<String>,
    /// Its `HEAD`.
    pub head: Option<String>,
    /// Where it stands.
    pub standing: Standing,
    /// Its uncommitted work, when that was read.
    pub dirty: Option<DirtyState>,
    /// What its branch tracks.
    pub upstream: Option<Upstream>,
}

/// One local branch.
#[derive(Debug, Clone, PartialEq, Eq)]
pub struct BranchState {
    /// Its name.
    pub name: String,
    /// Its head commit.
    pub head: String,
    /// The issue it names.
    pub issue: Option<String>,
    /// Where its worktree would go.
    pub expected_path: Option<String>,
    /// The worktree that has it checked out.
    pub worktree: Option<String>,
    /// Whether it is merged into the trunk, when the trunk is known.
    pub merged_into_trunk: Option<bool>,
    /// Merged, and clean or absent: it could go.
    pub cleanup_eligible: bool,
}

/// One thing the topology reports.
#[derive(Debug, Clone, PartialEq, Eq)]
pub struct TopologyDiagnostic {
    /// How much it matters.
    pub severity: Severity,
    /// Its code.
    pub code: String,
    /// Where.
    pub path: Option<String>,
    /// Where that belongs.
    pub expected: Option<String>,
    /// What.
    pub message: String,
    /// What to do about it.
    pub remedy: String,
}

/// The topology, counted.
#[derive(Debug, Clone, Copy, PartialEq, Eq)]
pub struct Tallies {
    /// Worktrees.
    pub worktrees: usize,
    /// At their derived path.
    pub canonical: usize,
    /// Elsewhere.
    pub misplaced: usize,
    /// Throwaway.
    pub ephemeral: usize,
    /// On no branch.
    pub detached: usize,
    /// With uncommitted work.
    pub dirty: usize,
    /// Branches checked out nowhere.
    pub branches_without_worktree: usize,
    /// Branches that could go.
    pub cleanup_eligible: usize,
    /// Errors.
    pub errors: usize,
    /// Warnings.
    pub warnings: usize,
}

/// What the topology answered.
#[derive(Debug, Clone, PartialEq, Eq)]
pub struct RepositoryTopology {
    /// The primary checkout.
    pub primary_worktree: String,
    /// The directory the linked worktrees live in.
    pub container_path: String,
    /// Whether it exists yet.
    pub container_exists: bool,
    /// What its name adds to the repository's.
    pub container_suffix: String,
    /// The trunk, when it is known.
    pub trunk_branch: Option<String>,
    /// What decided the trunk, as its word.
    pub trunk_source: String,
    /// No error.
    pub valid: bool,
    /// The counts.
    pub tallies: Tallies,
    /// Every worktree.
    pub worktrees: Vec<WorktreeState>,
    /// Every local branch.
    pub branches: Vec<BranchState>,
    /// Every diagnostic.
    pub diagnostics: Vec<TopologyDiagnostic>,
}

/// Why a step cannot move.
#[derive(Debug, Clone, PartialEq, Eq)]
pub struct Blocker {
    /// Its code.
    pub code: String,
    /// What it says.
    pub message: String,
}

/// One step of the migration.
#[derive(Debug, Clone, PartialEq, Eq)]
pub struct MigrationStep {
    /// The branch.
    pub branch: String,
    /// Where its worktree is.
    pub from: String,
    /// Where it belongs.
    pub to: String,
    /// Its uncommitted work, summed up.
    pub dirty_summary: String,
    /// What the step does, as its word.
    pub action: String,
    /// What it came to.
    pub outcome: StepOutcome,
    /// What stands in its way.
    pub blockers: Vec<Blocker>,
}

/// What the migration plan answered.
#[derive(Debug, Clone, PartialEq, Eq)]
pub struct MigrationPlan {
    /// The steps.
    pub steps: Vec<MigrationStep>,
    /// How many worktrees are left alone by design.
    pub exceptions: usize,
    /// How many steps can move.
    pub movable: usize,
    /// How many cannot.
    pub blocked: usize,
}

// ------------------------------------------------------------------ small pieces

/// A word with its underscores read as spaces.
pub open spec fn spaced(word: Seq<char>) -> Seq<char> {
    word.map_values(|c: char| if c == '_' { ' ' } else { c })
}

pub(crate) fn spaced_text(word: &str) -> (r: String)
    ensures
        r@ == spaced(word@),
{
    let chars = crate::strings::chars_of(word);
    let mut out = String::new();
    for i in 0..chars.len()
        invariant
            chars@ == word@,
            out@ == spaced(word@.take(i as int)),
    {
        let c = chars[i];
        push_char(&mut out, if c == '_' { ' ' } else { c });
        assert(word@.take(i + 1) =~= word@.take(i as int).push(c));
        assert(spaced(word@.take(i + 1)) =~= spaced(word@.take(i as int)).push(if c == '_' { ' ' } else { c }));
    }
    assert(word@.take(chars@.len() as int) =~= word@);
    out
}

/// A commit as a cell shows it: its first twelve characters, or a dash.
pub open spec fn short_head(head: Option<Seq<char>>) -> Seq<char> {
    match head {
        Some(h) => if h.len() <= 12 {
            h
        } else {
            h.take(12)
        },
        None => "-"@,
    }
}

fn short_head_text(head: Option<&str>) -> (r: String)
    ensures
        r@ == short_head(
            match head {
                Some(h) => Some(h@),
                None => None,
            },
        ),
{
    match head {
        Some(h) => {
            let n = h.unicode_len();
            let k = if n <= 12 { n } else { 12 };
            let s = h.substring_char(0, k);
            assert(s@ =~= (if n <= 12 { h@ } else { h@.take(12) }));
            String::from_str(s)
        },
        None => String::from_str("-"),
    }
}

/// The cell of a worktree's uncommitted work.
pub open spec fn dirty_cell_model(d: Option<DirtyState>) -> ElementModel {
    match d {
        None => saying(bare("td"@), "-"@),
        Some(d) => if d.clean {
            holding(bare("td"@), badge_model("ok"@, "clean"@))
        } else {
            holding(
                bare("td"@),
                saying(
                    holding(bare("span"@), badge_model("warn"@, "dirty"@)),
                    " "@ + decimal_of(d.staged as nat) + " staged · "@ + decimal_of(d.unstaged as nat) + " unstaged · "@
                        + decimal_of(d.untracked as nat) + " untracked"@ + match d.in_progress {
                        Some(op) => " · "@ + op@ + " in progress"@,
                        None => ""@,
                    },
                ),
            )
        },
    }
}

fn dirty_cell(d: &Option<DirtyState>) -> (r: El)
    ensures
        r@ == dirty_cell_model(*d),
{
    match d {
        None => text_cell("-"),
        Some(d) => if d.clean {
            cell(badge("ok", "clean"))
        } else {
            let mut line = String::from_str(" ");
            push_str(&mut line, decimal(d.staged).as_str());
            push_str(&mut line, " staged · ");
            push_str(&mut line, decimal(d.unstaged).as_str());
            push_str(&mut line, " unstaged · ");
            push_str(&mut line, decimal(d.untracked).as_str());
            push_str(&mut line, " untracked");
            match &d.in_progress {
                Some(op) => {
                    push_str(&mut line, " · ");
                    push_str(&mut line, op.as_str());
                    push_str(&mut line, " in progress");
                },
                None => {
                    push_str(&mut line, "");
                },
            }
            assert(line@ =~= " "@ + decimal_of(d.staged as nat) + " staged · "@ + decimal_of(d.unstaged as nat)
                + " unstaged · "@ + decimal_of(d.untracked as nat) + " untracked"@ + match d.in_progress {
                Some(op) => " · "@ + op@ + " in progress"@,
                None => ""@,
            });
            cell(el("span").child(badge("warn", "dirty")).text(line.as_str()))
        },
    }
}

/// The cell of what a worktree's branch tracks.
pub open spec fn upstream_cell_model(u: Option<Upstream>) -> ElementModel {
    match u {
        None => saying(bare("td"@), "-"@),
        Some(u) => if u.gone {
            holding(bare("td"@), saying(holding(bare("span"@), mono_model(u.name@)), " (gone)"@))
        } else {
            saying(
                bare("td"@),
                u.name@ + " +"@ + decimal_of(
                    match u.ahead {
                        Some(n) => n as nat,
                        None => 0,
                    },
                ) + " −"@ + decimal_of(
                    match u.behind {
                        Some(n) => n as nat,
                        None => 0,
                    },
                ),
            )
        },
    }
}

fn upstream_cell(u: &Option<Upstream>) -> (r: El)
    ensures
        r@ == upstream_cell_model(*u),
{
    match u {
        None => text_cell("-"),
        Some(u) => if u.gone {
            cell(el("span").child(mono(u.name.as_str())).text(" (gone)"))
        } else {
            let ahead: usize = match u.ahead {
                Some(n) => n,
                None => 0,
            };
            let behind: usize = match u.behind {
                Some(n) => n,
                None => 0,
            };
            let mut line = String::from_str(u.name.as_str());
            push_str(&mut line, " +");
            push_str(&mut line, decimal(ahead).as_str());
            push_str(&mut line, " −");
            push_str(&mut line, decimal(behind).as_str());
            text_cell(line.as_str())
        },
    }
}

// ------------------------------------------------------------------ rows

/// The branch cell of a worktree: its label, marked when it is this process's, and the
/// issue its branch names.
pub open spec fn branch_span(w: WorktreeState) -> ElementModel {
    let s = holding(bare("span"@), mono_model(w.label@));
    let s = if w.current {
        holding(saying(s, " "@), tag_model("here"@))
    } else {
        s
    };
    match w.issue {
        Some(i) => holding(saying(s, " "@), tag_model(i@)),
        None => s,
    }
}

/// The path cell of a worktree: where it is, where it belongs when that is elsewhere, and
/// whether it is locked.
pub open spec fn path_span(w: WorktreeState) -> ElementModel {
    let s = holding(bare("span"@), mono_model(w.path@));
    let s = match w.expected_path {
        Some(x) => if w.standing != Standing::Canonical {
            holding(saying(holding(s, bare("br"@)), "belongs at "@), mono_model(x@))
        } else {
            s
        },
        None => s,
    };
    match w.locked {
        Some(_) => holding(saying(s, " "@), tag_model("locked"@)),
        None => s,
    }
}

/// The row of one worktree.
pub open spec fn worktree_row(w: WorktreeState) -> NodeModel {
    NodeModel::Element(
        ElementModel {
            children: seq![
                cell_of(badge_model(standing_status(w.standing), standing_word(w.standing))),
                cell_of(branch_span(w)),
                cell_of(path_span(w)),
                cell_of(mono_model(short_head(opt_text(w.head)))),
                NodeModel::Element(dirty_cell_model(w.dirty)),
                NodeModel::Element(upstream_cell_model(w.upstream)),
            ],
            ..bare("tr"@)
        },
    )
}

fn worktree_row_el(w: &WorktreeState) -> (r: El)
    ensures
        NodeModel::Element(r@) == worktree_row(*w),
{
    let mut branch = el("span").child(mono(w.label.as_str()));
    if w.current {
        branch = branch.text(" ").child(tag("here"));
    }
    match &w.issue {
        Some(i) => {
            branch = branch.text(" ").child(tag(i.as_str()));
        },
        None => {},
    }
    let mut path = el("span").child(mono(w.path.as_str()));
    match &w.expected_path {
        Some(x) => {
            if w.standing != Standing::Canonical {
                path = path.child(el("br")).text("belongs at ").child(mono(x.as_str()));
            }
        },
        None => {},
    }
    match &w.locked {
        Some(_) => {
            path = path.text(" ").child(tag("locked"));
        },
        None => {},
    }
    let head = short_head_text(
        match &w.head {
            Some(h) => Some(h.as_str()),
            None => None,
        },
    );
    let mut cells: Vec<El> = Vec::new();
    cells.push(cell(badge(w.standing.status(), w.standing.as_str())));
    cells.push(cell(branch));
    cells.push(cell(path));
    cells.push(cell(mono(head.as_str())));
    cells.push(dirty_cell(&w.dirty));
    cells.push(upstream_cell(&w.upstream));
    let r = row(cells);
    assert(els_model(cells@) =~= seq![
        cell_of(badge_model(standing_status(w.standing), standing_word(w.standing))),
        cell_of(branch_span(*w)),
        cell_of(path_span(*w)),
        cell_of(mono_model(short_head(opt_text(w.head)))),
        NodeModel::Element(dirty_cell_model(w.dirty)),
        NodeModel::Element(upstream_cell_model(w.upstream)),
    ]);
    r
}

/// The badge of whether a branch is merged into the trunk.
pub open spec fn merged_badge(b: BranchState) -> ElementModel {
    match b.merged_into_trunk {
        Some(true) => if b.cleanup_eligible {
            badge_model("ok"@, "merged, cleanup-eligible"@)
        } else {
            badge_model("ok"@, "merged"@)
        },
        Some(false) => badge_model("info"@, "unmerged"@),
        None => badge_model("unknown"@, "trunk unknown"@),
    }
}

/// The row of a branch checked out nowhere.
pub open spec fn branch_row(b: BranchState) -> NodeModel {
    let name = holding(bare("span"@), mono_model(b.name@));
    let name = match b.issue {
        Some(i) => holding(saying(name, " "@), tag_model(i@)),
        None => name,
    };
    NodeModel::Element(
        ElementModel {
            children: seq![
                cell_of(name),
                cell_of(mono_model(short_head(Some(b.head@)))),
                cell_of(merged_badge(b)),
                cell_of(
                    mono_model(
                        match b.expected_path {
                            Some(x) => x@,
                            None => "-"@,
                        },
                    ),
                ),
                cell_of(mono_model("majordomus worktree create "@ + b.name@)),
            ],
            ..bare("tr"@)
        },
    )
}

fn branch_row_el(b: &BranchState) -> (r: El)
    ensures
        NodeModel::Element(r@) == branch_row(*b),
{
    let mut name = el("span").child(mono(b.name.as_str()));
    match &b.issue {
        Some(i) => {
            name = name.text(" ").child(tag(i.as_str()));
        },
        None => {},
    }
    let merged = match b.merged_into_trunk {
        Some(true) => if b.cleanup_eligible {
            badge("ok", "merged, cleanup-eligible")
        } else {
            badge("ok", "merged")
        },
        Some(false) => badge("info", "unmerged"),
        None => badge("unknown", "trunk unknown"),
    };
    let head = short_head_text(Some(b.head.as_str()));
    let expected = match &b.expected_path {
        Some(x) => x.as_str(),
        None => "-",
    };
    let mut start = String::from_str("majordomus worktree create ");
    push_str(&mut start, b.name.as_str());
    let mut cells: Vec<El> = Vec::new();
    cells.push(cell(name));
    cells.push(cell(mono(head.as_str())));
    cells.push(cell(merged));
    cells.push(cell(mono(expected)));
    cells.push(cell(mono(start.as_str())));
    let r = row(cells);
    assert(els_model(cells@) =~= match branch_row(*b) {
        NodeModel::Element(e) => e.children,
        _ => seq![],
    });
    r
}

/// The rows of the branches checked out nowhere, in the order the topology listed them.
pub open spec fn branches_without(bs: Seq<BranchState>) -> Seq<NodeModel>
    decreases bs.len(),
{
    if bs.len() == 0 {
        seq![]
    } else {
        let before = branches_without(bs.drop_last());
        if bs.last().worktree is None {
            before.push(branch_row(bs.last()))
        } else {
            before
        }
    }
}

/// The row of one diagnostic.
pub open spec fn diagnostic_row(d: TopologyDiagnostic) -> NodeModel {
    let place = holding(
        bare("span"@),
        mono_model(
            match d.path {
                Some(p) => p@,
                None => "-"@,
            },
        ),
    );
    let place = match d.expected {
        Some(x) => holding(saying(holding(place, bare("br"@)), "belongs at "@), mono_model(x@)),
        None => place,
    };
    NodeModel::Element(
        ElementModel {
            children: seq![
                cell_of(badge_model(severity_status(d.severity), severity_word(d.severity))),
                cell_of(mono_model(d.code@)),
                cell_of(place),
                NodeModel::Element(saying(bare("td"@), d.message@)),
                cell_of(mono_model(d.remedy@)),
            ],
            ..bare("tr"@)
        },
    )
}

fn diagnostic_row_el(d: &TopologyDiagnostic) -> (r: El)
    ensures
        NodeModel::Element(r@) == diagnostic_row(*d),
{
    let mut place = el("span").child(
        mono(
            match &d.path {
                Some(p) => p.as_str(),
                None => "-",
            },
        ),
    );
    match &d.expected {
        Some(x) => {
            place = place.child(el("br")).text("belongs at ").child(mono(x.as_str()));
        },
        None => {},
    }
    let mut cells: Vec<El> = Vec::new();
    cells.push(cell(badge(d.severity.status(), d.severity.as_str())));
    cells.push(cell(mono(d.code.as_str())));
    cells.push(cell(place));
    cells.push(text_cell(d.message.as_str()));
    cells.push(cell(mono(d.remedy.as_str())));
    let r = row(cells);
    assert(els_model(cells@) =~= match diagnostic_row(*d) {
        NodeModel::Element(e) => e.children,
        _ => seq![],
    });
    r
}

/// The badge of what a step came to.
pub open spec fn outcome_badge(s: MigrationStep) -> ElementModel {
    match s.outcome {
        StepOutcome::Planned => badge_model("ok"@, spaced(s.action@)),
        StepOutcome::Blocked => badge_model("fail"@, "blocked"@),
        StepOutcome::Moved => badge_model("ok"@, "moved"@),
        StepOutcome::Failed => badge_model("fail"@, "failed"@),
    }
}

/// What stands in a step's way, one line each.
pub open spec fn blocker_node(b: Blocker) -> NodeModel {
    NodeModel::Element(saying(holding(bare("div"@), mono_model(b.code@)), " "@ + b.message@))
}

/// The row of one migration step.
pub open spec fn step_row(s: MigrationStep) -> NodeModel {
    NodeModel::Element(
        ElementModel {
            children: seq![
                cell_of(mono_model(s.branch@)),
                cell_of(mono_model(s.from@)),
                cell_of(mono_model(s.to@)),
                NodeModel::Element(saying(bare("td"@), s.dirty_summary@)),
                cell_of(outcome_badge(s)),
                cell_of(ElementModel { children: s.blockers@.map_values(|b: Blocker| blocker_node(b)), ..bare("span"@) }),
            ],
            ..bare("tr"@)
        },
    )
}

fn step_row_el(s: &MigrationStep) -> (r: El)
    ensures
        NodeModel::Element(r@) == step_row(*s),
{
    let outcome = match s.outcome {
        StepOutcome::Planned => {
            let words = spaced_text(s.action.as_str());
            badge("ok", words.as_str())
        },
        StepOutcome::Blocked => badge("fail", "blocked"),
        StepOutcome::Moved => badge("ok", "moved"),
        StepOutcome::Failed => badge("fail", "failed"),
    };
    let mut lines: Vec<El> = Vec::new();
    for k in 0..s.blockers.len()
        invariant
            lines@.len() == k,
            forall|i: int| 0 <= i < k ==> NodeModel::Element((#[trigger] lines@[i])@) == blocker_node(s.blockers@[i]),
    {
        let b = &s.blockers[k];
        let mut line = String::from_str(" ");
        push_str(&mut line, b.message.as_str());
        lines.push(el("div").child(mono(b.code.as_str())).text(line.as_str()));
    }
    let blockers = el("span").children(lines);
    assert(els_model(lines@) =~= s.blockers@.map_values(|b: Blocker| blocker_node(b)));
    assert(blockers@ =~= (ElementModel { children: s.blockers@.map_values(|b: Blocker| blocker_node(b)), ..bare("span"@) }));
    let mut cells: Vec<El> = Vec::new();
    cells.push(cell(mono(s.branch.as_str())));
    cells.push(cell(mono(s.from.as_str())));
    cells.push(cell(mono(s.to.as_str())));
    cells.push(text_cell(s.dirty_summary.as_str()));
    cells.push(cell(outcome));
    cells.push(cell(blockers));
    let r = row(cells);
    assert(els_model(cells@) =~= match step_row(*s) {
        NodeModel::Element(e) => e.children,
        _ => seq![],
    });
    r
}

// ------------------------------------------------------------------ cards

/// The rule every linked worktree's path follows.
pub const RULE: &'static str = "/<branch>: the branch name is the path, hierarchy kept, derived from git and registered nowhere";

/// The facts of the repository: its primary checkout, where worktrees live, its trunk, the
/// rule, and whether the topology is valid.
pub open spec fn identity_rows(t: RepositoryTopology) -> Seq<(Seq<char>, NodeModel)> {
    seq![
        ("Primary checkout"@, NodeModel::Element(mono_model(t.primary_worktree@))),
        (
            "Container"@,
            NodeModel::Element(
                saying(
                    holding(bare("span"@), mono_model(t.container_path@)),
                    if t.container_exists {
                        ""@
                    } else {
                        " (not created yet)"@
                    },
                ),
            ),
        ),
        (
            "Trunk"@,
            NodeModel::Element(
                saying(
                    holding(
                        bare("span"@),
                        mono_model(
                            match t.trunk_branch {
                                Some(b) => b@,
                                None => "(unknown)"@,
                            },
                        ),
                    ),
                    " — decided by "@ + spaced(t.trunk_source@),
                ),
            ),
        ),
        ("Rule"@, NodeModel::Element(saying(holding(saying(bare("span"@), "<repo>"@), mono_model(t.container_suffix@)), RULE@))),
        (
            "Topology"@,
            NodeModel::Element(
                if t.valid {
                    badge_model("ok"@, "valid"@)
                } else {
                    badge_model("fail"@, decimal_of(t.tallies.errors as nat) + " error(s)"@)
                },
            ),
        ),
    ]
}

fn identity_card(t: &RepositoryTopology) -> (r: El)
    ensures
        r@ == card_model("This repository"@, facts_model(identity_rows(*t))),
{
    let container = el("span").child(mono(t.container_path.as_str())).text(
        if t.container_exists {
            ""
        } else {
            " (not created yet)"
        },
    );
    let source = spaced_text(t.trunk_source.as_str());
    let mut decided = String::from_str(" — decided by ");
    push_str(&mut decided, source.as_str());
    let trunk = el("span").child(
        mono(
            match &t.trunk_branch {
                Some(b) => b.as_str(),
                None => "(unknown)",
            },
        ),
    ).text(decided.as_str());
    let rule = el("span").text("<repo>").child(mono(t.container_suffix.as_str())).text(RULE);
    let validity = if t.valid {
        badge("ok", "valid")
    } else {
        let mut n = decimal(t.tallies.errors);
        push_str(&mut n, " error(s)");
        badge("fail", n.as_str())
    };
    let mut rows: Vec<(&str, Node)> = Vec::new();
    rows.push(("Primary checkout", Node::Element(mono(t.primary_worktree.as_str()))));
    rows.push(("Container", Node::Element(container)));
    rows.push(("Trunk", Node::Element(trunk)));
    rows.push(("Rule", Node::Element(rule)));
    rows.push(("Topology", Node::Element(validity)));
    assert(rows_model(rows@) =~= identity_rows(*t));
    card("This repository", facts(rows))
}

/// The counts of the topology, each with what produced it.
pub open spec fn statistics_model(ta: Tallies) -> ElementModel {
    let s = classed("div"@, "mj-stats"@);
    let s = holding(s, statistic_model(decimal_of(ta.worktrees as nat), "worktrees"@, "worktree.topology"@));
    let s = holding(s, statistic_model(decimal_of(ta.canonical as nat), "canonical"@, "worktree.topology"@));
    let s = holding(s, statistic_model(decimal_of(ta.misplaced as nat), "misplaced"@, "worktree.topology"@));
    let s = holding(s, statistic_model(decimal_of(ta.ephemeral as nat), "ephemeral"@, "worktree.topology"@));
    let s = holding(s, statistic_model(decimal_of(ta.detached as nat), "detached"@, "worktree.topology"@));
    let s = holding(s, statistic_model(decimal_of(ta.dirty as nat), "with uncommitted work"@, "git status, one per worktree"@));
    let s = holding(
        s,
        statistic_model(decimal_of(ta.branches_without_worktree as nat), "branches without a worktree"@, "for-each-ref"@),
    );
    holding(
        s,
        statistic_model(
            decimal_of(ta.cleanup_eligible as nat),
            "cleanup-eligible branches"@,
            "merged into the trunk, clean or absent"@,
        ),
    )
}

fn statistics(ta: &Tallies) -> (r: El)
    ensures
        r@ == statistics_model(*ta),
{
    el("div").class("mj-stats").child(statistic(decimal(ta.worktrees).as_str(), "worktrees", "worktree.topology")).child(
        statistic(decimal(ta.canonical).as_str(), "canonical", "worktree.topology"),
    ).child(statistic(decimal(ta.misplaced).as_str(), "misplaced", "worktree.topology")).child(
        statistic(decimal(ta.ephemeral).as_str(), "ephemeral", "worktree.topology"),
    ).child(statistic(decimal(ta.detached).as_str(), "detached", "worktree.topology")).child(
        statistic(decimal(ta.dirty).as_str(), "with uncommitted work", "git status, one per worktree"),
    ).child(statistic(decimal(ta.branches_without_worktree).as_str(), "branches without a worktree", "for-each-ref")).child(
        statistic(
            decimal(ta.cleanup_eligible).as_str(),
            "cleanup-eligible branches",
            "merged into the trunk, clean or absent",
        ),
    )
}

/// The worktrees card.
pub open spec fn worktrees_card_model(ws: Seq<WorktreeState>) -> ElementModel {
    card_with_model(
        "Worktrees"@,
        link_model("/cockpit/capabilities/worktree.topology"@, "worktree.topology"@),
        table_model(
            seq!["Standing"@, "Branch"@, "Path"@, "HEAD"@, "Uncommitted work"@, "Upstream"@],
            ws.map_values(|w: WorktreeState| worktree_row(w)),
        ),
    )
}

fn worktrees_card(ws: &Vec<WorktreeState>) -> (r: El)
    ensures
        r@ == worktrees_card_model(ws@),
{
    let mut rows: Vec<El> = Vec::new();
    for k in 0..ws.len()
        invariant
            rows@.len() == k,
            forall|i: int| 0 <= i < k ==> NodeModel::Element((#[trigger] rows@[i])@) == worktree_row(ws@[i]),
    {
        rows.push(worktree_row_el(&ws[k]));
    }
    assert(els_model(rows@) =~= ws@.map_values(|w: WorktreeState| worktree_row(w)));
    let headers = ["Standing", "Branch", "Path", "HEAD", "Uncommitted work", "Upstream"];
    proof {
        assert(strs_model(headers@) =~= seq!["Standing"@, "Branch"@, "Path"@, "HEAD"@, "Uncommitted work"@, "Upstream"@]);
    }
    card_with(
        "Worktrees",
        link("/cockpit/capabilities/worktree.topology", "worktree.topology"),
        table(&headers, rows),
    )
}

/// An empty state.
pub open spec fn nothing_model(message: Seq<char>) -> ElementModel {
    saying(classed("p"@, "mj-empty"@), message)
}

/// The branches card: every local branch checked out nowhere.
pub open spec fn branches_card_model(bs: Seq<BranchState>) -> ElementModel {
    let rows = branches_without(bs);
    if rows.len() == 0 {
        card_model("Branches without a worktree"@, nothing_model("Every local branch is checked out somewhere."@))
    } else {
        card_model(
            "Branches without a worktree"@,
            table_model(seq!["Branch"@, "HEAD"@, "Merged into the trunk"@, "Would go to"@, "Start"@], rows),
        )
    }
}

fn branches_card(bs: &Vec<BranchState>) -> (r: El)
    ensures
        r@ == branches_card_model(bs@),
{
    let mut rows: Vec<El> = Vec::new();
    for k in 0..bs.len()
        invariant
            els_model(rows@) == branches_without(bs@.take(k as int)),
    {
        proof {
            assert(bs@.take(k + 1).drop_last() =~= bs@.take(k as int));
            assert(bs@.take(k + 1).last() == bs@[k as int]);
        }
        if bs[k].worktree.is_none() {
            let ghost before = rows@;
            let r = branch_row_el(&bs[k]);
            rows.push(r);
            assert(els_model(rows@) =~= els_model(before).push(NodeModel::Element(r@)));
        }
    }
    assert(bs@.take(bs@.len() as int) =~= bs@);
    if rows.len() == 0 {
        card("Branches without a worktree", nothing("Every local branch is checked out somewhere."))
    } else {
        let headers = ["Branch", "HEAD", "Merged into the trunk", "Would go to", "Start"];
        proof {
            assert(strs_model(headers@) =~= seq!["Branch"@, "HEAD"@, "Merged into the trunk"@, "Would go to"@, "Start"@]);
        }
        card("Branches without a worktree", table(&headers, rows))
    }
}

/// The diagnostics card.
pub open spec fn diagnostics_card_model(t: RepositoryTopology) -> ElementModel {
    if t.diagnostics@.len() == 0 {
        card_model("Diagnostics"@, nothing_model("Every worktree is where it belongs. Nothing to report."@))
    } else {
        card_with_model(
            "Diagnostics"@,
            badge_model(
                if t.valid {
                    "ok"@
                } else {
                    "fail"@
                },
                decimal_of(t.tallies.errors as nat) + " error(s), "@ + decimal_of(t.tallies.warnings as nat) + " warning(s)"@,
            ),
            table_model(
                seq!["Severity"@, "Code"@, "Where"@, "What"@, "Remedy"@],
                t.diagnostics@.map_values(|d: TopologyDiagnostic| diagnostic_row(d)),
            ),
        )
    }
}

fn diagnostics_card(t: &RepositoryTopology) -> (r: El)
    ensures
        r@ == diagnostics_card_model(*t),
{
    let ds = &t.diagnostics;
    if ds.len() == 0 {
        return card("Diagnostics", nothing("Every worktree is where it belongs. Nothing to report."));
    }
    let mut rows: Vec<El> = Vec::new();
    for k in 0..ds.len()
        invariant
            rows@.len() == k,
            forall|i: int| 0 <= i < k ==> NodeModel::Element((#[trigger] rows@[i])@) == diagnostic_row(ds@[i]),
    {
        rows.push(diagnostic_row_el(&ds[k]));
    }
    assert(els_model(rows@) =~= ds@.map_values(|d: TopologyDiagnostic| diagnostic_row(d)));
    let mut summary = decimal(t.tallies.errors);
    push_str(&mut summary, " error(s), ");
    push_str(&mut summary, decimal(t.tallies.warnings).as_str());
    push_str(&mut summary, " warning(s)");
    let headers = ["Severity", "Code", "Where", "What", "Remedy"];
    proof {
        assert(strs_model(headers@) =~= seq!["Severity"@, "Code"@, "Where"@, "What"@, "Remedy"@]);
    }
    card_with(
        "Diagnostics",
        badge(
            if t.valid {
                "ok"
            } else {
                "fail"
            },
            summary.as_str(),
        ),
        table(&headers, rows),
    )
}

/// What the migration card says of how a step moves.
pub const MIGRATION_PROSE: &'static str = "Each step moves one worktree with git, uncommitted work included, fingerprinted before and after; a step is reported as moved only when the two fingerprints are equal. Nothing here changes anything: the commands below do, from a terminal.";

/// The note under an empty plan about the worktrees left alone by design.
pub open spec fn exceptions_note(n: nat) -> Seq<char> {
    decimal_of(n)
        + " worktree(s) are not migrated by design — detached, ephemeral, or the primary checkout — and are listed under diagnostics."@
}

/// The commands that apply a plan.
pub open spec fn migrate_commands(movable: nat, blocked: nat) -> Seq<char> {
    "majordomus worktree migrate --plan   # the same plan, from a terminal\nmajordomus worktree migrate          # apply the "@
        + decimal_of(movable) + " movable step(s), verified\n"@ + if blocked > 0 {
        "# blocked steps say what to do; nothing is overwritten or forced\n"@
    } else {
        ""@
    }
}

/// The migration card: the plan could not be computed, there is nothing to move, or the
/// steps with the commands that apply them.
pub open spec fn migration_card_model(plan: Option<MigrationPlan>) -> ElementModel {
    match plan {
        None => card_model("Migration"@, nothing_model("The migration plan could not be computed."@)),
        Some(p) => if p.steps@.len() == 0 {
            let d = holding(
                bare("div"@),
                nothing_model("Nothing to migrate: every worktree with a branch is at its canonical path."@),
            );
            let d = if p.exceptions > 0 {
                holding(d, saying(classed("p"@, "mj-note"@), exceptions_note(p.exceptions as nat)))
            } else {
                d
            };
            card_with_model(
                "Migration"@,
                link_model("/cockpit/capabilities/worktree.migration_plan"@, "worktree.migration_plan"@),
                d,
            )
        } else {
            card_with_model(
                "Migration"@,
                badge_model(
                    "warn"@,
                    decimal_of(p.movable as nat) + " movable, "@ + decimal_of(p.blocked as nat) + " blocked"@,
                ),
                holding(
                    holding(
                        holding(bare("div"@), saying(classed("p"@, "mj-prose"@), MIGRATION_PROSE@)),
                        table_model(
                            seq!["Branch"@, "From"@, "To"@, "Uncommitted work"@, "Action"@, "Blocked by"@],
                            p.steps@.map_values(|s: MigrationStep| step_row(s)),
                        ),
                    ),
                    pre_model(migrate_commands(p.movable as nat, p.blocked as nat)),
                ),
            )
        },
    }
}

fn migration_card(plan: &Option<MigrationPlan>) -> (r: El)
    ensures
        r@ == migration_card_model(*plan),
{
    match plan {
        None => card("Migration", nothing("The migration plan could not be computed.")),
        Some(p) => {
            if p.steps.len() == 0 {
                let mut d = el("div").child(
                    nothing("Nothing to migrate: every worktree with a branch is at its canonical path."),
                );
                if p.exceptions > 0 {
                    let mut note = decimal(p.exceptions);
                    push_str(
                        &mut note,
                        " worktree(s) are not migrated by design — detached, ephemeral, or the primary checkout — and are listed under diagnostics.",
                    );
                    d = d.child(el("p").class("mj-note").text(note.as_str()));
                }
                card_with(
                    "Migration",
                    link("/cockpit/capabilities/worktree.migration_plan", "worktree.migration_plan"),
                    d,
                )
            } else {
                let mut rows: Vec<El> = Vec::new();
                for k in 0..p.steps.len()
                    invariant
                        rows@.len() == k,
                        forall|i: int|
                            0 <= i < k ==> NodeModel::Element((#[trigger] rows@[i])@) == step_row(p.steps@[i]),
                {
                    rows.push(step_row_el(&p.steps[k]));
                }
                assert(els_model(rows@) =~= p.steps@.map_values(|s: MigrationStep| step_row(s)));
                let mut summary = decimal(p.movable);
                push_str(&mut summary, " movable, ");
                push_str(&mut summary, decimal(p.blocked).as_str());
                push_str(&mut summary, " blocked");
                let mut commands = String::from_str(
                    "majordomus worktree migrate --plan   # the same plan, from a terminal\nmajordomus worktree migrate          # apply the ",
                );
                push_str(&mut commands, decimal(p.movable).as_str());
                push_str(&mut commands, " movable step(s), verified\n");
                push_str(
                    &mut commands,
                    if p.blocked > 0 {
                        "# blocked steps say what to do; nothing is overwritten or forced\n"
                    } else {
                        ""
                    },
                );
                let headers = ["Branch", "From", "To", "Uncommitted work", "Action", "Blocked by"];
                proof {
                    assert(strs_model(headers@) =~= seq![
                        "Branch"@,
                        "From"@,
                        "To"@,
                        "Uncommitted work"@,
                        "Action"@,
                        "Blocked by"@,
                    ]);
                }
                card_with(
                    "Migration",
                    badge("warn", summary.as_str()),
                    el("div").child(el("p").class("mj-prose").text(MIGRATION_PROSE)).child(table(&headers, rows)).child(
                        pre(commands.as_str()),
                    ),
                )
            }
        },
    }
}

/// The prose of the commands card.
pub const COMMANDS_PROSE: &'static str = "The Cockpit reads; the command line changes things. Every command below is the same service this page renders, and none of them takes a path — the path is derived.";

/// The commands a reader runs from a terminal.
pub const COMMANDS: &'static str = "majordomus worktree                          # where am I, and is that where I belong\nmajordomus worktree create <branch>          # start work: the branch from the trunk, the worktree at its path\ncd \"$(majordomus worktree path <branch>)\"\nmajordomus worktree migrate --plan           # what would move; nothing changes\nmajordomus worktree migrate                  # move, verify, report\nmajordomus worktree repair                   # drop stale registrations; deletes no directory\nmajordomus worktree cleanup                  # merged and clean: what could go, and how; deletes nothing\nmajordomus worktree remove <branch>          # one linked worktree; never dirty work unforced, never a branch";

/// What the live card says it does.
pub const LIVE_NOTE: &'static str = "While this page is visible it asks /api/v1/worktrees every few seconds and reloads when a worktree is created, moved or removed, so what you see is what git holds now.";

/// The subtitle of the page.
pub const WORKTREES_SUBTITLE: &'static str = "Where every branch's worktree belongs and where each one is: <repo>-wt/<branch>, derived from git and registered nowhere.";

/// The commands card.
pub open spec fn commands_card_model() -> ElementModel {
    card_model("Commands"@, holding(holding(bare("div"@), saying(classed("p"@, "mj-prose"@), COMMANDS_PROSE@)), pre_model(COMMANDS@)))
}

/// The card that follows the topology while the page is visible.
pub open spec fn live_card_model() -> ElementModel {
    holding(
        holding(
            with_attr(classed("section"@, "mj-card"@), "data-mj-worktrees"@, "/api/v1/worktrees"@),
            saying(classed("h2"@, "mj-card-title"@), "Live"@),
        ),
        saying(with_attr(classed("p"@, "mj-note"@), "data-mj-worktrees-note"@, ""@), LIVE_NOTE@),
    )
}

/// The body of the page.
pub open spec fn worktrees_body(t: RepositoryTopology, plan: Option<MigrationPlan>) -> ElementModel {
    let g = classed("div"@, "mj-grid"@);
    let g = holding(g, statistics_model(t.tallies));
    let g = holding(g, card_model("This repository"@, facts_model(identity_rows(t))));
    let g = holding(g, worktrees_card_model(t.worktrees@));
    let g = holding(g, diagnostics_card_model(t));
    let g = holding(g, migration_card_model(plan));
    let g = holding(g, branches_card_model(t.branches@));
    let g = holding(g, commands_card_model());
    holding(g, live_card_model())
}

/// The branch-to-worktree topology: every worktree with its standing, every branch without
/// one, every diagnostic with its remedy, and the migration plan with the command that
/// applies it. `topology` is what the topology answered, or why it did not; `plan` is the
/// migration plan, when it could be computed.
pub fn worktrees(topology: Result<RepositoryTopology, String>, plan: Option<MigrationPlan>) -> (r: Page)
    ensures
        r.area == Area::Worktrees,
        r.title@ == "Worktrees"@,
        match topology {
            Err(e) => r.main@ == failed_body(e@) && r.subtitle is None && r.breadcrumbs@.len() == 0 && r.status == 500
                && r.scripts@.len() == 0,
            Ok(t) => {
                &&& r.main@ == worktrees_body(t, plan)
                &&& r.subtitle matches Some(s) && s@ == WORKTREES_SUBTITLE@
                &&& trail_views(r.breadcrumbs@) == seq![("Cockpit"@, Some("/cockpit"@)), ("Worktrees"@, None::<Seq<char>>)]
                &&& r.status == 200
                &&& r.scripts@.len() == 1 && r.scripts@[0]@ == "worktrees.js"@
            },
        },
{
    let t = match topology {
        Ok(t) => t,
        Err(e) => return failed(Area::Worktrees, "Worktrees", e.as_str()),
    };
    let commands = card(
        "Commands",
        el("div").child(el("p").class("mj-prose").text(COMMANDS_PROSE)).child(pre(COMMANDS)),
    );
    let live = el("section").class("mj-card").attr("data-mj-worktrees", "/api/v1/worktrees").child(
        el("h2").class("mj-card-title").text("Live"),
    ).child(el("p").class("mj-note").attr("data-mj-worktrees-note", "").text(LIVE_NOTE));
    let body = el("div").class("mj-grid").child(statistics(&t.tallies)).child(identity_card(&t)).child(
        worktrees_card(&t.worktrees),
    ).child(diagnostics_card(&t)).child(migration_card(&plan)).child(branches_card(&t.branches)).child(commands).child(
        live,
    );
    let mut trail: Vec<(&str, Option<&str>)> = Vec::new();
    trail.push(("Cockpit", Some("/cockpit")));
    trail.push(("Worktrees", None));
    assert(given_trail(trail@) =~= seq![("Cockpit"@, Some("/cockpit"@)), ("Worktrees"@, None::<Seq<char>>)]);
    Page::new(Area::Worktrees, "Worktrees", body).subtitle(WORKTREES_SUBTITLE).trail(trail).script("worktrees.js")
}

} // verus!
