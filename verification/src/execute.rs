//! Carrying out plans: the file operations each plan asks for, in order,
//! and what an execution report records of each outcome. The operations
//! themselves are performed by the caller, who hands back their outcome.
use crate::organize::{image_conflicts, image_dir, OrganizePlan};
use crate::paths::{join_spec, parent_spec, with_extension_spec};
use crate::report::ExecutionReport;
use crate::text::{append_str, chars_of, owned, string_of, views};
use crate::types::OrganizeAction;
use vstd::prelude::*;

verus! {

// ---------------------------------------------------------------------------
// Outcomes
// ---------------------------------------------------------------------------

/// What became of one file operation.
#[derive(Debug, Clone)]
pub enum StepOutcome {
    /// Only described (dry run).
    DryRun,
    /// Performed.
    Done,
    /// Attempted and failed, with the error's text.
    Failed(String),
    /// Not attempted (no means to perform it).
    NotRun,
}

/// The plain value of an outcome.
pub enum OutcomeView {
    DryRun,
    Done,
    Failed(Seq<char>),
    NotRun,
}

impl View for StepOutcome {
    type V = OutcomeView;

    open spec fn view(&self) -> OutcomeView {
        match self {
            StepOutcome::DryRun => OutcomeView::DryRun,
            StepOutcome::Done => OutcomeView::Done,
            StepOutcome::Failed(e) => OutcomeView::Failed(e@),
            StepOutcome::NotRun => OutcomeView::NotRun,
        }
    }
}

/// What one recorded outcome adds to a report: to the executed, asset
/// and error counters, and at most one detail line.
pub struct Entry {
    pub executed: nat,
    pub assets: nat,
    pub errors: nat,
    pub line: Option<Seq<char>>,
}

pub open spec fn lines_of(e: Entry) -> Seq<Seq<char>> {
    match e.line {
        Some(l) => seq![l],
        None => seq![],
    }
}

/// `report` after `e` is recorded in it.
pub open spec fn recorded(
    old: ExecutionReport,
    new: ExecutionReport,
    e: Entry,
) -> bool {
    &&& new.operation@ == old.operation@
    &&& new.executed == old.executed + e.executed
    &&& new.asset_generated == old.asset_generated + e.assets
    &&& new.errors == old.errors + e.errors
    &&& new.blocked == old.blocked
    &&& new.guarded == old.guarded
    &&& new.skipped == old.skipped
    &&& views(new.details@) == views(old.details@) + lines_of(e)
}

/// Room in every counter for one more.
pub open spec fn has_room(r: ExecutionReport) -> bool {
    &&& r.executed < usize::MAX
    &&& r.asset_generated < usize::MAX
    &&& r.errors < usize::MAX
}

fn add_entry(report: &mut ExecutionReport, executed: usize, assets: usize, errors: usize, line: Option<String>)
    requires
        executed <= 1,
        assets <= 1,
        errors <= 1,
        has_room(*old(report)),
    ensures
        recorded(
            *old(report),
            *final(report),
            Entry { executed: executed as nat, assets: assets as nat, errors: errors as nat, line: crate::media::sv(line) },
        ),
{
    let ghost e = Entry {
        executed: executed as nat,
        assets: assets as nat,
        errors: errors as nat,
        line: crate::media::sv(line),
    };
    report.executed = report.executed + executed;
    report.asset_generated = report.asset_generated + assets;
    report.errors = report.errors + errors;
    let ghost before = views(report.details@);
    match line {
        Some(l) => {
            let ghost lv = l@;
            report.details.push(l);
            assert(lines_of(e) =~= seq![lv]);
            assert(views(report.details@) =~= before + lines_of(e));
        },
        None => {
            assert(lines_of(e) =~= Seq::<Seq<char>>::empty());
            assert(views(report.details@) =~= before + lines_of(e));
        },
    }
}

fn cat2(a: &str, b: &str) -> (r: String)
    ensures
        r@ == a@ + b@,
{
    let mut v = chars_of(a);
    append_str(&mut v, b);
    string_of(v.as_slice())
}

fn cat4(a: &str, b: &str, c: &str, d: &str) -> (r: String)
    ensures
        r@ == a@ + b@ + c@ + d@,
{
    let mut v = chars_of(a);
    append_str(&mut v, b);
    append_str(&mut v, c);
    append_str(&mut v, d);
    string_of(v.as_slice())
}

fn cat6(a: &str, b: &str, c: &str, d: &str, e: &str, f: &str) -> (r: String)
    ensures
        r@ == a@ + b@ + c@ + d@ + e@ + f@,
{
    let mut v = chars_of(a);
    append_str(&mut v, b);
    append_str(&mut v, c);
    append_str(&mut v, d);
    append_str(&mut v, e);
    append_str(&mut v, f);
    string_of(v.as_slice())
}

// ---------------------------------------------------------------------------
// Organize
// ---------------------------------------------------------------------------

/// One file operation of an organize plan.
#[derive(Debug, Clone)]
pub enum OrganizeStep {
    /// Create the target's directory.
    MakeDir(String),
    /// Move, copy or link the file.
    Transfer(OrganizeAction, String, String),
    /// Write the NFO file (path, content).
    WriteNfo(String, String),
    /// Download artwork (URL, path).
    Download(String, String),
}

/// The plain value of an organize step.
pub enum OrganizeStepView {
    MakeDir(Seq<char>),
    Transfer(OrganizeAction, Seq<char>, Seq<char>),
    WriteNfo(Seq<char>, Seq<char>),
    Download(Seq<char>, Seq<char>),
}

impl View for OrganizeStep {
    type V = OrganizeStepView;

    open spec fn view(&self) -> OrganizeStepView {
        match self {
            OrganizeStep::MakeDir(d) => OrganizeStepView::MakeDir(d@),
            OrganizeStep::Transfer(a, s, t) => OrganizeStepView::Transfer(*a, s@, t@),
            OrganizeStep::WriteNfo(p, c) => OrganizeStepView::WriteNfo(p@, c@),
            OrganizeStep::Download(u, p) => OrganizeStepView::Download(u@, p@),
        }
    }
}

pub open spec fn step_views(s: Seq<OrganizeStep>) -> Seq<OrganizeStepView> {
    s.map_values(|x: OrganizeStep| x@)
}

/// Where the `i`-th artwork of a plan is saved.
pub open spec fn image_path(target: Seq<char>, i: nat, url: Seq<char>) -> Seq<char> {
    join_spec(image_dir(target), crate::scraper::image_name(i, url))
}

/// The operations of an unblocked plan, in order: create the target's
/// directory (when the target has one), move/copy/link the file, write
/// the NFO file beside the target (when there is content for it), and
/// fetch each artwork URL into the target's directory.
pub open spec fn organize_steps_spec(p: OrganizePlan) -> Seq<OrganizeStepView> {
    let urls = views(p.image_urls@);
    (match parent_spec(p.target@) {
        Some(d) => seq![OrganizeStepView::MakeDir(d)],
        None => seq![],
    }) + seq![OrganizeStepView::Transfer(p.action, p.source@, p.target@)] + (match p.nfo_content {
        Some(c) => seq![OrganizeStepView::WriteNfo(with_extension_spec(p.target@, "nfo"@), c@)],
        None => seq![],
    }) + Seq::new(
        urls.len(),
        |i: int| OrganizeStepView::Download(urls[i], image_path(p.target@, i as nat, urls[i])),
    )
}

/// The operations of an unblocked plan (see `organize_steps_spec`).
pub fn organize_steps(plan: &OrganizePlan) -> (r: Vec<OrganizeStep>)
    ensures
        step_views(r@) == organize_steps_spec(*plan),
{
    let mut r: Vec<OrganizeStep> = Vec::new();
    let t = plan.target.as_str();
    let parent = crate::paths::parent(t);
    match parent {
        Some(d) => r.push(OrganizeStep::MakeDir(d)),
        None => {},
    }
    r.push(OrganizeStep::Transfer(plan.action, owned(plan.source.as_str()), owned(t)));
    match &plan.nfo_content {
        Some(c) => r.push(
            OrganizeStep::WriteNfo(crate::paths::with_extension(t, "nfo"), owned(c.as_str())),
        ),
        None => {},
    }
    let ghost head = step_views(r@);
    assert(head =~= (match parent_spec(plan.target@) {
        Some(d) => seq![OrganizeStepView::MakeDir(d)],
        None => seq![],
    }) + seq![OrganizeStepView::Transfer(plan.action, plan.source@, plan.target@)] + (
    match plan.nfo_content {
        Some(c) => seq![OrganizeStepView::WriteNfo(with_extension_spec(plan.target@, "nfo"@), c@)],
        None => seq![],
    }));
    let dir: String = match crate::paths::parent(t) {
        Some(d) => d,
        None => owned("."),
    };
    let ghost urls = views(plan.image_urls@);
    let ghost dl = Seq::new(
        urls.len(),
        |i: int| OrganizeStepView::Download(urls[i], image_path(plan.target@, i as nat, urls[i])),
    );
    let mut k: usize = 0;
    while k < plan.image_urls.len()
        invariant
            k <= plan.image_urls.len(),
            urls == views(plan.image_urls@),
            dl.len() == urls.len(),
            dl == Seq::new(
                urls.len(),
                |i: int| OrganizeStepView::Download(urls[i], image_path(plan.target@, i as nat, urls[i])),
            ),
            dir@ == image_dir(plan.target@),
            step_views(r@) == head + dl.take(k as int),
        decreases plan.image_urls.len() - k,
    {
        let u = plan.image_urls[k].as_str();
        let p = crate::scraper::build_image_path(dir.as_str(), k, u);
        let ghost before = step_views(r@);
        r.push(OrganizeStep::Download(owned(u), p));
        assert(urls[k as int] == u@);
        assert(dl.take(k + 1) =~= dl.take(k as int).push(dl[k as int]));
        assert(step_views(r@) =~= before.push(dl[k as int]));
        k = k + 1;
    }
    assert(dl.take(plan.image_urls.len() as int) =~= dl);
    r
}

pub open spec fn action_label_spec(a: OrganizeAction) -> Seq<char> {
    match a {
        OrganizeAction::Move => "move"@,
        OrganizeAction::Copy => "copy"@,
        OrganizeAction::HardLink => "hardlink"@,
        OrganizeAction::SymLink => "symlink"@,
    }
}

/// The name an organize action is reported by.
pub fn action_label(a: OrganizeAction) -> (r: &'static str)
    ensures
        r@ == action_label_spec(a),
{
    match a {
        OrganizeAction::Move => "move",
        OrganizeAction::Copy => "copy",
        OrganizeAction::HardLink => "hardlink",
        OrganizeAction::SymLink => "symlink",
    }
}

pub open spec fn arrow() -> Seq<char> {
    " \u{2192} "@
}

/// What the report records of an organize step's outcome. Creating the
/// directory is only mentioned in a dry run or when it fails; the
/// transfer counts as an executed action; the NFO file and each artwork
/// count as generated assets; every failure counts as an error. An
/// operation that was not attempted leaves no trace.
pub open spec fn organize_entry(s: OrganizeStepView, o: OutcomeView) -> Entry {
    match o {
        OutcomeView::NotRun => Entry { executed: 0, assets: 0, errors: 0, line: None },
        OutcomeView::Failed(e) => Entry {
            executed: 0,
            assets: 0,
            errors: 1,
            line: Some(
                match s {
                    OrganizeStepView::MakeDir(d) => "[error] mkdir "@ + d + ": "@ + e,
                    OrganizeStepView::Transfer(_, src, dst) => "[error] "@ + src + arrow() + dst
                        + ": "@ + e,
                    OrganizeStepView::WriteNfo(p, _) => "[error] write nfo "@ + p + ": "@ + e,
                    OrganizeStepView::Download(_, _) => "[error] "@ + e,
                },
            ),
        },
        OutcomeView::DryRun => match s {
            OrganizeStepView::MakeDir(d) => Entry {
                executed: 0,
                assets: 0,
                errors: 0,
                line: Some("[dry-run] mkdir -p "@ + d),
            },
            OrganizeStepView::Transfer(a, src, dst) => Entry {
                executed: 1,
                assets: 0,
                errors: 0,
                line: Some("[dry-run] "@ + action_label_spec(a) + " "@ + src + arrow() + dst),
            },
            OrganizeStepView::WriteNfo(p, _) => Entry {
                executed: 0,
                assets: 1,
                errors: 0,
                line: Some("[dry-run] write nfo "@ + p),
            },
            OrganizeStepView::Download(u, _) => Entry {
                executed: 0,
                assets: 1,
                errors: 0,
                line: Some("[dry-run] download image from "@ + u),
            },
        },
        OutcomeView::Done => match s {
            OrganizeStepView::MakeDir(_) => Entry { executed: 0, assets: 0, errors: 0, line: None },
            OrganizeStepView::Transfer(a, src, dst) => Entry {
                executed: 1,
                assets: 0,
                errors: 0,
                line: Some("["@ + action_label_spec(a) + "] "@ + src + arrow() + dst),
            },
            OrganizeStepView::WriteNfo(p, _) => Entry {
                executed: 0,
                assets: 1,
                errors: 0,
                line: Some("[nfo] "@ + p),
            },
            OrganizeStepView::Download(_, p) => Entry {
                executed: 0,
                assets: 1,
                errors: 0,
                line: Some("[image] "@ + p),
            },
        },
    }
}

/// Whether the plan's remaining operations go ahead: not after its
/// directory could not be created.
pub open spec fn organize_goes_on(s: OrganizeStepView, o: OutcomeView) -> bool {
    !(s is MakeDir && o is Failed)
}

/// Whether a plan's remaining operations go ahead after this outcome (see
/// `organize_goes_on`).
pub fn operation_goes_on(step: &OrganizeStep, outcome: &StepOutcome) -> (r: bool)
    ensures
        r == organize_goes_on(step@, outcome@),
{
    match (step, outcome) {
        (OrganizeStep::MakeDir(_), StepOutcome::Failed(_)) => false,
        _ => true,
    }
}

/// The line the report holds for a file transfer that was done.
pub fn transfer_done_line(action: OrganizeAction, source: &str, target: &str) -> (r: String)
    ensures
        r@ == "["@ + action_label_spec(action) + "] "@ + source@ + arrow() + target@,
{
    let mut v = chars_of("[");
    append_str(&mut v, action_label(action));
    append_str(&mut v, "] ");
    append_str(&mut v, source);
    append_str(&mut v, " \u{2192} ");
    append_str(&mut v, target);
    string_of(v.as_slice())
}

/// Records the outcome of an organize step (see `organize_entry`) and
/// says whether the plan's remaining operations go ahead.
pub fn record_organize_step(report: &mut ExecutionReport, step: &OrganizeStep, outcome: &StepOutcome) -> (go_on: bool)
    requires
        has_room(*old(report)),
    ensures
        recorded(*old(report), *final(report), organize_entry(step@, outcome@)),
        go_on == organize_goes_on(step@, outcome@),
{
    match outcome {
        StepOutcome::NotRun => {
            add_entry(report, 0, 0, 0, None);
            true
        },
        StepOutcome::Failed(e) => {
            let e = e.as_str();
            match step {
                OrganizeStep::MakeDir(d) => {
                    add_entry(report, 0, 0, 1, Some(cat4("[error] mkdir ", d.as_str(), ": ", e)));
                    false
                },
                OrganizeStep::Transfer(_, s, t) => {
                    add_entry(
                        report,
                        0,
                        0,
                        1,
                        Some(cat6("[error] ", s.as_str(), " \u{2192} ", t.as_str(), ": ", e)),
                    );
                    true
                },
                OrganizeStep::WriteNfo(p, _) => {
                    add_entry(report, 0, 0, 1, Some(cat4("[error] write nfo ", p.as_str(), ": ", e)));
                    true
                },
                OrganizeStep::Download(_, _) => {
                    add_entry(report, 0, 0, 1, Some(cat2("[error] ", e)));
                    true
                },
            }
        },
        StepOutcome::DryRun => {
            match step {
                OrganizeStep::MakeDir(d) => {
                    add_entry(report, 0, 0, 0, Some(cat2("[dry-run] mkdir -p ", d.as_str())));
                },
                OrganizeStep::Transfer(a, s, t) => {
                    add_entry(
                        report,
                        1,
                        0,
                        0,
                        Some(
                            cat6("[dry-run] ", action_label(*a), " ", s.as_str(), " \u{2192} ", t.as_str()),
                        ),
                    );
                },
                OrganizeStep::WriteNfo(p, _) => {
                    add_entry(report, 0, 1, 0, Some(cat2("[dry-run] write nfo ", p.as_str())));
                },
                OrganizeStep::Download(u, _) => {
                    add_entry(report, 0, 1, 0, Some(cat2("[dry-run] download image from ", u.as_str())));
                },
            }
            true
        },
        StepOutcome::Done => {
            match step {
                OrganizeStep::MakeDir(_) => {
                    add_entry(report, 0, 0, 0, None);
                },
                OrganizeStep::Transfer(a, s, t) => {
                    add_entry(
                        report,
                        1,
                        0,
                        0,
                        Some(cat6("[", action_label(*a), "] ", s.as_str(), " \u{2192} ", t.as_str())),
                    );
                },
                OrganizeStep::WriteNfo(p, _) => {
                    add_entry(report, 0, 1, 0, Some(cat2("[nfo] ", p.as_str())));
                },
                OrganizeStep::Download(_, p) => {
                    add_entry(report, 0, 1, 0, Some(cat2("[image] ", p.as_str())));
                },
            }
            true
        },
    }
}


/// The lines recorded for a plan blocked by conflicts.
pub open spec fn blocked_lines(source: Seq<char>, conflicts: Seq<Seq<char>>) -> Seq<Seq<char>> {
    seq!["[conflict] "@ + source] + conflicts.map_values(|c: Seq<char>| "  - "@ + c)
}

/// Records a plan blocked by conflicts: one more blocked plan, its
/// source, then each conflict.
pub fn record_blocked(report: &mut ExecutionReport, source: &str, conflicts: &Vec<String>)
    requires
        old(report).blocked < usize::MAX,
    ensures
        final(report).operation@ == old(report).operation@,
        final(report).blocked == old(report).blocked + 1,
        final(report).executed == old(report).executed,
        final(report).asset_generated == old(report).asset_generated,
        final(report).errors == old(report).errors,
        final(report).guarded == old(report).guarded,
        final(report).skipped == old(report).skipped,
        views(final(report).details@) == views(old(report).details@) + blocked_lines(
            source@,
            views(conflicts@),
        ),
{
    report.blocked = report.blocked + 1;
    let ghost base = views(report.details@);
    report.details.push(cat2("[conflict] ", source));
    let ghost cv = views(conflicts@);
    let ghost mapped = cv.map_values(|c: Seq<char>| "  - "@ + c);
    let mut i: usize = 0;
    while i < conflicts.len()
        invariant
            i <= conflicts.len(),
            cv == views(conflicts@),
            mapped == cv.map_values(|c: Seq<char>| "  - "@ + c),
            report.operation@ == old(report).operation@,
            report.blocked == old(report).blocked + 1,
            report.executed == old(report).executed,
            report.asset_generated == old(report).asset_generated,
            report.errors == old(report).errors,
            report.guarded == old(report).guarded,
            report.skipped == old(report).skipped,
            views(report.details@) == base + seq!["[conflict] "@ + source@] + mapped.take(i as int),
        decreases conflicts.len() - i,
    {
        let ghost before = views(report.details@);
        report.details.push(cat2("  - ", conflicts[i].as_str()));
        assert(mapped.take(i + 1) =~= mapped.take(i as int).push(mapped[i as int]));
        assert(views(report.details@) =~= before.push(mapped[i as int]));
        i = i + 1;
    }
    assert(mapped.take(conflicts.len() as int) =~= mapped);
    assert(views(report.details@) =~= base + blocked_lines(source@, cv));
}

/// The line a dry run records for an organize step.
pub open spec fn dry_line(s: OrganizeStepView) -> Seq<char> {
    organize_entry(s, OutcomeView::DryRun).line->0
}

/// Actions a dry run counts for a run of steps.
pub open spec fn dry_executed_of(s: Seq<OrganizeStepView>) -> nat
    decreases s.len(),
{
    if s.len() == 0 {
        0
    } else {
        dry_executed_of(s.drop_last()) + organize_entry(s.last(), OutcomeView::DryRun).executed
    }
}

/// Assets a dry run counts for a run of steps.
pub open spec fn dry_assets_of(s: Seq<OrganizeStepView>) -> nat
    decreases s.len(),
{
    if s.len() == 0 {
        0
    } else {
        dry_assets_of(s.drop_last()) + organize_entry(s.last(), OutcomeView::DryRun).assets
    }
}

pub open spec fn plan_blocked(p: OrganizePlan) -> bool {
    p.conflicts@.len() > 0
}

/// The lines a dry run records for one plan.
pub open spec fn plan_dry_lines(p: OrganizePlan) -> Seq<Seq<char>> {
    if plan_blocked(p) {
        blocked_lines(p.source@, views(p.conflicts@))
    } else {
        organize_steps_spec(p).map_values(|s: OrganizeStepView| dry_line(s))
    }
}

pub open spec fn plan_dry_executed(p: OrganizePlan) -> nat {
    if plan_blocked(p) {
        0
    } else {
        dry_executed_of(organize_steps_spec(p))
    }
}

pub open spec fn plan_dry_assets(p: OrganizePlan) -> nat {
    if plan_blocked(p) {
        0
    } else {
        dry_assets_of(organize_steps_spec(p))
    }
}

/// The detail lines of a dry run over the first `n` plans.
pub open spec fn dry_run_details(plans: Seq<OrganizePlan>, n: nat) -> Seq<Seq<char>>
    decreases n,
{
    if n == 0 {
        seq![]
    } else {
        dry_run_details(plans, (n - 1) as nat) + plan_dry_lines(plans[n - 1])
    }
}

pub open spec fn dry_run_blocked(plans: Seq<OrganizePlan>, n: nat) -> nat
    decreases n,
{
    if n == 0 {
        0
    } else {
        dry_run_blocked(plans, (n - 1) as nat) + if plan_blocked(plans[n - 1]) {
            1nat
        } else {
            0nat
        }
    }
}

pub open spec fn dry_run_executed(plans: Seq<OrganizePlan>, n: nat) -> nat
    decreases n,
{
    if n == 0 {
        0
    } else {
        dry_run_executed(plans, (n - 1) as nat) + plan_dry_executed(plans[n - 1])
    }
}

pub open spec fn dry_run_assets(plans: Seq<OrganizePlan>, n: nat) -> nat
    decreases n,
{
    if n == 0 {
        0
    } else {
        dry_run_assets(plans, (n - 1) as nat) + plan_dry_assets(plans[n - 1])
    }
}

proof fn lemma_dry_run_assets_mono(plans: Seq<OrganizePlan>, i: nat, j: nat)
    requires
        i <= j,
    ensures
        dry_run_assets(plans, i) <= dry_run_assets(plans, j),
    decreases j,
{
    if i < j {
        lemma_dry_run_assets_mono(plans, i, (j - 1) as nat);
    }
}

proof fn lemma_dry_run_executed_mono(plans: Seq<OrganizePlan>, i: nat, j: nat)
    requires
        i <= j,
    ensures
        dry_run_executed(plans, i) <= dry_run_executed(plans, j),
    decreases j,
{
    if i < j {
        lemma_dry_run_executed_mono(plans, i, (j - 1) as nat);
    }
}

proof fn lemma_dry_assets_prefix(s: Seq<OrganizeStepView>, j: int)
    requires
        0 <= j <= s.len(),
    ensures
        dry_assets_of(s.take(j)) <= dry_assets_of(s),
        dry_executed_of(s.take(j)) <= dry_executed_of(s),
    decreases s.len() - j,
{
    if j < s.len() {
        lemma_dry_assets_prefix(s, j + 1);
        assert(s.take(j + 1).drop_last() =~= s.take(j));
    } else {
        assert(s.take(j) =~= s);
    }
}

/// What a dry run of organize plans reports: each plan blocked by
/// conflicts is counted and listed with its conflicts; every other plan
/// lists each of its operations (see `organize_steps_spec`), counting the
/// transfer as an action and the NFO file and artwork as assets.
pub fn organize_dry_run(plans: &Vec<OrganizePlan>) -> (r: ExecutionReport)
    requires
        dry_run_assets(plans@, plans.len() as nat) < usize::MAX,
        dry_run_executed(plans@, plans.len() as nat) < usize::MAX,
    ensures
        r.operation@ == "organize"@,
        r.blocked == dry_run_blocked(plans@, plans.len() as nat),
        r.executed == dry_run_executed(plans@, plans.len() as nat),
        r.asset_generated == dry_run_assets(plans@, plans.len() as nat),
        r.errors == 0 && r.guarded == 0 && r.skipped == 0,
        views(r.details@) == dry_run_details(plans@, plans.len() as nat),
{
    let mut report = ExecutionReport::new("organize");
    assert(views(report.details@) =~= Seq::<Seq<char>>::empty());
    let ghost total_assets = dry_run_assets(plans@, plans.len() as nat);
    let ghost total_executed = dry_run_executed(plans@, plans.len() as nat);
    let mut i: usize = 0;
    while i < plans.len()
        invariant
            i <= plans.len(),
            total_assets == dry_run_assets(plans@, plans.len() as nat),
            total_executed == dry_run_executed(plans@, plans.len() as nat),
            total_assets < usize::MAX,
            total_executed < usize::MAX,
            report.operation@ == "organize"@,
            report.blocked == dry_run_blocked(plans@, i as nat),
            report.blocked <= i,
            report.executed == dry_run_executed(plans@, i as nat),
            report.asset_generated == dry_run_assets(plans@, i as nat),
            report.errors == 0 && report.guarded == 0 && report.skipped == 0,
            views(report.details@) == dry_run_details(plans@, i as nat),
        decreases plans.len() - i,
    {
        let plan = &plans[i];
        proof {
            lemma_dry_run_assets_mono(plans@, (i + 1) as nat, plans.len() as nat);
            lemma_dry_run_executed_mono(plans@, (i + 1) as nat, plans.len() as nat);
        }
        if plan.conflicts.len() > 0 {
            record_blocked(&mut report, plan.source.as_str(), &plan.conflicts);
        } else {
            let steps = organize_steps(plan);
            let ghost sv = step_views(steps@);
            let ghost d0 = views(report.details@);
            let ghost e0 = report.executed as nat;
            let ghost a0 = report.asset_generated as nat;
            let mut j: usize = 0;
            while j < steps.len()
                invariant
                    j <= steps.len(),
                    sv == step_views(steps@),
                    sv == organize_steps_spec(*plan),
                    !plan_blocked(*plan),
                    e0 + dry_executed_of(sv) < usize::MAX,
                    a0 + dry_assets_of(sv) < usize::MAX,
                    report.operation@ == "organize"@,
                    report.executed == e0 + dry_executed_of(sv.take(j as int)),
                    report.asset_generated == a0 + dry_assets_of(sv.take(j as int)),
                    report.errors == 0 && report.guarded == 0,
                    report.blocked == dry_run_blocked(plans@, i as nat),
                    report.skipped == 0,
                    views(report.details@) == d0 + sv.take(j as int).map_values(
                        |s: OrganizeStepView| dry_line(s),
                    ),
                decreases steps.len() - j,
            {
                proof {
                    lemma_dry_assets_prefix(sv, j + 1);
                    assert(sv.take(j + 1).drop_last() =~= sv.take(j as int));
                    assert(sv[j as int] == steps@[j as int]@);
                }
                let ghost before = views(report.details@);
                let _ = record_organize_step(&mut report, &steps[j], &StepOutcome::DryRun);
                assert(sv.take(j + 1).map_values(|s: OrganizeStepView| dry_line(s)) =~= sv.take(
                    j as int,
                ).map_values(|s: OrganizeStepView| dry_line(s)).push(dry_line(sv[j as int])));
                assert(views(report.details@) =~= before.push(dry_line(sv[j as int])));
                j = j + 1;
            }
            assert(sv.take(steps.len() as int) =~= sv);
        }
        assert(plans@.take(i + 1).drop_last() =~= plans@.take(i as int));
        i = i + 1;
    }
    report
}


proof fn lemma_dry_sums_concat(a: Seq<OrganizeStepView>, b: Seq<OrganizeStepView>)
    ensures
        dry_executed_of(a + b) == dry_executed_of(a) + dry_executed_of(b),
        dry_assets_of(a + b) == dry_assets_of(a) + dry_assets_of(b),
    decreases b.len(),
{
    if b.len() > 0 {
        lemma_dry_sums_concat(a, b.drop_last());
        assert((a + b).drop_last() =~= a + b.drop_last());
        assert((a + b).last() == b.last());
    } else {
        assert(a + b =~= a);
    }
}

proof fn lemma_download_sums(target: Seq<char>, urls: Seq<Seq<char>>, n: nat)
    requires
        n <= urls.len(),
    ensures
        dry_executed_of(
            Seq::new(n, |i: int| OrganizeStepView::Download(urls[i], image_path(target, i as nat, urls[i]))),
        ) == 0,
        dry_assets_of(
            Seq::new(n, |i: int| OrganizeStepView::Download(urls[i], image_path(target, i as nat, urls[i]))),
        ) == n,
    decreases n,
{
    let s = Seq::new(n, |i: int| OrganizeStepView::Download(urls[i], image_path(target, i as nat, urls[i])));
    if n > 0 {
        lemma_download_sums(target, urls, (n - 1) as nat);
        assert(s.drop_last() =~= Seq::new(
            (n - 1) as nat,
            |i: int| OrganizeStepView::Download(urls[i], image_path(target, i as nat, urls[i])),
        ));
    }
}

/// A dry run of a plan free of conflicts counts its transfer as its one
/// action, and its NFO file (when it has content for one) and each of
/// its artwork URLs as generated assets.
pub proof fn lemma_dry_run_plan_counts(p: OrganizePlan)
    requires
        !plan_blocked(p),
    ensures
        plan_dry_executed(p) == 1,
        plan_dry_assets(p) == (if p.nfo_content is Some {
            1nat
        } else {
            0nat
        }) + p.image_urls@.len(),
{
    let urls = views(p.image_urls@);
    let a: Seq<OrganizeStepView> = match parent_spec(p.target@) {
        Some(d) => seq![OrganizeStepView::MakeDir(d)],
        None => seq![],
    };
    let b = seq![OrganizeStepView::Transfer(p.action, p.source@, p.target@)];
    let c: Seq<OrganizeStepView> = match p.nfo_content {
        Some(x) => seq![OrganizeStepView::WriteNfo(with_extension_spec(p.target@, "nfo"@), x@)],
        None => seq![],
    };
    let d = Seq::new(
        urls.len(),
        |i: int| OrganizeStepView::Download(urls[i], image_path(p.target@, i as nat, urls[i])),
    );
    assert(organize_steps_spec(p) == a + b + c + d);
    lemma_dry_sums_concat(a, b);
    lemma_dry_sums_concat(a + b, c);
    lemma_dry_sums_concat(a + b + c, d);
    lemma_download_sums(p.target@, urls, urls.len());
    match parent_spec(p.target@) {
        Some(dd) => {
            assert(a.drop_last() =~= Seq::<OrganizeStepView>::empty());
            assert(dry_executed_of(a.drop_last()) == 0);
            assert(dry_assets_of(a.drop_last()) == 0);
            assert(a.last() == OrganizeStepView::MakeDir(dd));
            assert(organize_entry(a.last(), OutcomeView::DryRun).assets == 0);
            assert(dry_executed_of(a) == 0);
            assert(dry_assets_of(a) == 0);
        },
        None => {
            assert(dry_executed_of(a) == 0);
            assert(dry_assets_of(a) == 0);
        },
    }
    assert(dry_executed_of(b) == 1 && dry_assets_of(b) == 0) by {
        assert(b.drop_last() =~= Seq::<OrganizeStepView>::empty());
    }
    assert(dry_executed_of(c) == 0 && dry_assets_of(c) == (if p.nfo_content is Some {
        1nat
    } else {
        0nat
    })) by {
        if c.len() > 0 {
            assert(c.drop_last() =~= Seq::<OrganizeStepView>::empty());
        }
    }
}


// ---------------------------------------------------------------------------
// Rename
// ---------------------------------------------------------------------------

/// One renaming of a rename run; a directory is only renamed when it
/// exists and its new name is free (checked by the caller).
#[derive(Debug, Clone)]
pub struct RenameStep {
    pub old_path: String,
    pub new_path: String,
    pub directory: bool,
}

pub open spec fn rename_step_view(s: RenameStep) -> (Seq<char>, Seq<char>, bool) {
    (s.old_path@, s.new_path@, s.directory)
}

pub open spec fn rename_step_views(s: Seq<RenameStep>) -> Seq<(Seq<char>, Seq<char>, bool)> {
    s.map_values(|x: RenameStep| rename_step_view(x))
}

pub open spec fn as_steps(pairs: Seq<crate::rename::PathPair>, directory: bool) -> Seq<
    (Seq<char>, Seq<char>, bool),
> {
    pairs.map_values(|p: crate::rename::PathPair| (p.0, p.1, directory))
}

/// The renamings of one plan, in order: the file itself (unless its name
/// does not change), its subtitles, then its directories.
pub open spec fn plan_rename_steps(p: crate::rename::PlanModel) -> Seq<(Seq<char>, Seq<char>, bool)> {
    (if p.old != p.new {
        seq![(p.old, p.new, false)]
    } else {
        seq![]
    }) + as_steps(p.subs, false) + as_steps(p.dirs, true)
}

/// The renamings of the first `n` plans.
pub open spec fn rename_steps_spec(plans: Seq<crate::media::RenamePlan>, n: nat) -> Seq<
    (Seq<char>, Seq<char>, bool),
>
    decreases n,
{
    if n == 0 {
        seq![]
    } else {
        rename_steps_spec(plans, (n - 1) as nat) + plan_rename_steps(plans[n - 1]@)
    }
}

fn push_step(r: &mut Vec<RenameStep>, from: &str, to: &str, directory: bool)
    ensures
        rename_step_views(final(r)@) == rename_step_views(old(r)@).push((from@, to@, directory)),
{
    let ghost before = rename_step_views(r@);
    r.push(RenameStep { old_path: owned(from), new_path: owned(to), directory });
    assert(rename_step_views(r@) =~= before.push((from@, to@, directory)));
}

/// The renamings a rename run performs, in order (see `plan_rename_steps`).
pub fn rename_steps(plans: &Vec<crate::media::RenamePlan>) -> (r: Vec<RenameStep>)
    ensures
        rename_step_views(r@) == rename_steps_spec(plans@, plans.len() as nat),
{
    let mut r: Vec<RenameStep> = Vec::new();
    assert(rename_step_views(r@) =~= Seq::<(Seq<char>, Seq<char>, bool)>::empty());
    let mut i: usize = 0;
    while i < plans.len()
        invariant
            i <= plans.len(),
            rename_step_views(r@) == rename_steps_spec(plans@, i as nat),
        decreases plans.len() - i,
    {
        let plan = &plans[i];
        let ghost pm = plan@;
        let ghost base = rename_step_views(r@);
        if !crate::text::str_eq(plan.old_path.as_str(), plan.new_path.as_str()) {
            push_step(&mut r, plan.old_path.as_str(), plan.new_path.as_str(), false);
        }
        let ghost first: Seq<(Seq<char>, Seq<char>, bool)> = if pm.old != pm.new {
            seq![(pm.old, pm.new, false)]
        } else {
            seq![]
        };
        assert(rename_step_views(r@) =~= base + first);
        let ghost subs = as_steps(pm.subs, false);
        let mut k: usize = 0;
        while k < plan.subtitle_plans.len()
            invariant
                k <= plan.subtitle_plans.len(),
                pm == plan@,
                subs == as_steps(pm.subs, false),
                rename_step_views(r@) == base + first + subs.take(k as int),
            decreases plan.subtitle_plans.len() - k,
        {
            let sp = &plan.subtitle_plans[k];
            push_step(&mut r, sp.old_path.as_str(), sp.new_path.as_str(), false);
            assert(subs.take(k + 1) =~= subs.take(k as int).push(subs[k as int]));
            k = k + 1;
        }
        assert(subs.take(plan.subtitle_plans.len() as int) =~= subs);
        let ghost dirs = as_steps(pm.dirs, true);
        let mut k: usize = 0;
        while k < plan.directory_plans.len()
            invariant
                k <= plan.directory_plans.len(),
                pm == plan@,
                subs == as_steps(pm.subs, false),
                dirs == as_steps(pm.dirs, true),
                rename_step_views(r@) == base + first + subs + dirs.take(k as int),
            decreases plan.directory_plans.len() - k,
        {
            let dp = &plan.directory_plans[k];
            push_step(&mut r, dp.old_path.as_str(), dp.new_path.as_str(), true);
            assert(dirs.take(k + 1) =~= dirs.take(k as int).push(dirs[k as int]));
            k = k + 1;
        }
        assert(dirs.take(plan.directory_plans.len() as int) =~= dirs);
        assert(rename_step_views(r@) =~= base + plan_rename_steps(pm));
        assert(plans@.take(i + 1).drop_last() =~= plans@.take(i as int));
        i = i + 1;
    }
    r
}

/// The line recorded for a renaming's outcome; nothing when it was not
/// attempted.
pub open spec fn rename_line_spec(old: Seq<char>, new: Seq<char>, o: OutcomeView) -> Option<Seq<char>> {
    match o {
        OutcomeView::DryRun => Some("[dry-run] "@ + old + arrow() + new),
        OutcomeView::Done => Some("[renamed] "@ + old + arrow() + new),
        OutcomeView::Failed(e) => Some("[error] "@ + old + arrow() + new + ": "@ + e),
        OutcomeView::NotRun => None,
    }
}

/// The line recorded for a renaming's outcome (see `rename_line_spec`).
pub fn rename_line(step: &RenameStep, outcome: &StepOutcome) -> (r: Option<String>)
    ensures
        crate::media::sv(r) == rename_line_spec(step.old_path@, step.new_path@, outcome@),
{
    let a = step.old_path.as_str();
    let b = step.new_path.as_str();
    match outcome {
        StepOutcome::DryRun => Some(cat4("[dry-run] ", a, " \u{2192} ", b)),
        StepOutcome::Done => Some(cat4("[renamed] ", a, " \u{2192} ", b)),
        StepOutcome::Failed(e) => Some(cat6("[error] ", a, " \u{2192} ", b, ": ", e.as_str())),
        StepOutcome::NotRun => None,
    }
}

/// The lines of a dry run of rename plans: one per renaming, in order.
pub fn rename_dry_run(plans: &Vec<crate::media::RenamePlan>) -> (r: Vec<String>)
    ensures
        views(r@) == rename_steps_spec(plans@, plans.len() as nat).map_values(
            |s: (Seq<char>, Seq<char>, bool)| "[dry-run] "@ + s.0 + arrow() + s.1,
        ),
{
    let steps = rename_steps(plans);
    let ghost sv = rename_step_views(steps@);
    let ghost lines = sv.map_values(|s: (Seq<char>, Seq<char>, bool)| "[dry-run] "@ + s.0 + arrow() + s.1);
    let mut r: Vec<String> = Vec::new();
    let mut k: usize = 0;
    while k < steps.len()
        invariant
            k <= steps.len(),
            sv == rename_step_views(steps@),
            lines == sv.map_values(|s: (Seq<char>, Seq<char>, bool)| "[dry-run] "@ + s.0 + arrow() + s.1),
            views(r@) == lines.take(k as int),
        decreases steps.len() - k,
    {
        let st = &steps[k];
        let l = cat4("[dry-run] ", st.old_path.as_str(), " \u{2192} ", st.new_path.as_str());
        let ghost before = views(r@);
        r.push(l);
        assert(lines.take(k + 1) =~= lines.take(k as int).push(lines[k as int]));
        assert(views(r@) =~= before.push(lines[k as int]));
        k = k + 1;
    }
    assert(lines.take(steps.len() as int) =~= lines);
    r
}


// ---------------------------------------------------------------------------
// Dedup
// ---------------------------------------------------------------------------

/// Whether a duplicate group is held back: its guardrails stop every
/// destructive action (reporting is never held back).
pub open spec fn dedup_guarded_spec(action: crate::types::DupAction, guardrails: nat) -> bool {
    action != crate::types::DupAction::Report && guardrails > 0
}

/// Whether a duplicate group is held back (see `dedup_guarded_spec`).
pub fn dedup_guarded(action: crate::types::DupAction, guardrails: &Vec<String>) -> (r: bool)
    ensures
        r == dedup_guarded_spec(action, guardrails@.len()),
{
    action != crate::types::DupAction::Report && guardrails.len() > 0
}

/// The lines recorded for a held-back group.
pub open spec fn guarded_lines(content_id: Seq<char>, guardrails: Seq<Seq<char>>) -> Seq<Seq<char>> {
    seq!["[guard] "@ + content_id] + guardrails.map_values(|g: Seq<char>| "  - "@ + g)
}

/// Records a held-back group: one more guarded group, its id, then each
/// guardrail.
pub fn record_guarded(report: &mut ExecutionReport, content_id: &str, guardrails: &Vec<String>)
    requires
        old(report).guarded < usize::MAX,
    ensures
        final(report).operation@ == old(report).operation@,
        final(report).guarded == old(report).guarded + 1,
        final(report).blocked == old(report).blocked,
        final(report).executed == old(report).executed,
        final(report).asset_generated == old(report).asset_generated,
        final(report).errors == old(report).errors,
        final(report).skipped == old(report).skipped,
        views(final(report).details@) == views(old(report).details@) + guarded_lines(
            content_id@,
            views(guardrails@),
        ),
{
    report.guarded = report.guarded + 1;
    let ghost base = views(report.details@);
    report.details.push(cat2("[guard] ", content_id));
    let ghost gv = views(guardrails@);
    let ghost mapped = gv.map_values(|g: Seq<char>| "  - "@ + g);
    let mut i: usize = 0;
    while i < guardrails.len()
        invariant
            i <= guardrails.len(),
            gv == views(guardrails@),
            mapped == gv.map_values(|g: Seq<char>| "  - "@ + g),
            report.operation@ == old(report).operation@,
            report.guarded == old(report).guarded + 1,
            report.blocked == old(report).blocked,
            report.executed == old(report).executed,
            report.asset_generated == old(report).asset_generated,
            report.errors == old(report).errors,
            report.skipped == old(report).skipped,
            views(report.details@) == base + seq!["[guard] "@ + content_id@] + mapped.take(i as int),
        decreases guardrails.len() - i,
    {
        let ghost before = views(report.details@);
        report.details.push(cat2("  - ", guardrails[i].as_str()));
        assert(mapped.take(i + 1) =~= mapped.take(i as int).push(mapped[i as int]));
        assert(views(report.details@) =~= before.push(mapped[i as int]));
        i = i + 1;
    }
    assert(mapped.take(guardrails.len() as int) =~= mapped);
    assert(views(report.details@) =~= base + guarded_lines(content_id@, gv));
}

/// How a dropped copy is dealt with.
#[derive(Debug, Clone)]
pub enum RemovalStep {
    /// Only described (dry run).
    DryRun,
    /// Only reported.
    Report,
    /// Sent to the trash.
    Trash,
    /// Moved to the given path.
    Move(String),
    /// To be moved, but no destination is configured.
    NoMoveTarget,
}

/// A removal step, with its destination as a sequence.
pub enum RemovalStepView {
    DryRun,
    Report,
    Trash,
    Move(Seq<char>),
    NoMoveTarget,
}

impl View for RemovalStep {
    type V = RemovalStepView;

    open spec fn view(&self) -> RemovalStepView {
        match self {
            RemovalStep::DryRun => RemovalStepView::DryRun,
            RemovalStep::Report => RemovalStepView::Report,
            RemovalStep::Trash => RemovalStepView::Trash,
            RemovalStep::Move(d) => RemovalStepView::Move(d@),
            RemovalStep::NoMoveTarget => RemovalStepView::NoMoveTarget,
        }
    }
}

/// How a dropped copy at `path` is dealt with: described in a dry run;
/// otherwise as the configured action says, a move going to the
/// configured directory under the copy's file name.
pub open spec fn removal_step_spec(
    action: crate::types::DupAction,
    dry_run: bool,
    move_target: Seq<char>,
    path: Seq<char>,
) -> RemovalStepView {
    if dry_run {
        RemovalStepView::DryRun
    } else {
        match action {
            crate::types::DupAction::Trash => RemovalStepView::Trash,
            crate::types::DupAction::Report => RemovalStepView::Report,
            crate::types::DupAction::Move => if move_target.len() == 0 {
                RemovalStepView::NoMoveTarget
            } else {
                RemovalStepView::Move(
                    join_spec(
                        move_target,
                        match crate::paths::file_name_spec(path) {
                            Some(n) => n,
                            None => seq![],
                        },
                    ),
                )
            },
        }
    }
}

/// How a dropped copy is dealt with (see `removal_step_spec`).
pub fn removal_step(action: crate::types::DupAction, dry_run: bool, move_target: &str, path: &str) -> (r:
    RemovalStep)
    ensures
        r@ == removal_step_spec(action, dry_run, move_target@, path@),
{
    if dry_run {
        return RemovalStep::DryRun;
    }
    match action {
        crate::types::DupAction::Trash => RemovalStep::Trash,
        crate::types::DupAction::Report => RemovalStep::Report,
        crate::types::DupAction::Move => {
            if move_target.unicode_len() == 0 {
                RemovalStep::NoMoveTarget
            } else {
                let name: String = match crate::paths::file_name(path) {
                    Some(n) => n,
                    None => String::new(),
                };
                RemovalStep::Move(crate::paths::join(move_target, name.as_str()))
            }
        },
    }
}

/// What the report records of a dropped copy: its removal described as
/// `REMOVE <path> (score: <score>)` when only described or reported, or
/// when trashed; the move with its destination; a skip when no
/// destination is configured; a failure as an error.
pub open spec fn removal_entry(
    path: Seq<char>,
    score: Seq<char>,
    step: RemovalStepView,
    o: OutcomeView,
) -> (nat, nat, nat, Seq<char>) {
    let desc = "REMOVE "@ + path + " (score: "@ + score + ")"@;
    match step {
        RemovalStepView::DryRun => (1, 0, 0, "[dry-run] "@ + desc),
        RemovalStepView::Report => (1, 0, 0, "[report] "@ + desc),
        RemovalStepView::NoMoveTarget => (0, 0, 1, "[skip] no move_target configured for "@ + path),
        RemovalStepView::Trash => match o {
            OutcomeView::Failed(e) => (0, 1, 0, "[error] failed to trash "@ + path + ": "@ + e),
            _ => (1, 0, 0, "[trash] "@ + desc),
        },
        RemovalStepView::Move(dest) => match o {
            OutcomeView::Failed(e) => (0, 1, 0, "[error] failed to move "@ + path + ": "@ + e),
            _ => (1, 0, 0, "[move] "@ + path + arrow() + dest),
        },
    }
}

fn removal_desc(path: &str, score: &str) -> (r: String)
    ensures
        r@ == "REMOVE "@ + path@ + " (score: "@ + score@ + ")"@,
{
    let mut v = chars_of("REMOVE ");
    append_str(&mut v, path);
    append_str(&mut v, " (score: ");
    append_str(&mut v, score);
    append_str(&mut v, ")");
    string_of(v.as_slice())
}

/// Records what became of a dropped copy (see `removal_entry`; the
/// three counts are executed, errors and skipped). `score` is the copy's
/// quality score as the report prints it.
pub fn record_removal(
    report: &mut ExecutionReport,
    path: &str,
    score: &str,
    step: &RemovalStep,
    outcome: &StepOutcome,
)
    requires
        old(report).executed < usize::MAX,
        old(report).errors < usize::MAX,
        old(report).skipped < usize::MAX,
    ensures
        ({
            let e = removal_entry(path@, score@, step@, outcome@);
            &&& final(report).operation@ == old(report).operation@
            &&& final(report).executed == old(report).executed + e.0
            &&& final(report).errors == old(report).errors + e.1
            &&& final(report).skipped == old(report).skipped + e.2
            &&& final(report).blocked == old(report).blocked
            &&& final(report).guarded == old(report).guarded
            &&& final(report).asset_generated == old(report).asset_generated
            &&& views(final(report).details@) == views(old(report).details@).push(e.3)
        }),
{
    let ghost before = views(report.details@);
    let desc = removal_desc(path, score);
    let line: String = match step {
        RemovalStep::DryRun => {
            report.executed = report.executed + 1;
            cat2("[dry-run] ", desc.as_str())
        },
        RemovalStep::Report => {
            report.executed = report.executed + 1;
            cat2("[report] ", desc.as_str())
        },
        RemovalStep::NoMoveTarget => {
            report.skipped = report.skipped + 1;
            cat2("[skip] no move_target configured for ", path)
        },
        RemovalStep::Trash => match outcome {
            StepOutcome::Failed(e) => {
                report.errors = report.errors + 1;
                cat4("[error] failed to trash ", path, ": ", e.as_str())
            },
            _ => {
                report.executed = report.executed + 1;
                cat2("[trash] ", desc.as_str())
            },
        },
        RemovalStep::Move(dest) => match outcome {
            StepOutcome::Failed(e) => {
                report.errors = report.errors + 1;
                cat4("[error] failed to move ", path, ": ", e.as_str())
            },
            _ => {
                report.executed = report.executed + 1;
                cat4("[move] ", path, " \u{2192} ", dest.as_str())
            },
        },
    };
    let ghost lv = line@;
    report.details.push(line);
    assert(views(report.details@) =~= before.push(lv));
}


// ---------------------------------------------------------------------------
// Empty-directory clean-up
// ---------------------------------------------------------------------------

/// How two characters sort when paths are compared component by
/// component: the separator before everything else, other characters by
/// code point.
pub open spec fn path_char_lt(x: char, y: char) -> bool {
    if x == '/' {
        y != '/'
    } else if y == '/' {
        false
    } else {
        x < y
    }
}

/// Path order (`PathBuf`'s order for paths without empty or `.`
/// components): lexicographic, the separator sorting first, a proper
/// prefix first.
pub open spec fn path_lt(a: Seq<char>, b: Seq<char>) -> bool
    decreases a.len(),
{
    if a.len() == 0 {
        b.len() > 0
    } else if b.len() == 0 {
        false
    } else if a[0] == b[0] {
        path_lt(a.drop_first(), b.drop_first())
    } else {
        path_char_lt(a[0], b[0])
    }
}

/// `path_lt` is irreflexive.
pub proof fn lemma_path_lt_irreflexive(a: Seq<char>)
    ensures
        !path_lt(a, a),
    decreases a.len(),
{
    if a.len() > 0 {
        lemma_path_lt_irreflexive(a.drop_first());
    }
}

/// `path_lt` is transitive.
pub proof fn lemma_path_lt_transitive(a: Seq<char>, b: Seq<char>, c: Seq<char>)
    requires
        path_lt(a, b),
        path_lt(b, c),
    ensures
        path_lt(a, c),
    decreases a.len(),
{
    if a.len() > 0 && b.len() > 0 && c.len() > 0 && a[0] == b[0] && b[0] == c[0] {
        lemma_path_lt_transitive(a.drop_first(), b.drop_first(), c.drop_first());
    }
}

/// Two different paths are ordered one way or the other.
pub proof fn lemma_path_lt_total(a: Seq<char>, b: Seq<char>)
    requires
        a != b,
    ensures
        path_lt(a, b) || path_lt(b, a),
    decreases a.len(),
{
    if a.len() == 0 || b.len() == 0 {
        if a.len() == 0 && b.len() == 0 {
            assert(a =~= b);
        }
    } else if a[0] == b[0] {
        if a.drop_first() == b.drop_first() {
            assert(a =~= seq![a[0]] + a.drop_first());
            assert(b =~= seq![b[0]] + b.drop_first());
        }
        lemma_path_lt_total(a.drop_first(), b.drop_first());
    }
}

fn path_before(a: &[char], b: &[char]) -> (r: bool)
    ensures
        r == path_lt(a@, b@),
{
    let mut i: usize = 0;
    assert(a@.skip(0) =~= a@);
    assert(b@.skip(0) =~= b@);
    while i < a.len() && i < b.len() && a[i] == b[i]
        invariant
            i <= a.len(),
            i <= b.len(),
            path_lt(a@, b@) == path_lt(a@.skip(i as int), b@.skip(i as int)),
        decreases a.len() - i,
    {
        assert(a@.skip(i as int).drop_first() =~= a@.skip(i + 1));
        assert(b@.skip(i as int).drop_first() =~= b@.skip(i + 1));
        i = i + 1;
    }
    if i == a.len() {
        i < b.len()
    } else if i == b.len() {
        false
    } else {
        if a[i] == '/' {
            true
        } else if b[i] == '/' {
            false
        } else {
            a[i] < b[i]
        }
    }
}

/// The directories an organize run may leave empty: the distinct parents
/// of the plans' sources, in descending path order, so that each directory
/// comes before the directories that contain it.
pub open spec fn is_cleanup_order(dirs: Seq<Seq<char>>, sources: Seq<Seq<char>>) -> bool {
    &&& forall|i: int, j: int| 0 <= i < j < dirs.len() ==> path_lt(#[trigger] dirs[j], #[trigger] dirs[i])
    &&& forall|d: Seq<char>|
        #![trigger dirs.contains(d)]
        dirs.contains(d) <==> exists|k: int| 0 <= k < sources.len() && parent_spec(#[trigger] sources[k]) == Some(d)
}

/// The directories to try removing after an organize run, in the order to
/// try them (see `is_cleanup_order`).
pub fn cleanup_candidates(sources: &Vec<String>) -> (r: Vec<String>)
    ensures
        is_cleanup_order(views(r@), views(sources@)),
{
    let ghost srcs = views(sources@);
    let mut r: Vec<String> = Vec::new();
    let mut k: usize = 0;
    while k < sources.len()
        invariant
            k <= sources.len(),
            srcs == views(sources@),
            forall|i: int, j: int|
                0 <= i < j < r@.len() ==> path_lt(#[trigger] views(r@)[j], #[trigger] views(r@)[i]),
            forall|d: Seq<char>|
                #![trigger views(r@).contains(d)]
                views(r@).contains(d) <==> exists|q: int| 0 <= q < k && parent_spec(#[trigger] srcs[q]) == Some(d),
        decreases sources.len() - k,
    {
        let ghost old_v = views(r@);
        assert(srcs[k as int] == sources@[k as int]@);
        match crate::paths::parent(sources[k].as_str()) {
            None => {
                assert forall|d: Seq<char>| #![trigger views(r@).contains(d)]
                    views(r@).contains(d) <==> exists|q: int| 0 <= q < k + 1 && parent_spec(#[trigger] srcs[q]) == Some(d) by {
                    if exists|q: int| 0 <= q < k + 1 && parent_spec(#[trigger] srcs[q]) == Some(d) {
                        let q = choose|q: int| 0 <= q < k + 1 && parent_spec(#[trigger] srcs[q]) == Some(d);
                        assert(q < k);
                    }
                }
            },
            Some(dir) => {
                let dc = chars_of(dir.as_str());
                let mut p: usize = 0;
                while p < r.len() && path_before(dc.as_slice(), chars_of(r[p].as_str()).as_slice())
                    invariant
                        p <= r@.len(),
                        old_v == views(r@),
                        dc@ == dir@,
                        forall|i: int| 0 <= i < p ==> path_lt(dir@, #[trigger] old_v[i]),
                    decreases r.len() - p,
                {
                    p = p + 1;
                }
                let dup = p < r.len() && crate::text::str_eq(r[p].as_str(), dir.as_str());
                if !dup {
                    let ghost x = dir@;
                    proof {
                        if p < r@.len() {
                            assert(!path_lt(x, old_v[p as int]));
                            assert(old_v[p as int] != x);
                            lemma_path_lt_total(x, old_v[p as int]);
                            assert forall|j: int| p <= j < old_v.len() implies path_lt(old_v[j], x) by {
                                if j > p {
                                    lemma_path_lt_transitive(old_v[j], old_v[p as int], x);
                                }
                            }
                        }
                    }
                    r.insert(p, dir);
                    proof {
                        let nv = views(r@);
                        assert(nv =~= old_v.insert(p as int, x));
                        assert forall|i: int, j: int| 0 <= i < j < nv.len() implies path_lt(#[trigger] nv[j], #[trigger] nv[i]) by {
                            if j < p {
                                assert(nv[i] == old_v[i] && nv[j] == old_v[j]);
                            } else if j == p {
                                assert(nv[i] == old_v[i]);
                            } else if i < p {
                                assert(nv[j] == old_v[j - 1]);
                                assert(nv[i] == old_v[i]);
                                if j - 1 >= p {
                                    assert(path_lt(old_v[j - 1], x));
                                    lemma_path_lt_transitive(old_v[j - 1], x, old_v[i]);
                                }
                            } else if i == p {
                                assert(nv[j] == old_v[j - 1]);
                            } else {
                                assert(nv[i] == old_v[i - 1] && nv[j] == old_v[j - 1]);
                            }
                        }
                        assert forall|d: Seq<char>| #![trigger nv.contains(d)]
                            nv.contains(d) <==> exists|q: int| 0 <= q < k + 1 && parent_spec(#[trigger] srcs[q]) == Some(d) by {
                            if nv.contains(d) {
                                let m = choose|m: int| 0 <= m < nv.len() && nv[m] == d;
                                if m < p {
                                    assert(old_v[m] == d);
                                    assert(old_v.contains(d));
                                } else if m > p {
                                    assert(old_v[m - 1] == d);
                                    assert(old_v.contains(d));
                                } else {
                                    assert(parent_spec(srcs[k as int]) == Some(d));
                                }
                            }
                            if exists|q: int| 0 <= q < k + 1 && parent_spec(#[trigger] srcs[q]) == Some(d) {
                                let q = choose|q: int| 0 <= q < k + 1 && parent_spec(#[trigger] srcs[q]) == Some(d);
                                if q < k {
                                    assert(old_v.contains(d));
                                    let m = choose|m: int| 0 <= m < old_v.len() && old_v[m] == d;
                                    if m < p {
                                        assert(nv[m] == d);
                                    } else {
                                        assert(nv[m + 1] == d);
                                    }
                                } else {
                                    assert(nv[p as int] == d);
                                }
                            }
                        }
                    }
                } else {
                    proof {
                        assert(old_v[p as int] == dir@);
                        assert forall|d: Seq<char>| #![trigger views(r@).contains(d)]
                            views(r@).contains(d) <==> exists|q: int| 0 <= q < k + 1 && parent_spec(#[trigger] srcs[q]) == Some(d) by {
                            if exists|q: int| 0 <= q < k + 1 && parent_spec(#[trigger] srcs[q]) == Some(d) {
                                let q = choose|q: int| 0 <= q < k + 1 && parent_spec(#[trigger] srcs[q]) == Some(d);
                                if q == k {
                                    assert(old_v[p as int] == d);
                                }
                            }
                        }
                    }
                }
            },
        }
        k = k + 1;
    }
    r
}

/// Records a directory the clean-up removed: an action, and its line.
pub fn record_cleanup(report: &mut ExecutionReport, dir: &str)
    requires
        has_room(*old(report)),
    ensures
        recorded(
            *old(report),
            *final(report),
            Entry { executed: 1, assets: 0, errors: 0, line: Some("[cleanup] removed empty dir "@ + dir@) },
        ),
{
    add_entry(report, 1, 0, 0, Some(cat2("[cleanup] removed empty dir ", dir)));
}


// ---------------------------------------------------------------------------
// Dedup dry run
// ---------------------------------------------------------------------------

/// A duplicate group as a dedup run sees it: its id, its guardrails, and
/// each dropped copy's path with its quality score as the report prints it.
pub struct DryRunGroup {
    pub content_id: String,
    pub guardrails: Vec<String>,
    pub dropped: Vec<(String, String)>,
}

/// `[dry-run] REMOVE <path> (score: <score>)` for each dropped copy.
pub open spec fn dry_remove_lines(dropped: Seq<(String, String)>) -> Seq<Seq<char>> {
    dropped.map_values(
        |d: (String, String)| "[dry-run] "@ + ("REMOVE "@ + d.0@ + " (score: "@ + d.1@ + ")"@),
    )
}

/// What a dry run records of one group: a held-back group with its
/// guardrails, else the removal of each dropped copy.
pub open spec fn dedup_group_dry_lines(action: crate::types::DupAction, g: DryRunGroup) -> Seq<
    Seq<char>,
> {
    if dedup_guarded_spec(action, g.guardrails@.len()) {
        guarded_lines(g.content_id@, views(g.guardrails@))
    } else {
        dry_remove_lines(g.dropped@)
    }
}

pub open spec fn dedup_dry_details(action: crate::types::DupAction, gs: Seq<DryRunGroup>, n: nat) -> Seq<
    Seq<char>,
>
    decreases n,
{
    if n == 0 || n > gs.len() {
        seq![]
    } else {
        dedup_dry_details(action, gs, (n - 1) as nat) + dedup_group_dry_lines(action, gs[n - 1])
    }
}

/// Held-back groups among the first `n`.
pub open spec fn dedup_dry_guarded(action: crate::types::DupAction, gs: Seq<DryRunGroup>, n: nat) -> nat
    decreases n,
{
    if n == 0 || n > gs.len() {
        0
    } else {
        dedup_dry_guarded(action, gs, (n - 1) as nat) + if dedup_guarded_spec(
            action,
            gs[n - 1].guardrails@.len(),
        ) {
            1nat
        } else {
            0nat
        }
    }
}

/// Copies described for removal among the first `n` groups.
pub open spec fn dedup_dry_executed(action: crate::types::DupAction, gs: Seq<DryRunGroup>, n: nat) -> nat
    decreases n,
{
    if n == 0 || n > gs.len() {
        0
    } else {
        dedup_dry_executed(action, gs, (n - 1) as nat) + if dedup_guarded_spec(
            action,
            gs[n - 1].guardrails@.len(),
        ) {
            0nat
        } else {
            gs[n - 1].dropped@.len()
        }
    }
}

proof fn lemma_dedup_dry_executed_mono(action: crate::types::DupAction, gs: Seq<DryRunGroup>, i: nat, j: nat)
    requires
        i <= j <= gs.len(),
    ensures
        dedup_dry_executed(action, gs, i) <= dedup_dry_executed(action, gs, j),
    decreases j,
{
    if i < j {
        lemma_dedup_dry_executed_mono(action, gs, i, (j - 1) as nat);
    }
}

proof fn lemma_dedup_dry_guarded_bound(action: crate::types::DupAction, gs: Seq<DryRunGroup>, n: nat)
    requires
        n <= gs.len(),
    ensures
        dedup_dry_guarded(action, gs, n) <= n,
    decreases n,
{
    if n > 0 {
        lemma_dedup_dry_guarded_bound(action, gs, (n - 1) as nat);
    }
}

/// What a dedup dry run reports: each held-back group (a group with
/// guardrails, unless the action only reports) counted and listed with its
/// guardrails; every other group's dropped copies each described as a
/// removal and counted as an action. Nothing is touched.
pub fn dedup_dry_run(action: crate::types::DupAction, groups: &Vec<DryRunGroup>) -> (r: ExecutionReport)
    requires
        dedup_dry_executed(action, groups@, groups.len() as nat) < usize::MAX,
    ensures
        r.operation@ == "dedup"@,
        r.guarded == dedup_dry_guarded(action, groups@, groups.len() as nat),
        r.executed == dedup_dry_executed(action, groups@, groups.len() as nat),
        r.errors == 0 && r.skipped == 0 && r.blocked == 0 && r.asset_generated == 0,
        views(r.details@) == dedup_dry_details(action, groups@, groups.len() as nat),
{
    let mut report = ExecutionReport::new("dedup");
    assert(views(report.details@) =~= Seq::<Seq<char>>::empty());
    let ghost total = dedup_dry_executed(action, groups@, groups.len() as nat);
    let mut i: usize = 0;
    while i < groups.len()
        invariant
            i <= groups.len(),
            total == dedup_dry_executed(action, groups@, groups.len() as nat),
            total < usize::MAX,
            report.operation@ == "dedup"@,
            report.guarded == dedup_dry_guarded(action, groups@, i as nat),
            report.executed == dedup_dry_executed(action, groups@, i as nat),
            report.errors == 0 && report.skipped == 0 && report.blocked == 0
                && report.asset_generated == 0,
            views(report.details@) == dedup_dry_details(action, groups@, i as nat),
        decreases groups.len() - i,
    {
        let g = &groups[i];
        proof {
            lemma_dedup_dry_executed_mono(action, groups@, (i + 1) as nat, groups.len() as nat);
            lemma_dedup_dry_guarded_bound(action, groups@, i as nat);
        }
        let ghost before = views(report.details@);
        if dedup_guarded(action, &g.guardrails) {
            record_guarded(&mut report, g.content_id.as_str(), &g.guardrails);
        } else {
            let mut j: usize = 0;
            let ghost lines = dry_remove_lines(g.dropped@);
            assert(before + lines.take(0) =~= before);
            while j < g.dropped.len()
                invariant
                    j <= g.dropped.len(),
                    g == &groups@[i as int],
                    i < groups.len(),
                    lines == dry_remove_lines(g.dropped@),
                    !dedup_guarded_spec(action, g.guardrails@.len()),
                    total == dedup_dry_executed(action, groups@, groups.len() as nat),
                    dedup_dry_executed(action, groups@, (i + 1) as nat) <= total,
                    total < usize::MAX,
                    report.operation@ == "dedup"@,
                    report.guarded == dedup_dry_guarded(action, groups@, i as nat),
                    report.executed == dedup_dry_executed(action, groups@, i as nat) + j,
                    report.errors == 0 && report.skipped == 0 && report.blocked == 0
                        && report.asset_generated == 0,
                    views(report.details@) == before + lines.take(j as int),
                decreases g.dropped.len() - j,
            {
                let d = &g.dropped[j];
                record_removal(
                    &mut report,
                    d.0.as_str(),
                    d.1.as_str(),
                    &RemovalStep::DryRun,
                    &StepOutcome::NotRun,
                );
                assert(lines[j as int] == "[dry-run] "@ + ("REMOVE "@ + d.0@ + " (score: "@ + d.1@ + ")"@));
                assert(before + lines.take(j + 1) =~= (before + lines.take(j as int)).push(lines[j as int]));
                j = j + 1;
            }
            assert(lines.take(j as int) =~= lines);
        }
        i = i + 1;
    }
    report
}


// ---------------------------------------------------------------------------
// Rename runs
// ---------------------------------------------------------------------------

/// A directory renaming is skipped when its directory is gone or its new
/// name is taken; file renamings are always attempted.
pub open spec fn rename_skipped_spec(directory: bool, old_exists: bool, new_exists: bool) -> bool {
    directory && (!old_exists || new_exists)
}

/// Whether a renaming is skipped (see `rename_skipped_spec`).
pub fn rename_skipped(directory: bool, old_exists: bool, new_exists: bool) -> (r: bool)
    ensures
        r == rename_skipped_spec(directory, old_exists, new_exists),
{
    directory && (!old_exists || new_exists)
}

/// Renamings done (or described, in a dry run) among the first `n`.
pub open spec fn rename_run_executed(outs: Seq<StepOutcome>, n: nat) -> nat
    decreases n,
{
    if n == 0 || n > outs.len() {
        0
    } else {
        rename_run_executed(outs, (n - 1) as nat) + if outs[n - 1]@ is Done || outs[n - 1]@ is DryRun {
            1nat
        } else {
            0nat
        }
    }
}

/// Renamings that failed among the first `n`.
pub open spec fn rename_run_errors(outs: Seq<StepOutcome>, n: nat) -> nat
    decreases n,
{
    if n == 0 || n > outs.len() {
        0
    } else {
        rename_run_errors(outs, (n - 1) as nat) + if outs[n - 1]@ is Failed {
            1nat
        } else {
            0nat
        }
    }
}

/// The lines of the first `n` renamings: one per renaming that was not
/// skipped (see `rename_line_spec`).
pub open spec fn rename_run_lines(steps: Seq<RenameStep>, outs: Seq<StepOutcome>, n: nat) -> Seq<
    Seq<char>,
>
    decreases n,
{
    if n == 0 || n > outs.len() || n > steps.len() {
        seq![]
    } else {
        rename_run_lines(steps, outs, (n - 1) as nat) + match rename_line_spec(
            steps[n - 1].old_path@,
            steps[n - 1].new_path@,
            outs[n - 1]@,
        ) {
            Some(l) => seq![l],
            None => seq![],
        }
    }
}

proof fn lemma_rename_run_counts(outs: Seq<StepOutcome>, n: nat)
    requires
        n <= outs.len(),
    ensures
        rename_run_executed(outs, n) + rename_run_errors(outs, n) <= n,
    decreases n,
{
    if n > 0 {
        lemma_rename_run_counts(outs, (n - 1) as nat);
    }
}

/// What a rename run reports, given the outcome of each renaming in order
/// (a failure does not stop the later ones): each renaming done or
/// described counted as an action, each failure as an error, and one line
/// per renaming that was not skipped.
pub fn rename_run_report(steps: &Vec<RenameStep>, outcomes: &Vec<StepOutcome>) -> (r: ExecutionReport)
    requires
        outcomes.len() == steps.len(),
    ensures
        r.operation@ == "rename"@,
        r.executed == rename_run_executed(outcomes@, outcomes.len() as nat),
        r.errors == rename_run_errors(outcomes@, outcomes.len() as nat),
        r.blocked == 0 && r.guarded == 0 && r.skipped == 0 && r.asset_generated == 0,
        views(r.details@) == rename_run_lines(steps@, outcomes@, outcomes.len() as nat),
{
    let mut report = ExecutionReport::new("rename");
    assert(views(report.details@) =~= Seq::<Seq<char>>::empty());
    let mut i: usize = 0;
    while i < outcomes.len()
        invariant
            i <= outcomes.len(),
            outcomes.len() == steps.len(),
            report.operation@ == "rename"@,
            report.executed == rename_run_executed(outcomes@, i as nat),
            report.errors == rename_run_errors(outcomes@, i as nat),
            report.blocked == 0 && report.guarded == 0 && report.skipped == 0
                && report.asset_generated == 0,
            views(report.details@) == rename_run_lines(steps@, outcomes@, i as nat),
        decreases outcomes.len() - i,
    {
        proof {
            lemma_rename_run_counts(outcomes@, (i + 1) as nat);
        }
        let o = &outcomes[i];
        match o {
            StepOutcome::Done | StepOutcome::DryRun => {
                report.executed = report.executed + 1;
            },
            StepOutcome::Failed(_) => {
                report.errors = report.errors + 1;
            },
            StepOutcome::NotRun => {},
        }
        let ghost before = views(report.details@);
        match rename_line(&steps[i], o) {
            Some(line) => {
                report.details.push(line);
                assert(views(report.details@) =~= before.push(
                    rename_line_spec(steps@[i as int].old_path@, steps@[i as int].new_path@, o@)->Some_0,
                ));
            },
            None => {},
        }
        proof {
            let t = rename_run_lines(steps@, outcomes@, (i + 1) as nat);
            assert(outcomes@[i as int]@ == o@);
            assert(views(report.details@) =~= t);
        }
        i = i + 1;
    }
    report
}


// ---------------------------------------------------------------------------
// Organize runs
// ---------------------------------------------------------------------------

/// Whether a plan's operations stopped within its first `k` outcomes (its
/// directory could not be created).
pub open spec fn halted(steps: Seq<OrganizeStepView>, outs: Seq<StepOutcome>, k: nat) -> bool
    decreases k,
{
    if k == 0 {
        false
    } else {
        halted(steps, outs, (k - 1) as nat) || !organize_goes_on(steps[k - 1], outs[k - 1]@)
    }
}

/// Actions, assets, errors and lines recorded for the first `k` outcomes
/// of a plan's operations; nothing after the plan stopped.
pub open spec fn plan_run(steps: Seq<OrganizeStepView>, outs: Seq<StepOutcome>, k: nat) -> (
    nat,
    nat,
    nat,
    Seq<Seq<char>>,
)
    decreases k,
{
    if k == 0 {
        (0, 0, 0, seq![])
    } else {
        let p = plan_run(steps, outs, (k - 1) as nat);
        if halted(steps, outs, (k - 1) as nat) {
            p
        } else {
            let e = organize_entry(steps[k - 1], outs[k - 1]@);
            (p.0 + e.executed, p.1 + e.assets, p.2 + e.errors, p.3 + lines_of(e))
        }
    }
}

/// How many of a plan's operations have an outcome.
pub open spec fn run_len(p: OrganizePlan, outs: Seq<StepOutcome>) -> nat {
    if outs.len() < organize_steps_spec(p).len() {
        outs.len()
    } else {
        organize_steps_spec(p).len()
    }
}

/// Blocked plans, actions, assets, errors and lines of the first `n`
/// plans of a run: a plan blocked by conflicts is counted and listed with
/// its conflicts and not carried out; every other plan records the
/// outcomes of its operations up to the one that stopped it.
pub open spec fn organize_run(plans: Seq<OrganizePlan>, outs: Seq<Vec<StepOutcome>>, n: nat) -> (
    nat,
    nat,
    nat,
    nat,
    Seq<Seq<char>>,
)
    decreases n,
{
    if n == 0 {
        (0, 0, 0, 0, seq![])
    } else {
        let r = organize_run(plans, outs, (n - 1) as nat);
        let p = plans[n - 1];
        if plan_blocked(p) {
            (r.0 + 1, r.1, r.2, r.3, r.4 + blocked_lines(p.source@, views(p.conflicts@)))
        } else {
            let o = outs[n - 1]@;
            let q = plan_run(organize_steps_spec(p), o, run_len(p, o));
            (r.0, r.1 + q.0, r.2 + q.1, r.3 + q.2, r.4 + q.3)
        }
    }
}

proof fn lemma_plan_run_mono(steps: Seq<OrganizeStepView>, outs: Seq<StepOutcome>, k: nat, m: nat)
    requires
        k <= m,
    ensures
        plan_run(steps, outs, k).0 <= plan_run(steps, outs, m).0,
        plan_run(steps, outs, k).1 <= plan_run(steps, outs, m).1,
        plan_run(steps, outs, k).2 <= plan_run(steps, outs, m).2,
    decreases m,
{
    if k < m {
        lemma_plan_run_mono(steps, outs, k, (m - 1) as nat);
    }
}

proof fn lemma_organize_run_mono(plans: Seq<OrganizePlan>, outs: Seq<Vec<StepOutcome>>, k: nat, m: nat)
    requires
        k <= m,
    ensures
        organize_run(plans, outs, k).0 <= organize_run(plans, outs, m).0,
        organize_run(plans, outs, k).1 <= organize_run(plans, outs, m).1,
        organize_run(plans, outs, k).2 <= organize_run(plans, outs, m).2,
        organize_run(plans, outs, k).3 <= organize_run(plans, outs, m).3,
    decreases m,
{
    if k < m {
        lemma_organize_run_mono(plans, outs, k, (m - 1) as nat);
    }
}

proof fn lemma_organize_run_blocked(plans: Seq<OrganizePlan>, outs: Seq<Vec<StepOutcome>>, n: nat)
    ensures
        organize_run(plans, outs, n).0 <= n,
    decreases n,
{
    if n > 0 {
        lemma_organize_run_blocked(plans, outs, (n - 1) as nat);
    }
}

/// What an organize run reports, given the outcome of each operation the
/// caller carried out for each plan, in order (`outcomes[i]` for plan `i`,
/// see `organize_run`). A plan that fails does not stop the later plans.
pub fn organize_run_report(plans: &Vec<OrganizePlan>, outcomes: &Vec<Vec<StepOutcome>>) -> (r: ExecutionReport)
    requires
        outcomes.len() == plans.len(),
        organize_run(plans@, outcomes@, plans.len() as nat).1 < usize::MAX,
        organize_run(plans@, outcomes@, plans.len() as nat).2 < usize::MAX,
        organize_run(plans@, outcomes@, plans.len() as nat).3 < usize::MAX,
    ensures
        ({
            let t = organize_run(plans@, outcomes@, plans.len() as nat);
            &&& r.operation@ == "organize"@
            &&& r.blocked == t.0
            &&& r.executed == t.1
            &&& r.asset_generated == t.2
            &&& r.errors == t.3
            &&& r.guarded == 0 && r.skipped == 0
            &&& views(r.details@) == t.4
        }),
{
    let ghost n = plans.len() as nat;
    let ghost total = organize_run(plans@, outcomes@, n);
    let mut report = ExecutionReport::new("organize");
    assert(views(report.details@) =~= Seq::<Seq<char>>::empty());
    let mut i: usize = 0;
    while i < plans.len()
        invariant
            i <= plans.len(),
            n == plans.len(),
            outcomes.len() == plans.len(),
            total == organize_run(plans@, outcomes@, n),
            total.1 < usize::MAX && total.2 < usize::MAX && total.3 < usize::MAX,
            ({
                let t = organize_run(plans@, outcomes@, i as nat);
                &&& report.operation@ == "organize"@
                &&& report.blocked == t.0
                &&& report.executed == t.1
                &&& report.asset_generated == t.2
                &&& report.errors == t.3
                &&& report.guarded == 0 && report.skipped == 0
                &&& views(report.details@) == t.4
            }),
        decreases plans.len() - i,
    {
        let plan = &plans[i];
        let ghost before = organize_run(plans@, outcomes@, i as nat);
        proof {
            lemma_organize_run_mono(plans@, outcomes@, (i + 1) as nat, n);
            lemma_organize_run_blocked(plans@, outcomes@, i as nat);
        }
        if plan.conflicts.len() > 0 {
            record_blocked(&mut report, plan.source.as_str(), &plan.conflicts);
        } else {
            let steps = organize_steps(plan);
            let outs = &outcomes[i];
            let ghost sv = organize_steps_spec(*plan);
            let len = if outs.len() < steps.len() {
                outs.len()
            } else {
                steps.len()
            };
            assert(len == run_len(*plan, outs@));
            let ghost full = plan_run(sv, outs@, len as nat);
            let mut halt = false;
            let mut j: usize = 0;
            while j < len
                invariant
                    j <= len,
                    len <= steps.len(),
                    len <= outs.len(),
                    step_views(steps@) == sv,
                    full == plan_run(sv, outs@, len as nat),
                    halt == halted(sv, outs@, j as nat),
                    before.1 + full.0 < usize::MAX,
                    before.2 + full.1 < usize::MAX,
                    before.3 + full.2 < usize::MAX,
                    ({
                        let q = plan_run(sv, outs@, j as nat);
                        &&& report.operation@ == "organize"@
                        &&& report.blocked == before.0
                        &&& report.executed == before.1 + q.0
                        &&& report.asset_generated == before.2 + q.1
                        &&& report.errors == before.3 + q.2
                        &&& report.guarded == 0 && report.skipped == 0
                        &&& views(report.details@) == before.4 + q.3
                    }),
                decreases len - j,
            {
                proof {
                    lemma_plan_run_mono(sv, outs@, j as nat, len as nat);
                    assert(steps@[j as int]@ == sv[j as int]);
                }
                if !halt {
                    let ghost q = plan_run(sv, outs@, j as nat);
                    let go_on = record_organize_step(&mut report, &steps[j], &outs[j]);
                    halt = !go_on;
                    proof {
                        let e = organize_entry(sv[j as int], outs@[j as int]@);
                        assert(before.4 + q.3 + lines_of(e) =~= before.4 + (q.3 + lines_of(e)));
                    }
                }
                j = j + 1;
            }
        }
        proof {
            let t = organize_run(plans@, outcomes@, (i + 1) as nat);
            if plans@[i as int].conflicts@.len() > 0 {
                assert(views(report.details@) =~= t.4);
            } else {
                assert(views(report.details@) =~= t.4);
            }
        }
        i = i + 1;
    }
    report
}

} // verus!
