//! Execution reports and the summaries of the command-line JSON envelopes.
use crate::text::{
    append_chars, append_str, chars_of, decimal, decimal_of, owned, string_of, to_upper_char,
    upper_char, views,
};
use crate::types::MetadataOrigin;
use vstd::prelude::*;

verus! {

pub const CLI_SCHEMA_VERSION: &'static str = "1";
pub const KIND_PIPELINE_REPORT: &'static str = "pipeline_report";
pub const KIND_EXECUTION_REPORT: &'static str = "execution_report";
pub const KIND_ANALYSIS_REPORT: &'static str = "analysis_report";
pub const COMMAND_SCAN: &'static str = "scan";
pub const COMMAND_SCRAPE: &'static str = "scrape";
pub const COMMAND_ANALYZE: &'static str = "analyze";
pub const COMMAND_RENAME: &'static str = "rename";
pub const COMMAND_DEDUP: &'static str = "dedup";
pub const COMMAND_ORGANIZE: &'static str = "organize";

/// Counters of one execution of a batch operation.
pub struct ExecutionReport {
    pub operation: String,
    pub executed: usize,
    pub blocked: usize,
    pub guarded: usize,
    pub skipped: usize,
    pub errors: usize,
    pub asset_generated: usize,
    pub details: Vec<String>,
}

/// The operation name with its first character upper-cased (ASCII).
pub open spec fn capitalized(s: Seq<char>) -> Seq<char> {
    if s.len() == 0 {
        s
    } else {
        seq![upper_char(s[0])] + s.drop_first()
    }
}

/// The line `ExecutionReport::summary_line` prints.
pub open spec fn summary_line_spec(r: ExecutionReport) -> Seq<char> {
    capitalized(r.operation@) + " executed: "@ + decimal(r.executed as nat) + " actions, "@
        + decimal(r.blocked as nat) + " blocked, "@ + decimal(r.guarded as nat) + " guarded, "@
        + decimal(r.skipped as nat) + " skipped, "@ + decimal(r.errors as nat) + " errors, "@
        + decimal(r.asset_generated as nat) + " assets"@
}

impl ExecutionReport {
    /// A report with every counter at zero and no details.
    pub fn new(operation: &str) -> (r: Self)
        ensures
            r.operation@ == operation@,
            r.executed == 0,
            r.blocked == 0,
            r.guarded == 0,
            r.skipped == 0,
            r.errors == 0,
            r.asset_generated == 0,
            r.details@.len() == 0,
    {
        ExecutionReport {
            operation: owned(operation),
            executed: 0,
            blocked: 0,
            guarded: 0,
            skipped: 0,
            errors: 0,
            asset_generated: 0,
            details: Vec::new(),
        }
    }

    /// One line summing up the counters.
    pub fn summary_line(&self) -> (r: String)
        ensures
            r@ == summary_line_spec(*self),
    {
        let op = chars_of(self.operation.as_str());
        let mut out: Vec<char> = Vec::new();
        if op.len() > 0 {
            out.push(to_upper_char(op[0]));
            let rest = op.as_slice().split_at(1).1;
            append_chars(&mut out, rest);
            assert(rest@ =~= op@.drop_first());
        }
        assert(out@ =~= capitalized(self.operation@));
        append_str(&mut out, " executed: ");
        append_chars(&mut out, decimal_of(self.executed as u64).as_slice());
        append_str(&mut out, " actions, ");
        append_chars(&mut out, decimal_of(self.blocked as u64).as_slice());
        append_str(&mut out, " blocked, ");
        append_chars(&mut out, decimal_of(self.guarded as u64).as_slice());
        append_str(&mut out, " guarded, ");
        append_chars(&mut out, decimal_of(self.skipped as u64).as_slice());
        append_str(&mut out, " skipped, ");
        append_chars(&mut out, decimal_of(self.errors as u64).as_slice());
        append_str(&mut out, " errors, ");
        append_chars(&mut out, decimal_of(self.asset_generated as u64).as_slice());
        append_str(&mut out, " assets");
        string_of(out.as_slice())
    }
}

/// `summary` of the scan and scrape envelopes.
pub struct PipelineSummary {
    pub stage_count: usize,
    pub item_count: usize,
    pub scraped_items: usize,
}

impl PipelineSummary {
    /// The counts of a scan or scrape run.
    pub fn new(stage_count: usize, item_count: usize, scraped_items: usize) -> (r: Self)
        ensures
            r.stage_count == stage_count,
            r.item_count == item_count,
            r.scraped_items == scraped_items,
    {
        PipelineSummary { stage_count, item_count, scraped_items }
    }
}

/// `summary` of an execution envelope.
pub struct ExecutionSummary {
    pub entry_count: usize,
    pub ready_entries: usize,
    pub blocked_entries: usize,
    pub guarded_entries: usize,
}

/// Number of entries with a non-empty list of conflicts (or guardrails).
pub open spec fn count_flagged(flags: Seq<usize>) -> nat
    decreases flags.len(),
{
    if flags.len() == 0 {
        0
    } else {
        count_flagged(flags.drop_last()) + if flags.last() > 0 {
            1nat
        } else {
            0nat
        }
    }
}

/// No more entries are flagged than there are entries.
pub proof fn lemma_count_flagged_bound(flags: Seq<usize>)
    ensures
        count_flagged(flags) <= flags.len(),
    decreases flags.len(),
{
    if flags.len() > 0 {
        lemma_count_flagged_bound(flags.drop_last());
    }
}

fn count_nonzero(flags: &[usize]) -> (r: usize)
    ensures
        r == count_flagged(flags@),
{
    let mut n: usize = 0;
    let mut i: usize = 0;
    while i < flags.len()
        invariant
            i <= flags.len(),
            n == count_flagged(flags@.take(i as int)),
            n <= i,
        decreases flags.len() - i,
    {
        assert(flags@.take(i + 1).drop_last() =~= flags@.take(i as int));
        if flags[i] > 0 {
            n = n + 1;
        }
        i = i + 1;
    }
    assert(flags@.take(flags.len() as int) =~= flags@);
    n
}

pub open spec fn conflict_counts(plans: Seq<crate::media::RenamePlan>) -> Seq<usize> {
    plans.map_values(|p: crate::media::RenamePlan| p.conflicts@.len() as usize)
}

impl ExecutionSummary {
    /// Summary of rename plans: plans with conflicts are blocked.
    pub fn from_rename_plans(plans: &Vec<crate::media::RenamePlan>) -> (r: Self)
        ensures
            r.entry_count == plans.len(),
            r.blocked_entries == count_flagged(conflict_counts(plans@)),
            r.ready_entries == plans.len() - count_flagged(conflict_counts(plans@)),
            r.guarded_entries == 0,
    {
        let mut counts: Vec<usize> = Vec::new();
        let mut i: usize = 0;
        while i < plans.len()
            invariant
                i <= plans.len(),
                counts@ == conflict_counts(plans@).take(i as int),
            decreases plans.len() - i,
        {
            counts.push(plans[i].conflicts.len());
            assert(counts@ =~= conflict_counts(plans@).take(i + 1));
            i = i + 1;
        }
        assert(counts@ =~= conflict_counts(plans@));
        Self::from_conflict_counts(counts.as_slice())
    }

    /// Summary of rename or organize plans, given how many conflicts each
    /// plan carries: plans with conflicts are blocked, the others ready.
    pub fn from_conflict_counts(conflicts: &[usize]) -> (r: Self)
        ensures
            r.entry_count == conflicts.len(),
            r.blocked_entries == count_flagged(conflicts@),
            r.ready_entries == conflicts.len() - count_flagged(conflicts@),
            r.guarded_entries == 0,
    {
        let blocked = count_nonzero(conflicts);
        proof {
            lemma_count_flagged_bound(conflicts@);
        }
        ExecutionSummary {
            entry_count: conflicts.len(),
            ready_entries: conflicts.len() - blocked,
            blocked_entries: blocked,
            guarded_entries: 0,
        }
    }

    /// Summary of duplicate groups, given how many guardrails each group
    /// carries: guarded groups are not ready.
    pub fn from_guardrail_counts(guardrails: &[usize]) -> (r: Self)
        ensures
            r.entry_count == guardrails.len(),
            r.guarded_entries == count_flagged(guardrails@),
            r.ready_entries == guardrails.len() - count_flagged(guardrails@),
            r.blocked_entries == 0,
    {
        let guarded = count_nonzero(guardrails);
        proof {
            lemma_count_flagged_bound(guardrails@);
        }
        ExecutionSummary {
            entry_count: guardrails.len(),
            ready_entries: guardrails.len() - guarded,
            blocked_entries: 0,
            guarded_entries: guarded,
        }
    }
}

/// Envelope of `rename`, `dedup` and `organize` output.
pub struct ExecutionCommandReport<'a, T> {
    pub schema_version: &'static str,
    pub kind: &'static str,
    pub command: &'static str,
    pub summary: ExecutionSummary,
    pub entries: &'a [T],
    pub report: &'a ExecutionReport,
    pub dry_run: bool,
    pub aborted: bool,
}

impl<'a, T> ExecutionCommandReport<'a, T> {
    /// The envelope of an execution's output.
    pub fn new(
        command: &'static str,
        summary: ExecutionSummary,
        entries: &'a [T],
        report: &'a ExecutionReport,
        dry_run: bool,
        aborted: bool,
    ) -> (r: Self)
        ensures
            r.schema_version@ == CLI_SCHEMA_VERSION@,
            r.kind@ == KIND_EXECUTION_REPORT@,
            r.command == command,
            r.summary == summary,
            r.entries@ == entries@,
            r.report == report,
            r.dry_run == dry_run,
            r.aborted == aborted,
    {
        ExecutionCommandReport {
            schema_version: CLI_SCHEMA_VERSION,
            kind: KIND_EXECUTION_REPORT,
            command,
            summary,
            entries,
            report,
            dry_run,
            aborted,
        }
    }
}

/// Label of a metadata origin in diagnostics.
pub open spec fn metadata_origin_name(origin: MetadataOrigin) -> Seq<char> {
    match origin {
        MetadataOrigin::Parsed => "parsed"@,
        MetadataOrigin::Scraped => "scraped"@,
    }
}

/// Label of a metadata origin (see `metadata_origin_name`).
pub fn metadata_origin_label(origin: MetadataOrigin) -> (r: &'static str)
    ensures
        r@ == metadata_origin_name(origin),
        origin == MetadataOrigin::Parsed ==> r@ == "parsed"@,
        origin == MetadataOrigin::Scraped ==> r@ == "scraped"@,
{
    match origin {
        MetadataOrigin::Parsed => "parsed",
        MetadataOrigin::Scraped => "scraped",
    }
}


/// One line of the operation log: `[timestamp] action` and a newline.
pub fn log_line(timestamp: &str, action: &str) -> (r: String)
    ensures
        r@ == "["@ + timestamp@ + "] "@ + action@ + "\n"@,
{
    let mut v = chars_of("[");
    append_str(&mut v, timestamp);
    append_str(&mut v, "] ");
    append_str(&mut v, action);
    append_str(&mut v, "\n");
    string_of(v.as_slice())
}

/// In a summary of plans, the ready and the blocked plans make up all of
/// them.
pub proof fn lemma_summary_partitions_entries(conflicts: Seq<usize>)
    ensures
        (conflicts.len() - count_flagged(conflicts)) + count_flagged(conflicts) == conflicts.len(),
        count_flagged(conflicts) <= conflicts.len(),
{
    lemma_count_flagged_bound(conflicts);
}


pub open spec fn organize_conflict_counts(plans: Seq<crate::organize::OrganizePlan>) -> Seq<usize> {
    plans.map_values(|p: crate::organize::OrganizePlan| p.conflicts@.len() as usize)
}

pub open spec fn nfo_flags(plans: Seq<crate::organize::OrganizePlan>) -> Seq<usize> {
    plans.map_values(
        |p: crate::organize::OrganizePlan|
            if p.nfo_content is Some {
                1usize
            } else {
                0usize
            },
    )
}

pub open spec fn image_counts(plans: Seq<crate::organize::OrganizePlan>) -> Seq<usize> {
    plans.map_values(|p: crate::organize::OrganizePlan| p.image_urls@.len() as usize)
}

fn organize_counts(plans: &Vec<crate::organize::OrganizePlan>) -> (r: (Vec<usize>, Vec<usize>, Vec<usize>))
    ensures
        r.0@ == organize_conflict_counts(plans@),
        r.1@ == nfo_flags(plans@),
        r.2@ == image_counts(plans@),
{
    let mut c: Vec<usize> = Vec::new();
    let mut n: Vec<usize> = Vec::new();
    let mut m: Vec<usize> = Vec::new();
    let mut i: usize = 0;
    while i < plans.len()
        invariant
            i <= plans.len(),
            c@ == organize_conflict_counts(plans@).take(i as int),
            n@ == nfo_flags(plans@).take(i as int),
            m@ == image_counts(plans@).take(i as int),
        decreases plans.len() - i,
    {
        c.push(plans[i].conflicts.len());
        n.push(if plans[i].nfo_content.is_some() { 1 } else { 0 });
        m.push(plans[i].image_urls.len());
        assert(c@ =~= organize_conflict_counts(plans@).take(i + 1));
        assert(n@ =~= nfo_flags(plans@).take(i + 1));
        assert(m@ =~= image_counts(plans@).take(i + 1));
        i = i + 1;
    }
    assert(c@ =~= organize_conflict_counts(plans@));
    assert(n@ =~= nfo_flags(plans@));
    assert(m@ =~= image_counts(plans@));
    (c, n, m)
}

impl ExecutionSummary {
    /// Summary of organize plans: plans with conflicts are blocked.
    pub fn from_organize_plans(plans: &Vec<crate::organize::OrganizePlan>) -> (r: Self)
        ensures
            r.entry_count == plans.len(),
            r.blocked_entries == count_flagged(organize_conflict_counts(plans@)),
            r.ready_entries == plans.len() - count_flagged(organize_conflict_counts(plans@)),
            r.guarded_entries == 0,
    {
        let (c, _, _) = organize_counts(plans);
        Self::from_conflict_counts(c.as_slice())
    }
}

/// `summary` of the analysis envelope.
pub struct AnalysisSummary {
    pub stage_count: usize,
    pub duplicate_groups: usize,
    pub guarded_duplicate_groups: usize,
    pub rename_planned: bool,
    pub rename_blocked: bool,
    pub organize_plans: usize,
    pub organize_blocked: usize,
    pub organize_nfo_ready: usize,
    pub organize_image_ready: usize,
}

impl AnalysisSummary {
    /// The counts of an analysis: stages run; duplicate groups, and those
    /// held back by guardrails (`guardrails` holds each group's count);
    /// whether a rename is planned and blocked by conflicts; organize
    /// plans, those blocked, those with NFO content and those with
    /// artwork.
    pub fn new(
        stage_count: usize,
        guardrails: &[usize],
        rename_plan: Option<&crate::media::RenamePlan>,
        organize_plans: &Vec<crate::organize::OrganizePlan>,
    ) -> (r: Self)
        ensures
            r.stage_count == stage_count,
            r.duplicate_groups == guardrails.len(),
            r.guarded_duplicate_groups == count_flagged(guardrails@),
            r.rename_planned == rename_plan.is_some(),
            r.rename_blocked == (rename_plan matches Some(p) && p.conflicts@.len() > 0),
            r.organize_plans == organize_plans.len(),
            r.organize_blocked == count_flagged(organize_conflict_counts(organize_plans@)),
            r.organize_nfo_ready == count_flagged(nfo_flags(organize_plans@)),
            r.organize_image_ready == count_flagged(image_counts(organize_plans@)),
    {
        let (c, n, m) = organize_counts(organize_plans);
        AnalysisSummary {
            stage_count,
            duplicate_groups: guardrails.len(),
            guarded_duplicate_groups: count_nonzero(guardrails),
            rename_planned: rename_plan.is_some(),
            rename_blocked: match rename_plan {
                Some(p) => p.conflicts.len() > 0,
                None => false,
            },
            organize_plans: organize_plans.len(),
            organize_blocked: count_nonzero(c.as_slice()),
            organize_nfo_ready: count_nonzero(n.as_slice()),
            organize_image_ready: count_nonzero(m.as_slice()),
        }
    }
}


// ---------------------------------------------------------------------------
// Diagnostics
// ---------------------------------------------------------------------------

/// What one stage of an analysis decided for an item, on what evidence,
/// and with which risks.
pub struct AnalysisDiagnostic {
    pub stage: &'static str,
    pub decision: String,
    pub evidence: Vec<String>,
    pub risks: Vec<String>,
}

pub open spec fn gate_name(s: crate::types::AssetGateStatus) -> Seq<char> {
    match s {
        crate::types::AssetGateStatus::Accepted => "Accepted"@,
        crate::types::AssetGateStatus::DisabledByConfig => "DisabledByConfig"@,
        crate::types::AssetGateStatus::MissingMetadata => "MissingMetadata"@,
        crate::types::AssetGateStatus::IdentityUnconfirmed => "IdentityUnconfirmed"@,
        crate::types::AssetGateStatus::UntrustedSource => "UntrustedSource"@,
        crate::types::AssetGateStatus::LowAuthority => "LowAuthority"@,
        crate::types::AssetGateStatus::MissingAssetUrls => "MissingAssetUrls"@,
    }
}

fn gate_name_exec(s: crate::types::AssetGateStatus) -> (r: &'static str)
    ensures
        r@ == gate_name(s),
{
    match s {
        crate::types::AssetGateStatus::Accepted => "Accepted",
        crate::types::AssetGateStatus::DisabledByConfig => "DisabledByConfig",
        crate::types::AssetGateStatus::MissingMetadata => "MissingMetadata",
        crate::types::AssetGateStatus::IdentityUnconfirmed => "IdentityUnconfirmed",
        crate::types::AssetGateStatus::UntrustedSource => "UntrustedSource",
        crate::types::AssetGateStatus::LowAuthority => "LowAuthority",
        crate::types::AssetGateStatus::MissingAssetUrls => "MissingAssetUrls",
    }
}

pub open spec fn action_name(a: crate::types::OrganizeAction) -> Seq<char> {
    match a {
        crate::types::OrganizeAction::Move => "Move"@,
        crate::types::OrganizeAction::Copy => "Copy"@,
        crate::types::OrganizeAction::HardLink => "HardLink"@,
        crate::types::OrganizeAction::SymLink => "SymLink"@,
    }
}

fn action_name_exec(a: crate::types::OrganizeAction) -> (r: &'static str)
    ensures
        r@ == action_name(a),
{
    match a {
        crate::types::OrganizeAction::Move => "Move",
        crate::types::OrganizeAction::Copy => "Copy",
        crate::types::OrganizeAction::HardLink => "HardLink",
        crate::types::OrganizeAction::SymLink => "SymLink",
    }
}

pub open spec fn first3(n: nat) -> nat {
    if n < 3 {
        n
    } else {
        3
    }
}

/// How an organize plan is shown as evidence.
pub open spec fn organize_evidence_line(p: crate::organize::OrganizePlan) -> Seq<char> {
    action_name(p.action) + ":target="@ + p.target@ + ":nfo="@ + gate_name(p.nfo_gate) + ":image="@
        + gate_name(p.image_gate)
}

/// The conflicts of the first `n` plans, in order.
pub open spec fn first_conflicts(plans: Seq<crate::organize::OrganizePlan>, n: nat) -> Seq<Seq<char>>
    decreases n,
{
    if n == 0 {
        seq![]
    } else {
        first_conflicts(plans, (n - 1) as nat) + views(plans[n - 1].conflicts@)
    }
}

fn push_all(v: &mut Vec<String>, w: &Vec<String>)
    ensures
        views(final(v)@) == views(old(v)@) + views(w@),
{
    let ghost base = views(v@);
    let mut i: usize = 0;
    while i < w.len()
        invariant
            i <= w.len(),
            views(v@) == base + views(w@).take(i as int),
        decreases w.len() - i,
    {
        let ghost before = views(v@);
        let x = owned(w[i].as_str());
        let ghost xv = x@;
        v.push(x);
        assert(views(v@) =~= before.push(xv));
        assert(views(w@).take(i + 1) =~= views(w@).take(i as int).push(w@[i as int]@));
        assert(views(v@) =~= base + views(w@).take(i + 1));
        i = i + 1;
    }
    assert(views(w@).take(w.len() as int) =~= views(w@));
}

impl AnalysisDiagnostic {
    /// The organize stage for an item's plans: nothing planned, or how
    /// many plans and how many blocked, with the first three plans as
    /// evidence and their conflicts as risks.
    pub fn organize(plans: &Vec<crate::organize::OrganizePlan>) -> (r: Self)
        ensures
            r.stage@ == "organize"@,
            plans.len() == 0 ==> r.decision@ == "no organize action planned"@ && r.evidence@.len()
                == 0 && r.risks@.len() == 0,
            plans.len() > 0 ==> {
                &&& r.decision@ == decimal(plans.len() as nat) + " organize plan(s), "@ + decimal(
                    count_flagged(organize_conflict_counts(plans@)),
                ) + " blocked"@
                &&& views(r.evidence@) == plans@.take(first3(plans.len() as nat) as int).map_values(
                    |p: crate::organize::OrganizePlan| organize_evidence_line(p),
                )
                &&& views(r.risks@) == first_conflicts(plans@, first3(plans.len() as nat))
            },
    {
        if plans.len() == 0 {
            return AnalysisDiagnostic {
                stage: "organize",
                decision: owned("no organize action planned"),
                evidence: Vec::new(),
                risks: Vec::new(),
            };
        }
        let ghost lim = first3(plans.len() as nat) as int;
        let ghost lines = plans@.take(lim).map_values(
            |p: crate::organize::OrganizePlan| organize_evidence_line(p),
        );
        let mut evidence: Vec<String> = Vec::new();
        let mut risks: Vec<String> = Vec::new();
        let mut i: usize = 0;
        while i < plans.len() && i < 3
            invariant
                i <= lim,
                lim == first3(plans.len() as nat) as int,
                lim <= plans.len(),
                lines == plans@.take(lim).map_values(
                    |p: crate::organize::OrganizePlan| organize_evidence_line(p),
                ),
                views(evidence@) == lines.take(i as int),
                views(risks@) == first_conflicts(plans@, i as nat),
            decreases 3 - i,
        {
            let p = &plans[i];
            let mut v = chars_of(action_name_exec(p.action));
            append_str(&mut v, ":target=");
            append_str(&mut v, p.target.as_str());
            append_str(&mut v, ":nfo=");
            append_str(&mut v, gate_name_exec(p.nfo_gate));
            append_str(&mut v, ":image=");
            append_str(&mut v, gate_name_exec(p.image_gate));
            let ghost before = views(evidence@);
            evidence.push(string_of(v.as_slice()));
            assert(lines[i as int] == organize_evidence_line(plans@[i as int]));
            assert(lines.take(i + 1) =~= lines.take(i as int).push(lines[i as int]));
            assert(views(evidence@) =~= before.push(lines[i as int]));
            push_all(&mut risks, &p.conflicts);
            i = i + 1;
        }
        assert(lines.take(lim) =~= lines);
        let (c, _, _) = organize_counts(plans);
        let blocked = count_nonzero(c.as_slice());
        let mut d = decimal_of(plans.len() as u64);
        append_str(&mut d, " organize plan(s), ");
        append_chars(&mut d, decimal_of(blocked as u64).as_slice());
        append_str(&mut d, " blocked");
        AnalysisDiagnostic { stage: "organize", decision: string_of(d.as_slice()), evidence, risks }
    }
}


/// How a duplicate group is shown as evidence.
pub open spec fn group_evidence_line(g: crate::dedup::DuplicateGroup) -> Seq<char> {
    g.content_id@ + ":"@ + crate::dedup::kind_label(g.kind) + ":drops="@ + decimal(
        g.decision.drop_count as nat,
    )
}

/// The guardrails of the held-back groups among the first `n`.
pub open spec fn first_guardrails(groups: Seq<crate::dedup::DuplicateGroup>, n: nat) -> Seq<Seq<char>>
    decreases n,
{
    if n == 0 {
        seq![]
    } else {
        first_guardrails(groups, (n - 1) as nat) + if groups[n - 1].decision.guarded {
            views(groups[n - 1].guardrails@)
        } else {
            seq![]
        }
    }
}

pub open spec fn guarded_flags(groups: Seq<crate::dedup::DuplicateGroup>) -> Seq<usize> {
    groups.map_values(
        |g: crate::dedup::DuplicateGroup|
            if g.decision.guarded {
                1usize
            } else {
                0usize
            },
    )
}

impl AnalysisDiagnostic {
    /// The dedup stage for an item, given the duplicate groups it is in:
    /// none, or how many and how many held back, with the first three
    /// groups as evidence and the guardrails of the held-back ones among
    /// them as risks.
    pub fn dedup(groups: &Vec<crate::dedup::DuplicateGroup>, item_path: &str) -> (r: Self)
        ensures
            r.stage@ == "dedup"@,
            groups.len() == 0 ==> r.decision@ == "item is not part of any duplicate group"@
                && views(r.evidence@) == seq!["path="@ + item_path@] && r.risks@.len() == 0,
            groups.len() > 0 ==> {
                &&& r.decision@ == decimal(groups.len() as nat) + " duplicate group(s) relevant; "@
                    + decimal(count_flagged(guarded_flags(groups@))) + " guarded"@
                &&& views(r.evidence@) == groups@.take(first3(groups.len() as nat) as int).map_values(
                    |g: crate::dedup::DuplicateGroup| group_evidence_line(g),
                )
                &&& views(r.risks@) == first_guardrails(groups@, first3(groups.len() as nat))
            },
    {
        if groups.len() == 0 {
            let mut v = chars_of("path=");
            append_str(&mut v, item_path);
            let line = string_of(v.as_slice());
            let ghost lv = line@;
            let evidence = vec![line];
            assert(views(evidence@) =~= seq![lv]);
            return AnalysisDiagnostic {
                stage: "dedup",
                decision: owned("item is not part of any duplicate group"),
                evidence,
                risks: Vec::new(),
            };
        }
        let ghost lim = first3(groups.len() as nat) as int;
        let ghost lines = groups@.take(lim).map_values(
            |g: crate::dedup::DuplicateGroup| group_evidence_line(g),
        );
        let mut evidence: Vec<String> = Vec::new();
        let mut risks: Vec<String> = Vec::new();
        let mut i: usize = 0;
        while i < groups.len() && i < 3
            invariant
                i <= lim,
                lim == first3(groups.len() as nat) as int,
                lim <= groups.len(),
                lines == groups@.take(lim).map_values(
                    |g: crate::dedup::DuplicateGroup| group_evidence_line(g),
                ),
                views(evidence@) == lines.take(i as int),
                views(risks@) == first_guardrails(groups@, i as nat),
            decreases 3 - i,
        {
            let g = &groups[i];
            let mut v = chars_of(g.content_id.as_str());
            append_str(&mut v, ":");
            append_str(
                &mut v,
                match g.kind {
                    crate::types::DuplicateKind::Exact => "Exact",
                    crate::types::DuplicateKind::Version => "Version",
                },
            );
            append_str(&mut v, ":drops=");
            append_chars(&mut v, decimal_of(g.decision.drop_count as u64).as_slice());
            let ghost before = views(evidence@);
            evidence.push(string_of(v.as_slice()));
            assert(lines[i as int] == group_evidence_line(groups@[i as int]));
            assert(lines.take(i + 1) =~= lines.take(i as int).push(lines[i as int]));
            assert(views(evidence@) =~= before.push(lines[i as int]));
            let ghost rb = views(risks@);
            if g.decision.guarded {
                push_all(&mut risks, &g.guardrails);
            } else {
                assert(views(risks@) =~= rb + Seq::<Seq<char>>::empty());
            }
            i = i + 1;
        }
        assert(lines.take(lim) =~= lines);
        let mut flags: Vec<usize> = Vec::new();
        let mut k: usize = 0;
        while k < groups.len()
            invariant
                k <= groups.len(),
                flags@ == guarded_flags(groups@).take(k as int),
            decreases groups.len() - k,
        {
            flags.push(if groups[k].decision.guarded { 1 } else { 0 });
            assert(flags@ =~= guarded_flags(groups@).take(k + 1));
            k = k + 1;
        }
        assert(flags@ =~= guarded_flags(groups@));
        let guarded = count_nonzero(flags.as_slice());
        let mut d = decimal_of(groups.len() as u64);
        append_str(&mut d, " duplicate group(s) relevant; ");
        append_chars(&mut d, decimal_of(guarded as u64).as_slice());
        append_str(&mut d, " guarded");
        AnalysisDiagnostic { stage: "dedup", decision: string_of(d.as_slice()), evidence, risks }
    }
}


/// The evidence of a rename plan: target, template, how many subtitle and
/// directory renamings follow it, and where its title came from.
pub open spec fn rename_evidence(
    target: Seq<char>,
    template: Seq<char>,
    subtitles: nat,
    directories: nat,
    origin: Option<MetadataOrigin>,
) -> Seq<Seq<char>> {
    seq![
        "target="@ + target,
        "template="@ + template,
        "subtitle_count="@ + decimal(subtitles),
        "directory_count="@ + decimal(directories),
    ] + match origin {
        Some(o) => seq!["title_origin="@ + metadata_origin_name(o)],
        None => seq![],
    }
}

fn push_str2(v: &mut Vec<String>, a: &str, b: &str)
    ensures
        views(final(v)@) == views(old(v)@).push(a@ + b@),
{
    let mut c = chars_of(a);
    append_str(&mut c, b);
    let ghost before = views(v@);
    v.push(string_of(c.as_slice()));
    assert(views(v@) =~= before.push(a@ + b@));
}

impl AnalysisDiagnostic {
    /// The rename stage for an item: no plan, or its target, template and
    /// counts as evidence, its conflicts (and a weak title, when
    /// `low_title_confidence`) as risks, executable unless it has
    /// conflicts.
    pub fn rename(
        plan: Option<&crate::media::RenamePlan>,
        template: &str,
        subtitles: usize,
        directories: usize,
        origin: Option<MetadataOrigin>,
        low_title_confidence: bool,
    ) -> (r: Self)
        ensures
            r.stage@ == "rename"@,
            plan is None ==> r.decision@ == "no rename needed"@ && r.evidence@.len() == 0
                && r.risks@.len() == 0,
            plan matches Some(p) ==> {
                &&& r.decision@ == (if p.conflicts@.len() == 0 {
                    "rename plan is executable"@
                } else {
                    "rename plan is blocked by conflicts"@
                })
                &&& views(r.evidence@) == rename_evidence(
                    p.new_path@,
                    template@,
                    subtitles as nat,
                    directories as nat,
                    origin,
                )
                &&& views(r.risks@) == views(p.conflicts@) + if low_title_confidence {
                    seq!["rename title confidence is low"@]
                } else {
                    seq![]
                }
            },
    {
        let p = match plan {
            None => {
                return AnalysisDiagnostic {
                    stage: "rename",
                    decision: owned("no rename needed"),
                    evidence: Vec::new(),
                    risks: Vec::new(),
                };
            },
            Some(p) => p,
        };
        let mut evidence: Vec<String> = Vec::new();
        assert(views(evidence@) =~= Seq::<Seq<char>>::empty());
        push_str2(&mut evidence, "target=", p.new_path.as_str());
        push_str2(&mut evidence, "template=", template);
        let s = decimal_of(subtitles as u64);
        let d = decimal_of(directories as u64);
        push_str2(&mut evidence, "subtitle_count=", string_of(s.as_slice()).as_str());
        push_str2(&mut evidence, "directory_count=", string_of(d.as_slice()).as_str());
        match origin {
            Some(o) => push_str2(&mut evidence, "title_origin=", metadata_origin_label(o)),
            None => {},
        }
        let mut risks = crate::media::copy_strings(&p.conflicts);
        if low_title_confidence {
            let ghost before = views(risks@);
            risks.push(owned("rename title confidence is low"));
            assert(views(risks@) =~= before.push("rename title confidence is low"@));
        } else {
            assert(views(risks@) =~= views(p.conflicts@) + Seq::<Seq<char>>::empty());
        }
        let decision = if p.conflicts.len() == 0 {
            owned("rename plan is executable")
        } else {
            owned("rename plan is blocked by conflicts")
        };
        proof {
            let ev = rename_evidence(p.new_path@, template@, subtitles as nat, directories as nat, origin);
            assert(views(evidence@) =~= ev);
        }
        AnalysisDiagnostic { stage: "rename", decision, evidence, risks }
    }
}

} // verus!
