//! Coverage computation: correlating logging call sites against the
//! structural facts of each file and aggregating the results.
//!
//! An item is covered when some call site lies within its span — inclusive
//! at both endpoints, ordered by (line, column) — or, for functions only,
//! when a call site's enclosing function has the item's qualified name.
//! Per-file metrics pool the three categories into an overall figure by
//! summing counts, never by averaging percentages; project totals are the
//! sums of the per-file totals.

use vstd::prelude::*;

use crate::ast::BranchInfo;
use crate::ast::BranchModel;
use crate::ast::ExceptionInfo;
use crate::ast::ExceptionModel;
use crate::ast::FileAstInfo;
use crate::ast::FileModel;
use crate::ast::FunctionInfo;
use crate::ast::FunctionModel;
use crate::ast::LocModel;
use crate::ast::SourceLocation;
use crate::config::Config;
use crate::log_identifier::CallSiteModel;
use crate::log_identifier::LogCallSite;

verus! {

broadcast use vstd::seq_lib::group_filter_ensures;

// ---------------------------------------------------------------------------
// Metrics
// ---------------------------------------------------------------------------

/// A covered/total pair for one category of items. The percentage is not
/// stored: it is always derived from the current pair (see
/// [`CoverageMetrics::percentage_parts`]).
#[derive(Debug, Clone, Copy, PartialEq, Eq, Structural, Default)]
pub struct CoverageMetrics {
    pub total: usize,
    pub covered: usize,
}

#[verifier::ext_equal]
pub ghost struct MetricsModel {
    pub total: int,
    pub covered: int,
}

impl View for CoverageMetrics {
    type V = MetricsModel;

    open spec fn view(&self) -> MetricsModel {
        MetricsModel { total: self.total as int, covered: self.covered as int }
    }
}

/// The numerator of the exact coverage percentage: `100 * covered`, or 100
/// for an empty population, which counts as fully covered.
pub open spec fn percentage_num(m: MetricsModel) -> int {
    if m.total == 0 {
        100
    } else {
        100 * m.covered
    }
}

/// The denominator of the exact coverage percentage: `total`, or 1 for an
/// empty population.
pub open spec fn percentage_den(m: MetricsModel) -> int {
    if m.total == 0 {
        1
    } else {
        m.total
    }
}

impl CoverageMetrics {
    /// Well-formedness: never more covered items than items.
    pub open spec fn wf(self) -> bool {
        self.covered <= self.total
    }

    pub fn new(total: usize, covered: usize) -> (r: CoverageMetrics)
        requires
            covered <= total,
        ensures
            r.total == total,
            r.covered == covered,
            r.wf(),
    {
        CoverageMetrics { total, covered }
    }

    /// The exact coverage percentage as a fraction `(numerator,
    /// denominator)`: `covered / total * 100`, taken to be `100 / 1` when
    /// the population is empty.
    pub fn percentage_parts(&self) -> (r: (u128, u128))
        ensures
            r.0 == percentage_num(self@),
            r.1 == percentage_den(self@),
    {
        if self.total == 0 {
            (100u128, 1u128)
        } else {
            (100u128 * (self.covered as u128), self.total as u128)
        }
    }
}

/// Law: for every well-formed metrics value, `0 <= covered <= total` and
/// the exact percentage equals `covered / total * 100`, taken as 100 for an
/// empty population; it always lies between 0% and 100%.
pub proof fn lemma_percentage_bounds(m: CoverageMetrics)
    requires
        m.wf(),
    ensures
        0 <= m@.covered <= m@.total,
        percentage_den(m@) > 0,
        m@.total > 0 ==> percentage_num(m@) == 100 * m@.covered
            && percentage_den(m@) == m@.total,
        m@.total == 0 ==> percentage_num(m@) == 100 && percentage_den(m@) == 1,
        0 <= percentage_num(m@) <= 100 * percentage_den(m@),
{
}

// ---------------------------------------------------------------------------
// The coverage test
// ---------------------------------------------------------------------------

/// Whether location `loc` lies within the inclusive span `[start, end]`,
/// comparing (line, column) pairs.
pub open spec fn loc_in_span(loc: LocModel, start: LocModel, end: LocModel) -> bool {
    &&& !(loc.line < start.line || loc.line > end.line)
    &&& !(loc.line == start.line && loc.column < start.column)
    &&& !(loc.line == end.line && loc.column > end.column)
}

/// Whether `start` comes no later than `end` as a (line, column) pair, so
/// that `[start, end]` is a meaningful span.
pub open spec fn span_ordered(start: LocModel, end: LocModel) -> bool {
    start.line < end.line || (start.line == end.line && start.column <= end.column)
}

/// A call site covers a function when it lies in the function's span or
/// its enclosing function is that very function.
pub open spec fn site_covers_function(s: CallSiteModel, f: FunctionModel) -> bool {
    s.parent_function_qualified_name == f.qualified_name || loc_in_span(
        s.source_location,
        f.start_location,
        f.end_location,
    )
}

pub open spec fn function_covered(f: FunctionModel, sites: Seq<CallSiteModel>) -> bool {
    exists|i: int| 0 <= i < sites.len() && site_covers_function(sites[i], f)
}

/// Whether some call site lies within the span `[start, end]`.
pub open spec fn span_covered(sites: Seq<CallSiteModel>, start: LocModel, end: LocModel) -> bool {
    exists|i: int| 0 <= i < sites.len() && loc_in_span(sites[i].source_location, start, end)
}

/// Branches have no qualified-name identity of their own: only the span
/// rule applies.
pub open spec fn branch_covered(b: BranchModel, sites: Seq<CallSiteModel>) -> bool {
    span_covered(sites, b.start_location, b.end_location)
}

pub open spec fn exception_covered(e: ExceptionModel, sites: Seq<CallSiteModel>) -> bool {
    span_covered(sites, e.start_location, e.end_location)
}

/// Law: span containment is inclusive at both endpoints of an ordered
/// span, and excludes the position one column before the start and one
/// column past the end on their own lines.
pub proof fn lemma_span_endpoints(start: LocModel, end: LocModel, l: LocModel)
    requires
        span_ordered(start, end),
    ensures
        loc_in_span(start, start, end),
        loc_in_span(end, start, end),
        l.line == start.line && l.column < start.column ==> !loc_in_span(l, start, end),
        l.line == end.line && l.column > end.column ==> !loc_in_span(l, start, end),
{
}

/// Law: a function is uncovered when the file has no call sites at all,
/// and covered when some call site sits exactly at its first character
/// (provided its span is ordered).
pub proof fn lemma_function_coverage_extremes(
    f: FunctionModel,
    sites: Seq<CallSiteModel>,
    i: int,
)
    requires
        span_ordered(f.start_location, f.end_location),
    ensures
        sites.len() == 0 ==> !function_covered(f, sites),
        0 <= i < sites.len() && sites[i].source_location == f.start_location
            ==> function_covered(f, sites),
{
    lemma_span_endpoints(f.start_location, f.end_location, f.start_location);
    if 0 <= i < sites.len() && sites[i].source_location == f.start_location {
        assert(site_covers_function(sites[i], f));
    }
}

// ---------------------------------------------------------------------------
// Per-file coverage
// ---------------------------------------------------------------------------

/// The coverage of one file: metrics for functions, branches and exception
/// blocks, the pooled overall metrics, and the items left uncovered.
#[derive(Debug, Clone)]
pub struct PerFileCoverage {
    pub file_path: String,
    pub functions: CoverageMetrics,
    pub branches: CoverageMetrics,
    pub exceptions: CoverageMetrics,
    pub overall: CoverageMetrics,
    pub uncovered_functions: Vec<FunctionInfo>,
    pub uncovered_branches: Vec<BranchInfo>,
    pub uncovered_exceptions: Vec<ExceptionInfo>,
}

#[verifier::ext_equal]
pub ghost struct PerFileModel {
    pub file_path: Seq<char>,
    pub functions: MetricsModel,
    pub branches: MetricsModel,
    pub exceptions: MetricsModel,
    pub overall: MetricsModel,
    pub uncovered_functions: Seq<FunctionModel>,
    pub uncovered_branches: Seq<BranchModel>,
    pub uncovered_exceptions: Seq<ExceptionModel>,
}

impl View for PerFileCoverage {
    type V = PerFileModel;

    open spec fn view(&self) -> PerFileModel {
        PerFileModel {
            file_path: self.file_path@,
            functions: self.functions@,
            branches: self.branches@,
            exceptions: self.exceptions@,
            overall: self.overall@,
            uncovered_functions: self.uncovered_functions@.map_values(|f: FunctionInfo| f@),
            uncovered_branches: self.uncovered_branches@.map_values(|b: BranchInfo| b@),
            uncovered_exceptions: self.uncovered_exceptions@.map_values(
                |e: ExceptionInfo| e@,
            ),
        }
    }
}

impl PerFileCoverage {
    /// An empty result for the given file.
    pub fn new(file_path: String) -> (r: PerFileCoverage)
        ensures
            r@.file_path == file_path@,
            r@.functions == (MetricsModel { total: 0, covered: 0 }),
            r@.branches == (MetricsModel { total: 0, covered: 0 }),
            r@.exceptions == (MetricsModel { total: 0, covered: 0 }),
            r@.overall == (MetricsModel { total: 0, covered: 0 }),
            r@.uncovered_functions == Seq::<FunctionModel>::empty(),
            r@.uncovered_branches == Seq::<BranchModel>::empty(),
            r@.uncovered_exceptions == Seq::<ExceptionModel>::empty(),
    {
        let r = PerFileCoverage {
            file_path,
            functions: CoverageMetrics::new(0, 0),
            branches: CoverageMetrics::new(0, 0),
            exceptions: CoverageMetrics::new(0, 0),
            overall: CoverageMetrics::new(0, 0),
            uncovered_functions: Vec::new(),
            uncovered_branches: Vec::new(),
            uncovered_exceptions: Vec::new(),
        };
        proof {
            assert(r@.uncovered_functions =~= Seq::<FunctionModel>::empty());
            assert(r@.uncovered_branches =~= Seq::<BranchModel>::empty());
            assert(r@.uncovered_exceptions =~= Seq::<ExceptionModel>::empty());
        }
        r
    }
}

/// What coverage of one file is: only function definitions with a body are
/// counted; each category's metrics count its covered items; the overall
/// metrics pool the three categories by summing counts; the uncovered
/// lists keep the unmatched items in order.
pub open spec fn file_coverage(file: FileModel, sites: Seq<CallSiteModel>) -> PerFileModel {
    let counted = file.functions.filter(|f: FunctionModel| f.has_body);
    let covered_fns = file.functions.filter(
        |f: FunctionModel| f.has_body && function_covered(f, sites),
    );
    let uncovered_fns = file.functions.filter(
        |f: FunctionModel| f.has_body && !function_covered(f, sites),
    );
    let covered_brs = file.branches.filter(|b: BranchModel| branch_covered(b, sites));
    let uncovered_brs = file.branches.filter(|b: BranchModel| !branch_covered(b, sites));
    let covered_exs = file.exceptions.filter(|e: ExceptionModel| exception_covered(e, sites));
    let uncovered_exs = file.exceptions.filter(
        |e: ExceptionModel| !exception_covered(e, sites),
    );
    PerFileModel {
        file_path: file.file_path,
        functions: MetricsModel { total: counted.len() as int, covered: covered_fns.len() as int },
        branches: MetricsModel {
            total: file.branches.len() as int,
            covered: covered_brs.len() as int,
        },
        exceptions: MetricsModel {
            total: file.exceptions.len() as int,
            covered: covered_exs.len() as int,
        },
        overall: MetricsModel {
            total: counted.len() + file.branches.len() + file.exceptions.len() as int,
            covered: covered_fns.len() + covered_brs.len() + covered_exs.len() as int,
        },
        uncovered_functions: uncovered_fns,
        uncovered_branches: uncovered_brs,
        uncovered_exceptions: uncovered_exs,
    }
}

/// If `p` implies `q`, filtering by `p` keeps at most as much as filtering
/// by `q`.
proof fn lemma_filter_implies_len<A>(s: Seq<A>, p: spec_fn(A) -> bool, q: spec_fn(A) -> bool)
    requires
        forall|x: A| #[trigger] p(x) ==> q(x),
    ensures
        s.filter(p).len() <= s.filter(q).len(),
    decreases s.len(),
{
    reveal_with_fuel(Seq::filter, 2);
    if s.len() > 0 {
        lemma_filter_implies_len(s.drop_last(), p, q);
    }
}

// ---------------------------------------------------------------------------
// Project coverage
// ---------------------------------------------------------------------------

/// The coverage of a whole run: each file's coverage in input order, the
/// project totals per category summed from the per-file totals, and the
/// pooled overall metrics.
#[derive(Debug, Clone)]
pub struct ProjectCoverage {
    pub files: Vec<PerFileCoverage>,
    pub total_functions: CoverageMetrics,
    pub total_branches: CoverageMetrics,
    pub total_exceptions: CoverageMetrics,
    pub project_overall: CoverageMetrics,
}

#[verifier::ext_equal]
pub ghost struct ProjectModel {
    pub files: Seq<PerFileModel>,
    pub total_functions: MetricsModel,
    pub total_branches: MetricsModel,
    pub total_exceptions: MetricsModel,
    pub project_overall: MetricsModel,
}

impl View for ProjectCoverage {
    type V = ProjectModel;

    open spec fn view(&self) -> ProjectModel {
        ProjectModel {
            files: self.files@.map_values(|f: PerFileCoverage| f@),
            total_functions: self.total_functions@,
            total_branches: self.total_branches@,
            total_exceptions: self.total_exceptions@,
            project_overall: self.project_overall@,
        }
    }
}

/// The call sites recorded for `path`: the first entry with that path, or
/// none. A file with no identified call sites is treated as having an
/// empty list, never as an error.
pub open spec fn sites_for(
    map: Seq<(Seq<char>, Seq<CallSiteModel>)>,
    path: Seq<char>,
) -> Seq<CallSiteModel>
    decreases map.len(),
{
    if map.len() == 0 {
        Seq::empty()
    } else if map[0].0 == path {
        map[0].1
    } else {
        sites_for(map.drop_first(), path)
    }
}

/// Running sums of the per-category totals over a list of files.
#[verifier::ext_equal]
pub ghost struct ProjectTotals {
    pub functions_total: int,
    pub functions_covered: int,
    pub branches_total: int,
    pub branches_covered: int,
    pub exceptions_total: int,
    pub exceptions_covered: int,
}

pub open spec fn zero_totals() -> ProjectTotals {
    ProjectTotals {
        functions_total: 0,
        functions_covered: 0,
        branches_total: 0,
        branches_covered: 0,
        exceptions_total: 0,
        exceptions_covered: 0,
    }
}

/// The totals of the first files plus one more file's coverage.
pub open spec fn add_file_totals(t: ProjectTotals, pf: PerFileModel) -> ProjectTotals {
    ProjectTotals {
        functions_total: t.functions_total + pf.functions.total,
        functions_covered: t.functions_covered + pf.functions.covered,
        branches_total: t.branches_total + pf.branches.total,
        branches_covered: t.branches_covered + pf.branches.covered,
        exceptions_total: t.exceptions_total + pf.exceptions.total,
        exceptions_covered: t.exceptions_covered + pf.exceptions.covered,
    }
}

/// The project totals: per-file totals summed over the files, in order.
pub open spec fn project_totals(
    files: Seq<FileModel>,
    map: Seq<(Seq<char>, Seq<CallSiteModel>)>,
) -> ProjectTotals
    decreases files.len(),
{
    if files.len() == 0 {
        zero_totals()
    } else {
        add_file_totals(
            project_totals(files.drop_last(), map),
            file_coverage(files.last(), sites_for(map, files.last().file_path)),
        )
    }
}

/// Each file's coverage, in input order.
pub open spec fn files_coverages(
    files: Seq<FileModel>,
    map: Seq<(Seq<char>, Seq<CallSiteModel>)>,
) -> Seq<PerFileModel> {
    files.map_values(|f: FileModel| file_coverage(f, sites_for(map, f.file_path)))
}

/// What project coverage is: the per-file results plus totals summed from
/// them, with one pooled overall figure derived once from the sums.
pub open spec fn project_coverage(
    files: Seq<FileModel>,
    map: Seq<(Seq<char>, Seq<CallSiteModel>)>,
) -> ProjectModel {
    let t = project_totals(files, map);
    ProjectModel {
        files: files_coverages(files, map),
        total_functions: MetricsModel { total: t.functions_total, covered: t.functions_covered },
        total_branches: MetricsModel { total: t.branches_total, covered: t.branches_covered },
        total_exceptions: MetricsModel {
            total: t.exceptions_total,
            covered: t.exceptions_covered,
        },
        project_overall: MetricsModel {
            total: t.functions_total + t.branches_total + t.exceptions_total,
            covered: t.functions_covered + t.branches_covered + t.exceptions_covered,
        },
    }
}

/// Each per-file contribution is non-negative and never exceeds the whole:
/// the totals of a prefix of the files are bounded by the final totals.
pub proof fn lemma_project_totals_prefix(
    files: Seq<FileModel>,
    map: Seq<(Seq<char>, Seq<CallSiteModel>)>,
    i: int,
)
    requires
        0 <= i <= files.len(),
    ensures
        0 <= project_totals(files.take(i), map).functions_total
            <= project_totals(files, map).functions_total,
        0 <= project_totals(files.take(i), map).functions_covered
            <= project_totals(files, map).functions_covered,
        0 <= project_totals(files.take(i), map).branches_total
            <= project_totals(files, map).branches_total,
        0 <= project_totals(files.take(i), map).branches_covered
            <= project_totals(files, map).branches_covered,
        0 <= project_totals(files.take(i), map).exceptions_total
            <= project_totals(files, map).exceptions_total,
        0 <= project_totals(files.take(i), map).exceptions_covered
            <= project_totals(files, map).exceptions_covered,
    decreases files.len() - i,
{
    lemma_project_totals_nonneg(files.take(i), map);
    if i == files.len() {
        assert(files.take(i) =~= files);
    } else {
        assert(files.take(i + 1).drop_last() =~= files.take(i));
        assert(files.take(i + 1).last() == files[i]);
        lemma_file_coverage_nonneg(files[i], sites_for(map, files[i].file_path));
        lemma_project_totals_prefix(files, map, i + 1);
    }
}

proof fn lemma_project_totals_nonneg(
    files: Seq<FileModel>,
    map: Seq<(Seq<char>, Seq<CallSiteModel>)>,
)
    ensures
        project_totals(files, map).functions_total >= 0,
        project_totals(files, map).functions_covered >= 0,
        project_totals(files, map).branches_total >= 0,
        project_totals(files, map).branches_covered >= 0,
        project_totals(files, map).exceptions_total >= 0,
        project_totals(files, map).exceptions_covered >= 0,
    decreases files.len(),
{
    if files.len() > 0 {
        lemma_project_totals_nonneg(files.drop_last(), map);
        lemma_file_coverage_nonneg(
            files.last(),
            sites_for(map, files.last().file_path),
        );
    }
}

proof fn lemma_file_coverage_nonneg(file: FileModel, sites: Seq<CallSiteModel>)
    ensures
        file_coverage(file, sites).functions.total >= 0,
        file_coverage(file, sites).functions.covered >= 0,
        file_coverage(file, sites).branches.total >= 0,
        file_coverage(file, sites).branches.covered >= 0,
        file_coverage(file, sites).exceptions.total >= 0,
        file_coverage(file, sites).exceptions.covered >= 0,
{
}

/// Law: the project totals equal the sums of the per-file totals for each
/// of the three categories, and the project overall pool equals the sum of
/// the three pooled categories.
pub proof fn lemma_project_totals_are_sums(
    files: Seq<FileModel>,
    map: Seq<(Seq<char>, Seq<CallSiteModel>)>,
)
    ensures
        project_coverage(files, map).total_functions.total
            == sum_field(project_coverage(files, map).files, |pf: PerFileModel| pf.functions.total),
        project_coverage(files, map).total_functions.covered
            == sum_field(
            project_coverage(files, map).files,
            |pf: PerFileModel| pf.functions.covered,
        ),
        project_coverage(files, map).total_branches.total
            == sum_field(project_coverage(files, map).files, |pf: PerFileModel| pf.branches.total),
        project_coverage(files, map).total_branches.covered
            == sum_field(
            project_coverage(files, map).files,
            |pf: PerFileModel| pf.branches.covered,
        ),
        project_coverage(files, map).total_exceptions.total
            == sum_field(
            project_coverage(files, map).files,
            |pf: PerFileModel| pf.exceptions.total,
        ),
        project_coverage(files, map).total_exceptions.covered
            == sum_field(
            project_coverage(files, map).files,
            |pf: PerFileModel| pf.exceptions.covered,
        ),
        project_coverage(files, map).project_overall.total
            == project_coverage(files, map).total_functions.total
                + project_coverage(files, map).total_branches.total
                + project_coverage(files, map).total_exceptions.total,
        project_coverage(files, map).project_overall.covered
            == project_coverage(files, map).total_functions.covered
                + project_coverage(files, map).total_branches.covered
                + project_coverage(files, map).total_exceptions.covered,
{
    lemma_totals_field_sums(files, map);
}

/// The sum of one integer field over a list of per-file results.
pub open spec fn sum_field(pcs: Seq<PerFileModel>, f: spec_fn(PerFileModel) -> int) -> int
    decreases pcs.len(),
{
    if pcs.len() == 0 {
        0
    } else {
        sum_field(pcs.drop_last(), f) + f(pcs.last())
    }
}

proof fn lemma_totals_field_sums(
    files: Seq<FileModel>,
    map: Seq<(Seq<char>, Seq<CallSiteModel>)>,
)
    ensures
        project_totals(files, map).functions_total
            == sum_field(files_coverages(files, map), |pf: PerFileModel| pf.functions.total),
        project_totals(files, map).functions_covered
            == sum_field(files_coverages(files, map), |pf: PerFileModel| pf.functions.covered),
        project_totals(files, map).branches_total
            == sum_field(files_coverages(files, map), |pf: PerFileModel| pf.branches.total),
        project_totals(files, map).branches_covered
            == sum_field(files_coverages(files, map), |pf: PerFileModel| pf.branches.covered),
        project_totals(files, map).exceptions_total
            == sum_field(files_coverages(files, map), |pf: PerFileModel| pf.exceptions.total),
        project_totals(files, map).exceptions_covered
            == sum_field(files_coverages(files, map), |pf: PerFileModel| pf.exceptions.covered),
    decreases files.len(),
{
    if files.len() > 0 {
        lemma_totals_field_sums(files.drop_last(), map);
        assert(files_coverages(files, map).drop_last()
            =~= files_coverages(files.drop_last(), map));
        assert(files_coverages(files, map).last()
            == file_coverage(files.last(), sites_for(map, files.last().file_path)));
    } else {
        assert(files_coverages(files, map) =~= Seq::<PerFileModel>::empty());
    }
}

// ---------------------------------------------------------------------------
// The calculator
// ---------------------------------------------------------------------------

/// The views of a list of per-file structural results.
pub open spec fn files_views(v: Seq<FileAstInfo>) -> Seq<FileModel> {
    v.map_values(|f: FileAstInfo| f@)
}

/// The views of a path-keyed list of call-site lists.
pub open spec fn map_views(
    v: Seq<(String, Vec<LogCallSite>)>,
) -> Seq<(Seq<char>, Seq<CallSiteModel>)> {
    v.map_values(
        |e: (String, Vec<LogCallSite>)| (e.0@, e.1@.map_values(|c: LogCallSite| c@)),
    )
}

/// Whether any recorded call site covers the function.
#[verifier::loop_isolation(false)]
fn covers_function(sites: &Vec<LogCallSite>, f: &FunctionInfo) -> (r: bool)
    ensures
        r == function_covered(f@, sites@.map_values(|c: LogCallSite| c@)),
{
    let ghost views = sites@.map_values(|c: LogCallSite| c@);
    let n = sites.len();
    for i in 0..n
        invariant
            forall|j: int| 0 <= j < i ==> !site_covers_function(views[j], f@),
    {
        let site = &sites[i];
        let name_match = site.parent_function_qualified_name == f.qualified_name;
        let within = CoverageCalculator::is_location_within_range(
            &site.source_location,
            &f.start_location,
            &f.end_location,
        );
        if name_match || within {
            proof {
                assert(site_covers_function(views[i as int], f@));
            }
            return true;
        }
        proof {
            assert(views[i as int] == sites@[i as int]@);
            assert(!site_covers_function(views[i as int], f@));
        }
    }
    proof {
        assert(!function_covered(f@, views)) by {
            if function_covered(f@, views) {
                let i = choose|i: int|
                    0 <= i < views.len() && site_covers_function(views[i], f@);
                assert(!site_covers_function(views[i], f@));
            }
        };
    }
    false
}

/// Whether any recorded call site lies within the span `[start, end]`.
#[verifier::loop_isolation(false)]
fn covers_span(
    sites: &Vec<LogCallSite>,
    start: &SourceLocation,
    end: &SourceLocation,
) -> (r: bool)
    ensures
        r == span_covered(sites@.map_values(|c: LogCallSite| c@), start@, end@),
{
    let ghost views = sites@.map_values(|c: LogCallSite| c@);
    let n = sites.len();
    for i in 0..n
        invariant
            forall|j: int| 0 <= j < i ==> !loc_in_span(views[j].source_location, start@, end@),
    {
        let site = &sites[i];
        if CoverageCalculator::is_location_within_range(&site.source_location, start, end) {
            proof {
                assert(loc_in_span(views[i as int].source_location, start@, end@));
            }
            return true;
        }
        proof {
            assert(views[i as int] == sites@[i as int]@);
        }
    }
    proof {
        assert(!span_covered(views, start@, end@)) by {
            if span_covered(views, start@, end@) {
                let i = choose|i: int|
                    0 <= i < views.len() && loc_in_span(views[i].source_location, start@, end@);
                assert(!loc_in_span(views[i].source_location, start@, end@));
            }
        };
    }
    false
}

/// The call sites recorded for `path` in the path-keyed list, if any.
fn find_sites<'m>(
    map: &'m Vec<(String, Vec<LogCallSite>)>,
    path: &String,
) -> (r: Option<&'m Vec<LogCallSite>>)
    ensures
        (match r {
            Some(v) => v@.map_values(|c: LogCallSite| c@),
            None => Seq::<CallSiteModel>::empty(),
        }) == sites_for(map_views(map@), path@),
        r is None ==> sites_for(map_views(map@), path@) == Seq::<CallSiteModel>::empty(),
{
    let ghost m = map_views(map@);
    proof {
        assert(m.skip(0) =~= m);
    }
    let n = map.len();
    for i in 0..n
        invariant
            n == map@.len(),
            m == map_views(map@),
            m.len() == n,
            sites_for(m, path@) == sites_for(m.skip(i as int), path@),
    {
        let entry = &map[i];
        proof {
            assert(m[i as int]
                == (entry.0@, entry.1@.map_values(|c: LogCallSite| c@)));
            assert(m.skip(i as int).len() > 0);
            assert(m.skip(i as int)[0] == m[i as int]);
            assert(m.skip(i as int).drop_first() =~= m.skip(i + 1));
        }
        if entry.0 == *path {
            return Some(&entry.1);
        }
    }
    proof {
        assert(m.skip(n as int).len() == 0);
    }
    None
}

/// Computes coverage from structural facts and identified call sites.
pub struct CoverageCalculator<'a> {
    pub config: &'a Config,
}

impl<'a> CoverageCalculator<'a> {
    pub fn new(config: &'a Config) -> (r: CoverageCalculator<'a>)
        ensures
            r.config == config,
    {
        CoverageCalculator { config }
    }

    /// The span-containment rule (see [`loc_in_span`]): inclusive at both
    /// endpoints, ordered by (line, column).
    pub fn is_location_within_range(
        log_loc: &SourceLocation,
        item_start_loc: &SourceLocation,
        item_end_loc: &SourceLocation,
    ) -> (r: bool)
        ensures
            r == loc_in_span(log_loc@, item_start_loc@, item_end_loc@),
    {
        if log_loc.line < item_start_loc.line || log_loc.line > item_end_loc.line {
            return false;
        }
        if log_loc.line == item_start_loc.line && log_loc.column < item_start_loc.column {
            return false;
        }
        if log_loc.line == item_end_loc.line && log_loc.column > item_end_loc.column {
            return false;
        }
        true
    }

    /// Computes one file's coverage (see [`file_coverage`]).
    #[verifier::loop_isolation(false)]
    #[verifier::rlimit(50)]
    pub fn calculate_file_coverage(
        &self,
        file_ast: &FileAstInfo,
        log_sites: &Vec<LogCallSite>,
    ) -> (r: PerFileCoverage)
        requires
            file_ast@.functions.filter(|f: FunctionModel| f.has_body).len()
                + file_ast@.branches.len() + file_ast@.exceptions.len() <= usize::MAX,
        ensures
            r@ == file_coverage(file_ast@, log_sites@.map_values(|c: LogCallSite| c@)),
            r.functions.wf(),
            r.branches.wf(),
            r.exceptions.wf(),
            r.overall.wf(),
    {
        let ghost sites = log_sites@.map_values(|c: LogCallSite| c@);
        let ghost fm = file_ast@;
        let ghost p_body = |f: FunctionModel| f.has_body;
        let ghost p_cov = |f: FunctionModel| f.has_body && function_covered(f, sites);
        let ghost p_unc = |f: FunctionModel| f.has_body && !function_covered(f, sites);

        let mut total_fns: usize = 0;
        let mut covered_fns: usize = 0;
        let mut uncovered_functions: Vec<FunctionInfo> = Vec::new();
        let nf = file_ast.functions.len();
        for i in 0..nf
            invariant
                total_fns == fm.functions.take(i as int).filter(p_body).len(),
                covered_fns == fm.functions.take(i as int).filter(p_cov).len(),
                uncovered_functions@.map_values(|f: FunctionInfo| f@)
                    == fm.functions.take(i as int).filter(p_unc),
                covered_fns <= total_fns <= i,
        {
            let f = &file_ast.functions[i];
            proof {
                reveal_with_fuel(Seq::filter, 2);
                assert(fm.functions.take(i + 1).drop_last() =~= fm.functions.take(i as int));
                assert(fm.functions.take(i + 1).last() == fm.functions[i as int]);
                assert(fm.functions[i as int] == f@);
            }
            if f.has_body {
                total_fns = total_fns + 1;
                if covers_function(log_sites, f) {
                    covered_fns = covered_fns + 1;
                    proof {
                        assert(p_cov(f@));
                        assert(!p_unc(f@));
                    }
                } else {
                    let ghost prev = uncovered_functions@;
                    uncovered_functions.push(f.clone_info());
                    proof {
                        assert(p_unc(f@));
                        assert(!p_cov(f@));
                        assert(uncovered_functions@.map_values(|f: FunctionInfo| f@)
                            =~= prev.map_values(|f: FunctionInfo| f@).push(f@));
                    }
                }
            } else {
                proof {
                    assert(!p_body(f@) && !p_cov(f@) && !p_unc(f@));
                }
            }
            proof {
                assert(fm.functions.take(i + 1).filter(p_body)
                    =~= fm.functions.take(i as int).filter(p_body) + if p_body(f@) {
                        seq![f@]
                    } else {
                        seq![]
                    });
                assert(fm.functions.take(i + 1).filter(p_cov)
                    =~= fm.functions.take(i as int).filter(p_cov) + if p_cov(f@) {
                        seq![f@]
                    } else {
                        seq![]
                    });
                assert(fm.functions.take(i + 1).filter(p_unc)
                    =~= fm.functions.take(i as int).filter(p_unc) + if p_unc(f@) {
                        seq![f@]
                    } else {
                        seq![]
                    });
                assert(uncovered_functions@.map_values(|f: FunctionInfo| f@)
                    =~= fm.functions.take(i + 1).filter(p_unc));
            }
        }
        proof {
            assert(fm.functions.take(nf as int) =~= fm.functions);
        }

        let ghost b_cov = |b: BranchModel| branch_covered(b, sites);
        let ghost b_unc = |b: BranchModel| !branch_covered(b, sites);
        let mut covered_brs: usize = 0;
        let mut uncovered_branches: Vec<BranchInfo> = Vec::new();
        let nb = file_ast.branches.len();
        for i in 0..nb
            invariant
                covered_brs == fm.branches.take(i as int).filter(b_cov).len(),
                uncovered_branches@.map_values(|b: BranchInfo| b@)
                    == fm.branches.take(i as int).filter(b_unc),
                covered_brs <= i,
        {
            let b = &file_ast.branches[i];
            proof {
                reveal_with_fuel(Seq::filter, 2);
                assert(fm.branches.take(i + 1).drop_last() =~= fm.branches.take(i as int));
                assert(fm.branches.take(i + 1).last() == fm.branches[i as int]);
                assert(fm.branches[i as int] == b@);
            }
            if covers_span(log_sites, &b.start_location, &b.end_location) {
                covered_brs = covered_brs + 1;
                proof {
                    assert(branch_covered(b@, sites));
                }
            } else {
                let ghost prev = uncovered_branches@;
                uncovered_branches.push(b.clone_info());
                proof {
                    assert(!branch_covered(b@, sites));
                    assert(uncovered_branches@.map_values(|b: BranchInfo| b@)
                        =~= prev.map_values(|b: BranchInfo| b@).push(b@));
                }
            }
            proof {
                assert(fm.branches.take(i + 1).filter(b_cov)
                    =~= fm.branches.take(i as int).filter(b_cov) + if b_cov(b@) {
                        seq![b@]
                    } else {
                        seq![]
                    });
                assert(fm.branches.take(i + 1).filter(b_unc)
                    =~= fm.branches.take(i as int).filter(b_unc) + if b_unc(b@) {
                        seq![b@]
                    } else {
                        seq![]
                    });
                assert(uncovered_branches@.map_values(|b: BranchInfo| b@)
                    =~= fm.branches.take(i + 1).filter(b_unc));
            }
        }
        proof {
            assert(fm.branches.take(nb as int) =~= fm.branches);
        }

        let ghost e_cov = |e: ExceptionModel| exception_covered(e, sites);
        let ghost e_unc = |e: ExceptionModel| !exception_covered(e, sites);
        let mut covered_exs: usize = 0;
        let mut uncovered_exceptions: Vec<ExceptionInfo> = Vec::new();
        let ne = file_ast.exceptions.len();
        for i in 0..ne
            invariant
                covered_exs == fm.exceptions.take(i as int).filter(e_cov).len(),
                uncovered_exceptions@.map_values(|e: ExceptionInfo| e@)
                    == fm.exceptions.take(i as int).filter(e_unc),
                covered_exs <= i,
        {
            let e = &file_ast.exceptions[i];
            proof {
                reveal_with_fuel(Seq::filter, 2);
                assert(fm.exceptions.take(i + 1).drop_last() =~= fm.exceptions.take(i as int));
                assert(fm.exceptions.take(i + 1).last() == fm.exceptions[i as int]);
                assert(fm.exceptions[i as int] == e@);
            }
            if covers_span(log_sites, &e.start_location, &e.end_location) {
                covered_exs = covered_exs + 1;
                proof {
                    assert(exception_covered(e@, sites));
                }
            } else {
                let ghost prev = uncovered_exceptions@;
                uncovered_exceptions.push(e.clone_info());
                proof {
                    assert(!exception_covered(e@, sites));
                    assert(uncovered_exceptions@.map_values(|e: ExceptionInfo| e@)
                        =~= prev.map_values(|e: ExceptionInfo| e@).push(e@));
                }
            }
            proof {
                assert(fm.exceptions.take(i + 1).filter(e_cov)
                    =~= fm.exceptions.take(i as int).filter(e_cov) + if e_cov(e@) {
                        seq![e@]
                    } else {
                        seq![]
                    });
                assert(fm.exceptions.take(i + 1).filter(e_unc)
                    =~= fm.exceptions.take(i as int).filter(e_unc) + if e_unc(e@) {
                        seq![e@]
                    } else {
                        seq![]
                    });
                assert(uncovered_exceptions@.map_values(|e: ExceptionInfo| e@)
                    =~= fm.exceptions.take(i + 1).filter(e_unc));
            }
        }
        proof {
            assert(fm.exceptions.take(ne as int) =~= fm.exceptions);
            fm.branches.lemma_filter_len(b_cov);
            fm.exceptions.lemma_filter_len(e_cov);
            lemma_filter_implies_len(fm.functions, p_cov, p_body);
        }
        let functions = CoverageMetrics::new(total_fns, covered_fns);
        let branches = CoverageMetrics::new(nb, covered_brs);
        let exceptions = CoverageMetrics::new(ne, covered_exs);
        let overall = CoverageMetrics::new(
            total_fns + nb + ne,
            covered_fns + covered_brs + covered_exs,
        );
        let r = PerFileCoverage {
            file_path: file_ast.file_path.clone(),
            functions,
            branches,
            exceptions,
            overall,
            uncovered_functions,
            uncovered_branches,
            uncovered_exceptions,
        };
        proof {
            assert(r@ =~~= file_coverage(fm, sites));
        }
        r
    }

    /// Computes the whole project's coverage (see [`project_coverage`]):
    /// each file's coverage in input order, with totals summed from the
    /// per-file totals. A file missing from the call-site list is treated
    /// as having none.
    #[verifier::loop_isolation(false)]
    #[verifier::rlimit(50)]
    pub fn calculate_project_coverage(
        &self,
        ast_results: &Vec<FileAstInfo>,
        log_sites_map: &Vec<(String, Vec<LogCallSite>)>,
    ) -> (r: Result<ProjectCoverage, String>)
        requires
            ({
                let t = project_totals(
                    files_views(ast_results@),
                    map_views(log_sites_map@),
                );
                t.functions_total + t.branches_total + t.exceptions_total <= usize::MAX
            }),
        ensures
            r is Ok,
            r->Ok_0@ == project_coverage(files_views(ast_results@), map_views(log_sites_map@)),
    {
        let ghost files = files_views(ast_results@);
        let ghost map = map_views(log_sites_map@);
        let mut out_files: Vec<PerFileCoverage> = Vec::new();
        let mut tf: usize = 0;
        let mut tfc: usize = 0;
        let mut tb: usize = 0;
        let mut tbc: usize = 0;
        let mut te: usize = 0;
        let mut tec: usize = 0;
        let n = ast_results.len();
        for i in 0..n
            invariant
                out_files@.map_values(|p: PerFileCoverage| p@)
                    == files_coverages(files.take(i as int), map),
                tf == project_totals(files.take(i as int), map).functions_total,
                tfc == project_totals(files.take(i as int), map).functions_covered,
                tb == project_totals(files.take(i as int), map).branches_total,
                tbc == project_totals(files.take(i as int), map).branches_covered,
                te == project_totals(files.take(i as int), map).exceptions_total,
                tec == project_totals(files.take(i as int), map).exceptions_covered,
                tfc <= tf,
                tbc <= tb,
                tec <= te,
        {
            let file_ast = &ast_results[i];
            let ghost fmodel = files[i as int];
            let ghost fsites = sites_for(map, fmodel.file_path);
            proof {
                assert(fmodel == file_ast@);
                assert(files.take(i + 1).drop_last() =~= files.take(i as int));
                assert(files.take(i + 1).last() == fmodel);
                lemma_project_totals_prefix(files, map, i as int);
                lemma_project_totals_prefix(files, map, i + 1);
            }
            let empty_sites: Vec<LogCallSite> = Vec::new();
            let sites_vec: &Vec<LogCallSite> = match find_sites(log_sites_map, &file_ast.file_path) {
                Some(v) => v,
                None => &empty_sites,
            };
            proof {
                assert(sites_vec@.map_values(|c: LogCallSite| c@) == fsites);
            }
            let file_cov = self.calculate_file_coverage(file_ast, sites_vec);
            proof {
                assert(file_cov@ == file_coverage(fmodel, fsites));
                assert(project_totals(files.take(i + 1), map)
                    == add_file_totals(
                    project_totals(files.take(i as int), map),
                    file_coverage(fmodel, fsites),
                ));
            }
            tf = tf + file_cov.functions.total;
            tfc = tfc + file_cov.functions.covered;
            tb = tb + file_cov.branches.total;
            tbc = tbc + file_cov.branches.covered;
            te = te + file_cov.exceptions.total;
            tec = tec + file_cov.exceptions.covered;
            let ghost prev = out_files@;
            out_files.push(file_cov);
            proof {
                assert(out_files@.map_values(|p: PerFileCoverage| p@)
                    =~= prev.map_values(|p: PerFileCoverage| p@).push(
                    file_coverage(fmodel, fsites)));
                assert(files_coverages(files.take(i + 1), map)
                    =~= files_coverages(files.take(i as int), map).push(
                    file_coverage(fmodel, fsites)));
            }
        }
        proof {
            assert(files.take(n as int) =~= files);
        }
        let total_functions = CoverageMetrics::new(tf, tfc);
        let total_branches = CoverageMetrics::new(tb, tbc);
        let total_exceptions = CoverageMetrics::new(te, tec);
        let project_overall = CoverageMetrics::new(tf + tb + te, tfc + tbc + tec);
        let r = ProjectCoverage {
            files: out_files,
            total_functions,
            total_branches,
            total_exceptions,
            project_overall,
        };
        proof {
            assert(r@ =~~= project_coverage(files, map));
        }
        Ok(r)
    }
}

/// Law: a project with no analyzed files has empty per-file results and
/// all-zero totals, whose percentage is the full 100.
pub proof fn lemma_empty_project(map: Seq<(Seq<char>, Seq<CallSiteModel>)>)
    ensures
        project_coverage(Seq::<FileModel>::empty(), map).files == Seq::<PerFileModel>::empty(),
        project_coverage(Seq::<FileModel>::empty(), map).total_functions
            == (MetricsModel { total: 0, covered: 0 }),
        project_coverage(Seq::<FileModel>::empty(), map).total_branches
            == (MetricsModel { total: 0, covered: 0 }),
        project_coverage(Seq::<FileModel>::empty(), map).total_exceptions
            == (MetricsModel { total: 0, covered: 0 }),
        project_coverage(Seq::<FileModel>::empty(), map).project_overall
            == (MetricsModel { total: 0, covered: 0 }),
        percentage_num(project_coverage(Seq::<FileModel>::empty(), map).project_overall) == 100,
        percentage_den(project_coverage(Seq::<FileModel>::empty(), map).project_overall) == 1,
{
    assert(files_coverages(Seq::<FileModel>::empty(), map)
        =~= Seq::<PerFileModel>::empty());
}

} // verus!
