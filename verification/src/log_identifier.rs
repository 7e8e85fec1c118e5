//! Identification of logging call sites in a parsed syntax tree.
//!
//! The traversal mirrors the structural extractor's context threading: the
//! enclosing class name and enclosing function's qualified name follow the
//! tree down, and a call expression is examined only while a function
//! context is active. Each call is matched against the configured logging
//! conventions in a fixed priority order — built-in global functions first,
//! then built-in category functions, then the custom level table — and the
//! first match decides its type and level; an unmatched call produces
//! nothing.

use vstd::prelude::*;

use crate::ast::AstNode;
use crate::ast::DiagnosticSeverity;
use crate::ast::LocModel;
use crate::ast::SourceLocation;
use crate::config::Config;
use crate::config::CustomLogConfig;
use crate::config::LogFunctionsConfig;
use crate::config::LogFunctionsModel;
use crate::extractor::child_class_ctx;
use crate::extractor::child_fn_ctx;
use crate::extractor::has_blocking_diagnostic;
use crate::extractor::opt_name;
use crate::extractor::ParseError;
use crate::string_utils::ascii_case_eq;
use crate::string_utils::eq_ignore_ascii_case;
use crate::string_utils::starts_with;

verus! {

/// The severity a recognized logging call reports at.
#[derive(Debug, Clone, Copy, PartialEq, Eq, Hash, Structural)]
pub enum LogLevel {
    Debug,
    Info,
    Warning,
    Critical,
    Fatal,
    Unknown,
}

/// Which convention matched a recognized logging call.
#[derive(Debug, Clone, Copy, PartialEq, Eq, Hash, Structural)]
pub enum LogType {
    BuiltinGlobal,
    BuiltinCategory,
    Custom,
    Unknown,
}

/// One recognized logging call.
#[derive(Debug, Clone)]
pub struct LogCallSite {
    pub function_name: String,
    pub source_location: SourceLocation,
    pub log_level: LogLevel,
    pub log_type: LogType,
    pub parent_function_qualified_name: String,
    pub containing_class_name: Option<String>,
    pub message_arguments: Vec<String>,
}

#[verifier::ext_equal]
pub ghost struct CallSiteModel {
    pub function_name: Seq<char>,
    pub source_location: LocModel,
    pub log_level: LogLevel,
    pub log_type: LogType,
    pub parent_function_qualified_name: Seq<char>,
    pub containing_class_name: Option<Seq<char>>,
    pub message_arguments: Seq<Seq<char>>,
}

impl View for LogCallSite {
    type V = CallSiteModel;

    open spec fn view(&self) -> CallSiteModel {
        CallSiteModel {
            function_name: self.function_name@,
            source_location: self.source_location@,
            log_level: self.log_level,
            log_type: self.log_type,
            parent_function_qualified_name: self.parent_function_qualified_name@,
            containing_class_name: match self.containing_class_name {
                Some(c) => Some(c@),
                None => None,
            },
            message_arguments: self.message_arguments@.map_values(|a: String| a@),
        }
    }
}

// ---------------------------------------------------------------------------
// Classification policy
// ---------------------------------------------------------------------------

/// Whether `who` occurs in the list of names.
pub open spec fn name_in_list(names: Seq<Seq<char>>, who: Seq<char>) -> bool {
    exists|i: int| 0 <= i < names.len() && names[i] == who
}

/// The level of a built-in global logging function, by name prefix.
pub open spec fn qt_global_level(name: Seq<char>) -> LogLevel {
    if "qDebug"@.is_prefix_of(name) {
        LogLevel::Debug
    } else if "qInfo"@.is_prefix_of(name) {
        LogLevel::Info
    } else if "qWarning"@.is_prefix_of(name) {
        LogLevel::Warning
    } else if "qCritical"@.is_prefix_of(name) {
        LogLevel::Critical
    } else if "qFatal"@.is_prefix_of(name) {
        LogLevel::Fatal
    } else {
        LogLevel::Unknown
    }
}

/// The level of a built-in category logging function, by name prefix;
/// the category convention has no fatal level.
pub open spec fn qt_category_level(name: Seq<char>) -> LogLevel {
    if "qCDebug"@.is_prefix_of(name) {
        LogLevel::Debug
    } else if "qCInfo"@.is_prefix_of(name) {
        LogLevel::Info
    } else if "qCWarning"@.is_prefix_of(name) {
        LogLevel::Warning
    } else if "qCCritical"@.is_prefix_of(name) {
        LogLevel::Critical
    } else {
        LogLevel::Unknown
    }
}

/// The level named by a custom level tag, compared ignoring ASCII case;
/// `warn` and `error` are accepted synonyms.
pub open spec fn tag_level(tag: Seq<char>) -> LogLevel {
    if ascii_case_eq(tag, "debug"@) {
        LogLevel::Debug
    } else if ascii_case_eq(tag, "info"@) {
        LogLevel::Info
    } else if ascii_case_eq(tag, "warning"@) || ascii_case_eq(tag, "warn"@) {
        LogLevel::Warning
    } else if ascii_case_eq(tag, "error"@) || ascii_case_eq(tag, "critical"@) {
        LogLevel::Critical
    } else if ascii_case_eq(tag, "fatal"@) {
        LogLevel::Fatal
    } else {
        LogLevel::Unknown
    }
}

/// The first custom level entry whose function list contains `callee`.
pub open spec fn custom_lookup(
    entries: Seq<(Seq<char>, Seq<Seq<char>>)>,
    callee: Seq<char>,
) -> Option<LogLevel>
    decreases entries.len(),
{
    if entries.len() == 0 {
        None
    } else if name_in_list(entries[0].1, callee) {
        Some(tag_level(entries[0].0))
    } else {
        custom_lookup(entries.drop_first(), callee)
    }
}

/// Law: the custom table is read first-match. The entry at the first index
/// whose function list contains the callee decides the level; any later
/// entry — in particular one under a duplicated tag, which a well-formed
/// table does not carry — is shadowed.
pub proof fn lemma_custom_lookup_first_match(
    entries: Seq<(Seq<char>, Seq<Seq<char>>)>,
    callee: Seq<char>,
    i: int,
)
    requires
        0 <= i < entries.len(),
        name_in_list(entries[i].1, callee),
        forall|j: int| 0 <= j < i ==> !name_in_list((#[trigger] entries[j]).1, callee),
    ensures
        custom_lookup(entries, callee) == Some(tag_level(entries[i].0)),
    decreases i,
{
    if i > 0 {
        let rest = entries.drop_first();
        assert(forall|j: int|
            0 <= j < i - 1 ==> (#[trigger] rest[j]) == entries[j + 1]
                && !name_in_list(rest[j].1, callee));
        lemma_custom_lookup_first_match(rest, callee, i - 1);
    }
}

/// How a call with resolved callee name `callee` is classified, in priority
/// order: built-in global, then built-in category, then custom; `None` when
/// no enabled convention matches.
pub open spec fn classify_call(callee: Seq<char>, lf: LogFunctionsModel)
    -> Option<(LogType, LogLevel)> {
    if lf.qt.enabled && name_in_list(lf.qt.functions, callee) {
        Some((LogType::BuiltinGlobal, qt_global_level(callee)))
    } else if lf.qt.enabled && name_in_list(lf.qt.category_functions, callee) {
        Some((LogType::BuiltinCategory, qt_category_level(callee)))
    } else if lf.custom.enabled {
        match custom_lookup(lf.custom.functions, callee) {
            Some(level) => Some((LogType::Custom, level)),
            None => None,
        }
    } else {
        None
    }
}

/// Law: the matching priority is deterministic. A callee name listed among
/// the enabled built-in global logging functions is classified as a
/// built-in global call, never as a custom one, whatever the custom level
/// table holds.
pub proof fn lemma_builtin_global_priority(callee: Seq<char>, lf: LogFunctionsModel)
    requires
        lf.qt.enabled,
        name_in_list(lf.qt.functions, callee),
    ensures
        classify_call(callee, lf) == Some((LogType::BuiltinGlobal, qt_global_level(callee))),
        (classify_call(callee, lf)->0).0 != LogType::Custom,
{
}

/// How one call argument is recorded: an empty direct spelling (a complex
/// sub-expression) becomes a fixed placeholder, keeping the argument count.
pub open spec fn arg_display(a: Seq<char>) -> Seq<char> {
    if a.len() == 0 {
        "<complex_arg>"@
    } else {
        a
    }
}

/// The call site recorded for a matched call expression.
pub open spec fn call_site_model(
    n: AstNode,
    fnq: Seq<char>,
    cls: Option<Seq<char>>,
    ty: LogType,
    level: LogLevel,
) -> CallSiteModel {
    CallSiteModel {
        function_name: n.callee_name@,
        source_location: n.location@,
        log_level: level,
        log_type: ty,
        parent_function_qualified_name: fnq,
        containing_class_name: cls,
        message_arguments: n.arguments@.map_values(|a: String| arg_display(a@)),
    }
}

/// What a single node emits: one call site for a matched call expression
/// inside a function context, nothing otherwise.
pub open spec fn own_sites(
    n: AstNode,
    cls: Option<Seq<char>>,
    fnq: Option<Seq<char>>,
    lf: LogFunctionsModel,
) -> Seq<CallSiteModel> {
    if n.kind is CallExpr && fnq is Some && classify_call(n.callee_name@, lf) is Some {
        let matched = classify_call(n.callee_name@, lf)->0;
        seq![call_site_model(n, fnq->0, cls, matched.0, matched.1)]
    } else {
        seq![]
    }
}

/// Every call site the subtree rooted at `n` emits, in traversal order.
/// A node outside the file under analysis emits nothing of its own and
/// leaves the context unchanged, but its children are still visited.
pub open spec fn node_sites(
    n: AstNode,
    cls: Option<Seq<char>>,
    fnq: Option<Seq<char>>,
    lf: LogFunctionsModel,
) -> Seq<CallSiteModel>
    decreases n,
{
    if !n.in_main_file {
        nodes_sites(n.children@, cls, fnq, lf)
    } else {
        own_sites(n, cls, fnq, lf) + nodes_sites(
            n.children@,
            child_class_ctx(n, cls),
            child_fn_ctx(n, fnq),
            lf,
        )
    }
}

pub open spec fn nodes_sites(
    s: Seq<AstNode>,
    cls: Option<Seq<char>>,
    fnq: Option<Seq<char>>,
    lf: LogFunctionsModel,
) -> Seq<CallSiteModel>
    decreases s,
{
    if s.len() == 0 {
        seq![]
    } else {
        nodes_sites(s.drop_last(), cls, fnq, lf) + node_sites(s.last(), cls, fnq, lf)
    }
}

// ---------------------------------------------------------------------------
// Executable classification
// ---------------------------------------------------------------------------

/// Whether `who` occurs in the list.
fn list_contains(names: &Vec<String>, who: &String) -> (r: bool)
    ensures
        r == name_in_list(names@.map_values(|s: String| s@), who@),
{
    let n = names.len();
    for i in 0..n
        invariant
            n == names@.len(),
            forall|j: int| 0 <= j < i ==> names@[j]@ != who@,
    {
        let cand = &names[i];
        if *cand == *who {
            proof {
                let views = names@.map_values(|s: String| s@);
                assert(views[i as int] == who@);
            }
            return true;
        }
    }
    proof {
        let views = names@.map_values(|s: String| s@);
        assert(forall|j: int| 0 <= j < views.len() ==> views[j] != who@);
    }
    false
}

fn qt_global_level_exec(name: &String) -> (r: LogLevel)
    ensures
        r == qt_global_level(name@),
{
    if starts_with(name.as_str(), "qDebug") {
        LogLevel::Debug
    } else if starts_with(name.as_str(), "qInfo") {
        LogLevel::Info
    } else if starts_with(name.as_str(), "qWarning") {
        LogLevel::Warning
    } else if starts_with(name.as_str(), "qCritical") {
        LogLevel::Critical
    } else if starts_with(name.as_str(), "qFatal") {
        LogLevel::Fatal
    } else {
        LogLevel::Unknown
    }
}

fn qt_category_level_exec(name: &String) -> (r: LogLevel)
    ensures
        r == qt_category_level(name@),
{
    if starts_with(name.as_str(), "qCDebug") {
        LogLevel::Debug
    } else if starts_with(name.as_str(), "qCInfo") {
        LogLevel::Info
    } else if starts_with(name.as_str(), "qCWarning") {
        LogLevel::Warning
    } else if starts_with(name.as_str(), "qCCritical") {
        LogLevel::Critical
    } else {
        LogLevel::Unknown
    }
}

fn tag_level_exec(tag: &String) -> (r: LogLevel)
    ensures
        r == tag_level(tag@),
{
    let t = tag.as_str();
    if eq_ignore_ascii_case(t, "debug") {
        LogLevel::Debug
    } else if eq_ignore_ascii_case(t, "info") {
        LogLevel::Info
    } else if eq_ignore_ascii_case(t, "warning") || eq_ignore_ascii_case(t, "warn") {
        LogLevel::Warning
    } else if eq_ignore_ascii_case(t, "error") || eq_ignore_ascii_case(t, "critical") {
        LogLevel::Critical
    } else if eq_ignore_ascii_case(t, "fatal") {
        LogLevel::Fatal
    } else {
        LogLevel::Unknown
    }
}

fn custom_lookup_exec(custom: &CustomLogConfig, callee: &String) -> (r: Option<LogLevel>)
    ensures
        r == custom_lookup(custom@.functions, callee@),
{
    let ghost entries = custom@.functions;
    proof {
        assert(entries.skip(0) =~= entries);
    }
    let n = custom.functions.len();
    for i in 0..n
        invariant
            n == custom.functions@.len(),
            entries == custom@.functions,
            entries.len() == n,
            custom_lookup(entries, callee@)
                == custom_lookup(entries.skip(i as int), callee@),
    {
        let entry = &custom.functions[i];
        proof {
            assert(entries[i as int] == (entry.0@, entry.1@.map_values(|s: String| s@)));
            assert(entries.skip(i as int).len() > 0);
            assert(entries.skip(i as int)[0] == entries[i as int]);
            assert(entries.skip(i as int).drop_first() =~= entries.skip(i + 1));
        }
        if list_contains(&entry.1, callee) {
            proof {
                assert(custom_lookup(entries.skip(i as int), callee@)
                    == Some(tag_level(entries[i as int].0)));
            }
            return Some(tag_level_exec(&entry.0));
        }
    }
    proof {
        assert(entries.skip(n as int).len() == 0);
    }
    None
}

/// Classifies one resolved callee name (see [`classify_call`]).
fn classify_call_exec(callee: &String, lf: &LogFunctionsConfig)
    -> (r: Option<(LogType, LogLevel)>)
    ensures
        r == classify_call(callee@, lf@),
{
    if lf.qt.enabled && list_contains(&lf.qt.functions, callee) {
        Some((LogType::BuiltinGlobal, qt_global_level_exec(callee)))
    } else if lf.qt.enabled && list_contains(&lf.qt.category_functions, callee) {
        Some((LogType::BuiltinCategory, qt_category_level_exec(callee)))
    } else if lf.custom.enabled {
        match custom_lookup_exec(&lf.custom, callee) {
            Some(level) => Some((LogType::Custom, level)),
            None => None,
        }
    } else {
        None
    }
}

/// Records each argument spelling, with the placeholder for empty ones.
fn args_display(arguments: &Vec<String>) -> (r: Vec<String>)
    ensures
        r@.map_values(|a: String| a@)
            == arguments@.map_values(|a: String| arg_display(a@)),
{
    let mut r: Vec<String> = Vec::new();
    let n = arguments.len();
    for i in 0..n
        invariant
            n == arguments@.len(),
            r@.map_values(|a: String| a@)
                =~= arguments@.take(i as int).map_values(|a: String| arg_display(a@)),
    {
        let a = &arguments[i];
        let display = if a.as_str().is_empty() {
            String::from_str("<complex_arg>")
        } else {
            a.clone()
        };
        proof {
            assert(display@ == arg_display(arguments@[i as int]@));
        }
        let ghost prev = r@;
        r.push(display);
        proof {
            assert(r@.map_values(|a: String| a@)
                =~= prev.map_values(|a: String| a@).push(
                arg_display(arguments@[i as int]@)));
            assert(arguments@.take(i + 1).map_values(|a: String| arg_display(a@))
                =~= arguments@.take(i as int).map_values(|a: String| arg_display(a@)).push(
                arg_display(arguments@[i as int]@)));
        }
    }
    proof {
        assert(arguments@.take(n as int) =~= arguments@);
    }
    r
}

// ---------------------------------------------------------------------------
// Traversal
// ---------------------------------------------------------------------------

/// Visits the subtree rooted at `node`, appending every recognized call.
fn visit_node_sites(
    node: &AstNode,
    cls: Option<&String>,
    fnq: Option<&String>,
    lf: &LogFunctionsConfig,
    out: &mut Vec<LogCallSite>,
)
    ensures
        final(out)@.map_values(|c: LogCallSite| c@)
            == old(out)@.map_values(|c: LogCallSite| c@)
                + node_sites(*node, opt_name(cls), opt_name(fnq), lf@),
    decreases *node, 1int,
{
    let ghost emitted = node_sites(*node, opt_name(cls), opt_name(fnq), lf@);
    if !node.in_main_file {
        visit_children_sites(node, cls, fnq, lf, out);
        proof {
            assert(out@.map_values(|c: LogCallSite| c@)
                =~= old(out)@.map_values(|c: LogCallSite| c@) + emitted);
        }
    } else {
        let is_call = match node.kind {
            crate::ast::NodeKind::CallExpr => true,
            _ => false,
        };
        if is_call {
            match fnq {
                Some(parent) => {
                    match classify_call_exec(&node.callee_name, lf) {
                        Some((ty, level)) => {
                            let class_name: Option<String> = match cls {
                                Some(c) => Some(c.clone()),
                                None => None,
                            };
                            let site = LogCallSite {
                                function_name: node.callee_name.clone(),
                                source_location: node.location.clone_loc(),
                                log_level: level,
                                log_type: ty,
                                parent_function_qualified_name: parent.clone(),
                                containing_class_name: class_name,
                                message_arguments: args_display(&node.arguments),
                            };
                            proof {
                                assert(site@ == call_site_model(
                                    *node,
                                    opt_name(fnq)->0,
                                    opt_name(cls),
                                    ty,
                                    level,
                                ));
                            }
                            let ghost prev = out@;
                            out.push(site);
                            proof {
                                assert(out@.map_values(|c: LogCallSite| c@)
                                    =~= prev.map_values(|c: LogCallSite| c@).push(
                                    call_site_model(
                                        *node,
                                        opt_name(fnq)->0,
                                        opt_name(cls),
                                        ty,
                                        level,
                                    )));
                            }
                        },
                        None => {},
                    }
                },
                None => {},
            }
        }
        let ghost after_own = out@.map_values(|c: LogCallSite| c@);
        proof {
            assert(after_own =~= old(out)@.map_values(|c: LogCallSite| c@)
                + own_sites(*node, opt_name(cls), opt_name(fnq), lf@));
        }
        let child_cls: Option<&String> = match node.kind {
            crate::ast::NodeKind::ClassDecl | crate::ast::NodeKind::StructDecl => {
                Some(&node.spelling)
            },
            _ => cls,
        };
        let is_def_fn = match node.kind {
            crate::ast::NodeKind::FunctionDecl | crate::ast::NodeKind::Method => {
                node.is_definition
            },
            _ => false,
        };
        let child_fnq: Option<&String> = if is_def_fn {
            Some(crate::extractor::qualified_name_ref(node))
        } else {
            fnq
        };
        proof {
            assert(opt_name(child_cls) == child_class_ctx(*node, opt_name(cls)));
            assert(opt_name(child_fnq) == child_fn_ctx(*node, opt_name(fnq)));
        }
        visit_children_sites(node, child_cls, child_fnq, lf, out);
        proof {
            assert(out@.map_values(|c: LogCallSite| c@)
                =~= old(out)@.map_values(|c: LogCallSite| c@) + emitted);
        }
    }
}

/// Visits all children of `node` in order with the given context.
fn visit_children_sites(
    node: &AstNode,
    cls: Option<&String>,
    fnq: Option<&String>,
    lf: &LogFunctionsConfig,
    out: &mut Vec<LogCallSite>,
)
    ensures
        final(out)@.map_values(|c: LogCallSite| c@)
            == old(out)@.map_values(|c: LogCallSite| c@)
                + nodes_sites(node.children@, opt_name(cls), opt_name(fnq), lf@),
    decreases *node, 0int,
{
    let n = node.children.len();
    for i in 0..n
        invariant
            n == node.children@.len(),
            out@.map_values(|c: LogCallSite| c@)
                == old(out)@.map_values(|c: LogCallSite| c@)
                    + nodes_sites(
                    node.children@.take(i as int),
                    opt_name(cls),
                    opt_name(fnq),
                    lf@,
                ),
        decreases n - i,
    {
        proof {
            assert(decreases_to!(*node => node.children@[i as int]));
        }
        visit_node_sites(&node.children[i], cls, fnq, lf, out);
        proof {
            let s = node.children@;
            assert(s.take(i + 1).drop_last() =~= s.take(i as int));
            assert(s.take(i + 1).last() == s[i as int]);
            assert(out@.map_values(|c: LogCallSite| c@)
                =~= old(out)@.map_values(|c: LogCallSite| c@)
                    + nodes_sites(s.take(i + 1), opt_name(cls), opt_name(fnq), lf@));
        }
    }
    proof {
        assert(node.children@.take(n as int) =~= node.children@);
    }
}

// ---------------------------------------------------------------------------
// Public interface
// ---------------------------------------------------------------------------

/// Finds the logging call sites of each analyzed file, under a fixed
/// configuration.
pub struct LogIdentifier<'a> {
    pub config: &'a Config,
}

impl<'a> LogIdentifier<'a> {
    pub fn new(config: &'a Config) -> (r: LogIdentifier<'a>)
        ensures
            r.config == config,
    {
        LogIdentifier { config }
    }

    /// Produces the ordered list of logging call sites of one file from its
    /// parsed tree, or refuses when the front end reported a blocking
    /// diagnostic.
    pub fn identify_log_calls_in_file(
        &self,
        root: &AstNode,
        diagnostics: &Vec<DiagnosticSeverity>,
    ) -> (r: Result<Vec<LogCallSite>, ParseError>)
        ensures
            r is Ok <==> !has_blocking_diagnostic(diagnostics@),
            r is Ok ==> r->Ok_0@.map_values(|c: LogCallSite| c@)
                == node_sites(*root, None, None, self.config@.log_functions),
            r is Err ==> r->Err_0 == ParseError::FatalDiagnostics,
    {
        let nd = diagnostics.len();
        for i in 0..nd
            invariant
                nd == diagnostics@.len(),
                forall|j: int|
                    0 <= j < i ==> !(diagnostics@[j] is Error || diagnostics@[j] is Fatal),
        {
            match diagnostics[i] {
                DiagnosticSeverity::Error | DiagnosticSeverity::Fatal => {
                    return Err(ParseError::FatalDiagnostics);
                },
                _ => {},
            }
        }
        let mut sites: Vec<LogCallSite> = Vec::new();
        visit_node_sites(root, None, None, &self.config.log_functions, &mut sites);
        proof {
            assert(sites@.map_values(|c: LogCallSite| c@)
                =~= node_sites(*root, None, None, self.config@.log_functions));
        }
        Ok(sites)
    }
}

} // verus!
