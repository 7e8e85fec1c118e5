//! Structural extraction: walking a parsed syntax tree and emitting the
//! functions, branch constructs and exception blocks it contains.
//!
//! The traversal is depth-first and pre-order, threading two pieces of
//! context down the tree: the enclosing class/struct name and the enclosing
//! function's qualified name. A class or struct node updates the class
//! context for its descendants; a function or method *definition* emits a
//! [`FunctionInfo`] and updates the function context; branch and exception
//! nodes are recorded only while a function context is active. Nodes that
//! lie outside the file under analysis are skipped, but their children are
//! still visited with the unchanged context. Each node's context change is
//! local to its subtree.

use vstd::prelude::*;

use crate::ast::AstNode;
use crate::ast::BranchInfo;
use crate::ast::BranchModel;
use crate::ast::DiagnosticSeverity;
use crate::ast::ExceptionInfo;
use crate::ast::ExceptionModel;
use crate::ast::FileAstInfo;
use crate::ast::FileModel;
use crate::ast::FunctionInfo;
use crate::ast::FunctionModel;
use crate::ast::NodeKind;
use crate::ast::ParamInfo;

verus! {

/// Why the structural facts of a file could not be produced.
#[derive(Debug, Clone, Copy, PartialEq, Eq, Structural)]
pub enum ParseError {
    /// The parsing front end reported a diagnostic at error or fatal
    /// severity; the file is treated as unparsed.
    FatalDiagnostics,
}

impl ParseError {
    pub fn message(&self) -> (r: String)
        ensures
            r@ == "fatal parsing errors in file"@,
    {
        String::from_str("fatal parsing errors in file")
    }
}

/// The structural facts emitted while traversing (part of) a tree.
#[verifier::ext_equal]
pub ghost struct ExtractedFacts {
    pub functions: Seq<FunctionModel>,
    pub branches: Seq<BranchModel>,
    pub exceptions: Seq<ExceptionModel>,
}

pub open spec fn empty_facts() -> ExtractedFacts {
    ExtractedFacts { functions: seq![], branches: seq![], exceptions: seq![] }
}

pub open spec fn combine_facts(a: ExtractedFacts, b: ExtractedFacts) -> ExtractedFacts {
    ExtractedFacts {
        functions: a.functions + b.functions,
        branches: a.branches + b.branches,
        exceptions: a.exceptions + b.exceptions,
    }
}

/// The context view carried by the traversal: the enclosing class name and
/// the enclosing function's qualified name, if any.
pub open spec fn opt_name(o: Option<&String>) -> Option<Seq<char>> {
    match o {
        Some(s) => Some(s@),
        None => None,
    }
}

/// The qualified name of a definition: its unique symbol identifier when
/// the front end provides one, else its plain name.
pub open spec fn qualified_of(n: AstNode) -> Seq<char> {
    if n.usr@.len() == 0 {
        n.spelling@
    } else {
        n.usr@
    }
}

/// How one formal parameter is displayed: `name: type`, or the bare type
/// when the parameter is unnamed.
pub open spec fn param_display(p: ParamInfo) -> Seq<char> {
    if p.name@.len() == 0 {
        p.param_type@
    } else {
        p.name@ + ": "@ + p.param_type@
    }
}

pub open spec fn is_branch_kind(k: NodeKind) -> bool {
    ||| k is IfStmt
    ||| k is SwitchStmt
    ||| k is CaseStmt
    ||| k is DefaultStmt
    ||| k is ForStmt
    ||| k is WhileStmt
    ||| k is DoStmt
}

/// The label recorded for each branch construct.
pub open spec fn branch_kind_label(k: NodeKind) -> Seq<char> {
    match k {
        NodeKind::IfStmt => "if"@,
        NodeKind::SwitchStmt => "switch"@,
        NodeKind::CaseStmt => "case"@,
        NodeKind::DefaultStmt => "default"@,
        NodeKind::ForStmt => "for"@,
        NodeKind::WhileStmt => "while"@,
        NodeKind::DoStmt => "do_while"@,
        _ => ""@,
    }
}

/// The caught type recorded for a catch clause: `None` for a catch-all
/// (empty or `...` spelling), else the spelling itself.
pub open spec fn caught_type_of(n: AstNode) -> Option<Seq<char>> {
    if n.type_spelling@.len() == 0 || n.type_spelling@ == "..."@ {
        None
    } else {
        Some(n.type_spelling@)
    }
}

/// The function entry emitted for a definition node, given the enclosing
/// class context.
pub open spec fn function_model_of(n: AstNode, cls: Option<Seq<char>>) -> FunctionModel {
    FunctionModel {
        name: n.spelling@,
        qualified_name: qualified_of(n),
        start_location: n.start_location@,
        end_location: n.end_location@,
        is_method: n.kind is Method,
        class_name: if n.kind is Method {
            cls
        } else {
            None
        },
        return_type: n.result_type@,
        parameters: n.parameters@.map_values(|p: ParamInfo| param_display(p)),
        has_body: true,
    }
}

pub open spec fn branch_model_of(n: AstNode, fnq: Seq<char>) -> BranchModel {
    BranchModel {
        parent_function_qualified_name: fnq,
        branch_type: branch_kind_label(n.kind),
        start_location: n.start_location@,
        end_location: n.end_location@,
        condition_expression: None,
    }
}

pub open spec fn exception_model_of(n: AstNode, fnq: Seq<char>) -> ExceptionModel {
    ExceptionModel {
        parent_function_qualified_name: fnq,
        exception_type: if n.kind is TryStmt {
            "try"@
        } else {
            "catch"@
        },
        caught_type: if n.kind is TryStmt {
            None
        } else {
            caught_type_of(n)
        },
        start_location: n.start_location@,
        end_location: n.end_location@,
    }
}

/// What a single node emits on entry (not counting its children), given the
/// traversal context.
pub open spec fn own_facts(n: AstNode, cls: Option<Seq<char>>, fnq: Option<Seq<char>>)
    -> ExtractedFacts {
    if (n.kind is FunctionDecl || n.kind is Method) && n.is_definition {
        ExtractedFacts {
            functions: seq![function_model_of(n, cls)],
            branches: seq![],
            exceptions: seq![],
        }
    } else if is_branch_kind(n.kind) && fnq is Some {
        ExtractedFacts {
            functions: seq![],
            branches: seq![branch_model_of(n, fnq->0)],
            exceptions: seq![],
        }
    } else if (n.kind is TryStmt || n.kind is CatchStmt) && fnq is Some {
        ExtractedFacts {
            functions: seq![],
            branches: seq![],
            exceptions: seq![exception_model_of(n, fnq->0)],
        }
    } else {
        empty_facts()
    }
}

/// The class context a node's children see.
pub open spec fn child_class_ctx(n: AstNode, cls: Option<Seq<char>>) -> Option<Seq<char>> {
    if n.kind is ClassDecl || n.kind is StructDecl {
        Some(n.spelling@)
    } else {
        cls
    }
}

/// The function context a node's children see.
pub open spec fn child_fn_ctx(n: AstNode, fnq: Option<Seq<char>>) -> Option<Seq<char>> {
    if (n.kind is FunctionDecl || n.kind is Method) && n.is_definition {
        Some(qualified_of(n))
    } else {
        fnq
    }
}

/// Everything the subtree rooted at `n` emits, in traversal order. A node
/// outside the file under analysis emits nothing of its own and leaves the
/// context unchanged, but its children are still visited.
pub open spec fn node_facts(n: AstNode, cls: Option<Seq<char>>, fnq: Option<Seq<char>>)
    -> ExtractedFacts
    decreases n,
{
    if !n.in_main_file {
        nodes_facts(n.children@, cls, fnq)
    } else {
        combine_facts(
            own_facts(n, cls, fnq),
            nodes_facts(n.children@, child_class_ctx(n, cls), child_fn_ctx(n, fnq)),
        )
    }
}

/// What a sequence of sibling nodes emits, left to right.
pub open spec fn nodes_facts(s: Seq<AstNode>, cls: Option<Seq<char>>, fnq: Option<Seq<char>>)
    -> ExtractedFacts
    decreases s,
{
    if s.len() == 0 {
        empty_facts()
    } else {
        combine_facts(
            nodes_facts(s.drop_last(), cls, fnq),
            node_facts(s.last(), cls, fnq),
        )
    }
}

/// The complete structural result for one file whose tree has root `root`.
pub open spec fn file_extraction(path: Seq<char>, root: AstNode) -> FileModel {
    let facts = node_facts(root, None, None);
    FileModel {
        file_path: path,
        functions: facts.functions,
        branches: facts.branches,
        exceptions: facts.exceptions,
    }
}

/// Whether a diagnostics list blocks extraction: any error or fatal entry.
pub open spec fn has_blocking_diagnostic(diags: Seq<DiagnosticSeverity>) -> bool {
    exists|i: int|
        0 <= i < diags.len() && (diags[i] is Error || diags[i] is Fatal)
}

/// The qualified name of a definition node (see [`qualified_of`]).
pub(crate) fn qualified_name_ref(n: &AstNode) -> (r: &String)
    ensures
        r@ == qualified_of(*n),
{
    if n.usr.as_str().is_empty() {
        &n.spelling
    } else {
        &n.usr
    }
}

/// Renders each formal parameter as it is displayed in a function entry.
fn params_display(params: &Vec<ParamInfo>) -> (r: Vec<String>)
    ensures
        r@.map_values(|s: String| s@) == params@.map_values(|p: ParamInfo| param_display(p)),
{
    let mut r: Vec<String> = Vec::new();
    let n = params.len();
    for i in 0..n
        invariant
            n == params@.len(),
            r@.map_values(|s: String| s@)
                =~= params@.take(i as int).map_values(|p: ParamInfo| param_display(p)),
    {
        let p = &params[i];
        let display = if p.name.as_str().is_empty() {
            p.param_type.clone()
        } else {
            let mut d = p.name.clone();
            d.append(": ");
            d.append(p.param_type.as_str());
            d
        };
        proof {
            assert(display@ == param_display(params@[i as int]));
        }
        let ghost prev = r@;
        r.push(display);
        proof {
            assert(r@.map_values(|s: String| s@)
                =~= prev.map_values(|s: String| s@).push(display@));
            assert(params@.take(i + 1).map_values(|p: ParamInfo| param_display(p))
                =~= params@.take(i as int).map_values(|p: ParamInfo| param_display(p)).push(
                param_display(params@[i as int])));
            assert(r@.map_values(|s: String| s@)
                =~= params@.take(i + 1).map_values(|p: ParamInfo| param_display(p)));
        }
    }
    proof {
        assert(params@.take(n as int) =~= params@);
    }
    r
}

/// Emits what `node` itself contributes (not counting its children).
fn emit_own(node: &AstNode, cls: Option<&String>, fnq: Option<&String>, out: &mut FileAstInfo)
    ensures
        final(out)@.file_path == old(out)@.file_path,
        final(out)@.functions
            == old(out)@.functions + own_facts(*node, opt_name(cls), opt_name(fnq)).functions,
        final(out)@.branches
            == old(out)@.branches + own_facts(*node, opt_name(cls), opt_name(fnq)).branches,
        final(out)@.exceptions
            == old(out)@.exceptions + own_facts(*node, opt_name(cls), opt_name(fnq)).exceptions,
{
    let ghost facts = own_facts(*node, opt_name(cls), opt_name(fnq));
    match node.kind {
        NodeKind::FunctionDecl | NodeKind::Method => {
            if node.is_definition {
                let is_method = match node.kind {
                    NodeKind::Method => true,
                    _ => false,
                };
                let class_name: Option<String> = if is_method {
                    match cls {
                        Some(c) => Some(c.clone()),
                        None => None,
                    }
                } else {
                    None
                };
                let info = FunctionInfo {
                    name: node.spelling.clone(),
                    qualified_name: qualified_name_ref(node).clone(),
                    start_location: node.start_location.clone_loc(),
                    end_location: node.end_location.clone_loc(),
                    is_method,
                    class_name,
                    return_type: node.result_type.clone(),
                    parameters: params_display(&node.parameters),
                    has_body: true,
                };
                proof {
                    assert(info@ == function_model_of(*node, opt_name(cls)));
                }
                out.functions.push(info);
                proof {
                    assert(final(out)@.functions =~= old(out)@.functions + facts.functions);
                    assert(final(out)@.branches =~= old(out)@.branches + facts.branches);
                    assert(final(out)@.exceptions =~= old(out)@.exceptions + facts.exceptions);
                }
            } else {
                proof {
                    assert(final(out)@.functions =~= old(out)@.functions + facts.functions);
                    assert(final(out)@.branches =~= old(out)@.branches + facts.branches);
                    assert(final(out)@.exceptions =~= old(out)@.exceptions + facts.exceptions);
                }
            }
        },
        NodeKind::IfStmt
        | NodeKind::SwitchStmt
        | NodeKind::CaseStmt
        | NodeKind::DefaultStmt
        | NodeKind::ForStmt
        | NodeKind::WhileStmt
        | NodeKind::DoStmt => {
            match fnq {
                Some(parent) => {
                    let label = match node.kind {
                        NodeKind::IfStmt => "if",
                        NodeKind::SwitchStmt => "switch",
                        NodeKind::CaseStmt => "case",
                        NodeKind::DefaultStmt => "default",
                        NodeKind::ForStmt => "for",
                        NodeKind::WhileStmt => "while",
                        _ => "do_while",
                    };
                    let info = BranchInfo {
                        parent_function_qualified_name: parent.clone(),
                        branch_type: String::from_str(label),
                        start_location: node.start_location.clone_loc(),
                        end_location: node.end_location.clone_loc(),
                        condition_expression: None,
                    };
                    proof {
                        assert(info@ == branch_model_of(*node, opt_name(fnq)->0));
                    }
                    out.branches.push(info);
                    proof {
                        assert(final(out)@.functions =~= old(out)@.functions + facts.functions);
                        assert(final(out)@.branches =~= old(out)@.branches + facts.branches);
                        assert(final(out)@.exceptions
                            =~= old(out)@.exceptions + facts.exceptions);
                    }
                },
                None => {
                    proof {
                        assert(final(out)@.functions =~= old(out)@.functions + facts.functions);
                        assert(final(out)@.branches =~= old(out)@.branches + facts.branches);
                        assert(final(out)@.exceptions
                            =~= old(out)@.exceptions + facts.exceptions);
                    }
                },
            }
        },
        NodeKind::TryStmt | NodeKind::CatchStmt => {
            match fnq {
                Some(parent) => {
                    let is_try = match node.kind {
                        NodeKind::TryStmt => true,
                        _ => false,
                    };
                    let caught_type: Option<String> = if is_try {
                        None
                    } else {
                        let dots = String::from_str("...");
                        if node.type_spelling.as_str().is_empty()
                            || node.type_spelling == dots {
                            None
                        } else {
                            Some(node.type_spelling.clone())
                        }
                    };
                    let info = ExceptionInfo {
                        parent_function_qualified_name: parent.clone(),
                        exception_type: if is_try {
                            String::from_str("try")
                        } else {
                            String::from_str("catch")
                        },
                        caught_type,
                        start_location: node.start_location.clone_loc(),
                        end_location: node.end_location.clone_loc(),
                    };
                    proof {
                        assert(info@ == exception_model_of(*node, opt_name(fnq)->0));
                    }
                    out.exceptions.push(info);
                    proof {
                        assert(final(out)@.functions =~= old(out)@.functions + facts.functions);
                        assert(final(out)@.branches =~= old(out)@.branches + facts.branches);
                        assert(final(out)@.exceptions
                            =~= old(out)@.exceptions + facts.exceptions);
                    }
                },
                None => {
                    proof {
                        assert(final(out)@.functions =~= old(out)@.functions + facts.functions);
                        assert(final(out)@.branches =~= old(out)@.branches + facts.branches);
                        assert(final(out)@.exceptions
                            =~= old(out)@.exceptions + facts.exceptions);
                    }
                },
            }
        },
        _ => {
            proof {
                assert(final(out)@.functions =~= old(out)@.functions + facts.functions);
                assert(final(out)@.branches =~= old(out)@.branches + facts.branches);
                assert(final(out)@.exceptions =~= old(out)@.exceptions + facts.exceptions);
            }
        },
    }
}

/// Visits the subtree rooted at `node`, appending everything it emits.
fn visit_node(node: &AstNode, cls: Option<&String>, fnq: Option<&String>, out: &mut FileAstInfo)
    ensures
        final(out)@.file_path == old(out)@.file_path,
        final(out)@.functions
            == old(out)@.functions + node_facts(*node, opt_name(cls), opt_name(fnq)).functions,
        final(out)@.branches
            == old(out)@.branches + node_facts(*node, opt_name(cls), opt_name(fnq)).branches,
        final(out)@.exceptions
            == old(out)@.exceptions + node_facts(*node, opt_name(cls), opt_name(fnq)).exceptions,
    decreases *node,
{
    let ghost facts = node_facts(*node, opt_name(cls), opt_name(fnq));
    if !node.in_main_file {
        visit_children(node, cls, fnq, out);
        proof {
            assert(final(out)@.functions =~= old(out)@.functions + facts.functions);
            assert(final(out)@.branches =~= old(out)@.branches + facts.branches);
            assert(final(out)@.exceptions =~= old(out)@.exceptions + facts.exceptions);
        }
    } else {
        emit_own(node, cls, fnq, out);
        let child_cls: Option<&String> = match node.kind {
            NodeKind::ClassDecl | NodeKind::StructDecl => Some(&node.spelling),
            _ => cls,
        };
        let is_def_fn = match node.kind {
            NodeKind::FunctionDecl | NodeKind::Method => node.is_definition,
            _ => false,
        };
        let child_fnq: Option<&String> = if is_def_fn {
            Some(qualified_name_ref(node))
        } else {
            fnq
        };
        proof {
            assert(opt_name(child_cls) == child_class_ctx(*node, opt_name(cls)));
            assert(opt_name(child_fnq) == child_fn_ctx(*node, opt_name(fnq)));
        }
        visit_children(node, child_cls, child_fnq, out);
        proof {
            assert(final(out)@.functions =~= old(out)@.functions + facts.functions);
            assert(final(out)@.branches =~= old(out)@.branches + facts.branches);
            assert(final(out)@.exceptions =~= old(out)@.exceptions + facts.exceptions);
        }
    }
}

/// Visits all children of `node` in order with the given context.
fn visit_children(
    node: &AstNode,
    cls: Option<&String>,
    fnq: Option<&String>,
    out: &mut FileAstInfo,
)
    ensures
        final(out)@.file_path == old(out)@.file_path,
        final(out)@.functions
            == old(out)@.functions
                + nodes_facts(node.children@, opt_name(cls), opt_name(fnq)).functions,
        final(out)@.branches
            == old(out)@.branches
                + nodes_facts(node.children@, opt_name(cls), opt_name(fnq)).branches,
        final(out)@.exceptions
            == old(out)@.exceptions
                + nodes_facts(node.children@, opt_name(cls), opt_name(fnq)).exceptions,
    decreases *node, 0int,
{
    let n = node.children.len();
    for i in 0..n
        invariant
            n == node.children@.len(),
            out@.file_path == old(out)@.file_path,
            out@.functions
                == old(out)@.functions
                    + nodes_facts(node.children@.take(i as int), opt_name(cls), opt_name(fnq))
                        .functions,
            out@.branches
                == old(out)@.branches
                    + nodes_facts(node.children@.take(i as int), opt_name(cls), opt_name(fnq))
                        .branches,
            out@.exceptions
                == old(out)@.exceptions
                    + nodes_facts(node.children@.take(i as int), opt_name(cls), opt_name(fnq))
                        .exceptions,
        decreases n - i,
    {
        proof {
            assert(decreases_to!(*node => node.children@[i as int]));
        }
        visit_node(&node.children[i], cls, fnq, out);
        proof {
            let s = node.children@;
            assert(s.take(i + 1).drop_last() =~= s.take(i as int));
            assert(s.take(i + 1).last() == s[i as int]);
            assert(out@.functions
                =~= old(out)@.functions
                    + nodes_facts(s.take(i + 1), opt_name(cls), opt_name(fnq)).functions);
            assert(out@.branches
                =~= old(out)@.branches
                    + nodes_facts(s.take(i + 1), opt_name(cls), opt_name(fnq)).branches);
            assert(out@.exceptions
                =~= old(out)@.exceptions
                    + nodes_facts(s.take(i + 1), opt_name(cls), opt_name(fnq)).exceptions);
        }
    }
    proof {
        assert(node.children@.take(n as int) =~= node.children@);
    }
}

/// Produces the structural facts of one file from its parsed tree, or
/// refuses when the front end reported a blocking diagnostic.
pub fn extract_file(
    file_path: &String,
    root: &AstNode,
    diagnostics: &Vec<DiagnosticSeverity>,
) -> (r: Result<FileAstInfo, ParseError>)
    ensures
        r is Ok <==> !has_blocking_diagnostic(diagnostics@),
        r is Ok ==> r->Ok_0@ == file_extraction(file_path@, *root),
        r is Err ==> r->Err_0 == ParseError::FatalDiagnostics,
{
    let nd = diagnostics.len();
    for i in 0..nd
        invariant
            nd == diagnostics@.len(),
            forall|j: int|
                0 <= j < i ==> !(diagnostics@[j] is Error || diagnostics@[j] is Fatal),
        decreases nd - i,
    {
        match diagnostics[i] {
            DiagnosticSeverity::Error | DiagnosticSeverity::Fatal => {
                return Err(ParseError::FatalDiagnostics);
            },
            _ => {},
        }
    }
    let mut out = FileAstInfo::new(file_path.clone());
    visit_node(root, None, None, &mut out);
    proof {
        let facts = node_facts(*root, None, None);
        assert(out@.functions =~= facts.functions);
        assert(out@.branches =~= facts.branches);
        assert(out@.exceptions =~= facts.exceptions);
        assert(out@ =~= file_extraction(file_path@, *root));
    }
    Ok(out)
}

/// Collects structural results across the files of one run.
pub struct AstAnalyzer {
    pub analysis_results: Vec<FileAstInfo>,
}

impl AstAnalyzer {
    pub fn new() -> (r: AstAnalyzer)
        ensures
            r.analysis_results@ == Seq::<FileAstInfo>::empty(),
    {
        let r = AstAnalyzer { analysis_results: Vec::new() };
        proof {
            assert(r.analysis_results@ =~= Seq::<FileAstInfo>::empty());
        }
        r
    }

    /// Analyzes one file's tree. On success the file's results are appended;
    /// a file with blocking diagnostics is skipped and reported, leaving the
    /// collected results unchanged.
    pub fn analyze_file(
        &mut self,
        file_path: &String,
        root: &AstNode,
        diagnostics: &Vec<DiagnosticSeverity>,
    ) -> (r: Result<(), ParseError>)
        ensures
            r is Ok <==> !has_blocking_diagnostic(diagnostics@),
            r is Ok ==> {
                &&& final(self).analysis_results@.len()
                    == old(self).analysis_results@.len() + 1
                &&& final(self).analysis_results@.drop_last()
                    == old(self).analysis_results@
                &&& final(self).analysis_results@.last()@
                    == file_extraction(file_path@, *root)
            },
            r is Err ==> final(self).analysis_results@ == old(self).analysis_results@
                && r->Err_0 == ParseError::FatalDiagnostics,
    {
        match extract_file(file_path, root, diagnostics) {
            Ok(info) => {
                self.analysis_results.push(info);
                proof {
                    assert(self.analysis_results@.drop_last()
                        =~= old(self).analysis_results@);
                }
                Ok(())
            },
            Err(e) => Err(e),
        }
    }

    pub fn get_analysis_results(&self) -> (r: &Vec<FileAstInfo>)
        ensures
            r == &self.analysis_results,
    {
        &self.analysis_results
    }
}

} // verus!
