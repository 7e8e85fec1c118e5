//! Data model for the analyzed syntax of one source file.
//!
//! A parsing front end (outside this library) turns a source file into a
//! tree of [`AstNode`] values carrying only plain data: node kind, spellings,
//! source positions and children. Everything the analysis reads is stored
//! here as ordinary strings and integers, so the traversals over the tree
//! can be specified and verified in full.

use vstd::prelude::*;

verus! {

/// A position in a source file: path, 1-based line, 1-based column.
#[derive(Debug, Clone)]
pub struct SourceLocation {
    pub file_path: String,
    pub line: u32,
    pub column: u32,
}

/// Mathematical model of a [`SourceLocation`].
#[verifier::ext_equal]
pub ghost struct LocModel {
    pub file_path: Seq<char>,
    pub line: u32,
    pub column: u32,
}

impl View for SourceLocation {
    type V = LocModel;

    open spec fn view(&self) -> LocModel {
        LocModel { file_path: self.file_path@, line: self.line, column: self.column }
    }
}

impl SourceLocation {
    pub fn clone_loc(&self) -> (r: SourceLocation)
        ensures
            r@ == self@,
    {
        SourceLocation {
            file_path: self.file_path.clone(),
            line: self.line,
            column: self.column,
        }
    }
}

/// The kinds of syntax node the analysis distinguishes; every other node
/// kind of the front end is mapped to `Other`.
#[derive(Debug, Clone, Copy, PartialEq, Eq, Structural)]
pub enum NodeKind {
    Namespace,
    ClassDecl,
    StructDecl,
    FunctionDecl,
    Method,
    IfStmt,
    SwitchStmt,
    CaseStmt,
    DefaultStmt,
    ForStmt,
    WhileStmt,
    DoStmt,
    TryStmt,
    CatchStmt,
    CallExpr,
    Other,
}

/// One formal parameter of a function definition: its name (possibly empty
/// when unnamed) and the spelling of its type.
#[derive(Debug, Clone)]
pub struct ParamInfo {
    pub name: String,
    pub param_type: String,
}

/// One node of the parsed syntax tree, reduced to the plain facts the
/// analysis reads.
pub struct AstNode {
    pub kind: NodeKind,
    /// The node's own name spelling (function name, class name, ...).
    pub spelling: String,
    /// A globally unique symbol identifier for declarations, empty when the
    /// front end offers none.
    pub usr: String,
    /// Whether a function/method node is a definition (has a body).
    pub is_definition: bool,
    /// Whether the node's location lies in the file under analysis rather
    /// than in an included header.
    pub in_main_file: bool,
    /// The node's own position (for a call expression: the call site).
    pub location: SourceLocation,
    /// Start of the node's full extent.
    pub start_location: SourceLocation,
    /// End of the node's full extent.
    pub end_location: SourceLocation,
    /// Spelling of a function's return type, empty elsewhere.
    pub result_type: String,
    /// Spelling of the node's own type (the caught type of a catch clause).
    pub type_spelling: String,
    /// Formal parameters of a function definition.
    pub parameters: Vec<ParamInfo>,
    /// For a call expression: the resolved callee's name.
    pub callee_name: String,
    /// For a call expression: the direct spelling of each argument, possibly
    /// empty for a complex sub-expression.
    pub arguments: Vec<String>,
    pub children: Vec<AstNode>,
}

/// A function or method definition found in a file.
#[derive(Debug, Clone)]
pub struct FunctionInfo {
    pub name: String,
    pub qualified_name: String,
    pub start_location: SourceLocation,
    pub end_location: SourceLocation,
    pub is_method: bool,
    pub class_name: Option<String>,
    pub return_type: String,
    pub parameters: Vec<String>,
    pub has_body: bool,
}

#[verifier::ext_equal]
pub ghost struct FunctionModel {
    pub name: Seq<char>,
    pub qualified_name: Seq<char>,
    pub start_location: LocModel,
    pub end_location: LocModel,
    pub is_method: bool,
    pub class_name: Option<Seq<char>>,
    pub return_type: Seq<char>,
    pub parameters: Seq<Seq<char>>,
    pub has_body: bool,
}

impl View for FunctionInfo {
    type V = FunctionModel;

    open spec fn view(&self) -> FunctionModel {
        FunctionModel {
            name: self.name@,
            qualified_name: self.qualified_name@,
            start_location: self.start_location@,
            end_location: self.end_location@,
            is_method: self.is_method,
            class_name: match self.class_name {
                Some(c) => Some(c@),
                None => None,
            },
            return_type: self.return_type@,
            parameters: self.parameters@.map_values(|p: String| p@),
            has_body: self.has_body,
        }
    }
}

/// A branch construct (`if`, `switch`, `case`, `default`, `for`, `while`,
/// `do_while`) found inside a function.
#[derive(Debug, Clone)]
pub struct BranchInfo {
    pub parent_function_qualified_name: String,
    pub branch_type: String,
    pub start_location: SourceLocation,
    pub end_location: SourceLocation,
    pub condition_expression: Option<String>,
}

#[verifier::ext_equal]
pub ghost struct BranchModel {
    pub parent_function_qualified_name: Seq<char>,
    pub branch_type: Seq<char>,
    pub start_location: LocModel,
    pub end_location: LocModel,
    pub condition_expression: Option<Seq<char>>,
}

impl View for BranchInfo {
    type V = BranchModel;

    open spec fn view(&self) -> BranchModel {
        BranchModel {
            parent_function_qualified_name: self.parent_function_qualified_name@,
            branch_type: self.branch_type@,
            start_location: self.start_location@,
            end_location: self.end_location@,
            condition_expression: match self.condition_expression {
                Some(c) => Some(c@),
                None => None,
            },
        }
    }
}

/// A `try` or `catch` block found inside a function; `caught_type` is `None`
/// for a `try` block and for a catch-all clause.
#[derive(Debug, Clone)]
pub struct ExceptionInfo {
    pub parent_function_qualified_name: String,
    pub exception_type: String,
    pub caught_type: Option<String>,
    pub start_location: SourceLocation,
    pub end_location: SourceLocation,
}

#[verifier::ext_equal]
pub ghost struct ExceptionModel {
    pub parent_function_qualified_name: Seq<char>,
    pub exception_type: Seq<char>,
    pub caught_type: Option<Seq<char>>,
    pub start_location: LocModel,
    pub end_location: LocModel,
}

impl View for ExceptionInfo {
    type V = ExceptionModel;

    open spec fn view(&self) -> ExceptionModel {
        ExceptionModel {
            parent_function_qualified_name: self.parent_function_qualified_name@,
            exception_type: self.exception_type@,
            caught_type: match self.caught_type {
                Some(c) => Some(c@),
                None => None,
            },
            start_location: self.start_location@,
            end_location: self.end_location@,
        }
    }
}

/// The structural facts extracted from one file.
#[derive(Debug, Clone)]
pub struct FileAstInfo {
    pub file_path: String,
    pub functions: Vec<FunctionInfo>,
    pub branches: Vec<BranchInfo>,
    pub exceptions: Vec<ExceptionInfo>,
}

#[verifier::ext_equal]
pub ghost struct FileModel {
    pub file_path: Seq<char>,
    pub functions: Seq<FunctionModel>,
    pub branches: Seq<BranchModel>,
    pub exceptions: Seq<ExceptionModel>,
}

impl View for FileAstInfo {
    type V = FileModel;

    open spec fn view(&self) -> FileModel {
        FileModel {
            file_path: self.file_path@,
            functions: self.functions@.map_values(|f: FunctionInfo| f@),
            branches: self.branches@.map_values(|b: BranchInfo| b@),
            exceptions: self.exceptions@.map_values(|e: ExceptionInfo| e@),
        }
    }
}

impl FileAstInfo {
    /// An empty result for the given file.
    pub fn new(file_path: String) -> (r: FileAstInfo)
        ensures
            r@.file_path == file_path@,
            r@.functions == Seq::<FunctionModel>::empty(),
            r@.branches == Seq::<BranchModel>::empty(),
            r@.exceptions == Seq::<ExceptionModel>::empty(),
    {
        let r = FileAstInfo {
            file_path,
            functions: Vec::new(),
            branches: Vec::new(),
            exceptions: Vec::new(),
        };
        proof {
            assert(r@.functions =~= Seq::<FunctionModel>::empty());
            assert(r@.branches =~= Seq::<BranchModel>::empty());
            assert(r@.exceptions =~= Seq::<ExceptionModel>::empty());
        }
        r
    }
}

impl FunctionInfo {
    /// A copy whose model is unchanged.
    pub fn clone_info(&self) -> (r: FunctionInfo)
        ensures
            r@ == self@,
    {
        let r = FunctionInfo {
            name: self.name.clone(),
            qualified_name: self.qualified_name.clone(),
            start_location: self.start_location.clone_loc(),
            end_location: self.end_location.clone_loc(),
            is_method: self.is_method,
            class_name: match &self.class_name {
                Some(c) => Some(c.clone()),
                None => None,
            },
            return_type: self.return_type.clone(),
            parameters: crate::string_utils::clone_string_vec(&self.parameters),
            has_body: self.has_body,
        };
        proof {
            assert(r@ =~~= self@);
        }
        r
    }
}

impl BranchInfo {
    /// A copy whose model is unchanged.
    pub fn clone_info(&self) -> (r: BranchInfo)
        ensures
            r@ == self@,
    {
        let r = BranchInfo {
            parent_function_qualified_name: self.parent_function_qualified_name.clone(),
            branch_type: self.branch_type.clone(),
            start_location: self.start_location.clone_loc(),
            end_location: self.end_location.clone_loc(),
            condition_expression: match &self.condition_expression {
                Some(c) => Some(c.clone()),
                None => None,
            },
        };
        proof {
            assert(r@ =~~= self@);
        }
        r
    }
}

impl ExceptionInfo {
    /// A copy whose model is unchanged.
    pub fn clone_info(&self) -> (r: ExceptionInfo)
        ensures
            r@ == self@,
    {
        let r = ExceptionInfo {
            parent_function_qualified_name: self.parent_function_qualified_name.clone(),
            exception_type: self.exception_type.clone(),
            caught_type: match &self.caught_type {
                Some(c) => Some(c.clone()),
                None => None,
            },
            start_location: self.start_location.clone_loc(),
            end_location: self.end_location.clone_loc(),
        };
        proof {
            assert(r@ =~~= self@);
        }
        r
    }
}

/// Severity of one diagnostic reported by the parsing front end.
#[derive(Debug, Clone, Copy, PartialEq, Eq, Structural)]
pub enum DiagnosticSeverity {
    Ignored,
    Note,
    Warning,
    Error,
    Fatal,
}

} // verus!
