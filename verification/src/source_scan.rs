//! Selection of the source files to analyze.
//!
//! A directory walker (outside the library) enumerates candidate files
//! under each configured scan root; here each candidate is kept or dropped:
//! kept iff its extension is one of the configured file types (compared
//! ignoring ASCII case) and no exclusion pattern matches its absolute path.
//! Exclusion patterns are regular expressions, compiled and matched by the
//! regex crate behind the trusted items below.

use vstd::prelude::*;

use crate::config::Config;
use crate::path_utils::extension_spec;
use crate::path_utils::file_name_part;
use crate::path_utils::get_file_extension;
use crate::string_utils::ascii_case_eq;
use crate::string_utils::eq_ignore_ascii_case;
use crate::string_utils::starts_with;

verus! {

// ---------------------------------------------------------------------------
// The regex crate, as far as the scanner relies on it
// ---------------------------------------------------------------------------

/// Declares the regex crate's compiled-expression type so it can stand in
/// fields and signatures; its contents stay opaque here.
#[verifier::external_type_specification]
#[verifier::external_body]
pub struct ExRegex(regex::Regex);

/// Declares the regex crate's compilation-error type; it is only carried
/// through and mapped to a message of this library's own.
#[verifier::external_type_specification]
#[verifier::external_body]
pub struct ExRegexError(regex::Error);

/// Whether the regex crate accepts `pattern` under its default settings.
/// Named result of `regex::Regex::new`'s success, which depends on the
/// pattern alone (an invalid pattern, or one compiling beyond the default
/// size limit, is rejected).
pub uninterp spec fn regex_compiles(pattern: Seq<char>) -> bool;

/// The pattern a compiled regex was built from.
pub uninterp spec fn regex_pattern(re: regex::Regex) -> Seq<char>;

/// Whether the regular expression `pattern` matches anywhere in `text`.
/// Named result of `regex::Regex::is_match`, a fixed function of pattern
/// and haystack.
pub uninterp spec fn regex_match(pattern: Seq<char>, text: Seq<char>) -> bool;

/// Relies on regex::Regex::new: compiles a pattern with the default
/// configuration; success depends on the pattern alone, and the compiled
/// value retains its pattern.
#[verifier::external_body]
fn regex_new(pattern: &str) -> (r: Result<regex::Regex, regex::Error>)
    ensures
        r is Ok <==> regex_compiles(pattern@),
        r is Ok ==> regex_pattern(r->Ok_0) == pattern@,
{
    regex::Regex::new(pattern)
}

/// Relies on regex::Regex::is_match: true if and only if there is a match
/// for the regex anywhere in the haystack.
#[verifier::external_body]
fn regex_is_match(re: &regex::Regex, haystack: &str) -> (r: bool)
    ensures
        r == regex_match(regex_pattern(*re), haystack@),
{
    re.is_match(haystack)
}

// ---------------------------------------------------------------------------
// Selected files
// ---------------------------------------------------------------------------

/// One selected source file: its absolute path and its path relative to
/// the scan root it was found under.
#[derive(Debug, Clone)]
pub struct SourceFile {
    pub absolute_path: String,
    pub relative_path: String,
}

#[verifier::ext_equal]
pub ghost struct SourceFileModel {
    pub absolute_path: Seq<char>,
    pub relative_path: Seq<char>,
}

impl View for SourceFile {
    type V = SourceFileModel;

    open spec fn view(&self) -> SourceFileModel {
        SourceFileModel {
            absolute_path: self.absolute_path@,
            relative_path: self.relative_path@,
        }
    }
}

/// Whether the file's extension is one of the accepted types, compared
/// ignoring ASCII case; a file without an extension passes only when no
/// types are configured.
pub open spec fn type_accepted(file_types: Seq<Seq<char>>, path: Seq<char>) -> bool {
    match extension_spec(path) {
        Some(e) => exists|i: int|
            0 <= i < file_types.len() && ascii_case_eq(file_types[i], "."@ + e),
        None => file_types.len() == 0,
    }
}

/// Whether some exclusion pattern matches the absolute path.
pub open spec fn path_excluded(excludes: Seq<Seq<char>>, path: Seq<char>) -> bool {
    exists|i: int| 0 <= i < excludes.len() && regex_match(excludes[i], path)
}

/// Whether a candidate file reaches the analysis.
pub open spec fn file_selected(
    file_types: Seq<Seq<char>>,
    excludes: Seq<Seq<char>>,
    path: Seq<char>,
) -> bool {
    type_accepted(file_types, path) && !path_excluded(excludes, path)
}

/// The path of a file relative to its scan root: the part after the root
/// and its separator when the root is a proper prefix, else the file's
/// final component.
pub open spec fn relative_to(path: Seq<char>, dir: Seq<char>) -> Seq<char> {
    if dir.is_prefix_of(path) && dir.len() < path.len() && path[dir.len() as int] == '/' {
        path.skip(dir.len() + 1 as int)
    } else {
        file_name_part(path)
    }
}

pub open spec fn source_model(path: Seq<char>, dir: Seq<char>) -> SourceFileModel {
    SourceFileModel { absolute_path: path, relative_path: relative_to(path, dir) }
}

/// The files kept from a candidate list, in order.
pub open spec fn selected_sources(
    file_types: Seq<Seq<char>>,
    excludes: Seq<Seq<char>>,
    dir: Seq<char>,
    cands: Seq<Seq<char>>,
) -> Seq<SourceFileModel>
    decreases cands.len(),
{
    if cands.len() == 0 {
        seq![]
    } else {
        selected_sources(file_types, excludes, dir, cands.drop_last()) + if file_selected(
            file_types,
            excludes,
            cands.last(),
        ) {
            seq![source_model(cands.last(), dir)]
        } else {
            seq![]
        }
    }
}

// ---------------------------------------------------------------------------
// The scanner
// ---------------------------------------------------------------------------

/// Holds the compiled exclusion patterns and the files selected so far.
pub struct SourceManager<'a> {
    pub config: &'a Config,
    pub source_files: Vec<SourceFile>,
    pub exclude_patterns: Vec<regex::Regex>,
}

impl<'a> SourceManager<'a> {
    /// The compiled patterns correspond one to one to the configured
    /// exclusion patterns.
    pub open spec fn wf(self) -> bool {
        &&& self.exclude_patterns@.len() == self.config@.scan.excludes.len()
        &&& forall|i: int|
            0 <= i < self.exclude_patterns@.len() ==> regex_pattern(
                #[trigger] self.exclude_patterns@[i],
            ) == self.config@.scan.excludes[i]
    }

    /// The files selected so far, as models.
    pub open spec fn files(self) -> Seq<SourceFileModel> {
        self.source_files@.map_values(|f: SourceFile| f@)
    }

    /// Compiles the configured exclusion patterns; fails on the first
    /// pattern the regex crate rejects, naming it.
    pub fn new(config: &'a Config) -> (r: Result<SourceManager<'a>, String>)
        ensures
            r is Ok <==> (forall|i: int|
                0 <= i < config@.scan.excludes.len() ==> regex_compiles(
                    #[trigger] config@.scan.excludes[i],
                )),
            r is Ok ==> r->Ok_0.wf() && r->Ok_0.config == config
                && r->Ok_0.files() == Seq::<SourceFileModel>::empty(),
            r is Err ==> exists|i: int|
                {
                    &&& 0 <= i < config@.scan.excludes.len()
                    &&& !regex_compiles(#[trigger] config@.scan.excludes[i])
                    &&& (forall|j: int| 0 <= j < i ==> regex_compiles(config@.scan.excludes[j]))
                    &&& r->Err_0@ == "Failed to compile exclude regex pattern '"@
                        + config@.scan.excludes[i] + "'"@
                },
    {
        let ghost pats = config@.scan.excludes;
        let mut exclude_patterns: Vec<regex::Regex> = Vec::new();
        let n = config.scan.excludes.len();
        for i in 0..n
            invariant
                n == config.scan.excludes@.len(),
                pats == config@.scan.excludes,
                pats.len() == n,
                exclude_patterns@.len() == i,
                forall|j: int|
                    0 <= j < i ==> regex_pattern(#[trigger] exclude_patterns@[j]) == pats[j],
                forall|j: int| 0 <= j < i ==> regex_compiles(#[trigger] pats[j]),
        {
            let pattern = &config.scan.excludes[i];
            proof {
                assert(pats[i as int] == pattern@);
            }
            match regex_new(pattern.as_str()) {
                Ok(re) => {
                    exclude_patterns.push(re);
                },
                Err(_) => {
                    let mut msg = String::from_str(
                        "Failed to compile exclude regex pattern '",
                    );
                    msg.append(pattern.as_str());
                    msg.append("'");
                    return Err(msg);
                },
            }
        }
        let r = SourceManager { config, source_files: Vec::new(), exclude_patterns };
        proof {
            assert(r.files() =~= Seq::<SourceFileModel>::empty());
        }
        Ok(r)
    }

    /// Whether some compiled exclusion pattern matches the path.
    fn is_excluded(&self, path: &str) -> (r: bool)
        requires
            self.wf(),
        ensures
            r == path_excluded(self.config@.scan.excludes, path@),
    {
        let ghost pats = self.config@.scan.excludes;
        let n = self.exclude_patterns.len();
        for i in 0..n
            invariant
                self.wf(),
                n == self.exclude_patterns@.len(),
                pats == self.config@.scan.excludes,
                forall|j: int| 0 <= j < i ==> !regex_match(#[trigger] pats[j], path@),
        {
            if regex_is_match(&self.exclude_patterns[i], path) {
                proof {
                    assert(regex_match(pats[i as int], path@));
                }
                return true;
            }
        }
        proof {
            assert(!path_excluded(pats, path@)) by {
                if path_excluded(pats, path@) {
                    let i = choose|i: int|
                        0 <= i < pats.len() && regex_match(pats[i], path@);
                    assert(!regex_match(pats[i], path@));
                }
            };
        }
        false
    }

    /// Whether the file's extension is among the configured types.
    fn type_is_accepted(&self, path: &str) -> (r: bool)
        ensures
            r == type_accepted(self.config@.scan.file_types, path@),
    {
        let ghost fts = self.config@.scan.file_types;
        match get_file_extension(path) {
            Some(e) => {
                let mut dotted = String::from_str(".");
                dotted.append(e.as_str());
                proof {
                    assert(dotted@ == "."@ + e@);
                }
                let n = self.config.scan.file_types.len();
                for i in 0..n
                    invariant
                        n == self.config.scan.file_types@.len(),
                        fts == self.config@.scan.file_types,
                        fts.len() == n,
                        dotted@ == "."@ + e@,
                        extension_spec(path@) == Some(e@),
                        forall|j: int|
                            0 <= j < i ==> !ascii_case_eq(#[trigger] fts[j], "."@ + e@),
                {
                    let ft = &self.config.scan.file_types[i];
                    if eq_ignore_ascii_case(ft.as_str(), dotted.as_str()) {
                        proof {
                            assert(ascii_case_eq(fts[i as int], "."@ + e@));
                        }
                        return true;
                    }
                    proof {
                        assert(fts[i as int] == ft@);
                    }
                }
                proof {
                    assert(!type_accepted(fts, path@)) by {
                        if type_accepted(fts, path@) {
                            let i = choose|i: int|
                                0 <= i < fts.len() && ascii_case_eq(fts[i], "."@ + e@);
                            assert(!ascii_case_eq(fts[i], "."@ + e@));
                        }
                    };
                }
                false
            },
            None => self.config.scan.file_types.len() == 0,
        }
    }

    /// The relative form of a kept candidate (see [`relative_to`]).
    fn relative_path_of(path: &str, dir: &str) -> (r: String)
        ensures
            r@ == relative_to(path@, dir@),
    {
        let n = path.unicode_len();
        let nd = dir.unicode_len();
        if starts_with(path, dir) && nd < n && path.get_char(nd) == '/' {
            path.substring_char(nd + 1, n).to_owned()
        } else {
            crate::path_utils::file_name_of(path)
        }
    }

    /// Sifts the walker's candidates for one scan root: a candidate is kept
    /// iff its extension is configured and no exclusion pattern matches;
    /// kept files are appended in order with their paths relative to the
    /// root (see [`selected_sources`]).
    pub fn collect_source_files(&mut self, scan_dir: &String, candidates: &Vec<String>)
        requires
            old(self).wf(),
        ensures
            final(self).wf(),
            final(self).config == old(self).config,
            final(self).files() == old(self).files() + selected_sources(
                old(self).config@.scan.file_types,
                old(self).config@.scan.excludes,
                scan_dir@,
                candidates@.map_values(|c: String| c@),
            ),
    {
        let ghost fts = self.config@.scan.file_types;
        let ghost exs = self.config@.scan.excludes;
        let ghost cands = candidates@.map_values(|c: String| c@);
        let ghost base = self.files();
        let n = candidates.len();
        for i in 0..n
            invariant
                self.wf(),
                self.config == old(self).config,
                n == candidates@.len(),
                fts == self.config@.scan.file_types,
                exs == self.config@.scan.excludes,
                cands == candidates@.map_values(|c: String| c@),
                cands.len() == n,
                self.files() == base + selected_sources(fts, exs, scan_dir@, cands.take(i as int)),
        {
            let path = &candidates[i];
            proof {
                assert(cands[i as int] == path@);
            }
            let keep = self.type_is_accepted(path.as_str())
                && !self.is_excluded(path.as_str());
            proof {
                assert(keep == file_selected(fts, exs, cands[i as int]));
            }
            if keep {
                let relative_path = Self::relative_path_of(path.as_str(), scan_dir.as_str());
                let entry = SourceFile { absolute_path: path.clone(), relative_path };
                proof {
                    assert(entry@ == source_model(cands[i as int], scan_dir@));
                }
                let ghost prev = self.files();
                self.source_files.push(entry);
                proof {
                    assert(self.files() =~= prev.push(source_model(cands[i as int], scan_dir@)));
                }
            }
            proof {
                assert(cands.take(i + 1).drop_last() =~= cands.take(i as int));
                assert(cands.take(i + 1).last() == cands[i as int]);
                assert(self.files()
                    =~= base + selected_sources(fts, exs, scan_dir@, cands.take(i + 1)));
            }
        }
        proof {
            assert(cands.take(n as int) =~= cands);
        }
    }

    pub fn get_source_files(&self) -> (r: &Vec<SourceFile>)
        ensures
            r == &self.source_files,
            r@.map_values(|f: SourceFile| f@) == self.files(),
    {
        &self.source_files
    }
}

} // verus!
