//! Native open/save file dialog options and outcomes, and the filter
//! patterns a native file-type dropdown expects. Paths are carried as text.

use vstd::prelude::*;

verus! {

/// One filter entry a dialog offers in its file-type dropdown.
/// `extensions` never carry a leading dot.
#[derive(Debug, Clone, PartialEq)]
pub struct FileDialogFilter {
    pub label: String,
    pub extensions: Vec<String>,
}

#[derive(Debug, Clone, Default, PartialEq)]
pub struct OpenFileDialogOptions {
    pub title: Option<String>,
    pub filters: Vec<FileDialogFilter>,
    pub allow_multiple: bool,
    pub starting_directory: Option<String>,
}

#[derive(Debug, Clone, Default, PartialEq)]
pub struct SaveFileDialogOptions {
    pub title: Option<String>,
    pub filters: Vec<FileDialogFilter>,
    pub suggested_file_name: Option<String>,
    pub starting_directory: Option<String>,
}

/// `Selected` carries one or more paths, never none. Selecting a file does
/// not open, read, or authorize executing it.
#[derive(Debug, Clone, PartialEq)]
pub enum OpenFileDialogOutcome {
    Selected(Vec<String>),
    Cancelled,
    /// No equivalent mechanism exists on this platform, or the dialog
    /// itself could not be created.
    Unavailable,
    /// A real, unexpected failure; the message is for diagnostics only.
    Failed(String),
}

/// Selecting a save destination is not writing the file.
#[derive(Debug, Clone, PartialEq)]
pub enum SaveFileDialogOutcome {
    Selected(String),
    Cancelled,
    Unavailable,
    Failed(String),
}

/// `*.` followed by `extension`.
pub open spec fn glob(extension: Seq<char>) -> Seq<char> {
    seq!['*', '.'] + extension
}

/// The globs of `extensions`, joined with `;` (empty for no extension).
pub open spec fn join_globs(extensions: Seq<Seq<char>>) -> Seq<char>
    decreases extensions.len(),
{
    if extensions.len() == 0 {
        Seq::empty()
    } else if extensions.len() == 1 {
        glob(extensions[0])
    } else {
        join_globs(extensions.drop_last()) + seq![';'] + glob(extensions.last())
    }
}

/// The `*.ext1;*.ext2` pattern of one filter's extensions.
pub fn filter_pattern(extensions: &Vec<String>) -> (pattern: String)
    ensures
        pattern@ == join_globs(extensions.deep_view()),
{
    let ghost exts = extensions.deep_view();
    let mut pattern = String::new();
    let mut k: usize = 0;
    while k < extensions.len()
        invariant
            exts == extensions.deep_view(),
            k <= extensions.len(),
            pattern@ == join_globs(exts.take(k as int)),
        decreases extensions.len() - k,
    {
        let ghost before = pattern@;
        proof {
            reveal_strlit(";");
            reveal_strlit("*.");
        }
        if k > 0 {
            pattern.append(";");
        }
        pattern.append("*.");
        pattern.append(extensions[k].as_str());
        proof {
            let t = exts.take(k + 1);
            assert(t.drop_last() =~= exts.take(k as int));
            assert(t.last() == extensions@[k as int]@);
            if k == 0 {
                assert(pattern@ =~= glob(t[0]));
            } else {
                assert(pattern@ =~= before + seq![';'] + glob(t.last()));
            }
        }
        k = k + 1;
    }
    assert(exts.take(extensions.len() as int) =~= exts);
    pattern
}

/// Joins each filter's extensions into the `*.ext1;*.ext2` pattern a
/// native file-type dropdown expects, alongside its own label, in order.
/// A filter with no extension gets an empty pattern (matching nothing).
pub fn filter_patterns(filters: &[FileDialogFilter]) -> (patterns: Vec<(String, String)>)
    ensures
        patterns@.len() == filters@.len(),
        forall|i: int|
            0 <= i < filters@.len() ==> (#[trigger] patterns@[i]).0@ == filters@[i].label@
                && patterns@[i].1@ == join_globs(filters@[i].extensions.deep_view()),
{
    let mut patterns: Vec<(String, String)> = Vec::new();
    let mut i: usize = 0;
    while i < filters.len()
        invariant
            i <= filters@.len(),
            patterns@.len() == i,
            forall|j: int|
                0 <= j < i ==> (#[trigger] patterns@[j]).0@ == filters@[j].label@
                    && patterns@[j].1@ == join_globs(filters@[j].extensions.deep_view()),
        decreases filters.len() - i,
    {
        let filter = &filters[i];
        let label = filter.label.clone();
        let pattern = filter_pattern(&filter.extensions);
        patterns.push((label, pattern));
        i = i + 1;
    }
    patterns
}

/// A filter's pattern is empty exactly when it lists no extension, and
/// otherwise holds one glob per extension: its length is the extensions'
/// total length plus three characters per extension (`*`, `.`, and a `;`
/// between neighbours) less one.
pub proof fn law_pattern_length(extensions: Seq<Seq<char>>)
    ensures
        (join_globs(extensions).len() == 0) <==> (extensions.len() == 0),
        extensions.len() > 0 ==> join_globs(extensions).len() == total_len(extensions) + 3
            * extensions.len() - 1,
    decreases extensions.len(),
{
    if extensions.len() > 1 {
        law_pattern_length(extensions.drop_last());
        assert(extensions.drop_last().push(extensions.last()) =~= extensions);
        lemma_total_len_push(extensions.drop_last(), extensions.last());
    } else if extensions.len() == 1 {
        assert(extensions.drop_last().push(extensions.last()) =~= extensions);
        lemma_total_len_push(extensions.drop_last(), extensions.last());
    }
}

/// The summed length of every entry.
pub open spec fn total_len(s: Seq<Seq<char>>) -> int
    decreases s.len(),
{
    if s.len() == 0 {
        0
    } else {
        total_len(s.drop_last()) + s.last().len()
    }
}

proof fn lemma_total_len_push(s: Seq<Seq<char>>, x: Seq<char>)
    ensures
        total_len(s.push(x)) == total_len(s) + x.len(),
{
    assert(s.push(x).drop_last() =~= s);
}

} // verus!
