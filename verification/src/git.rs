//! What the git pane reads from git's own output: status, diffs, log,
//! graph, branches, stashes and blame, each parser stated as a left fold
//! of a per-line step over the lines of the output.
use vstd::prelude::*;

use crate::text::{
    push_seq, chars_eq, chars_of, contains, has_infix, has_prefix, lines_of, seqs_of, slice_chars, split_lines,
    split_first, split_whitespace, splitn, splitn_of, words_of, trim_start_char,
    trim_start_char_of, parse_usize, trim, trim_of, trim_end, trim_end_of, has_suffix, ends_with, parse_u32, parse_unsigned, eq_str, starts_with, starts_with_char, string_of, strip_prefix, before_pattern,
};

verus! {

broadcast use vstd::string::group_string_axioms;

// ─── File changes ────────────────────────────────────────────────────

#[derive(Clone, Copy, Debug, PartialEq, Eq, Structural)]
pub enum FileChange {
    Added,
    Modified,
    Deleted,
    Renamed,
    Copied,
    Conflict,
    Unknown,
}

/// The change that a porcelain status letter stands for.
pub open spec fn change_of(c: char) -> FileChange {
    if c == 'A' {
        FileChange::Added
    } else if c == 'M' {
        FileChange::Modified
    } else if c == 'D' {
        FileChange::Deleted
    } else if c == 'R' {
        FileChange::Renamed
    } else if c == 'C' {
        FileChange::Copied
    } else if c == 'U' {
        FileChange::Conflict
    } else {
        FileChange::Unknown
    }
}

/// The change that a porcelain status letter stands for.
pub fn parse_change(c: char) -> (r: FileChange)
    ensures
        r == change_of(c),
{
    match c {
        'A' => FileChange::Added,
        'M' => FileChange::Modified,
        'D' => FileChange::Deleted,
        'R' => FileChange::Renamed,
        'C' => FileChange::Copied,
        'U' => FileChange::Conflict,
        _ => FileChange::Unknown,
    }
}

/// The one-character badge shown for a change.
pub open spec fn change_label(c: FileChange) -> Seq<char> {
    match c {
        FileChange::Added => "A"@,
        FileChange::Modified => "M"@,
        FileChange::Deleted => "D"@,
        FileChange::Renamed => "R"@,
        FileChange::Copied => "C"@,
        FileChange::Conflict => "!"@,
        FileChange::Unknown => "?"@,
    }
}

impl FileChange {
    /// The one-character badge shown for this change.
    pub fn label(&self) -> (s: &'static str)
        ensures
            s@ == change_label(*self),
    {
        match self {
            FileChange::Added => "A",
            FileChange::Modified => "M",
            FileChange::Deleted => "D",
            FileChange::Renamed => "R",
            FileChange::Copied => "C",
            FileChange::Conflict => "!",
            FileChange::Unknown => "?",
        }
    }
}

// ─── Diffs ───────────────────────────────────────────────────────────

#[derive(Clone, Copy, Debug, PartialEq, Eq, Structural)]
pub enum DiffLineKind {
    Added,
    Removed,
    Context,
    Header,
}

#[derive(Clone, Debug)]
pub struct DiffLine {
    pub kind: DiffLineKind,
    pub content: String,
}

#[derive(Clone, Debug)]
pub struct DiffHunk {
    pub header: String,
    pub lines: Vec<DiffLine>,
}

#[verifier::ext_equal]
pub struct DiffLineView {
    pub kind: DiffLineKind,
    pub content: Seq<char>,
}

#[verifier::ext_equal]
pub struct DiffHunkView {
    pub header: Seq<char>,
    pub lines: Seq<DiffLineView>,
}

impl View for DiffLine {
    type V = DiffLineView;

    open spec fn view(&self) -> DiffLineView {
        DiffLineView { kind: self.kind, content: self.content@ }
    }
}

pub open spec fn diff_lines_view(v: Seq<DiffLine>) -> Seq<DiffLineView> {
    Seq::new(v.len(), |i: int| v[i]@)
}

impl View for DiffHunk {
    type V = DiffHunkView;

    open spec fn view(&self) -> DiffHunkView {
        DiffHunkView { header: self.header@, lines: diff_lines_view(self.lines@) }
    }
}

pub open spec fn hunks_view(v: Seq<DiffHunk>) -> Seq<DiffHunkView> {
    Seq::new(v.len(), |i: int| v[i]@)
}

fn push_diff_line(v: &mut Vec<DiffLine>, x: DiffLine)
    ensures
        diff_lines_view(final(v)@) == diff_lines_view(old(v)@).push(x@),
{
    let ghost xv = x@;
    v.push(x);
    assert(diff_lines_view(v@) =~= diff_lines_view(old(v)@).push(xv));
}

fn push_hunk(v: &mut Vec<DiffHunk>, x: DiffHunk)
    ensures
        hunks_view(final(v)@) == hunks_view(old(v)@).push(x@),
{
    let ghost xv = x@;
    v.push(x);
    assert(hunks_view(v@) =~= hunks_view(old(v)@).push(xv));
}

/// How a line inside a hunk is classified by its first character.
pub open spec fn line_kind_of(line: Seq<char>) -> DiffLineKind {
    if has_prefix(line, seq!['+']) {
        DiffLineKind::Added
    } else if has_prefix(line, seq!['-']) {
        DiffLineKind::Removed
    } else {
        DiffLineKind::Context
    }
}

fn line_kind(line: &[char]) -> (k: DiffLineKind)
    ensures
        k == line_kind_of(line@),
{
    if starts_with_char(line, '+') {
        DiffLineKind::Added
    } else if starts_with_char(line, '-') {
        DiffLineKind::Removed
    } else {
        DiffLineKind::Context
    }
}

/// A line of diff metadata that the parsers skip.
pub open spec fn is_meta_line(line: Seq<char>) -> bool {
    has_prefix(line, "index "@) || has_prefix(line, "---"@) || has_prefix(line, "+++"@)
}

fn meta_line(line: &[char]) -> (r: bool)
    ensures
        r == is_meta_line(line@),
{
    starts_with(line, "index ") || starts_with(line, "---") || starts_with(line, "+++")
}

/// The hunk shown for a file whose diff is binary.
pub open spec fn binary_hunk() -> DiffHunkView {
    DiffHunkView {
        header: Seq::empty(),
        lines: seq![DiffLineView { kind: DiffLineKind::Context, content: "(binary file)"@ }],
    }
}

fn make_binary_hunk() -> (h: DiffHunk)
    ensures
        h@ == binary_hunk(),
{
    let mut lines: Vec<DiffLine> = Vec::new();
    push_diff_line(
        &mut lines,
        DiffLine { kind: DiffLineKind::Context, content: String::from_str("(binary file)") },
    );
    let h = DiffHunk { header: String::new(), lines };
    assert(h@.lines =~= binary_hunk().lines);
    h
}

/// The state of `parse_diff` between lines.
#[verifier::ext_equal]
pub struct DiffScan {
    pub hunks: Seq<DiffHunkView>,
    pub header: Seq<char>,
    pub lines: Seq<DiffLineView>,
    pub in_hunk: bool,
    pub is_binary: bool,
}

/// The hunks with the open hunk closed, if it is open and has lines.
pub open spec fn flushed(
    hunks: Seq<DiffHunkView>,
    header: Seq<char>,
    lines: Seq<DiffLineView>,
    in_hunk: bool,
) -> Seq<DiffHunkView> {
    if in_hunk && lines.len() > 0 {
        hunks.push(DiffHunkView { header, lines })
    } else {
        hunks
    }
}

/// The open hunk's lines after a possible flush.
pub open spec fn kept_lines(lines: Seq<DiffLineView>, in_hunk: bool) -> Seq<DiffLineView> {
    if in_hunk && lines.len() > 0 {
        Seq::empty()
    } else {
        lines
    }
}

/// A line that announces a binary diff.
pub open spec fn is_binary_line(line: Seq<char>) -> bool {
    has_prefix(line, "Binary files"@) || (has_infix(line, "differ"@) && has_infix(
        line,
        "Binary"@,
    ))
}

/// One line of `parse_diff`.
pub open spec fn diff_step(st: DiffScan, line: Seq<char>) -> DiffScan {
    if is_binary_line(line) {
        DiffScan { is_binary: true, ..st }
    } else if has_prefix(line, "@@"@) {
        DiffScan {
            hunks: flushed(st.hunks, st.header, st.lines, st.in_hunk),
            header: line,
            lines: kept_lines(st.lines, st.in_hunk),
            in_hunk: true,
            is_binary: st.is_binary,
        }
    } else if has_prefix(line, "diff --git"@) {
        DiffScan {
            hunks: flushed(st.hunks, st.header, st.lines, st.in_hunk),
            header: st.header,
            lines: kept_lines(st.lines, st.in_hunk),
            in_hunk: false,
            is_binary: false,
        }
    } else if is_meta_line(line) {
        st
    } else if st.in_hunk {
        DiffScan {
            lines: st.lines.push(DiffLineView { kind: line_kind_of(line), content: line }),
            ..st
        }
    } else {
        st
    }
}

pub open spec fn diff_stepper() -> spec_fn(DiffScan, Seq<char>) -> DiffScan {
    |st: DiffScan, line: Seq<char>| diff_step(st, line)
}

pub open spec fn diff_start() -> DiffScan {
    DiffScan {
        hunks: Seq::empty(),
        header: Seq::empty(),
        lines: Seq::empty(),
        in_hunk: false,
        is_binary: false,
    }
}

/// The hunks of a unified diff: every `@@` section with at least one line,
/// or a single binary marker when the text announced only a binary file.
pub open spec fn diff_hunks_of(text: Seq<char>) -> Seq<DiffHunkView> {
    let st = lines_of(text).fold_left(diff_start(), diff_stepper());
    let hunks = flushed(st.hunks, st.header, st.lines, st.in_hunk);
    if hunks.len() == 0 && st.is_binary {
        seq![binary_hunk()]
    } else {
        hunks
    }
}

/// A line that ends the open hunk: an `@@` header or a `diff --git` line
/// (a line announcing a binary file ends nothing).
pub open spec fn closes_hunk(line: Seq<char>) -> bool {
    !is_binary_line(line) && (has_prefix(line, "@@"@) || has_prefix(line, "diff --git"@))
}

/// No line after line `p` and before line `i` ends a hunk.
pub open spec fn still_open(ls: Seq<Seq<char>>, p: int, i: int) -> bool {
    forall|r: int| p < r < i ==> !#[trigger] closes_hunk(ls[r])
}

/// Whether `l` is a line of the input after the `@@` line `p`, with no
/// line ending the hunk in between, read with its kind.
pub open spec fn line_in_section(ls: Seq<Seq<char>>, p: int, l: DiffLineView) -> bool {
    exists|q: int|
        p < q < ls.len() && #[trigger] ls[q] == l.content && l.kind == line_kind_of(ls[q]) && !is_meta_line(ls[q])
            && still_open(ls, p, q + 1)
}

/// Whether `h` is the hunk opened by the `@@` line `p`: its header is that
/// line and each of its lines lies in that line's section.
pub open spec fn hunk_at(ls: Seq<Seq<char>>, p: int, h: DiffHunkView) -> bool {
    &&& 0 <= p < ls.len()
    &&& ls[p] == h.header
    &&& has_prefix(h.header, "@@"@)
    &&& closes_hunk(ls[p])
    &&& forall|j: int| 0 <= j < h.lines.len() ==> #[trigger] line_in_section(ls, p, h.lines[j])
}

/// Whether `h` is the hunk of some `@@` line of `ls`.
pub open spec fn parsed_hunk(ls: Seq<Seq<char>>, h: DiffHunkView) -> bool {
    exists|p: int| #[trigger] hunk_at(ls, p, h)
}

/// The lines read into the hunk opened by the `@@` line `p`, from the lines
/// after it and before line `i`: all of them in order, but for metadata
/// lines and lines announcing a binary file, each with the kind its first
/// character gives.
pub open spec fn section_lines(ls: Seq<Seq<char>>, p: int, i: int) -> Seq<DiffLineView>
    decreases i - p,
{
    if i <= p + 1 {
        Seq::empty()
    } else {
        let prev = section_lines(ls, p, i - 1);
        let l = ls[i - 1];
        if is_binary_line(l) || is_meta_line(l) {
            prev
        } else {
            prev.push(DiffLineView { kind: line_kind_of(l), content: l })
        }
    }
}

/// Whether `h` is the whole hunk of the `@@` line `p`, whose section ends
/// before line `e` (the next `@@` or `diff --git` line, or the end).
pub open spec fn whole_hunk(ls: Seq<Seq<char>>, p: int, e: int, h: DiffHunkView) -> bool {
    &&& hunk_at(ls, p, h)
    &&& p < e <= ls.len()
    &&& (e == ls.len() || closes_hunk(ls[e]))
    &&& still_open(ls, p, e)
    &&& h.lines == section_lines(ls, p, e)
}

/// Whether `h` is the whole hunk of some `@@` line of `ls`.
pub open spec fn complete_hunk(ls: Seq<Seq<char>>, h: DiffHunkView) -> bool {
    exists|p: int, e: int| #[trigger] whole_hunk(ls, p, e, h)
}

proof fn lemma_diff_scan(ls: Seq<Seq<char>>, i: int) -> (p: int)
    requires
        0 <= i <= ls.len(),
    ensures
        ({
            let st = ls.take(i).fold_left(diff_start(), diff_stepper());
            &&& forall|k: int| 0 <= k < st.hunks.len() ==> #[trigger] parsed_hunk(ls, st.hunks[k])
            &&& forall|k: int| 0 <= k < st.hunks.len() ==> #[trigger] complete_hunk(ls, st.hunks[k])
            &&& !st.in_hunk ==> st.lines.len() == 0
            &&& st.in_hunk ==> {
                &&& p < i
                &&& st.lines == section_lines(ls, p, i)
                &&& hunk_at(ls, p, DiffHunkView { header: st.header, lines: st.lines })
                &&& still_open(ls, p, i)
            }
        }),
    decreases i,
{
    if i == 0 {
        assert(ls.take(0) =~= Seq::<Seq<char>>::empty());
        0
    } else {
        let p0 = lemma_diff_scan(ls, i - 1);
        let t = ls.take(i);
        assert(t.drop_last() =~= ls.take(i - 1));
        assert(t.last() == ls[i - 1]);
        let st0 = ls.take(i - 1).fold_left(diff_start(), diff_stepper());
        let st = t.fold_left(diff_start(), diff_stepper());
        assert(st == diff_step(st0, ls[i - 1]));
        let line = ls[i - 1];
        let open0 = DiffHunkView { header: st0.header, lines: st0.lines };
        if st0.in_hunk && st0.lines.len() > 0 {
            assert(parsed_hunk(ls, open0));
            if closes_hunk(line) {
                assert(whole_hunk(ls, p0, i - 1, open0));
                assert(complete_hunk(ls, open0));
            }
        }
        let fl = flushed(st0.hunks, st0.header, st0.lines, st0.in_hunk);
        assert forall|k: int| 0 <= k < fl.len() implies #[trigger] parsed_hunk(ls, fl[k]) by {
            if k < st0.hunks.len() {
                assert(fl[k] == st0.hunks[k]);
            } else {
                assert(fl[k] == open0);
            }
        }
        if closes_hunk(line) {
            assert forall|k: int| 0 <= k < fl.len() implies #[trigger] complete_hunk(ls, fl[k]) by {
                if k < st0.hunks.len() {
                    assert(fl[k] == st0.hunks[k]);
                } else {
                    assert(fl[k] == open0);
                }
            }
        }
        if is_binary_line(line) {
            assert(!closes_hunk(line));
            if st0.in_hunk {
                assert(section_lines(ls, p0, i) == section_lines(ls, p0, i - 1));
            }
            p0
        } else if has_prefix(line, "@@"@) {
            assert(st.lines.len() == 0);
            assert(hunk_at(ls, i - 1, DiffHunkView { header: st.header, lines: st.lines }));
            assert(section_lines(ls, i - 1, i) =~= Seq::<DiffLineView>::empty());
            i - 1
        } else if has_prefix(line, "diff --git"@) {
            p0
        } else if is_meta_line(line) {
            assert(!closes_hunk(line));
            if st0.in_hunk {
                assert(section_lines(ls, p0, i) == section_lines(ls, p0, i - 1));
            }
            p0
        } else if st0.in_hunk {
            assert(!closes_hunk(line));
            let l = DiffLineView { kind: line_kind_of(line), content: line };
            assert(section_lines(ls, p0, i) == section_lines(ls, p0, i - 1).push(l));
            assert(st.lines == st0.lines.push(l));
            assert(still_open(ls, p0, i));
            assert(line_in_section(ls, p0, l)) by {
                assert(ls[i - 1] == l.content);
            }
            assert forall|j: int| 0 <= j < st.lines.len() implies #[trigger] line_in_section(ls, p0, st.lines[j]) by {
                if j < st0.lines.len() {
                    assert(st.lines[j] == st0.lines[j]);
                    assert(hunk_at(ls, p0, open0));
                    assert(open0.lines[j] == st0.lines[j]);
                    assert(line_in_section(ls, p0, open0.lines[j]));
                }
            }
            p0
        } else {
            p0
        }
    }
}

/// Each hunk of a parsed diff, unless the diff only announced a binary
/// file, belongs to one `@@` line of the input: its header is that line,
/// and each of its lines is a later input line, read with the kind its
/// first character gives, with no `@@` or `diff --git` line in between.
/// So a `diff --git` line ends the open hunk, and nothing of the next
/// file's header lands in it.
pub proof fn law_hunks_stay_in_their_section(text: Seq<char>)
    ensures
        diff_hunks_of(text) == seq![binary_hunk()] || forall|k: int|
            0 <= k < diff_hunks_of(text).len() ==> #[trigger] parsed_hunk(lines_of(text), diff_hunks_of(text)[k]),
        diff_hunks_of(text) == seq![binary_hunk()] || forall|k: int|
            0 <= k < diff_hunks_of(text).len() ==> #[trigger] complete_hunk(lines_of(text), diff_hunks_of(text)[k]),
{
    let ls = lines_of(text);
    let p = lemma_diff_scan(ls, ls.len() as int);
    assert(ls.take(ls.len() as int) =~= ls);
    let st = ls.fold_left(diff_start(), diff_stepper());
    let open = DiffHunkView { header: st.header, lines: st.lines };
    if st.in_hunk && st.lines.len() > 0 {
        assert(parsed_hunk(ls, open));
        assert(whole_hunk(ls, p, ls.len() as int, open));
        assert(complete_hunk(ls, open));
    }
    let fl = flushed(st.hunks, st.header, st.lines, st.in_hunk);
    assert forall|k: int| 0 <= k < fl.len() implies #[trigger] parsed_hunk(ls, fl[k]) && complete_hunk(ls, fl[k]) by {
        if k < st.hunks.len() {
            assert(fl[k] == st.hunks[k]);
        } else {
            assert(fl[k] == open);
        }
    }
}

/// Parses the hunks of a unified diff.
pub fn parse_diff(text: &str) -> (out: Vec<DiffHunk>)
    ensures
        hunks_view(out@) == diff_hunks_of(text@),
{
    let chars = chars_of(text);
    let lines = split_lines(&chars);
    let ghost ls = lines_of(text@);
    let mut hunks: Vec<DiffHunk> = Vec::new();
    let mut header: Vec<char> = Vec::new();
    let mut cur: Vec<DiffLine> = Vec::new();
    let mut in_hunk = false;
    let mut is_binary = false;
    let mut i: usize = 0;
    assert(hunks_view(hunks@) =~= Seq::empty());
    assert(diff_lines_view(cur@) =~= Seq::empty());
    assert(header@ =~= Seq::empty());
    while i < lines.len()
        invariant
            seqs_of(lines@) == ls,
            i <= lines.len(),
            (DiffScan {
                hunks: hunks_view(hunks@),
                header: header@,
                lines: diff_lines_view(cur@),
                in_hunk,
                is_binary,
            }) == ls.take(i as int).fold_left(diff_start(), diff_stepper()),
        decreases lines.len() - i,
    {
        let line = &lines[i];
        assert(ls[i as int] == line@);
        assert(ls.take(i + 1).drop_last() == ls.take(i as int));
        let flush = in_hunk && cur.len() > 0;
        if starts_with(line, "Binary files") || contains(line, "differ") && contains(
            line,
            "Binary",
        ) {
            is_binary = true;
        } else if starts_with(line, "@@") {
            if flush {
                let taken = cur;
                cur = Vec::new();
                push_hunk(&mut hunks, DiffHunk { header: string_of(&header), lines: taken });
            }
            header = slice_chars(line, 0, line.len());
            assert(header@ =~= line@);
            in_hunk = true;
        } else if starts_with(line, "diff --git") {
            if flush {
                let taken = cur;
                cur = Vec::new();
                push_hunk(&mut hunks, DiffHunk { header: string_of(&header), lines: taken });
            }
            in_hunk = false;
            is_binary = false;
        } else if meta_line(line) {
        } else if in_hunk {
            let kind = line_kind(line);
            push_diff_line(&mut cur, DiffLine { kind, content: string_of(line) });
        }
        i += 1;
    }
    assert(ls.take(ls.len() as int) == ls);
    if in_hunk && cur.len() > 0 {
        push_hunk(&mut hunks, DiffHunk { header: string_of(&header), lines: cur });
    }
    if hunks.len() == 0 && is_binary {
        push_hunk(&mut hunks, make_binary_hunk());
        assert(hunks_view(hunks@) =~= seq![binary_hunk()]);
    }
    hunks
}

/// Parses the hunks of a unified diff given as text.
pub fn parse_diff_text(text: &str) -> (out: Vec<DiffHunk>)
    ensures
        hunks_view(out@) == diff_hunks_of(text@),
{
    parse_diff(text)
}


// ─── Hunks grouped by file ───────────────────────────────────────────

/// The files of a multi-file diff and their hunks, in order of appearance.
pub open spec fn file_hunks_view(v: Seq<(String, Vec<DiffHunk>)>) -> Seq<(Seq<char>, Seq<DiffHunkView>)> {
    Seq::new(v.len(), |i: int| (v[i].0@, hunks_view(v[i].1@)))
}

/// Index of the first entry at or after `k` whose file is `file`, or -1.
pub open spec fn entry_index_from(
    result: Seq<(Seq<char>, Seq<DiffHunkView>)>,
    file: Seq<char>,
    k: int,
) -> int
    decreases result.len() - k,
{
    if k < 0 || k >= result.len() {
        -1
    } else if result[k].0 == file {
        k
    } else {
        entry_index_from(result, file, k + 1)
    }
}

/// Adds a file's hunks: after the hunks already listed for that file, or as
/// a new entry at the end.
pub open spec fn merge_file(
    result: Seq<(Seq<char>, Seq<DiffHunkView>)>,
    file: Seq<char>,
    hunks: Seq<DiffHunkView>,
) -> Seq<(Seq<char>, Seq<DiffHunkView>)> {
    let i = entry_index_from(result, file, 0);
    if 0 <= i < result.len() {
        result.update(i, (file, result[i].1 + hunks))
    } else {
        result.push((file, hunks))
    }
}

/// The file named by a `diff --git a/<file> b/<file>` line.
pub open spec fn diff_file_of(line: Seq<char>) -> Seq<char> {
    if has_prefix(line, "diff --git a/"@) {
        before_pattern(line.skip("diff --git a/"@.len() as int), " b/"@)
    } else {
        Seq::empty()
    }
}

/// The state of `collect_file_hunks` between lines.
#[verifier::ext_equal]
pub struct FileHunkScan {
    pub result: Seq<(Seq<char>, Seq<DiffHunkView>)>,
    pub file: Seq<char>,
    pub header: Seq<char>,
    pub lines: Seq<DiffLineView>,
    pub file_hunks: Seq<DiffHunkView>,
    pub in_hunk: bool,
}

/// The listing with the open file's hunks added, if it has a name and hunks.
pub open spec fn with_file(
    result: Seq<(Seq<char>, Seq<DiffHunkView>)>,
    file: Seq<char>,
    file_hunks: Seq<DiffHunkView>,
) -> Seq<(Seq<char>, Seq<DiffHunkView>)> {
    if file.len() > 0 && file_hunks.len() > 0 {
        merge_file(result, file, file_hunks)
    } else {
        result
    }
}

/// One line of `collect_file_hunks`.
pub open spec fn file_hunk_step(st: FileHunkScan, line: Seq<char>) -> FileHunkScan {
    if has_prefix(line, "diff --git"@) {
        let fh = flushed(st.file_hunks, st.header, st.lines, st.in_hunk);
        FileHunkScan {
            result: with_file(st.result, st.file, fh),
            file: diff_file_of(line),
            header: st.header,
            lines: kept_lines(st.lines, st.in_hunk),
            file_hunks: if st.file.len() > 0 && fh.len() > 0 {
                Seq::empty()
            } else {
                fh
            },
            in_hunk: false,
        }
    } else if has_prefix(line, "@@"@) {
        FileHunkScan {
            file_hunks: flushed(st.file_hunks, st.header, st.lines, st.in_hunk),
            lines: kept_lines(st.lines, st.in_hunk),
            header: line,
            in_hunk: true,
            ..st
        }
    } else if is_meta_line(line) {
        st
    } else if has_prefix(line, "Binary files"@) {
        FileHunkScan { file_hunks: st.file_hunks.push(binary_hunk()), ..st }
    } else if st.in_hunk {
        FileHunkScan {
            lines: st.lines.push(DiffLineView { kind: line_kind_of(line), content: line }),
            ..st
        }
    } else {
        st
    }
}

pub open spec fn file_hunk_stepper() -> spec_fn(FileHunkScan, Seq<char>) -> FileHunkScan {
    |st: FileHunkScan, line: Seq<char>| file_hunk_step(st, line)
}

/// What `collect_file_hunks` leaves in the listing after reading `text`.
pub open spec fn collected_files(
    result: Seq<(Seq<char>, Seq<DiffHunkView>)>,
    text: Seq<char>,
) -> Seq<(Seq<char>, Seq<DiffHunkView>)> {
    let st = lines_of(text).fold_left(
        FileHunkScan {
            result,
            file: Seq::empty(),
            header: Seq::empty(),
            lines: Seq::empty(),
            file_hunks: Seq::empty(),
            in_hunk: false,
        },
        file_hunk_stepper(),
    );
    with_file(st.result, st.file, flushed(st.file_hunks, st.header, st.lines, st.in_hunk))
}

fn append_hunks(dst: &mut Vec<DiffHunk>, src: Vec<DiffHunk>)
    ensures
        hunks_view(final(dst)@) == hunks_view(old(dst)@) + hunks_view(src@),
{
    let mut src = src;
    let ghost sv = src@;
    dst.append(&mut src);
    assert(hunks_view(dst@) =~= hunks_view(old(dst)@) + hunks_view(sv));
}

/// Adds a file's hunks to the listing, as `merge_file` says.
fn merge_into(result: &mut Vec<(String, Vec<DiffHunk>)>, file: &[char], hunks: Vec<DiffHunk>)
    ensures
        file_hunks_view(final(result)@) == merge_file(
            file_hunks_view(old(result)@),
            file@,
            hunks_view(hunks@),
        ),
{
    let ghost rv = file_hunks_view(result@);
    let ghost hv0 = hunks_view(hunks@);
    assert(rv == file_hunks_view(old(result)@));
    let mut k: usize = 0;
    while k < result.len()
        invariant
            file_hunks_view(result@) == rv,
            hv0 == hunks_view(hunks@),
            rv == file_hunks_view(old(result)@),
            k <= result.len(),
            entry_index_from(rv, file@, 0) == entry_index_from(rv, file@, k as int),
        decreases result.len() - k,
    {
        let name = chars_of(result[k].0.as_str());
        if chars_eq(&name, file) {
            assert(rv[k as int].0 == file@);
            assert(entry_index_from(rv, file@, k as int) == k);
            let (f, mut hs) = result.remove(k);
            append_hunks(&mut hs, hunks);
            let ghost hv = hunks_view(hs@);
            result.insert(k, (f, hs));
            assert(file_hunks_view(result@) =~= rv.update(k as int, (file@, rv[k as int].1 + hv0)));
            assert(merge_file(rv, file@, hv0) == rv.update(k as int, (file@, rv[k as int].1 + hv0)));
            return;
        }
        k += 1;
    }
    let name = string_of(file);
    let ghost hv = hunks_view(hunks@);
    result.push((name, hunks));
    assert(file_hunks_view(result@) =~= rv.push((file@, hv)));
}

fn diff_file(line: &[char]) -> (out: Vec<char>)
    ensures
        out@ == diff_file_of(line@),
{
    match strip_prefix(line, "diff --git a/") {
        Some(rest) => split_first(&rest, " b/"),
        None => Vec::new(),
    }
}

/// Parses a multi-file diff and adds its hunks to `result`, grouped by file:
/// the hunks of a file already listed go after the ones it has.
pub fn collect_file_hunks(diff_text: &str, result: &mut Vec<(String, Vec<DiffHunk>)>)
    ensures
        file_hunks_view(final(result)@) == collected_files(
            file_hunks_view(old(result)@),
            diff_text@,
        ),
{
    let chars = chars_of(diff_text);
    let lines = split_lines(&chars);
    let ghost ls = lines_of(diff_text@);
    let ghost start = FileHunkScan {
        result: file_hunks_view(result@),
        file: Seq::empty(),
        header: Seq::empty(),
        lines: Seq::empty(),
        file_hunks: Seq::empty(),
        in_hunk: false,
    };
    let mut file: Vec<char> = Vec::new();
    let mut header: Vec<char> = Vec::new();
    let mut cur: Vec<DiffLine> = Vec::new();
    let mut file_hunks: Vec<DiffHunk> = Vec::new();
    let mut in_hunk = false;
    let mut i: usize = 0;
    assert(hunks_view(file_hunks@) =~= Seq::empty());
    assert(diff_lines_view(cur@) =~= Seq::empty());
    assert(header@ =~= Seq::empty());
    assert(file@ =~= Seq::empty());
    while i < lines.len()
        invariant
            seqs_of(lines@) == ls,
            i <= lines.len(),
            (FileHunkScan {
                result: file_hunks_view(result@),
                file: file@,
                header: header@,
                lines: diff_lines_view(cur@),
                file_hunks: hunks_view(file_hunks@),
                in_hunk,
            }) == ls.take(i as int).fold_left(start, file_hunk_stepper()),
        decreases lines.len() - i,
    {
        let line = &lines[i];
        assert(ls[i as int] == line@);
        assert(ls.take(i + 1).drop_last() == ls.take(i as int));
        if starts_with(line, "diff --git") {
            if in_hunk && cur.len() > 0 {
                let taken = cur;
                cur = Vec::new();
                push_hunk(&mut file_hunks, DiffHunk { header: string_of(&header), lines: taken });
            }
            if file.len() > 0 && file_hunks.len() > 0 {
                let taken = file_hunks;
                file_hunks = Vec::new();
                merge_into(result, &file, taken);
                assert(hunks_view(file_hunks@) =~= Seq::empty());
            }
            file = diff_file(line);
            in_hunk = false;
        } else if starts_with(line, "@@") {
            if in_hunk && cur.len() > 0 {
                let taken = cur;
                cur = Vec::new();
                push_hunk(&mut file_hunks, DiffHunk { header: string_of(&header), lines: taken });
            }
            header = slice_chars(line, 0, line.len());
            assert(header@ =~= line@);
            in_hunk = true;
        } else if meta_line(line) {
        } else if starts_with(line, "Binary files") {
            push_hunk(&mut file_hunks, make_binary_hunk());
        } else if in_hunk {
            let kind = line_kind(line);
            push_diff_line(&mut cur, DiffLine { kind, content: string_of(line) });
        }
        i += 1;
    }
    assert(ls.take(ls.len() as int) == ls);
    if in_hunk && cur.len() > 0 {
        push_hunk(&mut file_hunks, DiffHunk { header: string_of(&header), lines: cur });
    }
    if file.len() > 0 && file_hunks.len() > 0 {
        merge_into(result, &file, file_hunks);
    }
}


// ─── Status ──────────────────────────────────────────────────────────

#[derive(Clone, Debug)]
pub struct FileStatus {
    pub path: String,
    pub old_path: Option<String>,
    pub status: FileChange,
}

#[derive(Clone, Debug)]
pub struct RepoStatus {
    pub branch: String,
    pub is_detached: bool,
    pub upstream: Option<String>,
    pub ahead: u32,
    pub behind: u32,
    pub staged: Vec<FileStatus>,
    pub unstaged: Vec<FileStatus>,
    pub untracked: Vec<String>,
    pub conflicted: Vec<String>,
    pub has_remotes: bool,
}

#[verifier::ext_equal]
pub struct FileStatusView {
    pub path: Seq<char>,
    pub old_path: Option<Seq<char>>,
    pub status: FileChange,
}

/// The text of an optional string.
pub open spec fn opt_text(o: Option<String>) -> Option<Seq<char>> {
    match o {
        Some(s) => Some(s@),
        None => None,
    }
}

impl View for FileStatus {
    type V = FileStatusView;

    open spec fn view(&self) -> FileStatusView {
        FileStatusView { path: self.path@, old_path: opt_text(self.old_path), status: self.status }
    }
}

pub open spec fn statuses_view(v: Seq<FileStatus>) -> Seq<FileStatusView> {
    Seq::new(v.len(), |i: int| v[i]@)
}

pub open spec fn texts_view(v: Seq<String>) -> Seq<Seq<char>> {
    Seq::new(v.len(), |i: int| v[i]@)
}

/// What `git status --porcelain=v2 --branch` says of the repository.
#[verifier::ext_equal]
pub struct StatusScan {
    pub branch: Seq<char>,
    pub is_detached: bool,
    pub upstream: Option<Seq<char>>,
    pub ahead: nat,
    pub behind: nat,
    pub staged: Seq<FileStatusView>,
    pub unstaged: Seq<FileStatusView>,
    pub untracked: Seq<Seq<char>>,
    pub conflicted: Seq<Seq<char>>,
}

impl RepoStatus {
    pub open spec fn scan(&self) -> StatusScan {
        StatusScan {
            branch: self.branch@,
            is_detached: self.is_detached,
            upstream: opt_text(self.upstream),
            ahead: self.ahead as nat,
            behind: self.behind as nat,
            staged: statuses_view(self.staged@),
            unstaged: statuses_view(self.unstaged@),
            untracked: texts_view(self.untracked@),
            conflicted: texts_view(self.conflicted@),
        }
    }
}

fn push_status(v: &mut Vec<FileStatus>, x: FileStatus)
    ensures
        statuses_view(final(v)@) == statuses_view(old(v)@).push(x@),
{
    let ghost xv = x@;
    v.push(x);
    assert(statuses_view(v@) =~= statuses_view(old(v)@).push(xv));
}

fn push_text(v: &mut Vec<String>, x: String)
    ensures
        texts_view(final(v)@) == texts_view(old(v)@).push(x@),
{
    let ghost xv = x@;
    v.push(x);
    assert(texts_view(v@) =~= texts_view(old(v)@).push(xv));
}

/// A count from the `# branch.ab` line: the word without its leading
/// `sign` characters, read as a `u32`, or 0 when it is not one.
pub open spec fn ab_count(word: Seq<char>, sign: char) -> nat {
    match parse_unsigned(trim_start_char_of(word, sign), u32::MAX as nat) {
        Some(v) => v,
        None => 0,
    }
}

fn ab_count_of(word: &[char], sign: char) -> (r: u32)
    ensures
        r as nat == ab_count(word@, sign),
{
    let t = trim_start_char(word, sign);
    match parse_u32(&t) {
        Some(v) => v,
        None => 0,
    }
}

/// The status letter at `i` of the XY field, `.` when it is missing.
pub open spec fn xy_at(xy: Seq<char>, i: int) -> char {
    if i < xy.len() {
        xy[i]
    } else {
        '.'
    }
}

/// The new path and the original path of a changed or renamed entry.
pub open spec fn entry_paths(path_part: Seq<char>, is_rename: bool) -> (Seq<char>, Option<Seq<char>>) {
    if is_rename {
        let sp = splitn_of(path_part, 2, '\t');
        (sp[0], if sp.len() >= 2 {
            Some(sp[1])
        } else {
            None
        })
    } else {
        (path_part, None)
    }
}

/// One line of the porcelain v2 status; `detached_name` is what the branch
/// is called when HEAD is detached.
pub open spec fn status_step(st: StatusScan, line: Seq<char>, detached_name: Seq<char>) -> StatusScan {
    if has_prefix(line, "# branch.head "@) {
        let rest = line.skip("# branch.head "@.len() as int);
        if rest == "(detached)"@ {
            StatusScan { is_detached: true, branch: detached_name, ..st }
        } else {
            StatusScan { branch: rest, ..st }
        }
    } else if has_prefix(line, "# branch.upstream "@) {
        StatusScan { upstream: Some(line.skip("# branch.upstream "@.len() as int)), ..st }
    } else if has_prefix(line, "# branch.ab "@) {
        let parts = words_of(line.skip("# branch.ab "@.len() as int));
        StatusScan {
            ahead: if parts.len() >= 1 {
                ab_count(parts[0], '+')
            } else {
                st.ahead
            },
            behind: if parts.len() >= 2 {
                ab_count(parts[1], '-')
            } else {
                st.behind
            },
            ..st
        }
    } else if has_prefix(line, "1 "@) || has_prefix(line, "2 "@) {
        // A changed entry has nine fields, `1 XY sub mH mI mW hH hI path`; a
        // rename has a score before its paths, `2 XY sub mH mI mW hH hI
        // X{score} path<TAB>origPath`, ten fields in all.
        let is_rename = has_prefix(line, "2 "@);
        let n: int = if is_rename { 10 } else { 9 };
        let parts = splitn_of(line, n, ' ');
        if parts.len() >= n {
            let paths = entry_paths(parts[n - 1], is_rename);
            let x = xy_at(parts[1], 0);
            let y = xy_at(parts[1], 1);
            StatusScan {
                staged: if x != '.' {
                    st.staged.push(
                        FileStatusView { path: paths.0, old_path: paths.1, status: change_of(x) },
                    )
                } else {
                    st.staged
                },
                unstaged: if y != '.' {
                    st.unstaged.push(
                        FileStatusView { path: paths.0, old_path: paths.1, status: change_of(y) },
                    )
                } else {
                    st.unstaged
                },
                ..st
            }
        } else {
            st
        }
    } else if has_prefix(line, "u "@) {
        let parts = splitn_of(line, 11, ' ');
        if parts.len() > 0 {
            StatusScan { conflicted: st.conflicted.push(parts.last()), ..st }
        } else {
            st
        }
    } else if has_prefix(line, "? "@) {
        StatusScan { untracked: st.untracked.push(line.skip("? "@.len() as int)), ..st }
    } else {
        st
    }
}

pub open spec fn status_stepper(detached_name: Seq<char>) -> spec_fn(StatusScan, Seq<char>) -> StatusScan {
    |st: StatusScan, line: Seq<char>| status_step(st, line, detached_name)
}

pub open spec fn status_start() -> StatusScan {
    StatusScan {
        branch: "(unknown)"@,
        is_detached: false,
        upstream: None,
        ahead: 0,
        behind: 0,
        staged: Seq::empty(),
        unstaged: Seq::empty(),
        untracked: Seq::empty(),
        conflicted: Seq::empty(),
    }
}

/// What the porcelain v2 status output says, line by line.
pub open spec fn status_of(text: Seq<char>, detached_name: Seq<char>) -> StatusScan {
    lines_of(text).fold_left(status_start(), status_stepper(detached_name))
}

/// The text of optional characters.
pub open spec fn opt_chars(o: Option<Vec<char>>) -> Option<Seq<char>> {
    match o {
        Some(v) => Some(v@),
        None => None,
    }
}

fn opt_string(o: &Option<Vec<char>>) -> (r: Option<String>)
    ensures
        opt_text(r) == opt_chars(*o),
{
    match o {
        Some(v) => Some(string_of(v)),
        None => None,
    }
}

/// Reads `git status --porcelain=v2 --branch`. A detached HEAD is named
/// `detached_name`; `has_remotes` is recorded as given.
pub fn parse_status(text: &str, detached_name: &str, has_remotes: bool) -> (out: RepoStatus)
    ensures
        out.scan() == status_of(text@, detached_name@),
        out.has_remotes == has_remotes,
{
    let chars = chars_of(text);
    let lines = split_lines(&chars);
    let ghost ls = lines_of(text@);
    let mut out = RepoStatus {
        branch: String::from_str("(unknown)"),
        is_detached: false,
        upstream: None,
        ahead: 0,
        behind: 0,
        staged: Vec::new(),
        unstaged: Vec::new(),
        untracked: Vec::new(),
        conflicted: Vec::new(),
        has_remotes,
    };
    assert(out.scan() =~~= status_start());
    let mut i: usize = 0;
    while i < lines.len()
        invariant
            seqs_of(lines@) == ls,
            i <= lines.len(),
            out.has_remotes == has_remotes,
            out.scan() == ls.take(i as int).fold_left(status_start(), status_stepper(detached_name@)),
        decreases lines.len() - i,
    {
        let line = &lines[i];
        assert(ls[i as int] == line@);
        assert(ls.take(i + 1).drop_last() == ls.take(i as int));
        let ghost prev = out.scan();
        if let Some(rest) = strip_prefix(line, "# branch.head ") {
            if eq_str(&rest, "(detached)") {
                out.is_detached = true;
                out.branch = String::from_str(detached_name);
            } else {
                out.branch = string_of(&rest);
            }
            assert(out.scan() =~~= status_step(prev, line@, detached_name@));
        } else if let Some(rest) = strip_prefix(line, "# branch.upstream ") {
            out.upstream = Some(string_of(&rest));
            assert(out.scan() =~~= status_step(prev, line@, detached_name@));
        } else if let Some(rest) = strip_prefix(line, "# branch.ab ") {
            let parts = split_whitespace(&rest);
            assert(seqs_of(parts@) == words_of(rest@));
            if parts.len() >= 1 {
                out.ahead = ab_count_of(&parts[0], '+');
            }
            if parts.len() >= 2 {
                out.behind = ab_count_of(&parts[1], '-');
            }
            assert(out.scan() =~~= status_step(prev, line@, detached_name@));
        } else if starts_with(line, "1 ") || starts_with(line, "2 ") {
            let is_rename = starts_with(line, "2 ");
            let n: usize = if is_rename { 10 } else { 9 };
            let parts = splitn(line, n, ' ');
            if parts.len() >= n {
                let xy = &parts[1];
                let path_part = &parts[n - 1];
                let (path, old_path): (Vec<char>, Option<Vec<char>>) = if is_rename {
                    let sp = splitn(path_part, 2, '\t');
                    assert(seqs_of(sp@) == splitn_of(path_part@, 2, '\t'));
                    let old = if sp.len() >= 2 {
                        Some(slice_chars(&sp[1], 0, sp[1].len()))
                    } else {
                        None
                    };
                    (slice_chars(&sp[0], 0, sp[0].len()), old)
                } else {
                    (slice_chars(path_part, 0, path_part.len()), None)
                };
                let ghost paths = entry_paths(path_part@, is_rename);
                assert(path@ =~= paths.0);
                assert(opt_chars(old_path) == paths.1);
                let x = if xy.len() > 0 { xy[0] } else { '.' };
                let y = if xy.len() > 1 { xy[1] } else { '.' };
                assert(x == xy_at(parts@[1]@, 0));
                assert(y == xy_at(parts@[1]@, 1));
                if x != '.' {
                    push_status(
                        &mut out.staged,
                        FileStatus { path: string_of(&path), old_path: opt_string(&old_path), status: parse_change(x) },
                    );
                }
                if y != '.' {
                    push_status(
                        &mut out.unstaged,
                        FileStatus { path: string_of(&path), old_path: opt_string(&old_path), status: parse_change(y) },
                    );
                }
            }
            assert(out.scan() =~~= status_step(prev, line@, detached_name@));
        } else if starts_with(line, "u ") {
            let parts = splitn(line, 11, ' ');
            if parts.len() > 0 {
                push_text(&mut out.conflicted, string_of(&parts[parts.len() - 1]));
            }
            assert(out.scan() =~~= status_step(prev, line@, detached_name@));
        } else if let Some(rest) = strip_prefix(line, "? ") {
            push_text(&mut out.untracked, string_of(&rest));
            assert(out.scan() =~~= status_step(prev, line@, detached_name@));
        }
        i += 1;
    }
    assert(ls.take(ls.len() as int) == ls);
    out
}


// ─── Log and graph ───────────────────────────────────────────────────

#[derive(Clone, Debug)]
pub struct CommitInfo {
    pub hash: String,
    pub short_hash: String,
    pub author: String,
    pub date: String,
    pub message: String,
    pub refs: String,
    pub graph_line: Option<String>,
}

#[verifier::ext_equal]
pub struct CommitView {
    pub hash: Seq<char>,
    pub short_hash: Seq<char>,
    pub author: Seq<char>,
    pub date: Seq<char>,
    pub message: Seq<char>,
    pub refs: Seq<char>,
    pub graph_line: Option<Seq<char>>,
}

impl View for CommitInfo {
    type V = CommitView;

    open spec fn view(&self) -> CommitView {
        CommitView {
            hash: self.hash@,
            short_hash: self.short_hash@,
            author: self.author@,
            date: self.date@,
            message: self.message@,
            refs: self.refs@,
            graph_line: opt_text(self.graph_line),
        }
    }
}

pub open spec fn commits_view(v: Seq<CommitInfo>) -> Seq<CommitView> {
    Seq::new(v.len(), |i: int| v[i]@)
}

fn push_commit(v: &mut Vec<CommitInfo>, x: CommitInfo)
    ensures
        commits_view(final(v)@) == commits_view(old(v)@).push(x@),
{
    let ghost xv = x@;
    v.push(x);
    assert(commits_view(v@) =~= commits_view(old(v)@).push(xv));
}

/// The commit described by the field lines of one log record: hash,
/// short hash, author, date, subject and (when present) refs.
pub open spec fn commit_of(fields: Seq<Seq<char>>, graph_line: Option<Seq<char>>) -> CommitView {
    CommitView {
        hash: fields[0],
        short_hash: fields[1],
        author: fields[2],
        date: fields[3],
        message: fields[4],
        refs: if fields.len() > 5 {
            fields[5]
        } else {
            Seq::empty()
        },
        graph_line,
    }
}

fn make_commit(fields: &Vec<Vec<char>>, graph_line: Option<String>) -> (c: CommitInfo)
    requires
        fields.len() >= 5,
    ensures
        c@ == commit_of(seqs_of(fields@), opt_text(graph_line)),
{
    let refs = if fields.len() > 5 {
        string_of(&fields[5])
    } else {
        String::new()
    };
    CommitInfo {
        hash: string_of(&fields[0]),
        short_hash: string_of(&fields[1]),
        author: string_of(&fields[2]),
        date: string_of(&fields[3]),
        message: string_of(&fields[4]),
        refs,
        graph_line,
    }
}

/// The commits read so far and the field lines of the open record.
pub open spec fn log_step(st: (Seq<CommitView>, Seq<Seq<char>>), line: Seq<char>) -> (Seq<CommitView>, Seq<Seq<char>>) {
    if trim_of(line) == "---END---"@ {
        (if st.1.len() >= 5 {
            st.0.push(commit_of(st.1, None))
        } else {
            st.0
        }, Seq::empty())
    } else {
        (st.0, st.1.push(line))
    }
}

pub open spec fn log_stepper() -> spec_fn((Seq<CommitView>, Seq<Seq<char>>), Seq<char>) -> (Seq<CommitView>, Seq<Seq<char>>) {
    |st: (Seq<CommitView>, Seq<Seq<char>>), line: Seq<char>| log_step(st, line)
}

/// The commits of `git log --format=%H%n%h%n%an%n%ar%n%s%n%D%n---END---`:
/// one per `---END---` line that closes at least five field lines.
pub open spec fn log_commits_of(text: Seq<char>) -> Seq<CommitView> {
    lines_of(text).fold_left((Seq::empty(), Seq::empty()), log_stepper()).0
}

/// Reads the records of `git log` with the pane's format.
pub fn parse_log_output(text: &str) -> (out: Vec<CommitInfo>)
    ensures
        commits_view(out@) == log_commits_of(text@),
{
    let chars = chars_of(text);
    let lines = split_lines(&chars);
    let ghost ls = lines_of(text@);
    let mut commits: Vec<CommitInfo> = Vec::new();
    let mut fields: Vec<Vec<char>> = Vec::new();
    let mut i: usize = 0;
    assert(commits_view(commits@) =~= Seq::empty());
    assert(seqs_of(fields@) =~= Seq::empty());
    while i < lines.len()
        invariant
            seqs_of(lines@) == ls,
            i <= lines.len(),
            (commits_view(commits@), seqs_of(fields@)) == ls.take(i as int).fold_left(
                (Seq::<CommitView>::empty(), Seq::<Seq<char>>::empty()),
                log_stepper(),
            ),
        decreases lines.len() - i,
    {
        let line = &lines[i];
        assert(ls[i as int] == line@);
        assert(ls.take(i + 1).drop_last() == ls.take(i as int));
        let t = trim(line);
        if eq_str(&t, "---END---") {
            if fields.len() >= 5 {
                push_commit(&mut commits, make_commit(&fields, None));
            }
            fields = Vec::new();
            assert(seqs_of(fields@) =~= Seq::empty());
        } else {
            push_seq(&mut fields, slice_chars(line, 0, line.len()));
            assert(line@.subrange(0, line@.len() as int) =~= line@);
        }
        i += 1;
    }
    assert(ls.take(ls.len() as int) == ls);
    commits
}

/// A character that `git log --graph` draws.
pub open spec fn is_graph_char(c: char) -> bool {
    c == '*' || c == '|' || c == '/' || c == '\\' || c == ' ' || c == '_'
}

/// Position after the graph drawing that starts at `i`.
pub open spec fn graph_run_end(s: Seq<char>, i: int) -> int
    decreases s.len() - i,
{
    if 0 <= i < s.len() && is_graph_char(s[i]) {
        graph_run_end(s, i + 1)
    } else {
        i
    }
}

/// Where the graph drawing of a line ends and its content begins.
fn graph_end(s: &[char]) -> (r: usize)
    ensures
        r as int == graph_run_end(s@, 0),
        r <= s.len(),
{
    let mut i: usize = 0;
    while i < s.len() && (s[i] == '*' || s[i] == '|' || s[i] == '/' || s[i] == '\\' || s[i]
        == ' ' || s[i] == '_')
        invariant
            i <= s.len(),
            graph_run_end(s@, 0) == graph_run_end(s@, i as int),
        decreases s.len() - i,
    {
        i += 1;
    }
    i
}

#[verifier::ext_equal]
pub struct GraphScan {
    pub commits: Seq<CommitView>,
    pub fields: Seq<Seq<char>>,
    pub prefix: Seq<char>,
}

/// One line of `git log --graph` output.
pub open spec fn graph_step(st: GraphScan, line: Seq<char>) -> GraphScan {
    let trimmed = trim_end_of(line);
    if has_suffix(trimmed, "---END---"@) {
        GraphScan {
            commits: if st.fields.len() >= 5 {
                st.commits.push(commit_of(st.fields, Some(st.prefix)))
            } else {
                st.commits
            },
            fields: Seq::empty(),
            prefix: Seq::empty(),
        }
    } else {
        let start = graph_run_end(trimmed, 0);
        GraphScan {
            commits: st.commits,
            fields: st.fields.push(trimmed.skip(start)),
            prefix: if st.fields.len() == 0 {
                trimmed.take(start)
            } else {
                st.prefix
            },
        }
    }
}

pub open spec fn graph_stepper() -> spec_fn(GraphScan, Seq<char>) -> GraphScan {
    |st: GraphScan, line: Seq<char>| graph_step(st, line)
}

/// The commits of `git log --graph` with the pane's format, each with the
/// graph drawing in front of its first field line.
pub open spec fn graph_commits_of(text: Seq<char>) -> Seq<CommitView> {
    lines_of(text).fold_left(
        GraphScan { commits: Seq::empty(), fields: Seq::empty(), prefix: Seq::empty() },
        graph_stepper(),
    ).commits
}

/// Reads the records of `git log --graph` with the pane's format.
pub fn parse_graph_output(text: &str) -> (out: Vec<CommitInfo>)
    ensures
        commits_view(out@) == graph_commits_of(text@),
{
    let chars = chars_of(text);
    let lines = split_lines(&chars);
    let ghost ls = lines_of(text@);
    let ghost start = GraphScan { commits: Seq::empty(), fields: Seq::empty(), prefix: Seq::empty() };
    let mut commits: Vec<CommitInfo> = Vec::new();
    let mut fields: Vec<Vec<char>> = Vec::new();
    let mut prefix: Vec<char> = Vec::new();
    let mut i: usize = 0;
    assert(commits_view(commits@) =~= Seq::empty());
    assert(seqs_of(fields@) =~= Seq::empty());
    assert(prefix@ =~= Seq::empty());
    while i < lines.len()
        invariant
            seqs_of(lines@) == ls,
            i <= lines.len(),
            (GraphScan { commits: commits_view(commits@), fields: seqs_of(fields@), prefix: prefix@ })
                == ls.take(i as int).fold_left(start, graph_stepper()),
        decreases lines.len() - i,
    {
        let line = &lines[i];
        assert(ls[i as int] == line@);
        assert(ls.take(i + 1).drop_last() == ls.take(i as int));
        let trimmed = trim_end(line);
        if ends_with(&trimmed, "---END---") {
            if fields.len() >= 5 {
                push_commit(&mut commits, make_commit(&fields, Some(string_of(&prefix))));
            }
            fields = Vec::new();
            prefix = Vec::new();
            assert(seqs_of(fields@) =~= Seq::empty());
            assert(prefix@ =~= Seq::empty());
        } else {
            let start = graph_end(&trimmed);
            if fields.len() == 0 {
                prefix = slice_chars(&trimmed, 0, start);
                assert(prefix@ =~= trimmed@.take(start as int));
            }
            let content = slice_chars(&trimmed, start, trimmed.len());
            assert(content@ =~= trimmed@.skip(start as int));
            push_seq(&mut fields, content);
        }
        i += 1;
    }
    assert(ls.take(ls.len() as int) == ls);
    commits
}


// ─── Branches ────────────────────────────────────────────────────────

#[derive(Clone, Debug)]
pub struct BranchInfo {
    pub name: String,
    pub is_current: bool,
    pub upstream: Option<String>,
    pub last_commit: String,
}

#[verifier::ext_equal]
pub struct BranchView {
    pub name: Seq<char>,
    pub is_current: bool,
    pub upstream: Option<Seq<char>>,
    pub last_commit: Seq<char>,
}

impl View for BranchInfo {
    type V = BranchView;

    open spec fn view(&self) -> BranchView {
        BranchView {
            name: self.name@,
            is_current: self.is_current,
            upstream: opt_text(self.upstream),
            last_commit: self.last_commit@,
        }
    }
}

pub open spec fn branches_view(v: Seq<BranchInfo>) -> Seq<BranchView> {
    Seq::new(v.len(), |i: int| v[i]@)
}

fn push_branch(v: &mut Vec<BranchInfo>, x: BranchInfo)
    ensures
        branches_view(final(v)@) == branches_view(old(v)@).push(x@),
{
    let ghost xv = x@;
    v.push(x);
    assert(branches_view(v@) =~= branches_view(old(v)@).push(xv));
}

/// The piece at `i`, or nothing.
pub open spec fn piece_or_empty(parts: Seq<Seq<char>>, i: int) -> Seq<char> {
    if 0 <= i < parts.len() {
        parts[i]
    } else {
        Seq::empty()
    }
}

/// The branch described by one line of
/// `git branch --format=%(HEAD)%(refname:short)\t%(upstream:short)\t%(subject)`.
pub open spec fn local_branch_of(line: Seq<char>) -> BranchView {
    let rest = trim_start_char_of(trim_start_char_of(line, '*'), ' ');
    let parts = splitn_of(rest, 3, '\t');
    BranchView {
        name: piece_or_empty(parts, 0),
        is_current: has_prefix(line, seq!['*']),
        upstream: if parts.len() >= 2 && parts[1].len() > 0 {
            Some(parts[1])
        } else {
            None
        },
        last_commit: piece_or_empty(parts, 2),
    }
}

pub open spec fn local_branch_step(acc: Seq<BranchView>, line: Seq<char>) -> Seq<BranchView> {
    if local_branch_of(line).name.len() > 0 {
        acc.push(local_branch_of(line))
    } else {
        acc
    }
}

pub open spec fn local_branch_stepper() -> spec_fn(Seq<BranchView>, Seq<char>) -> Seq<BranchView> {
    |acc: Seq<BranchView>, line: Seq<char>| local_branch_step(acc, line)
}

/// The local branches listed, in order, skipping lines with no name.
pub open spec fn local_branches_of(text: Seq<char>) -> Seq<BranchView> {
    lines_of(text).fold_left(Seq::empty(), local_branch_stepper())
}

fn piece(parts: &Vec<Vec<char>>, i: usize) -> (out: Vec<char>)
    ensures
        out@ == piece_or_empty(seqs_of(parts@), i as int),
{
    if i < parts.len() {
        slice_chars(&parts[i], 0, parts[i].len())
    } else {
        Vec::new()
    }
}

/// Reads the local branches listed by `git branch` with the pane's format.
pub fn parse_local_branches(text: &str) -> (out: Vec<BranchInfo>)
    ensures
        branches_view(out@) == local_branches_of(text@),
{
    let chars = chars_of(text);
    let lines = split_lines(&chars);
    let ghost ls = lines_of(text@);
    let mut out: Vec<BranchInfo> = Vec::new();
    let mut i: usize = 0;
    assert(branches_view(out@) =~= Seq::empty());
    while i < lines.len()
        invariant
            seqs_of(lines@) == ls,
            i <= lines.len(),
            branches_view(out@) == ls.take(i as int).fold_left(Seq::empty(), local_branch_stepper()),
        decreases lines.len() - i,
    {
        let line = &lines[i];
        assert(ls[i as int] == line@);
        assert(ls.take(i + 1).drop_last() == ls.take(i as int));
        let is_current = starts_with_char(line, '*');
        let rest = trim_start_char(&trim_start_char(line, '*'), ' ');
        let parts = splitn(&rest, 3, '\t');
        let name = piece(&parts, 0);
        let upstream = if parts.len() >= 2 && parts[1].len() > 0 {
            Some(string_of(&parts[1]))
        } else {
            None
        };
        let last = piece(&parts, 2);
        if name.len() > 0 {
            let b = BranchInfo {
                name: string_of(&name),
                is_current,
                upstream,
                last_commit: string_of(&last),
            };
            assert(b@ =~= local_branch_of(line@));
            push_branch(&mut out, b);
        }
        i += 1;
    }
    assert(ls.take(ls.len() as int) == ls);
    out
}

/// The branch described by one line of `git branch -r --format=%(refname:short)\t%(subject)`.
pub open spec fn remote_branch_of(line: Seq<char>) -> BranchView {
    let parts = splitn_of(line, 2, '\t');
    BranchView {
        name: piece_or_empty(parts, 0),
        is_current: false,
        upstream: None,
        last_commit: piece_or_empty(parts, 1),
    }
}

pub open spec fn remote_branch_step(acc: Seq<BranchView>, line: Seq<char>) -> Seq<BranchView> {
    let b = remote_branch_of(line);
    if b.name.len() > 0 && !has_suffix(b.name, "/HEAD"@) {
        acc.push(b)
    } else {
        acc
    }
}

pub open spec fn remote_branch_stepper() -> spec_fn(Seq<BranchView>, Seq<char>) -> Seq<BranchView> {
    |acc: Seq<BranchView>, line: Seq<char>| remote_branch_step(acc, line)
}

/// The remote-tracking branches listed, in order, without the `…/HEAD` pointers.
pub open spec fn remote_branches_of(text: Seq<char>) -> Seq<BranchView> {
    lines_of(text).fold_left(Seq::empty(), remote_branch_stepper())
}

/// Reads the remote-tracking branches listed by `git branch -r` with the pane's format.
pub fn parse_remote_branches(text: &str) -> (out: Vec<BranchInfo>)
    ensures
        branches_view(out@) == remote_branches_of(text@),
{
    let chars = chars_of(text);
    let lines = split_lines(&chars);
    let ghost ls = lines_of(text@);
    let mut out: Vec<BranchInfo> = Vec::new();
    let mut i: usize = 0;
    assert(branches_view(out@) =~= Seq::empty());
    while i < lines.len()
        invariant
            seqs_of(lines@) == ls,
            i <= lines.len(),
            branches_view(out@) == ls.take(i as int).fold_left(Seq::empty(), remote_branch_stepper()),
        decreases lines.len() - i,
    {
        let line = &lines[i];
        assert(ls[i as int] == line@);
        assert(ls.take(i + 1).drop_last() == ls.take(i as int));
        let parts = splitn(line, 2, '\t');
        let name = piece(&parts, 0);
        let last = piece(&parts, 1);
        if name.len() > 0 && !ends_with(&name, "/HEAD") {
            let b = BranchInfo {
                name: string_of(&name),
                is_current: false,
                upstream: None,
                last_commit: string_of(&last),
            };
            assert(b@ =~= remote_branch_of(line@));
            push_branch(&mut out, b);
        }
        i += 1;
    }
    assert(ls.take(ls.len() as int) == ls);
    out
}

// ─── Stash ───────────────────────────────────────────────────────────

#[derive(Clone, Debug)]
pub struct StashEntry {
    pub index: usize,
    pub message: String,
}

#[verifier::ext_equal]
pub struct StashView {
    pub index: nat,
    pub message: Seq<char>,
}

impl View for StashEntry {
    type V = StashView;

    open spec fn view(&self) -> StashView {
        StashView { index: self.index as nat, message: self.message@ }
    }
}

pub open spec fn stashes_view(v: Seq<StashEntry>) -> Seq<StashView> {
    Seq::new(v.len(), |i: int| v[i]@)
}

/// The number in a `stash@{N}` reference, 0 when there is none.
pub open spec fn stash_index_of(field: Seq<char>) -> nat {
    if has_prefix(field, "stash@{"@) {
        let rest = field.skip("stash@{"@.len() as int);
        if has_suffix(rest, seq!['}']) {
            match parse_unsigned(rest.drop_last(), usize::MAX as nat) {
                Some(v) => v,
                None => 0,
            }
        } else {
            0
        }
    } else {
        0
    }
}

pub open spec fn stash_step(acc: Seq<StashView>, line: Seq<char>) -> Seq<StashView> {
    let parts = splitn_of(line, 2, '\t');
    if parts.len() >= 2 {
        acc.push(StashView { index: stash_index_of(parts[0]), message: parts[1] })
    } else {
        acc
    }
}

pub open spec fn stash_stepper() -> spec_fn(Seq<StashView>, Seq<char>) -> Seq<StashView> {
    |acc: Seq<StashView>, line: Seq<char>| stash_step(acc, line)
}

/// The stashes listed by `git stash list --format=%gd\t%gs`: every line
/// with a tab, in order.
pub open spec fn stashes_of(text: Seq<char>) -> Seq<StashView> {
    lines_of(text).fold_left(Seq::empty(), stash_stepper())
}

fn stash_index(field: &[char]) -> (r: usize)
    ensures
        r as nat == stash_index_of(field@),
{
    match strip_prefix(field, "stash@{") {
        Some(rest) => {
            if rest.len() > 0 && rest[rest.len() - 1] == '}' {
                let digits = slice_chars(&rest, 0, rest.len() - 1);
                assert(digits@ =~= rest@.drop_last());
                assert(rest@.skip(rest@.len() - 1) =~= seq![rest@.last()]);
                match parse_usize(&digits) {
                    Some(v) => v,
                    None => 0,
                }
            } else {
                proof {
                    if rest@.len() > 0 {
                        assert(rest@.skip(rest@.len() - 1)[0] == rest@.last());
                    }
                }
                0
            }
        },
        None => 0,
    }
}

/// Reads the stashes listed by `git stash list` with the pane's format.
pub fn parse_stash_list(text: &str) -> (out: Vec<StashEntry>)
    ensures
        stashes_view(out@) == stashes_of(text@),
{
    let chars = chars_of(text);
    let lines = split_lines(&chars);
    let ghost ls = lines_of(text@);
    let mut out: Vec<StashEntry> = Vec::new();
    let mut i: usize = 0;
    assert(stashes_view(out@) =~= Seq::empty());
    while i < lines.len()
        invariant
            seqs_of(lines@) == ls,
            i <= lines.len(),
            stashes_view(out@) == ls.take(i as int).fold_left(Seq::empty(), stash_stepper()),
        decreases lines.len() - i,
    {
        let line = &lines[i];
        assert(ls[i as int] == line@);
        assert(ls.take(i + 1).drop_last() == ls.take(i as int));
        let parts = splitn(line, 2, '\t');
        if parts.len() >= 2 {
            let e = StashEntry { index: stash_index(&parts[0]), message: string_of(&parts[1]) };
            let ghost ev = e@;
            let ghost before = stashes_view(out@);
            out.push(e);
            assert(stashes_view(out@) =~= before.push(ev));
        }
        i += 1;
    }
    assert(ls.take(ls.len() as int) == ls);
    out
}

// ─── Blame ───────────────────────────────────────────────────────────

#[derive(Clone, Debug)]
pub struct BlameLine {
    pub hash: String,
    pub author: String,
    pub date: String,
    pub line_number: usize,
    pub content: String,
}

#[verifier::ext_equal]
pub struct BlameView {
    pub hash: Seq<char>,
    pub author: Seq<char>,
    pub date: Seq<char>,
    pub line_number: nat,
    pub content: Seq<char>,
}

impl View for BlameLine {
    type V = BlameView;

    open spec fn view(&self) -> BlameView {
        BlameView {
            hash: self.hash@,
            author: self.author@,
            date: self.date@,
            line_number: self.line_number as nat,
            content: self.content@,
        }
    }
}

pub open spec fn blames_view(v: Seq<BlameLine>) -> Seq<BlameView> {
    Seq::new(v.len(), |i: int| v[i]@)
}

pub open spec fn is_hex_digit(c: char) -> bool {
    ('0' <= c && c <= '9') || ('a' <= c && c <= 'f') || ('A' <= c && c <= 'F')
}

/// A full commit hash: forty hexadecimal digits.
pub open spec fn is_full_hash(s: Seq<char>) -> bool {
    s.len() == 40 && forall|i: int| 0 <= i < s.len() ==> is_hex_digit(#[trigger] s[i])
}

fn full_hash(s: &[char]) -> (r: bool)
    ensures
        r == is_full_hash(s@),
{
    if s.len() != 40 {
        return false;
    }
    let mut i: usize = 0;
    while i < s.len()
        invariant
            s@.len() == 40,
            i <= s.len(),
            forall|j: int| 0 <= j < i ==> is_hex_digit(#[trigger] s@[j]),
        decreases s.len() - i,
    {
        let c = s[i];
        if !(('0' <= c && c <= '9') || ('a' <= c && c <= 'f') || ('A' <= c && c <= 'F')) {
            return false;
        }
        i += 1;
    }
    true
}

#[verifier::ext_equal]
pub struct BlameScan {
    pub lines: Seq<BlameView>,
    pub hash: Seq<char>,
    pub author: Seq<char>,
    pub date: Seq<char>,
    pub line_number: nat,
}

/// One line of `git blame --porcelain`.
pub open spec fn blame_step(st: BlameScan, line: Seq<char>) -> BlameScan {
    if has_prefix(line, seq!['\t']) {
        BlameScan {
            lines: st.lines.push(
                BlameView {
                    hash: st.hash,
                    author: st.author,
                    date: st.date,
                    line_number: st.line_number,
                    content: line.skip(1),
                },
            ),
            ..st
        }
    } else if has_prefix(line, "author "@) {
        BlameScan { author: line.skip("author "@.len() as int), ..st }
    } else if has_prefix(line, "author-time "@) {
        BlameScan { date: line.skip("author-time "@.len() as int), ..st }
    } else {
        let parts = words_of(line);
        if parts.len() > 0 && is_full_hash(parts[0]) {
            BlameScan {
                hash: parts[0].take(8),
                line_number: if parts.len() > 2 {
                    match parse_unsigned(parts[2], usize::MAX as nat) {
                        Some(v) => v,
                        None => 0,
                    }
                } else {
                    st.line_number
                },
                ..st
            }
        } else {
            st
        }
    }
}

pub open spec fn blame_stepper() -> spec_fn(BlameScan, Seq<char>) -> BlameScan {
    |st: BlameScan, line: Seq<char>| blame_step(st, line)
}

/// The attributed lines of `git blame --porcelain`: each content line with
/// the short hash, author, time and final line number last announced.
pub open spec fn blame_lines_of(text: Seq<char>) -> Seq<BlameView> {
    lines_of(text).fold_left(
        BlameScan {
            lines: Seq::empty(),
            hash: Seq::empty(),
            author: Seq::empty(),
            date: Seq::empty(),
            line_number: 0,
        },
        blame_stepper(),
    ).lines
}

/// The author named by the last `author` line among the first `i` lines,
/// empty when there is none.
pub open spec fn author_before(ls: Seq<Seq<char>>, i: int) -> Seq<char>
    decreases i,
{
    if i <= 0 {
        Seq::empty()
    } else if has_prefix(ls[i - 1], "author "@) {
        ls[i - 1].skip(7)
    } else {
        author_before(ls, i - 1)
    }
}

/// The time given by the last `author-time` line among the first `i`
/// lines, empty when there is none.
pub open spec fn date_before(ls: Seq<Seq<char>>, i: int) -> Seq<char>
    decreases i,
{
    if i <= 0 {
        Seq::empty()
    } else if has_prefix(ls[i - 1], "author-time "@) {
        ls[i - 1].skip(12)
    } else {
        date_before(ls, i - 1)
    }
}

/// A header line of the porcelain format: a full commit hash first, then
/// line numbers (neither a content line nor an author or time line).
pub open spec fn is_blame_header(line: Seq<char>) -> bool {
    &&& !has_prefix(line, seq!['\t'])
    &&& !has_prefix(line, "author "@)
    &&& !has_prefix(line, "author-time "@)
    &&& words_of(line).len() > 0
    &&& is_full_hash(words_of(line)[0])
}

/// The short hash of the last header line among the first `i` lines,
/// empty when there is none.
pub open spec fn hash_before(ls: Seq<Seq<char>>, i: int) -> Seq<char>
    decreases i,
{
    if i <= 0 {
        Seq::empty()
    } else if is_blame_header(ls[i - 1]) {
        words_of(ls[i - 1])[0].take(8)
    } else {
        hash_before(ls, i - 1)
    }
}

/// The final line number given by the last header line with one, among
/// the first `i` lines (its third field; 0 when that is not a number or
/// there is none).
pub open spec fn line_number_before(ls: Seq<Seq<char>>, i: int) -> nat
    decreases i,
{
    if i <= 0 {
        0
    } else if is_blame_header(ls[i - 1]) && words_of(ls[i - 1]).len() > 2 {
        match parse_unsigned(words_of(ls[i - 1])[2], usize::MAX as nat) {
            Some(v) => v,
            None => 0,
        }
    } else {
        line_number_before(ls, i - 1)
    }
}

/// How many of the first `i` lines are content lines (starting with a tab).
pub open spec fn tab_count(ls: Seq<Seq<char>>, i: int) -> nat
    decreases i,
{
    if i <= 0 {
        0
    } else if has_prefix(ls[i - 1], seq!['\t']) {
        tab_count(ls, i - 1) + 1
    } else {
        tab_count(ls, i - 1)
    }
}

/// Whether `b` is the `k`th content line, found at line `q`: its text, and
/// the hash, author and time last given before it.
pub open spec fn blamed_from(ls: Seq<Seq<char>>, q: int, b: BlameView, k: int) -> bool {
    &&& 0 <= q < ls.len()
    &&& has_prefix(ls[q], seq!['\t'])
    &&& tab_count(ls, q) == k
    &&& b.content == ls[q].skip(1)
    &&& b.hash == hash_before(ls, q)
    &&& b.line_number == line_number_before(ls, q)
    &&& b.author == author_before(ls, q)
    &&& b.date == date_before(ls, q)
}

/// Whether `b` is the `k`th content line, found before line `i`.
pub open spec fn blamed_before(ls: Seq<Seq<char>>, b: BlameView, k: int, i: int) -> bool {
    exists|q: int| q < i && #[trigger] blamed_from(ls, q, b, k)
}

proof fn lemma_blame_scan(ls: Seq<Seq<char>>, i: int)
    requires
        0 <= i <= ls.len(),
    ensures
        ({
            let st = ls.take(i).fold_left(
                BlameScan { lines: Seq::empty(), hash: Seq::empty(), author: Seq::empty(), date: Seq::empty(), line_number: 0 },
                blame_stepper(),
            );
            &&& st.author == author_before(ls, i)
            &&& st.date == date_before(ls, i)
            &&& st.hash == hash_before(ls, i)
            &&& st.line_number == line_number_before(ls, i)
            &&& st.lines.len() == tab_count(ls, i)
            &&& forall|k: int| 0 <= k < st.lines.len() ==> #[trigger] blamed_before(ls, st.lines[k], k, i)
        }),
    decreases i,
{
    let start = BlameScan { lines: Seq::empty(), hash: Seq::empty(), author: Seq::empty(), date: Seq::empty(), line_number: 0 };
    if i == 0 {
        assert(ls.take(0) =~= Seq::<Seq<char>>::empty());
    } else {
        lemma_blame_scan(ls, i - 1);
        let t = ls.take(i);
        assert(t.drop_last() =~= ls.take(i - 1));
        assert(t.last() == ls[i - 1]);
        let st0 = ls.take(i - 1).fold_left(start, blame_stepper());
        let st = t.fold_left(start, blame_stepper());
        assert(st == blame_step(st0, ls[i - 1]));
        let line = ls[i - 1];
        reveal_strlit("author ");
        reveal_strlit("author-time ");
        if has_prefix(line, seq!['\t']) {
            assert(line.take(1)[0] == line[0]);
            assert(!has_prefix(line, "author "@)) by {
                if has_prefix(line, "author "@) {
                    assert(line.take(7)[0] == line[0]);
                }
            }
            assert(!has_prefix(line, "author-time "@)) by {
                if has_prefix(line, "author-time "@) {
                    assert(line.take(12)[0] == line[0]);
                }
            }
            assert forall|k: int| 0 <= k < st.lines.len() implies #[trigger] blamed_before(ls, st.lines[k], k, i) by {
                if k < st0.lines.len() {
                    assert(st.lines[k] == st0.lines[k]);
                    assert(blamed_before(ls, st0.lines[k], k, i - 1));
                    let q = choose|q: int| q < i - 1 && #[trigger] blamed_from(ls, q, st0.lines[k], k);
                    assert(blamed_from(ls, q, st.lines[k], k));
                } else {
                    assert(blamed_from(ls, i - 1, st.lines[k], k));
                }
            }
        } else {
            if has_prefix(line, "author "@) {
                assert(!has_prefix(line, "author-time "@)) by {
                    assert(line.take(7)[6] == line[6]);
                    if has_prefix(line, "author-time "@) {
                        assert(line.take(12)[6] == line[6]);
                    }
                }
            }
            assert(st.lines == st0.lines);
            assert forall|k: int| 0 <= k < st.lines.len() implies #[trigger] blamed_before(ls, st.lines[k], k, i) by {
                assert(st0.lines[k] == st.lines[k]);
                assert(blamed_before(ls, st0.lines[k], k, i - 1));
                let q = choose|q: int| q < i - 1 && #[trigger] blamed_from(ls, q, st0.lines[k], k);
                assert(blamed_from(ls, q, st.lines[k], k));
            }
        }
    }
}

/// Each attributed line of `git blame --porcelain` is, in order, one of
/// its content lines (those starting with a tab), without the tab; its
/// hash is that of the last header line before it, its line number the
/// final line number of the last header line giving one, and its author and time
/// those of the last `author` and `author-time` lines before it, which a
/// header line does not reset.
pub proof fn law_blame_attribution(text: Seq<char>)
    ensures
        blame_lines_of(text).len() == tab_count(lines_of(text), lines_of(text).len() as int),
        forall|k: int| 0 <= k < blame_lines_of(text).len() ==> #[trigger] blamed_before(
            lines_of(text),
            blame_lines_of(text)[k],
            k,
            lines_of(text).len() as int,
        ),
{
    let ls = lines_of(text);
    lemma_blame_scan(ls, ls.len() as int);
    assert(ls.take(ls.len() as int) =~= ls);
}

fn copy_string(s: &Vec<char>) -> (out: String)
    ensures
        out@ == s@,
{
    string_of(s)
}

/// Reads `git blame --porcelain`.
pub fn parse_blame_output(text: &str) -> (out: Result<Vec<BlameLine>, String>)
    ensures
        out matches Ok(v) && blames_view(v@) == blame_lines_of(text@),
{
    let chars = chars_of(text);
    let lines = split_lines(&chars);
    let ghost ls = lines_of(text@);
    let ghost start = BlameScan {
        lines: Seq::empty(),
        hash: Seq::empty(),
        author: Seq::empty(),
        date: Seq::empty(),
        line_number: 0,
    };
    let mut out: Vec<BlameLine> = Vec::new();
    let mut hash: Vec<char> = Vec::new();
    let mut author: Vec<char> = Vec::new();
    let mut date: Vec<char> = Vec::new();
    let mut line_number: usize = 0;
    let mut i: usize = 0;
    assert(blames_view(out@) =~= Seq::empty());
    assert(hash@ =~= Seq::empty());
    assert(author@ =~= Seq::empty());
    assert(date@ =~= Seq::empty());
    while i < lines.len()
        invariant
            seqs_of(lines@) == ls,
            i <= lines.len(),
            (BlameScan {
                lines: blames_view(out@),
                hash: hash@,
                author: author@,
                date: date@,
                line_number: line_number as nat,
            }) == ls.take(i as int).fold_left(start, blame_stepper()),
        decreases lines.len() - i,
    {
        let line = &lines[i];
        assert(ls[i as int] == line@);
        assert(ls.take(i + 1).drop_last() == ls.take(i as int));
        if starts_with_char(line, '\t') {
            let b = BlameLine {
                hash: copy_string(&hash),
                author: copy_string(&author),
                date: copy_string(&date),
                line_number,
                content: string_of(&slice_chars(line, 1, line.len())),
            };
            let ghost bv = b@;
            assert(bv.content =~= line@.skip(1));
            let ghost before = blames_view(out@);
            out.push(b);
            assert(blames_view(out@) =~= before.push(bv));
        } else if let Some(rest) = strip_prefix(line, "author ") {
            author = rest;
        } else if let Some(rest) = strip_prefix(line, "author-time ") {
            date = rest;
        } else {
            let parts = split_whitespace(line);
            assert(seqs_of(parts@) == words_of(line@));
            if parts.len() > 0 && full_hash(&parts[0]) {
                hash = slice_chars(&parts[0], 0, 8);
                assert(hash@ =~= parts@[0]@.take(8));
                if parts.len() > 2 {
                    line_number = match parse_usize(&parts[2]) {
                        Some(v) => v,
                        None => 0,
                    };
                }
            }
        }
        i += 1;
    }
    assert(ls.take(ls.len() as int) == ls);
    Ok(out)
}

} // verus!
