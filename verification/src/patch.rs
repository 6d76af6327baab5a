//! Patch review: hunks of the working tree marked one by one, with the
//! texts drafted from the marks and the brief exported for a branch.
use vstd::prelude::*;

use crate::git::{diff_lines_view, hunks_view, DiffHunk, DiffHunkView, DiffLineView};
use crate::text::{
    append_chars, append_str, chars_eq, chars_of, decimal_digits, has_prefix, join_lines,
    join_with_newlines, lines_of, push_decimal, push_seq, replace_char, replace_char_of,
    seqs_of, slice_chars, split_lines, starts_with, starts_with_char, string_of,
};

verus! {

broadcast use vstd::string::group_string_axioms;

#[derive(Clone, Copy, Debug, PartialEq, Eq, Structural)]
pub enum HunkStatus {
    Unreviewed,
    Reviewed,
    Risky,
    FollowUp,
}

/// The mark shown in front of a hunk.
pub open spec fn status_icon(s: HunkStatus) -> Seq<char> {
    match s {
        HunkStatus::Unreviewed => "\u{00B7}"@,
        HunkStatus::Reviewed => "\u{2713}"@,
        HunkStatus::Risky => "\u{2691}"@,
        HunkStatus::FollowUp => "?"@,
    }
}

/// The style class of a hunk's row.
pub open spec fn status_css(s: HunkStatus) -> Seq<char> {
    match s {
        HunkStatus::Unreviewed => "status-unreviewed"@,
        HunkStatus::Reviewed => "status-reviewed"@,
        HunkStatus::Risky => "status-risky"@,
        HunkStatus::FollowUp => "status-followup"@,
    }
}

/// The word for a mark.
pub open spec fn status_label(s: HunkStatus) -> Seq<char> {
    match s {
        HunkStatus::Unreviewed => "unreviewed"@,
        HunkStatus::Reviewed => "reviewed"@,
        HunkStatus::Risky => "risky"@,
        HunkStatus::FollowUp => "follow-up"@,
    }
}

impl HunkStatus {
    /// The mark shown in front of a hunk.
    pub fn icon(&self) -> (s: &'static str)
        ensures
            s@ == status_icon(*self),
    {
        match self {
            HunkStatus::Unreviewed => "\u{00B7}",
            HunkStatus::Reviewed => "\u{2713}",
            HunkStatus::Risky => "\u{2691}",
            HunkStatus::FollowUp => "?",
        }
    }

    /// The style class of a hunk's row.
    pub fn css_class(&self) -> (s: &'static str)
        ensures
            s@ == status_css(*self),
    {
        match self {
            HunkStatus::Unreviewed => "status-unreviewed",
            HunkStatus::Reviewed => "status-reviewed",
            HunkStatus::Risky => "status-risky",
            HunkStatus::FollowUp => "status-followup",
        }
    }

    /// The word for a mark.
    pub fn label(&self) -> (s: &'static str)
        ensures
            s@ == status_label(*self),
    {
        match self {
            HunkStatus::Unreviewed => "unreviewed",
            HunkStatus::Reviewed => "reviewed",
            HunkStatus::Risky => "risky",
            HunkStatus::FollowUp => "follow-up",
        }
    }
}

/// The style class of a diff line shown in the detail view.
pub open spec fn diff_line_class_of(line: Seq<char>) -> Seq<char> {
    if has_prefix(line, seq!['+']) {
        "magma-git-line-added"@
    } else if has_prefix(line, seq!['-']) {
        "magma-git-line-removed"@
    } else {
        "magma-git-line-context"@
    }
}

/// The style class of a diff line shown in the detail view.
pub fn diff_line_class(line: &str) -> (s: &'static str)
    ensures
        s@ == diff_line_class_of(line@),
{
    let c = chars_of(line);
    if starts_with_char(&c, '+') {
        "magma-git-line-added"
    } else if starts_with_char(&c, '-') {
        "magma-git-line-removed"
    } else {
        "magma-git-line-context"
    }
}

/// The lines of a hunk joined by newlines.
pub open spec fn hunk_text_of(lines: Seq<DiffLineView>) -> Seq<char>
    decreases lines.len(),
{
    if lines.len() == 0 {
        Seq::empty()
    } else if lines.len() == 1 {
        lines[0].content
    } else {
        hunk_text_of(lines.drop_last()).push('\n') + lines.last().content
    }
}

/// The text of a hunk: its lines joined by newlines.
pub fn format_hunk_text(hunk: &DiffHunk) -> (out: String)
    ensures
        out@ == hunk_text_of(hunk@.lines),
{
    let ghost ls = hunk@.lines;
    let mut text: Vec<char> = Vec::new();
    let mut i: usize = 0;
    while i < hunk.lines.len()
        invariant
            ls == diff_lines_view(hunk.lines@),
            i <= hunk.lines.len(),
            text@ == hunk_text_of(ls.take(i as int)),
        decreases hunk.lines.len() - i,
    {
        assert(ls.take(i + 1).drop_last() =~= ls.take(i as int));
        if i > 0 {
            text.push('\n');
        }
        let line = chars_of(hunk.lines[i].content.as_str());
        append_chars(&mut text, &line);
        assert(ls.take(i + 1).last() == ls[i as int]);
        assert(i == 0 ==> text@ =~= ls.take(1)[0].content);
        i += 1;
    }
    assert(ls.take(ls.len() as int) =~= ls);
    string_of(&text)
}

// ─── The review's list and detail ────────────────────────────────────

/// A row of the hunk list: a file's heading, or a hunk with its mark, its
/// label and whether it is the selected one.
pub enum HunkListRow {
    FileHeader(String),
    Hunk { position: usize, status: HunkStatus, label: String, selected: bool },
}

pub enum RowView {
    FileHeader(Seq<char>),
    Hunk { position: nat, status: HunkStatus, label: Seq<char>, selected: bool },
}

pub open spec fn row_view(r: HunkListRow) -> RowView {
    match r {
        HunkListRow::FileHeader(f) => RowView::FileHeader(f@),
        HunkListRow::Hunk { position, status, label, selected } => RowView::Hunk {
            position: position as nat,
            status,
            label: label@,
            selected,
        },
    }
}

pub open spec fn rows_view(v: Seq<HunkListRow>) -> Seq<RowView> {
    Seq::new(v.len(), |i: int| row_view(v[i]))
}

/// The rows for the first `n` hunks, and the file last headed: a heading
/// where the file changes, then a row `hunk k` (counted from 1) per hunk.
pub open spec fn hunk_rows_of(hunks: Seq<PatchHunkView>, selected: nat, n: nat) -> (Seq<RowView>, Seq<char>)
    decreases n,
{
    if n == 0 {
        (Seq::empty(), Seq::empty())
    } else {
        let (rows, current) = hunk_rows_of(hunks, selected, (n - 1) as nat);
        let h = hunks[n - 1];
        let headed = if h.file != current {
            rows.push(RowView::FileHeader(h.file))
        } else {
            rows
        };
        (
            headed.push(
                RowView::Hunk {
                    position: (n - 1) as nat,
                    status: h.status,
                    label: "hunk "@ + decimal_digits(h.hunk_index + 1),
                    selected: n - 1 == selected,
                },
            ),
            h.file,
        )
    }
}

fn push_row(v: &mut Vec<HunkListRow>, r: HunkListRow)
    ensures
        rows_view(final(v)@) == rows_view(old(v)@).push(row_view(r)),
{
    let ghost rv = row_view(r);
    v.push(r);
    assert(rows_view(v@) =~= rows_view(old(v)@).push(rv));
}

/// The rows of the hunk list, with the hunk at `selected` marked.
pub fn hunk_list_rows(hunks: &Vec<PatchHunk>, selected: usize) -> (out: Vec<HunkListRow>)
    requires
        forall|i: int| 0 <= i < hunks@.len() ==> #[trigger] hunks@[i].hunk_index < usize::MAX,
    ensures
        rows_view(out@) == hunk_rows_of(patch_hunks_view(hunks@), selected as nat, hunks@.len()).0,
{
    let ghost hv = patch_hunks_view(hunks@);
    let mut out: Vec<HunkListRow> = Vec::new();
    let mut current: Vec<char> = Vec::new();
    let mut i: usize = 0;
    assert(rows_view(out@) =~= Seq::empty());
    assert(current@ =~= Seq::empty());
    while i < hunks.len()
        invariant
            i <= hunks.len(),
            hv == patch_hunks_view(hunks@),
            forall|k: int| 0 <= k < hunks@.len() ==> #[trigger] hunks@[k].hunk_index < usize::MAX,
            (rows_view(out@), current@) == hunk_rows_of(hv, selected as nat, i as nat),
        decreases hunks.len() - i,
    {
        let h = &hunks[i];
        assert(hv[i as int] == h@);
        let file = chars_of(h.file.as_str());
        if !chars_eq(&file, &current) {
            push_row(&mut out, HunkListRow::FileHeader(h.file.clone()));
        }
        let mut label = chars_of("hunk ");
        push_decimal(&mut label, (h.hunk_index + 1) as u64);
        push_row(&mut out, HunkListRow::Hunk { position: i, status: h.status, label: string_of(&label), selected: i == selected });
        current = file;
        i += 1;
    }
    out
}

/// The lines of a hunk's detail, each with the style class of its kind.
pub open spec fn detail_lines_of(diff_text: Seq<char>) -> Seq<(Seq<char>, Seq<char>)> {
    let ls = lines_of(diff_text);
    Seq::new(ls.len(), |i: int| (ls[i], diff_line_class_of(ls[i])))
}

/// The lines of a hunk's detail, each with the style class of its kind.
pub fn detail_lines(diff_text: &str) -> (out: Vec<(String, &'static str)>)
    ensures
        Seq::new(out@.len(), |i: int| (out@[i].0@, out@[i].1@)) == detail_lines_of(diff_text@),
{
    let ls = split_lines(&chars_of(diff_text));
    let ghost lv = lines_of(diff_text@);
    let mut out: Vec<(String, &'static str)> = Vec::new();
    let mut i: usize = 0;
    while i < ls.len()
        invariant
            i <= ls.len(),
            seqs_of(ls@) == lv,
            lv == lines_of(diff_text@),
            Seq::new(out@.len(), |k: int| (out@[k].0@, out@[k].1@)) == detail_lines_of(diff_text@).take(i as int),
        decreases ls.len() - i,
    {
        let line = string_of(&ls[i]);
        assert(lv[i as int] == ls@[i as int]@);
        let class = diff_line_class(line.as_str());
        let ghost prev = Seq::new(out@.len(), |k: int| (out@[k].0@, out@[k].1@));
        let ghost item = (line@, class@);
        out.push((line, class));
        assert(Seq::new(out@.len(), |k: int| (out@[k].0@, out@[k].1@)) =~= prev.push(item));
        assert(detail_lines_of(diff_text@).take(i + 1) =~= detail_lines_of(diff_text@).take(i as int).push(item));
        i += 1;
    }
    assert(detail_lines_of(diff_text@).take(ls.len() as int) =~= detail_lines_of(diff_text@));
    out
}

// ─── Sessions ────────────────────────────────────────────────────────

#[derive(Clone, Debug)]
pub struct PatchHunk {
    pub file: String,
    pub hunk_index: usize,
    pub header: String,
    pub diff_text: String,
    pub annotation: String,
    pub status: HunkStatus,
}

#[derive(Clone, Debug)]
pub struct PatchSession {
    pub branch: String,
    pub hunks: Vec<PatchHunk>,
    pub commit_scope_draft: String,
}

#[verifier::ext_equal]
pub struct PatchHunkView {
    pub file: Seq<char>,
    pub hunk_index: nat,
    pub header: Seq<char>,
    pub diff_text: Seq<char>,
    pub annotation: Seq<char>,
    pub status: HunkStatus,
}

impl View for PatchHunk {
    type V = PatchHunkView;

    open spec fn view(&self) -> PatchHunkView {
        PatchHunkView {
            file: self.file@,
            hunk_index: self.hunk_index as nat,
            header: self.header@,
            diff_text: self.diff_text@,
            annotation: self.annotation@,
            status: self.status,
        }
    }
}

pub open spec fn patch_hunks_view(v: Seq<PatchHunk>) -> Seq<PatchHunkView> {
    Seq::new(v.len(), |i: int| v[i]@)
}

fn push_patch_hunk(v: &mut Vec<PatchHunk>, x: PatchHunk)
    ensures
        patch_hunks_view(final(v)@) == patch_hunks_view(old(v)@).push(x@),
{
    let ghost xv = x@;
    v.push(x);
    assert(patch_hunks_view(v@) =~= patch_hunks_view(old(v)@).push(xv));
}

/// Sets the mark of the hunk at `idx`; says whether there was one.
pub fn set_hunk_status(session: &mut PatchSession, idx: usize, status: HunkStatus) -> (changed: bool)
    ensures
        changed == (idx < old(session).hunks.len()),
        final(session).branch == old(session).branch,
        final(session).commit_scope_draft == old(session).commit_scope_draft,
        changed ==> patch_hunks_view(final(session).hunks@) == patch_hunks_view(
            old(session).hunks@,
        ).update(idx as int, PatchHunkView { status, ..old(session).hunks@[idx as int]@ }),
        !changed ==> patch_hunks_view(final(session).hunks@) == patch_hunks_view(
            old(session).hunks@,
        ),
{
    if idx >= session.hunks.len() {
        return false;
    }
    let ghost before = patch_hunks_view(session.hunks@);
    let mut h = session.hunks.remove(idx);
    h.status = status;
    session.hunks.insert(idx, h);
    assert(patch_hunks_view(session.hunks@) =~= before.update(
        idx as int,
        PatchHunkView { status, ..before[idx as int] },
    ));
    true
}

/// The new selection after moving it by `delta` in a list of `count` hunks.
pub open spec fn moved_selection(current: int, delta: int, count: int) -> int {
    if current + delta < 0 {
        0
    } else if current + delta > count - 1 {
        count - 1
    } else {
        current + delta
    }
}

/// The selection after moving by `delta`, kept inside a list of `count`
/// hunks; `None` when the list is empty or the selection stays put.
pub fn move_selection(current: usize, delta: i32, count: usize) -> (r: Option<usize>)
    requires
        count <= i32::MAX,
        current <= i32::MAX,
        i32::MIN <= current + delta <= i32::MAX,
    ensures
        count == 0 ==> r is None,
        count > 0 ==> match r {
            Some(next) => next as int == moved_selection(current as int, delta as int, count as int)
                && next != current,
            None => moved_selection(current as int, delta as int, count as int) == current,
        },
        r matches Some(next) ==> next < count,
{
    if count == 0 {
        return None;
    }
    let target = current as i32 + delta;
    let hi = count as i32 - 1;
    let next = if target < 0 {
        0
    } else if target > hi {
        hi
    } else {
        target
    } as usize;
    if next == current {
        None
    } else {
        Some(next)
    }
}

/// The first saved hunk at or after `k` with the given file, index and
/// header, or -1.
pub open spec fn saved_index_from(
    saved: Seq<PatchHunkView>,
    file: Seq<char>,
    idx: nat,
    header: Seq<char>,
    k: int,
) -> int
    decreases saved.len() - k,
{
    if k < 0 || k >= saved.len() {
        -1
    } else if saved[k].file == file && saved[k].hunk_index == idx && saved[k].header == header {
        k
    } else {
        saved_index_from(saved, file, idx, header, k + 1)
    }
}

/// A fresh hunk for review, keeping the note and mark saved for the same
/// file, index and header.
pub open spec fn review_hunk_of(
    file: Seq<char>,
    idx: nat,
    hunk: DiffHunkView,
    saved: Seq<PatchHunkView>,
) -> PatchHunkView {
    let k = saved_index_from(saved, file, idx, hunk.header, 0);
    PatchHunkView {
        file,
        hunk_index: idx,
        header: hunk.header,
        diff_text: hunk_text_of(hunk.lines),
        annotation: if 0 <= k < saved.len() {
            saved[k].annotation
        } else {
            Seq::empty()
        },
        status: if 0 <= k < saved.len() {
            saved[k].status
        } else {
            HunkStatus::Unreviewed
        },
    }
}

/// The review hunks of one file's diff hunks.
pub open spec fn review_hunks_of_file(
    file: Seq<char>,
    hunks: Seq<DiffHunkView>,
    saved: Seq<PatchHunkView>,
) -> Seq<PatchHunkView> {
    Seq::new(hunks.len(), |j: int| review_hunk_of(file, j as nat, hunks[j], saved))
}

pub open spec fn review_step(
    acc: Seq<PatchHunkView>,
    entry: (Seq<char>, Seq<DiffHunkView>),
    saved: Seq<PatchHunkView>,
) -> Seq<PatchHunkView> {
    acc + review_hunks_of_file(entry.0, entry.1, saved)
}

pub open spec fn review_stepper(saved: Seq<PatchHunkView>) -> spec_fn(
    Seq<PatchHunkView>,
    (Seq<char>, Seq<DiffHunkView>),
) -> Seq<PatchHunkView> {
    |acc: Seq<PatchHunkView>, entry: (Seq<char>, Seq<DiffHunkView>)| review_step(acc, entry, saved)
}

/// Every hunk of every file, in order, with saved notes and marks carried over.
pub open spec fn review_hunks_of(
    files: Seq<(Seq<char>, Seq<DiffHunkView>)>,
    saved: Seq<PatchHunkView>,
) -> Seq<PatchHunkView> {
    files.fold_left(Seq::empty(), review_stepper(saved))
}

fn find_saved(saved: &Vec<PatchHunk>, file: &[char], idx: usize, header: &[char]) -> (r: Option<
    usize,
>)
    ensures
        match r {
            Some(k) => k as int == saved_index_from(
                patch_hunks_view(saved@),
                file@,
                idx as nat,
                header@,
                0,
            ) && k < saved.len(),
            None => saved_index_from(patch_hunks_view(saved@), file@, idx as nat, header@, 0) == -1,
        },
{
    let ghost sv = patch_hunks_view(saved@);
    let mut k: usize = 0;
    while k < saved.len()
        invariant
            sv == patch_hunks_view(saved@),
            k <= saved.len(),
            saved_index_from(sv, file@, idx as nat, header@, 0) == saved_index_from(
                sv,
                file@,
                idx as nat,
                header@,
                k as int,
            ),
        decreases saved.len() - k,
    {
        let f = chars_of(saved[k].file.as_str());
        let h = chars_of(saved[k].header.as_str());
        if crate::text::chars_eq(&f, file) && saved[k].hunk_index == idx && crate::text::chars_eq(
            &h,
            header,
        ) {
            return Some(k);
        }
        k += 1;
    }
    None
}

proof fn lemma_saved_found_at(saved: Seq<PatchHunkView>, file: Seq<char>, i: int, header: Seq<char>, k: int)
    requires
        0 <= k <= i < saved.len(),
        forall|m: int| 0 <= m < saved.len() ==> (#[trigger] saved[m]).hunk_index == m,
        saved[i].file == file,
        saved[i].header == header,
    ensures
        saved_index_from(saved, file, i as nat, header, k) == i,
    decreases i - k,
{
    if k < i {
        assert(saved[k].hunk_index != i);
        lemma_saved_found_at(saved, file, i, header, k + 1);
    }
}

/// Refreshing a file's review from an unchanged diff keeps every mark and
/// note: each hunk comes back in its place with the status and annotation
/// it was given.
pub proof fn law_review_survives_refresh(file: Seq<char>, hunks: Seq<DiffHunkView>, saved: Seq<PatchHunkView>)
    requires
        saved.len() == hunks.len(),
        forall|i: int|
            0 <= i < saved.len() ==> (#[trigger] saved[i]).file == file && saved[i].hunk_index == i
                && saved[i].header == hunks[i].header,
    ensures
        review_hunks_of(seq![(file, hunks)], saved).len() == hunks.len(),
        forall|i: int|
            0 <= i < hunks.len() ==> {
                let r = #[trigger] review_hunks_of(seq![(file, hunks)], saved)[i];
                &&& r.status == saved[i].status
                &&& r.annotation == saved[i].annotation
                &&& r.file == file
                &&& r.hunk_index == i
                &&& r.header == hunks[i].header
            },
{
    let files = seq![(file, hunks)];
    assert(files.drop_last() =~= Seq::<(Seq<char>, Seq<DiffHunkView>)>::empty());
    assert(files.drop_last().fold_left(Seq::empty(), review_stepper(saved)) == Seq::<PatchHunkView>::empty());
    let r = review_hunks_of(files, saved);
    assert(r =~= review_hunks_of_file(file, hunks, saved));
    assert forall|i: int| 0 <= i < hunks.len() implies {
        let h = #[trigger] review_hunks_of(seq![(file, hunks)], saved)[i];
        &&& h.status == saved[i].status
        &&& h.annotation == saved[i].annotation
        &&& h.file == file
        &&& h.hunk_index == i
        &&& h.header == hunks[i].header
    } by {
        assert forall|m: int| 0 <= m < saved.len() implies (#[trigger] saved[m]).hunk_index == m by {}
        lemma_saved_found_at(saved, file, i, hunks[i].header, 0);
    }
}

/// The hunks offered for review: every hunk of every file, in order, each
/// with the note and mark saved for the same file, index and header.
pub fn merge_saved_review(
    file_hunks: &Vec<(String, Vec<DiffHunk>)>,
    saved: &Vec<PatchHunk>,
) -> (out: Vec<PatchHunk>)
    ensures
        patch_hunks_view(out@) == review_hunks_of(
            crate::git::file_hunks_view(file_hunks@),
            patch_hunks_view(saved@),
        ),
{
    let ghost files = crate::git::file_hunks_view(file_hunks@);
    let ghost sv = patch_hunks_view(saved@);
    let mut out: Vec<PatchHunk> = Vec::new();
    let mut f: usize = 0;
    assert(patch_hunks_view(out@) =~= Seq::empty());
    while f < file_hunks.len()
        invariant
            files == crate::git::file_hunks_view(file_hunks@),
            sv == patch_hunks_view(saved@),
            f <= file_hunks.len(),
            patch_hunks_view(out@) == files.take(f as int).fold_left(
                Seq::empty(),
                review_stepper(sv),
            ),
        decreases file_hunks.len() - f,
    {
        let file = chars_of(file_hunks[f].0.as_str());
        let hunks = &file_hunks[f].1;
        let ghost base = patch_hunks_view(out@);
        let ghost hv = hunks_view(hunks@);
        assert(files[f as int] == (file@, hv));
        let mut j: usize = 0;
        while j < hunks.len()
            invariant
                hv == hunks_view(hunks@),
                sv == patch_hunks_view(saved@),
                j <= hunks.len(),
                patch_hunks_view(out@) == base + review_hunks_of_file(file@, hv, sv).take(j as int),
            decreases hunks.len() - j,
        {
            let header = chars_of(hunks[j].header.as_str());
            let found = find_saved(saved, &file, j, &header);
            let (annotation, status) = match found {
                Some(k) => (string_of(&chars_of(saved[k].annotation.as_str())), saved[k].status),
                None => (String::new(), HunkStatus::Unreviewed),
            };
            let p = PatchHunk {
                file: string_of(&file),
                hunk_index: j,
                header: string_of(&header),
                diff_text: format_hunk_text(&hunks[j]),
                annotation,
                status,
            };
            assert(p@ =~= review_hunk_of(file@, j as nat, hv[j as int], sv));
            push_patch_hunk(&mut out, p);
            assert(review_hunks_of_file(file@, hv, sv).take(j + 1) =~= review_hunks_of_file(
                file@,
                hv,
                sv,
            ).take(j as int).push(p@));
            j += 1;
        }
        assert(review_hunks_of_file(file@, hv, sv).take(hv.len() as int) =~= review_hunks_of_file(
            file@,
            hv,
            sv,
        ));
        assert(files.take(f + 1).drop_last() =~= files.take(f as int));
        f += 1;
    }
    assert(files.take(files.len() as int) =~= files);
    out
}


// ─── Drafts and briefs ───────────────────────────────────────────────

/// The first line of a note, or nothing.
pub open spec fn first_line_of(s: Seq<char>) -> Seq<char> {
    if lines_of(s).len() > 0 {
        lines_of(s)[0]
    } else {
        Seq::empty()
    }
}

fn first_line(s: &[char]) -> (out: Vec<char>)
    ensures
        out@ == first_line_of(s@),
{
    let ls = split_lines(s);
    if ls.len() > 0 {
        assert(seqs_of(ls@)[0] == ls@[0]@);
        slice_chars(&ls[0], 0, ls[0].len())
    } else {
        Vec::new()
    }
}

/// The draft so far, the file last named in it and the number of hunks in it.
#[verifier::ext_equal]
pub struct DraftScan {
    pub text: Seq<char>,
    pub file: Seq<char>,
    pub count: nat,
}

/// One hunk of the commit-scope draft: reviewed hunks are listed under
/// their file, with the first line of their note.
pub open spec fn draft_step(st: DraftScan, h: PatchHunkView) -> DraftScan {
    if h.status != HunkStatus::Reviewed {
        st
    } else {
        let t1 = if h.file != st.file {
            st.text + "\n  "@ + h.file + ":\n"@
        } else {
            st.text
        };
        let t2 = if h.annotation.len() == 0 {
            t1 + "    hunk "@ + decimal_digits(h.hunk_index + 1) + "\n"@
        } else {
            t1 + "    hunk "@ + decimal_digits(h.hunk_index + 1) + ": "@ + first_line_of(
                h.annotation,
            ) + "\n"@
        };
        DraftScan { text: t2, file: h.file, count: st.count + 1 }
    }
}

pub open spec fn draft_stepper() -> spec_fn(DraftScan, PatchHunkView) -> DraftScan {
    |st: DraftScan, h: PatchHunkView| draft_step(st, h)
}

/// The commit-scope draft of a review.
pub open spec fn draft_of(hunks: Seq<PatchHunkView>) -> DraftScan {
    hunks.fold_left(DraftScan { text: "Changes:\n"@, file: Seq::empty(), count: 0 }, draft_stepper())
}

/// Drafts the commit scope from the reviewed hunks; `None` when no hunk is
/// reviewed, else the draft and the number of reviewed hunks.
pub fn draft_commit_scope(hunks: &Vec<PatchHunk>) -> (r: Option<(String, usize)>)
    requires
        forall|i: int| 0 <= i < hunks@.len() ==> #[trigger] hunks@[i].hunk_index < usize::MAX,
    ensures
        match r {
            Some((text, n)) => draft_of(patch_hunks_view(hunks@)).count > 0 && text@ == draft_of(
                patch_hunks_view(hunks@),
            ).text && n as nat == draft_of(patch_hunks_view(hunks@)).count,
            None => draft_of(patch_hunks_view(hunks@)).count == 0,
        },
{
    let ghost hv = patch_hunks_view(hunks@);
    let ghost start = DraftScan { text: "Changes:\n"@, file: Seq::empty(), count: 0 };
    let mut text = chars_of("Changes:\n");
    let mut file: Vec<char> = Vec::new();
    let mut count: usize = 0;
    let mut i: usize = 0;
    assert(file@ =~= Seq::empty());
    while i < hunks.len()
        invariant
            hv == patch_hunks_view(hunks@),
            forall|k: int| 0 <= k < hunks@.len() ==> #[trigger] hunks@[k].hunk_index < usize::MAX,
            i <= hunks.len(),
            count <= i,
            (DraftScan { text: text@, file: file@, count: count as nat }) == hv.take(
                i as int,
            ).fold_left(start, draft_stepper()),
        decreases hunks.len() - i,
    {
        assert(hv.take(i + 1).drop_last() =~= hv.take(i as int));
        let h = &hunks[i];
        assert(hv[i as int] == h@);
        if h.status == HunkStatus::Reviewed {
            let hf = chars_of(h.file.as_str());
            if !chars_eq(&hf, &file) {
                append_str(&mut text, "\n  ");
                append_chars(&mut text, &hf);
                append_str(&mut text, ":\n");
            }
            let note = chars_of(h.annotation.as_str());
            append_str(&mut text, "    hunk ");
            push_decimal(&mut text, (h.hunk_index + 1) as u64);
            if note.len() == 0 {
                append_str(&mut text, "\n");
            } else {
                append_str(&mut text, ": ");
                let fl = first_line(&note);
                append_chars(&mut text, &fl);
                append_str(&mut text, "\n");
            }
            file = hf;
            count += 1;
        }
        i += 1;
    }
    assert(hv.take(hv.len() as int) =~= hv);
    if count == 0 {
        None
    } else {
        Some((string_of(&text), count))
    }
}

/// What drafting the commit scope of a session tells the pane: the draft
/// label's text (the draft's first line) when a draft was made, and the
/// status line, which reports success (`drafted`) or that nothing was
/// reviewed.
pub struct DraftOutcome {
    pub label: Option<String>,
    pub status: String,
    pub drafted: bool,
}

/// Drafts the commit scope into the session: with reviewed hunks the draft
/// replaces the session's draft (the hunks and branch stay; the caller
/// saves the session), the label shows its first line and the status
/// counts the reviewed hunks; without any the session is left as it was.
pub fn draft_into_session(session: &mut PatchSession) -> (o: DraftOutcome)
    requires
        forall|i: int| 0 <= i < old(session).hunks@.len() ==> #[trigger] old(session).hunks@[i].hunk_index < usize::MAX,
    ensures
        final(session).branch == old(session).branch,
        final(session).hunks == old(session).hunks,
        ({
            let d = draft_of(patch_hunks_view(old(session).hunks@));
            if d.count == 0 {
                &&& final(session).commit_scope_draft == old(session).commit_scope_draft
                &&& o.label is None
                &&& !o.drafted
                &&& o.status@ == "no reviewed hunks to draft"@
            } else {
                &&& final(session).commit_scope_draft@ == d.text
                &&& o.label matches Some(l) && l@ == first_line_of(d.text)
                &&& o.drafted
                &&& o.status@ == "drafted scope ("@ + decimal_digits(d.count) + " reviewed hunks)"@
            }
        }),
{
    match draft_commit_scope(&session.hunks) {
        None => DraftOutcome { label: None, status: "no reviewed hunks to draft".to_string(), drafted: false },
        Some((text, count)) => {
            let label = string_of(&first_line(&chars_of(text.as_str())));
            let mut status = chars_of("drafted scope (");
            push_decimal(&mut status, count as u64);
            append_str(&mut status, " reviewed hunks)");
            session.commit_scope_draft = text;
            DraftOutcome { label: Some(label), status: string_of(&status), drafted: true }
        },
    }
}

/// Clears the review queue: the session keeps its branch and loses its
/// hunks and draft; the selection goes back to the first row. Returns the
/// new selection and the status line (the caller also removes the saved
/// session and empties the draft label).
pub fn clear_review(session: &mut PatchSession) -> (r: (usize, &'static str))
    ensures
        final(session).branch == old(session).branch,
        final(session).hunks@.len() == 0,
        final(session).commit_scope_draft@.len() == 0,
        r.0 == 0,
        r.1@ == "patch queue cleared"@,
{
    session.hunks.clear();
    session.commit_scope_draft = String::new();
    (0, "patch queue cleared")
}

/// One hunk of the exported brief.
pub open spec fn brief_step(st: (Seq<char>, Seq<char>), h: PatchHunkView) -> (Seq<char>, Seq<char>) {
    let t1 = if h.file != st.1 {
        st.0 + "\n## "@ + h.file + "\n\n"@
    } else {
        st.0
    };
    let t2 = t1 + "### Hunk "@ + decimal_digits(h.hunk_index + 1) + " ["@ + status_label(h.status)
        + "]\n"@;
    let t3 = if h.header.len() > 0 {
        t2 + "`"@ + h.header + "`\n"@
    } else {
        t2
    };
    let t4 = if h.annotation.len() > 0 {
        t3 + "\n> "@ + replace_char_of(h.annotation, '\n', "\n> "@) + "\n"@
    } else {
        t3
    };
    (t4.push('\n'), h.file)
}

pub open spec fn brief_stepper() -> spec_fn((Seq<char>, Seq<char>), PatchHunkView) -> (Seq<char>, Seq<char>) {
    |st: (Seq<char>, Seq<char>), h: PatchHunkView| brief_step(st, h)
}

/// The markdown brief of a review: a section per file, an entry per hunk
/// with its mark, header and note, and the commit-scope draft if any.
pub open spec fn brief_of(branch: Seq<char>, hunks: Seq<PatchHunkView>, draft: Seq<char>) -> Seq<char> {
    let body = hunks.fold_left(("# Patch Brief: "@ + branch + "\n\n"@, Seq::empty()), brief_stepper()).0;
    if draft.len() > 0 {
        body + "\n---\n\n## Commit Scope Draft\n\n"@ + draft + "\n"@
    } else {
        body
    }
}

/// The brief of a review session; `None` when it has no hunks.
pub fn patch_brief(session: &PatchSession) -> (r: Option<String>)
    requires
        forall|i: int| 0 <= i < session.hunks@.len() ==> #[trigger] session.hunks@[i].hunk_index
            < usize::MAX,
    ensures
        session.hunks@.len() == 0 ==> r is None,
        session.hunks@.len() > 0 ==> (r matches Some(t) && t@ == brief_of(
            session.branch@,
            patch_hunks_view(session.hunks@),
            session.commit_scope_draft@,
        )),
{
    if session.hunks.len() == 0 {
        return None;
    }
    let ghost hv = patch_hunks_view(session.hunks@);
    let branch = chars_of(session.branch.as_str());
    let mut text = chars_of("# Patch Brief: ");
    append_chars(&mut text, &branch);
    append_str(&mut text, "\n\n");
    let ghost start = ("# Patch Brief: "@ + session.branch@ + "\n\n"@, Seq::<char>::empty());
    let mut file: Vec<char> = Vec::new();
    let mut i: usize = 0;
    assert(file@ =~= Seq::empty());
    while i < session.hunks.len()
        invariant
            hv == patch_hunks_view(session.hunks@),
            forall|k: int| 0 <= k < session.hunks@.len() ==> #[trigger] session.hunks@[k].hunk_index
                < usize::MAX,
            i <= session.hunks.len(),
            (text@, file@) == hv.take(i as int).fold_left(start, brief_stepper()),
        decreases session.hunks.len() - i,
    {
        assert(hv.take(i + 1).drop_last() =~= hv.take(i as int));
        let h = &session.hunks[i];
        assert(hv[i as int] == h@);
        let hf = chars_of(h.file.as_str());
        if !chars_eq(&hf, &file) {
            append_str(&mut text, "\n## ");
            append_chars(&mut text, &hf);
            append_str(&mut text, "\n\n");
        }
        append_str(&mut text, "### Hunk ");
        push_decimal(&mut text, (h.hunk_index + 1) as u64);
        append_str(&mut text, " [");
        append_str(&mut text, h.status.label());
        append_str(&mut text, "]\n");
        let header = chars_of(h.header.as_str());
        if header.len() > 0 {
            append_str(&mut text, "`");
            append_chars(&mut text, &header);
            append_str(&mut text, "`\n");
        }
        let note = chars_of(h.annotation.as_str());
        if note.len() > 0 {
            append_str(&mut text, "\n> ");
            let quoted = replace_char(&note, '\n', "\n> ");
            append_chars(&mut text, &quoted);
            append_str(&mut text, "\n");
        }
        text.push('\n');
        file = hf;
        i += 1;
    }
    assert(hv.take(hv.len() as int) =~= hv);
    let draft = chars_of(session.commit_scope_draft.as_str());
    if draft.len() > 0 {
        append_str(&mut text, "\n---\n\n## Commit Scope Draft\n\n");
        append_chars(&mut text, &draft);
        append_str(&mut text, "\n");
    }
    Some(string_of(&text))
}

// ─── Staging one hunk ────────────────────────────────────────────────

#[verifier::ext_equal]
pub struct PatchScan {
    pub header: Seq<Seq<char>>,
    pub hunks: Seq<Seq<Seq<char>>>,
    pub current: Seq<Seq<char>>,
    pub in_hunk: bool,
}

/// One line of splitting a diff into its header and its hunks.
pub open spec fn patch_step(st: PatchScan, line: Seq<char>) -> PatchScan {
    if has_prefix(line, "@@"@) {
        let flush = st.in_hunk && st.current.len() > 0;
        PatchScan {
            header: st.header,
            hunks: if flush {
                st.hunks.push(st.current)
            } else {
                st.hunks
            },
            current: if flush {
                seq![line]
            } else {
                st.current.push(line)
            },
            in_hunk: true,
        }
    } else if !st.in_hunk {
        PatchScan { header: st.header.push(line), ..st }
    } else if has_prefix(line, "diff --git "@) && st.current.len() > 0 {
        PatchScan {
            header: seq![line],
            hunks: st.hunks.push(st.current),
            current: Seq::empty(),
            in_hunk: false,
        }
    } else {
        PatchScan { current: st.current.push(line), ..st }
    }
}

pub open spec fn patch_stepper() -> spec_fn(PatchScan, Seq<char>) -> PatchScan {
    |st: PatchScan, line: Seq<char>| patch_step(st, line)
}

/// The diff header and the hunks (as lists of lines) of a diff.
pub open spec fn patch_parts_of(diff: Seq<char>) -> (Seq<Seq<char>>, Seq<Seq<Seq<char>>>) {
    let st = lines_of(diff).fold_left(
        PatchScan { header: Seq::empty(), hunks: Seq::empty(), current: Seq::empty(), in_hunk: false },
        patch_stepper(),
    );
    (st.header, if st.current.len() > 0 {
        st.hunks.push(st.current)
    } else {
        st.hunks
    })
}

/// The patch that stages hunk `hunk_index` of `diff` with `git apply
/// --cached`: the diff header, then that hunk; or the message for a missing
/// hunk.
pub open spec fn hunk_patch_of(diff: Seq<char>, file: Seq<char>, hunk_index: nat) -> Result<Seq<char>, Seq<char>> {
    let parts = patch_parts_of(diff);
    if hunk_index < parts.1.len() {
        Ok(join_lines(parts.0) + "\n"@ + join_lines(parts.1[hunk_index as int]) + "\n"@)
    } else {
        Err("hunk "@ + decimal_digits(hunk_index) + " not found in "@ + file)
    }
}

/// How many of the first `i` lines open a hunk (start with `@@`).
pub open spec fn hunk_starts(ls: Seq<Seq<char>>, i: int) -> nat
    decreases i,
{
    if i <= 0 {
        0
    } else if has_prefix(ls[i - 1], "@@"@) {
        hunk_starts(ls, i - 1) + 1
    } else {
        hunk_starts(ls, i - 1)
    }
}

/// Whether the first line of `hunk` is the `k`th `@@` line of `ls`, found
/// before line `i`.
pub open spec fn opened_by(ls: Seq<Seq<char>>, hunk: Seq<Seq<char>>, k: int, i: int) -> bool {
    exists|q: int|
        0 <= q < i && q < ls.len() && has_prefix(ls[q], "@@"@) && #[trigger] hunk_starts(ls, q) == k && ls[q] == hunk[0]
}

/// A hunk as cut out: it has lines, the first is the `k`th `@@` line, and
/// no other line of it opens a hunk.
pub open spec fn hunk_cut_ok(ls: Seq<Seq<char>>, hunk: Seq<Seq<char>>, k: int, i: int) -> bool {
    &&& hunk.len() > 0
    &&& has_prefix(hunk[0], "@@"@)
    &&& opened_by(ls, hunk, k, i)
    &&& forall|j: int| 0 < j < hunk.len() ==> !has_prefix(#[trigger] hunk[j], "@@"@)
}

proof fn lemma_patch_scan(ls: Seq<Seq<char>>, i: int)
    requires
        0 <= i <= ls.len(),
    ensures
        ({
            let st = ls.take(i).fold_left(
                PatchScan { header: Seq::empty(), hunks: Seq::empty(), current: Seq::empty(), in_hunk: false },
                patch_stepper(),
            );
            &&& st.hunks.len() + (if st.in_hunk { 1int } else { 0 }) == hunk_starts(ls, i)
            &&& !st.in_hunk ==> st.current.len() == 0
            &&& st.in_hunk ==> hunk_cut_ok(ls, st.current, st.hunks.len() as int, i)
            &&& forall|k: int| 0 <= k < st.hunks.len() ==> #[trigger] hunk_cut_ok(ls, st.hunks[k], k, i)
        }),
    decreases i,
{
    let start = PatchScan { header: Seq::empty(), hunks: Seq::empty(), current: Seq::empty(), in_hunk: false };
    if i == 0 {
        assert(ls.take(0) =~= Seq::<Seq<char>>::empty());
    } else {
        lemma_patch_scan(ls, i - 1);
        let t = ls.take(i);
        assert(t.drop_last() =~= ls.take(i - 1));
        assert(t.last() == ls[i - 1]);
        let st0 = ls.take(i - 1).fold_left(start, patch_stepper());
        let st = t.fold_left(start, patch_stepper());
        assert(st == patch_step(st0, ls[i - 1]));
        let line = ls[i - 1];
        // What held before line `i - 1` still holds before line `i`.
        assert forall|h: Seq<Seq<char>>, k: int| #[trigger] hunk_cut_ok(ls, h, k, i - 1) implies hunk_cut_ok(ls, h, k, i) by {
            let q = choose|q: int|
                0 <= q < i - 1 && q < ls.len() && has_prefix(ls[q], "@@"@) && #[trigger] hunk_starts(ls, q) == k && ls[q] == h[0];
            assert(hunk_starts(ls, q) == k);
        }
        assert forall|k: int| 0 <= k < st0.hunks.len() implies #[trigger] hunk_cut_ok(ls, st0.hunks[k], k, i) by {
            assert(hunk_cut_ok(ls, st0.hunks[k], k, i - 1));
        }
        if st0.in_hunk {
            assert(hunk_cut_ok(ls, st0.current, st0.hunks.len() as int, i));
        }
        if has_prefix(line, "@@"@) {
            let cur = seq![line];
            assert(cur[0] == line);
            assert(hunk_starts(ls, i - 1) == st0.hunks.len() + (if st0.in_hunk { 1int } else { 0 }));
            assert(hunk_cut_ok(ls, cur, hunk_starts(ls, i - 1) as int, i)) by {
                assert(hunk_starts(ls, i - 1) == hunk_starts(ls, i - 1));
            }
            if st0.in_hunk {
                assert(st.hunks == st0.hunks.push(st0.current));
                assert(st.current == cur);
                assert forall|k: int| 0 <= k < st.hunks.len() implies #[trigger] hunk_cut_ok(ls, st.hunks[k], k, i) by {
                    if k < st0.hunks.len() {
                        assert(st.hunks[k] == st0.hunks[k]);
                    } else {
                        assert(st.hunks[k] == st0.current);
                    }
                }
            } else {
                assert(st0.current.len() == 0);
                assert(st.current =~= cur);
                assert(st.hunks == st0.hunks);
            }
        } else if !st0.in_hunk {
            assert(st.hunks == st0.hunks);
        } else if has_prefix(line, "diff --git "@) && st0.current.len() > 0 {
            assert(st.hunks == st0.hunks.push(st0.current));
            assert forall|k: int| 0 <= k < st.hunks.len() implies #[trigger] hunk_cut_ok(ls, st.hunks[k], k, i) by {
                if k < st0.hunks.len() {
                    assert(st.hunks[k] == st0.hunks[k]);
                } else {
                    assert(st.hunks[k] == st0.current);
                }
            }
        } else {
            let cur = st0.current.push(line);
            assert(st.current == cur);
            assert(st.hunks == st0.hunks);
            assert(cur[0] == st0.current[0]);
            assert forall|j: int| 0 < j < cur.len() implies !has_prefix(#[trigger] cur[j], "@@"@) by {
                if j < st0.current.len() {
                    assert(cur[j] == st0.current[j]);
                }
            }
            let q = choose|q: int|
                0 <= q < i && q < ls.len() && has_prefix(ls[q], "@@"@) && #[trigger] hunk_starts(ls, q) == st0.hunks.len()
                    && ls[q] == st0.current[0];
            assert(hunk_starts(ls, q) == st0.hunks.len());
            assert(opened_by(ls, cur, st0.hunks.len() as int, i));
        }
    }
}

/// A line at which a hunk being cut out stops: the next `@@` line or the
/// next file's `diff --git ` line.
pub open spec fn ends_cut(line: Seq<char>) -> bool {
    has_prefix(line, "@@"@) || has_prefix(line, "diff --git "@)
}

/// Whether `hunk` is the `k`th hunk, exactly the input lines from its `@@`
/// line `q` up to line `e`, the next line that stops it or the end.
pub open spec fn cut_span(ls: Seq<Seq<char>>, q: int, e: int, k: int, hunk: Seq<Seq<char>>) -> bool {
    &&& 0 <= q < e <= ls.len()
    &&& has_prefix(ls[q], "@@"@)
    &&& hunk_starts(ls, q) == k
    &&& hunk == ls.subrange(q, e)
    &&& (forall|r: int| q < r < e ==> !#[trigger] ends_cut(ls[r]))
    &&& (e == ls.len() || ends_cut(ls[e]))
}

/// Whether `hunk` is the `k`th hunk, cut out whole.
pub open spec fn whole_cut(ls: Seq<Seq<char>>, k: int, hunk: Seq<Seq<char>>) -> bool {
    exists|q: int, e: int| #[trigger] cut_span(ls, q, e, k, hunk)
}

proof fn lemma_patch_spans(ls: Seq<Seq<char>>, i: int) -> (q: int)
    requires
        0 <= i <= ls.len(),
    ensures
        ({
            let st = ls.take(i).fold_left(
                PatchScan { header: Seq::empty(), hunks: Seq::empty(), current: Seq::empty(), in_hunk: false },
                patch_stepper(),
            );
            &&& !st.in_hunk ==> st.current.len() == 0
            &&& st.in_hunk ==> {
                &&& 0 <= q < i
                &&& has_prefix(ls[q], "@@"@)
                &&& hunk_starts(ls, q) == st.hunks.len()
                &&& st.current == ls.subrange(q, i)
                &&& forall|r: int| q < r < i ==> !#[trigger] ends_cut(ls[r])
            }
            &&& forall|k: int| 0 <= k < st.hunks.len() ==> #[trigger] whole_cut(ls, k, st.hunks[k])
        }),
    decreases i,
{
    let start = PatchScan { header: Seq::empty(), hunks: Seq::empty(), current: Seq::empty(), in_hunk: false };
    lemma_patch_scan(ls, i);
    if i == 0 {
        assert(ls.take(0) =~= Seq::<Seq<char>>::empty());
        0
    } else {
        let q0 = lemma_patch_spans(ls, i - 1);
        lemma_patch_scan(ls, i - 1);
        let t = ls.take(i);
        assert(t.drop_last() =~= ls.take(i - 1));
        assert(t.last() == ls[i - 1]);
        let st0 = ls.take(i - 1).fold_left(start, patch_stepper());
        let st = t.fold_left(start, patch_stepper());
        assert(st == patch_step(st0, ls[i - 1]));
        let line = ls[i - 1];
        if st0.in_hunk && ends_cut(line) {
            assert(cut_span(ls, q0, i - 1, st0.hunks.len() as int, st0.current));
        }
        if has_prefix(line, "@@"@) {
            assert(hunk_starts(ls, i - 1) == st0.hunks.len() + (if st0.in_hunk { 1int } else { 0 }));
            assert(st.current =~= ls.subrange(i - 1, i));
            assert forall|k: int| 0 <= k < st.hunks.len() implies #[trigger] whole_cut(ls, k, st.hunks[k]) by {
                if k < st0.hunks.len() {
                    assert(st.hunks[k] == st0.hunks[k]);
                } else {
                    assert(st.hunks[k] == st0.current);
                }
            }
            i - 1
        } else if !st0.in_hunk {
            assert(st.hunks == st0.hunks);
            q0
        } else if has_prefix(line, "diff --git "@) && st0.current.len() > 0 {
            assert forall|k: int| 0 <= k < st.hunks.len() implies #[trigger] whole_cut(ls, k, st.hunks[k]) by {
                if k < st0.hunks.len() {
                    assert(st.hunks[k] == st0.hunks[k]);
                } else {
                    assert(st.hunks[k] == st0.current);
                }
            }
            q0
        } else {
            assert(!ends_cut(line));
            assert(st.current =~= ls.subrange(q0, i));
            assert(st.hunks == st0.hunks);
            q0
        }
    }
}

/// Whether `header` is the diff header of a cut patch: the input lines
/// from line `s` (the top, or the `diff --git ` line of the file) up to
/// line `e`, none of them an `@@` line, and `e` the first `@@` line after
/// them or the end.
pub open spec fn header_span(ls: Seq<Seq<char>>, s: int, e: int, header: Seq<Seq<char>>) -> bool {
    &&& 0 <= s <= e <= ls.len()
    &&& (s == 0 || has_prefix(ls[s], "diff --git "@))
    &&& header == ls.subrange(s, e)
    &&& (forall|r: int| s <= r < e ==> !has_prefix(#[trigger] ls[r], "@@"@))
    &&& (e == ls.len() || has_prefix(ls[e], "@@"@))
}

proof fn lemma_patch_header(ls: Seq<Seq<char>>, i: int) -> (se: (int, int))
    requires
        0 <= i <= ls.len(),
    ensures
        ({
            let st = ls.take(i).fold_left(
                PatchScan { header: Seq::empty(), hunks: Seq::empty(), current: Seq::empty(), in_hunk: false },
                patch_stepper(),
            );
            &&& 0 <= se.0 <= se.1 <= i
            &&& (se.0 == 0 || has_prefix(ls[se.0], "diff --git "@))
            &&& st.header == ls.subrange(se.0, se.1)
            &&& (forall|r: int| se.0 <= r < se.1 ==> !has_prefix(#[trigger] ls[r], "@@"@))
            &&& (!st.in_hunk ==> se.1 == i)
            &&& (st.in_hunk ==> se.1 < i && has_prefix(ls[se.1], "@@"@))
        }),
    decreases i,
{
    let start = PatchScan { header: Seq::empty(), hunks: Seq::empty(), current: Seq::empty(), in_hunk: false };
    if i == 0 {
        assert(ls.take(0) =~= Seq::<Seq<char>>::empty());
        assert(ls.subrange(0, 0) =~= Seq::<Seq<char>>::empty());
        (0, 0)
    } else {
        let se0 = lemma_patch_header(ls, i - 1);
        lemma_patch_scan(ls, i - 1);
        let t = ls.take(i);
        assert(t.drop_last() =~= ls.take(i - 1));
        assert(t.last() == ls[i - 1]);
        let st0 = ls.take(i - 1).fold_left(start, patch_stepper());
        let st = t.fold_left(start, patch_stepper());
        assert(st == patch_step(st0, ls[i - 1]));
        let line = ls[i - 1];
        if has_prefix(line, "@@"@) {
            if st0.in_hunk {
                se0
            } else {
                (se0.0, i - 1)
            }
        } else if !st0.in_hunk {
            assert(st.header =~= ls.subrange(se0.0, i));
            (se0.0, i)
        } else if has_prefix(line, "diff --git "@) && st0.current.len() > 0 {
            assert(st.header =~= ls.subrange(i - 1, i));
            (i - 1, i)
        } else {
            se0
        }
    }
}

/// The hunks a diff is cut into, to stage one of them: there is one for
/// each `@@` line, in order; the `k`th is exactly the input lines from the
/// `k`th `@@` line up to the next `@@` or `diff --git ` line, so a cut
/// patch keeps the header line of its hunk and all of its lines. The diff
/// header put before it is a run of input lines without an `@@` line,
/// from the top or from the file's `diff --git ` line up to the first `@@`
/// line after it. A hunk can be cut out exactly when the diff has that many
/// `@@` lines.
pub proof fn law_hunks_open_with_their_header(diff: Seq<char>, file: Seq<char>, hunk_index: nat)
    ensures
        patch_parts_of(diff).1.len() == hunk_starts(lines_of(diff), lines_of(diff).len() as int),
        forall|k: int| 0 <= k < patch_parts_of(diff).1.len() ==> #[trigger] hunk_cut_ok(
            lines_of(diff),
            patch_parts_of(diff).1[k],
            k,
            lines_of(diff).len() as int,
        ),
        forall|k: int| 0 <= k < patch_parts_of(diff).1.len() ==> #[trigger] whole_cut(
            lines_of(diff),
            k,
            patch_parts_of(diff).1[k],
        ),
        exists|s: int, e: int| #[trigger] header_span(lines_of(diff), s, e, patch_parts_of(diff).0),
        hunk_patch_of(diff, file, hunk_index) is Ok <==> hunk_index < hunk_starts(lines_of(diff), lines_of(diff).len() as int),
{
    let ls = lines_of(diff);
    let se = lemma_patch_header(ls, ls.len() as int);
    lemma_patch_scan(ls, ls.len() as int);
    let q = lemma_patch_spans(ls, ls.len() as int);
    assert(ls.take(ls.len() as int) =~= ls);
    let st = ls.fold_left(
        PatchScan { header: Seq::empty(), hunks: Seq::empty(), current: Seq::empty(), in_hunk: false },
        patch_stepper(),
    );
    let hs = patch_parts_of(diff).1;
    assert(header_span(ls, se.0, se.1, patch_parts_of(diff).0));
    if st.current.len() > 0 {
        assert(hs == st.hunks.push(st.current));
        assert(cut_span(ls, q, ls.len() as int, st.hunks.len() as int, st.current));
        assert forall|k: int| 0 <= k < hs.len() implies #[trigger] hunk_cut_ok(ls, hs[k], k, ls.len() as int) && whole_cut(ls, k, hs[k]) by {
            if k < st.hunks.len() {
                assert(hs[k] == st.hunks[k]);
            } else {
                assert(hs[k] == st.current);
            }
        }
    } else {
        assert(hs == st.hunks);
    }
}

/// Cuts hunk `hunk_index` of `file` out of its diff, with the diff header.
pub fn select_hunk_patch(diff: &str, file: &str, hunk_index: usize) -> (r: Result<String, String>)
    ensures
        match r {
            Ok(t) => hunk_patch_of(diff@, file@, hunk_index as nat) == Ok::<Seq<char>, Seq<char>>(
                t@,
            ),
            Err(e) => hunk_patch_of(diff@, file@, hunk_index as nat) == Err::<Seq<char>, Seq<char>>(
                e@,
            ),
        },
{
    let chars = chars_of(diff);
    let lines = split_lines(&chars);
    let ghost ls = lines_of(diff@);
    let ghost start = PatchScan {
        header: Seq::empty(),
        hunks: Seq::empty(),
        current: Seq::empty(),
        in_hunk: false,
    };
    let mut header: Vec<Vec<char>> = Vec::new();
    let mut hunks: Vec<Vec<Vec<char>>> = Vec::new();
    let mut current: Vec<Vec<char>> = Vec::new();
    let mut in_hunk = false;
    let mut i: usize = 0;
    assert(seqs_of(header@) =~= Seq::empty());
    assert(Seq::new(hunks@.len(), |k: int| seqs_of(hunks@[k]@)) =~= Seq::<Seq<Seq<char>>>::empty());
    assert(seqs_of(current@) =~= Seq::empty());
    while i < lines.len()
        invariant
            seqs_of(lines@) == ls,
            i <= lines.len(),
            (PatchScan {
                header: seqs_of(header@),
                hunks: Seq::new(hunks@.len(), |k: int| seqs_of(hunks@[k]@)),
                current: seqs_of(current@),
                in_hunk,
            }) == ls.take(i as int).fold_left(start, patch_stepper()),
        decreases lines.len() - i,
    {
        let line = &lines[i];
        assert(ls[i as int] == line@);
        assert(ls.take(i + 1).drop_last() == ls.take(i as int));
        let ghost old_hunks = Seq::new(hunks@.len(), |k: int| seqs_of(hunks@[k]@));
        let copy = slice_chars(line, 0, line.len());
        assert(copy@ =~= line@);
        if starts_with(line, "@@") {
            if in_hunk && current.len() > 0 {
                let taken = current;
                let ghost tv = seqs_of(taken@);
                current = Vec::new();
                hunks.push(taken);
                assert(Seq::new(hunks@.len(), |k: int| seqs_of(hunks@[k]@)) =~= old_hunks.push(tv));
            }
            in_hunk = true;
            push_seq(&mut current, copy);
        } else if !in_hunk {
            push_seq(&mut header, copy);
        } else if starts_with(line, "diff --git ") && current.len() > 0 {
            let taken = current;
            let ghost tv = seqs_of(taken@);
            current = Vec::new();
            hunks.push(taken);
            assert(Seq::new(hunks@.len(), |k: int| seqs_of(hunks@[k]@)) =~= old_hunks.push(tv));
            header = Vec::new();
            push_seq(&mut header, copy);
            assert(seqs_of(header@) =~= seq![line@]);
            assert(seqs_of(current@) =~= Seq::empty());
            in_hunk = false;
        } else {
            push_seq(&mut current, copy);
        }
        i += 1;
    }
    assert(ls.take(ls.len() as int) == ls);
    if current.len() > 0 {
        let ghost old_hunks = Seq::new(hunks@.len(), |k: int| seqs_of(hunks@[k]@));
        let ghost tv = seqs_of(current@);
        hunks.push(current);
        assert(Seq::new(hunks@.len(), |k: int| seqs_of(hunks@[k]@)) =~= old_hunks.push(tv));
    }
    let ghost hs = Seq::new(hunks@.len(), |k: int| seqs_of(hunks@[k]@));
    assert(patch_parts_of(diff@).0 == seqs_of(header@));
    assert(patch_parts_of(diff@).1 == hs);
    if hunk_index < hunks.len() {
        let mut out = join_with_newlines(&header);
        append_str(&mut out, "\n");
        let body = join_with_newlines(&hunks[hunk_index]);
        assert(hs[hunk_index as int] == seqs_of(hunks@[hunk_index as int]@));
        append_chars(&mut out, &body);
        append_str(&mut out, "\n");
        Ok(string_of(&out))
    } else {
        let mut msg = chars_of("hunk ");
        push_decimal(&mut msg, hunk_index as u64);
        append_str(&mut msg, " not found in ");
        append_str(&mut msg, file);
        Err(string_of(&msg))
    }
}

} // verus!
