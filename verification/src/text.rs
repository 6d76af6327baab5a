//! Character-level text handling shared by the parsers: splitting into lines
//! and words, trimming, prefix tests and decimal numbers, each stated over
//! the `Seq<char>` view of the text.
use vstd::prelude::*;

verus! {

broadcast use vstd::string::group_string_axioms;

// ─── Strings and character vectors ───────────────────────────────────

/// Appends one character to a string (`String::push`).
#[verifier::external_body]
pub(crate) fn push_char(s: &mut String, c: char)
    ensures
        final(s)@ == old(s)@.push(c),
{
    s.push(c);
}

/// The characters of a string slice, in order.
pub fn chars_of(s: &str) -> (out: Vec<char>)
    ensures
        out@ == s@,
{
    let mut out: Vec<char> = Vec::new();
    for c in it: s.chars()
        invariant
            out@ == it.seq().take(it.index() as int),
    {
        out.push(c);
    }
    out
}

/// A string holding exactly the given characters.
pub fn string_of(chars: &[char]) -> (out: String)
    ensures
        out@ == chars@,
{
    let mut out = String::new();
    let mut i: usize = 0;
    while i < chars.len()
        invariant
            i <= chars.len(),
            out@ == chars@.take(i as int),
        decreases chars.len() - i,
    {
        push_char(&mut out, chars[i]);
        assert(chars@.take(i + 1) == chars@.take(i as int).push(chars@[i as int]));
        i += 1;
    }
    assert(chars@.take(chars@.len() as int) == chars@);
    out
}

/// Appends the characters of `tail` to `out`.
pub fn append_chars(out: &mut Vec<char>, tail: &[char])
    ensures
        final(out)@ == old(out)@ + tail@,
{
    let mut i: usize = 0;
    while i < tail.len()
        invariant
            i <= tail.len(),
            out@ == old(out)@ + tail@.take(i as int),
        decreases tail.len() - i,
    {
        out.push(tail[i]);
        assert(tail@.take(i + 1) == tail@.take(i as int).push(tail@[i as int]));
        i += 1;
    }
    assert(tail@.take(tail@.len() as int) == tail@);
}

/// Appends the characters of a string slice to `out`.
pub fn append_str(out: &mut Vec<char>, tail: &str)
    ensures
        final(out)@ == old(out)@ + tail@,
{
    let t = chars_of(tail);
    append_chars(out, &t);
}

/// Whether two character sequences are equal.
pub fn chars_eq(a: &[char], b: &[char]) -> (r: bool)
    ensures
        r == (a@ == b@),
{
    if a.len() != b.len() {
        return false;
    }
    let mut i: usize = 0;
    while i < a.len()
        invariant
            a@.len() == b@.len(),
            i <= a.len(),
            forall|j: int| 0 <= j < i ==> a@[j] == b@[j],
        decreases a.len() - i,
    {
        if a[i] != b[i] {
            return false;
        }
        i += 1;
    }
    assert(a@ =~= b@);
    true
}

/// Whether a character sequence equals a string slice.
pub fn eq_str(a: &[char], b: &str) -> (r: bool)
    ensures
        r == (a@ == b@),
{
    let bc = chars_of(b);
    chars_eq(a, &bc)
}

// ─── Whitespace ──────────────────────────────────────────────────────

/// The Unicode `White_Space` characters, as `char::is_whitespace` knows them.
pub open spec fn is_ws(c: char) -> bool {
    ||| c == '\t'
    ||| c == '\n'
    ||| c == '\u{0B}'
    ||| c == '\u{0C}'
    ||| c == '\r'
    ||| c == ' '
    ||| c == '\u{85}'
    ||| c == '\u{A0}'
    ||| c == '\u{1680}'
    ||| ('\u{2000}' <= c && c <= '\u{200A}')
    ||| c == '\u{2028}'
    ||| c == '\u{2029}'
    ||| c == '\u{202F}'
    ||| c == '\u{205F}'
    ||| c == '\u{3000}'
}

/// Whether `c` is a whitespace character.
pub fn is_whitespace(c: char) -> (r: bool)
    ensures
        r == is_ws(c),
{
    c == '\t' || c == '\n' || c == '\u{0B}' || c == '\u{0C}' || c == '\r' || c == ' '
        || c == '\u{85}' || c == '\u{A0}' || c == '\u{1680}' || ('\u{2000}' <= c && c
        <= '\u{200A}') || c == '\u{2028}' || c == '\u{2029}' || c == '\u{202F}' || c
        == '\u{205F}' || c == '\u{3000}'
}


/// Position after the whitespace that starts at `i`.
pub open spec fn ws_run_end(s: Seq<char>, i: int) -> int
    decreases s.len() - i,
{
    if 0 <= i < s.len() && is_ws(s[i]) {
        ws_run_end(s, i + 1)
    } else {
        i
    }
}

/// Position before the whitespace that ends at `j`.
pub open spec fn ws_run_start(s: Seq<char>, j: int) -> int
    decreases j,
{
    if 0 < j <= s.len() && is_ws(s[j - 1]) {
        ws_run_start(s, j - 1)
    } else {
        j
    }
}

/// `str::trim_start`: the text without its leading whitespace.
pub open spec fn trim_start_of(s: Seq<char>) -> Seq<char> {
    s.skip(ws_run_end(s, 0))
}

/// `str::trim_end`: the text without its trailing whitespace.
pub open spec fn trim_end_of(s: Seq<char>) -> Seq<char> {
    s.take(ws_run_start(s, s.len() as int))
}

/// `str::trim`: the text without leading and trailing whitespace.
pub open spec fn trim_of(s: Seq<char>) -> Seq<char> {
    trim_end_of(trim_start_of(s))
}

/// Removes leading whitespace.
pub fn trim_start(s: &[char]) -> (out: Vec<char>)
    ensures
        out@ == trim_start_of(s@),
{
    let mut i: usize = 0;
    while i < s.len() && is_whitespace(s[i])
        invariant
            i <= s.len(),
            ws_run_end(s@, 0) == ws_run_end(s@, i as int),
        decreases s.len() - i,
    {
        i += 1;
    }
    let mut out: Vec<char> = Vec::new();
    let mut k: usize = i;
    while k < s.len()
        invariant
            i <= k <= s.len(),
            out@ == s@.subrange(i as int, k as int),
        decreases s.len() - k,
    {
        out.push(s[k]);
        k += 1;
    }
    out
}

/// Removes trailing whitespace.
pub fn trim_end(s: &[char]) -> (out: Vec<char>)
    ensures
        out@ == trim_end_of(s@),
{
    let mut j: usize = s.len();
    while j > 0 && is_whitespace(s[j - 1])
        invariant
            j <= s.len(),
            ws_run_start(s@, s@.len() as int) == ws_run_start(s@, j as int),
        decreases j,
    {
        j -= 1;
    }
    let mut out: Vec<char> = Vec::new();
    let mut k: usize = 0;
    while k < j
        invariant
            k <= j <= s.len(),
            out@ == s@.take(k as int),
        decreases j - k,
    {
        out.push(s[k]);
        k += 1;
    }
    out
}

/// Removes leading and trailing whitespace.
pub fn trim(s: &[char]) -> (out: Vec<char>)
    ensures
        out@ == trim_of(s@),
{
    let a = trim_start(s);
    trim_end(&a)
}

/// Position after the run of `c` that starts at `i`.
pub open spec fn char_run_end(s: Seq<char>, c: char, i: int) -> int
    decreases s.len() - i,
{
    if 0 <= i < s.len() && s[i] == c {
        char_run_end(s, c, i + 1)
    } else {
        i
    }
}

/// `str::trim_start_matches` with a single character.
pub open spec fn trim_start_char_of(s: Seq<char>, c: char) -> Seq<char> {
    s.skip(char_run_end(s, c, 0))
}

/// Removes every leading occurrence of `c`.
pub fn trim_start_char(s: &[char], c: char) -> (out: Vec<char>)
    ensures
        out@ == trim_start_char_of(s@, c),
{
    let mut i: usize = 0;
    while i < s.len() && s[i] == c
        invariant
            i <= s.len(),
            char_run_end(s@, c, 0) == char_run_end(s@, c, i as int),
        decreases s.len() - i,
    {
        i += 1;
    }
    let mut out: Vec<char> = Vec::new();
    let mut k: usize = i;
    while k < s.len()
        invariant
            i <= k <= s.len(),
            out@ == s@.subrange(i as int, k as int),
        decreases s.len() - k,
    {
        out.push(s[k]);
        k += 1;
    }
    out
}

// ─── Prefixes, suffixes, infixes ─────────────────────────────────────

/// `s` starts with `p`.
pub open spec fn has_prefix(s: Seq<char>, p: Seq<char>) -> bool {
    p.len() <= s.len() && s.take(p.len() as int) == p
}

/// `s` ends with `p`.
pub open spec fn has_suffix(s: Seq<char>, p: Seq<char>) -> bool {
    p.len() <= s.len() && s.skip(s.len() - p.len()) == p
}

/// `p` occurs in `s` at position `i`.
pub open spec fn occurs_at(s: Seq<char>, p: Seq<char>, i: int) -> bool {
    0 <= i && i + p.len() <= s.len() && s.subrange(i, i + p.len()) == p
}

/// `p` occurs somewhere in `s`.
pub open spec fn has_infix(s: Seq<char>, p: Seq<char>) -> bool {
    exists|i: int| occurs_at(s, p, i)
}

/// Whether `p` occurs in `s` at position `i`.
pub fn matches_at(s: &[char], p: &[char], i: usize) -> (r: bool)
    ensures
        r == occurs_at(s@, p@, i as int),
{
    if i > s.len() || p.len() > s.len() - i {
        return false;
    }
    let mut k: usize = 0;
    while k < p.len()
        invariant
            i + p.len() <= s.len(),
            k <= p.len(),
            forall|j: int| 0 <= j < k ==> s@[i + j] == p@[j],
        decreases p.len() - k,
    {
        if s[i + k] != p[k] {
            assert(s@.subrange(i as int, i + p.len())[k as int] != p@[k as int]);
            return false;
        }
        k += 1;
    }
    assert(s@.subrange(i as int, i + p.len()) =~= p@);
    true
}

/// `str::starts_with` for a prefix held as characters.
pub fn starts_with_chars(s: &[char], p: &[char]) -> (r: bool)
    ensures
        r == has_prefix(s@, p@),
{
    let r = matches_at(s, p, 0);
    assert(r ==> s@.subrange(0, p@.len() as int) == s@.take(p@.len() as int));
    assert(has_prefix(s@, p@) ==> s@.subrange(0, p@.len() as int) == s@.take(p@.len() as int));
    r
}

/// `str::starts_with` for a literal prefix.
pub fn starts_with(s: &[char], p: &str) -> (r: bool)
    ensures
        r == has_prefix(s@, p@),
{
    let pc = chars_of(p);
    starts_with_chars(s, &pc)
}

/// `str::starts_with` for a single character.
pub fn starts_with_char(s: &[char], c: char) -> (r: bool)
    ensures
        r == has_prefix(s@, seq![c]),
{
    if s.len() == 0 {
        false
    } else {
        assert(s@.take(1) =~= seq![s@[0]]);
        if s[0] == c {
            true
        } else {
            assert(s@.take(1)[0] != seq![c][0]);
            false
        }
    }
}

/// `str::ends_with` for a suffix held as characters.
pub fn ends_with_chars(s: &[char], p: &[char]) -> (r: bool)
    ensures
        r == has_suffix(s@, p@),
{
    if p.len() > s.len() {
        return false;
    }
    let r = matches_at(s, p, s.len() - p.len());
    assert(s@.subrange(s@.len() - p@.len(), s@.len() as int) =~= s@.skip(s@.len() - p@.len()));
    r
}

/// `str::ends_with` for a literal suffix.
pub fn ends_with(s: &[char], p: &str) -> (r: bool)
    ensures
        r == has_suffix(s@, p@),
{
    let pc = chars_of(p);
    ends_with_chars(s, &pc)
}

/// `str::contains` for a pattern held as characters.
pub fn contains_chars(s: &[char], p: &[char]) -> (r: bool)
    ensures
        r == has_infix(s@, p@),
{
    let mut i: usize = 0;
    while i < s.len()
        invariant
            i <= s.len(),
            forall|j: int| 0 <= j < i ==> !occurs_at(s@, p@, j),
        decreases s.len() - i,
    {
        if matches_at(s, p, i) {
            return true;
        }
        i += 1;
    }
    if matches_at(s, p, i) {
        return true;
    }
    assert forall|j: int| !occurs_at(s@, p@, j) by {
        if 0 <= j && j < i {
        }
    }
    false
}

/// `str::contains` for a literal pattern.
pub fn contains(s: &[char], p: &str) -> (r: bool)
    ensures
        r == has_infix(s@, p@),
{
    let pc = chars_of(p);
    contains_chars(s, &pc)
}

/// `str::strip_prefix` for a literal prefix.
pub fn strip_prefix(s: &[char], p: &str) -> (r: Option<Vec<char>>)
    ensures
        r matches Some(rest) ==> has_prefix(s@, p@) && rest@ == s@.skip(p@.len() as int),
        r is None ==> !has_prefix(s@, p@),
{
    if starts_with(s, p) {
        let n = chars_of(p).len();
        let mut out: Vec<char> = Vec::new();
        let mut k: usize = n;
        while k < s.len()
            invariant
                n <= k <= s.len(),
                out@ == s@.subrange(n as int, k as int),
            decreases s.len() - k,
        {
            out.push(s[k]);
            k += 1;
        }
        Some(out)
    } else {
        None
    }
}

/// The characters of `s` from `from` (inclusive) to `to` (exclusive).
pub fn slice_chars(s: &[char], from: usize, to: usize) -> (out: Vec<char>)
    requires
        from <= to <= s.len(),
    ensures
        out@ == s@.subrange(from as int, to as int),
{
    let mut out: Vec<char> = Vec::new();
    let mut k: usize = from;
    while k < to
        invariant
            from <= k <= to <= s.len(),
            out@ == s@.subrange(from as int, k as int),
        decreases to - k,
    {
        out.push(s[k]);
        k += 1;
    }
    out
}


/// Index of the first occurrence of `p` at or after `i`, or -1.
pub open spec fn find_pat_from(s: Seq<char>, p: Seq<char>, i: int) -> int
    decreases s.len() + 1 - i,
{
    if i < 0 || i + p.len() > s.len() {
        -1
    } else if occurs_at(s, p, i) {
        i
    } else {
        find_pat_from(s, p, i + 1)
    }
}

/// The text before the first occurrence of `p`: the first piece that
/// `str::split(p)` gives.
pub open spec fn before_pattern(s: Seq<char>, p: Seq<char>) -> Seq<char> {
    let i = find_pat_from(s, p, 0);
    if i < 0 {
        s
    } else {
        s.take(i)
    }
}

/// `find_pat_from` gives -1 or a position where `p` occurs.
pub proof fn lemma_find_pat_bounds(s: Seq<char>, p: Seq<char>, i: int)
    ensures
        find_pat_from(s, p, i) == -1 || (i <= find_pat_from(s, p, i) && occurs_at(
            s,
            p,
            find_pat_from(s, p, i),
        )),
    decreases s.len() + 1 - i,
{
    if !(i < 0 || i + p.len() > s.len()) && !occurs_at(s, p, i) {
        lemma_find_pat_bounds(s, p, i + 1);
    }
}

/// The first piece of `s.split(p)`: the text before the first `p`.
pub fn split_first(s: &[char], p: &str) -> (out: Vec<char>)
    ensures
        out@ == before_pattern(s@, p@),
{
    let pc = chars_of(p);
    if pc.len() == 0 {
        assert(s@.subrange(0, 0) =~= p@);
        assert(occurs_at(s@, p@, 0));
        let out: Vec<char> = Vec::new();
        assert(out@ =~= s@.take(0));
        return out;
    }
    let mut i: usize = 0;
    while pc.len() <= s.len() && i <= s.len() - pc.len()
        invariant
            pc@ == p@,
            pc@.len() >= 1,
            find_pat_from(s@, p@, 0) == find_pat_from(s@, p@, i as int),
        decreases s.len() - i,
    {
        if matches_at(s, &pc, i) {
            let out = slice_chars(s, 0, i);
            assert(out@ =~= s@.take(i as int));
            return out;
        }
        i += 1;
    }
    slice_chars(s, 0, s.len())
}

// ─── Lines and words ─────────────────────────────────────────────────

/// The character sequences held by a sequence of character vectors.
pub open spec fn seqs_of(v: Seq<Vec<char>>) -> Seq<Seq<char>> {
    Seq::new(v.len(), |i: int| v[i]@)
}

/// Pushes a character vector, extending `seqs_of` by its view.
pub fn push_seq(v: &mut Vec<Vec<char>>, x: Vec<char>)
    ensures
        seqs_of(final(v)@) == seqs_of(old(v)@).push(x@),
{
    let ghost xv = x@;
    v.push(x);
    assert(seqs_of(v@) =~= seqs_of(old(v)@).push(xv));
}

/// A line without its final carriage return, as `str::lines` gives it
/// for a line that ended in a newline.
pub open spec fn strip_cr(line: Seq<char>) -> Seq<char> {
    if line.len() > 0 && line.last() == '\r' {
        line.drop_last()
    } else {
        line
    }
}

/// One character of line splitting: the finished lines and the open one.
pub open spec fn line_step(st: (Seq<Seq<char>>, Seq<char>), c: char) -> (Seq<Seq<char>>, Seq<char>) {
    if c == '\n' {
        (st.0.push(strip_cr(st.1)), Seq::empty())
    } else {
        (st.0, st.1.push(c))
    }
}

pub open spec fn line_stepper() -> spec_fn((Seq<Seq<char>>, Seq<char>), char) -> (Seq<Seq<char>>, Seq<char>) {
    |st: (Seq<Seq<char>>, Seq<char>), c: char| line_step(st, c)
}

/// The finished lines and the open line after reading `s`.
pub open spec fn line_scan(s: Seq<char>) -> (Seq<Seq<char>>, Seq<char>) {
    s.fold_left((Seq::<Seq<char>>::empty(), Seq::<char>::empty()), line_stepper())
}

/// `str::lines`: the lines of `s`, split at `\n`; a line that ends in
/// `\r\n` loses its `\r`, and a final empty line is not a line.
pub open spec fn lines_of(s: Seq<char>) -> Seq<Seq<char>> {
    let st = line_scan(s);
    if st.1.len() == 0 {
        st.0
    } else {
        st.0.push(st.1)
    }
}

/// Splits text into its lines, as `str::lines` does.
pub fn split_lines(text: &[char]) -> (out: Vec<Vec<char>>)
    ensures
        seqs_of(out@) == lines_of(text@),
{
    let mut done: Vec<Vec<char>> = Vec::new();
    let mut cur: Vec<char> = Vec::new();
    let mut i: usize = 0;
    while i < text.len()
        invariant
            i <= text.len(),
            (seqs_of(done@), cur@) == line_scan(text@.take(i as int)),
        decreases text.len() - i,
    {
        let c = text[i];
        assert(text@.take(i + 1).drop_last() == text@.take(i as int));
        if c == '\n' {
            let mut line = cur;
            if line.len() > 0 && line[line.len() - 1] == '\r' {
                line.pop();
            }
            push_seq(&mut done, line);
            cur = Vec::new();
        } else {
            cur.push(c);
        }
        i += 1;
    }
    assert(text@.take(text@.len() as int) == text@);
    if cur.len() > 0 {
        push_seq(&mut done, cur);
    }
    done
}

/// One character of word splitting: the finished words and the open one.
pub open spec fn word_step(st: (Seq<Seq<char>>, Seq<char>), c: char) -> (Seq<Seq<char>>, Seq<char>) {
    if is_ws(c) {
        if st.1.len() > 0 {
            (st.0.push(st.1), Seq::empty())
        } else {
            st
        }
    } else {
        (st.0, st.1.push(c))
    }
}

pub open spec fn word_stepper() -> spec_fn((Seq<Seq<char>>, Seq<char>), char) -> (Seq<Seq<char>>, Seq<char>) {
    |st: (Seq<Seq<char>>, Seq<char>), c: char| word_step(st, c)
}

/// `str::split_whitespace`: the maximal runs of non-whitespace characters.
pub open spec fn words_of(s: Seq<char>) -> Seq<Seq<char>> {
    let st = s.fold_left((Seq::<Seq<char>>::empty(), Seq::<char>::empty()), word_stepper());
    if st.1.len() == 0 {
        st.0
    } else {
        st.0.push(st.1)
    }
}

/// Splits text at whitespace, as `str::split_whitespace` does.
pub fn split_whitespace(text: &[char]) -> (out: Vec<Vec<char>>)
    ensures
        seqs_of(out@) == words_of(text@),
{
    let mut done: Vec<Vec<char>> = Vec::new();
    let mut cur: Vec<char> = Vec::new();
    let mut i: usize = 0;
    while i < text.len()
        invariant
            i <= text.len(),
            (seqs_of(done@), cur@) == text@.take(i as int).fold_left(
                (Seq::<Seq<char>>::empty(), Seq::<char>::empty()),
                word_stepper(),
            ),
        decreases text.len() - i,
    {
        let c = text[i];
        assert(text@.take(i + 1).drop_last() == text@.take(i as int));
        if is_whitespace(c) {
            if cur.len() > 0 {
                push_seq(&mut done, cur);
                cur = Vec::new();
            }
        } else {
            cur.push(c);
        }
        i += 1;
    }
    assert(text@.take(text@.len() as int) == text@);
    if cur.len() > 0 {
        push_seq(&mut done, cur);
    }
    done
}

// ─── Splitting at a character ────────────────────────────────────────

/// Index of the first `c` at or after `i`, or -1.
pub open spec fn find_from(s: Seq<char>, c: char, i: int) -> int
    decreases s.len() - i,
{
    if i < 0 || i >= s.len() {
        -1
    } else if s[i] == c {
        i
    } else {
        find_from(s, c, i + 1)
    }
}

/// The first index of `c` at or after `from`, if any.
pub fn find_char(s: &[char], c: char, from: usize) -> (r: Option<usize>)
    ensures
        match r {
            Some(i) => i as int == find_from(s@, c, from as int),
            None => find_from(s@, c, from as int) == -1,
        },
        r matches Some(i) ==> from <= i < s.len() && s@[i as int] == c,
{
    let mut i = from;
    while i < s.len()
        invariant
            from <= i,
            find_from(s@, c, from as int) == find_from(s@, c, i as int),
        decreases s.len() - i,
    {
        if s[i] == c {
            return Some(i);
        }
        i += 1;
    }
    None
}

/// `str::splitn(n, c)` applied to the text from `pos` on.
pub open spec fn splitn_from(s: Seq<char>, pos: int, n: int, c: char) -> Seq<Seq<char>>
    decreases s.len() - pos,
{
    let i = find_from(s, c, pos);
    if n <= 1 || i < 0 || pos < 0 || pos > s.len() {
        seq![s.skip(pos)]
    } else {
        proof {
            lemma_find_from_bounds(s, c, pos);
        }
        seq![s.subrange(pos, i)] + splitn_from(s, i + 1, n - 1, c)
    }
}

/// `str::splitn(n, c)`: at most `n` pieces, the last holding the rest.
pub open spec fn splitn_of(s: Seq<char>, n: int, c: char) -> Seq<Seq<char>> {
    splitn_from(s, 0, n, c)
}

/// `find_from` gives -1 or the index of a `c` at or after `i`.
pub proof fn lemma_find_from_bounds(s: Seq<char>, c: char, i: int)
    ensures
        find_from(s, c, i) == -1 || (i <= find_from(s, c, i) < s.len() && 0 <= i && s[find_from(s, c, i)] == c),
    decreases s.len() - i,
{
    if i >= 0 && i < s.len() && s[i] != c {
        lemma_find_from_bounds(s, c, i + 1);
    }
}

/// Splits text at `c` into at most `n` pieces, as `str::splitn` does.
pub fn splitn(s: &[char], n: usize, c: char) -> (out: Vec<Vec<char>>)
    requires
        n >= 1,
    ensures
        seqs_of(out@) == splitn_of(s@, n as int, c),
{
    let mut out: Vec<Vec<char>> = Vec::new();
    let mut pos: usize = 0;
    let mut k: usize = n;
    loop
        invariant
            pos <= s.len(),
            k >= 1,
            seqs_of(out@) + splitn_from(s@, pos as int, k as int, c) == splitn_of(s@, n as int, c),
        decreases s.len() - pos,
    {
        proof {
            lemma_find_from_bounds(s@, c, pos as int);
        }
        let found = if k <= 1 { None } else { find_char(s, c, pos) };
        match found {
            Some(i) => {
                let piece = slice_chars(s, pos, i);
                let ghost before = seqs_of(out@);
                push_seq(&mut out, piece);
                assert(before + splitn_from(s@, pos as int, k as int, c) =~= seqs_of(out@)
                    + splitn_from(s@, i + 1, k - 1, c));
                pos = i + 1;
                k = k - 1;
            },
            None => {
                let piece = slice_chars(s, pos, s.len());
                let ghost before = seqs_of(out@);
                push_seq(&mut out, piece);
                assert(s@.subrange(pos as int, s@.len() as int) =~= s@.skip(pos as int));
                assert(before + splitn_from(s@, pos as int, k as int, c) =~= seqs_of(out@));
                return out;
            },
        }
    }
}

/// `str::split_once(c)`: the text before and after the first `c`.
pub open spec fn split_once_of(s: Seq<char>, c: char) -> Option<(Seq<char>, Seq<char>)> {
    let i = find_from(s, c, 0);
    if i < 0 {
        None
    } else {
        Some((s.take(i), s.skip(i + 1)))
    }
}

/// Splits text at the first `c`, as `str::split_once` does.
pub fn split_once(s: &[char], c: char) -> (r: Option<(Vec<char>, Vec<char>)>)
    ensures
        match r {
            Some((a, b)) => split_once_of(s@, c) == Some((a@, b@)),
            None => split_once_of(s@, c) is None,
        },
{
    proof {
        lemma_find_from_bounds(s@, c, 0);
    }
    match find_char(s, c, 0) {
        Some(i) => {
            let a = slice_chars(s, 0, i);
            let b = slice_chars(s, i + 1, s.len());
            assert(a@ =~= s@.take(i as int));
            assert(b@ =~= s@.skip(i + 1));
            Some((a, b))
        },
        None => None,
    }
}


// ─── Joining and replacing ───────────────────────────────────────────

/// Lines joined by newlines, as `[..].join("\n")` gives them.
pub open spec fn join_lines(ls: Seq<Seq<char>>) -> Seq<char>
    decreases ls.len(),
{
    if ls.len() == 0 {
        Seq::empty()
    } else if ls.len() == 1 {
        ls[0]
    } else {
        join_lines(ls.drop_last()).push('\n') + ls.last()
    }
}

/// Joins lines with newlines.
pub fn join_with_newlines(ls: &Vec<Vec<char>>) -> (out: Vec<char>)
    ensures
        out@ == join_lines(seqs_of(ls@)),
{
    let ghost v = seqs_of(ls@);
    let mut out: Vec<char> = Vec::new();
    let mut i: usize = 0;
    while i < ls.len()
        invariant
            v == seqs_of(ls@),
            i <= ls.len(),
            out@ == join_lines(v.take(i as int)),
        decreases ls.len() - i,
    {
        assert(v.take(i + 1).drop_last() =~= v.take(i as int));
        if i > 0 {
            out.push('\n');
        }
        append_chars(&mut out, &ls[i]);
        assert(i == 0 ==> out@ =~= v.take(1)[0]);
        i += 1;
    }
    assert(v.take(v.len() as int) =~= v);
    out
}

/// `s.replace(c, rep)`: every `c` replaced by `rep`.
pub open spec fn replace_char_of(s: Seq<char>, c: char, rep: Seq<char>) -> Seq<char>
    decreases s.len(),
{
    if s.len() == 0 {
        Seq::empty()
    } else {
        replace_char_of(s.drop_last(), c, rep) + if s.last() == c {
            rep
        } else {
            seq![s.last()]
        }
    }
}

/// Replaces every `c` by `rep`.
pub fn replace_char(s: &[char], c: char, rep: &str) -> (out: Vec<char>)
    ensures
        out@ == replace_char_of(s@, c, rep@),
{
    let r = chars_of(rep);
    let mut out: Vec<char> = Vec::new();
    let mut i: usize = 0;
    while i < s.len()
        invariant
            r@ == rep@,
            i <= s.len(),
            out@ == replace_char_of(s@.take(i as int), c, rep@),
        decreases s.len() - i,
    {
        assert(s@.take(i + 1).drop_last() =~= s@.take(i as int));
        if s[i] == c {
            append_chars(&mut out, &r);
        } else {
            out.push(s[i]);
            assert(out@ =~= replace_char_of(s@.take(i as int), c, rep@) + seq![s@[i as int]]);
        }
        i += 1;
    }
    assert(s@.take(s@.len() as int) =~= s@);
    out
}

// ─── Decimal numbers ─────────────────────────────────────────────────

pub open spec fn is_digit(c: char) -> bool {
    '0' <= c && c <= '9'
}

pub open spec fn digit_value(c: char) -> nat {
    (c as int - '0' as int) as nat
}

/// The value of a string of decimal digits.
pub open spec fn decimal_value(s: Seq<char>) -> nat
    decreases s.len(),
{
    if s.len() == 0 {
        0
    } else {
        decimal_value(s.drop_last()) * 10 + digit_value(s.last())
    }
}

/// Every character of `d` is a decimal digit.
pub open spec fn all_digit_chars(d: Seq<char>) -> bool {
    forall|i: int| 0 <= i < d.len() ==> is_digit(#[trigger] d[i])
}

/// The text after an optional leading `+`.
pub open spec fn without_plus(s: Seq<char>) -> Seq<char> {
    if s.len() > 0 && s[0] == '+' {
        s.drop_first()
    } else {
        s
    }
}

/// The digits of an unsigned number as `FromStr` reads them: an optional
/// `+`, then at least one decimal digit and nothing else.
pub open spec fn unsigned_digits(s: Seq<char>) -> Option<Seq<char>> {
    let d = without_plus(s);
    if d.len() > 0 && all_digit_chars(d) {
        Some(d)
    } else {
        None
    }
}

/// What `FromStr` gives for an unsigned integer type whose largest value is `max`.
pub open spec fn parse_unsigned(s: Seq<char>, max: nat) -> Option<nat> {
    match unsigned_digits(s) {
        Some(d) => if decimal_value(d) <= max {
            Some(decimal_value(d))
        } else {
            None
        },
        None => None,
    }
}

/// What `i32::from_str` gives: an optional sign, then at least one decimal
/// digit, in range.
pub open spec fn parse_i32_of(s: Seq<char>) -> Option<int> {
    if s.len() > 0 && s[0] == '-' {
        let d = s.drop_first();
        if d.len() > 0 && all_digit_chars(d) && decimal_value(d) <= 0x8000_0000 {
            Some(-(decimal_value(d) as int))
        } else {
            None
        }
    } else {
        match parse_unsigned(s, 0x7fff_ffff) {
            Some(v) => Some(v as int),
            None => None,
        }
    }
}

/// Appending a digit never makes a decimal value smaller.
pub proof fn lemma_decimal_value_prefix(s: Seq<char>, i: int)
    requires
        0 <= i <= s.len(),
    ensures
        decimal_value(s.take(i)) <= decimal_value(s),
    decreases s.len() - i,
{
    if i < s.len() {
        lemma_decimal_value_prefix(s, i + 1);
        assert(s.take(i + 1).drop_last() == s.take(i));
    } else {
        assert(s.take(i) == s);
    }
}

/// The value of the digits `d`, if it is at most `max`.
fn digits_value(d: &[char], max: u64) -> (r: Option<u64>)
    requires
        forall|i: int| 0 <= i < d@.len() ==> is_digit(#[trigger] d@[i]),
    ensures
        match r {
            Some(v) => v as nat == decimal_value(d@) && decimal_value(d@) <= max,
            None => decimal_value(d@) > max,
        },
{
    let mut acc: u64 = 0;
    let mut i: usize = 0;
    while i < d.len()
        invariant
            i <= d.len(),
            forall|j: int| 0 <= j < d@.len() ==> is_digit(#[trigger] d@[j]),
            acc as nat == decimal_value(d@.take(i as int)),
            acc <= max,
        decreases d.len() - i,
    {
        let c = d[i];
        assert(is_digit(d@[i as int]));
        let dv = (c as u32 - '0' as u32) as u128;
        let next: u128 = acc as u128 * 10 + dv;
        assert(d@.take(i + 1).drop_last() == d@.take(i as int));
        if next > max as u128 {
            proof {
                lemma_decimal_value_prefix(d@, i + 1);
            }
            return None;
        }
        acc = next as u64;
        i += 1;
    }
    assert(d@.take(d@.len() as int) == d@);
    Some(acc)
}

/// Whether every character is a decimal digit.
fn all_digits(d: &[char]) -> (r: bool)
    ensures
        r == forall|i: int| 0 <= i < d@.len() ==> is_digit(#[trigger] d@[i]),
{
    let mut i: usize = 0;
    while i < d.len()
        invariant
            i <= d.len(),
            forall|j: int| 0 <= j < i ==> is_digit(#[trigger] d@[j]),
        decreases d.len() - i,
    {
        if !('0' <= d[i] && d[i] <= '9') {
            return false;
        }
        i += 1;
    }
    true
}

/// Parses an unsigned number whose largest value is `max`, as `FromStr` does.
pub fn parse_unsigned_chars(s: &[char], max: u64) -> (r: Option<u64>)
    ensures
        match r {
            Some(v) => parse_unsigned(s@, max as nat) == Some(v as nat),
            None => parse_unsigned(s@, max as nat) is None,
        },
{
    let d = if s.len() > 0 && s[0] == '+' {
        slice_chars(s, 1, s.len())
    } else {
        slice_chars(s, 0, s.len())
    };
    assert(d@ =~= without_plus(s@));
    if d.len() == 0 || !all_digits(&d) {
        assert(unsigned_digits(s@) is None);
        return None;
    }
    assert(unsigned_digits(s@) == Some(d@));
    digits_value(&d, max)
}

/// `u32::from_str`.
pub fn parse_u32(s: &[char]) -> (r: Option<u32>)
    ensures
        match r {
            Some(v) => parse_unsigned(s@, u32::MAX as nat) == Some(v as nat),
            None => parse_unsigned(s@, u32::MAX as nat) is None,
        },
{
    match parse_unsigned_chars(s, u32::MAX as u64) {
        Some(v) => Some(v as u32),
        None => None,
    }
}

/// `usize::from_str`.
pub fn parse_usize(s: &[char]) -> (r: Option<usize>)
    ensures
        match r {
            Some(v) => parse_unsigned(s@, usize::MAX as nat) == Some(v as nat),
            None => parse_unsigned(s@, usize::MAX as nat) is None,
        },
{
    match parse_unsigned_chars(s, usize::MAX as u64) {
        Some(v) => Some(v as usize),
        None => None,
    }
}

/// `i32::from_str`.
pub fn parse_i32(s: &[char]) -> (r: Option<i32>)
    ensures
        match r {
            Some(v) => parse_i32_of(s@) == Some(v as int),
            None => parse_i32_of(s@) is None,
        },
{
    if s.len() > 0 && s[0] == '-' {
        let d = slice_chars(s, 1, s.len());
        assert(d@ =~= s@.drop_first());
        if d.len() == 0 || !all_digits(&d) {
            return None;
        }
        match digits_value(&d, 0x8000_0000) {
            Some(v) => Some((0 - (v as i64)) as i32),
            None => None,
        }
    } else {
        match parse_unsigned_chars(s, 0x7fff_ffff) {
            Some(v) => Some(v as i32),
            None => None,
        }
    }
}

/// The character of a decimal digit.
pub open spec fn digit_char(d: nat) -> char {
    if d == 0 { '0' }
    else if d == 1 { '1' }
    else if d == 2 { '2' }
    else if d == 3 { '3' }
    else if d == 4 { '4' }
    else if d == 5 { '5' }
    else if d == 6 { '6' }
    else if d == 7 { '7' }
    else if d == 8 { '8' }
    else { '9' }
}

/// The decimal representation of `n`, as `Display` writes it.
pub open spec fn decimal_digits(n: nat) -> Seq<char>
    decreases n,
{
    if n < 10 {
        seq![digit_char(n)]
    } else {
        decimal_digits(n / 10).push(digit_char(n % 10))
    }
}

fn digit_char_of(d: u64) -> (c: char)
    requires
        d < 10,
    ensures
        c == digit_char(d as nat),
{
    if d == 0 { '0' }
    else if d == 1 { '1' }
    else if d == 2 { '2' }
    else if d == 3 { '3' }
    else if d == 4 { '4' }
    else if d == 5 { '5' }
    else if d == 6 { '6' }
    else if d == 7 { '7' }
    else if d == 8 { '8' }
    else { '9' }
}

/// Writes `n` in decimal.
pub fn format_decimal(n: u64) -> (out: Vec<char>)
    ensures
        out@ == decimal_digits(n as nat),
    decreases n,
{
    if n < 10 {
        let mut v: Vec<char> = Vec::new();
        v.push(digit_char_of(n));
        assert(v@ =~= seq![digit_char(n as nat)]);
        v
    } else {
        let mut v = format_decimal(n / 10);
        v.push(digit_char_of(n % 10));
        v
    }
}

/// Writes `n` in decimal, after the characters already in `out`.
pub fn push_decimal(out: &mut Vec<char>, n: u64)
    ensures
        final(out)@ == old(out)@ + decimal_digits(n as nat),
{
    let d = format_decimal(n);
    append_chars(out, &d);
}

// ─── Separators and ASCII case ───────────────────────────────────────

/// Parts joined by a separator, as `[..].join(sep)` gives them.
pub open spec fn join_sep(ls: Seq<Seq<char>>, sep: Seq<char>) -> Seq<char>
    decreases ls.len(),
{
    if ls.len() == 0 {
        Seq::empty()
    } else if ls.len() == 1 {
        ls[0]
    } else {
        join_sep(ls.drop_last(), sep) + sep + ls.last()
    }
}

/// Joins parts with a separator.
pub fn join_with(ls: &Vec<Vec<char>>, sep: &str) -> (out: Vec<char>)
    ensures
        out@ == join_sep(seqs_of(ls@), sep@),
{
    let ghost v = seqs_of(ls@);
    let mut out: Vec<char> = Vec::new();
    let mut i: usize = 0;
    while i < ls.len()
        invariant
            v == seqs_of(ls@),
            i <= ls.len(),
            out@ == join_sep(v.take(i as int), sep@),
        decreases ls.len() - i,
    {
        assert(v.take(i + 1).drop_last() =~= v.take(i as int));
        if i > 0 {
            append_str(&mut out, sep);
        }
        append_chars(&mut out, &ls[i]);
        assert(i == 0 ==> out@ =~= v.take(1)[0]);
        i += 1;
    }
    assert(v.take(v.len() as int) =~= v);
    out
}

/// `char::to_ascii_lowercase`.
pub open spec fn ascii_lower(c: char) -> char {
    if 'A' <= c && c <= 'Z' {
        ((c as u32) + 32) as char
    } else {
        c
    }
}

/// `char::to_ascii_uppercase`.
pub open spec fn ascii_upper(c: char) -> char {
    if 'a' <= c && c <= 'z' {
        ((c as u32) - 32) as char
    } else {
        c
    }
}

/// `str::to_ascii_lowercase`.
pub open spec fn ascii_lower_of(s: Seq<char>) -> Seq<char> {
    Seq::new(s.len(), |i: int| ascii_lower(s[i]))
}

/// `str::to_ascii_uppercase`.
pub open spec fn ascii_upper_of(s: Seq<char>) -> Seq<char> {
    Seq::new(s.len(), |i: int| ascii_upper(s[i]))
}

/// Lowers the ASCII letters of a text.
pub fn to_ascii_lower(s: &[char]) -> (out: Vec<char>)
    ensures
        out@ == ascii_lower_of(s@),
{
    let mut out: Vec<char> = Vec::new();
    let mut i: usize = 0;
    while i < s.len()
        invariant
            i <= s.len(),
            out@ == ascii_lower_of(s@).take(i as int),
        decreases s.len() - i,
    {
        let c = s[i];
        let l = if 'A' <= c && c <= 'Z' {
            ((c as u8) + 32) as char
        } else {
            c
        };
        out.push(l);
        assert(ascii_lower_of(s@).take(i + 1) =~= ascii_lower_of(s@).take(i as int).push(l));
        i += 1;
    }
    assert(ascii_lower_of(s@).take(s@.len() as int) =~= ascii_lower_of(s@));
    out
}

/// Raises the ASCII letters of a text.
pub fn to_ascii_upper(s: &[char]) -> (out: Vec<char>)
    ensures
        out@ == ascii_upper_of(s@),
{
    let mut out: Vec<char> = Vec::new();
    let mut i: usize = 0;
    while i < s.len()
        invariant
            i <= s.len(),
            out@ == ascii_upper_of(s@).take(i as int),
        decreases s.len() - i,
    {
        let c = s[i];
        let u = if 'a' <= c && c <= 'z' {
            ((c as u8) - 32) as char
        } else {
            c
        };
        out.push(u);
        assert(ascii_upper_of(s@).take(i + 1) =~= ascii_upper_of(s@).take(i as int).push(u));
        i += 1;
    }
    assert(ascii_upper_of(s@).take(s@.len() as int) =~= ascii_upper_of(s@));
    out
}

// ─── Last occurrences and trailing runs ──────────────────────────────

/// The position of the last `c` in `s`, or -1.
pub open spec fn last_index_of(s: Seq<char>, c: char) -> int
    decreases s.len(),
{
    if s.len() == 0 {
        -1
    } else if s.last() == c {
        s.len() - 1
    } else {
        last_index_of(s.drop_last(), c)
    }
}

pub proof fn lemma_last_index_bounds(s: Seq<char>, c: char)
    ensures
        -1 <= last_index_of(s, c) < s.len(),
        last_index_of(s, c) >= 0 ==> s[last_index_of(s, c)] == c,
    decreases s.len(),
{
    if s.len() > 0 && s.last() != c {
        lemma_last_index_bounds(s.drop_last(), c);
    }
}

/// The position of the last `c` in `s`, if any.
pub fn find_last(s: &[char], c: char) -> (r: Option<usize>)
    ensures
        match r {
            Some(i) => i < s.len() && i as int == last_index_of(s@, c),
            None => last_index_of(s@, c) == -1,
        },
{
    let mut j = s.len();
    assert(s@.take(j as int) =~= s@);
    while j > 0
        invariant
            j <= s.len(),
            last_index_of(s@, c) == last_index_of(s@.take(j as int), c),
        decreases j,
    {
        assert(s@.take(j as int).drop_last() =~= s@.take(j - 1));
        if s[j - 1] == c {
            return Some(j - 1);
        }
        j -= 1;
    }
    None
}

/// Position before the run of `c` that ends at `j`.
pub open spec fn char_run_start(s: Seq<char>, c: char, j: int) -> int
    decreases j,
{
    if 0 < j <= s.len() && s[j - 1] == c {
        char_run_start(s, c, j - 1)
    } else {
        j
    }
}

/// `str::trim_matches` with a single character: every leading and
/// trailing `c` removed.
pub open spec fn trim_char_of(s: Seq<char>, c: char) -> Seq<char> {
    let t = trim_start_char_of(s, c);
    t.take(char_run_start(t, c, t.len() as int))
}

/// Removes every leading and trailing occurrence of `c`.
pub fn trim_char(s: &[char], c: char) -> (out: Vec<char>)
    ensures
        out@ == trim_char_of(s@, c),
{
    let t = trim_start_char(s, c);
    let mut j = t.len();
    while j > 0 && t[j - 1] == c
        invariant
            j <= t.len(),
            char_run_start(t@, c, t@.len() as int) == char_run_start(t@, c, j as int),
        decreases j,
    {
        j -= 1;
    }
    let out = slice_chars(&t, 0, j);
    assert(out@ =~= t@.take(j as int));
    out
}

} // verus!
