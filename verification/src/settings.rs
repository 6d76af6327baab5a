//! The settings page's search: which rows and sections a query keeps in
//! view, and which page is then shown.
use vstd::prelude::*;
use crate::files::{to_lowercase, unicode_lower};
use crate::shell::contains_ignore_case;
use crate::text::{chars_eq, chars_of, has_infix, string_of, trim, trim_of};

verus! {

broadcast use vstd::string::group_string_axioms;

/// A settings section as the search reads it: its page, its title, and
/// the text of each of its rows.
pub struct SearchSection {
    pub id: String,
    pub title: String,
    pub rows: Vec<String>,
}

/// What a search leaves in view: each row of each section, each section,
/// and the page to switch to when the shown one has to change.
pub struct SearchOutcome {
    pub rows_visible: Vec<Vec<bool>>,
    pub sections_visible: Vec<bool>,
    pub show: Option<String>,
}

/// The query as it is matched: trimmed and in lower case.
pub open spec fn search_query_of(query: Seq<char>) -> Seq<char> {
    unicode_lower(trim_of(query))
}

/// Whether a section's title matches (an empty query matches everything).
pub open spec fn title_hit(title: Seq<char>, q: Seq<char>) -> bool {
    q.len() == 0 || has_infix(unicode_lower(title), q)
}

/// Whether a row stays in view: its section's title matches, or its own
/// text does.
pub open spec fn row_hit(title: Seq<char>, row: Seq<char>, q: Seq<char>) -> bool {
    title_hit(title, q) || has_infix(unicode_lower(row), q)
}

pub open spec fn rows_of(s: SearchSection) -> Seq<Seq<char>> {
    Seq::new(s.rows@.len(), |i: int| s.rows@[i]@)
}

/// Whether a section stays in view: its title matches or one of its rows
/// does.
pub open spec fn section_hit(s: SearchSection, q: Seq<char>) -> bool {
    title_hit(s.title@, q) || exists|i: int| 0 <= i < s.rows@.len() && row_hit(s.title@, #[trigger] rows_of(s)[i], q)
}

/// The pages of the sections that stay in view, in order.
pub open spec fn hit_ids(sections: Seq<SearchSection>, q: Seq<char>) -> Seq<Seq<char>>
    decreases sections.len(),
{
    if sections.len() == 0 {
        Seq::empty()
    } else {
        let rest = hit_ids(sections.drop_last(), q);
        if section_hit(sections.last(), q) {
            rest.push(sections.last().id@)
        } else {
            rest
        }
    }
}

/// The page to switch to: the empty-result page when nothing matched;
/// else the first match when the empty-result page or a page without a
/// match is shown; else none (the shown page stays).
pub open spec fn page_after(ids: Seq<Seq<char>>, current: Option<Seq<char>>, empty_id: Seq<char>) -> Option<Seq<char>> {
    if ids.len() == 0 {
        Some(empty_id)
    } else {
        match current {
            Some(c) => if c == empty_id || !ids.contains(c) {
                Some(ids[0])
            } else {
                None
            },
            None => Some(ids[0]),
        }
    }
}

fn trimmed_lower(query: &str) -> (q: Vec<char>)
    ensures
        q@ == search_query_of(query@),
{
    let t = string_of(&trim(&chars_of(query)));
    let lower = to_lowercase(t.as_str());
    chars_of(lower.as_str())
}

fn section_rows(s: &SearchSection, q: &Vec<char>) -> (r: (Vec<bool>, bool))
    ensures
        r.0@.len() == s.rows@.len(),
        forall|i: int| 0 <= i < s.rows@.len() ==> r.0@[i] == row_hit(s.title@, #[trigger] rows_of(*s)[i], q@),
        r.1 == section_hit(*s, q@),
{
    let qs = string_of(q);
    let title_match = q.len() == 0 || contains_ignore_case(s.title.as_str(), qs.as_str());
    let mut visible: Vec<bool> = Vec::new();
    let mut any = false;
    let mut i: usize = 0;
    while i < s.rows.len()
        invariant
            i <= s.rows.len(),
            qs@ == q@,
            title_match == title_hit(s.title@, q@),
            visible@.len() == i,
            forall|j: int| 0 <= j < i ==> visible@[j] == row_hit(s.title@, #[trigger] rows_of(*s)[j], q@),
            any == exists|j: int| 0 <= j < i && row_hit(s.title@, #[trigger] rows_of(*s)[j], q@),
        decreases s.rows.len() - i,
    {
        let hit = title_match || contains_ignore_case(s.rows[i].as_str(), qs.as_str());
        assert(rows_of(*s)[i as int] == s.rows@[i as int]@);
        visible.push(hit);
        any = any || hit;
        i += 1;
    }
    (visible, title_match || any)
}

/// What a search for `query` keeps in view, with the page shown now
/// (`current`) and the page that says nothing matched (`empty_id`).
pub fn apply_search(sections: &Vec<SearchSection>, query: &str, current: Option<&str>, empty_id: &str) -> (out: SearchOutcome)
    ensures
        out.rows_visible@.len() == sections@.len(),
        out.sections_visible@.len() == sections@.len(),
        forall|k: int| 0 <= k < sections@.len() ==> {
            &&& (#[trigger] out.sections_visible@[k]) == section_hit(sections@[k], search_query_of(query@))
            &&& out.rows_visible@[k]@.len() == sections@[k].rows@.len()
            &&& forall|i: int| 0 <= i < sections@[k].rows@.len() ==> out.rows_visible@[k]@[i] == row_hit(
                sections@[k].title@,
                #[trigger] rows_of(sections@[k])[i],
                search_query_of(query@),
            )
        },
        match out.show {
            Some(p) => page_after(
                hit_ids(sections@, search_query_of(query@)),
                match current {
                    Some(c) => Some(c@),
                    None => None,
                },
                empty_id@,
            ) == Some(p@),
            None => page_after(
                hit_ids(sections@, search_query_of(query@)),
                match current {
                    Some(c) => Some(c@),
                    None => None,
                },
                empty_id@,
            ) is None,
        },
{
    let q = trimmed_lower(query);
    let ghost qv = q@;
    let mut rows_visible: Vec<Vec<bool>> = Vec::new();
    let mut sections_visible: Vec<bool> = Vec::new();
    let mut ids: Vec<Vec<char>> = Vec::new();
    let mut k: usize = 0;
    while k < sections.len()
        invariant
            k <= sections.len(),
            qv == q@,
            qv == search_query_of(query@),
            rows_visible@.len() == k,
            sections_visible@.len() == k,
            forall|m: int| 0 <= m < k ==> {
                &&& (#[trigger] sections_visible@[m]) == section_hit(sections@[m], qv)
                &&& rows_visible@[m]@.len() == sections@[m].rows@.len()
                &&& forall|i: int| 0 <= i < sections@[m].rows@.len() ==> rows_visible@[m]@[i] == row_hit(
                    sections@[m].title@,
                    #[trigger] rows_of(sections@[m])[i],
                    qv,
                )
            },
            Seq::new(ids@.len(), |j: int| ids@[j]@) == hit_ids(sections@.take(k as int), qv),
        decreases sections.len() - k,
    {
        let (visible, shown) = section_rows(&sections[k], &q);
        assert(sections@.take(k + 1).drop_last() =~= sections@.take(k as int));
        assert(sections@.take(k + 1).last() == sections@[k as int]);
        if shown {
            let ghost prev = Seq::new(ids@.len(), |j: int| ids@[j]@);
            let id = chars_of(sections[k].id.as_str());
            let ghost idv = id@;
            ids.push(id);
            assert(Seq::new(ids@.len(), |j: int| ids@[j]@) =~= prev.push(idv));
        }
        rows_visible.push(visible);
        sections_visible.push(shown);
        k += 1;
    }
    assert(sections@.take(sections@.len() as int) =~= sections@);
    let ghost idv = Seq::new(ids@.len(), |j: int| ids@[j]@);
    let show = if ids.len() == 0 {
        Some(string_of(&chars_of(empty_id)))
    } else {
        assert(idv[0] == ids@[0]@);
        match current {
            None => Some(string_of(&ids[0])),
            Some(c) => {
                let cv = chars_of(c);
                let mut found = false;
                let mut j: usize = 0;
                while j < ids.len()
                    invariant
                        j <= ids.len(),
                        idv == Seq::new(ids@.len(), |q: int| ids@[q]@),
                        found == exists|m: int| 0 <= m < j && idv[m] == cv@,
                    decreases ids.len() - j,
                {
                    assert(idv[j as int] == ids@[j as int]@);
                    if chars_eq(&ids[j], &cv) {
                        found = true;
                    }
                    j += 1;
                }
                let on_empty = crate::text::eq_str(&cv, empty_id);
                if on_empty || !found {
                    Some(string_of(&ids[0]))
                } else {
                    assert(idv.contains(cv@));
                    None
                }
            },
        }
    };
    SearchOutcome { rows_visible, sections_visible, show }
}

} // verus!
