//! JSON documents held as plain values, and what the agent reads out of the
//! documents it exchanges: the text of a model reply, and the review notes of
//! a patch session, which it can also edit. Reading and printing JSON text is
//! `serde_json`'s work; every lookup and edit here is stated over
//! [`JsonView`].
use vstd::prelude::*;
use serde_json::{Number, Value};
use crate::text::{append_chars, append_str, chars_of, decimal_digits, eq_str, format_decimal, parse_unsigned, parse_usize, string_of};
use crate::context::{first_n, PatchAnnotation};
use crate::model::{strip_fences_of, strip_markdown_fences};

verus! {

broadcast use vstd::string::group_string_axioms;

// ─── Documents ───────────────────────────────────────────────────────

/// A JSON number: a non-negative integer, a negative integer, or any other
/// number in the text that `serde_json` prints for it.
pub enum JsonNumber {
    PosInt(u64),
    NegInt(i64),
    Float(String),
}

/// A JSON value. An object keeps its members in order.
pub enum Json {
    Null,
    Bool(bool),
    Number(JsonNumber),
    Str(String),
    Array(Vec<Json>),
    Object(Vec<(String, Json)>),
}

pub enum NumberView {
    PosInt(u64),
    NegInt(i64),
    Float(Seq<char>),
}

/// The mathematical value of a [`Json`].
pub enum JsonView {
    Null,
    Bool(bool),
    Number(NumberView),
    Str(Seq<char>),
    Array(Seq<JsonView>),
    Object(Seq<(Seq<char>, JsonView)>),
}

pub open spec fn number_view(n: JsonNumber) -> NumberView {
    match n {
        JsonNumber::PosInt(u) => NumberView::PosInt(u),
        JsonNumber::NegInt(i) => NumberView::NegInt(i),
        JsonNumber::Float(s) => NumberView::Float(s@),
    }
}

pub open spec fn json_view(j: Json) -> JsonView
    decreases j,
{
    match j {
        Json::Null => JsonView::Null,
        Json::Bool(b) => JsonView::Bool(b),
        Json::Number(n) => JsonView::Number(number_view(n)),
        Json::Str(s) => JsonView::Str(s@),
        Json::Array(items) => JsonView::Array(
            Seq::new(
                items.len() as nat,
                |i: int|
                    if 0 <= i < items.len() {
                        json_view(items@[i])
                    } else {
                        JsonView::Null
                    },
            ),
        ),
        Json::Object(entries) => JsonView::Object(
            Seq::new(
                entries.len() as nat,
                |i: int|
                    if 0 <= i < entries.len() {
                        (entries@[i].0@, json_view(entries@[i].1))
                    } else {
                        (Seq::empty(), JsonView::Null)
                    },
            ),
        ),
    }
}

pub open spec fn items_view(items: Seq<Json>) -> Seq<JsonView> {
    Seq::new(items.len(), |i: int| json_view(items[i]))
}

pub open spec fn entries_view(e: Seq<(String, Json)>) -> Seq<(Seq<char>, JsonView)> {
    Seq::new(e.len(), |i: int| (e[i].0@, json_view(e[i].1)))
}

pub open spec fn opt_view(o: Option<&Json>) -> Option<JsonView> {
    match o {
        Some(j) => Some(json_view(*j)),
        None => None,
    }
}

proof fn lemma_array_view(items: Vec<Json>)
    ensures
        json_view(Json::Array(items)) == JsonView::Array(items_view(items@)),
{
    let v = json_view(Json::Array(items));
    assert(v->Array_0 =~= items_view(items@));
}

proof fn lemma_object_view(entries: Vec<(String, Json)>)
    ensures
        json_view(Json::Object(entries)) == JsonView::Object(entries_view(entries@)),
{
    let v = json_view(Json::Object(entries));
    assert(v->Object_0 =~= entries_view(entries@));
}

// ─── serde_json ──────────────────────────────────────────────────────

#[verifier::external_type_specification]
#[verifier::external_body]
pub struct ExSerdeValue(Value);

#[verifier::external_type_specification]
#[verifier::external_body]
pub struct ExSerdeNumber(Number);

/// What `serde_json::from_str` gives for a text read as a
/// `serde_json::Value`: the document, or the message of its error.
pub uninterp spec fn parsed_json(raw: Seq<char>) -> Result<JsonView, Seq<char>>;

/// What `serde_json::to_string_pretty` prints for a document, or the message
/// of its error.
pub uninterp spec fn pretty_json(doc: JsonView) -> Result<Seq<char>, Seq<char>>;

/// A `serde_json::Number` as a [`JsonNumber`]: `as_u64`, else `as_i64`,
/// else its printed text.
#[verifier::external_body]
fn number_from_serde(n: &Number) -> JsonNumber {
    match (n.as_u64(), n.as_i64()) {
        (Some(u), _) => JsonNumber::PosInt(u),
        (None, Some(i)) => JsonNumber::NegInt(i),
        _ => JsonNumber::Float(n.to_string()),
    }
}

/// `serde_json`'s tree turned into a [`Json`], node for node.
#[verifier::external_body]
fn from_serde(v: Value) -> Json {
    match v {
        Value::Null => Json::Null,
        Value::Bool(b) => Json::Bool(b),
        Value::Number(n) => Json::Number(number_from_serde(&n)),
        Value::String(s) => Json::Str(s),
        Value::Array(a) => Json::Array(a.into_iter().map(from_serde).collect()),
        Value::Object(m) => Json::Object(m.into_iter().map(|(k, x)| (k, from_serde(x))).collect()),
    }
}

/// The text of a `Float` read back with `serde_json::Number::from_str`
/// (it is always text that `serde_json` printed for a number).
#[verifier::external_body]
fn float_to_serde(text: &str) -> Value {
    text.parse::<Number>().map(Value::Number).unwrap_or(Value::Null)
}

/// A [`Json`] turned back into `serde_json`'s tree, node for node.
#[verifier::external_body]
fn to_serde(j: &Json) -> Value {
    match j {
        Json::Null => Value::Null,
        Json::Bool(b) => Value::Bool(*b),
        Json::Number(JsonNumber::PosInt(u)) => Value::from(*u),
        Json::Number(JsonNumber::NegInt(i)) => Value::from(*i),
        Json::Number(JsonNumber::Float(s)) => float_to_serde(s),
        Json::Str(s) => Value::String(s.clone()),
        Json::Array(a) => Value::Array(a.iter().map(to_serde).collect()),
        Json::Object(e) => Value::Object(e.iter().map(|(k, x)| (k.clone(), to_serde(x))).collect()),
    }
}

/// Reads a JSON text with `serde_json::from_str` as a `serde_json::Value`.
/// The contract claims only that the outcome depends on the text alone:
/// the document, or the `Display` text of `serde_json`'s error.
#[verifier::external_body]
pub(crate) fn parse_json(raw: &str) -> (r: Result<Json, String>)
    ensures
        match r {
            Ok(doc) => parsed_json(raw@) == Ok::<JsonView, Seq<char>>(json_view(doc)),
            Err(e) => parsed_json(raw@) == Err::<JsonView, Seq<char>>(e@),
        },
{
    serde_json::from_str::<Value>(raw).map(from_serde).map_err(|e| e.to_string())
}

/// Prints a document with `serde_json::to_string_pretty`. The contract
/// claims only that the outcome depends on the document alone.
#[verifier::external_body]
pub(crate) fn print_json_pretty(doc: &Json) -> (r: Result<String, String>)
    ensures
        match r {
            Ok(s) => pretty_json(json_view(*doc)) == Ok::<Seq<char>, Seq<char>>(s@),
            Err(e) => pretty_json(json_view(*doc)) == Err::<Seq<char>, Seq<char>>(e@),
        },
{
    serde_json::to_string_pretty(&to_serde(doc)).map_err(|e| e.to_string())
}

// ─── Lookups ─────────────────────────────────────────────────────────

/// The position of the first member named `key`, searching from `i`.
pub open spec fn key_index_from(e: Seq<(Seq<char>, JsonView)>, key: Seq<char>, i: nat) -> Option<nat>
    decreases e.len() - i,
{
    if i >= e.len() {
        None
    } else if e[i as int].0 == key {
        Some(i)
    } else {
        key_index_from(e, key, i + 1)
    }
}

/// `Value::get` with a key: the member of an object named `key`.
pub open spec fn get_of(v: JsonView, key: Seq<char>) -> Option<JsonView> {
    match v {
        JsonView::Object(e) => match key_index_from(e, key, 0) {
            Some(k) => Some(e[k as int].1),
            None => None,
        },
        _ => None,
    }
}

/// `as_str` on a looked-up value.
pub open spec fn str_of(v: Option<JsonView>) -> Option<Seq<char>> {
    match v {
        Some(JsonView::Str(s)) => Some(s),
        _ => None,
    }
}

/// `as_u64` on a looked-up value.
pub open spec fn u64_of(v: Option<JsonView>) -> Option<u64> {
    match v {
        Some(JsonView::Number(NumberView::PosInt(u))) => Some(u),
        _ => None,
    }
}

/// `as_array` on a looked-up value.
pub open spec fn array_of(v: Option<JsonView>) -> Option<Seq<JsonView>> {
    match v {
        Some(JsonView::Array(items)) => Some(items),
        _ => None,
    }
}

fn key_index(entries: &Vec<(String, Json)>, key: &str) -> (r: Option<usize>)
    ensures
        match r {
            Some(k) => k < entries.len() && key_index_from(entries_view(entries@), key@, 0) == Some(k as nat),
            None => key_index_from(entries_view(entries@), key@, 0) is None,
        },
{
    let ghost ev = entries_view(entries@);
    let mut i: usize = 0;
    while i < entries.len()
        invariant
            i <= entries.len(),
            ev == entries_view(entries@),
            key_index_from(ev, key@, 0) == key_index_from(ev, key@, i as nat),
        decreases entries.len() - i,
    {
        let name = chars_of(entries[i].0.as_str());
        assert(ev[i as int].0 == entries@[i as int].0@);
        if eq_str(&name, key) {
            return Some(i);
        }
        i += 1;
    }
    None
}

/// The member of an object named `key` (`Value::get`).
pub fn get<'a>(j: &'a Json, key: &str) -> (r: Option<&'a Json>)
    ensures
        opt_view(r) == get_of(json_view(*j), key@),
{
    match j {
        Json::Object(entries) => {
            proof {
                lemma_object_view(*entries);
            }
            match key_index(entries, key) {
                Some(k) => Some(&entries[k].1),
                None => None,
            }
        },
        _ => None,
    }
}

/// `as_str` on a looked-up value.
pub fn as_str<'a>(o: Option<&'a Json>) -> (r: Option<&'a str>)
    ensures
        match r {
            Some(s) => str_of(opt_view(o)) == Some(s@),
            None => str_of(opt_view(o)) is None,
        },
{
    match o {
        Some(Json::Str(s)) => Some(s.as_str()),
        _ => None,
    }
}

/// `as_u64` on a looked-up value.
pub fn as_u64(o: Option<&Json>) -> (r: Option<u64>)
    ensures
        r == u64_of(opt_view(o)),
{
    match o {
        Some(Json::Number(JsonNumber::PosInt(u))) => Some(*u),
        _ => None,
    }
}

/// The text member `key` of a JSON object written as text: `None` when the
/// text does not read as JSON, is not an object, lacks the member, or the
/// member is not a string.
pub fn str_field(raw: &str, key: &str) -> (r: Option<String>)
    ensures
        match r {
            Some(t) => match parsed_json(raw@) {
                Ok(doc) => str_of(get_of(doc, key@)) == Some(t@),
                Err(_) => false,
            },
            None => match parsed_json(raw@) {
                Ok(doc) => str_of(get_of(doc, key@)) is None,
                Err(_) => true,
            },
        },
{
    match parse_json(raw) {
        Ok(doc) => match as_str(get(&doc, key)) {
            Some(t) => Some(t.to_string()),
            None => None,
        },
        Err(_) => None,
    }
}

// ─── JSON pointers ───────────────────────────────────────────────────

/// How a pointer token names an array element: decimal digits without a
/// sign and without a leading zero (`0` itself allowed).
pub open spec fn index_token(t: Seq<char>) -> Option<nat> {
    if t.len() > 0 && (t[0] == '+' || (t[0] == '0' && t.len() != 1)) {
        None
    } else {
        parse_unsigned(t, usize::MAX as nat)
    }
}

/// One step of `Value::pointer`: a member of an object, or an element of an
/// array named by its index.
pub open spec fn step_of(v: Option<JsonView>, token: Seq<char>) -> Option<JsonView> {
    match v {
        Some(JsonView::Object(e)) => get_of(JsonView::Object(e), token),
        Some(JsonView::Array(items)) => match index_token(token) {
            Some(k) => if k < items.len() {
                Some(items[k as int])
            } else {
                None
            },
            None => None,
        },
        _ => None,
    }
}

fn index_of_token(token: &str) -> (r: Option<usize>)
    ensures
        match r {
            Some(k) => index_token(token@) == Some(k as nat),
            None => index_token(token@) is None,
        },
{
    let t = chars_of(token);
    if t.len() > 0 && (t[0] == '+' || (t[0] == '0' && t.len() != 1)) {
        return None;
    }
    parse_usize(&t)
}

/// One step of `Value::pointer`.
pub fn step<'a>(o: Option<&'a Json>, token: &str) -> (r: Option<&'a Json>)
    ensures
        opt_view(r) == step_of(opt_view(o), token@),
{
    match o {
        Some(Json::Object(entries)) => {
            proof {
                lemma_object_view(*entries);
            }
            get(o.unwrap(), token)
        },
        Some(Json::Array(items)) => {
            proof {
                lemma_array_view(*items);
            }
            match index_of_token(token) {
                Some(k) => if k < items.len() {
                    Some(&items[k])
                } else {
                    None
                },
                None => None,
            }
        },
        _ => None,
    }
}

// ─── Model replies ───────────────────────────────────────────────────

/// The value at `/choices/0/message/content` of a chat-completions reply.
pub open spec fn message_content_of(doc: JsonView) -> Option<JsonView> {
    step_of(step_of(step_of(step_of(Some(doc), "choices"@), "0"@), "message"@), "content"@)
}

/// The text that carries the planned actions: the message content when it
/// is a string, else the whole reply.
pub open spec fn reply_text_of(doc: JsonView, raw: Seq<char>) -> Seq<char> {
    match str_of(message_content_of(doc)) {
        Some(s) => s,
        None => raw,
    }
}

/// The actions text of a reply that was read as `doc`, without its code
/// fence.
pub fn reply_payload_from(doc: &Json, raw: &str) -> (s: String)
    ensures
        s@ == strip_fences_of(reply_text_of(json_view(*doc), raw@)),
{
    let c = step(step(step(step(Some(doc), "choices"), "0"), "message"), "content");
    match as_str(c) {
        Some(text) => strip_markdown_fences(text),
        None => strip_markdown_fences(raw),
    }
}

/// The actions text of a model reply, without its code fence; a reply that
/// is not JSON is refused with the parser's message.
pub fn reply_payload(raw: &str) -> (r: Result<String, String>)
    ensures
        match parsed_json(raw@) {
            Ok(doc) => r is Ok && r->Ok_0@ == strip_fences_of(reply_text_of(doc, raw@)),
            Err(e) => r is Err && r->Err_0@ == "failed to parse API response: "@ + e,
        },
{
    match parse_json(raw) {
        Ok(doc) => Ok(reply_payload_from(&doc, raw)),
        Err(e) => {
            let mut m: Vec<char> = Vec::new();
            append_str(&mut m, "failed to parse API response: ");
            append_str(&mut m, e.as_str());
            Err(string_of(&m))
        },
    }
}

// ─── Patch-session notes ─────────────────────────────────────────────

/// What one entry of a session's `hunks` gives: its file and hunk index,
/// both required, its status (`unknown` when missing) and its note (empty
/// when missing).
pub open spec fn annotation_of(item: JsonView) -> Option<(Seq<char>, usize, Seq<char>, Seq<char>)> {
    match (str_of(get_of(item, "file"@)), u64_of(get_of(item, "hunk_index"@))) {
        (Some(f), Some(h)) => Some(
            (
                f,
                h as usize,
                match str_of(get_of(item, "status"@)) {
                    Some(s) => s,
                    None => "unknown"@,
                },
                match str_of(get_of(item, "annotation"@)) {
                    Some(a) => a,
                    None => Seq::empty(),
                },
            ),
        ),
        _ => None,
    }
}

/// The entries of `items` that give an annotation, in order.
pub open spec fn annotations_of(items: Seq<JsonView>) -> Seq<(Seq<char>, usize, Seq<char>, Seq<char>)>
    decreases items.len(),
{
    if items.len() == 0 {
        Seq::empty()
    } else {
        let rest = annotations_of(items.drop_last());
        match annotation_of(items.last()) {
            Some(a) => rest.push(a),
            None => rest,
        }
    }
}

pub open spec fn annotation_view(a: PatchAnnotation) -> (Seq<char>, usize, Seq<char>, Seq<char>) {
    (a.file@, a.hunk_index, a.status@, a.annotation@)
}

pub open spec fn annotation_views(v: Seq<PatchAnnotation>) -> Seq<(Seq<char>, usize, Seq<char>, Seq<char>)> {
    Seq::new(v.len(), |i: int| annotation_view(v[i]))
}

/// The most notes a workspace context carries.
pub const MAX_ANNOTATIONS: usize = 24;

/// The notes of a patch session: the first 24 annotations of its `hunks`
/// (none when `hunks` is missing or not an array).
pub open spec fn session_notes_of(doc: JsonView) -> Seq<(Seq<char>, usize, Seq<char>, Seq<char>)> {
    match array_of(get_of(doc, "hunks"@)) {
        Some(items) => first_n(annotations_of(items), MAX_ANNOTATIONS as nat),
        None => Seq::empty(),
    }
}

fn annotation_from(item: &Json) -> (r: Option<PatchAnnotation>)
    ensures
        match r {
            Some(a) => annotation_of(json_view(*item)) == Some(annotation_view(a)),
            None => annotation_of(json_view(*item)) is None,
        },
{
    proof {
        reveal_strlit("unknown");
    }
    let file = as_str(get(item, "file"));
    let index = as_u64(get(item, "hunk_index"));
    match (file, index) {
        (Some(f), Some(h)) => {
            let status = match as_str(get(item, "status")) {
                Some(s) => string_of(&chars_of(s)),
                None => string_of(&chars_of("unknown")),
            };
            let note = match as_str(get(item, "annotation")) {
                Some(a) => string_of(&chars_of(a)),
                None => String::new(),
            };
            Some(PatchAnnotation { file: string_of(&chars_of(f)), hunk_index: h as usize, status, annotation: note })
        },
        _ => None,
    }
}


/// The notes of a patch session that was read as `doc`.
pub fn session_notes(doc: &Json) -> (out: Vec<PatchAnnotation>)
    ensures
        annotation_views(out@) == session_notes_of(json_view(*doc)),
{
    let hunks = get(doc, "hunks");
    let items = match hunks {
        Some(Json::Array(items)) => items,
        _ => {
            let empty: Vec<PatchAnnotation> = Vec::new();
            assert(annotation_views(empty@) =~= Seq::empty());
            return empty;
        },
    };
    proof {
        lemma_array_view(*items);
    }
    let ghost iv = items_view(items@);
    let mut out: Vec<PatchAnnotation> = Vec::new();
    let mut i: usize = 0;
    while i < items.len()
        invariant
            i <= items.len(),
            iv == items_view(items@),
            annotation_views(out@) == annotations_of(iv.take(i as int)),
        decreases items.len() - i,
    {
        let a = annotation_from(&items[i]);
        let ghost before = out@;
        assert(iv.take(i + 1).drop_last() =~= iv.take(i as int));
        match a {
            Some(a) => {
                out.push(a);
                assert(annotation_views(out@) =~= annotation_views(before).push(annotation_view(a)));
            },
            None => {},
        }
        i += 1;
    }
    assert(iv.take(items.len() as int) =~= iv);
    let ghost all = out@;
    out.truncate(MAX_ANNOTATIONS);
    assert(annotation_views(out@) =~= first_n(annotation_views(all), MAX_ANNOTATIONS as nat));
    out
}

/// The notes of a patch session file; a file that is not JSON has none.
pub fn read_session_notes(raw: &str) -> (out: Vec<PatchAnnotation>)
    ensures
        annotation_views(out@) == match parsed_json(raw@) {
            Ok(doc) => session_notes_of(doc),
            Err(_) => Seq::empty(),
        },
{
    match parse_json(raw) {
        Ok(doc) => session_notes(&doc),
        Err(_) => {
            let empty: Vec<PatchAnnotation> = Vec::new();
            assert(annotation_views(empty@) =~= Seq::empty());
            empty
        },
    }
}


// ─── Editing a session's notes ───────────────────────────────────────

/// Whether an entry of `hunks` is the one for hunk `index` of `file`.
pub open spec fn is_hunk(item: JsonView, file: Seq<char>, index: u64) -> bool {
    str_of(get_of(item, "file"@)) == Some(file) && u64_of(get_of(item, "hunk_index"@)) == Some(index)
}

/// The position of the first entry for hunk `index` of `file`, from `i` on.
pub open spec fn first_hunk_from(items: Seq<JsonView>, file: Seq<char>, index: u64, i: nat) -> Option<nat>
    decreases items.len() - i,
{
    if i >= items.len() {
        None
    } else if is_hunk(items[i as int], file, index) {
        Some(i)
    } else {
        first_hunk_from(items, file, index, i + 1)
    }
}

/// `Map::insert` on an object: the member's value replaced in place, or the
/// member added; anything but an object stays as it is.
pub open spec fn set_member_of(v: JsonView, key: Seq<char>, value: JsonView) -> JsonView {
    match v {
        JsonView::Object(e) => JsonView::Object(
            match key_index_from(e, key, 0) {
                Some(k) => e.update(k as int, (e[k as int].0, value)),
                None => e.push((key, value)),
            },
        ),
        _ => v,
    }
}

pub open spec fn missing_hunks_message() -> Seq<char> {
    "patch session missing hunks"@
}

pub open spec fn hunk_not_found_message(file: Seq<char>, index: u64) -> Seq<char> {
    "patch hunk not found: "@ + file + seq!['#'] + decimal_digits(index as nat)
}

/// A patch session with `note` set as the annotation of hunk `index` of
/// `file`: refused when the session has no `hunks` array, or no entry for
/// that hunk.
pub open spec fn annotated_of(doc: JsonView, file: Seq<char>, index: u64, note: Seq<char>) -> Result<JsonView, Seq<char>> {
    match doc {
        JsonView::Object(e) => match key_index_from(e, "hunks"@, 0) {
            Some(k) => match e[k as int].1 {
                JsonView::Array(items) => match first_hunk_from(items, file, index, 0) {
                    Some(t) => Ok(
                        JsonView::Object(
                            e.update(
                                k as int,
                                (
                                    e[k as int].0,
                                    JsonView::Array(
                                        items.update(t as int, set_member_of(items[t as int], "annotation"@, JsonView::Str(note))),
                                    ),
                                ),
                            ),
                        ),
                    ),
                    None => Err(hunk_not_found_message(file, index)),
                },
                _ => Err(missing_hunks_message()),
            },
            None => Err(missing_hunks_message()),
        },
        _ => Err(missing_hunks_message()),
    }
}

fn is_hunk_entry(item: &Json, file: &str, index: u64) -> (b: bool)
    ensures
        b == is_hunk(json_view(*item), file@, index),
{
    match (as_str(get(item, "file")), as_u64(get(item, "hunk_index"))) {
        (Some(f), Some(h)) => eq_str(&chars_of(f), file) && h == index,
        _ => false,
    }
}

fn first_hunk(items: &Vec<Json>, file: &str, index: u64) -> (r: Option<usize>)
    ensures
        match r {
            Some(t) => t < items.len() && first_hunk_from(items_view(items@), file@, index, 0) == Some(t as nat),
            None => first_hunk_from(items_view(items@), file@, index, 0) is None,
        },
{
    let ghost iv = items_view(items@);
    let mut i: usize = 0;
    while i < items.len()
        invariant
            i <= items.len(),
            iv == items_view(items@),
            first_hunk_from(iv, file@, index, 0) == first_hunk_from(iv, file@, index, i as nat),
        decreases items.len() - i,
    {
        if is_hunk_entry(&items[i], file, index) {
            return Some(i);
        }
        i += 1;
    }
    None
}

/// Sets a member of an object (`Map::insert`).
fn set_member(v: Json, key: &str, value: Json) -> (r: Json)
    ensures
        json_view(r) == set_member_of(json_view(v), key@, json_view(value)),
{
    match v {
        Json::Object(e) => {
            let mut e = e;
            let ghost old_e = e@;
            proof {
                lemma_object_view(e);
            }
            match key_index(&e, key) {
                Some(k) => {
                    let (name, _) = e.remove(k);
                    e.insert(k, (name, value));
                    assert(entries_view(e@) =~= entries_view(old_e).update(
                        k as int,
                        (entries_view(old_e)[k as int].0, json_view(value)),
                    ));
                },
                None => {
                    let name = string_of(&chars_of(key));
                    e.push((name, value));
                    assert(entries_view(e@) =~= entries_view(old_e).push((key@, json_view(value))));
                },
            }
            proof {
                lemma_object_view(e);
            }
            Json::Object(e)
        },
        other => other,
    }
}

fn text_string(lit: &str) -> (s: String)
    ensures
        s@ == lit@,
{
    string_of(&chars_of(lit))
}

/// Sets `note` as the annotation of hunk `hunk_index` of `file` in a patch
/// session that was read as `doc`.
pub fn annotate_session_doc(doc: Json, file: &str, hunk_index: usize, note: &str) -> (r: Result<Json, String>)
    ensures
        match annotated_of(json_view(doc), file@, hunk_index as u64, note@) {
            Ok(d) => r is Ok && json_view(r->Ok_0) == d,
            Err(m) => r is Err && r->Err_0@ == m,
        },
{
    let index = hunk_index as u64;
    let ghost dv = json_view(doc);
    match doc {
        Json::Object(e) => {
            let mut e = e;
            let ghost old_e = e@;
            proof {
                lemma_object_view(e);
            }
            let k = match key_index(&e, "hunks") {
                Some(k) => k,
                None => return Err(text_string("patch session missing hunks")),
            };
            let (name, hunks) = e.remove(k);
            assert(entries_view(old_e)[k as int] == (name@, json_view(hunks)));
            match hunks {
                Json::Array(items) => {
                    let mut items = items;
                    let ghost old_items = items@;
                    proof {
                        lemma_array_view(items);
                    }
                    let t = match first_hunk(&items, file, index) {
                        Some(t) => t,
                        None => {
                            let mut m = chars_of("patch hunk not found: ");
                            append_str(&mut m, file);
                            m.push('#');
                            let digits = format_decimal(index);
                            append_chars(&mut m, &digits);
                            assert(m@ =~= hunk_not_found_message(file@, index));
                            return Err(string_of(&m));
                        },
                    };
                    let item = items.remove(t);
                    let ghost item_view = json_view(item);
                    assert(items_view(old_items)[t as int] == item_view);
                    let updated = set_member(item, "annotation", Json::Str(text_string(note)));
                    items.insert(t, updated);
                    assert(items_view(items@) =~= items_view(old_items).update(t as int, json_view(updated)));
                    let new_hunks = Json::Array(items);
                    proof {
                        lemma_array_view(items);
                    }
                    e.insert(k, (name, new_hunks));
                    assert(entries_view(e@) =~= entries_view(old_e).update(k as int, (name@, json_view(new_hunks))));
                    proof {
                        lemma_object_view(e);
                    }
                    Ok(Json::Object(e))
                },
                _ => Err(text_string("patch session missing hunks")),
            }
        },
        _ => Err(text_string("patch session missing hunks")),
    }
}

/// The text of a patch session file after setting `note` as the annotation
/// of hunk `hunk_index` of `file`, printed by `serde_json`.
pub fn annotate_session(raw: &str, file: &str, hunk_index: usize, note: &str) -> (r: Result<String, String>)
    ensures
        match parsed_json(raw@) {
            Err(e) => r is Err && r->Err_0@ == "patch session parse failed: "@ + e,
            Ok(doc) => match annotated_of(doc, file@, hunk_index as u64, note@) {
                Err(m) => r is Err && r->Err_0@ == m,
                Ok(d) => match pretty_json(d) {
                    Ok(s) => r is Ok && r->Ok_0@ == s,
                    Err(e) => r is Err && r->Err_0@ == e,
                },
            },
        },
{
    let doc = match parse_json(raw) {
        Ok(doc) => doc,
        Err(e) => {
            let mut m = chars_of("patch session parse failed: ");
            append_str(&mut m, e.as_str());
            return Err(string_of(&m));
        },
    };
    let updated = annotate_session_doc(doc, file, hunk_index, note)?;
    print_json_pretty(&updated)
}


// ─── Reading back a note ─────────────────────────────────────────────

proof fn lemma_key_index_found(e: Seq<(Seq<char>, JsonView)>, key: Seq<char>, i: nat)
    ensures
        match key_index_from(e, key, i) {
            Some(p) => i <= p < e.len() && e[p as int].0 == key,
            None => forall|j: int| i <= j < e.len() ==> #[trigger] e[j].0 != key,
        },
    decreases e.len() - i,
{
    if i < e.len() && e[i as int].0 != key {
        lemma_key_index_found(e, key, i + 1);
    }
}

proof fn lemma_key_index_same_keys(e1: Seq<(Seq<char>, JsonView)>, e2: Seq<(Seq<char>, JsonView)>, key: Seq<char>, i: nat)
    requires
        e1.len() == e2.len(),
        forall|j: int| 0 <= j < e1.len() ==> #[trigger] e1[j].0 == e2[j].0,
    ensures
        key_index_from(e1, key, i) == key_index_from(e2, key, i),
    decreases e1.len() - i,
{
    if i < e1.len() {
        lemma_key_index_same_keys(e1, e2, key, i + 1);
    }
}

proof fn lemma_key_index_push(e: Seq<(Seq<char>, JsonView)>, x: (Seq<char>, JsonView), key: Seq<char>, i: nat)
    requires
        i <= e.len(),
    ensures
        key_index_from(e.push(x), key, i) == match key_index_from(e, key, i) {
            Some(p) => Some(p),
            None => if x.0 == key {
                Some(e.len())
            } else {
                None
            },
        },
    decreases e.len() - i,
{
    if i < e.len() {
        assert(e.push(x)[i as int] == e[i as int]);
        lemma_key_index_push(e, x, key, i + 1);
    } else {
        assert(e.push(x)[i as int] == x);
        assert(key_index_from(e.push(x), key, i + 1) is None);
    }
}

/// Setting one member leaves every other member as it was, and the set
/// member reads back as set.
proof fn lemma_set_member(v: JsonView, key: Seq<char>, value: JsonView, other: Seq<char>)
    requires
        v is Object,
        other != key,
    ensures
        get_of(set_member_of(v, key, value), key) == Some(value),
        get_of(set_member_of(v, key, value), other) == get_of(v, other),
{
    let e = v->Object_0;
    lemma_key_index_found(e, key, 0);
    lemma_key_index_found(e, other, 0);
    match key_index_from(e, key, 0) {
        Some(p) => {
            let e2 = e.update(p as int, (e[p as int].0, value));
            lemma_key_index_same_keys(e, e2, key, 0);
            lemma_key_index_same_keys(e, e2, other, 0);
        },
        None => {
            lemma_key_index_push(e, (key, value), key, 0);
            lemma_key_index_push(e, (key, value), other, 0);
        },
    }
}

proof fn lemma_first_hunk_found(items: Seq<JsonView>, file: Seq<char>, index: u64, i: nat)
    ensures
        match first_hunk_from(items, file, index, i) {
            Some(t) => i <= t < items.len() && is_hunk(items[t as int], file, index) && forall|j: int|
                i <= j < t ==> !is_hunk(#[trigger] items[j], file, index),
            None => true,
        },
    decreases items.len() - i,
{
    if i < items.len() && !is_hunk(items[i as int], file, index) {
        lemma_first_hunk_found(items, file, index, i + 1);
    }
}

proof fn lemma_first_hunk_at(items: Seq<JsonView>, file: Seq<char>, index: u64, i: nat, t: nat)
    requires
        i <= t < items.len(),
        is_hunk(items[t as int], file, index),
        forall|j: int| i <= j < t ==> !is_hunk(#[trigger] items[j], file, index),
    ensures
        first_hunk_from(items, file, index, i) == Some(t),
    decreases t - i,
{
    if i < t {
        lemma_first_hunk_at(items, file, index, i + 1, t);
    }
}

/// What one reads back of a note written to a patch session: the session
/// still has its `hunks` array, the entry for the hunk is still the first
/// one for it, and it carries the note.
pub proof fn law_note_read_back(doc: JsonView, file: Seq<char>, index: u64, note: Seq<char>)
    requires
        annotated_of(doc, file, index, note) is Ok,
    ensures
        ({
            let after = annotated_of(doc, file, index, note)->Ok_0;
            &&& array_of(get_of(after, "hunks"@)) is Some
            &&& first_hunk_from(array_of(get_of(after, "hunks"@))->Some_0, file, index, 0) == first_hunk_from(
                array_of(get_of(doc, "hunks"@))->Some_0,
                file,
                index,
                0,
            )
            &&& first_hunk_from(array_of(get_of(doc, "hunks"@))->Some_0, file, index, 0) matches Some(t)
                && str_of(get_of(array_of(get_of(after, "hunks"@))->Some_0[t as int], "annotation"@)) == Some(note)
        }),
{
    reveal_strlit("annotation");
    reveal_strlit("file");
    reveal_strlit("hunk_index");
    let e = doc->Object_0;
    let k = key_index_from(e, "hunks"@, 0)->Some_0;
    lemma_key_index_found(e, "hunks"@, 0);
    let items = e[k as int].1->Array_0;
    let t = first_hunk_from(items, file, index, 0)->Some_0;
    lemma_first_hunk_found(items, file, index, 0);
    let item = items[t as int];
    let updated = set_member_of(item, "annotation"@, JsonView::Str(note));
    let items2 = items.update(t as int, updated);
    let e2 = e.update(k as int, (e[k as int].0, JsonView::Array(items2)));
    lemma_key_index_same_keys(e, e2, "hunks"@, 0);
    assert(get_of(JsonView::Object(e2), "hunks"@) == Some(JsonView::Array(items2)));
    assert(item is Object) by {
        assert(str_of(get_of(item, "file"@)) == Some(file));
    }
    assert("annotation"@.len() != "file"@.len());
    assert("annotation"@[0] != "hunk_index"@[0]);
    lemma_set_member(item, "annotation"@, JsonView::Str(note), "file"@);
    lemma_set_member(item, "annotation"@, JsonView::Str(note), "hunk_index"@);
    assert(is_hunk(items2[t as int], file, index));
    assert forall|j: int| 0 <= j < t implies !is_hunk(#[trigger] items2[j], file, index) by {
        assert(items2[j] == items[j]);
    }
    lemma_first_hunk_at(items2, file, index, 0, t);
}

} // verus!
