//! What the commands send and how they shape what comes back: request
//! paths, the query of an issue listing, the body of a new issue, and the
//! rows, details and colours that are shown.
use vstd::prelude::*;
use vstd::string::*;

use crate::json::{
    field, key_index, lemma_array_view, lemma_key_index, lemma_key_index_push, lemma_object_view,
    Fields, Json, JsonV,
};
use crate::text::{decimal, text_eq, u64_to_text};

verus! {

/// The filters and page of an issue listing.
pub struct IssuesListParams<'a> {
    pub project: &'a str,
    pub state: Option<&'a str>,
    pub assignee: Option<&'a str>,
    pub per_page: u32,
    pub cursor: Option<&'a str>,
}

/// The fields of a new issue; the optional ones are sent only when given.
pub struct IssuesCreateParams<'a> {
    pub project: &'a str,
    pub title: &'a str,
    pub description: Option<&'a str>,
    pub state: Option<&'a str>,
    pub priority: Option<&'a str>,
    pub assignees: &'a [String],
    pub labels: &'a [String],
}

/// The path of the workspace's projects.
pub fn projects_path(workspace: &str) -> (r: String)
    ensures
        r@ == "workspaces/"@ + workspace@ + "/projects/"@,
{
    let mut r = String::from_str("workspaces/");
    r.append(workspace);
    r.append("/projects/");
    r
}

/// The path of a collection (`states`, `labels`, `members`, `issues`) of a
/// project.
pub fn project_items_path(workspace: &str, project: &str, items: &str) -> (r: String)
    ensures
        r@ == "workspaces/"@ + workspace@ + "/projects/"@ + project@ + "/"@ + items@ + "/"@,
{
    let mut r = projects_path(workspace);
    r.append(project);
    r.append("/");
    r.append(items);
    r.append("/");
    r
}

/// The path of one issue of a project.
pub fn issue_path(workspace: &str, project: &str, id: &str) -> (r: String)
    ensures
        r@ == "workspaces/"@ + workspace@ + "/projects/"@ + project@ + "/issues/"@ + id@ + "/"@,
{
    let mut r = project_items_path(workspace, project, "issues");
    proof {
        reveal_strlit("issues");
        reveal_strlit("/issues/");
        reveal_strlit("/");
        assert(r@ =~= "workspaces/"@ + workspace@ + "/projects/"@ + project@ + "/issues/"@);
    }
    r.append(id);
    r.append("/");
    r
}

pub open spec fn query_pair(k: Seq<char>, v: Option<&str>) -> Seq<(Seq<char>, Seq<char>)> {
    match v {
        Some(x) => seq![(k, x@)],
        None => seq![],
    }
}

/// The query of an issue listing: the page size, then each filter and the
/// cursor where given.
pub open spec fn list_query(p: IssuesListParams) -> Seq<(Seq<char>, Seq<char>)> {
    seq![("per_page"@, decimal(p.per_page as nat))] + query_pair("state"@, p.state) + query_pair(
        "assignee"@,
        p.assignee,
    ) + query_pair("cursor"@, p.cursor)
}

pub open spec fn pairs_view(v: Seq<(String, String)>) -> Seq<(Seq<char>, Seq<char>)> {
    Seq::new(v.len(), |i: int| (v[i].0@, v[i].1@))
}

fn push_pair(q: &mut Vec<(String, String)>, k: &str, v: Option<&str>)
    ensures
        pairs_view(final(q)@) == pairs_view(old(q)@) + query_pair(k@, v),
{
    match v {
        Some(x) => {
            q.push((String::from_str(k), String::from_str(x)));
        },
        None => {},
    }
    assert(pairs_view(final(q)@) =~= pairs_view(old(q)@) + query_pair(k@, v));
}

/// The query parameters of an issue listing.
pub fn issues_list_query(params: &IssuesListParams) -> (r: Vec<(String, String)>)
    ensures
        pairs_view(r@) == list_query(*params),
{
    let mut q: Vec<(String, String)> = Vec::new();
    q.push((String::from_str("per_page"), u64_to_text(params.per_page as u64)));
    assert(pairs_view(q@) =~= seq![("per_page"@, decimal(params.per_page as nat))]);
    push_pair(&mut q, "state", params.state);
    push_pair(&mut q, "assignee", params.assignee);
    push_pair(&mut q, "cursor", params.cursor);
    q
}

pub open spec fn text_entry(k: Seq<char>, v: Option<&str>) -> Seq<(Seq<char>, JsonV)> {
    match v {
        Some(x) => seq![(k, JsonV::Str(x@))],
        None => seq![],
    }
}

pub open spec fn texts_doc(ss: Seq<String>) -> JsonV {
    JsonV::Array(Seq::new(ss.len(), |i: int| JsonV::Str(ss[i]@)))
}

pub open spec fn list_entry(k: Seq<char>, ss: Seq<String>) -> Seq<(Seq<char>, JsonV)> {
    if ss.len() > 0 {
        seq![(k, texts_doc(ss))]
    } else {
        seq![]
    }
}

/// The body of a new issue: its title under `name`, then each optional
/// field that was given, and the assignee and label lists where not empty.
pub open spec fn create_body(p: IssuesCreateParams) -> JsonV {
    JsonV::Object(
        seq![("name"@, JsonV::Str(p.title@))] + text_entry("description_html"@, p.description)
            + text_entry("state"@, p.state) + text_entry("priority"@, p.priority) + list_entry(
            "assignees"@,
            p.assignees@,
        ) + list_entry("labels"@, p.labels@),
    )
}

proof fn lemma_field_append(fs: Fields, extra: Fields, k: Seq<char>)
    requires
        extra.len() <= 1,
    ensures
        field(JsonV::Object(fs + extra), k) == (if field(JsonV::Object(fs), k) is Some {
            field(JsonV::Object(fs), k)
        } else if extra.len() == 1 && extra[0].0 == k {
            Some(extra[0].1)
        } else {
            None::<JsonV>
        }),
{
    lemma_key_index(fs, k);
    if extra.len() == 0 {
        assert(fs + extra =~= fs);
    } else {
        assert(fs + extra =~= fs.push(extra[0]));
        lemma_key_index_push(fs, extra[0], k);
    }
}

pub open spec fn given_text(v: Option<&str>) -> Option<JsonV> {
    match v {
        Some(x) => Some(JsonV::Str(x@)),
        None => None,
    }
}

pub open spec fn given_list(ss: Seq<String>) -> Option<JsonV> {
    if ss.len() > 0 {
        Some(texts_doc(ss))
    } else {
        None
    }
}

/// The body of a new issue holds the title and exactly the optional fields
/// that were given, each with the given value; nothing in it is null.
pub proof fn lemma_create_body_holds_given(p: IssuesCreateParams)
    ensures
        field(create_body(p), "name"@) == Some(JsonV::Str(p.title@)),
        field(create_body(p), "description_html"@) == given_text(p.description),
        field(create_body(p), "state"@) == given_text(p.state),
        field(create_body(p), "priority"@) == given_text(p.priority),
        field(create_body(p), "assignees"@) == given_list(p.assignees@),
        field(create_body(p), "labels"@) == given_list(p.labels@),
        forall|i: int|
            0 <= i < create_body(p)->Object_0.len() ==> !(#[trigger] create_body(p)->Object_0[i].1 is Null),
{
    reveal_strlit("name");
    reveal_strlit("description_html");
    reveal_strlit("state");
    reveal_strlit("priority");
    reveal_strlit("assignees");
    reveal_strlit("labels");
    let f0: Fields = seq![("name"@, JsonV::Str(p.title@))];
    let e1 = text_entry("description_html"@, p.description);
    let e2 = text_entry("state"@, p.state);
    let e3 = text_entry("priority"@, p.priority);
    let e4 = list_entry("assignees"@, p.assignees@);
    let e5 = list_entry("labels"@, p.labels@);
    let f1 = f0 + e1;
    let f2 = f1 + e2;
    let f3 = f2 + e3;
    let f4 = f3 + e4;
    let f5 = f4 + e5;
    assert(create_body(p) == JsonV::Object(f5));
    let keys = seq!["name"@, "description_html"@, "state"@, "priority"@, "assignees"@, "labels"@];
    assert forall|a: int, b: int| 0 <= a < b < keys.len() implies keys[a] != keys[b] by {
        assert(keys[a][0] != keys[b][0]);
    }
    assert forall|j: int| 0 <= j < keys.len() implies {
        let k = #[trigger] keys[j];
        &&& field(JsonV::Object(f5), k) == (if j == 0 {
            Some(JsonV::Str(p.title@))
        } else if j == 1 {
            given_text(p.description)
        } else if j == 2 {
            given_text(p.state)
        } else if j == 3 {
            given_text(p.priority)
        } else if j == 4 {
            given_list(p.assignees@)
        } else {
            given_list(p.labels@)
        })
    } by {
        let k = keys[j];
        lemma_key_index(f0, k);
        assert(key_index(f0, k) == key_index(f0.drop_last(), k) || f0.last().0 == k);
        assert(f0.drop_last() =~= Seq::<(Seq<char>, JsonV)>::empty());
        lemma_field_append(f0, e1, k);
        lemma_field_append(f1, e2, k);
        lemma_field_append(f2, e3, k);
        lemma_field_append(f3, e4, k);
        lemma_field_append(f4, e5, k);
    }
    assert(keys[0] == "name"@);
    assert(keys[1] == "description_html"@);
    assert(keys[2] == "state"@);
    assert(keys[3] == "priority"@);
    assert(keys[4] == "assignees"@);
    assert(keys[5] == "labels"@);
    assert forall|i: int| 0 <= i < f5.len() implies !(#[trigger] f5[i].1 is Null) by {
        if i < f4.len() {
            assert(f5[i] == f4[i]);
            if i < f3.len() {
                assert(f4[i] == f3[i]);
                if i < f2.len() {
                    assert(f3[i] == f2[i]);
                    if i < f1.len() {
                        assert(f2[i] == f1[i]);
                        if i < f0.len() {
                            assert(f1[i] == f0[i]);
                        }
                    }
                }
            }
        }
    }
}

fn texts_json(ss: &[String]) -> (r: Json)
    ensures
        r@ == texts_doc(ss@),
{
    let mut items: Vec<Json> = Vec::new();
    let mut i: usize = 0;
    while i < ss.len()
        invariant
            i <= ss@.len(),
            items.len() == i,
            forall|j: int| 0 <= j < i ==> items[j]@ == JsonV::Str(ss@[j]@),
        decreases ss@.len() - i,
    {
        items.push(Json::Str(ss[i].clone()));
        i = i + 1;
    }
    proof {
        lemma_array_view(items);
        assert(Seq::new(items.len() as nat, |j: int| items[j]@) =~= Seq::new(
            ss@.len(),
            |j: int| JsonV::Str(ss@[j]@),
        ));
    }
    Json::Array(items)
}

pub open spec fn entries_view(v: Seq<(String, Json)>) -> Seq<(Seq<char>, JsonV)> {
    Seq::new(v.len(), |i: int| (v[i].0@, v[i].1@))
}

fn push_text(entries: &mut Vec<(String, Json)>, k: &str, v: Option<&str>)
    ensures
        entries_view(final(entries)@) == entries_view(old(entries)@) + text_entry(k@, v),
{
    match v {
        Some(x) => {
            entries.push((String::from_str(k), Json::Str(String::from_str(x))));
        },
        None => {},
    }
    assert(entries_view(final(entries)@) =~= entries_view(old(entries)@) + text_entry(k@, v));
}

fn push_list(entries: &mut Vec<(String, Json)>, k: &str, ss: &[String])
    ensures
        entries_view(final(entries)@) == entries_view(old(entries)@) + list_entry(k@, ss@),
{
    if ss.len() > 0 {
        entries.push((String::from_str(k), texts_json(ss)));
    }
    assert(entries_view(final(entries)@) =~= entries_view(old(entries)@) + list_entry(k@, ss@));
}

/// The body that creates an issue; fields that were not given are left
/// out, not sent as null.
pub fn issues_create_body(params: &IssuesCreateParams) -> (r: Json)
    ensures
        r@ == create_body(*params),
{
    let mut entries: Vec<(String, Json)> = Vec::new();
    entries.push((String::from_str("name"), Json::Str(String::from_str(params.title))));
    assert(entries_view(entries@) =~= seq![("name"@, JsonV::Str(params.title@))]);
    push_text(&mut entries, "description_html", params.description);
    push_text(&mut entries, "state", params.state);
    push_text(&mut entries, "priority", params.priority);
    push_list(&mut entries, "assignees", params.assignees);
    push_list(&mut entries, "labels", params.labels);
    proof {
        lemma_object_view(entries);
        assert(crate::json::fields_of(entries@) =~= entries_view(entries@));
    }
    Json::Object(entries)
}

/// The text under `k` in `v`, or `fallback` where there is none.
pub open spec fn text_or(v: JsonV, k: Seq<char>, fallback: Seq<char>) -> Seq<char> {
    match field(v, k) {
        Some(JsonV::Str(s)) => s,
        _ => fallback,
    }
}

/// The value under `k` in `v`, or null where there is none.
pub open spec fn value_or_null(v: JsonV, k: Seq<char>) -> JsonV {
    match field(v, k) {
        Some(x) => x,
        None => JsonV::Null,
    }
}

/// The text under `key` in `item`, or `fallback` where there is none.
pub fn text_of(item: &Json, key: &str, fallback: &str) -> (r: String)
    ensures
        r@ == text_or(item@, key@, fallback@),
{
    match item.get(key) {
        Some(Json::Str(s)) => s.clone(),
        _ => String::from_str(fallback),
    }
}

fn value_of(item: &Json, key: &str) -> (r: Json)
    ensures
        r@ == value_or_null(item@, key@),
{
    match item.get(key) {
        Some(v) => v.deep_copy(),
        None => Json::Null,
    }
}

/// The kinds of item listed as a plain table.
#[derive(Debug, Clone, Copy, PartialEq, Eq, Structural)]
pub enum Resource {
    Projects,
    States,
    Labels,
    Members,
}

pub open spec fn items_view(v: Seq<Json>) -> Seq<JsonV> {
    Seq::new(v.len(), |i: int| v[i]@)
}

/// The array under `results` in a response.
pub open spec fn results_field(data: JsonV) -> Option<Seq<JsonV>> {
    match field(data, "results"@) {
        Some(JsonV::Array(items)) => Some(items),
        _ => None,
    }
}

/// The items of a listing response. Members may also come as a bare array.
pub open spec fn listed_items(r: Resource, data: JsonV) -> Option<Seq<JsonV>> {
    match (r, data) {
        (Resource::Members, JsonV::Array(items)) => Some(items),
        _ => results_field(data),
    }
}

pub open spec fn table_header(r: Resource) -> Seq<Seq<char>> {
    match r {
        Resource::Projects => seq!["Name"@, "Identifier"@, "ID"@],
        Resource::States => seq!["Name"@, "Group"@, "ID"@],
        Resource::Labels => seq!["Name"@, "ID"@],
        Resource::Members => seq!["Name"@, "ID"@],
    }
}

/// The cells shown for one listed item.
pub open spec fn table_row(r: Resource, item: JsonV) -> Seq<Seq<char>> {
    match r {
        Resource::Projects => seq![
            text_or(item, "name"@, "(unnamed)"@),
            text_or(item, "identifier"@, ""@),
            text_or(item, "id"@, ""@),
        ],
        Resource::States => seq![
            text_or(item, "name"@, "(unnamed)"@),
            text_or(item, "group"@, ""@),
            text_or(item, "id"@, ""@),
        ],
        Resource::Labels => seq![text_or(item, "name"@, "(unnamed)"@), text_or(item, "id"@, ""@)],
        Resource::Members => seq![
            text_or(item, "display_name"@, "(unnamed)"@),
            text_or(item, "id"@, ""@),
        ],
    }
}

pub open spec fn empty_text(r: Resource) -> Seq<char> {
    match r {
        Resource::Projects => "No projects found."@,
        Resource::States => "No states found."@,
        Resource::Labels => "No labels found."@,
        Resource::Members => "No members found."@,
    }
}

pub open spec fn format_error_text(r: Resource) -> Seq<char> {
    match r {
        Resource::Members => "unexpected response format"@,
        _ => "unexpected response format: missing 'results' array"@,
    }
}

/// A response of an unexpected shape.
#[derive(Debug)]
pub struct FormatError {
    pub message: String,
}

/// What a listing shows: a message where nothing was found, else one row
/// per item.
#[derive(Debug)]
pub enum Listing<R> {
    Empty { message: String },
    Rows { rows: Vec<R> },
}

pub open spec fn row_view(row: Vec<String>) -> Seq<Seq<char>> {
    Seq::new(row.len() as nat, |j: int| row[j]@)
}

/// The column titles of a listing.
pub fn header(r: &Resource) -> (h: Vec<String>)
    ensures
        row_view(h) == table_header(*r),
{
    let mut h: Vec<String> = Vec::new();
    h.push(String::from_str("Name"));
    match r {
        Resource::Projects => h.push(String::from_str("Identifier")),
        Resource::States => h.push(String::from_str("Group")),
        _ => {},
    }
    h.push(String::from_str("ID"));
    assert(row_view(h) =~= table_header(*r));
    h
}

fn row_of(r: &Resource, item: &Json) -> (row: Vec<String>)
    ensures
        row_view(row) == table_row(*r, item@),
{
    let mut row: Vec<String> = Vec::new();
    match r {
        Resource::Projects => {
            row.push(text_of(item, "name", "(unnamed)"));
            row.push(text_of(item, "identifier", ""));
        },
        Resource::States => {
            row.push(text_of(item, "name", "(unnamed)"));
            row.push(text_of(item, "group", ""));
        },
        Resource::Labels => {
            row.push(text_of(item, "name", "(unnamed)"));
        },
        Resource::Members => {
            row.push(text_of(item, "display_name", "(unnamed)"));
        },
    }
    row.push(text_of(item, "id", ""));
    assert(row_view(row) =~= table_row(*r, item@));
    row
}

fn results_of(data: &Json) -> (r: Option<&Vec<Json>>)
    ensures
        match r {
            Some(v) => results_field(data@) == Some(items_view(v@)),
            None => results_field(data@) is None,
        },
{
    match data.get("results") {
        Some(Json::Array(items)) => {
            proof {
                lemma_array_view(*items);
                assert(items_view(items@) =~= Seq::new(items.len() as nat, |i: int| items[i]@));
            }
            Some(items)
        },
        _ => None,
    }
}

fn listed_of<'a>(r: &Resource, data: &'a Json) -> (out: Option<&'a Vec<Json>>)
    ensures
        match out {
            Some(v) => listed_items(*r, data@) == Some(items_view(v@)),
            None => listed_items(*r, data@) is None,
        },
{
    match (r, data) {
        (Resource::Members, Json::Array(items)) => {
            proof {
                lemma_array_view(*items);
                assert(items_view(items@) =~= Seq::new(items.len() as nat, |i: int| items[i]@));
            }
            Some(items)
        },
        _ => results_of(data),
    }
}

fn empty_message(r: &Resource) -> (m: String)
    ensures
        m@ == empty_text(*r),
{
    match r {
        Resource::Projects => String::from_str("No projects found."),
        Resource::States => String::from_str("No states found."),
        Resource::Labels => String::from_str("No labels found."),
        Resource::Members => String::from_str("No members found."),
    }
}

/// The table of a listing response.
pub fn table_listing(r: &Resource, data: &Json) -> (out: Result<Listing<Vec<String>>, FormatError>)
    ensures
        match listed_items(*r, data@) {
            None => out matches Err(e) && e.message@ == format_error_text(*r),
            Some(items) => match out {
                Ok(Listing::Empty { message }) => items.len() == 0 && message@ == empty_text(*r),
                Ok(Listing::Rows { rows }) => {
                    &&& items.len() > 0
                    &&& rows.len() == items.len()
                    &&& forall|i: int| 0 <= i < rows.len() ==> row_view(#[trigger] rows[i]) == table_row(*r, items[i])
                },
                Err(_) => false,
            },
        },
{
    let items = match listed_of(r, data) {
        Some(items) => items,
        None => {
            let message = match r {
                Resource::Members => String::from_str("unexpected response format"),
                _ => String::from_str("unexpected response format: missing 'results' array"),
            };
            return Err(FormatError { message });
        },
    };
    if items.len() == 0 {
        return Ok(Listing::Empty { message: empty_message(r) });
    }
    let mut rows: Vec<Vec<String>> = Vec::new();
    let mut i: usize = 0;
    while i < items.len()
        invariant
            i <= items.len(),
            rows.len() == i,
            forall|j: int| 0 <= j < i ==> row_view(#[trigger] rows[j]) == table_row(*r, items[j]@),
        decreases items.len() - i,
    {
        rows.push(row_of(r, &items[i]));
        i = i + 1;
    }
    Ok(Listing::Rows { rows })
}

/// One row of an issue listing.
#[derive(Debug)]
pub struct IssueRow {
    pub sequence: Json,
    pub name: String,
    pub priority: String,
    pub id: String,
}

pub open spec fn issue_row_shows(row: IssueRow, item: JsonV) -> bool {
    &&& row.sequence@ == value_or_null(item, "sequence_id"@)
    &&& row.name@ == text_or(item, "name"@, "(unnamed)"@)
    &&& row.priority@ == text_or(item, "priority"@, "none"@)
    &&& row.id@ == text_or(item, "id"@, ""@)
}

/// The rows of an issue listing response.
pub fn issue_listing(data: &Json) -> (out: Result<Listing<IssueRow>, FormatError>)
    ensures
        match results_field(data@) {
            None => out matches Err(e) && e.message@
                == "unexpected response format: missing 'results' array"@,
            Some(items) => match out {
                Ok(Listing::Empty { message }) => items.len() == 0 && message@
                    == "No issues found."@,
                Ok(Listing::Rows { rows }) => {
                    &&& items.len() > 0
                    &&& rows.len() == items.len()
                    &&& forall|i: int| 0 <= i < rows.len() ==> issue_row_shows(#[trigger] rows[i], items[i])
                },
                Err(_) => false,
            },
        },
{
    let items = match results_of(data) {
        Some(items) => items,
        None => {
            return Err(
                FormatError {
                    message: String::from_str("unexpected response format: missing 'results' array"),
                },
            );
        },
    };
    if items.len() == 0 {
        return Ok(Listing::Empty { message: String::from_str("No issues found.") });
    }
    let mut rows: Vec<IssueRow> = Vec::new();
    let mut i: usize = 0;
    while i < items.len()
        invariant
            i <= items.len(),
            rows.len() == i,
            forall|j: int| 0 <= j < i ==> issue_row_shows(#[trigger] rows[j], items[j]@),
        decreases items.len() - i,
    {
        let item = &items[i];
        rows.push(
            IssueRow {
                sequence: value_of(item, "sequence_id"),
                name: text_of(item, "name", "(unnamed)"),
                priority: text_of(item, "priority", "none"),
                id: text_of(item, "id", ""),
            },
        );
        i = i + 1;
    }
    Ok(Listing::Rows { rows })
}

/// The texts among `items`, in order.
pub open spec fn texts_among(items: Seq<JsonV>) -> Seq<Seq<char>>
    decreases items.len(),
{
    if items.len() == 0 {
        seq![]
    } else {
        let rest = texts_among(items.drop_last());
        match items.last() {
            JsonV::Str(s) => rest.push(s),
            _ => rest,
        }
    }
}

/// The texts in the array under `k`, or none where there is no array.
pub open spec fn texts_under(v: JsonV, k: Seq<char>) -> Seq<Seq<char>> {
    match field(v, k) {
        Some(JsonV::Array(items)) => texts_among(items),
        _ => seq![],
    }
}

fn texts_in(item: &Json, key: &str) -> (r: Vec<String>)
    ensures
        row_view(r) == texts_under(item@, key@),
{
    let mut out: Vec<String> = Vec::new();
    match item.get(key) {
        Some(Json::Array(items)) => {
            proof {
                lemma_array_view(*items);
            }
            let ghost all = Seq::new(items.len() as nat, |i: int| items[i]@);
            let mut i: usize = 0;
            while i < items.len()
                invariant
                    i <= items.len(),
                    all == Seq::new(items.len() as nat, |i: int| items[i]@),
                    row_view(out) == texts_among(all.take(i as int)),
                decreases items.len() - i,
            {
                assert(all.take(i + 1).drop_last() =~= all.take(i as int));
                match &items[i] {
                    Json::Str(s) => {
                        out.push(s.clone());
                    },
                    _ => {},
                }
                assert(row_view(out) =~= texts_among(all.take(i + 1)));
                i = i + 1;
            }
            assert(all.take(items.len() as int) =~= all);
        },
        _ => {
            assert(row_view(out) =~= texts_under(item@, key@));
        },
    }
    out
}

/// What is shown of one issue.
#[derive(Debug)]
pub struct IssueDetail {
    pub sequence: Json,
    pub name: String,
    pub priority: String,
    pub state: String,
    pub created: String,
    pub assignees: Vec<String>,
    pub labels: Vec<String>,
    pub description: String,
}

/// The details shown of an issue response.
pub fn issue_detail(data: &Json) -> (d: IssueDetail)
    ensures
        d.sequence@ == value_or_null(data@, "sequence_id"@),
        d.name@ == text_or(data@, "name"@, "(unnamed)"@),
        d.priority@ == text_or(data@, "priority"@, "none"@),
        d.state@ == text_or(data@, "state"@, ""@),
        d.created@ == text_or(data@, "created_at"@, ""@),
        row_view(d.assignees) == texts_under(data@, "assignees"@),
        row_view(d.labels) == texts_under(data@, "labels"@),
        d.description@ == text_or(data@, "description_html"@, ""@),
{
    IssueDetail {
        sequence: value_of(data, "sequence_id"),
        name: text_of(data, "name", "(unnamed)"),
        priority: text_of(data, "priority", "none"),
        state: text_of(data, "state", ""),
        created: text_of(data, "created_at", ""),
        assignees: texts_in(data, "assignees"),
        labels: texts_in(data, "labels"),
        description: text_of(data, "description_html", ""),
    }
}

/// What is shown of a newly created issue.
#[derive(Debug)]
pub struct CreatedIssue {
    pub id: String,
    pub sequence: Json,
    pub name: String,
}

/// The summary shown of a create response.
pub fn created_issue(data: &Json) -> (c: CreatedIssue)
    ensures
        c.id@ == text_or(data@, "id"@, ""@),
        c.sequence@ == value_or_null(data@, "sequence_id"@),
        c.name@ == text_or(data@, "name"@, ""@),
{
    CreatedIssue {
        id: text_of(data, "id", ""),
        sequence: value_of(data, "sequence_id"),
        name: text_of(data, "name", ""),
    }
}

/// The colour in which a priority is shown.
#[derive(Debug, Clone, Copy, PartialEq, Eq, Structural)]
pub enum Tint {
    Red,
    Yellow,
    Blue,
    DarkGrey,
    Reset,
}

pub open spec fn priority_tint_of(p: Seq<char>) -> Tint {
    if p == "urgent"@ {
        Tint::Red
    } else if p == "high"@ {
        Tint::Yellow
    } else if p == "medium"@ {
        Tint::Blue
    } else if p == "low"@ {
        Tint::DarkGrey
    } else {
        Tint::Reset
    }
}

/// The colour of a priority.
pub fn priority_tint(p: &str) -> (t: Tint)
    ensures
        t == priority_tint_of(p@),
{
    if text_eq(p, "urgent") {
        Tint::Red
    } else if text_eq(p, "high") {
        Tint::Yellow
    } else if text_eq(p, "medium") {
        Tint::Blue
    } else if text_eq(p, "low") {
        Tint::DarkGrey
    } else {
        Tint::Reset
    }
}

pub open spec fn is_priority_text(p: Seq<char>) -> bool {
    p == "none"@ || p == "urgent"@ || p == "high"@ || p == "medium"@ || p == "low"@
}

/// Whether `p` names a priority an issue can have.
pub fn is_priority(p: &str) -> (r: bool)
    ensures
        r == is_priority_text(p@),
{
    text_eq(p, "none") || text_eq(p, "urgent") || text_eq(p, "high") || text_eq(p, "medium")
        || text_eq(p, "low")
}

} // verus!
