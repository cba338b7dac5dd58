use plane_cli::commands::{
    created_issue, header, issue_detail, issue_listing, issue_path, issues_create_body,
    issues_list_query, is_priority, priority_tint, project_items_path, projects_path,
    table_listing, IssuesCreateParams, IssuesListParams, Listing, Resource, Tint,
};
use plane_cli::json::Json;

fn num(n: &str) -> Json {
    Json::Number(n.to_string())
}

fn text(s: &str) -> Json {
    Json::Str(s.to_string())
}

fn obj(entries: Vec<(&str, Json)>) -> Json {
    Json::Object(entries.into_iter().map(|(k, v)| (k.to_string(), v)).collect())
}

fn rows_of(listing: Listing<Vec<String>>) -> Vec<Vec<String>> {
    match listing {
        Listing::Rows { rows } => rows,
        Listing::Empty { message } => panic!("empty listing: {message}"),
    }
}

#[test]
fn paths_are_relative_to_the_api_root() {
    assert_eq!(projects_path("test-ws"), "workspaces/test-ws/projects/");
    assert_eq!(
        project_items_path("test-ws", "p1", "states"),
        "workspaces/test-ws/projects/p1/states/"
    );
    assert_eq!(
        issue_path("test-ws", "proj1", "bad-id"),
        "workspaces/test-ws/projects/proj1/issues/bad-id/"
    );
}

#[test]
fn projects_table_shows_name_and_identifier() {
    let data = obj(vec![(
        "results",
        Json::Array(vec![obj(vec![
            ("id", text("p1")),
            ("name", text("Alpha")),
            ("identifier", text("ALP")),
        ])]),
    )]);
    let rows = rows_of(table_listing(&Resource::Projects, &data).unwrap());
    assert_eq!(rows, vec![vec!["Alpha".to_string(), "ALP".to_string(), "p1".to_string()]]);
    assert_eq!(header(&Resource::Projects), vec!["Name", "Identifier", "ID"]);
}

#[test]
fn missing_fields_show_fallbacks() {
    let data = obj(vec![("results", Json::Array(vec![obj(vec![("name", num("3"))])]))]);
    let rows = rows_of(table_listing(&Resource::States, &data).unwrap());
    assert_eq!(rows, vec![vec!["(unnamed)".to_string(), String::new(), String::new()]]);
}

#[test]
fn empty_results_give_the_empty_message() {
    let data = obj(vec![("results", Json::Array(vec![]))]);
    match table_listing(&Resource::Projects, &data).unwrap() {
        Listing::Empty { message } => assert_eq!(message, "No projects found."),
        Listing::Rows { .. } => panic!("expected no rows"),
    }
    match table_listing(&Resource::Labels, &data).unwrap() {
        Listing::Empty { message } => assert_eq!(message, "No labels found."),
        Listing::Rows { .. } => panic!("expected no rows"),
    }
}

#[test]
fn missing_results_array_is_a_format_error() {
    let err = table_listing(&Resource::Projects, &obj(vec![("data", Json::Null)])).unwrap_err();
    assert_eq!(err.message, "unexpected response format: missing 'results' array");
    let err = table_listing(&Resource::Members, &text("oops")).unwrap_err();
    assert_eq!(err.message, "unexpected response format");
}

#[test]
fn members_come_as_bare_array_or_under_results() {
    let member = obj(vec![("display_name", text("Ann")), ("id", text("m1"))]);
    let bare = Json::Array(vec![member]);
    let rows = rows_of(table_listing(&Resource::Members, &bare).unwrap());
    assert_eq!(rows, vec![vec!["Ann".to_string(), "m1".to_string()]]);

    let member = obj(vec![("display_name", text("Bo")), ("id", text("m2"))]);
    let wrapped = obj(vec![("results", Json::Array(vec![member]))]);
    let rows = rows_of(table_listing(&Resource::Members, &wrapped).unwrap());
    assert_eq!(rows, vec![vec!["Bo".to_string(), "m2".to_string()]]);

    let bare = Json::Array(vec![obj(vec![("display_name", text("Cy"))])]);
    assert!(table_listing(&Resource::Projects, &bare).is_err());
}

#[test]
fn issue_rows_keep_sequence_and_default_priority() {
    let data = obj(vec![(
        "results",
        Json::Array(vec![
            obj(vec![
                ("id", text("i1")),
                ("name", text("Fix bug")),
                ("sequence_id", num("42")),
                ("priority", text("urgent")),
            ]),
            obj(vec![("id", text("i2"))]),
        ]),
    )]);
    match issue_listing(&data).unwrap() {
        Listing::Rows { rows } => {
            assert_eq!(rows.len(), 2);
            assert_eq!(rows[0].sequence, num("42"));
            assert_eq!(rows[0].name, "Fix bug");
            assert_eq!(rows[0].priority, "urgent");
            assert_eq!(rows[0].id, "i1");
            assert_eq!(rows[1].sequence, Json::Null);
            assert_eq!(rows[1].name, "(unnamed)");
            assert_eq!(rows[1].priority, "none");
        }
        Listing::Empty { .. } => panic!("expected rows"),
    }
    match issue_listing(&obj(vec![("results", Json::Array(vec![]))])).unwrap() {
        Listing::Empty { message } => assert_eq!(message, "No issues found."),
        Listing::Rows { .. } => panic!("expected no rows"),
    }
}

#[test]
fn issue_detail_collects_text_ids() {
    let data = obj(vec![
        ("name", text("Fix bug")),
        ("sequence_id", num("7")),
        ("state", text("s1")),
        ("assignees", Json::Array(vec![text("u1"), num("3"), text("u2")])),
        ("labels", text("not a list")),
        ("description_html", text("<p>hi</p>")),
    ]);
    let d = issue_detail(&data);
    assert_eq!(d.name, "Fix bug");
    assert_eq!(d.sequence, num("7"));
    assert_eq!(d.priority, "none");
    assert_eq!(d.state, "s1");
    assert_eq!(d.created, "");
    assert_eq!(d.assignees, vec!["u1", "u2"]);
    assert!(d.labels.is_empty());
    assert_eq!(d.description, "<p>hi</p>");
}

#[test]
fn created_issue_summary() {
    let data = obj(vec![
        ("id", text("123")),
        ("sequence_id", num("9")),
        ("name", text("Test Issue")),
    ]);
    let c = created_issue(&data);
    assert_eq!(c.id, "123");
    assert_eq!(c.sequence, num("9"));
    assert_eq!(c.name, "Test Issue");
    let c = created_issue(&obj(vec![]));
    assert_eq!(c.name, "");
    assert_eq!(c.sequence, Json::Null);
}

#[test]
fn list_query_has_page_size_and_given_filters() {
    let params = IssuesListParams {
        project: "p1",
        state: Some("active"),
        assignee: None,
        per_page: 50,
        cursor: Some("c:1"),
    };
    let q = issues_list_query(&params);
    let expected: Vec<(String, String)> = vec![
        ("per_page".to_string(), "50".to_string()),
        ("state".to_string(), "active".to_string()),
        ("cursor".to_string(), "c:1".to_string()),
    ];
    assert_eq!(q, expected);
}

#[test]
fn create_body_holds_only_given_fields() {
    let none: Vec<String> = vec![];
    let params = IssuesCreateParams {
        project: "p1",
        title: "Test Issue",
        description: None,
        state: None,
        priority: Some("high"),
        assignees: &none,
        labels: &none,
    };
    let body = issues_create_body(&params);
    assert_eq!(
        body,
        obj(vec![("name", text("Test Issue")), ("priority", text("high"))])
    );
    assert_eq!(body.get("description_html"), None);
    assert_eq!(body.get("assignees"), None);
}

#[test]
fn create_body_with_every_field() {
    let assignees = vec!["u1".to_string(), "u2".to_string()];
    let labels = vec!["l1".to_string()];
    let params = IssuesCreateParams {
        project: "p1",
        title: "T",
        description: Some("<p>d</p>"),
        state: Some("s1"),
        priority: Some("low"),
        assignees: &assignees,
        labels: &labels,
    };
    let body = issues_create_body(&params);
    assert_eq!(
        body,
        obj(vec![
            ("name", text("T")),
            ("description_html", text("<p>d</p>")),
            ("state", text("s1")),
            ("priority", text("low")),
            ("assignees", Json::Array(vec![text("u1"), text("u2")])),
            ("labels", Json::Array(vec![text("l1")])),
        ])
    );
}

#[test]
fn priorities_and_their_colours() {
    assert_eq!(priority_tint("urgent"), Tint::Red);
    assert_eq!(priority_tint("high"), Tint::Yellow);
    assert_eq!(priority_tint("medium"), Tint::Blue);
    assert_eq!(priority_tint("low"), Tint::DarkGrey);
    assert_eq!(priority_tint("none"), Tint::Reset);
    assert_eq!(priority_tint("Urgent"), Tint::Reset);
    for p in ["none", "urgent", "high", "medium", "low"] {
        assert!(is_priority(p));
    }
    assert!(!is_priority("invalid"));
    assert!(!is_priority(""));
}
