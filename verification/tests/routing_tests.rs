use fractal_shell::routing::{
    bundled_document, finish_request, not_found_message, plan_request, Body, HttpResponse,
    RequestPlan,
};

#[test]
fn root_is_planned_as_document() {
    assert_eq!(plan_request(b"/"), RequestPlan::Document);
}

#[test]
fn root_serves_document_whatever_the_filesystem_holds() {
    let with_file = finish_request(plan_request(b"/"), Some(b"junk".to_vec()));
    let without_file = finish_request(plan_request(b"/"), None);
    let expected = HttpResponse {
        status: 200,
        content_type: Some("text/html"),
        body: Body::Text(bundled_document()),
    };
    assert_eq!(with_file, expected);
    assert_eq!(without_file, expected);
}

#[test]
fn namespace_path_is_planned_under_the_anchor() {
    let plan = plan_request(b"/classes/app.js");
    assert_eq!(
        plan,
        RequestPlan::ReadFile {
            rel: b"classes/app.js".to_vec(),
            mime: "application/javascript",
            namespace: true,
        },
    );
}

#[test]
fn namespace_hit_serves_file_bytes() {
    let plan = plan_request(b"/classes/app.js");
    let response = finish_request(plan, Some(b"console.log(1);".to_vec()));
    assert_eq!(
        response,
        HttpResponse {
            status: 200,
            content_type: Some("application/javascript"),
            body: Body::Bytes(b"console.log(1);".to_vec()),
        },
    );
}

#[test]
fn namespace_miss_is_an_empty_404() {
    let plan = plan_request(b"/classes/gone.js");
    let response = finish_request(plan, None);
    assert_eq!(
        response,
        HttpResponse { status: 404, content_type: None, body: Body::Empty },
    );
}

#[test]
fn fallback_miss_is_a_fixed_text_404() {
    let plan = plan_request(b"/images/missing.png");
    assert_eq!(
        plan,
        RequestPlan::ReadFile {
            rel: b"images/missing.png".to_vec(),
            mime: "image/png",
            namespace: false,
        },
    );
    let response = finish_request(plan, None);
    assert_eq!(
        response,
        HttpResponse {
            status: 404,
            content_type: None,
            body: Body::Text(not_found_message()),
        },
    );
    assert_eq!(not_found_message(), "File not found");
}

#[test]
fn traversal_is_rejected_before_any_read() {
    assert_eq!(
        plan_request(b"/../../secrets.txt"),
        RequestPlan::Reject { namespace: false },
    );
    assert_eq!(
        plan_request(b"/classes/../../secrets.txt"),
        RequestPlan::Reject { namespace: true },
    );
}

#[test]
fn rejected_traversal_is_answered_404_even_if_the_file_exists() {
    let plan = plan_request(b"/../../secrets.txt");
    let response = finish_request(plan, None);
    assert_eq!(response.status, 404);
    assert_eq!(response.body, Body::Text("File not found"));
}

#[test]
fn encoded_traversal_stays_inside_the_anchor() {
    let plan = plan_request(b"/..%2f..%2fsecrets.txt");
    assert_eq!(
        plan,
        RequestPlan::ReadFile {
            rel: b"..%2f..%2fsecrets.txt".to_vec(),
            mime: "application/octet-stream",
            namespace: false,
        },
    );
    let response = finish_request(plan, None);
    assert_eq!(response.status, 404);
}

#[test]
fn namespace_prefix_must_be_a_whole_segment() {
    let plan = plan_request(b"/classesX/app.js");
    match plan {
        RequestPlan::ReadFile { namespace, .. } => assert!(!namespace),
        other => panic!("unexpected plan: {:?}", other),
    }
    let bare = plan_request(b"/classes");
    match bare {
        RequestPlan::ReadFile { rel, namespace, .. } => {
            assert_eq!(rel, b"classes".to_vec());
            assert!(namespace);
        }
        other => panic!("unexpected plan: {:?}", other),
    }
}

#[test]
fn same_request_twice_yields_identical_responses() {
    let first = finish_request(plan_request(b"/classes/app.js"), Some(b"x".to_vec()));
    let second = finish_request(plan_request(b"/classes/app.js"), Some(b"x".to_vec()));
    assert_eq!(first, second);

    let miss_first = finish_request(plan_request(b"/nope"), None);
    let miss_second = finish_request(plan_request(b"/nope"), None);
    assert_eq!(miss_first, miss_second);
}
