use gitpage::todo::{
    created_json, esc, html_response, json_list, json_response, parse_request, plan_request, todo_json,
    TodoAction,
};

#[test]
fn responses_are_framed() {
    let r = json_response("200 OK", "{\"ok\":true}");
    assert_eq!(
        String::from_utf8(r).unwrap(),
        "HTTP/1.1 200 OK\r\nContent-Type: application/json; charset=utf-8\r\nConnection: close\r\n\r\n{\"ok\":true}"
    );
    let r = html_response("404 Not Found", "<p>x</p>");
    assert_eq!(
        String::from_utf8(r).unwrap(),
        "HTTP/1.1 404 Not Found\r\nContent-Type: text/html; charset=utf-8\r\nConnection: close\r\n\r\n<p>x</p>"
    );
}

#[test]
fn escaping_for_json() {
    assert_eq!(esc("plain"), "plain");
    assert_eq!(esc("say \"hi\""), "say \\\"hi\\\"");
    assert_eq!(esc("a\\b"), "a\\\\b");
    assert_eq!(esc("\\\""), "\\\\\\\"");
}

#[test]
fn todo_json_shapes() {
    assert_eq!(
        todo_json(3, "buy \"milk\"", 1, "2024-01-01 10:00:00"),
        "{\"id\":3,\"title\":\"buy \\\"milk\\\"\",\"done\":1,\"created_at\":\"2024-01-01 10:00:00\"}"
    );
    assert_eq!(created_json(7, "x"), "{\"id\":7,\"title\":\"x\",\"done\":0}");
    assert_eq!(json_list(&vec![]), "[]");
    assert_eq!(json_list(&vec!["1".to_string(), "2".to_string()]), "[1,2]");
}

#[test]
fn request_plans() {
    assert!(matches!(plan_request("GET", "/", ""), TodoAction::ServePage));
    assert!(matches!(plan_request("GET", "/api/todos", ""), TodoAction::ListTodos));
    match plan_request("POST", "/api/todos", "{\"title\":\"  write tests \"}") {
        TodoAction::CreateTodo { title } => assert_eq!(title, "write tests"),
        _ => panic!("expected CreateTodo"),
    }
    match plan_request("POST", "/api/todos", "{\"title\":\"   \"}") {
        TodoAction::Reply { status, body } => {
            assert_eq!(status, "400 Bad Request");
            assert_eq!(body, "{\"error\":\"Title required\"}");
        }
        _ => panic!("expected Reply"),
    }
    assert!(matches!(plan_request("POST", "/api/todos", "not json"), TodoAction::Reply { .. }));
    match plan_request("PUT", "/api/todos/12", "{\"done\":true}") {
        TodoAction::SetDone { id, done } => assert_eq!((id, done), (12, true)),
        _ => panic!("expected SetDone"),
    }
    match plan_request("PUT", "/api/todos/12", "{}") {
        TodoAction::SetDone { id, done } => assert_eq!((id, done), (12, false)),
        _ => panic!("expected SetDone"),
    }
    match plan_request("PUT", "/api/todos/abc", "{}") {
        TodoAction::Reply { status, body } => {
            assert_eq!(status, "400 Bad Request");
            assert_eq!(body, "{\"error\":\"Invalid id\"}");
        }
        _ => panic!("expected Reply"),
    }
    match plan_request("PUT", "/api/todos", "{}") {
        TodoAction::Reply { status, .. } => assert_eq!(status, "404 Not Found"),
        _ => panic!("expected Reply"),
    }
    match plan_request("DELETE", "/api/todos/5/extra", "") {
        TodoAction::DeleteTodo { id } => assert_eq!(id, 5),
        _ => panic!("expected DeleteTodo"),
    }
    match plan_request("DELETE", "/api/todos", "") {
        TodoAction::Reply { status, body } => {
            assert_eq!(status, "404 Not Found");
            assert_eq!(body, "{\"error\":\"Not found\"}");
        }
        _ => panic!("expected Reply"),
    }
}

#[test]
fn raw_requests_are_read() {
    let (m, p, b) = parse_request("POST /api/todos?x=1 HTTP/1.1\r\nHost: a\r\n\r\n  {\"title\":\"t\"}  ");
    assert_eq!(m, "POST");
    assert_eq!(p, "/api/todos");
    assert_eq!(b, "{\"title\":\"t\"}");
    let (m, p, b) = parse_request("");
    assert_eq!((m.as_str(), p.as_str(), b.as_str()), ("GET", "/", ""));
    let (m, p, b) = parse_request("DELETE\n");
    assert_eq!((m.as_str(), p.as_str(), b.as_str()), ("DELETE", "/", ""));
}
