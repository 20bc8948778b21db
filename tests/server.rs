use task_server::auth::{check_login, hash_password, register};
use task_server::date::Date;
use task_server::entity::{query_to_object, Sql, Task, TaskDraft, User};
use task_server::request::parse_request;
use task_server::server::{
    file_path, join_json, login, login_with, route, serve_bad_body, serve_store_error, serve_login, serve_refused_path,
    serve_session_error, serve_task, serve_tasks, serve_unknown_route, serve_user, serve_user_id,
    Route, LOGIN_FAILURE,
};
use task_server::session::{check_user_id, extract_user_id, SessionError, SessionStore};

fn req(line: &str) -> task_server::request::Request {
    parse_request(format!("{}\r\nContent-Length: 0\r\n\r\n", line).as_bytes()).unwrap()
}

fn text(b: Vec<u8>) -> String {
    String::from_utf8(b).unwrap()
}

fn body_of(r: &str) -> &str {
    &r[r.find("\r\n\r\n").unwrap() + 4..]
}

#[test]
fn route_table() {
    assert_eq!(route(&req("GET /api/task HTTP/1.1")), Route::ListTasks);
    assert_eq!(route(&req("POST /api/task HTTP/1.1")), Route::CreateTask);
    assert_eq!(route(&req("GET /api/user HTTP/1.1")), Route::CurrentUser);
    assert_eq!(route(&req("POST /api/user HTTP/1.1")), Route::Register);
    assert_eq!(route(&req("POST /api/login HTTP/1.1")), Route::Login);
    assert_eq!(route(&req("GET /api/login HTTP/1.1")), Route::UnknownApi);
    assert_eq!(route(&req("DELETE /api/task HTTP/1.1")), Route::UnknownApi);
    assert_eq!(route(&req("GET /api/tasks HTTP/1.1")), Route::UnknownApi);
    assert_eq!(route(&req("GET / HTTP/1.1")), Route::StaticFile);
    assert_eq!(route(&req("GET /api HTTP/1.1")), Route::StaticFile);
    assert_eq!(route(&req("GET /style.css HTTP/1.1")), Route::StaticFile);
}

#[test]
fn unknown_route_names_the_route() {
    let r = text(serve_unknown_route(&req("PUT /api/nothing HTTP/1.1")));
    assert!(r.starts_with("HTTP/1.1 404 Not Found\r\n"));
    assert_eq!(
        body_of(&r),
        "{\"error\":{\"code\":404,\"message\":\"404 Not Found\",\"internalMessage\":\"No route for PUT /api/nothing\"}}"
    );
}

#[test]
fn static_paths() {
    let (target, file) = file_path("www", b"/").unwrap();
    assert_eq!(target, "/index.html");
    assert_eq!(file, "www/index.html");
    let (target, file) = file_path("/srv/root", b"/css/a.css").unwrap();
    assert_eq!(target, "/css/a.css");
    assert_eq!(file, "/srv/root/css/a.css");
    assert!(file_path("www", b"/../etc/passwd").is_none());
    assert!(file_path("www", b"/a/..").is_none());
    assert!(file_path("www", &[b'/', 0xff]).is_none());
    assert!(file_path("www", b"/a.b/c").is_some());
    let r = text(serve_refused_path());
    assert!(r.starts_with("HTTP/1.1 404 Not Found\r\n"));
    assert!(r.contains("This path is not served."));
}

#[test]
fn password_is_stored_salted_and_hashed() {
    let u = register("alice".to_string(), "secret");
    assert_eq!(u.username, "alice");
    assert_ne!(u.password, "secret");
    assert_eq!(u.password.len(), 64);
    assert_eq!(u.password, hash_password("secret", u.salt));
    assert_ne!(hash_password("secret", 1), hash_password("secret", 2));
    assert_eq!(
        hash_password("", 0),
        "6e340b9cffb37a989ca544e6bb780a2c78901d3fb33738768511a30617afa01d"
    );
    assert!(check_login(&vec![u], "secret"));
}

#[test]
fn login_needs_exactly_one_user_and_the_right_password() {
    let u = register("alice".to_string(), "secret");
    let twin = User {
        id: "other".to_string(),
        username: "alice".to_string(),
        password: u.password.clone(),
        salt: u.salt,
    };
    assert!(!check_login(&vec![], "secret"));
    assert!(!check_login(&vec![u.clone_user(), twin], "secret"));
    assert!(!check_login(&vec![u.clone_user()], "wrong"));
    assert!(check_login(&vec![u], "secret"));
}

trait CloneUser {
    fn clone_user(&self) -> User;
}

impl CloneUser for User {
    fn clone_user(&self) -> User {
        User {
            id: self.id.clone(),
            username: self.username.clone(),
            password: self.password.clone(),
            salt: self.salt,
        }
    }
}

#[test]
fn failed_logins_look_alike() {
    let alice = register("alice".to_string(), "secret");
    let mut store = SessionStore::new();
    let wrong_password = login_with(&vec![alice], "guess", &mut store, 1, 0);
    let unknown_user = login_with(&vec![], "guess", &mut store, 2, 0);
    assert_eq!(wrong_password, unknown_user);
    let r = text(wrong_password);
    assert!(r.starts_with("HTTP/1.1 400 Bad Request\r\n"));
    assert!(body_of(&r).starts_with("{\"error\":{\"code\":400,"));
    assert!(r.contains(LOGIN_FAILURE));
    assert_eq!(store.check(1, 0).err(), Some(SessionError::UnknownAuthority));
    assert_eq!(store.check(2, 0).err(), Some(SessionError::UnknownAuthority));
}

#[test]
fn login_issues_a_session_that_authenticates() {
    let alice = register("alice".to_string(), "secret");
    let id = alice.id.clone();
    let mut store = SessionStore::with_ttl(1000);
    let token: u128 = 0x0123_4567_89ab_cdef_0123_4567_89ab_cdef;
    let r = text(login_with(&vec![alice], "secret", &mut store, token, 0));
    assert_eq!(
        body_of(&r),
        format!(
            "{{\"username\":\"alice\",\"userId\":\"{}\",\"authority\":\"01234567-89ab-cdef-0123-456789abcdef\"}}",
            id
        )
    );
    let request = parse_request(
        format!(
            "GET /api/user HTTP/1.1\r\nauthority: {}\r\n\r\n",
            uuid::Uuid::from_u128(token)
        )
        .as_bytes(),
    )
    .unwrap();
    assert_eq!(extract_user_id(&request, &mut store, 900).unwrap(), id);
    assert_eq!(check_user_id(&request, &store, 1100).err(), Some(SessionError::Expired(token)));
    assert_eq!(
        extract_user_id(&request, &mut store, 1100).err(),
        Some(SessionError::Expired(token))
    );
    assert_eq!(store.check(token, 0).err(), Some(SessionError::UnknownAuthority));
    let u = text(serve_user_id(&id));
    assert_eq!(body_of(&u), format!("{{\"userId\":\"{}\"}}", id));
}

#[test]
fn login_now_issues_a_session() {
    let alice = register("alice".to_string(), "secret");
    let id = alice.id.clone();
    let mut store = SessionStore::new();
    let r = text(login(&vec![alice], "secret", &mut store));
    let body = body_of(&r);
    let start = body.find("\"authority\":\"").unwrap() + "\"authority\":\"".len();
    let token_text = &body[start..start + 36];
    let token = uuid::Uuid::parse_str(token_text).unwrap().as_u128();
    assert_eq!(store.validate_now(token).unwrap(), id);
}

#[test]
fn serve_login_shape() {
    let u = User { id: "i".to_string(), username: "n".to_string(), password: "p".to_string(), salt: 0 };
    let r = text(serve_login(&u, 0));
    assert_eq!(
        body_of(&r),
        "{\"username\":\"n\",\"userId\":\"i\",\"authority\":\"00000000-0000-0000-0000-000000000000\"}"
    );
}

#[test]
fn forbidden_responses() {
    let r = text(serve_session_error(SessionError::Expired(5)));
    assert!(r.starts_with("HTTP/1.1 403 Forbidden\r\n"));
    assert!(body_of(&r).contains("\"internalMessage\":\"Authority expired\""));
}

fn draft(title: &str) -> TaskDraft {
    TaskDraft {
        assign_date: Date::from_ymd(2024, 5, 1).unwrap(),
        title: title.to_string(),
        description: "desc".to_string(),
        recurring_month: false,
        recurring_n: 0,
        recurring_stop: Some(Date::from_ymd(2024, 6, 1).unwrap()),
    }
}

#[test]
fn created_task_reads_back_unchanged() {
    let task = Task::create(draft("buy milk"), "session-user".to_string());
    let created = text(serve_task(&task));
    let stored = task.to_sql_insert().row;
    let listed: Vec<Task> = query_to_object(&vec![stored]);
    assert_eq!(listed.len(), 1);
    let list = text(serve_tasks(&listed));
    assert_eq!(body_of(&list), format!("[{}]", body_of(&created)));
    assert_eq!(listed[0].user_id, "session-user");
    assert_eq!(listed[0].title, "buy milk");
}

#[test]
fn many_sessions_create_as_many_tasks() {
    let mut store = SessionStore::new();
    let mut rows = Vec::new();
    let n = 16;
    for k in 0..n {
        let token = store.issue_session(format!("user-{}", k));
        let owner = store.validate_now(token).unwrap();
        let task = Task::create(draft(&format!("task {}", k)), owner);
        rows.push(task.to_sql_insert().row);
    }
    let tasks: Vec<Task> = query_to_object(&rows);
    assert_eq!(tasks.len(), n);
    let mut ids: Vec<&String> = tasks.iter().map(|t| &t.id).collect();
    ids.sort();
    ids.dedup();
    assert_eq!(ids.len(), n);
    for (k, t) in tasks.iter().enumerate() {
        assert_eq!(t.user_id, format!("user-{}", k));
    }
}

#[test]
fn task_list_json() {
    assert_eq!(text(serve_tasks(&vec![])), "HTTP/1.1 200 OK\r\nContent-Type: application/json\r\nContent-Length: 2\r\n\r\n[]");
    assert_eq!(join_json(&vec![b"1".to_vec(), b"{}".to_vec()]), b"[1,{}]".to_vec());
}

#[test]
fn user_response_hides_password() {
    let u = register("bob".to_string(), "pw");
    let r = text(serve_user(&u));
    assert!(!r.contains(&u.password));
    assert_eq!(body_of(&r), format!("{{\"id\":\"{}\",\"username\":\"bob\"}}", u.id));
}

#[test]
fn session_routes_and_store_errors() {
    assert!(Route::ListTasks.needs_session());
    assert!(Route::CreateTask.needs_session());
    assert!(Route::CurrentUser.needs_session());
    assert!(!Route::Register.needs_session());
    assert!(!Route::Login.needs_session());
    assert!(!Route::StaticFile.needs_session());
    assert!(text(serve_store_error(Route::CreateTask, "disk")).starts_with("HTTP/1.1 500 "));
    assert!(text(serve_store_error(Route::ListTasks, "disk")).starts_with("HTTP/1.1 500 "));
    assert!(text(serve_store_error(Route::Register, "dup")).starts_with("HTTP/1.1 400 "));
    assert!(text(serve_store_error(Route::Login, "x")).starts_with("HTTP/1.1 400 "));
    assert!(text(serve_bad_body("eof")).contains("\"internalMessage\":\"eof\""));
}

#[test]
fn login_token_is_not_already_taken() {
    let mut store = SessionStore::new();
    let first = store.issue_session("a".to_string());
    assert_eq!(store.unused_token(first), first.wrapping_add(1));
    store.issue(first.wrapping_add(1), "b".to_string(), 0);
    assert_eq!(store.unused_token(first), first.wrapping_add(2));
    let mut full = SessionStore::new();
    full.issue(u128::MAX, "c".to_string(), 0);
    assert_eq!(full.unused_token(u128::MAX), 0);
}
