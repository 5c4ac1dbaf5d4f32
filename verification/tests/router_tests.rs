use spin_sdk_router::params::Params;
use spin_sdk_router::pattern::RouteError;
use spin_sdk_router::router::{Dispatch, Method, Request, Response, Router, not_found};

type Handler = fn(Request, Params) -> Result<Response, String>;

fn make_request(method: Method, path: &str) -> Request {
    Request { method, path: path.to_string(), body: None }
}

fn run(router: &Router<Handler>, req: Request) -> Result<Response, String> {
    match router.handle(&req) {
        Dispatch::Matched { handler, params } => handler(req, params),
        Dispatch::Respond { response } => Ok(response),
    }
}

fn ok_with_body(text: &str) -> Result<Response, String> {
    Ok(Response { status: 200, body: Some(text.as_bytes().to_vec()) })
}

fn body_string(res: Response) -> String {
    String::from_utf8(res.into_body().unwrap()).unwrap()
}

#[test]
fn test_not_found() {
    fn h1(_req: Request, _params: Params) -> Result<Response, String> {
        Ok(Response { status: 200, body: None })
    }

    let mut router: Router<Handler> = Router::default();
    router.get("/h1/:param", h1).unwrap();

    let req = make_request(Method::Get, "/h1/");
    let res = run(&router, req).unwrap();
    assert_eq!(res.status(), 404);
}

#[test]
fn test_param() {
    fn echo_param(req: Request, params: Params) -> Result<Response, String> {
        match params.get("x") {
            Some(path) => Ok(Response { status: 200, body: Some(path.as_bytes().to_vec()) }),
            None => {
                let _ = (req, params);
                Ok(not_found())
            }
        }
    }

    let mut router: Router<Handler> = Router::default();
    router.get("/:x", echo_param).unwrap();

    let req = make_request(Method::Get, "/y");
    let res = run(&router, req).unwrap();

    assert_eq!(body_string(res), "y".to_string());
}

#[test]
fn test_wildcard() {
    fn echo_wildcard(req: Request, params: Params) -> Result<Response, String> {
        match params.wildcard() {
            Some(path) => Ok(Response { status: 200, body: Some(path.as_bytes().to_vec()) }),
            None => {
                let _ = (req, params);
                Ok(not_found())
            }
        }
    }

    let mut router: Router<Handler> = Router::default();
    router.get("/*", echo_wildcard).unwrap();

    let req = make_request(Method::Get, "/foo/bar");
    let res = run(&router, req).unwrap();
    assert_eq!(res.status(), 200);
    assert_eq!(body_string(res), "foo/bar".to_string());
}

#[test]
fn test_ambiguous_wildcard_vs_star() {
    fn h1(_req: Request, _params: Params) -> Result<Response, String> {
        ok_with_body("one/two")
    }

    fn h2(_req: Request, _params: Params) -> Result<Response, String> {
        ok_with_body("posts/*")
    }

    let mut router: Router<Handler> = Router::default();
    router.get("/:one/:two", h1).unwrap();
    router.get("/posts/*", h2).unwrap();

    let req = make_request(Method::Get, "/posts/2");
    let res = run(&router, req).unwrap();

    assert_eq!(body_string(res), "posts/*".to_string());
}

#[test]
fn test_method_not_allowed() {
    fn h(_req: Request, _params: Params) -> Result<Response, String> {
        ok_with_body("posted")
    }

    let mut router: Router<Handler> = Router::default();
    router.post("/a/b", h).unwrap();

    let res = run(&router, make_request(Method::Get, "/a/b")).unwrap();
    assert_eq!(res.status(), 405);
    assert!(res.into_body().is_none());
}

#[test]
fn test_not_found_when_no_table_matches() {
    fn h(_req: Request, _params: Params) -> Result<Response, String> {
        ok_with_body("here")
    }

    let mut router: Router<Handler> = Router::default();
    router.post("/a/b", h).unwrap();

    let res = run(&router, make_request(Method::Get, "/c")).unwrap();
    assert_eq!(res.status(), 404);
    assert!(res.into_body().is_none());
}

#[test]
fn test_head_falls_back_to_get() {
    fn hello_planet(req: Request, params: Params) -> Result<Response, String> {
        match params.get("planet") {
            Some(planet) => Ok(Response { status: 200, body: Some(planet.as_bytes().to_vec()) }),
            None => {
                let _ = (req, params);
                Ok(not_found())
            }
        }
    }

    let mut router: Router<Handler> = Router::default();
    router.get("/hello/:planet", hello_planet).unwrap();

    let get_res = run(&router, make_request(Method::Get, "/hello/earth")).unwrap();
    let head_res = run(&router, make_request(Method::Head, "/hello/earth")).unwrap();
    assert_eq!(get_res.status(), head_res.status());
    assert_eq!(body_string(get_res), "earth".to_string());
    assert_eq!(body_string(head_res), "earth".to_string());
}

#[test]
fn test_head_only_route_still_405_for_post() {
    fn h(_req: Request, _params: Params) -> Result<Response, String> {
        ok_with_body("g")
    }

    let mut router: Router<Handler> = Router::default();
    router.post("/p", h).unwrap();

    // HEAD misses its own table, the any-method table, and the GET fallback,
    // but POST's table matches the path: method not allowed.
    let res = run(&router, make_request(Method::Head, "/p")).unwrap();
    assert_eq!(res.status(), 405);
}

#[test]
fn test_literal_beats_named() {
    fn h_param(_req: Request, params: Params) -> Result<Response, String> {
        ok_with_body(&format!("id={}", params.get("id").unwrap()))
    }

    fn h_lit(_req: Request, _params: Params) -> Result<Response, String> {
        ok_with_body("new")
    }

    let mut router: Router<Handler> = Router::default();
    router.get("/posts/:id", h_param).unwrap();
    router.get("/posts/new", h_lit).unwrap();

    let res = run(&router, make_request(Method::Get, "/posts/new")).unwrap();
    assert_eq!(body_string(res), "new".to_string());
    let res = run(&router, make_request(Method::Get, "/posts/7")).unwrap();
    assert_eq!(body_string(res), "id=7".to_string());
}

#[test]
fn test_fewer_named_beats_more() {
    fn h_named(_req: Request, _params: Params) -> Result<Response, String> {
        ok_with_body("named")
    }

    fn h_wild(_req: Request, _params: Params) -> Result<Response, String> {
        ok_with_body("wild")
    }

    let mut router: Router<Handler> = Router::default();
    router.get("/a/:x", h_named).unwrap();
    router.get("/a/*", h_wild).unwrap();

    // Equal literal counts; the wildcard pattern has no named parameters, so
    // it ranks above the one-parameter pattern.
    let res = run(&router, make_request(Method::Get, "/a/b")).unwrap();
    assert_eq!(body_string(res), "wild".to_string());
}

#[test]
fn test_exact_beats_wildcard() {
    fn h_exact(_req: Request, _params: Params) -> Result<Response, String> {
        ok_with_body("exact")
    }

    fn h_wild(_req: Request, _params: Params) -> Result<Response, String> {
        ok_with_body("wild")
    }

    let mut router: Router<Handler> = Router::default();
    router.get("/x/:a/*", h_wild).unwrap();
    router.get("/x/:a", h_exact).unwrap();

    // Equal literal and named counts; the exact pattern beats the wildcard.
    let res = run(&router, make_request(Method::Get, "/x/y")).unwrap();
    assert_eq!(body_string(res), "exact".to_string());
}

#[test]
fn test_registration_order_breaks_ties() {
    fn h1(_req: Request, params: Params) -> Result<Response, String> {
        ok_with_body(&format!("first a={}", params.get("a").unwrap()))
    }

    fn h2(_req: Request, _params: Params) -> Result<Response, String> {
        ok_with_body("second")
    }

    let mut router: Router<Handler> = Router::default();
    router.get("/:a", h1).unwrap();
    router.get("/:b", h2).unwrap();

    let res = run(&router, make_request(Method::Get, "/z")).unwrap();
    assert_eq!(body_string(res), "first a=z".to_string());
}

#[test]
fn test_wildcard_captures_empty_remainder() {
    fn echo_wildcard(_req: Request, params: Params) -> Result<Response, String> {
        ok_with_body(params.wildcard().unwrap())
    }

    let mut router: Router<Handler> = Router::default();
    router.get("/*", echo_wildcard).unwrap();

    let res = run(&router, make_request(Method::Get, "/")).unwrap();
    assert_eq!(res.status(), 200);
    assert_eq!(body_string(res), "".to_string());
}

#[test]
fn test_trailing_slash_is_ignored() {
    fn h(_req: Request, _params: Params) -> Result<Response, String> {
        ok_with_body("hello")
    }

    let mut router: Router<Handler> = Router::default();
    router.get("/hello", h).unwrap();

    let res = run(&router, make_request(Method::Get, "/hello/")).unwrap();
    assert_eq!(res.status(), 200);
}

#[test]
fn test_empty_pattern_rejected() {
    fn h(_req: Request, _params: Params) -> Result<Response, String> {
        ok_with_body("h")
    }

    let mut router: Router<Handler> = Router::default();
    assert_eq!(router.get("", h), Err(RouteError::InvalidPattern));
    assert_eq!(router.get("/", h), Err(RouteError::InvalidPattern));
}

#[test]
fn test_non_final_wildcard_rejected() {
    fn h(_req: Request, _params: Params) -> Result<Response, String> {
        ok_with_body("h")
    }

    let mut router: Router<Handler> = Router::default();
    assert_eq!(router.get("/*/x", h), Err(RouteError::InvalidPattern));
    assert_eq!(router.get("/a/*/b", h), Err(RouteError::InvalidPattern));
    assert_eq!(router.get("/a/*", h), Ok(()));
}

#[test]
fn test_duplicate_pattern_rejected() {
    fn h1(_req: Request, _params: Params) -> Result<Response, String> {
        ok_with_body("h1")
    }

    fn h2(_req: Request, _params: Params) -> Result<Response, String> {
        ok_with_body("h2")
    }

    let mut router: Router<Handler> = Router::default();
    assert_eq!(router.get("/a", h1), Ok(()));
    assert_eq!(router.get("/a", h2), Err(RouteError::DuplicatePattern));
    // The same pattern under another method is a different scope.
    assert_eq!(router.post("/a", h2), Ok(()));
    // And so is the any-method table.
    assert_eq!(router.all("/a", h2), Ok(()));
}

#[test]
fn test_all_methods_fallback() {
    fn hg(_req: Request, _params: Params) -> Result<Response, String> {
        ok_with_body("get")
    }

    fn ha(_req: Request, params: Params) -> Result<Response, String> {
        ok_with_body(&format!("any x={}", params.get("x").unwrap()))
    }

    let mut router: Router<Handler> = Router::default();
    router.get("/any/:x", hg).unwrap();
    router.all("/any/:x", ha).unwrap();

    // The request's own method table wins over the any-method table.
    let res = run(&router, make_request(Method::Get, "/any/q")).unwrap();
    assert_eq!(body_string(res), "get".to_string());
    // Other methods fall through to the any-method table.
    let res = run(&router, make_request(Method::Post, "/any/q")).unwrap();
    assert_eq!(body_string(res), "any x=q".to_string());
    let res = run(&router, make_request(Method::Delete, "/any/q")).unwrap();
    assert_eq!(body_string(res), "any x=q".to_string());
}

#[test]
fn test_dispatch_is_idempotent() {
    fn h(_req: Request, params: Params) -> Result<Response, String> {
        ok_with_body(&format!("n={}", params.get("n").unwrap()))
    }

    let mut router: Router<Handler> = Router::default();
    router.get("/v/:n", h).unwrap();
    router.post("/w", h).unwrap();

    for path in ["/v/1", "/w", "/absent"] {
        let r1 = run(&router, make_request(Method::Get, path)).unwrap();
        let r2 = run(&router, make_request(Method::Get, path)).unwrap();
        assert_eq!(r1.status(), r2.status());
        assert_eq!(r1.into_body(), r2.into_body());
    }
}

#[test]
fn test_missing_param_is_none() {
    fn h(_req: Request, params: Params) -> Result<Response, String> {
        assert!(params.get("absent").is_none());
        ok_with_body(params.get("present").unwrap())
    }

    let mut router: Router<Handler> = Router::default();
    router.get("/:present", h).unwrap();

    let res = run(&router, make_request(Method::Get, "/val")).unwrap();
    assert_eq!(body_string(res), "val".to_string());
}

#[test]
fn test_handler_error_propagates() {
    fn failing(_req: Request, _params: Params) -> Result<Response, String> {
        Err("handler failed".to_string())
    }

    let mut router: Router<Handler> = Router::default();
    router.get("/boom", failing).unwrap();

    let res = run(&router, make_request(Method::Get, "/boom"));
    match res {
        Err(e) => assert_eq!(e, "handler failed".to_string()),
        Ok(_) => panic!("the handler's error must propagate unchanged"),
    }
}

#[test]
fn test_doubled_slashes_collapse() {
    fn h(_req: Request, params: Params) -> Result<Response, String> {
        ok_with_body(params.get("b").unwrap())
    }

    let mut router: Router<Handler> = Router::default();
    router.get("/a/:b", h).unwrap();

    let res = run(&router, make_request(Method::Get, "//a//c")).unwrap();
    assert_eq!(body_string(res), "c".to_string());
}
