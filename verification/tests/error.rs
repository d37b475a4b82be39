use docs_rs::cache::CachePolicy;
use docs_rs::error::{Answer, AxumNope, Failure, JsonAnswer};
use docs_rs::escaped_uri::EscapedURI;

fn all() -> Vec<(AxumNope, u16, &'static str, &'static str, &'static str)> {
    vec![
        (
            AxumNope::ResourceNotFound,
            404,
            "The requested resource does not exist",
            "no such resource",
            "Requested resource not found",
        ),
        (
            AxumNope::BuildNotFound,
            404,
            "The requested build does not exist",
            "no such build",
            "Requested build not found",
        ),
        (
            AxumNope::CrateNotFound,
            404,
            "The requested crate does not exist",
            "no such crate",
            "Requested crate not found",
        ),
        (
            AxumNope::OwnerNotFound,
            404,
            "The requested owner does not exist",
            "no such owner",
            "Requested owner not found",
        ),
        (
            AxumNope::VersionNotFound,
            404,
            "The requested version does not exist",
            "no such version for this crate",
            "Requested crate does not have specified version",
        ),
        (
            AxumNope::TargetNotFound,
            404,
            "The requested target does not exist",
            "no such target",
            "Requested release doesn't have docs for the given target",
        ),
        (
            AxumNope::Unauthorized("token"),
            401,
            "Unauthorized",
            "token",
            "Unauthorized: token",
        ),
        (
            AxumNope::InternalError("database".into()),
            500,
            "Internal Server Error",
            "database",
            "internal error",
        ),
        (
            AxumNope::BadRequest("nonsense".into()),
            400,
            "Bad request",
            "nonsense",
            "bad request",
        ),
    ]
}

#[test]
fn error_pages() {
    for (nope, status, title, message, text) in all() {
        assert_eq!(nope.to_text(), text);
        assert_eq!(nope.is_reported(), status == 500);
        let answer = nope.into_answer();
        assert_eq!(answer.status_code(), status);
        let Answer::ErrorPage(info) = answer else {
            panic!("no error page")
        };
        assert_eq!((info.title, info.message.as_str()), (title, message));
    }
}

#[test]
fn errors_of_the_api() {
    for (nope, status, title, message, _) in all() {
        let answer = nope.into_json_answer();
        assert_eq!(answer.status_code(), status);
        let JsonAnswer::Json(info) = answer else {
            panic!("no object")
        };
        assert_eq!((info.title, info.message.as_str()), (title, message));
    }
}

#[test]
fn empty_searches() {
    assert_eq!(AxumNope::NoResults.to_text(), "Search yielded no results");
    let answer = AxumNope::NoResults.into_answer();
    assert_eq!(answer.status_code(), 404);
    assert!(matches!(
        answer,
        Answer::EmptySearch("No results given for empty search query", 404)
    ));
    let answer = AxumNope::NoResults.into_json_answer();
    assert!(matches!(answer, JsonAnswer::Empty(404)));
}

#[test]
fn redirects() {
    let nope = || {
        AxumNope::Redirect(
            EscapedURI::from_path("/a").append_query_pair("k", "ü"),
            CachePolicy::NoCaching,
        )
    };
    assert_eq!(nope().to_text(), "redirect");
    let Answer::Redirect(to) = nope().into_answer() else {
        panic!("no redirect")
    };
    assert_eq!(to.location.as_str(), "/a?k=%C3%BC");
    let answer = nope().into_json_answer();
    assert_eq!(answer.status_code(), 302);
    assert!(matches!(answer, JsonAnswer::Redirect(_)));
}

#[test]
fn redirects_that_cannot_be_sent() {
    let nope = || {
        AxumNope::Redirect(
            EscapedURI::from_path("/a").with_fragment("line\nbreak".into()),
            CachePolicy::NoCaching,
        )
    };
    let answer = nope().into_answer();
    assert_eq!(answer.status_code(), 500);
    let Answer::ErrorPage(info) = answer else {
        panic!("no error page")
    };
    assert_eq!(info.message, "failed to parse header value");
    let answer = nope().into_json_answer();
    assert_eq!(answer.status_code(), 500);
    assert!(matches!(answer, JsonAnswer::ErrorPage(_)));
}

#[test]
fn failures() {
    let nope = AxumNope::from(Failure::Nope(AxumNope::OwnerNotFound));
    assert!(matches!(nope, AxumNope::OwnerNotFound));
    let nope = AxumNope::from(Failure::PathNotFound);
    assert!(matches!(nope, AxumNope::ResourceNotFound));
    let nope = AxumNope::from(Failure::Other("disk".into()));
    assert!(matches!(nope, AxumNope::InternalError(message) if message == "disk"));
}

#[test]
fn the_api_answers_like_pages() {
    let uri = || EscapedURI::from_path("/a b").append_query_pair("q", "1");
    let nopes: Vec<Box<dyn Fn() -> AxumNope>> = vec![
        Box::new(|| AxumNope::ResourceNotFound),
        Box::new(|| AxumNope::NoResults),
        Box::new(|| AxumNope::Unauthorized("who")),
        Box::new(|| AxumNope::InternalError("why".into())),
        Box::new(|| AxumNope::BadRequest("what".into())),
        Box::new(move || AxumNope::Redirect(uri(), CachePolicy::NoCaching)),
    ];
    for nope in nopes {
        let page = nope().into_answer();
        let json = nope().into_json_answer();
        assert_eq!(page.status_code(), json.status_code());
        match (page, json) {
            (Answer::EmptySearch(..), JsonAnswer::Empty(_)) => {}
            (Answer::Redirect(a), JsonAnswer::Redirect(b)) => {
                assert_eq!(a.location.as_str(), "/a%20b?q=1");
                assert_eq!(a.location.as_str(), b.location.as_str());
            }
            (Answer::ErrorPage(shown), JsonAnswer::Json(info)) => {
                let fields = info.into_json_fields();
                assert_eq!(
                    fields,
                    vec![
                        ("title".to_owned(), shown.title.to_owned()),
                        ("message".to_owned(), shown.message),
                    ]
                );
            }
            other => panic!("{other:?}"),
        }
    }
}
