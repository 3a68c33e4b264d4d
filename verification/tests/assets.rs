use remote_control::assets::{
    asset_candidate, asset_reply, has_resolved_form, is_within, path_extension, recognized_type,
    request_climbs_out, static_asset_handler, AssetError, AssetGrant, AssetReply, ContentType,
    STATIC_ROOT,
};
use remote_control::bootstrap::STYLESHEET_PATH;
use std::path::Path;

const ROOT: &[u8] = b"/srv/app/static";

fn bare(status: u16) -> AssetReply {
    AssetReply { status, content_type: None, body: String::new() }
}

fn resolved(subdir: &str, asset: &str, path: &str) -> Result<AssetGrant, AssetError> {
    static_asset_handler(subdir, asset, Some(path.as_bytes()), Some(ROOT))
}

fn missing(subdir: &str, asset: &str) -> Result<AssetGrant, AssetError> {
    static_asset_handler(subdir, asset, None, Some(ROOT))
}

#[test]
fn candidate_path_joins_root_category_and_asset() {
    assert_eq!(asset_candidate("css", "main.css"), "./static/css/main.css");
    assert_eq!(asset_candidate("x", "y.txt"), "./static/x/y.txt");
    assert_eq!(asset_candidate("..", "secret"), "./static/../secret");
    assert_eq!(asset_candidate("", ""), "./static//");
    assert_eq!(STATIC_ROOT, "./static/");
}

#[test]
fn stylesheet_link_of_the_page_leads_to_the_default_stylesheet() {
    assert_eq!(asset_candidate("css", "main.css"), STYLESHEET_PATH);
}

#[test]
fn path_below_the_root_is_inside() {
    assert!(is_within(b"/srv/app/static/css/main.css", ROOT));
    assert!(is_within(b"/srv/app/static/a", ROOT));
}

#[test]
fn root_itself_is_inside() {
    assert!(is_within(ROOT, ROOT));
    assert!(is_within(b"/", b"/"));
}

#[test]
fn path_outside_the_root_is_not_inside() {
    assert!(!is_within(b"/etc/passwd", ROOT));
    assert!(!is_within(b"/srv/app/config.toml", ROOT));
    assert!(!is_within(b"/srv/app", ROOT));
    assert!(!is_within(b"/srv", ROOT));
    assert!(!is_within(b"", ROOT));
}

#[test]
fn sibling_with_the_root_as_name_prefix_is_not_inside() {
    assert!(!is_within(b"/srv/app/static-old/main.css", ROOT));
    assert!(!is_within(b"/srv/app/staticmain.css", ROOT));
    assert!(!is_within(b"/srv/app/static.css", ROOT));
}

#[test]
fn everything_absolute_is_inside_the_file_system_root() {
    assert!(is_within(b"/etc/passwd", b"/"));
    assert!(is_within(b"/a", b"/"));
}

#[test]
fn containment_tells_apart_names_that_are_not_text() {
    assert!(is_within(b"/srv/\xff/static/a.css", b"/srv/\xff/static"));
    assert!(!is_within(b"/srv/\xfe/static/a.css", b"/srv/\xff/static"));
}

#[test]
fn containment_agrees_with_the_standard_library_on_resolved_paths() {
    let paths = [
        "/",
        "/srv",
        "/srv/app",
        "/srv/app/static",
        "/srv/app/static/css",
        "/srv/app/static/css/main.css",
        "/srv/app/static-old/main.css",
        "/srv/app/staticx",
        "/srv/app/stat",
        "/etc/passwd",
        "/srv/àpp/static/ü.css",
    ];
    for path in paths {
        for root in paths {
            assert_eq!(
                is_within(path.as_bytes(), root.as_bytes()),
                Path::new(path).starts_with(root)
            );
        }
    }
}

#[test]
fn resolved_form_starts_at_the_root_and_has_no_relative_component() {
    for path in ["/", "/srv", "/srv/app/static/css/main.css", "/srv/.hidden/a..b/...", "/a.", "/.a"] {
        assert!(has_resolved_form(path.as_bytes()));
    }
    for path in [
        "",
        "static",
        "./static",
        "./static/",
        "./static/../secret.css",
        "/srv/./static",
        "/srv/../etc",
        "/srv/static/..",
        "/srv/static/.",
        "/..",
        "/.",
        "..",
        ".",
    ] {
        assert!(!has_resolved_form(path.as_bytes()));
    }
}

#[test]
fn extension_is_what_follows_the_last_dot_of_the_file_name() {
    assert_eq!(path_extension(b"/srv/static/css/main.css"), Some(b"css".to_vec()));
    assert_eq!(path_extension(b"/srv/static/x/y.txt"), Some(b"txt".to_vec()));
    assert_eq!(path_extension(b"/srv/static/a.tar.gz"), Some(b"gz".to_vec()));
    assert_eq!(path_extension(b"/srv/static/a.min.css"), Some(b"css".to_vec()));
    assert_eq!(path_extension(b"main.css"), Some(b"css".to_vec()));
    assert_eq!(path_extension(b"/srv/static/a.\xff"), Some(b"\xff".to_vec()));
}

#[test]
fn file_name_without_a_dot_has_no_extension() {
    assert_eq!(path_extension(b"/srv/static/css/main"), None);
    assert_eq!(path_extension(b"/srv/static.d/main"), None);
    assert_eq!(path_extension(b"/"), None);
    assert_eq!(path_extension(b""), None);
    assert_eq!(path_extension(b"css"), None);
}

#[test]
fn dot_that_starts_the_file_name_starts_no_extension() {
    assert_eq!(path_extension(b"/srv/static/.css"), None);
    assert_eq!(path_extension(b".css"), None);
    assert_eq!(path_extension(b"/srv/static/.hidden.css"), Some(b"css".to_vec()));
    assert_eq!(path_extension(b"/srv/static/..css"), Some(b"css".to_vec()));
}

#[test]
fn trailing_dot_gives_an_empty_extension() {
    assert_eq!(path_extension(b"/srv/static/main."), Some(Vec::new()));
    assert_eq!(path_extension(b"/srv/static/.."), None);
    assert_eq!(path_extension(b".."), None);
    assert_eq!(path_extension(b"/srv/static/..."), Some(Vec::new()));
}

#[test]
fn extension_agrees_with_the_standard_library_on_resolved_paths() {
    let paths = [
        "/",
        "/srv/static/css/main.css",
        "/srv/static/x/y.txt",
        "/srv/static/a.tar.gz",
        "/srv/static/.css",
        "/srv/static/.hidden.css",
        "/srv/static/..css",
        "/srv/static/main.",
        "/srv/static/main",
        "/srv/static.d/main",
        "/srv/static/...",
        "/srv/static/ü.çss",
        "/srv/static/a.CSS",
    ];
    for path in paths {
        let expected =
            Path::new(path).extension().and_then(|e| e.to_str()).map(|e| e.as_bytes().to_vec());
        assert_eq!(path_extension(path.as_bytes()), expected);
    }
}

#[test]
fn only_the_stylesheet_extension_is_recognized() {
    assert_eq!(recognized_type(b"css"), Some(ContentType::Css));
    for other in ["CSS", "Css", "txt", "html", "js", "", "cs", "csss"] {
        assert_eq!(recognized_type(other.as_bytes()), None);
    }
    assert_eq!(recognized_type(b"cs\xff"), None);
    assert_eq!(ContentType::Css.header_value(), "text/css");
}

#[test]
fn request_that_steps_above_the_root_climbs_out() {
    assert!(request_climbs_out("..", "nothing.css"));
    assert!(request_climbs_out("..", ""));
    assert!(request_climbs_out("css", "../../etc/passwd"));
    assert!(request_climbs_out("css/../..", "main.css"));
    assert!(request_climbs_out("", ".."));
    assert!(request_climbs_out(".", ".."));
    assert!(request_climbs_out("css", "../.."));
    assert!(request_climbs_out("../static", "main.css"));
    assert!(request_climbs_out("a/b/../../..", "x"));
}

#[test]
fn request_that_stays_at_or_below_the_root_does_not_climb_out() {
    assert!(!request_climbs_out("css", "main.css"));
    assert!(!request_climbs_out("x", "y.txt"));
    assert!(!request_climbs_out("", ""));
    assert!(!request_climbs_out("css", ".."));
    assert!(!request_climbs_out("css", "../main.css"));
    assert!(!request_climbs_out("css", "a/../../css/main.css"));
    assert!(!request_climbs_out(".", "./main.css"));
    assert!(!request_climbs_out("...", "...."));
    assert!(!request_climbs_out("..a", "a.."));
    assert!(!request_climbs_out("css//", "//main.css"));
    assert!(!request_climbs_out("ü", "é.css"));
}

#[test]
fn stylesheet_inside_the_root_is_granted() {
    assert_eq!(
        resolved("css", "main.css", "/srv/app/static/css/main.css"),
        Ok(AssetGrant {
            path: b"/srv/app/static/css/main.css".to_vec(),
            content_type: ContentType::Css
        })
    );
}

#[test]
fn stylesheet_under_a_name_that_is_not_text_is_granted() {
    let root: &[u8] = b"/srv/\xff/static";
    let path: &[u8] = b"/srv/\xff/static/css/main.css";
    assert_eq!(
        static_asset_handler("css", "main.css", Some(path), Some(root)),
        Ok(AssetGrant { path: path.to_vec(), content_type: ContentType::Css })
    );
    let other: &[u8] = b"/srv/\xfe/static/css/main.css";
    assert_eq!(
        static_asset_handler("css", "main.css", Some(other), Some(root)),
        Err(AssetError::PathTraversalRejected)
    );
}

#[test]
fn request_that_climbs_and_comes_back_is_judged_by_where_it_resolved() {
    assert_eq!(
        resolved("..", "static/css/main.css", "/srv/app/static/css/main.css"),
        Ok(AssetGrant {
            path: b"/srv/app/static/css/main.css".to_vec(),
            content_type: ContentType::Css
        })
    );
}

#[test]
fn path_resolved_outside_the_root_is_rejected() {
    for escaped in ["/etc/passwd", "/srv/app/config.toml", "/srv/app/secret.css", "/srv/app"] {
        let verdict = resolved("..", "x", escaped);
        assert_eq!(verdict, Err(AssetError::PathTraversalRejected));
        assert_eq!(AssetError::PathTraversalRejected.status(), 400);
        let reply = asset_reply(&verdict, Some("root:x:0:0".to_string()));
        assert_eq!(reply, bare(400));
    }
}

#[test]
fn link_that_leads_outside_the_root_is_rejected() {
    assert_eq!(
        resolved("css", "main.css", "/etc/passwd.css"),
        Err(AssetError::PathTraversalRejected)
    );
}

#[test]
fn climbing_request_that_names_nothing_is_rejected() {
    let verdict = missing("..", "nothing.css");
    assert_eq!(verdict, Err(AssetError::PathTraversalRejected));
    let reply = asset_reply(&verdict, None);
    assert_eq!(reply.status, 400);
    assert_eq!(reply.body, "");
    assert_eq!(reply, bare(400));
    assert_eq!(missing("css", "../../etc/shadow"), Err(AssetError::PathTraversalRejected));
    assert_eq!(missing("..", "..").map(|_| ()), Err(AssetError::PathTraversalRejected));
}

#[test]
fn climbing_request_is_answered_alike_whether_its_target_exists_or_not() {
    let there = asset_reply(&resolved("..", "config.toml", "/srv/app/config.toml"), None);
    let not_there = asset_reply(&missing("..", "config.toml"), None);
    assert_eq!(there, not_there);
    assert_eq!(there, bare(400));
}

#[test]
fn climbing_request_is_rejected_without_an_asset_directory() {
    assert_eq!(
        static_asset_handler("..", "nothing.css", None, None),
        Err(AssetError::PathTraversalRejected)
    );
    assert_eq!(
        static_asset_handler("..", "passwd", Some(b"/etc/passwd"), None),
        Err(AssetError::PathTraversalRejected)
    );
}

#[test]
fn unresolved_text_is_never_taken_for_a_resolved_path() {
    let verdict = static_asset_handler(
        "..",
        "secret.css",
        Some(b"./static/../secret.css"),
        Some(b"./static/"),
    );
    assert_eq!(verdict, Err(AssetError::PathTraversalRejected));
    assert_eq!(asset_reply(&verdict, Some("secret".to_string())), bare(400));
    for (path, root) in [
        ("/srv/app/static/../secret.css", "/srv/app/static"),
        ("/srv/app/static/./main.css", "/srv/app/static"),
        ("/srv/app/static/css/main.css", "/srv/app/./static"),
        ("/srv/app/static/css/main.css", "/srv/app/static/.."),
        ("static/main.css", "static"),
        ("/srv/app/static/main.css", ""),
    ] {
        assert_eq!(
            static_asset_handler("css", "main.css", Some(path.as_bytes()), Some(root.as_bytes())),
            Err(AssetError::PathTraversalRejected)
        );
    }
}

#[test]
fn traversal_is_rejected_before_the_extension_is_looked_at() {
    assert_eq!(
        resolved("..", "notes.txt", "/srv/app/notes.txt"),
        Err(AssetError::PathTraversalRejected)
    );
    assert_eq!(missing("..", "notes.txt"), Err(AssetError::PathTraversalRejected));
}

#[test]
fn text_file_is_not_found_whether_it_exists_or_not() {
    let absent = missing("x", "y.txt");
    assert_eq!(absent, Err(AssetError::AssetNotFound));
    assert_eq!(asset_reply(&absent, None), bare(404));
    let present = resolved("x", "y.txt", "/srv/app/static/x/y.txt");
    assert_eq!(present, Err(AssetError::AssetNotFound));
    assert_eq!(AssetError::AssetNotFound.status(), 404);
    assert_eq!(asset_reply(&present, Some("some text".to_string())), bare(404));
    assert_eq!(asset_reply(&present, None), bare(404));
}

#[test]
fn missing_stylesheet_is_not_found() {
    assert_eq!(missing("css", "other.css"), Err(AssetError::AssetNotFound));
    assert_eq!(missing("css", "a/../other.css"), Err(AssetError::AssetNotFound));
}

#[test]
fn nothing_is_found_without_an_asset_directory() {
    assert_eq!(
        static_asset_handler("css", "main.css", None, None),
        Err(AssetError::AssetNotFound)
    );
    assert_eq!(
        static_asset_handler("css", "main.css", Some(b"/srv/app/static/css/main.css"), None),
        Err(AssetError::AssetNotFound)
    );
}

#[test]
fn file_without_extension_is_not_found() {
    for path in
        ["/srv/app/static/css/main", "/srv/app/static", "/srv/app/static/.css", "/srv/app/static/a.CSS"]
    {
        assert_eq!(resolved("css", "main", path), Err(AssetError::AssetNotFound));
    }
}

#[test]
fn granted_file_that_was_read_is_served_as_a_stylesheet() {
    let verdict = resolved("css", "main.css", "/srv/app/static/css/main.css");
    let reply = asset_reply(&verdict, Some("body { margin: 0; }".to_string()));
    assert_eq!(
        reply,
        AssetReply {
            status: 200,
            content_type: Some(ContentType::Css),
            body: "body { margin: 0; }".to_string()
        }
    );
}

#[test]
fn granted_file_that_cannot_be_read_is_not_found() {
    let verdict = resolved("css", "main.css", "/srv/app/static/css/main.css");
    assert_eq!(asset_reply(&verdict, None), bare(404));
}

#[test]
fn empty_stylesheet_is_served_empty() {
    let verdict = resolved("css", "empty.css", "/srv/app/static/css/empty.css");
    let reply = asset_reply(&verdict, Some(String::new()));
    assert_eq!(reply.status, 200);
    assert_eq!(reply.content_type, Some(ContentType::Css));
    assert_eq!(reply.body, "");
}
