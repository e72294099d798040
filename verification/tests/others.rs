use places::fml::{
    as_directory, contains_text, contents_api_url, download_url, extension_of, is_location, is_url,
    parse_shortcut, ClientError, LoaderConfig, Shortcut,
};
use places::fxa::{FxaConfig, FxaServer};
use places::merino::{CuratedRecommendationsApiError, Error, LogLevel};
use places::search::{
    SearchApplicationName, SearchEngineSelector, SearchError, SearchUpdateChannel,
    SearchUserEnvironment,
};
use url::Url;

#[test]
fn test_from_url() {
    let test_cases = [
        ("https://accounts.firefox.com", FxaServer::Release),
        ("https://stable.dev.lcip.org", FxaServer::Stable),
        ("https://accounts.stage.mozaws.net", FxaServer::Stage),
        ("https://accounts.firefox.com.cn", FxaServer::China),
        ("http://127.0.0.1:3030", FxaServer::LocalDev),
        (
            "http://my-fxa-server.com",
            FxaServer::Custom { url: "http://my-fxa-server.com".to_owned() },
        ),
    ];
    for (content_url, expected_result) in test_cases {
        let url = Url::parse(content_url).unwrap();
        assert_eq!(FxaServer::from_url(url.as_str()), Some(expected_result));
    }
}

#[test]
fn server_of_an_origin() {
    // Only the origin counts: path, query and default port do not.
    assert_eq!(
        FxaServer::from_url("https://accounts.firefox.com:443/oauth?x=1"),
        Some(FxaServer::Release)
    );
    assert_eq!(
        FxaServer::from_url("http://accounts.firefox.com/"),
        Some(FxaServer::Custom { url: "http://accounts.firefox.com".into() })
    );
    assert_eq!(
        FxaServer::from_url("http://127.0.0.1:3031/"),
        Some(FxaServer::Custom { url: "http://127.0.0.1:3031".into() })
    );
    // An origin that is no scheme, host and port reads "null".
    assert_eq!(
        FxaServer::from_url("data:text/plain,hi"),
        Some(FxaServer::Custom { url: "null".into() })
    );
    assert_eq!(FxaServer::from_url("not a url"), None);
    assert_eq!(FxaServer::from_origin("https://stable.dev.lcip.org"), FxaServer::Stable);
    assert_eq!(
        FxaServer::from_origin("https://stable.dev.lcip.org/"),
        FxaServer::Custom { url: "https://stable.dev.lcip.org/".into() }
    );

    assert_eq!(FxaServer::China.content_url(), "https://accounts.firefox.com.cn");
    assert_eq!(FxaServer::Custom { url: "http://x".into() }.content_url(), "http://x");
    assert_eq!(FxaServer::LocalDev.name(), "LocalDev");
    assert_eq!(FxaServer::Custom { url: "http://secret".into() }.name(), "Custom");
}

#[test]
fn configurations() {
    let makers: [(fn(&str, &str) -> FxaConfig, FxaServer); 5] = [
        (FxaConfig::release, FxaServer::Release),
        (FxaConfig::stable, FxaServer::Stable),
        (FxaConfig::stage, FxaServer::Stage),
        (FxaConfig::china, FxaServer::China),
        (FxaConfig::dev, FxaServer::LocalDev),
    ];
    for (make, server) in makers {
        let config = make("client", "https://example.com/redirect");
        assert_eq!(config.server, server);
        assert_eq!(config.client_id, "client");
        assert_eq!(config.redirect_uri, "https://example.com/redirect");
        assert_eq!(config.token_server_url_override, None);
    }
}

#[test]
fn test_filter_engine_config_throws() {
    let selector = SearchEngineSelector::new();

    let result = selector.filter_engine_configuration(SearchUserEnvironment {
        locale: "fi".into(),
        region: "FR".into(),
        update_channel: SearchUpdateChannel::Default,
        distribution_id: String::new(),
        experiment: String::new(),
        app_name: SearchApplicationName::Firefox,
        version: String::new(),
    });

    assert!(result.is_err());
}

#[test]
fn selector_keeps_nothing() {
    let selector = SearchEngineSelector::default();
    assert_eq!(selector, SearchEngineSelector::new());
    assert_eq!(selector.set_search_config("{}".into()), Err(SearchError::NotImplemented));
    selector.clear_search_config();
    assert_eq!(selector, SearchEngineSelector::new());
}

#[test]
fn error_handling() {
    let h = Error::Request("timed out".into()).get_error_handling();
    assert_eq!(
        h.err,
        CuratedRecommendationsApiError::Network {
            reason: "Error sending request: timed out".into()
        }
    );
    assert_eq!(h.log_level, Some(LogLevel::Warn));
    assert_eq!(h.report_class, None);

    let h = Error::Validation { code: 422, message: "bad locale".into() }.get_error_handling();
    assert_eq!(
        h.err,
        CuratedRecommendationsApiError::Other {
            code: Some(422),
            reason: "Validation error: bad locale".into()
        }
    );
    assert_eq!(h.report_class, Some("merino-validation".to_string()));

    let h = Error::Server { code: 503, message: "down".into() }.get_error_handling();
    assert_eq!(
        h.err,
        CuratedRecommendationsApiError::Other { code: Some(503), reason: "Server error: down".into() }
    );
    assert_eq!((h.log_level, h.report_class), (None, None));

    let h = Error::BadRequest { code: 400, message: "what".into() }.get_error_handling();
    assert_eq!(
        h.err,
        CuratedRecommendationsApiError::Other { code: Some(400), reason: "Bad request: what".into() }
    );
    assert_eq!((h.log_level, h.report_class), (None, None));

    let h = Error::Unexpected { code: 418, message: "teapot".into() }.get_error_handling();
    assert_eq!(
        h.err,
        CuratedRecommendationsApiError::Other {
            code: Some(418),
            reason: "Unexpected error: teapot".into()
        }
    );
    assert_eq!(h.report_class, Some("merino-unexpected".to_string()));

    for e in [Error::UrlParse("empty host".into()), Error::Json("EOF".into())] {
        let h = e.get_error_handling();
        assert_eq!(
            h.err,
            CuratedRecommendationsApiError::Other { code: None, reason: e.message() }
        );
        assert_eq!(h.log_level, Some(LogLevel::Error));
        assert_eq!(h.report_class, Some("merino-unexpected".to_string()));
    }
    assert_eq!(Error::Json("EOF".into()).message(), "JSON error: EOF");
    assert_eq!(Error::UrlParse("empty host".into()).message(), "URL parse error: empty host");
}

#[test]
fn client_errors_carry_their_text() {
    assert_eq!(ClientError::InvalidFeatureConfig("a".into()).message(), "a");
    assert_eq!(ClientError::InvalidFeatureId("b".into()).message(), "b");
    assert_eq!(ClientError::InvalidFeatureValue("c".into()).message(), "c");
    assert_eq!(ClientError::JsonMergeError("d".into()).message(), "d");
}

#[test]
fn repository_shorthand() {
    assert_eq!(
        LoaderConfig::repo_and_path("@mozilla/application-services/a/b.yaml"),
        Some(("@mozilla/application-services".to_string(), "a/b.yaml".to_string()))
    );
    assert_eq!(
        LoaderConfig::repo_and_path("@user/repo/"),
        Some(("@user/repo".to_string(), "".to_string()))
    );
    assert_eq!(
        LoaderConfig::repo_and_path("@/repo/path"),
        Some(("@/repo".to_string(), "path".to_string()))
    );
    assert_eq!(
        LoaderConfig::repo_and_path("@\u{fc}ser/rep\u{f6}/p\u{e4}th"),
        Some(("@\u{fc}ser/rep\u{f6}".to_string(), "p\u{e4}th".to_string()))
    );
    assert_eq!(LoaderConfig::repo_and_path("@user/repo"), None);
    assert_eq!(LoaderConfig::repo_and_path("@user"), None);
    assert_eq!(LoaderConfig::repo_and_path("user/repo/path"), None);
    assert_eq!(LoaderConfig::repo_and_path(""), None);
}

#[test]
fn shorthand_in_its_parts() {
    assert_eq!(
        parse_shortcut("@repos/branch/a/file.txt"),
        Shortcut::Parts { user: "repos".into(), repo: "branch".into(), path: "a/file.txt".into() }
    );
    assert_eq!(
        parse_shortcut("@repo/unspecified/"),
        Shortcut::Parts { user: "repo".into(), repo: "unspecified".into(), path: "".into() }
    );
    assert_eq!(
        parse_shortcut("@//"),
        Shortcut::Parts { user: "".into(), repo: "".into(), path: "".into() }
    );
    assert_eq!(parse_shortcut("@repos/branch"), Shortcut::Malformed);
    assert_eq!(parse_shortcut("@"), Shortcut::Malformed);
    assert_eq!(parse_shortcut("a/file.txt"), Shortcut::Plain);
    assert_eq!(parse_shortcut("a/@b/c/d"), Shortcut::Plain);
    assert_eq!(parse_shortcut(""), Shortcut::Plain);
}

#[test]
fn locations_and_refs() {
    for loc in ["./dir", "../directory/path", "/abs/path", "C:\\dir", "https://example.com/x", "."] {
        assert!(is_location(loc), "{loc}");
    }
    for loc in ["main", "develop", "v1.2.3", "0a1b2c3", "feature/x", "", "a:/b", "C:dir"] {
        assert!(!is_location(loc), "{loc}");
    }
    assert!(is_url("https://example.com/remote/directory/path"));
    assert!(is_url("://"));
    assert!(!is_url("a/file.txt"));
    assert!(!is_url(":/"));
    assert!(!is_url(""));

    assert!(contains_text("abcabd", "abd"));
    assert!(contains_text("abc", ""));
    assert!(contains_text("", ""));
    assert!(!contains_text("abcabd", "abe"));
    assert!(!contains_text("ab", "abc"));
    assert!(contains_text("x\u{e9}y", "\u{e9}y"));

    assert_eq!(as_directory("../directory/path"), "../directory/path/");
    assert_eq!(as_directory("../directory/path/"), "../directory/path/");
    assert_eq!(as_directory(""), "/");
}

#[test]
fn extensions_of_file_names() {
    assert_eq!(extension_of("file.json"), Some("json".to_string()));
    assert_eq!(extension_of("file.fml.yaml"), Some("yaml".to_string()));
    assert_eq!(extension_of("file"), None);
    assert_eq!(extension_of(""), None);
    assert_eq!(extension_of("file."), Some("".to_string()));
    assert_eq!(extension_of(".hidden"), Some("hidden".to_string()));
}

#[test]
fn repository_urls() {
    assert_eq!(
        contents_api_url("owner/repo-name", "ref", "/a/file.txt"),
        "https://api.github.com/repos/owner/repo-name/contents/a/file.txt?ref=ref"
    );
    assert_eq!(
        download_url("owner/repo-name", "ref", "/a/file.txt"),
        "https://raw.githubusercontent.com/owner/repo-name/ref/a/file.txt"
    );
    assert_eq!(
        download_url("repo/unspecified", "main", "/a/file.txt"),
        "https://raw.githubusercontent.com/repo/unspecified/main/a/file.txt"
    );
}

/// A file in a repository: the repository, the git ref, and the path as a
/// URL keeps it.
struct RepoFile {
    repo_id: String,
    git_ref: String,
    url: Url,
}

impl RepoFile {
    fn new(repo_id: &str, git_ref: &str) -> Self {
        RepoFile {
            repo_id: repo_id.into(),
            git_ref: git_ref.into(),
            url: Url::parse("invalid://do-not-use/").unwrap(),
        }
    }

    fn join(&self, file: &str) -> Self {
        RepoFile {
            repo_id: self.repo_id.clone(),
            git_ref: self.git_ref.clone(),
            url: self.url.join(file).unwrap(),
        }
    }

    fn contents_api_url(&self) -> Url {
        Url::parse(&contents_api_url(&self.repo_id, &self.git_ref, self.url.path())).unwrap()
    }

    fn default_download_url(&self) -> Url {
        Url::parse(&download_url(&self.repo_id, &self.git_ref, self.url.path())).unwrap()
    }

    fn extension(&self) -> Option<String> {
        url_extension(&self.url)
    }
}

fn url_extension(url: &Url) -> Option<String> {
    let file = url.path_segments()?.next_back()?;
    extension_of(file)
}

#[test]
fn test_github_repo_file_path() {
    let gh = RepoFile::new("owner/repo-name", "ref").join("a/file.txt");
    assert_eq!(
        gh.contents_api_url().to_string(),
        "https://api.github.com/repos/owner/repo-name/contents/a/file.txt?ref=ref",
    );
    assert_eq!(
        gh.default_download_url().to_string(),
        "https://raw.githubusercontent.com/owner/repo-name/ref/a/file.txt"
    );

    let gh = gh.join("/b/file.txt");
    assert_eq!(
        gh.contents_api_url().to_string(),
        "https://api.github.com/repos/owner/repo-name/contents/b/file.txt?ref=ref",
    );
    assert_eq!(
        gh.default_download_url().to_string(),
        "https://raw.githubusercontent.com/owner/repo-name/ref/b/file.txt"
    );

    let gh = gh.join("/c/").join("file.txt");
    assert_eq!(
        gh.contents_api_url().to_string(),
        "https://api.github.com/repos/owner/repo-name/contents/c/file.txt?ref=ref",
    );
    assert_eq!(
        gh.default_download_url().to_string(),
        "https://raw.githubusercontent.com/owner/repo-name/ref/c/file.txt"
    );

    let gh = gh.join("d/").join("file.txt");
    assert_eq!(
        gh.contents_api_url().to_string(),
        "https://api.github.com/repos/owner/repo-name/contents/c/d/file.txt?ref=ref",
    );
    assert_eq!(
        gh.default_download_url().to_string(),
        "https://raw.githubusercontent.com/owner/repo-name/ref/c/d/file.txt"
    );
}

#[test]
fn test_extension() {
    // Remote paths
    let path = Url::parse("https://example.com/file.json").unwrap();
    assert_eq!(url_extension(&path), Some("json".to_string()));

    let path = Url::parse("https://example.com/file.fml.yaml").unwrap();
    assert_eq!(url_extension(&path), Some("yaml".to_string()));

    let path = Url::parse("https://example.com/").unwrap();
    assert_eq!(url_extension(&path), None);

    let path = Url::parse("https://example.com/file").unwrap();
    assert_eq!(url_extension(&path), None);

    let path = Url::parse("https://example.com/path/").unwrap();
    assert_eq!(url_extension(&path), None);

    let path = RepoFile::new("example", "main");
    assert_eq!(path.extension(), None);

    let path = path.join("./file.json");
    assert_eq!(path.extension(), Some("json".to_string()));

    let path = path.join("./file.fml.yaml");
    assert_eq!(path.extension(), Some("yaml".to_string()));
}
