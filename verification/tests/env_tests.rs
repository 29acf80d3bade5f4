use cloudex::env_api::{
    copy_env, delete_reply, env_base_path, env_by_repo_path, env_path, fill, find_env, git_remotes,
    github_repo_selector, github_repo_url, github_token, machine_id_from_codex_state,
    machine_id_in_state, merge_environments, parse_github_owner_repo, parse_owner_repo,
    request_failure, resolve_environment_id, resolve_machine_id, selector_in, DeleteReply,
    EnvError, Environment, SelectorError, DEFAULT_MACHINE_ID, NO_REPO_ID,
};
use cloudex::env_list::{
    create_body, env_listing, env_row, passes, plan_create, selector_failure, takes_machine,
    CreateError,
};
use cloudex::reply::{
    deletion_reply, json_reply, reply_text, selector_reply, RepoError, ReplyError,
};

fn env(id: &str, label: Option<&str>, pinned: Option<bool>, count: Option<i64>) -> Environment {
    Environment {
        id: id.to_string(),
        label: label.map(str::to_string),
        is_pinned: pinned,
        task_count: count,
    }
}

fn pair(a: &str, b: &str) -> Option<(String, String)> {
    Some((a.to_string(), b.to_string()))
}

#[test]
fn environment_addresses() {
    assert_eq!(
        env_base_path("https://chatgpt.com"),
        "https://chatgpt.com/backend-api/wham/environments"
    );
    assert_eq!(env_base_path("http://h/"), "http://h/api/codex/environments");
    assert_eq!(
        env_by_repo_path("https://chatgpt.com", "o", "r"),
        "https://chatgpt.com/backend-api/wham/environments/by-repo/github/o/r"
    );
    assert_eq!(
        env_by_repo_path("http://h", "o", "r"),
        "http://h/api/codex/environments/by-repo/github/o/r"
    );
    assert_eq!(env_path("http://h", "e1"), "http://h/api/codex/environments/e1");
    assert_eq!(
        request_failure("GET", "http://h", "404 Not Found", "no"),
        "GET http://h failed: 404 Not Found; body=no"
    );
}

#[test]
fn deletions_are_answered() {
    assert!(matches!(delete_reply(" \n"), Ok(DeleteReply::Deleted)));
    match delete_reply("{\"a\":1}") {
        Ok(DeleteReply::Answer(v)) => assert_eq!(v.get("a").and_then(|x| x.as_i64()), Some(1)),
        _ => panic!("no answer"),
    }
    assert!(delete_reply("{").is_err());
}

#[test]
fn machines_are_found() {
    let state =
        "{\"electron-persisted-atom-state\":{\"environment\":{\"machine_id\":\" m1 \"}}}";
    assert_eq!(machine_id_from_codex_state(state).as_deref(), Some("m1"));
    assert_eq!(machine_id_from_codex_state("nonsense"), None);
    let v: serde_json::Value = serde_json::from_str(state).unwrap();
    assert_eq!(machine_id_in_state(&v).as_deref(), Some("m1"));
    for other in ["{}", "[]", "{\"electron-persisted-atom-state\":{\"environment\":{}}}",
        "{\"electron-persisted-atom-state\":{\"environment\":{\"machine_id\":\" \"}}}",
        "{\"electron-persisted-atom-state\":{\"environment\":{\"machine_id\":3}}}"] {
        assert_eq!(machine_id_from_codex_state(other), None);
    }
    assert_eq!(resolve_machine_id(Some(" v "), Some(state)), "v");
    assert_eq!(resolve_machine_id(Some("  "), Some(state)), "m1");
    assert_eq!(resolve_machine_id(None, Some("{}")), DEFAULT_MACHINE_ID);
    assert_eq!(resolve_machine_id(None, None), "wham-public/wham-universal");
}

#[test]
fn tokens_for_github() {
    assert_eq!(github_token(Some(" a "), Some("b")).as_deref(), Some("a"));
    assert_eq!(github_token(Some(" "), Some("b")), None);
    assert_eq!(github_token(None, Some("b\n")).as_deref(), Some("b"));
    assert_eq!(github_token(None, None), None);
    assert_eq!(fill("  "), None);
    assert_eq!(github_repo_url("o", "r"), "https://api.github.com/repos/o/r");
}

#[test]
fn selectors_come_from_the_number() {
    assert!(matches!(github_repo_selector("{\"id\": 42}"), Ok(s) if s == "github-42"));
    assert!(matches!(
        github_repo_selector("{\"id\": 18446744073709551615}"),
        Ok(s) if s == "github-18446744073709551615"
    ));
    assert!(matches!(github_repo_selector("{\"id\": -1}"), Err(SelectorError::NoId)));
    assert!(matches!(github_repo_selector("{\"id\": \"x\"}"), Err(SelectorError::NoId)));
    assert!(matches!(github_repo_selector("{}"), Err(SelectorError::NoId)));
    assert!(matches!(github_repo_selector("{"), Err(SelectorError::NoJson(_))));
    let v: serde_json::Value = serde_json::from_str("{\"id\": 7}").unwrap();
    assert_eq!(selector_in(&v).as_deref(), Some("github-7"));
}

#[test]
fn repositories_are_parsed() {
    for s in ["o/r", " o/r ", "/o/r/", "o/r.git", "git@github.com:o/r.git",
        "https://github.com/o/r", "http://github.com/o/r.git", "https://github.com/o/r/"] {
        assert_eq!(parse_owner_repo(s), pair("o", "r"), "{s}");
    }
    for s in ["", " ", "o", "o/r/x", "o//r", "https://gitlab.com/o/r", "/"] {
        assert_eq!(parse_owner_repo(s), None, "{s}");
    }
    assert_eq!(parse_github_owner_repo("git@github.com:o/r.git"), pair("o", "r"));
    assert_eq!(parse_github_owner_repo(" https://github.com/o/r/tree/x "), pair("o", "r/tree/x"));
    assert_eq!(parse_github_owner_repo("http://github.com//o/r"), pair("o", "r"));
    assert_eq!(parse_github_owner_repo("https://github.com/o"), None);
    assert_eq!(parse_github_owner_repo("https://example.com/o/r"), None);
    assert_eq!(parse_github_owner_repo(""), None);
}

#[test]
fn remotes_are_listed_once() {
    let out = "origin\tgit@github.com:o/r.git (fetch)\norigin\tgit@github.com:o/r.git (push)\n\
up\thttps://github.com/u/r (fetch)\nagain\tgit@github.com:o/r.git (fetch)\nodd\n";
    assert_eq!(git_remotes(out), vec!["git@github.com:o/r.git", "https://github.com/u/r"]);
    assert!(git_remotes("").is_empty());
}

#[test]
fn lists_are_merged() {
    let global = vec![
        env("a", None, None, Some(1)),
        env("b", Some("B"), Some(false), None),
        env("a", Some("A2"), None, None),
    ];
    let by_repo = vec![
        env("a", Some("other"), Some(true), Some(9)),
        env("c", None, None, None),
        env("b", None, None, Some(4)),
    ];
    let all = merge_environments(&global, &by_repo);
    let ids: Vec<&str> = all.iter().map(|e| e.id.as_str()).collect();
    assert_eq!(ids, vec!["a", "b", "c"]);
    assert_eq!(all[0].label.as_deref(), Some("A2"));
    assert_eq!(all[0].is_pinned, Some(true));
    assert_eq!(all[0].task_count, Some(9));
    assert_eq!(all[1].label.as_deref(), Some("B"));
    assert_eq!(all[1].is_pinned, Some(false));
    assert_eq!(all[1].task_count, Some(4));
    assert_eq!(all[2].is_pinned, None);
    assert_eq!(find_env(&all, "b"), 1);
    assert_eq!(find_env(&all, "z"), 3);
    assert_eq!(copy_env(&all[1]).label.as_deref(), Some("B"));
}

#[test]
fn environments_are_picked() {
    let global = vec![env("g1", Some("Prod"), None, None), env("g2", Some("dev"), None, None)];
    let by_repo = vec![env("r1", Some("DEV"), None, None)];
    let none: Vec<Environment> = Vec::new();
    let pick = |g: &Vec<Environment>, b: &Vec<Environment>, s: Option<&str>, l: Option<&str>| {
        resolve_environment_id(g, b, s, l)
    };
    assert_eq!(pick(&global, &none, Some(" g2 "), None).unwrap(), "g2");
    assert_eq!(pick(&global, &none, Some("prod"), None).unwrap(), "g1");
    let e = pick(&global, &none, Some("  "), None).unwrap_err();
    assert!(matches!(e, EnvError::EmptySelector));
    assert_eq!(e.message(), "--env must not be empty");
    let e = pick(&global, &none, Some("x"), None).unwrap_err();
    assert!(matches!(e, EnvError::NotFound(_)));
    assert_eq!(
        e.message(),
        "environment 'x' not found; run `cloudex env list` to see available environments"
    );
    let e = pick(&global, &by_repo, Some("Dev"), None).unwrap_err();
    assert!(matches!(e, EnvError::Ambiguous(_)));
    assert_eq!(
        e.message(),
        "environment label 'Dev' is ambiguous; use the environment id instead"
    );
    // No selector: a pinned one, one of the repository, the first; among those with the label.
    assert_eq!(pick(&global, &by_repo, None, Some("PROD")).unwrap(), "g1");
    assert_eq!(pick(&global, &by_repo, None, Some("dev")).unwrap(), "r1");
    assert_eq!(pick(&global, &by_repo, None, None).unwrap(), "r1");
    assert_eq!(pick(&global, &none, None, None).unwrap(), "g1");
    let pinned = vec![env("g1", None, None, None), env("g2", None, Some(true), None)];
    assert_eq!(pick(&pinned, &by_repo, None, None).unwrap(), "g2");
    // A wanted label comes before a pin, however many carry it.
    let many = vec![
        env("a", Some("dev"), None, None),
        env("b", Some("DEV"), None, None),
        env("c", None, Some(true), None),
    ];
    assert_eq!(pick(&many, &none, None, Some("Dev")).unwrap(), "a");
    assert_eq!(pick(&many, &vec![env("c", None, None, None), env("b", None, None, None)], None,
        Some("dev")).unwrap(), "b");
    assert_eq!(pick(&many, &none, None, Some("other")).unwrap(), "c");
    let mut pinned_too = many.clone();
    pinned_too[1].is_pinned = Some(true);
    assert_eq!(pick(&pinned_too, &vec![env("a", None, None, None)], None, Some("dev")).unwrap(),
        "b");
    let e = pick(&none, &none, None, Some("dev")).unwrap_err();
    assert!(matches!(e, EnvError::NoEnvironments));
    assert_eq!(e.message(), "no environments available");
}

#[test]
fn listings_are_filtered_and_sorted() {
    let envs = || vec![
        env("3", Some("b"), None, None),
        env("2", Some("a"), Some(false), Some(5)),
        env("1", Some("a"), None, None),
        env("9", Some("Zebra"), Some(true), Some(-1)),
        env("4", None, None, None),
    ];
    let ids = |v: Vec<Environment>| v.into_iter().map(|e| e.id).collect::<Vec<String>>();
    assert_eq!(ids(env_listing(envs(), None)), vec!["9", "4", "1", "2", "3"]);
    assert_eq!(ids(env_listing(envs(), Some("ZEB"))), vec!["9"]);
    assert_eq!(ids(env_listing(envs(), Some("4"))), vec!["4"]);
    assert_eq!(ids(env_listing(envs(), Some(""))).len(), 5);
    assert!(ids(env_listing(envs(), Some("nothing"))).is_empty());
    // Lower case goes by Unicode.
    let umlaut = vec![env("1", Some("ÜBER"), None, None)];
    assert_eq!(ids(env_listing(umlaut, Some("über"))), vec!["1"]);
    assert!(passes("abc", "", "bc"));
    assert!(passes("", "abc", "bc"));
    assert!(!passes("ABC", "abd", "bc"));
    assert_eq!(env_row(&envs()[3]), "* 9\tZebra\t-1");
    assert_eq!(env_row(&envs()[4]), "  4\t\t");
    assert_eq!(env_row(&envs()[1]), "  2\ta\t5");
}

#[test]
fn new_environments_are_described() {
    assert!(matches!(plan_create(None, None), Err(CreateError::NoLabel)));
    assert!(matches!(plan_create(Some("l"), Some("x")), Err(CreateError::BadRepo)));
    let (label, repo) = plan_create(Some("l"), Some("o/r")).unwrap();
    assert_eq!((label.as_str(), repo), ("l", pair("o", "r")));
    let (label, repo) = plan_create(None, Some("o/r")).unwrap();
    assert_eq!((label.as_str(), repo), ("o/r", pair("o", "r")));
    let (label, repo) = plan_create(Some("l"), None).unwrap();
    assert_eq!((label.as_str(), repo), ("l", None));
    assert_eq!(
        CreateError::NoLabel.message(),
        "--label is required when --raw-json is not set (or pass --repo to use it as the label)"
    );
    assert_eq!(CreateError::BadRepo.message(), "--repo must be in owner/repo form");
    assert!(takes_machine("https://chatgpt.com"));
    assert!(!takes_machine("http://h"));
    let b = create_body(
        "https://chatgpt.com", "l".to_string(), pair("o", "r"), "m".to_string(),
        Some("github-1".to_string()),
    );
    assert_eq!(b.machine_id.as_deref(), Some("m"));
    assert_eq!(b.repos, Some(vec!["github-1".to_string()]));
    assert_eq!(b.repo, pair("o", "r"));
    assert_eq!(b.label, "l");
    let b = create_body("https://chatgpt.com", "l".to_string(), None, "m".to_string(), None);
    assert_eq!(b.repos, Some(Vec::new()));
    let b = create_body("http://h", "l".to_string(), None, "m".to_string(), None);
    assert_eq!(b.machine_id, None);
    assert_eq!(b.repos, None);
    assert_eq!(
        selector_failure("o", "r"),
        "failed to resolve GitHub repo id for o/r; set GITHUB_TOKEN or GH_TOKEN for private repos, or pass --raw-json with repos=[\"github-<id>\"]"
    );
}

const FAILED: &str = "500 Internal Server Error";

#[test]
fn an_answer_is_a_failure_unless_it_succeeds() {
    let all = reply_text("GET", "http://u", true, "200 OK", "[]".to_string());
    assert_eq!(all, Ok("[]".to_string()));
    let text = "no".to_string();
    assert_eq!(
        reply_text("GET", "http://u", false, FAILED, text),
        Err(request_failure("GET", "http://u", FAILED, "no"))
    );
    let v = json_reply("POST", "http://u", true, "201 Created", "{\"id\": \"e1\"}");
    assert!(matches!(v, Ok(v) if v["id"] == "e1"));
    let e = json_reply("POST", "http://u", true, "201 Created", "{");
    assert!(matches!(e, Err(ReplyError::NoJson(_))));
    for text in ["{}", "{"] {
        match json_reply("POST", "http://u", false, FAILED, text) {
            Err(ReplyError::Failed(m)) => {
                assert_eq!(m, request_failure("POST", "http://u", FAILED, text))
            }
            _ => panic!("no failure"),
        }
    }
}

#[test]
fn answers_to_deletions() {
    let done = deletion_reply("http://u", true, "204 No Content", " \n");
    assert!(matches!(done, Ok(DeleteReply::Deleted)));
    let v = deletion_reply("http://u", true, "200 OK", "{\"n\": 1}");
    assert!(matches!(v, Ok(DeleteReply::Answer(v)) if v["n"] == 1));
    let e = deletion_reply("http://u", true, "200 OK", "gone");
    assert!(matches!(e, Err(ReplyError::NoJson(_))));
    match deletion_reply("http://u", false, "404 Not Found", "") {
        Err(ReplyError::Failed(m)) => {
            assert_eq!(m, request_failure("DELETE", "http://u", "404 Not Found", ""))
        }
        _ => panic!("no failure"),
    }
}

#[test]
fn answers_about_repositories() {
    let s = selector_reply("o", "r", true, "200 OK", "{\"id\": 42}");
    assert!(matches!(s, Ok(s) if s == "github-42"));
    let e = selector_reply("o", "r", true, "200 OK", "{}");
    assert!(matches!(e, Err(RepoError::NoSelector(SelectorError::NoId))));
    assert_eq!(NO_REPO_ID, "GitHub API response did not include a numeric repo id");
    let e = selector_reply("o", "r", true, "200 OK", "");
    assert!(matches!(e, Err(RepoError::NoSelector(SelectorError::NoJson(_)))));
    match selector_reply("o", "r", false, "404 Not Found", "{\"id\": 42}") {
        Err(RepoError::Failed(m)) => assert_eq!(
            m,
            request_failure("GET", &github_repo_url("o", "r"), "404 Not Found", "{\"id\": 42}")
        ),
        _ => panic!("no failure"),
    }
}

#[test]
fn repositories_are_told_in_each_form() {
    for end in ["", ".git"] {
        assert_eq!(parse_owner_repo(&format!("o-1/r.x{end}")), pair("o-1", "r.x"));
        for start in ["git@github.com:", "https://github.com/", "http://github.com/"] {
            let s = format!("{start}o-1/r.x{end}");
            assert_eq!(parse_owner_repo(&s), pair("o-1", "r.x"));
            assert_eq!(parse_github_owner_repo(&s), pair("o-1", "r.x"));
        }
    }
    assert_eq!(parse_github_owner_repo("o-1/r.x"), None);
}
