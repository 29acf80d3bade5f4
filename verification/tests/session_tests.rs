use cloudex::auth::{
    account_in_claims, account_in_payload, extract_chatgpt_account_id, normalize_base_url,
    payload_of, task_url, LoadError, Session,
};
use cloudex::input::{
    current_git_ref, named_git_ref, narration, prompt_argument, prompt_from_stdin, raw_body, request_line,
    request_url, resolve_git_ref, worktree_ref, EventsFormat, Narration, OutputFormat, PromptError,
    RequestError,
};
use cloudex::report::{auth_fields, auth_lines};
use cloudex::task_id::{parse_task_id, EMPTY_TASK_ID};

fn session() -> Session {
    Session {
        base_url: "https://chatgpt.com/backend-api".to_string(),
        codex_home: "/home/u/.codex".to_string(),
        bearer_token: "tok".to_string(),
        account_id: Some("acc".to_string()),
        user_agent: "codex/1".to_string(),
    }
}

#[test]
fn base_urls_are_normalized() {
    assert_eq!(normalize_base_url("https://chatgpt.com///"), "https://chatgpt.com/backend-api");
    assert_eq!(
        normalize_base_url("https://chat.openai.com"),
        "https://chat.openai.com/backend-api"
    );
    assert_eq!(
        normalize_base_url("https://chatgpt.com/backend-api/"),
        "https://chatgpt.com/backend-api"
    );
    assert_eq!(normalize_base_url("http://localhost:8080/"), "http://localhost:8080");
    assert_eq!(normalize_base_url("/"), "");
    for s in ["https://chatgpt.com/x", "", "a//"] {
        let n = normalize_base_url(s);
        assert_eq!(normalize_base_url(&n), n);
        assert!(!n.ends_with('/'));
    }
}

#[test]
fn task_addresses() {
    assert_eq!(
        task_url("https://chatgpt.com", "t1"),
        "https://chatgpt.com/codex/tasks/t1"
    );
    assert_eq!(task_url("http://h/api/codex", "t1"), "http://h/codex/tasks/t1");
    assert_eq!(task_url("http://h/codex", "t1"), "http://h/codex/tasks/t1");
    assert_eq!(task_url("http://h", "t1"), "http://h/codex/tasks/t1");
}

#[test]
fn addresses_and_ids_name_their_task() {
    for base in ["https://chatgpt.com", "http://h/api/codex", "http://h/codex", "http://h", ""] {
        let url = task_url(base, "task_e_1");
        assert_eq!(parse_task_id(&url).as_deref(), Some("task_e_1"));
        assert_eq!(parse_task_id(&format!("  {url}#files ")).as_deref(), Some("task_e_1"));
    }
    assert_eq!(parse_task_id("task_e_1").as_deref(), Some("task_e_1"));
    assert_eq!(parse_task_id("  "), None);
    assert_eq!(parse_task_id("a/b/").as_deref(), Some(""));
    assert_eq!(parse_task_id("#x").as_deref(), Some(""));
    assert_eq!(EMPTY_TASK_ID, "task id must not be empty");
}

#[test]
fn the_account_is_read_from_the_token() {
    // {"https://api.openai.com/auth":{"chatgpt_account_id":"acc-1"}}
    let payload =
        "eyJodHRwczovL2FwaS5vcGVuYWkuY29tL2F1dGgiOnsiY2hhdGdwdF9hY2NvdW50X2lkIjoiYWNjLTEifX0";
    let token = format!("h.{payload}.s");
    assert_eq!(extract_chatgpt_account_id(&token).as_deref(), Some("acc-1"));
    assert_eq!(extract_chatgpt_account_id(&format!("h.{payload}.s.more")).as_deref(), Some("acc-1"));
    assert_eq!(extract_chatgpt_account_id(&format!("h.{payload}.")), None);
    assert_eq!(extract_chatgpt_account_id(&format!(".{payload}.s")), None);
    assert_eq!(extract_chatgpt_account_id("h..s"), None);
    assert_eq!(extract_chatgpt_account_id("h.!!!.s"), None);
    // base64 of `[]`
    assert_eq!(extract_chatgpt_account_id("h.W10.s"), None);
    assert_eq!(payload_of("a.b.c").as_deref(), Some("b"));
    assert_eq!(payload_of("a.b"), None);
    let bytes = b"{\"https://api.openai.com/auth\":{\"chatgpt_account_id\":7}}";
    assert_eq!(account_in_payload(bytes), None);
    assert_eq!(account_in_payload(b"{"), None);
    let v: serde_json::Value =
        serde_json::from_str("{\"https://api.openai.com/auth\":{\"chatgpt_account_id\":\"z\"}}")
            .unwrap();
    assert_eq!(account_in_claims(&v).as_deref(), Some("z"));
}

#[test]
fn sessions_are_loaded() {
    let load = |over: Option<&str>, env: Option<&str>, token: Option<&str>, acc: Option<&str>| {
        Session::load(
            over.map(str::to_string),
            env.map(str::to_string),
            "http://config/".to_string(),
            "/h".to_string(),
            token.map(str::to_string),
            acc.map(str::to_string),
            "ua".to_string(),
        )
    };
    let s = load(Some("http://o//"), Some("http://e"), Some("t"), Some("a")).unwrap();
    assert_eq!(s.base_url, "http://o");
    assert_eq!(s.account_id.as_deref(), Some("a"));
    assert_eq!(s.bearer_token, "t");
    assert_eq!(s.codex_home, "/h");
    assert_eq!(s.user_agent, "ua");
    assert_eq!(load(None, Some("http://e"), Some("t"), None).unwrap().base_url, "http://e");
    let s = load(None, None, Some("t"), None).unwrap();
    assert_eq!(s.base_url, "http://config");
    assert_eq!(s.account_id, None);
    let e = load(None, None, None, None).unwrap_err();
    assert_eq!(e, LoadError::NotSignedIn);
    assert_eq!(e.message(), "Not signed in. Run `codex login` and re-try.");
    let e = load(None, None, Some(" \n"), None).unwrap_err();
    assert_eq!(e, LoadError::EmptyToken);
    assert_eq!(e.message(), "Not signed in (empty token). Run `codex login` and re-try.");
}

#[test]
fn headers_carry_what_a_header_can() {
    let pair = |a: &str, b: &str| (a.to_string(), b.to_string());
    let mut s = session();
    assert_eq!(
        s.headers(),
        vec![
            pair("user-agent", "codex/1"),
            pair("authorization", "Bearer tok"),
            pair("chatgpt-account-id", "acc"),
        ]
    );
    s.user_agent = "bad\n".to_string();
    s.bearer_token = "a\u{7f}".to_string();
    s.account_id = Some("é\t".to_string());
    assert_eq!(
        s.headers(),
        vec![pair("user-agent", "cloudex"), pair("chatgpt-account-id", "é\t")]
    );
    s.account_id = None;
    assert_eq!(s.headers(), vec![pair("user-agent", "cloudex")]);
}

#[test]
fn sessions_are_shown() {
    let mut s = session();
    assert_eq!(
        auth_lines(&s, true),
        vec![
            "base_url: https://chatgpt.com/backend-api",
            "codex_home: /home/u/.codex",
            "account_id: acc",
            "bearer_token: tok",
        ]
    );
    s.account_id = None;
    assert_eq!(auth_lines(&s, false)[2], "account_id: ");
    assert_eq!(auth_lines(&s, false).len(), 3);
}

#[test]
fn the_token_is_kept_back() {
    let mut s = session();
    let field = |k: &str, v: &str| (k.to_string(), Some(v.to_string()));
    let all = auth_fields(&s, true);
    assert_eq!(all.len(), 5);
    assert_eq!(all[0], field("base_url", "https://chatgpt.com/backend-api"));
    assert_eq!(all[1], field("codex_home", "/home/u/.codex"));
    assert_eq!(all[2], field("account_id", "acc"));
    assert_eq!(all[3], field("user_agent", &s.user_agent));
    assert_eq!(all[4], field("bearer_token", "tok"));
    let fields = auth_fields(&s, false);
    let lines = auth_lines(&s, false);
    assert_eq!(fields[..], all[..4]);
    s.bearer_token = "other".to_string();
    assert_eq!(auth_fields(&s, false), fields);
    assert_eq!(auth_lines(&s, false), lines);
    s.account_id = None;
    assert_eq!(auth_fields(&s, false)[2], ("account_id".to_string(), None));
}

#[test]
fn bodies_are_read() {
    assert_eq!(raw_body(" {\"a\": [1]} ").unwrap()["a"][0].as_i64(), Some(1));
    assert!(raw_body("{").is_err());
    assert!(raw_body("").is_err());
}

#[test]
fn prompts_come_from_where_they_should() {
    let given = |s: &str| Some(s.to_string());
    assert_eq!(prompt_argument(given("fix it"), true), Ok(given("fix it")));
    assert_eq!(prompt_argument(given(""), true), Ok(given("")));
    assert_eq!(prompt_argument(given("-"), true), Ok(None));
    assert_eq!(prompt_argument(None, false), Ok(None));
    assert_eq!(prompt_argument(None, true), Err(PromptError::NotGiven));
    assert_eq!(prompt_from_stdin(" x\n".to_string()), Ok(" x\n".to_string()));
    assert_eq!(prompt_from_stdin(" \n".to_string()), Err(PromptError::Blank));
    assert_eq!(
        PromptError::NotGiven.message(),
        "no prompt provided. Pass one as an argument or pipe it via stdin (use '-' to force stdin)."
    );
    assert_eq!(
        PromptError::Blank.message(),
        "no prompt provided via stdin (received empty input)"
    );
}

#[test]
fn refs_are_chosen() {
    let some = |s: &str| Some(s.to_string());
    assert_eq!(named_git_ref(Some(" dev ")).as_deref(), Some("dev"));
    assert_eq!(named_git_ref(Some(" ")), None);
    assert_eq!(resolve_git_ref(Some(" dev "), some("cur"), some("def")), "dev");
    assert_eq!(resolve_git_ref(Some(" "), some("cur"), some("def")), "cur");
    assert_eq!(resolve_git_ref(None, None, some("def")), "def");
    assert_eq!(resolve_git_ref(None, None, None), "main");
    assert_eq!(current_git_ref(Some("dev\n"), None), "dev");
    assert_eq!(current_git_ref(Some("\n"), Some("HEAD\n")), "main");
    assert_eq!(current_git_ref(None, Some("rel\n")), "rel");
    assert_eq!(current_git_ref(None, Some("")), "main");
    assert_eq!(worktree_ref(Some(" v1 "), "dev"), " v1 ");
    assert_eq!(worktree_ref(Some("  "), "dev"), "dev");
    assert_eq!(worktree_ref(None, "dev"), "dev");
}

#[test]
fn requests_are_addressed() {
    assert_eq!(
        request_url("https://chatgpt.com/", "GET", "wham/environments"),
        Ok("https://chatgpt.com/backend-api/wham/environments".to_string())
    );
    assert_eq!(request_url("http://h", "X-Y~1", "/p"), Ok("http://h/p".to_string()));
    for bad in ["", "GE T", "GET\n", "É", "a:b", "(x)"] {
        assert_eq!(request_url("http://h", bad, "/p"), Err(RequestError::BadMethod));
    }
    assert_eq!(request_line("GET", "http://h/p", "200 OK"), "GET http://h/p -> 200 OK");
    for u in 0..=255u32 {
        let c = char::from_u32(u).unwrap();
        let s = c.to_string();
        let ok = s.parse::<reqwest::Method>().is_ok();
        assert_eq!(request_url("", &s, "").is_ok(), ok, "{u}");
    }
}

#[test]
fn news_are_narrated() {
    assert_eq!(narration(EventsFormat::Jsonl, OutputFormat::Table), Narration::Event);
    assert_eq!(narration(EventsFormat::Jsonl, OutputFormat::Json), Narration::Event);
    assert_eq!(narration(EventsFormat::Silent, OutputFormat::Table), Narration::Words);
    assert_eq!(narration(EventsFormat::Silent, OutputFormat::Json), Narration::Nothing);
}
