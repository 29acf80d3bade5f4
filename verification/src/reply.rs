//! What the answer to a request means: a failure, unless its status tells of success.
use vstd::prelude::*;

use crate::env_api::{
    delete_reply, failure_text, github_repo_selector, github_repo_url, repo_address, repo_number,
    request_failure, DeleteReply, SelectorError,
};
use crate::json;
use crate::json::{read_text, tree};
use crate::number::decimal;
use crate::text::is_blank;

verus! {

/// Why an answer gives no value.
pub enum ReplyError {
    /// Its status tells of no success; what is reported of it, its text with it.
    Failed(String),
    /// It is no JSON.
    NoJson(serde_json::Error),
}

/// The text of an answer, where its status tells of success; otherwise what is reported of the
/// failure.
pub fn reply_text(method: &str, url: &str, success: bool, status: &str, text: String) -> (r: Result<
    String,
    String,
>)
    ensures
        match r {
            Ok(t) => success && t@ == text@,
            Err(m) => !success && m@ == failure_text(method@, url@, status@, text@),
        },
{
    if success {
        Ok(text)
    } else {
        Err(request_failure(method, url, status, &text))
    }
}

/// The JSON value of an answer, where its status tells of success; otherwise what is reported of
/// the failure.
pub fn json_reply(method: &str, url: &str, success: bool, status: &str, text: &str) -> (r: Result<
    serde_json::Value,
    ReplyError,
>)
    ensures
        match r {
            Ok(v) => success && read_text(text@) == Some(tree(v)),
            Err(ReplyError::Failed(m)) => !success && m@ == failure_text(
                method@,
                url@,
                status@,
                text@,
            ),
            Err(ReplyError::NoJson(_)) => success && read_text(text@) is None,
        },
{
    if !success {
        return Err(ReplyError::Failed(request_failure(method, url, status, text)));
    }
    match json::from_str(text) {
        Ok(v) => Ok(v),
        Err(e) => Err(ReplyError::NoJson(e)),
    }
}

/// What the answer to a deletion means: a failure, unless its status tells of success; then that
/// the environment is deleted where it is blank, and otherwise a JSON value.
pub fn deletion_reply(url: &str, success: bool, status: &str, text: &str) -> (r: Result<
    DeleteReply,
    ReplyError,
>)
    ensures
        match r {
            Ok(DeleteReply::Deleted) => success && is_blank(text@),
            Ok(DeleteReply::Answer(v)) => success && !is_blank(text@) && read_text(text@) == Some(
                tree(v),
            ),
            Err(ReplyError::Failed(m)) => !success && m@ == failure_text(
                "DELETE"@,
                url@,
                status@,
                text@,
            ),
            Err(ReplyError::NoJson(_)) => success && !is_blank(text@) && read_text(text@) is None,
        },
{
    if !success {
        return Err(ReplyError::Failed(request_failure("DELETE", url, status, text)));
    }
    match delete_reply(text) {
        Ok(d) => Ok(d),
        Err(e) => Err(ReplyError::NoJson(e)),
    }
}

/// Why GitHub gives no selector of a repository.
pub enum RepoError {
    /// The status of its answer tells of no success; what is reported of it.
    Failed(String),
    /// Its description of the repository gives none.
    NoSelector(SelectorError),
}

/// The selector of a repository, given GitHub's answer: a failure, unless its status tells of
/// success.
pub fn selector_reply(owner: &str, repo: &str, success: bool, status: &str, text: &str) -> (r:
    Result<String, RepoError>)
    ensures
        match r {
            Ok(s) => success && read_text(text@) is Some && repo_number(read_text(text@)->0) is Some
                && s@ == "github-"@ + decimal(repo_number(read_text(text@)->0)->0),
            Err(RepoError::Failed(m)) => !success && m@ == failure_text(
                "GET"@,
                repo_address(owner@, repo@),
                status@,
                text@,
            ),
            Err(RepoError::NoSelector(SelectorError::NoJson(_))) => success && read_text(
                text@,
            ) is None,
            Err(RepoError::NoSelector(SelectorError::NoId)) => success && read_text(text@) is Some
                && repo_number(read_text(text@)->0) is None,
        },
{
    if !success {
        let url = github_repo_url(owner, repo);
        return Err(RepoError::Failed(request_failure("GET", &url, status, text)));
    }
    match github_repo_selector(text) {
        Ok(s) => Ok(s),
        Err(e) => Err(RepoError::NoSelector(e)),
    }
}

} // verus!
