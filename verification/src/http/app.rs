//! App routes: `GET /.wanix/app/<name>` runs `apps/<name>.js` and answers
//! with what it prints. This module decides which paths are app routes and
//! builds the script path and environment handed to the task.

use vstd::prelude::*;
use vstd::utf8::encode_utf8;
use crate::text::{str_chars, string_from_chars, push_str, utf8_lossy, lossy_utf8};
use crate::seqs::{chars_eq, trim, trim_chars};
use super::response::{HttpStatus, StaticResponse};

verus! {

/// A character allowed in an app name: an ASCII letter or digit, `-` or `_`
/// (for UTF-8 text, every byte allowed is exactly every character allowed).
pub open spec fn route_char(c: char) -> bool {
    ('a' <= c && c <= 'z') || ('A' <= c && c <= 'Z') || ('0' <= c && c <= '9') || c == '-' || c
        == '_'
}

pub open spec fn valid_name(name: Seq<char>) -> bool {
    name.len() > 0 && forall|i: int| 0 <= i < name.len() ==> route_char(#[trigger] name[i])
}

/// Whether `name` may name an app: non-empty, letters, digits, `-` and `_`.
pub fn valid_route_name(name: &str) -> (r: bool)
    ensures
        r == valid_name(name@),
{
    let chars = str_chars(name);
    if chars.len() == 0 {
        return false;
    }
    let mut i: usize = 0;
    while i < chars.len()
        invariant
            i <= chars.len(),
            chars@ == name@,
            forall|j: int| 0 <= j < i ==> route_char(#[trigger] chars@[j]),
        decreases chars.len() - i,
    {
        let c = chars[i];
        if !(('a' <= c && c <= 'z') || ('A' <= c && c <= 'Z') || ('0' <= c && c <= '9') || c
            == '-' || c == '_') {
            assert(!route_char(chars@[i as int]));
            return false;
        }
        i = i + 1;
    }
    true
}

/// What a request path says about app routes: `None` outside
/// `.wanix/app/`; a `400` when the name is missing, followed by more
/// segments, or not a valid name; else the name.
pub open spec fn app_name_of(path: Seq<Seq<char>>) -> Option<Result<Seq<char>, HttpStatus>> {
    if path.len() < 2 || path[0] != ".wanix"@ || path[1] != "app"@ {
        None
    } else if path.len() != 3 || !valid_name(path[2]) {
        Some(Err(HttpStatus::BadRequest))
    } else {
        Some(Ok(path[2]))
    }
}

fn seg_is(seg: &String, lit: &str) -> (r: bool)
    ensures
        r == (seg@ == lit@),
{
    let a = str_chars(seg.as_str());
    let b = str_chars(lit);
    chars_eq(a.as_slice(), b.as_slice())
}

/// The app a request path names (see `app_name_of`).
pub fn app_name(relative_path: &[String]) -> (r: Option<Result<String, HttpStatus>>)
    ensures
        match r {
            None => app_name_of(relative_path.deep_view()) is None,
            Some(Err(e)) => app_name_of(relative_path.deep_view()) == Some(
                Err::<Seq<char>, HttpStatus>(e),
            ),
            Some(Ok(n)) => app_name_of(relative_path.deep_view()) == Some(
                Ok::<Seq<char>, HttpStatus>(n@),
            ),
        },
{
    let ghost pv = relative_path.deep_view();
    if relative_path.len() < 2 {
        return None;
    }
    assert(pv[0] == relative_path@[0]@ && pv[1] == relative_path@[1]@);
    if !seg_is(&relative_path[0], ".wanix") || !seg_is(&relative_path[1], "app") {
        return None;
    }
    if relative_path.len() != 3 {
        return Some(Err(HttpStatus::BadRequest));
    }
    assert(pv[2] == relative_path@[2]@);
    if !valid_route_name(relative_path[2].as_str()) {
        return Some(Err(HttpStatus::BadRequest));
    }
    Some(Ok(relative_path[2].clone()))
}

/// The script an app runs: `apps/<name>.js`.
pub fn app_script(name: &str) -> (r: String)
    ensures
        r@ == "apps/"@ + name@ + ".js"@,
{
    let mut out: Vec<char> = Vec::new();
    push_str(&mut out, "apps/");
    push_str(&mut out, name);
    push_str(&mut out, ".js");
    string_from_chars(out.as_slice())
}

/// The environment an app runs with: its name and the request target.
pub fn http_env(name: &str, target: &str) -> (r: String)
    ensures
        r@ == "WANIX_HTTP_APP="@ + name@ + "\nWANIX_HTTP_TARGET="@ + target@ + "\n"@,
{
    let mut out: Vec<char> = Vec::new();
    push_str(&mut out, "WANIX_HTTP_APP=");
    push_str(&mut out, name);
    push_str(&mut out, "\nWANIX_HTTP_TARGET=");
    push_str(&mut out, target);
    push_str(&mut out, "\n");
    string_from_chars(out.as_slice())
}

/// How running an app went.
#[derive(Debug, Clone, PartialEq, Eq)]
pub enum AppRun {
    /// The task exited with status `0`; what it printed.
    Output(Vec<u8>),
    /// There is no script file at this path.
    MissingScript(String),
    /// The task exited with another status (trimmed), and what it printed.
    TaskExit { exit: String, stdout: Vec<u8>, stderr: Vec<u8> },
    /// The filesystem failed; its error text.
    Failed(String),
}

/// The run of a finished task: a trimmed exit status of `0` is success.
pub fn app_task_result(exit: &str, stdout: Vec<u8>, stderr: Vec<u8>) -> (r: AppRun)
    ensures
        trim(exit@) == "0"@ ==> (r matches AppRun::Output(o) && o@ == stdout@),
        trim(exit@) != "0"@ ==> (r matches AppRun::TaskExit { exit: e, stdout: o, stderr: x }
            && e@ == trim(exit@) && o@ == stdout@ && x@ == stderr@),
{
    let status = trim_chars(str_chars(exit).as_slice());
    if chars_eq(status.as_slice(), str_chars("0").as_slice()) {
        AppRun::Output(stdout)
    } else {
        AppRun::TaskExit { exit: string_from_chars(status.as_slice()), stdout, stderr }
    }
}

/// Why an app route is refused before anything runs: without
/// `--wanix-services` it is not found, and only loopback clients may run
/// apps.
pub fn app_refusal(wanix_services: bool, loopback_peer: bool) -> (r: Option<StaticResponse>)
    ensures
        !wanix_services ==> (r matches Some(resp) && resp.status == HttpStatus::NotFound
            && resp.body@ == encode_utf8("wanix app routes require --wanix-services"@)
            && resp.content_type@ == "text/plain; charset=utf-8"@ && resp.headers@.len() == 0),
        wanix_services && !loopback_peer ==> (r matches Some(resp) && resp.status
            == HttpStatus::Forbidden && resp.body@ == encode_utf8(
            "wanix app routes are available only to loopback clients"@,
        ) && resp.content_type@ == "text/plain; charset=utf-8"@ && resp.headers@.len() == 0),
        wanix_services && loopback_peer ==> r is None,
{
    if !wanix_services {
        return Some(StaticResponse::plain(HttpStatus::NotFound, "wanix app routes require --wanix-services"));
    }
    if !loopback_peer {
        return Some(
            StaticResponse::plain(
                HttpStatus::Forbidden,
                "wanix app routes are available only to loopback clients",
            ),
        );
    }
    None
}

/// The text of a failed run's response.
pub open spec fn app_failure_text(name: Seq<char>, run: AppRun) -> Seq<char> {
    match run {
        AppRun::Output(_) => Seq::empty(),
        AppRun::MissingScript(path) => "wanix app script "@ + path@ + " was not found"@,
        AppRun::TaskExit { exit, stdout, stderr } => "wanix app "@ + name + " exited "@ + exit@
            + "\n\nstdout:\n"@ + lossy_utf8(stdout@) + "\n\nstderr:\n"@ + lossy_utf8(stderr@),
        AppRun::Failed(error) => "wanix app "@ + name + " failed: "@ + error@,
    }
}

/// The response to an app run: what the app printed, as plain text; a
/// missing script is not found, and any other failure is a server error
/// that shows what went wrong.
pub fn app_run_response(name: &str, run: AppRun) -> (r: StaticResponse)
    ensures
        r.content_type@ == "text/plain; charset=utf-8"@,
        r.headers@.len() == 0,
        match run {
            AppRun::Output(out) => r.status == HttpStatus::Success && r.body@ == out@,
            AppRun::MissingScript(_) => r.status == HttpStatus::NotFound && r.body@ == encode_utf8(
                app_failure_text(name@, run),
            ),
            _ => r.status == HttpStatus::InternalServerError && r.body@ == encode_utf8(
                app_failure_text(name@, run),
            ),
        },
{
    let ghost given = run;
    match run {
        AppRun::Output(out) => StaticResponse {
            status: HttpStatus::Success,
            content_type: "text/plain; charset=utf-8",
            headers: Vec::new(),
            body: out,
        },
        AppRun::MissingScript(path) => {
            let mut text: Vec<char> = Vec::new();
            push_str(&mut text, "wanix app script ");
            push_str(&mut text, path.as_str());
            push_str(&mut text, " was not found");
            let text = string_from_chars(text.as_slice());
            proof {
                assert(text@ == app_failure_text(name@, given));
            }
            StaticResponse::plain(HttpStatus::NotFound, text.as_str())
        },
        AppRun::TaskExit { exit, stdout, stderr } => {
            let mut text: Vec<char> = Vec::new();
            push_str(&mut text, "wanix app ");
            push_str(&mut text, name);
            push_str(&mut text, " exited ");
            push_str(&mut text, exit.as_str());
            push_str(&mut text, "\n\nstdout:\n");
            let out = utf8_lossy(stdout.as_slice());
            push_str(&mut text, out.as_str());
            push_str(&mut text, "\n\nstderr:\n");
            let err = utf8_lossy(stderr.as_slice());
            push_str(&mut text, err.as_str());
            let text = string_from_chars(text.as_slice());
            proof {
                assert(text@ =~= app_failure_text(name@, given));
            }
            StaticResponse::plain(HttpStatus::InternalServerError, text.as_str())
        },
        AppRun::Failed(error) => {
            let mut text: Vec<char> = Vec::new();
            push_str(&mut text, "wanix app ");
            push_str(&mut text, name);
            push_str(&mut text, " failed: ");
            push_str(&mut text, error.as_str());
            let text = string_from_chars(text.as_slice());
            proof {
                assert(text@ =~= app_failure_text(name@, given));
            }
            StaticResponse::plain(HttpStatus::InternalServerError, text.as_str())
        },
    }
}

} // verus!
