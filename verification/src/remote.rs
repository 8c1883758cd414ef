//! The sans-transport shape of a remote call: the request the library
//! asks the transport to perform, the outcome the transport hands back,
//! and the reading of that outcome (success, retryable failure, terminal
//! failure) that drives the retry policy.

use crate::retry::Attempt;
use crate::text::{chars_to_string, push_str_chars, push_u64_dec, sp_dec, str_to_chars};
use vstd::prelude::*;

verus! {

/// Mathematical view of a remote request.
pub ghost struct RemoteRequestV {
    pub url: Seq<char>,
    pub body: Seq<char>,
    pub retries: u32,
}

/// One HTTP POST the transport is asked to perform, with the retry budget
/// to apply to it.
#[derive(Debug)]
pub struct RemoteRequest {
    pub url: String,
    pub body: String,
    pub retries: u32,
}

impl View for RemoteRequest {
    type V = RemoteRequestV;

    open spec fn view(&self) -> RemoteRequestV {
        RemoteRequestV { url: self.url@, body: self.body@, retries: self.retries }
    }
}

/// Mathematical view of a remote outcome.
pub ghost enum RemoteOutcomeV {
    Transport(Seq<char>),
    Http { status: u16, body: Seq<char> },
}

/// How one attempt of a remote call ended: a transport-level failure
/// (connection, timeout), or an HTTP response with its status and body.
#[derive(Debug)]
pub enum RemoteOutcome {
    Transport(String),
    Http { status: u16, body: String },
}

impl View for RemoteOutcome {
    type V = RemoteOutcomeV;

    open spec fn view(&self) -> RemoteOutcomeV {
        match self {
            RemoteOutcome::Transport(e) => RemoteOutcomeV::Transport(e@),
            RemoteOutcome::Http { status, body } => RemoteOutcomeV::Http {
                status: *status,
                body: body@,
            },
        }
    }
}

/// Whether an HTTP status reports success.
pub open spec fn sp_status_success(status: u16) -> bool {
    200 <= status < 300
}

/// Whether an HTTP status reports a server-side error, which is worth
/// retrying.
pub open spec fn sp_status_server_error(status: u16) -> bool {
    500 <= status < 600
}

/// The reading of an outcome the retry policy acts on: transport failures
/// and server errors are retryable, any other non-success is terminal.
pub open spec fn sp_outcome_attempt(o: RemoteOutcomeV) -> Attempt {
    match o {
        RemoteOutcomeV::Transport(_) => Attempt::RetryableFailure,
        RemoteOutcomeV::Http { status, .. } => if sp_status_success(status) {
            Attempt::Success
        } else if sp_status_server_error(status) {
            Attempt::RetryableFailure
        } else {
            Attempt::TerminalFailure
        },
    }
}

/// Classify an outcome for the retry policy.
pub fn outcome_attempt(o: &RemoteOutcome) -> (a: Attempt)
    ensures
        a == sp_outcome_attempt(o@),
{
    match o {
        RemoteOutcome::Transport(_) => Attempt::RetryableFailure,
        RemoteOutcome::Http { status, .. } => {
            if 200 <= *status && *status < 300 {
                Attempt::Success
            } else if 500 <= *status && *status < 600 {
                Attempt::RetryableFailure
            } else {
                Attempt::TerminalFailure
            }
        },
    }
}

/// The error message surfaced for a non-success HTTP status.
pub open spec fn sp_status_err_msg(status: u16) -> Seq<char> {
    if sp_status_server_error(status) {
        "retryable status "@ + sp_dec(status as nat)
    } else {
        "upstream status "@ + sp_dec(status as nat)
    }
}

/// Render the error message for a non-success HTTP status.
pub fn status_err_msg(status: u16) -> (m: String)
    ensures
        m@ == sp_status_err_msg(status),
{
    let mut out: Vec<char> = Vec::new();
    if 500 <= status && status < 600 {
        push_str_chars(&mut out, "retryable status ");
    } else {
        push_str_chars(&mut out, "upstream status ");
    }
    push_u64_dec(&mut out, status as u64);
    chars_to_string(&out)
}

/// A base URL with its trailing slashes removed.
pub open spec fn sp_trim_slashes(s: Seq<char>) -> Seq<char>
    decreases s.len(),
{
    if s.len() > 0 && s.last() == '/' {
        sp_trim_slashes(s.drop_last())
    } else {
        s
    }
}

/// Trimming keeps exactly the prefix before the trailing run of slashes.
proof fn lemma_trim_take(s: Seq<char>, k: int)
    requires
        0 <= k <= s.len(),
        forall|j: int| k <= j < s.len() ==> s[j] == '/',
        k == 0 || s[k - 1] != '/',
    ensures
        sp_trim_slashes(s) == s.take(k),
    decreases s.len(),
{
    if s.len() > k {
        assert(s.last() == '/');
        assert(s.drop_last() =~= s.take(s.len() - 1));
        lemma_trim_take(s.take(s.len() - 1), k);
        assert(s.take(s.len() - 1).take(k) =~= s.take(k));
    } else {
        assert(s.take(k) =~= s);
    }
}

/// The URL for a service path under a base, the base's trailing slashes
/// removed.
pub fn endpoint_url(base: &str, path: &str) -> (u: String)
    ensures
        u@ == sp_trim_slashes(base@) + path@,
{
    let chars = str_to_chars(base);
    let n = chars.len();
    let mut k = n;
    while k > 0 && chars[k - 1] == '/'
        invariant
            n == base@.len(),
            chars@ == base@,
            k <= n,
            forall|j: int| k <= j < n ==> base@[j] == '/',
        decreases k,
    {
        k = k - 1;
    }
    proof {
        lemma_trim_take(base@, k as int);
    }
    let mut out: Vec<char> = Vec::new();
    let mut i: usize = 0;
    while i < k
        invariant
            k <= chars@.len(),
            chars@ == base@,
            i <= k,
            out@ =~= base@.take(k as int).take(i as int),
        decreases k - i,
    {
        out.push(chars[i]);
        proof {
            assert(out@ =~= base@.take(k as int).take(i + 1));
        }
        i = i + 1;
    }
    proof {
        assert(base@.take(k as int).take(k as int) =~= base@.take(k as int));
    }
    push_str_chars(&mut out, path);
    chars_to_string(&out)
}

} // verus!
