//! The modem session: the pages of one scrape, how the modem's answers are
//! read, and when a fetch logs in again.
use vstd::prelude::*;

use crate::text::{
    chars_of, contains, contains_str, occurs_at, find, find_from, keep_some, lemma_first_at_or_after,
    lemma_keep_some_step, string_from,
};

verus! {

/// The pages fetched in one scrape.
#[derive(Debug, Clone)]
pub struct ScrapedPages {
    pub status: String,
    pub vers: String,
    pub dhcp: String,
    pub qos: String,
    pub cm_state: String,
    pub event: String,
    pub config_params: String,
    pub product: String,
}

/// A page that shows the login form instead of the content asked for.
pub open spec fn shows_login(html: Seq<char>) -> bool {
    contains(html, "url=login_cgi"@) || contains(html, "Touchstone Login"@)
}

/// Whether a fetched page means the session has expired: it redirects to
/// the login page or shows the login form.
pub fn is_session_expired(html: &str) -> (r: bool)
    ensures
        r == shows_login(html@),
{
    contains_str(html, "url=login_cgi") || contains_str(html, "Touchstone Login")
}

/// A page that holds the login form's title or the redirect to the login
/// page anywhere, whatever surrounds it, means an expired session; a page
/// that holds neither does not.
pub proof fn lemma_login_page_detected(before: Seq<char>, after: Seq<char>, html: Seq<char>)
    ensures
        shows_login(before + "Touchstone Login"@ + after),
        shows_login(before + "url=login_cgi"@ + after),
        shows_login(html) ==> (contains(html, "Touchstone Login"@) || contains(html, "url=login_cgi"@)),
{
    let t = before + "Touchstone Login"@ + after;
    let n = "Touchstone Login"@.len();
    assert(t.subrange(before.len() as int, (before.len() + n) as int) =~= "Touchstone Login"@);
    assert(occurs_at(t, "Touchstone Login"@, before.len() as int));
    let u = before + "url=login_cgi"@ + after;
    let k = "url=login_cgi"@.len();
    assert(u.subrange(before.len() as int, (before.len() + k) as int) =~= "url=login_cgi"@);
    assert(occurs_at(u, "url=login_cgi"@, before.len() as int));
}

/// What the body of a successful login response says.
#[derive(Debug, Clone, Copy, PartialEq, Eq, Structural)]
pub enum LoginOutcome {
    /// The modem issued a CSRF token: logged in.
    Accepted,
    /// The modem showed the login form again: the credentials were rejected.
    CredentialsRejected,
    /// Neither.
    Unexpected,
}

/// How a login response body is read.
pub open spec fn login_outcome(body: Seq<char>) -> LoginOutcome {
    if contains(body, "csrf_token"@) {
        LoginOutcome::Accepted
    } else if contains(body, "login_cgi"@) {
        LoginOutcome::CredentialsRejected
    } else {
        LoginOutcome::Unexpected
    }
}

/// Reads a login response body.
pub fn classify_login(body: &str) -> (r: LoginOutcome)
    ensures
        r == login_outcome(body@),
{
    if contains_str(body, "csrf_token") {
        LoginOutcome::Accepted
    } else if contains_str(body, "login_cgi") {
        LoginOutcome::CredentialsRejected
    } else {
        LoginOutcome::Unexpected
    }
}

/// `s` without trailing `/` characters.
pub open spec fn without_trailing_slashes(s: Seq<char>) -> Seq<char>
    decreases s.len(),
{
    if s.len() > 0 && s.last() == '/' {
        without_trailing_slashes(s.drop_last())
    } else {
        s
    }
}

/// The modem's base URL without trailing slashes.
pub fn normalize_base_url(base_url: &str) -> (r: String)
    ensures
        r@ == without_trailing_slashes(base_url@),
{
    let v = chars_of(base_url);
    let mut n = v.len();
    assert(v@.subrange(0, n as int) =~= v@);
    while n > 0 && v[n - 1] == '/'
        invariant
            n <= v@.len(),
            without_trailing_slashes(v@) == without_trailing_slashes(v@.subrange(0, n as int)),
        decreases n,
    {
        assert(v@.subrange(0, n as int).drop_last() =~= v@.subrange(0, n - 1));
        n -= 1;
    }
    assert(v@.subrange(0, n as int).len() == 0 || v@.subrange(0, n as int).last() != '/');
    string_from(&v, 0, n)
}

/// A `KEY=VALUE` header: split at the first `=`; `None` without one.
pub open spec fn header_pair(h: Seq<char>) -> Option<(Seq<char>, Seq<char>)> {
    match find(h, seq!['=']) {
        Some(i) => Some((h.take(i), h.skip(i + 1))),
        None => None,
    }
}

/// Splits a `KEY=VALUE` header option at its first `=`.
pub fn parse_header(h: &str) -> (r: Option<(String, String)>)
    ensures
        match header_pair(h@) {
            Some((k, v)) => r matches Some((rk, rv)) && rk@ == k && rv@ == v,
            None => r is None,
        },
{
    let v = chars_of(h);
    let eq = ['='];
    assert(eq@ =~= seq!['=']);
    let found = find_from(&v, &eq, 0);
    proof {
        lemma_first_at_or_after(v@, eq@, 0);
    }
    match found {
        Some(i) => {
            assert(i + 1 <= v@.len() && v@.len() == v.len());
            assert(v@.subrange(0, i as int) =~= v@.take(i as int));
            assert(v@.subrange(i + 1, v@.len() as int) =~= v@.skip(i + 1));
            Some((string_from(&v, 0, i), string_from(&v, i + 1, v.len())))
        },
        None => None,
    }
}

/// The headers of the `KEY=VALUE` options that have an `=`, in order.
pub fn parse_headers(hs: &[String]) -> (r: Vec<(String, String)>)
    ensures
        r@.map_values(|p: (String, String)| (p.0@, p.1@)) == keep_some(
            hs@.map_values(|h: String| h@),
            |h: Seq<char>| header_pair(h),
        ),
{
    let ghost hv = hs@.map_values(|h: String| h@);
    let ghost f = |h: Seq<char>| header_pair(h);
    let mut r: Vec<(String, String)> = Vec::new();
    let mut i: usize = 0;
    while i < hs.len()
        invariant
            0 <= i <= hs@.len(),
            hv == hs@.map_values(|h: String| h@),
            f == (|h: Seq<char>| header_pair(h)),
            r@.map_values(|p: (String, String)| (p.0@, p.1@)) == keep_some(hv.take(i as int), f),
        decreases hs.len() - i,
    {
        proof {
            lemma_keep_some_step(hv, i as int, f);
        }
        let ghost before = r@;
        if let Some(p) = parse_header(hs[i].as_str()) {
            r.push(p);
            assert(r@.map_values(|p: (String, String)| (p.0@, p.1@)) =~= before.map_values(
                |p: (String, String)| (p.0@, p.1@),
            ).push((r@[before.len() as int].0@, r@[before.len() as int].1@)));
        }
        i += 1;
    }
    assert(hv.take(hv.len() as int) =~= hv);
    r
}

// ---------------------------------------------------------------------------
// Re-authentication
// ---------------------------------------------------------------------------

/// Where a fetch that may re-authenticate stands.
#[derive(Debug, Clone, Copy, PartialEq, Eq, Structural)]
pub enum FetchStage {
    /// The first attempt, with the current session.
    FirstAttempt,
    /// Logging in again after the first attempt failed.
    LoggingIn,
    /// The one attempt made after logging in again.
    SecondAttempt,
}

/// What a re-authenticating fetch does next.
#[derive(Debug, Clone, Copy, PartialEq, Eq, Structural)]
pub enum FetchAction {
    /// Make an attempt.
    Attempt,
    /// Log in.
    Login,
    /// Hand the fetched result on.
    Deliver,
    /// Stop with the error of the last step.
    GiveUp,
}

/// The next stage and action after a step that succeeded or failed: a
/// failed first attempt is followed by a login and one more attempt; a
/// failed login or a failed second attempt ends the fetch.
pub open spec fn next_fetch_step(stage: FetchStage, succeeded: bool) -> (FetchStage, FetchAction) {
    match stage {
        FetchStage::FirstAttempt => if succeeded {
            (FetchStage::FirstAttempt, FetchAction::Deliver)
        } else {
            (FetchStage::LoggingIn, FetchAction::Login)
        },
        FetchStage::LoggingIn => if succeeded {
            (FetchStage::SecondAttempt, FetchAction::Attempt)
        } else {
            (FetchStage::LoggingIn, FetchAction::GiveUp)
        },
        FetchStage::SecondAttempt => if succeeded {
            (FetchStage::SecondAttempt, FetchAction::Deliver)
        } else {
            (FetchStage::SecondAttempt, FetchAction::GiveUp)
        },
    }
}

/// Decides the next step of a re-authenticating fetch.
pub fn fetch_step(stage: FetchStage, succeeded: bool) -> (r: (FetchStage, FetchAction))
    ensures
        r == next_fetch_step(stage, succeeded),
{
    match stage {
        FetchStage::FirstAttempt => if succeeded {
            (FetchStage::FirstAttempt, FetchAction::Deliver)
        } else {
            (FetchStage::LoggingIn, FetchAction::Login)
        },
        FetchStage::LoggingIn => if succeeded {
            (FetchStage::SecondAttempt, FetchAction::Attempt)
        } else {
            (FetchStage::LoggingIn, FetchAction::GiveUp)
        },
        FetchStage::SecondAttempt => if succeeded {
            (FetchStage::SecondAttempt, FetchAction::Deliver)
        } else {
            (FetchStage::SecondAttempt, FetchAction::GiveUp)
        },
    }
}

/// A re-authenticating fetch ends after at most two attempts and one
/// login, whatever their outcomes: it delivers as soon as an attempt
/// succeeds and gives up only after a failed login or a failed second
/// attempt.
pub proof fn lemma_fetch_ends(first: bool, login: bool, second: bool)
    ensures
        ({
            let s1 = next_fetch_step(FetchStage::FirstAttempt, first);
            let s2 = next_fetch_step(s1.0, login);
            let s3 = next_fetch_step(s2.0, second);
            &&& first ==> s1.1 == FetchAction::Deliver
            &&& !first ==> s1.1 == FetchAction::Login
            &&& !first && !login ==> s2.1 == FetchAction::GiveUp
            &&& !first && login ==> s2.1 == FetchAction::Attempt
            &&& !first && login ==> (s3.1 == FetchAction::Deliver <==> second)
            &&& !first && login ==> (s3.1 == FetchAction::GiveUp <==> !second)
        }),
{
}

} // verus!
