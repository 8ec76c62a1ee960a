//! The cookie that carries a session token.

use vstd::prelude::*;

verus! {

/// The character of a decimal digit.
pub open spec fn digit(d: int) -> char {
    seq!['0', '1', '2', '3', '4', '5', '6', '7', '8', '9'][d]
}

/// The decimal digits of `n`, without leading zeros.
pub open spec fn digits(n: nat) -> Seq<char>
    decreases n,
{
    if n < 10 {
        seq![digit(n as int)]
    } else {
        digits(n / 10).push(digit((n % 10) as int))
    }
}

/// `n` in decimal, with a minus sign where it is negative.
pub open spec fn decimal(n: int) -> Seq<char> {
    if n < 0 {
        seq!['-'] + digits((-n) as nat)
    } else {
        digits(n as nat)
    }
}

/// The value of the `Set-Cookie` header that hands the session token to
/// the client, to be kept for `max_age_secs` seconds.
pub open spec fn session_cookie(session_id: Seq<char>, max_age_secs: i64) -> Seq<char> {
    "session_id="@ + session_id + "; HttpOnly; SameSite=Lax; Path=/; Max-Age="@ + decimal(
        max_age_secs as int,
    )
}

/// What a cookie asks of the browser about requests that come from other
/// sites.
#[derive(Debug, Clone, Copy, PartialEq, Eq, Structural)]
pub enum SameSitePolicy {
    /// The cookie goes with no request that another site makes.
    Strict,
    /// The cookie goes with the requests of another site that lead here.
    Lax,
}

/// The word for a policy in a cookie.
pub open spec fn same_site_word(policy: SameSitePolicy) -> Seq<char> {
    match policy {
        SameSitePolicy::Strict => "Strict"@,
        SameSitePolicy::Lax => "Lax"@,
    }
}

/// The value of a `Set-Cookie` header: name and value, and then the
/// attributes in their order.
pub open spec fn cookie_text(
    name: Seq<char>,
    value: Seq<char>,
    path: Seq<char>,
    http_only: bool,
    same_site: SameSitePolicy,
    max_age_secs: i64,
) -> Seq<char> {
    name + "="@ + value + (if http_only {
        "; HttpOnly"@
    } else {
        Seq::empty()
    }) + "; SameSite="@ + same_site_word(same_site) + "; Path="@ + path + "; Max-Age="@ + decimal(
        max_age_secs as int,
    )
}

/// A cookie as the `cookie` crate prints it, through
/// `axum_extra::extract::cookie::Cookie`, with a `time::Duration` of whole
/// seconds for its age.
///
/// Taken on trust: the `Display` of a cookie writes the name and the value
/// as they are, with `=` between them, and then the attributes that are set,
/// in a fixed order: `HttpOnly` where it is asked for, `SameSite`, `Path`,
/// and `Max-Age` with the whole seconds of the duration in decimal.
#[verifier::external_body]
pub(crate) fn print_cookie(
    name: &str,
    value: &str,
    path: &str,
    http_only: bool,
    same_site: SameSitePolicy,
    max_age_secs: i64,
) -> (text: String)
    ensures
        text@ == cookie_text(name@, value@, path@, http_only, same_site, max_age_secs),
{
    let policy = match same_site {
        SameSitePolicy::Strict => axum_extra::extract::cookie::SameSite::Strict,
        SameSitePolicy::Lax => axum_extra::extract::cookie::SameSite::Lax,
    };
    axum_extra::extract::cookie::Cookie::build((name, value))
        .path(path)
        .http_only(http_only)
        .same_site(policy)
        .max_age(time::Duration::seconds(max_age_secs))
        .build()
        .to_string()
}

/// The session cookie is the cookie named `session_id`, for every path,
/// kept from scripts and from requests that other sites make.
pub proof fn lemma_session_cookie(session_id: Seq<char>, max_age_secs: i64)
    ensures
        cookie_text("session_id"@, session_id, "/"@, true, SameSitePolicy::Lax, max_age_secs)
            == session_cookie(session_id, max_age_secs),
{
    reveal_strlit("session_id");
    reveal_strlit("session_id=");
    reveal_strlit("=");
    reveal_strlit("/");
    reveal_strlit("; HttpOnly");
    reveal_strlit("; SameSite=");
    reveal_strlit("Lax");
    reveal_strlit("; Path=");
    reveal_strlit("; Max-Age=");
    reveal_strlit("; HttpOnly; SameSite=Lax; Path=/; Max-Age=");
    let tail = decimal(max_age_secs as int);
    assert("session_id"@ + "="@ =~= "session_id="@);
    assert("; HttpOnly"@ + "; SameSite="@ + "Lax"@ + "; Path="@ + "/"@ + "; Max-Age="@
        =~= "; HttpOnly; SameSite=Lax; Path=/; Max-Age="@);
    assert(cookie_text("session_id"@, session_id, "/"@, true, SameSitePolicy::Lax, max_age_secs)
        =~= ("session_id"@ + "="@) + session_id + ("; HttpOnly"@ + "; SameSite="@ + "Lax"@
        + "; Path="@ + "/"@ + "; Max-Age="@) + tail);
}

/// The value of the `Set-Cookie` header that hands the session token to
/// the client, to be kept for `max_age_secs` seconds.
pub fn session_cookie_text(session_id: &str, max_age_secs: i64) -> (text: String)
    ensures
        text@ == session_cookie(session_id@, max_age_secs),
{
    proof {
        lemma_session_cookie(session_id@, max_age_secs);
    }
    print_cookie("session_id", session_id, "/", true, SameSitePolicy::Lax, max_age_secs)
}

} // verus!
