//! The computational side of the registry's REST client: the route of each
//! operation and the credential attached to a request.
//!
//! The transport itself (HTTP, TLS, URL joining) lives in the surrounding
//! application; it asks this module for the exact path to request and for
//! the bearer token to attach.

use vstd::prelude::*;

use crate::context::Auth;

verus! {

/// The path prefix of the registry API served at a registry URL.
pub open spec fn api_base_view() -> Seq<char> {
    "apis/registry/v2/"@
}

/// The decimal digit character for a value below ten.
pub open spec fn dec_digit(d: int) -> char {
    if d == 0 {
        '0'
    } else if d == 1 {
        '1'
    } else if d == 2 {
        '2'
    } else if d == 3 {
        '3'
    } else if d == 4 {
        '4'
    } else if d == 5 {
        '5'
    } else if d == 6 {
        '6'
    } else if d == 7 {
        '7'
    } else if d == 8 {
        '8'
    } else {
        '9'
    }
}

/// The decimal representation of a number, most significant digit first.
pub open spec fn dec_of(n: nat) -> Seq<char>
    decreases n,
{
    if n < 10 {
        seq![dec_digit(n as int)]
    } else {
        dec_of(n / 10).push(dec_digit((n % 10) as int))
    }
}

/// One decimal digit as a string.
fn digit_str(d: u64) -> (r: String)
    requires
        d < 10,
    ensures
        r@ == seq![dec_digit(d as int)],
{
    let s: &str = match d {
        0 => "0",
        1 => "1",
        2 => "2",
        3 => "3",
        4 => "4",
        5 => "5",
        6 => "6",
        7 => "7",
        8 => "8",
        _ => "9",
    };
    proof {
        reveal_strlit("0");
        reveal_strlit("1");
        reveal_strlit("2");
        reveal_strlit("3");
        reveal_strlit("4");
        reveal_strlit("5");
        reveal_strlit("6");
        reveal_strlit("7");
        reveal_strlit("8");
        reveal_strlit("9");
        assert(s@ =~= seq![dec_digit(d as int)]);
    }
    s.to_owned()
}

/// Formats a number in decimal.
pub fn u64_to_dec(n: u64) -> (r: String)
    ensures
        r@ == dec_of(n as nat),
    decreases n,
{
    if n < 10 {
        digit_str(n)
    } else {
        proof {
            assert(n / 10 < n) by (nonlinear_arith)
                requires
                    n >= 10,
            ;
        }
        let prefix = u64_to_dec(n / 10);
        let digit = digit_str(n % 10);
        let r = prefix.concat(digit.as_str());
        proof {
            assert(r@ =~= dec_of(n as nat));
        }
        r
    }
}

/// The path prefix of the registry API, to be joined onto the registry URL.
pub fn api_base() -> (r: String)
    ensures
        r@ == api_base_view(),
{
    "apis/registry/v2/".to_owned()
}

/// The route of the registry's diagnostic information.
pub fn system_info_route() -> (r: String)
    ensures
        r@ == "system/info"@,
{
    "system/info".to_owned()
}

/// The route of an artifact's latest-version metadata.
pub open spec fn artifact_meta_route_view(group: Seq<char>, artifact: Seq<char>) -> Seq<char> {
    "groups/"@ + group + "/artifacts/"@ + artifact + "/meta"@
}

/// The route of an artifact's latest-version metadata, which is also where
/// its descriptive metadata is updated after a push.
pub fn artifact_meta_route(group: &String, artifact: &String) -> (r: String)
    ensures
        r@ == artifact_meta_route_view(group@, artifact@),
{
    let r = "groups/".to_owned().concat(group.as_str()).concat("/artifacts/").concat(
        artifact.as_str(),
    ).concat("/meta");
    proof {
        assert(r@ =~= artifact_meta_route_view(group@, artifact@));
    }
    r
}

/// The route of one artifact version's metadata.
pub open spec fn artifact_version_meta_route_view(
    group: Seq<char>,
    artifact: Seq<char>,
    version: Seq<char>,
) -> Seq<char> {
    "groups/"@ + group + "/artifacts/"@ + artifact + "/versions/"@ + version + "/meta"@
}

/// The route of one artifact version's metadata.
pub fn artifact_version_meta_route(group: &String, artifact: &String, version: &String) -> (r:
    String)
    ensures
        r@ == artifact_version_meta_route_view(group@, artifact@, version@),
{
    let r = "groups/".to_owned().concat(group.as_str()).concat("/artifacts/").concat(
        artifact.as_str(),
    ).concat("/versions/").concat(version.as_str()).concat("/meta");
    proof {
        assert(r@ =~= artifact_version_meta_route_view(group@, artifact@, version@));
    }
    r
}

/// The route of the content stored under a global identifier.
pub open spec fn content_route_view(global_id: nat) -> Seq<char> {
    "ids/globalIds/"@ + dec_of(global_id)
}

/// The route of the content stored under a global identifier.
pub fn content_route(global_id: u64) -> (r: String)
    ensures
        r@ == content_route_view(global_id as nat),
{
    let r = "ids/globalIds/".to_owned().concat(u64_to_dec(global_id).as_str());
    proof {
        assert(r@ =~= content_route_view(global_id as nat));
    }
    r
}

/// The route under which an artifact is created or updated by a push.
pub open spec fn artifacts_route_view(group: Seq<char>) -> Seq<char> {
    "groups/"@ + group + "/artifacts"@
}

/// The route under which an artifact is created or updated by a push.
pub fn artifacts_route(group: &String) -> (r: String)
    ensures
        r@ == artifacts_route_view(group@),
{
    let r = "groups/".to_owned().concat(group.as_str()).concat("/artifacts");
    proof {
        assert(r@ =~= artifacts_route_view(group@));
    }
    r
}

/// The bearer token a request must carry: the access token of an OIDC
/// login, and nothing for basic or anonymous credentials.
pub fn bearer_token(auth: &Auth) -> (r: Option<&String>)
    ensures
        match auth {
            Auth::Oidc { access_token, .. } => r matches Some(t) && t@ == access_token@,
            _ => r is None,
        },
{
    match auth {
        Auth::Oidc { access_token, .. } => Some(access_token),
        _ => None,
    }
}

} // verus!
