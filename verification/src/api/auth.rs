//! The authentication parameters of Subsonic requests.
//!
//! The password is sent as it is (`u`, `p`, `v`, `c`), without token or salt.
use vstd::prelude::*;

verus! {

/// The texts of a list of query parameters.
pub open spec fn param_texts(ps: Seq<(&str, String)>) -> Seq<(Seq<char>, Seq<char>)> {
    ps.map_values(|p: (&str, String)| (p.0@, p.1@))
}

/// The parameters that every request carries.
pub open spec fn auth_params(
    username: Seq<char>,
    password: Seq<char>,
    api_version: Seq<char>,
    client: Seq<char>,
) -> Seq<(Seq<char>, Seq<char>)> {
    seq![
        ("u"@, username),
        ("p"@, password),
        ("v"@, api_version),
        ("c"@, client),
        ("f"@, "json"@),
    ]
}

/// The parameters of every request: user, password, API version, client
/// name and the JSON format.
pub fn base_params(username: &str, password: &str, api_version: &str, client: &str) -> (r: Vec<
    (&'static str, String),
>)
    ensures
        param_texts(r@) == auth_params(username@, password@, api_version@, client@),
{
    let mut v: Vec<(&'static str, String)> = Vec::new();
    v.push(("u", username.to_owned()));
    v.push(("p", password.to_owned()));
    v.push(("v", api_version.to_owned()));
    v.push(("c", client.to_owned()));
    v.push(("f", "json".to_owned()));
    assert(param_texts(v@) =~= auth_params(username@, password@, api_version@, client@));
    v
}

} // verus!
