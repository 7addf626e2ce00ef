//! When requests carry the client's identity, and when a rejected request
//! is answered by registering again.
use vstd::prelude::*;
use vstd::string::StringExecFns;
use crate::error::{DuckError, error_text};
use crate::text::{has_prefix, has_sub, to_chars, starts_with, contains, extend_str, from_chars};

verus! {

broadcast use vstd::string::group_string_axioms;

/// The HTTP status of a request refused for want of credentials.
pub const UNAUTHORIZED: u16 = 401;

/// The rules of authentication against one server.
#[derive(Debug, Clone)]
pub struct AuthRules {
    pub server_base_url: String,
}

pub open spec fn ours(base: Seq<char>, url: Seq<char>) -> bool {
    has_prefix(url, base)
}

pub open spec fn registering(url: Seq<char>) -> bool {
    has_sub(url, "/clients/register"@)
}

impl AuthRules {
    /// Whether `url` is on this server.
    pub fn is_our_server(&self, url: &str) -> (r: bool)
        ensures
            r == ours(self.server_base_url@, url@),
    {
        starts_with(&to_chars(url), &to_chars(self.server_base_url.as_str()))
    }

    /// Whether `url` is the registration endpoint, which needs no identity.
    pub fn is_register_endpoint(&self, url: &str) -> (r: bool)
        ensures
            r == registering(url@),
    {
        contains(&to_chars(url), &to_chars("/clients/register"))
    }

    /// Whether a request to `url` carries the client's identity: only to
    /// this server, and not to register.
    pub fn carries_identity(&self, url: &str) -> (r: bool)
        ensures
            r == (ours(self.server_base_url@, url@) && !registering(url@)),
    {
        self.is_our_server(url) && !self.is_register_endpoint(url)
    }

    /// Whether a request to `url` answered with `status` is retried after
    /// registering again: a refusal for want of credentials by this server,
    /// outside registration.
    pub fn should_reregister(&self, status: u16, url: &str) -> (r: bool)
        ensures
            r == (status == UNAUTHORIZED && ours(self.server_base_url@, url@) && !registering(url@)),
    {
        status == UNAUTHORIZED && self.carries_identity(url)
    }
}

/// The client id in a registration answer, which must hold one as text.
pub fn registered_client_id(client_id: Option<String>) -> (r: Result<String, DuckError>)
    ensures
        match client_id {
            Some(id) => r == Ok::<String, DuckError>(id),
            None => r matches Err(DuckError::Api(m)) && m@ == "注册响应格式无效"@,
        },
{
    match client_id {
        Some(id) => Ok(id),
        None => Err(DuckError::Api(String::from_str("注册响应格式无效"))),
    }
}

/// The error of a request refused for want of credentials when registering
/// again failed with `e`.
pub fn reregistration_failed(e: &DuckError) -> (r: DuckError)
    ensures
        r matches DuckError::Api(m) && m@ == "认证失败且无法重新注册: "@ + error_text(*e),
{
    let mut v = to_chars("认证失败且无法重新注册: ");
    extend_str(&mut v, e.message().as_str());
    DuckError::Api(from_chars(&v))
}

/// Law: a registration request never carries an identity and is never
/// answered by registering again.
pub proof fn law_registration_is_anonymous(base: Seq<char>, url: Seq<char>, status: u16)
    requires
        registering(url),
    ensures
        !(ours(base, url) && !registering(url)),
        !(status == UNAUTHORIZED && ours(base, url) && !registering(url)),
{
}

} // verus!
