//! Who may do what: the permissions that an identity from the Feiyue identity
//! service grants in ICTHub.

use vstd::prelude::*;

use crate::error::AppError;
use crate::text::{chars_of, eq_lit, push_str, slice_chars, string_of};

verus! {

/// The identity that the Feiyue identity service reports for a bearer token.
#[derive(Clone, Debug)]
pub struct FeiyueIdentity {
    pub sid: String,
    pub name: String,
    pub nickname: String,
    pub role: String,
    pub is_admin: bool,
    pub is_super_admin: bool,
    pub is_lab_member: bool,
}

/// The identity of the caller of a request.
#[derive(Clone, Debug)]
pub struct AuthContext(pub FeiyueIdentity);

impl FeiyueIdentity {
    pub open spec fn spec_is_superadmin(&self) -> bool {
        self.is_super_admin || self.role@ == "superadmin"@
    }

    pub open spec fn spec_can_access_icthub(&self) -> bool {
        self.is_lab_member || self.spec_is_superadmin()
    }

    pub open spec fn spec_can_manage_tags(&self) -> bool {
        self.is_admin || self.spec_is_superadmin() || self.role@ == "admin"@
    }

    /// A super administrator: flagged so, or holding the role `superadmin`.
    pub fn is_superadmin(&self) -> (r: bool)
        ensures
            r == self.spec_is_superadmin(),
    {
        if self.is_super_admin {
            return true;
        }
        let role = chars_of(self.role.as_str());
        eq_lit(role.as_slice(), "superadmin")
    }

    /// Lab members and super administrators may use ICTHub.
    pub fn can_access_icthub(&self) -> (r: bool)
        ensures
            r == self.spec_can_access_icthub(),
    {
        self.is_lab_member || self.is_superadmin()
    }

    /// Whoever may use ICTHub may manage projects.
    pub fn can_manage_projects(&self) -> (r: bool)
        ensures
            r == self.spec_can_access_icthub(),
    {
        self.can_access_icthub()
    }

    /// Administrators (flag or role) and super administrators manage the tag catalogue.
    pub fn can_manage_tags(&self) -> (r: bool)
        ensures
            r == self.spec_can_manage_tags(),
    {
        if self.is_admin {
            return true;
        }
        if self.is_superadmin() {
            return true;
        }
        let role = chars_of(self.role.as_str());
        eq_lit(role.as_slice(), "admin")
    }
}

/// Refuses callers who may not use ICTHub.
pub fn require_member(identity: &FeiyueIdentity) -> (r: Result<(), AppError>)
    ensures
        r is Ok <==> identity.spec_can_access_icthub(),
        r is Err ==> r == Err::<(), AppError>(AppError::Forbidden),
{
    if identity.can_access_icthub() {
        Ok(())
    } else {
        Err(AppError::Forbidden)
    }
}

/// Refuses callers who may not manage the tag catalogue.
pub fn require_tag_admin(identity: &FeiyueIdentity) -> (r: Result<(), AppError>)
    ensures
        r is Ok <==> identity.spec_can_manage_tags(),
        r is Err ==> r == Err::<(), AppError>(AppError::Forbidden),
{
    if identity.can_manage_tags() {
        Ok(())
    } else {
        Err(AppError::Forbidden)
    }
}

/// A super administrator may use ICTHub and manage tags, whatever else the
/// identity says.
pub proof fn law_superadmin_may_everything(identity: FeiyueIdentity)
    requires
        identity.spec_is_superadmin(),
    ensures
        identity.spec_can_access_icthub(),
        identity.spec_can_manage_tags(),
{
}

/// Without lab membership, access to ICTHub is exactly super administration.
pub proof fn law_access_needs_membership_or_superadmin(identity: FeiyueIdentity)
    ensures
        identity.spec_can_access_icthub() <==> (identity.is_lab_member
            || identity.spec_is_superadmin()),
{
}

// ----------------------------------------------------------------------------
// Asking the identity service
// ----------------------------------------------------------------------------

/// A text without the copies of `c` at its end.
pub open spec fn without_trailing(s: Seq<char>, c: char) -> Seq<char>
    decreases s.len(),
{
    if s.len() > 0 && s.last() == c {
        without_trailing(s.drop_last(), c)
    } else {
        s
    }
}

/// The base URL of the identity service as it is kept: without the slashes
/// at its end.
pub fn identity_base_url(base_url: &str) -> (r: String)
    ensures
        r@ == without_trailing(base_url@, '/'),
{
    let s = chars_of(base_url);
    let mut n: usize = s.len();
    proof {
        assert(s@.subrange(0, n as int) =~= s@);
    }
    while n > 0 && s[n - 1] == '/'
        invariant
            0 <= n <= s@.len(),
            without_trailing(s@, '/') == without_trailing(s@.subrange(0, n as int), '/'),
        decreases n,
    {
        proof {
            assert(s@.subrange(0, n as int).drop_last() =~= s@.subrange(0, n - 1));
        }
        n -= 1;
    }
    let kept = slice_chars(s.as_slice(), 0, n);
    string_of(kept.as_slice())
}

/// The address that tells who holds a bearer token.
pub fn identity_me_url(base_url: &str) -> (r: String)
    ensures
        r@ == base_url@ + "/auth/me"@,
{
    let mut v = chars_of(base_url);
    push_str(&mut v, "/auth/me");
    string_of(v.as_slice())
}

/// How the identity service's answer counts: a refused token makes the
/// caller unauthorized; any other status outside 200 to 299 makes the
/// service unavailable; else the identity in the body is read.
pub fn identity_response_outcome(status: u16) -> (r: Result<(), AppError>)
    ensures
        status == 401 ==> r == Err::<(), AppError>(AppError::Unauthorized),
        status != 401 && !(200 <= status <= 299) ==> r == Err::<(), AppError>(
            AppError::IdentityUnavailable,
        ),
        200 <= status <= 299 ==> r is Ok,
{
    if status == 401 {
        Err(AppError::Unauthorized)
    } else if status < 200 || status > 299 {
        Err(AppError::IdentityUnavailable)
    } else {
        Ok(())
    }
}

/// A request without an `Authorization` header is unauthorized.
pub fn require_bearer(header: Option<String>) -> (r: Result<String, AppError>)
    ensures
        header is Some <==> r is Ok,
        r is Ok ==> r == Ok::<String, AppError>(header->0),
        r is Err ==> r == Err::<String, AppError>(AppError::Unauthorized),
{
    match header {
        Some(h) => Ok(h),
        None => Err(AppError::Unauthorized),
    }
}

} // verus!
