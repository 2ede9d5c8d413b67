//! Callers, tenant scoping and pluggable authorization.
use std::collections::BTreeSet;
use std::sync::Arc;

use vstd::prelude::*;

use crate::errors::{CoreError, CoreResult};
use crate::text::concat_str;
use crate::types::TenantId;

verus! {

#[derive(Debug, Clone, PartialEq, Eq)]
pub enum PrincipalKind {
    Anonymous,
    User(String),
    Service(String),
    System(String),
}

impl PrincipalKind {
    /// A copy of this principal.
    pub fn duplicate(&self) -> (r: Self)
        ensures
            r == *self,
    {
        match self {
            PrincipalKind::Anonymous => PrincipalKind::Anonymous,
            PrincipalKind::User(s) => PrincipalKind::User(s.clone()),
            PrincipalKind::Service(s) => PrincipalKind::Service(s.clone()),
            PrincipalKind::System(s) => PrincipalKind::System(s.clone()),
        }
    }
}

#[derive(Debug, Clone, PartialEq, Eq)]
pub struct CallerContext {
    pub principal: PrincipalKind,
    pub tenant_scope: Option<TenantId>,
    pub roles: BTreeSet<String>,
}

/// Name of the built-in system principal.
pub open spec fn internal_principal_name() -> Seq<char> {
    "internal"@
}

/// Role granted to the built-in system principal.
pub open spec fn system_role_name() -> Seq<char> {
    "system"@
}

fn system_roles() -> (r: BTreeSet<String>)
    ensures
        vstd::laws_cmp::obeys_cmp::<String>() ==> exists|s: String|
            s@ == system_role_name() && r@ == Set::<String>::empty().insert(s),
{
    let mut roles = BTreeSet::new();
    let role = String::from_str("system");
    roles.insert(role);
    roles
}

impl CallerContext {
    /// Whether a caller with this context may act on tenant `tenant`.
    pub open spec fn admits_tenant(self, tenant: Seq<char>) -> bool {
        match self.tenant_scope {
            None => true,
            Some(scope) => scope.0@ == tenant,
        }
    }

    pub fn anonymous() -> (r: Self)
        ensures
            r.principal == PrincipalKind::Anonymous,
            r.tenant_scope is None,
            r.roles@ == Set::<String>::empty(),
    {
        Self { principal: PrincipalKind::Anonymous, tenant_scope: None, roles: BTreeSet::new() }
    }

    pub fn service(name: &str, tenant_scope: Option<TenantId>) -> (r: Self)
        ensures
            r.principal matches PrincipalKind::Service(n) && n@ == name@,
            r.tenant_scope == tenant_scope,
            r.roles@ == Set::<String>::empty(),
    {
        Self {
            principal: PrincipalKind::Service(String::from_str(name)),
            tenant_scope,
            roles: BTreeSet::new(),
        }
    }

    pub fn system_for_tenant(tenant_id: TenantId) -> (r: Self)
        ensures
            r.principal matches PrincipalKind::System(n) && n@ == internal_principal_name(),
            r.tenant_scope == Some(tenant_id),
            vstd::laws_cmp::obeys_cmp::<String>() ==> exists|s: String|
                s@ == system_role_name() && r.roles@ == Set::<String>::empty().insert(s),
    {
        Self {
            principal: PrincipalKind::System(String::from_str("internal")),
            tenant_scope: Some(tenant_id),
            roles: system_roles(),
        }
    }

    pub fn internal_unscoped() -> (r: Self)
        ensures
            r.principal matches PrincipalKind::System(n) && n@ == internal_principal_name(),
            r.tenant_scope is None,
            vstd::laws_cmp::obeys_cmp::<String>() ==> exists|s: String|
                s@ == system_role_name() && r.roles@ == Set::<String>::empty().insert(s),
    {
        Self {
            principal: PrincipalKind::System(String::from_str("internal")),
            tenant_scope: None,
            roles: system_roles(),
        }
    }

    pub fn can_access_tenant(&self, tenant_id: &TenantId) -> (r: bool)
        ensures
            r == self.admits_tenant(tenant_id.0@),
    {
        match &self.tenant_scope {
            None => true,
            Some(scope) => scope.same_as(tenant_id),
        }
    }

    /// A copy of this caller context.
    pub fn duplicate(&self) -> (r: Self)
        ensures
            r.principal == self.principal,
            r.tenant_scope == self.tenant_scope,
            r.roles@ == self.roles@,
    {
        let tenant_scope = match &self.tenant_scope {
            None => None,
            Some(t) => Some(t.duplicate()),
        };
        Self { principal: self.principal.duplicate(), tenant_scope, roles: self.roles.clone() }
    }
}

#[derive(Debug, Clone, Copy, PartialEq, Eq, Structural)]
pub enum AuthAction {
    Query,
    Explain,
    Watch,
    Ingest,
    Delete,
}

#[derive(Debug, Clone, PartialEq, Eq)]
pub struct AuthorizationRequest {
    pub caller: CallerContext,
    pub action: AuthAction,
    pub tenant_id: TenantId,
}

#[derive(Debug, Clone, PartialEq, Eq)]
pub enum AuthorizationDecision {
    Allow,
    Deny { reason: String },
}

/// A policy that decides whether an authorization request is allowed.
/// Implemented by users of the library.
pub trait AuthorizationProvider: Send + Sync {
    fn decide(&self, request: &AuthorizationRequest) -> AuthorizationDecision;
}

#[derive(Debug, Default)]
pub struct AllowAllAuthorizationProvider;

impl AuthorizationProvider for AllowAllAuthorizationProvider {
    fn decide(&self, request: &AuthorizationRequest) -> (r: AuthorizationDecision)
        ensures
            r == AuthorizationDecision::Allow,
    {
        AuthorizationDecision::Allow
    }
}

/// A shared, type-erased authorization provider.
#[verifier::external_body]
struct SharedProvider {
    inner: Arc<dyn AuthorizationProvider>,
}

/// Wraps a provider of any type into a shared, type-erased handle
/// (`Arc::new` with an unsizing coercion). Nothing is claimed about it.
#[verifier::external_body]
fn share_provider<P: AuthorizationProvider + 'static>(provider: P) -> SharedProvider {
    SharedProvider { inner: Arc::new(provider) }
}

/// Calls `decide` on the provider behind the handle (dynamic dispatch through
/// `Arc<dyn AuthorizationProvider>`). The provider is user code: nothing is
/// claimed about its answer.
#[verifier::external_body]
fn ask_shared_provider(provider: &SharedProvider, request: &AuthorizationRequest) -> AuthorizationDecision {
    provider.inner.decide(request)
}

enum ProviderSlot {
    AllowAll,
    Custom(SharedProvider),
}

#[derive(Clone)]
pub struct AuthRuntime {
    provider: Arc<ProviderSlot>,
}

/// Text of the error returned when the caller's tenant scope excludes the
/// requested tenant.
pub open spec fn scope_denial_text(tenant: Seq<char>) -> Seq<char> {
    "caller tenant scope does not include tenant "@ + tenant
}

/// The request a provider is asked to decide: a copy of the caller, the
/// action and the tenant.
pub fn authorization_request(caller: &CallerContext, action: AuthAction, tenant_id: &TenantId) -> (r:
    AuthorizationRequest)
    ensures
        r.caller.principal == caller.principal,
        r.caller.tenant_scope == caller.tenant_scope,
        r.caller.roles@ == caller.roles@,
        r.action == action,
        r.tenant_id == *tenant_id,
{
    AuthorizationRequest { caller: caller.duplicate(), action, tenant_id: tenant_id.duplicate() }
}

/// What a provider's decision means for the request.
pub fn decision_outcome(decision: AuthorizationDecision) -> (r: CoreResult<()>)
    ensures
        match decision {
            AuthorizationDecision::Allow => r == Ok::<(), CoreError>(()),
            AuthorizationDecision::Deny { reason } => r == Err::<(), CoreError>(
                CoreError::AuthorizationDenied(reason),
            ),
        },
{
    match decision {
        AuthorizationDecision::Allow => Ok(()),
        AuthorizationDecision::Deny { reason } => Err(CoreError::AuthorizationDenied(reason)),
    }
}

impl AuthRuntime {
    /// Every request that passes the tenant-scope check is allowed.
    pub closed spec fn allows_all(&self) -> bool {
        *self.provider matches ProviderSlot::AllowAll
    }

    pub fn disabled() -> (r: Self)
        ensures
            r.allows_all(),
    {
        Self { provider: Arc::new(ProviderSlot::AllowAll) }
    }

    pub fn with_provider<P: AuthorizationProvider + 'static>(provider: P) -> (r: Self)
        ensures
            !r.allows_all(),
    {
        Self { provider: Arc::new(ProviderSlot::Custom(share_provider(provider))) }
    }

    /// Uses an already shared provider: the handle is stored as it is, and
    /// every request that passes the tenant-scope check is then put to it.
    /// The handle's type, `Arc<dyn AuthorizationProvider>`, is opaque here, so
    /// that this constructor's contract is trusted.
    #[verifier::external_body]
    pub fn with_provider_arc(provider: Arc<dyn AuthorizationProvider>) -> (r: Self)
        ensures
            !r.allows_all(),
    {
        Self { provider: Arc::new(ProviderSlot::Custom(SharedProvider { inner: provider })) }
    }

    /// Checks the caller's tenant scope, then asks the provider to decide on
    /// `authorization_request(caller, action, tenant_id)`, the caller's own
    /// request. The provider's answer is not known to the library;
    /// `decision_outcome` states how each answer is reported.
    pub fn authorize(&self, caller: &CallerContext, action: AuthAction, tenant_id: &TenantId) -> (r:
        CoreResult<()>)
        ensures
            !caller.admits_tenant(tenant_id.0@) ==> (r matches Err(
                CoreError::AuthorizationDenied(m),
            ) && m@ == scope_denial_text(tenant_id.0@)),
            caller.admits_tenant(tenant_id.0@) && self.allows_all() ==> r == Ok::<(), CoreError>(
                (),
            ),
            caller.admits_tenant(tenant_id.0@) ==> (r is Ok || r matches Err(
                CoreError::AuthorizationDenied(_),
            )),
    {
        if !caller.can_access_tenant(tenant_id) {
            return Err(
                CoreError::AuthorizationDenied(
                    concat_str("caller tenant scope does not include tenant ", tenant_id.0.as_str()),
                ),
            );
        }
        match &*self.provider {
            ProviderSlot::AllowAll => Ok(()),
            ProviderSlot::Custom(p) => {
                let request = authorization_request(caller, action, tenant_id);
                decision_outcome(ask_shared_provider(p, &request))
            },
        }
    }
}

} // verus!
