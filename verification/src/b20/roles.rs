//! Role-based access control of B20 tokens.
//!
//! Each role has an admin role whose holders can grant and revoke it. The default admin role
//! (the zero hash) is the admin of every role whose admin was never set; the ungrantable role
//! (all `0xff` bytes) administers itself, so nobody can grant it.

use vstd::prelude::*;

use crate::b20::{B20Event, B20Token};
use crate::error::{BasePrecompileError, Result, RolesAuthError};
use crate::primitives::{Address, B256};

verus! {

/// The bytes of the ungrantable role: 32 bytes `0xff`.
pub open spec fn spec_ungrantable_role() -> Seq<u8> {
    Seq::new(32, |i: int| 0xffu8)
}

/// The default admin role (the zero hash). Holders can grant and revoke any role whose admin
/// was never changed.
pub fn default_admin_role() -> (r: B256)
    ensures
        r@ == Seq::new(32, |i: int| 0u8),
        r == B256::spec_repeat(0),
{
    let r = B256::zero();
    assert(r@ =~= Seq::new(32, |i: int| 0u8));
    r
}

/// A self-administered role that no admin can grant.
pub fn ungrantable_role() -> (r: B256)
    ensures
        r@ == spec_ungrantable_role(),
        r == B256::spec_repeat(0xff),
{
    let r = B256::repeat_byte(0xff);
    assert(r@ =~= spec_ungrantable_role());
    r
}

/// The unauthorized error of the access control.
pub open spec fn unauthorized() -> BasePrecompileError {
    BasePrecompileError::RolesAuthError(RolesAuthError::Unauthorized)
}

impl B20Token {
    /// The admin role of `role` (the default admin role when never set).
    pub open spec fn admin_of(&self, role: Seq<u8>) -> B256 {
        self.role_admins.get(role)
    }

    /// Makes the ungrantable role its own admin.
    pub fn initialize_roles(&mut self) -> (r: Result<()>)
        ensures
            r is Ok,
            final(self).role_admins@ == old(self).role_admins@.insert(
                spec_ungrantable_role(),
                B256::spec_repeat(0xff),
            ),
            *final(self) == (B20Token { role_admins: final(self).role_admins, ..*old(self) }),
    {
        let role = ungrantable_role();
        self.set_role_admin_internal(role, role)
    }

    /// Grants the default admin role to `admin` during token initialization.
    pub fn grant_default_admin(&mut self, msg_sender: Address, admin: Address) -> (r: Result<()>)
        ensures
            r is Ok,
            final(self).roles@ == old(self).roles@.insert(
                (admin@, Seq::new(32, |i: int| 0u8)),
                true,
            ),
            final(self).events@ == old(self).events@.push(
                B20Event::RoleMembershipUpdated {
                    role: B256::spec_repeat(0),
                    account: admin,
                    sender: msg_sender,
                    has_role: true,
                },
            ),
            *final(self) == (B20Token {
                roles: final(self).roles,
                events: final(self).events,
                ..*old(self)
            }),
    {
        let role = default_admin_role();
        self.grant_role_internal(admin, role)?;
        self.events.push(
            B20Event::RoleMembershipUpdated { role, account: admin, sender: msg_sender, has_role: true },
        );
        Ok(())
    }

    /// Whether `account` holds `role`.
    pub fn has_role(&self, account: Address, role: B256) -> (r: Result<bool>)
        ensures
            r == Ok::<bool, BasePrecompileError>(self.holds(account@, role@)),
    {
        self.has_role_internal(account, role)
    }

    /// The admin role that governs `role`.
    pub fn get_role_admin(&self, role: B256) -> (r: Result<B256>)
        ensures
            r == Ok::<B256, BasePrecompileError>(self.admin_of(role@)),
    {
        self.get_role_admin_internal(role)
    }

    /// How the token `new` and the result `r` of [`B20Token::grant_role`] relate to the token
    /// `self` it was called on.
    pub open spec fn post_grant_role(
        &self,
        new: &B20Token,
        msg_sender: Address,
        role: B256,
        account: Address,
        r: Result<()>,
    ) -> bool {
        &&& !self.holds(msg_sender@, self.admin_of(role@)@) ==> r == Err::<
            (),
            BasePrecompileError,
        >(unauthorized()) && *new == *self
        &&& self.holds(msg_sender@, self.admin_of(role@)@) ==> {
            &&& r is Ok
            &&& new.roles@ == self.roles@.insert((account@, role@), true)
            &&& new.events@ == self.events@.push(
                B20Event::RoleMembershipUpdated {
                    role,
                    account,
                    sender: msg_sender,
                    has_role: true,
                },
            )
            &&& *new == (B20Token {
                roles: new.roles,
                events: new.events,
                ..*self
            })
        }
    }

    /// Grants `role` to `account`; the caller must hold the admin role of `role`.
    pub fn grant_role(&mut self, msg_sender: Address, role: B256, account: Address) -> (r: Result<
        (),
    >)
        ensures
            old(self).post_grant_role(final(self), msg_sender, role, account, r),
    {
        let admin_role = self.get_role_admin_internal(role)?;
        self.check_role_internal(msg_sender, admin_role)?;
        self.grant_role_internal(account, role)?;
        self.events.push(
            B20Event::RoleMembershipUpdated { role, account, sender: msg_sender, has_role: true },
        );
        Ok(())
    }

    /// How the token `new` and the result `r` of [`B20Token::revoke_role`] relate to the token
    /// `self` it was called on.
    pub open spec fn post_revoke_role(
        &self,
        new: &B20Token,
        msg_sender: Address,
        role: B256,
        account: Address,
        r: Result<()>,
    ) -> bool {
        &&& !self.holds(msg_sender@, self.admin_of(role@)@) ==> r == Err::<
            (),
            BasePrecompileError,
        >(unauthorized()) && *new == *self
        &&& self.holds(msg_sender@, self.admin_of(role@)@) ==> {
            &&& r is Ok
            &&& new.roles@ == self.roles@.insert((account@, role@), false)
            &&& new.events@ == self.events@.push(
                B20Event::RoleMembershipUpdated {
                    role,
                    account,
                    sender: msg_sender,
                    has_role: false,
                },
            )
            &&& *new == (B20Token {
                roles: new.roles,
                events: new.events,
                ..*self
            })
        }
    }

    /// Revokes `role` from `account`; the caller must hold the admin role of `role`.
    pub fn revoke_role(&mut self, msg_sender: Address, role: B256, account: Address) -> (r: Result<
        (),
    >)
        ensures
            old(self).post_revoke_role(final(self), msg_sender, role, account, r),
    {
        let admin_role = self.get_role_admin_internal(role)?;
        self.check_role_internal(msg_sender, admin_role)?;
        self.revoke_role_internal(account, role)?;
        self.events.push(
            B20Event::RoleMembershipUpdated { role, account, sender: msg_sender, has_role: false },
        );
        Ok(())
    }

    /// How the token `new` and the result `r` of [`B20Token::renounce_role`] relate to the token
    /// `self` it was called on.
    pub open spec fn post_renounce_role(
        &self,
        new: &B20Token,
        msg_sender: Address,
        role: B256,
        r: Result<()>,
    ) -> bool {
        &&& !self.holds(msg_sender@, role@) ==> r == Err::<(), BasePrecompileError>(
            unauthorized(),
        ) && *new == *self
        &&& self.holds(msg_sender@, role@) ==> {
            &&& r is Ok
            &&& new.roles@ == self.roles@.insert((msg_sender@, role@), false)
            &&& new.events@ == self.events@.push(
                B20Event::RoleMembershipUpdated {
                    role,
                    account: msg_sender,
                    sender: msg_sender,
                    has_role: false,
                },
            )
            &&& *new == (B20Token {
                roles: new.roles,
                events: new.events,
                ..*self
            })
        }
    }

    /// The caller gives up its own `role`, which it must hold.
    pub fn renounce_role(&mut self, msg_sender: Address, role: B256) -> (r: Result<()>)
        ensures
            old(self).post_renounce_role(final(self), msg_sender, role, r),
    {
        self.check_role_internal(msg_sender, role)?;
        self.revoke_role_internal(msg_sender, role)?;
        self.events.push(
            B20Event::RoleMembershipUpdated {
                role,
                account: msg_sender,
                sender: msg_sender,
                has_role: false,
            },
        );
        Ok(())
    }

    /// How the token `new` and the result `r` of [`B20Token::set_role_admin`] relate to the token
    /// `self` it was called on.
    pub open spec fn post_set_role_admin(
        &self,
        new: &B20Token,
        msg_sender: Address,
        role: B256,
        admin_role: B256,
        r: Result<()>,
    ) -> bool {
        &&& !self.holds(msg_sender@, self.admin_of(role@)@) ==> r == Err::<
            (),
            BasePrecompileError,
        >(unauthorized()) && *new == *self
        &&& self.holds(msg_sender@, self.admin_of(role@)@) ==> {
            &&& r is Ok
            &&& new.role_admins@ == self.role_admins@.insert(role@, admin_role)
            &&& new.events@ == self.events@.push(
                B20Event::RoleAdminUpdated { role, new_admin_role: admin_role, sender: msg_sender },
            )
            &&& *new == (B20Token {
                role_admins: new.role_admins,
                events: new.events,
                ..*self
            })
        }
    }

    /// Makes `admin_role` the admin of `role`; the caller must hold the current admin role.
    pub fn set_role_admin(&mut self, msg_sender: Address, role: B256, admin_role: B256) -> (r:
        Result<()>)
        ensures
            old(self).post_set_role_admin(final(self), msg_sender, role, admin_role, r),
    {
        let current_admin_role = self.get_role_admin_internal(role)?;
        self.check_role_internal(msg_sender, current_admin_role)?;
        self.set_role_admin_internal(role, admin_role)?;
        self.events.push(
            B20Event::RoleAdminUpdated { role, new_admin_role: admin_role, sender: msg_sender },
        );
        Ok(())
    }

    /// Fails with `Unauthorized` when `account` does not hold `role`.
    pub fn check_role(&self, account: Address, role: B256) -> (r: Result<()>)
        ensures
            r is Ok <==> self.holds(account@, role@),
            r matches Err(e) ==> e == unauthorized(),
    {
        self.check_role_internal(account, role)
    }

    /// Whether `account` holds `role`, without decoding calldata.
    pub fn has_role_internal(&self, account: Address, role: B256) -> (r: Result<bool>)
        ensures
            r == Ok::<bool, BasePrecompileError>(self.holds(account@, role@)),
    {
        Ok(self.roles.read(&(account, role)))
    }

    /// Grants `role` to `account` without authorization checks or events.
    pub fn grant_role_internal(&mut self, account: Address, role: B256) -> (r: Result<()>)
        ensures
            r is Ok,
            final(self).roles@ == old(self).roles@.insert((account@, role@), true),
            *final(self) == (B20Token { roles: final(self).roles, ..*old(self) }),
    {
        self.roles.write((account, role), true);
        Ok(())
    }

    fn revoke_role_internal(&mut self, account: Address, role: B256) -> (r: Result<()>)
        ensures
            r is Ok,
            final(self).roles@ == old(self).roles@.insert((account@, role@), false),
            *final(self) == (B20Token { roles: final(self).roles, ..*old(self) }),
    {
        self.roles.write((account, role), false);
        Ok(())
    }

    fn get_role_admin_internal(&self, role: B256) -> (r: Result<B256>)
        ensures
            r == Ok::<B256, BasePrecompileError>(self.admin_of(role@)),
    {
        Ok(self.role_admins.read(&role))
    }

    fn set_role_admin_internal(&mut self, role: B256, admin_role: B256) -> (r: Result<()>)
        ensures
            r is Ok,
            final(self).role_admins@ == old(self).role_admins@.insert(role@, admin_role),
            *final(self) == (B20Token { role_admins: final(self).role_admins, ..*old(self) }),
    {
        self.role_admins.write(role, admin_role);
        Ok(())
    }

    fn check_role_internal(&self, account: Address, role: B256) -> (r: Result<()>)
        ensures
            r is Ok <==> self.holds(account@, role@),
            r matches Err(e) ==> e == unauthorized(),
    {
        if !self.has_role_internal(account, role)? {
            return Err(BasePrecompileError::RolesAuthError(RolesAuthError::unauthorized()));
        }
        Ok(())
    }
}


/// The ungrantable role, once it administers itself, cannot be granted, revoked or
/// re-administered by anyone who does not already hold it: for such a caller the admin check
/// of [`B20Token::grant_role`], [`B20Token::revoke_role`] and [`B20Token::set_role_admin`]
/// fails.
pub proof fn lemma_ungrantable_role_stays_ungranted(t: &B20Token, caller: Address)
    requires
        t.admin_of(spec_ungrantable_role())@ == spec_ungrantable_role(),
        !t.holds(caller@, spec_ungrantable_role()),
    ensures
        !t.holds(caller@, t.admin_of(spec_ungrantable_role())@),
{
}

} // verus!
