//! Accounts: the initial set, creation, updates and credential resets.
use vstd::prelude::*;

use crate::accounts::{
    address_ok, auth_hash_ok, known_role, normalize_email, normalized_email, validate_auth_hash,
    validate_role_name,
};
use crate::commands::CommandData;
use crate::lookup::{index_of_id, position_of_id};
use crate::model::{copy_text, AuditRecord, UserAccount, UserAuditView};
use crate::permissions::{allowed, require_permission, role_name, role_text, Role};
use crate::state::{action, action_is, invalid_data, require_text, Action, Actor, ApplicationState};
use crate::text::{concat2, has_duplicate_texts, is_blank, opt_view, owned, str_equal, trim, trimmed};

verus! {

/// What the audit trail shows of an account: never its credential hashes.
pub open spec fn audit_view(u: UserAccount) -> UserAuditView {
    UserAuditView {
        id: u.id,
        email: u.email,
        name: u.name,
        role: u.role,
        active: u.active,
        maximum_repair_level: u.maximum_repair_level,
        has_pin: u.pin_hash is Some,
        auth_version: u.auth_version,
    }
}

/// The audit value of an account.
pub fn user_audit_value(user: &UserAccount) -> (r: UserAuditView)
    ensures
        r == audit_view(*user),
{
    UserAuditView {
        id: user.id.clone(),
        email: user.email.clone(),
        name: user.name.clone(),
        role: user.role.clone(),
        active: user.active,
        maximum_repair_level: user.maximum_repair_level,
        has_pin: user.pin_hash.is_some(),
        auth_version: user.auth_version,
    }
}

/// An active account with the administrator role.
pub open spec fn is_active_admin(u: UserAccount) -> bool {
    u.active && u.role@ == "admin"@
}

/// How many accounts are active administrators.
pub open spec fn active_admin_count(s: Seq<UserAccount>) -> nat
    decreases s.len(),
{
    if s.len() == 0 {
        0
    } else {
        active_admin_count(s.drop_last()) + if is_active_admin(s.last()) {
            1nat
        } else {
            0nat
        }
    }
}

/// Replacing one account changes the count by what the two accounts contribute.
pub proof fn lemma_active_admin_count_update(s: Seq<UserAccount>, i: int, u: UserAccount)
    requires
        0 <= i < s.len(),
    ensures
        active_admin_count(s.update(i, u)) + (if is_active_admin(s[i]) {
            1int
        } else {
            0int
        }) == active_admin_count(s) + (if is_active_admin(u) {
            1int
        } else {
            0int
        }),
    decreases s.len(),
{
    if i == s.len() - 1 {
        assert(s.update(i, u).drop_last() == s.drop_last());
    } else {
        assert(s.update(i, u).drop_last() == s.drop_last().update(i, u));
        lemma_active_admin_count_update(s.drop_last(), i, u);
    }
}

/// An active administrator is counted.
pub proof fn lemma_active_admin_counted(s: Seq<UserAccount>, i: int)
    requires
        0 <= i < s.len(),
        is_active_admin(s[i]),
    ensures
        active_admin_count(s) >= 1,
    decreases s.len(),
{
    if i < s.len() - 1 {
        lemma_active_admin_counted(s.drop_last(), i);
    }
}

/// Without any active administrator the count is zero.
pub proof fn lemma_no_active_admin(s: Seq<UserAccount>)
    requires
        forall|k: int| 0 <= k < s.len() ==> !is_active_admin(#[trigger] s[k]),
    ensures
        active_admin_count(s) == 0,
    decreases s.len(),
{
    if s.len() > 0 {
        lemma_no_active_admin(s.drop_last());
    }
}

/// Some account already has this address.
pub open spec fn email_taken(users: Seq<UserAccount>, email: Seq<char>) -> bool {
    exists|j: int| 0 <= j < users.len() && (#[trigger] users[j]).email@ == email
}

/// Some account other than `id` already has this address.
pub open spec fn email_taken_by_other(users: Seq<UserAccount>, id: Seq<char>, email: Seq<char>) -> bool {
    exists|j: int| 0 <= j < users.len() && (#[trigger] users[j]).id@ != id && users[j].email@ == email
}

/// Why one account of the initial set is refused, if it is.
pub open spec fn seed_user_error(u: UserAccount) -> Option<Seq<char>> {
    if !address_ok(normalized_email(u.email@)) {
        Some("user_email_invalid"@)
    } else if is_blank(u.name@) {
        Some("user_name_required"@)
    } else if !known_role(u.role@) {
        Some("user_role_invalid"@)
    } else if !auth_hash_ok(u.password_hash@) {
        Some("password_hash_invalid"@)
    } else if u.pin_hash matches Some(p) && !auth_hash_ok(p@) {
        Some("pin_hash_invalid"@)
    } else {
        None
    }
}

/// No two accounts share an identifier.
pub open spec fn ids_distinct(users: Seq<UserAccount>) -> bool {
    forall|i: int, j: int| 0 <= i < j < users.len() ==> (#[trigger] users[i]).id@ != (
    #[trigger] users[j]).id@
}

/// No two accounts share an address once addresses are normalized.
pub open spec fn emails_distinct(users: Seq<UserAccount>) -> bool {
    forall|i: int, j: int|
        0 <= i < j < users.len() ==> normalized_email((#[trigger] users[i]).email@)
            != normalized_email((#[trigger] users[j]).email@)
}

/// Account `i` is the first of the set with a bad field.
pub open spec fn first_bad_user(users: Seq<UserAccount>, i: int) -> bool {
    &&& 0 <= i < users.len()
    &&& seed_user_error(users[i]) is Some
    &&& forall|j: int| 0 <= j < i ==> seed_user_error(#[trigger] users[j]) is None
}

/// Why the initial set of accounts is refused, if it is: duplicated identifiers first,
/// then the first account with a bad field, then duplicated addresses, then the lack of
/// an active administrator.
pub open spec fn seed_users_error(users: Seq<UserAccount>) -> Option<Seq<char>> {
    if !ids_distinct(users) {
        Some("user_id_already_exists"@)
    } else if exists|i: int| 0 <= i < users.len() && (#[trigger] seed_user_error(users[i])) is Some {
        let i = choose|i: int| first_bad_user(users, i);
        seed_user_error(users[i])
    } else if !emails_distinct(users) {
        Some("user_email_already_exists"@)
    } else if !(exists|i: int|
        0 <= i < users.len() && (#[trigger] users[i]).active && users[i].role@ == "admin"@) {
        Some("active_admin_required"@)
    } else {
        None
    }
}

/// Checks one account of the initial set and returns its normalized address.
fn check_seed_user(user: &UserAccount) -> (r: Result<String, String>)
    ensures
        seed_user_error(*user) matches Some(e) ==> (r matches Err(x) && x@ == e),
        seed_user_error(*user) is None ==> (r matches Ok(email) && email@ == normalized_email(
            user.email@,
        )),
{
    let email = normalize_email(user.email.as_str())?;
    require_text(user.name.as_str(), "user_name_required")?;
    validate_role_name(user.role.as_str())?;
    validate_auth_hash(user.password_hash.as_str(), "password_hash_invalid")?;
    if let Some(pin) = &user.pin_hash {
        validate_auth_hash(pin.as_str(), "pin_hash_invalid")?;
    }
    Ok(email)
}

/// Finds two accounts with the same identifier.
fn duplicate_ids(users: &Vec<UserAccount>) -> (r: bool)
    ensures
        r == !ids_distinct(users@),
{
    let n = users.len();
    let mut i: usize = 0;
    while i < n
        invariant
            n == users@.len(),
            i <= n,
            forall|a: int, b: int| 0 <= a < b < n && a < i ==> (#[trigger] users@[a]).id@ != (
            #[trigger] users@[b]).id@,
        decreases n - i,
    {
        let mut j: usize = i + 1;
        while j < n
            invariant
                n == users@.len(),
                i < n,
                i < j <= n,
                forall|a: int, b: int| 0 <= a < b < n && a < i ==> (#[trigger] users@[a]).id@ != (
                #[trigger] users@[b]).id@,
                forall|b: int| i < b < j ==> users@[i as int].id@ != (#[trigger] users@[b]).id@,
            decreases n - j,
        {
            if str_equal(users[i].id.as_str(), users[j].id.as_str()) {
                return true;
            }
            j += 1;
        }
        i += 1;
    }
    false
}

impl ApplicationState {
    /// Installs the initial accounts, once: with accounts already present nothing changes.
    /// Identifiers must be distinct, every account valid, normalized addresses distinct,
    /// and one account an active administrator; addresses are stored normalized.
    #[verifier::loop_isolation(false)]
    pub fn seed_users(&mut self, users: Vec<UserAccount>) -> (r: Result<(), String>)
        ensures
            old(self).user_accounts@.len() > 0 ==> r is Ok && *final(self) == *old(self),
            old(self).user_accounts@.len() == 0 ==> (seed_users_error(users@) matches Some(e) ==> (r matches Err(
                x,
            ) && x@ == e)),
            r is Err ==> *final(self) == *old(self),
            old(self).user_accounts@.len() == 0 && seed_users_error(users@) is None ==> {
                &&& r is Ok
                &&& *final(self) == ApplicationState {
                    user_accounts: final(self).user_accounts,
                    ..*old(self)
                }
                &&& final(self).user_accounts@.len() == users@.len()
                &&& forall|i: int|
                    0 <= i < users@.len() ==> {
                        let u = #[trigger] final(self).user_accounts@[i];
                        &&& u == UserAccount { email: u.email, ..users@[i] }
                        &&& u.email@ == normalized_email(users@[i].email@)
                    }
            },
    {
        if self.user_accounts.len() > 0 {
            return Ok(());
        }
        if duplicate_ids(&users) {
            return Err(owned("user_id_already_exists"));
        }
        let n = users.len();
        let mut emails: Vec<String> = Vec::new();
        let mut i: usize = 0;
        while i < n
            invariant
                n == users@.len(),
                i <= n,
                emails@.len() == i,
                forall|k: int| 0 <= k < i ==> seed_user_error(#[trigger] users@[k]) is None,
                forall|k: int|
                    0 <= k < i ==> (#[trigger] emails@[k])@ == normalized_email(users@[k].email@),
            decreases n - i,
        {
            match check_seed_user(&users[i]) {
                Ok(email) => emails.push(email),
                Err(e) => {
                    proof {
                        assert(first_bad_user(users@, i as int));
                        let c = choose|k: int| first_bad_user(users@, k);
                        assert(first_bad_user(users@, c));
                        if c < i {
                            assert(seed_user_error(users@[c]) is None);
                        }
                        if i < c {
                            assert(seed_user_error(users@[i as int]) is None);
                        }
                    }
                    return Err(e);
                },
            }
            i += 1;
        }
        assert(forall|k: int| 0 <= k < n ==> seed_user_error(#[trigger] users@[k]) is None);
        if has_duplicate_texts(&emails) {
            proof {
                let (a, b) = choose|a: int, b: int|
                    0 <= a < b < emails@.len() && (#[trigger] emails@[a])@ == (
                    #[trigger] emails@[b])@;
                assert(normalized_email(users@[a].email@) == normalized_email(users@[b].email@));
            }
            return Err(owned("user_email_already_exists"));
        }
        assert(emails_distinct(users@)) by {
            assert forall|a: int, b: int| 0 <= a < b < n implies normalized_email(
                (#[trigger] users@[a]).email@,
            ) != normalized_email((#[trigger] users@[b]).email@) by {
                assert(emails@[a]@ == normalized_email(users@[a].email@));
                assert(emails@[b]@ == normalized_email(users@[b].email@));
            }
        }
        let mut has_admin = false;
        let mut k: usize = 0;
        while k < n
            invariant
                n == users@.len(),
                k <= n,
                has_admin == exists|m: int|
                    0 <= m < k && (#[trigger] users@[m]).active && users@[m].role@ == "admin"@,
            decreases n - k,
        {
            if users[k].active && str_equal(users[k].role.as_str(), "admin") {
                has_admin = true;
            }
            k += 1;
        }
        if !has_admin {
            return Err(owned("active_admin_required"));
        }
        let mut accounts: Vec<UserAccount> = Vec::new();
        let mut users = users;
        let ghost given = users@;
        while users.len() > 0
            invariant
                given.len() == n,
                emails@.len() == n,
                users@.len() + accounts@.len() == n,
                forall|m: int| 0 <= m < users@.len() ==> #[trigger] users@[m] == given[m + accounts@.len()],
                forall|k: int|
                    0 <= k < n ==> (#[trigger] emails@[k])@ == normalized_email(given[k].email@),
                forall|m: int|
                    0 <= m < accounts@.len() ==> {
                        let u = #[trigger] accounts@[m];
                        &&& u == UserAccount { email: u.email, ..given[m] }
                        &&& u.email@ == normalized_email(given[m].email@)
                    },
            decreases users@.len(),
        {
            let mut user = users.remove(0);
            let m = accounts.len();
            user.email = emails[m].clone();
            accounts.push(user);
        }
        self.user_accounts = accounts;
        Ok(())
    }

    /// What `create_user` gives: the state `new_state` it leaves and its result `r`, from
    /// the state `old_state`.
    pub open spec fn create_user_outcome(
        old_state: ApplicationState,
        new_state: ApplicationState,
        command_id: &str,
        now: u64,
        actor: &Actor,
        data: &CommandData,
        r: Result<Action, String>,
    ) -> bool {
        &&& (create_user_error(old_state.user_accounts@, actor.role, *data) matches Some(e) ==> (r matches Err(
                x,
            ) && x@ == e))
        &&& (r is Err ==> new_state == old_state)
        &&& (r matches Ok(a) ==> allowed(actor.role, a.permission@))
        &&& (create_user_error(old_state.user_accounts@, actor.role, *data) is None ==> (r matches Ok(a)
                && data matches CommandData::CreateUser(input) && {
                let u = new_state.user_accounts@.last();
                &&& new_state == ApplicationState {
                    user_accounts: new_state.user_accounts,
                    ..old_state
                }
                &&& new_state.user_accounts@ == old_state.user_accounts@.push(u)
                &&& u.id@ == "user-"@ + command_id@
                &&& u.email@ == normalized_email(input.email@)
                &&& u.name@ == trim(input.name@)
                &&& u.role@ == role_text(input.role)
                &&& u.password_hash == input.password_hash
                &&& u.pin_hash == input.pin_hash
                &&& u.active
                &&& u.maximum_repair_level == input.maximum_repair_level
                &&& u.auth_version == 1
                &&& u.created_at_ms == now
                &&& u.updated_at_ms == now
                &&& action_is(
                    a,
                    "admin.users.manage"@,
                    "user_account"@,
                    u.id@,
                    None,
                    Some(AuditRecord::User(audit_view(u))),
                    "User created"@,
                )
            }))
    }

    /// An administrator creates an active account.
    pub fn create_user(&mut self, command_id: &str, now: u64, actor: &Actor, data: &CommandData)
        -> (r: Result<Action, String>)
        ensures
            Self::create_user_outcome(*old(self), *final(self), command_id, now, actor, data, r),
    {
        require_permission(actor.role, "admin.users.manage")?;
        let input = match data {
            CommandData::CreateUser(input) => input,
            _ => return Err(invalid_data()),
        };
        let email = normalize_email(input.email.as_str())?;
        require_text(input.name.as_str(), "user_name_required")?;
        validate_auth_hash(input.password_hash.as_str(), "password_hash_invalid")?;
        if let Some(pin) = &input.pin_hash {
            validate_auth_hash(pin.as_str(), "pin_hash_invalid")?;
        }
        if self.has_email(email.as_str()) {
            return Err(owned("user_email_already_exists"));
        }
        let id = concat2("user-", command_id);
        let user = UserAccount {
            id: id.clone(),
            email,
            name: trimmed(input.name.as_str()),
            role: owned(role_name(input.role)),
            password_hash: input.password_hash.clone(),
            pin_hash: copy_text(&input.pin_hash),
            active: true,
            maximum_repair_level: input.maximum_repair_level,
            auth_version: 1,
            created_at_ms: now,
            updated_at_ms: now,
        };
        let after = user_audit_value(&user);
        self.user_accounts.push(user);
        Ok(
            action(
                "admin.users.manage",
                "user_account",
                id,
                None,
                Some(AuditRecord::User(after)),
                "User created",
            ),
        )
    }

    fn has_email(&self, email: &str) -> (r: bool)
        ensures
            r == email_taken(self.user_accounts@, email@),
    {
        let mut j: usize = 0;
        while j < self.user_accounts.len()
            invariant
                j <= self.user_accounts@.len(),
                forall|k: int| 0 <= k < j ==> (#[trigger] self.user_accounts@[k]).email@ != email@,
            decreases self.user_accounts@.len() - j,
        {
            if str_equal(self.user_accounts[j].email.as_str(), email) {
                assert(self.user_accounts@[j as int].email@ == email@);
                return true;
            }
            j += 1;
        }
        false
    }

    fn has_email_of_other(&self, id: &str, email: &str) -> (r: bool)
        ensures
            r == email_taken_by_other(self.user_accounts@, id@, email@),
    {
        let mut j: usize = 0;
        while j < self.user_accounts.len()
            invariant
                j <= self.user_accounts@.len(),
                forall|k: int|
                    0 <= k < j ==> !((#[trigger] self.user_accounts@[k]).id@ != id@
                        && self.user_accounts@[k].email@ == email@),
            decreases self.user_accounts@.len() - j,
        {
            let u = &self.user_accounts[j];
            if !str_equal(u.id.as_str(), id) && str_equal(u.email.as_str(), email) {
                assert(self.user_accounts@[j as int].id@ != id@);
                return true;
            }
            j += 1;
        }
        false
    }

    fn count_active_admins(&self) -> (r: usize)
        ensures
            r == active_admin_count(self.user_accounts@),
    {
        let mut count: usize = 0;
        let mut j: usize = 0;
        while j < self.user_accounts.len()
            invariant
                j <= self.user_accounts@.len(),
                count == active_admin_count(self.user_accounts@.take(j as int)),
                count <= j,
            decreases self.user_accounts@.len() - j,
        {
            let ghost s = self.user_accounts@;
            assert(s.take(j + 1).drop_last() == s.take(j as int));
            if self.user_accounts[j].active && str_equal(self.user_accounts[j].role.as_str(), "admin") {
                count += 1;
            }
            j += 1;
        }
        assert(self.user_accounts@.take(j as int) == self.user_accounts@);
        count
    }

    /// What `update_user` gives: the state `new_state` it leaves and its result `r`, from
    /// the state `old_state`.
    pub open spec fn update_user_outcome(
        old_state: ApplicationState,
        new_state: ApplicationState,
        now: u64,
        actor: &Actor,
        data: &CommandData,
        r: Result<Action, String>,
    ) -> bool {
        &&& (update_user_error(old_state.user_accounts@, actor.role, *data) matches Some(e) ==> (r matches Err(
                x,
            ) && x@ == e))
        &&& (r is Err ==> new_state == old_state)
        &&& (r matches Ok(a) ==> allowed(actor.role, a.permission@))
        &&& (update_user_error(old_state.user_accounts@, actor.role, *data) is None ==> (r matches Ok(a)
                && data matches CommandData::UpdateUser(input) && {
                let i = index_of_id(old_state.user_accounts@, input.id@)->0;
                let before = old_state.user_accounts@[i];
                let after = new_state.user_accounts@[i];
                &&& new_state == ApplicationState {
                    user_accounts: new_state.user_accounts,
                    ..old_state
                }
                &&& new_state.user_accounts@ == old_state.user_accounts@.update(i, after)
                &&& after == UserAccount {
                    email: after.email,
                    name: after.name,
                    role: after.role,
                    active: input.active,
                    maximum_repair_level: input.maximum_repair_level,
                    auth_version: if before.auth_version == u64::MAX {
                        u64::MAX
                    } else {
                        (before.auth_version + 1) as u64
                    },
                    updated_at_ms: now,
                    ..before
                }
                &&& after.email@ == normalized_email(input.email@)
                &&& after.name@ == trim(input.name@)
                &&& after.role@ == role_text(input.role)
                &&& action_is(
                    a,
                    "admin.users.manage"@,
                    "user_account"@,
                    input.id@,
                    Some(AuditRecord::User(audit_view(before))),
                    Some(AuditRecord::User(audit_view(after))),
                    "User updated"@,
                )
            }))
        &&& (r is Ok && active_admin_count(old_state.user_accounts@) >= 1 ==> active_admin_count(
                new_state.user_accounts@,
            ) >= 1)
    }

    /// An administrator changes an account; the last active administrator cannot lose
    /// that role or be disabled.
    pub fn update_user(&mut self, now: u64, actor: &Actor, data: &CommandData) -> (r: Result<
        Action,
        String,
    >)
        ensures
            Self::update_user_outcome(*old(self), *final(self), now, actor, data, r),
    {
        require_permission(actor.role, "admin.users.manage")?;
        let input = match data {
            CommandData::UpdateUser(input) => input,
            _ => return Err(invalid_data()),
        };
        let email = normalize_email(input.email.as_str())?;
        require_text(input.name.as_str(), "user_name_required")?;
        let i = match position_of_id(&self.user_accounts, input.id.as_str()) {
            Some(i) => i,
            None => return Err(owned("user_not_found")),
        };
        if self.has_email_of_other(input.id.as_str(), email.as_str()) {
            return Err(owned("user_email_already_exists"));
        }
        let current = &self.user_accounts[i];
        let removes_active_admin = current.active && str_equal(current.role.as_str(), "admin") && (
        !input.active || input.role != Role::Admin);
        if removes_active_admin && self.count_active_admins() <= 1 {
            return Err(owned("last_active_admin_required"));
        }
        let before = user_audit_value(&self.user_accounts[i]);
        let mut user = self.user_accounts[i].duplicate();
        user.email = email;
        user.name = trimmed(input.name.as_str());
        user.role = owned(role_name(input.role));
        user.active = input.active;
        user.maximum_repair_level = input.maximum_repair_level;
        user.auth_version = user.auth_version.saturating_add(1);
        user.updated_at_ms = now;
        let after = user_audit_value(&user);
        let ghost old_users = self.user_accounts@;
        let ghost new_user = user;
        self.user_accounts.set(i, user);
        proof {
            lemma_active_admin_count_update(old_users, i as int, new_user);
            reveal_strlit("admin");
            reveal_strlit("chefe");
            reveal_strlit("compras");
            reveal_strlit("tecnico");
        }
        Ok(
            action(
                "admin.users.manage",
                "user_account",
                input.id.clone(),
                Some(AuditRecord::User(before)),
                Some(AuditRecord::User(after)),
                "User updated",
            ),
        )
    }

    /// What `reset_user_credentials` gives: the state `new_state` it leaves and its result `r`, from
    /// the state `old_state`.
    pub open spec fn reset_user_credentials_outcome(
        old_state: ApplicationState,
        new_state: ApplicationState,
        now: u64,
        actor: &Actor,
        data: &CommandData,
        r: Result<Action, String>,
    ) -> bool {
        &&& (reset_credentials_error(old_state.user_accounts@, actor.role, *data) matches Some(e)
                ==> (r matches Err(x) && x@ == e))
        &&& (r is Err ==> new_state == old_state)
        &&& (r matches Ok(a) ==> allowed(actor.role, a.permission@))
        &&& (reset_credentials_error(old_state.user_accounts@, actor.role, *data) is None ==> (r matches Ok(a)
                && data matches CommandData::ResetUserCredentials(input) && {
                let i = index_of_id(old_state.user_accounts@, input.id@)->0;
                let before = old_state.user_accounts@[i];
                let after = UserAccount {
                    password_hash: match input.password_hash {
                        Some(p) => p,
                        None => before.password_hash,
                    },
                    pin_hash: if input.clear_pin {
                        None
                    } else {
                        match input.pin_hash {
                            Some(p) => Some(p),
                            None => before.pin_hash,
                        }
                    },
                    auth_version: if before.auth_version == u64::MAX {
                        u64::MAX
                    } else {
                        (before.auth_version + 1) as u64
                    },
                    updated_at_ms: now,
                    ..before
                };
                &&& new_state == ApplicationState {
                    user_accounts: new_state.user_accounts,
                    ..old_state
                }
                &&& new_state.user_accounts@ == old_state.user_accounts@.update(i, after)
                &&& action_is(
                    a,
                    "admin.users.manage"@,
                    "user_account"@,
                    input.id@,
                    Some(AuditRecord::User(audit_view(before))),
                    Some(AuditRecord::User(audit_view(after))),
                    "User credentials reset"@,
                )
            }))
    }

    /// An administrator replaces an account's password or PIN, or clears the PIN; the
    /// account's authentication version moves on.
    pub fn reset_user_credentials(&mut self, now: u64, actor: &Actor, data: &CommandData) -> (r:
        Result<Action, String>)
        ensures
            Self::reset_user_credentials_outcome(*old(self), *final(self), now, actor, data, r),
    {
        require_permission(actor.role, "admin.users.manage")?;
        let input = match data {
            CommandData::ResetUserCredentials(input) => input,
            _ => return Err(invalid_data()),
        };
        if input.password_hash.is_none() && input.pin_hash.is_none() && !input.clear_pin {
            return Err(owned("credential_change_required"));
        }
        if let Some(p) = &input.password_hash {
            validate_auth_hash(p.as_str(), "password_hash_invalid")?;
        }
        if let Some(p) = &input.pin_hash {
            validate_auth_hash(p.as_str(), "pin_hash_invalid")?;
        }
        let i = match position_of_id(&self.user_accounts, input.id.as_str()) {
            Some(i) => i,
            None => return Err(owned("user_not_found")),
        };
        let before = user_audit_value(&self.user_accounts[i]);
        let mut user = self.user_accounts[i].duplicate();
        if let Some(p) = &input.password_hash {
            user.password_hash = p.clone();
        }
        if input.clear_pin {
            user.pin_hash = None;
        } else if let Some(p) = &input.pin_hash {
            user.pin_hash = Some(p.clone());
        }
        user.auth_version = user.auth_version.saturating_add(1);
        user.updated_at_ms = now;
        let after = user_audit_value(&user);
        self.user_accounts.set(i, user);
        Ok(
            action(
                "admin.users.manage",
                "user_account",
                input.id.clone(),
                Some(AuditRecord::User(before)),
                Some(AuditRecord::User(after)),
                "User credentials reset",
            ),
        )
    }
}

/// Why creating an account fails, if it does.
pub open spec fn create_user_error(users: Seq<UserAccount>, role: Role, data: CommandData) -> Option<
    Seq<char>,
> {
    if !allowed(role, "admin.users.manage"@) {
        Some("forbidden"@)
    } else {
        match data {
            CommandData::CreateUser(input) => if !address_ok(normalized_email(input.email@)) {
                Some("user_email_invalid"@)
            } else if is_blank(input.name@) {
                Some("user_name_required"@)
            } else if !auth_hash_ok(input.password_hash@) {
                Some("password_hash_invalid"@)
            } else if input.pin_hash matches Some(p) && !auth_hash_ok(p@) {
                Some("pin_hash_invalid"@)
            } else if email_taken(users, normalized_email(input.email@)) {
                Some("user_email_already_exists"@)
            } else {
                None
            },
            _ => Some("invalid_command_data"@),
        }
    }
}

/// The update would take away the last active administrator.
pub open spec fn removes_last_admin(users: Seq<UserAccount>, i: int, active: bool, role: Role) -> bool {
    &&& is_active_admin(users[i])
    &&& (!active || role != Role::Admin)
    &&& active_admin_count(users) <= 1
}

/// Why updating an account fails, if it does.
pub open spec fn update_user_error(users: Seq<UserAccount>, role: Role, data: CommandData) -> Option<
    Seq<char>,
> {
    if !allowed(role, "admin.users.manage"@) {
        Some("forbidden"@)
    } else {
        match data {
            CommandData::UpdateUser(input) => if !address_ok(normalized_email(input.email@)) {
                Some("user_email_invalid"@)
            } else if is_blank(input.name@) {
                Some("user_name_required"@)
            } else {
                match index_of_id(users, input.id@) {
                    None => Some("user_not_found"@),
                    Some(i) => if email_taken_by_other(
                        users,
                        input.id@,
                        normalized_email(input.email@),
                    ) {
                        Some("user_email_already_exists"@)
                    } else if removes_last_admin(users, i, input.active, input.role) {
                        Some("last_active_admin_required"@)
                    } else {
                        None
                    },
                }
            },
            _ => Some("invalid_command_data"@),
        }
    }
}

/// Why resetting credentials fails, if it does.
pub open spec fn reset_credentials_error(users: Seq<UserAccount>, role: Role, data: CommandData) -> Option<
    Seq<char>,
> {
    if !allowed(role, "admin.users.manage"@) {
        Some("forbidden"@)
    } else {
        match data {
            CommandData::ResetUserCredentials(input) => if input.password_hash is None
                && input.pin_hash is None && !input.clear_pin {
                Some("credential_change_required"@)
            } else if input.password_hash matches Some(p) && !auth_hash_ok(p@) {
                Some("password_hash_invalid"@)
            } else if input.pin_hash matches Some(p) && !auth_hash_ok(p@) {
                Some("pin_hash_invalid"@)
            } else if index_of_id(users, input.id@) is None {
                Some("user_not_found"@)
            } else {
                None
            },
            _ => Some("invalid_command_data"@),
        }
    }
}

} // verus!
