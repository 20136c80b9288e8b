//! The session of each workspace, kept in a store of secrets.
use vstd::prelude::*;
use vstd::string::*;

use crate::auth::{account_of, keyring_account_for, law_accounts_are_distinct, StoredSlackSession};
use crate::collections::{bind, lookup, unbind};
use crate::platform::{
    law_deleted_secrets_are_gone, law_secrets_read_back, others_stay, SecretStore, SecretStoreError,
    Secrets,
};
use crate::text::owned;
use crate::time::Timestamp;

verus! {

/// Keeps the session of each workspace, as text, under an account of its own.
#[derive(Debug)]
pub struct SlackAuthController<S: SecretStore> {
    pub secret_store: S,
}

impl<S: SecretStore> SlackAuthController<S> {
    /// A controller on a store.
    pub fn new(secret_store: S) -> (r: Self)
        ensures
            r.secret_store == secret_store,
    {
        SlackAuthController { secret_store }
    }

    /// Writes the session of a workspace.
    pub fn save_session_for(&mut self, workspace_key: &str, payload: &str) -> (r: Result<
        (),
        String,
    >)
        ensures
            match r {
                Ok(done) => old(self).secret_store.sets(
                    account_of(workspace_key@),
                    payload@,
                    &final(self).secret_store,
                    Ok(done),
                ) && final(self).secret_store.secrets() == bind(
                    old(self).secret_store.secrets(),
                    account_of(workspace_key@),
                    payload@,
                ),
                Err(message) => message@ == "failed to write Slack auth to secret store"@ && exists|
                    error: SecretStoreError,
                |
                    #[trigger] old(self).secret_store.sets(
                        account_of(workspace_key@),
                        payload@,
                        &final(self).secret_store,
                        Err(error),
                    ),
            },
            others_stay(
                old(self).secret_store.secrets(),
                final(self).secret_store.secrets(),
                account_of(workspace_key@),
            ),
    {
        let account = keyring_account_for(workspace_key);
        match self.secret_store.set_secret(account.as_str(), payload) {
            Ok(done) => Ok(done),
            Err(error) => {
                assert(old(self).secret_store.sets(
                    account_of(workspace_key@),
                    payload@,
                    &self.secret_store,
                    Err(error),
                ));
                Err(owned("failed to write Slack auth to secret store"))
            },
        }
    }

    /// The session of a workspace, if there is one.
    pub fn load_session_for(&self, workspace_key: &str) -> (r: Result<Option<String>, String>)
        ensures
            match r {
                Ok(found) => self.secret_store.gets(account_of(workspace_key@), Ok(found))
                    && found.deep_view() == lookup(
                    self.secret_store.secrets(),
                    account_of(workspace_key@),
                ),
                Err(message) => message@ == "failed to read Slack auth from secret store"@
                    && exists|error: SecretStoreError|
                    #[trigger] self.secret_store.gets(account_of(workspace_key@), Err(error)),
            },
    {
        let account = keyring_account_for(workspace_key);
        match self.secret_store.get_secret(account.as_str()) {
            Ok(found) => Ok(found),
            Err(_) => Err(owned("failed to read Slack auth from secret store")),
        }
    }

    /// Forgets the session of a workspace, and answers what the store answers.
    pub fn clear_session_for(&mut self, workspace_key: &str) -> (r: Result<(), SecretStoreError>)
        ensures
            old(self).secret_store.deletes(
                account_of(workspace_key@),
                &final(self).secret_store,
                r,
            ),
            others_stay(
                old(self).secret_store.secrets(),
                final(self).secret_store.secrets(),
                account_of(workspace_key@),
            ),
            r is Ok ==> final(self).secret_store.secrets() == unbind(
                old(self).secret_store.secrets(),
                account_of(workspace_key@),
            ),
    {
        let account = keyring_account_for(workspace_key);
        self.secret_store.delete_secret(account.as_str())
    }
}

/// What is read of a workspace is what was last saved for it; a session that was cleared is gone;
/// and neither touches another workspace.
pub proof fn law_sessions_read_back(
    secrets: Secrets,
    key: Seq<char>,
    payload: Seq<char>,
    other: Seq<char>,
)
    ensures
        lookup(bind(secrets, account_of(key), payload), account_of(key)) == Some(payload),
        lookup(unbind(secrets, account_of(key)), account_of(key)) is None,
        other != key ==> lookup(bind(secrets, account_of(key), payload), account_of(other))
            == lookup(secrets, account_of(other)),
        other != key ==> lookup(unbind(secrets, account_of(key)), account_of(other)) == lookup(
            secrets,
            account_of(other),
        ),
{
    if account_of(other) == account_of(key) {
        law_accounts_are_distinct(other, key);
    }
    law_secrets_read_back(secrets, account_of(key), payload, account_of(other));
    law_deleted_secrets_are_gone(secrets, account_of(key), account_of(other));
}

/// What is done with a session that was read.
#[derive(Clone, Copy, Debug, PartialEq, Eq, Structural)]
pub enum SessionStep {
    /// There is none.
    Absent,
    /// It is used as it is.
    Keep,
    /// Its tokens are renewed first.
    Refresh,
}

/// What is done with a session that was read: tokens that expire soon are renewed, if the app is
/// configured.
pub fn session_step(session: &Option<StoredSlackSession>, configured: bool, now: Timestamp) -> (r:
    SessionStep)
    ensures
        r == (match session {
            None => SessionStep::Absent,
            Some(session) => if configured && (session.deep_view().user_refresh_due(now)
                || session.deep_view().bot_refresh_due(now)) {
                SessionStep::Refresh
            } else {
                SessionStep::Keep
            },
        }),
{
    match session {
        None => SessionStep::Absent,
        Some(session) => if configured && session.needs_refresh(now) {
            SessionStep::Refresh
        } else {
            SessionStep::Keep
        },
    }
}

} // verus!
