//! Notifications and the store of secrets.
use vstd::prelude::*;
use vstd::string::*;

use crate::collections::{bind, lemma_lookup_bind, lookup, unbind, TextMap};
use crate::settings::NotificationAction;
use crate::text::owned;

verus! {

/// A notification that is to be shown.
#[derive(Debug, PartialEq, Eq)]
pub struct NotificationRequest {
    pub summary: String,
    pub body: String,
    pub action: NotificationAction,
    pub icon: Option<String>,
    pub category: Option<String>,
    pub sound_name: Option<String>,
    pub default_action_target: Option<String>,
}

/// What a [`NotificationRequest`] says: its texts as sequences of characters.
#[verifier::ext_equal]
pub struct NotificationRequestModel {
    pub summary: Seq<char>,
    pub body: Seq<char>,
    pub action: NotificationAction,
    pub icon: Option<Seq<char>>,
    pub category: Option<Seq<char>>,
    pub sound_name: Option<Seq<char>>,
    pub default_action_target: Option<Seq<char>>,
}

impl DeepView for NotificationRequest {
    type V = NotificationRequestModel;

    open spec fn deep_view(&self) -> NotificationRequestModel {
        NotificationRequestModel {
            summary: self.summary@,
            body: self.body@,
            action: self.action,
            icon: self.icon.deep_view(),
            category: self.category.deep_view(),
            sound_name: self.sound_name.deep_view(),
            default_action_target: self.default_action_target.deep_view(),
        }
    }
}

impl Clone for NotificationRequest {
    fn clone(&self) -> (copy: Self)
        ensures
            copy.deep_view() == self.deep_view(),
    {
        let copy = NotificationRequest {
            summary: self.summary.clone(),
            body: self.body.clone(),
            action: self.action,
            icon: self.icon.clone(),
            category: self.category.clone(),
            sound_name: self.sound_name.clone(),
            default_action_target: self.default_action_target.clone(),
        };
        assert(copy.icon.deep_view() =~= self.icon.deep_view());
        assert(copy.category.deep_view() =~= self.category.deep_view());
        assert(copy.sound_name.deep_view() =~= self.sound_name.deep_view());
        assert(copy.default_action_target.deep_view() =~= self.default_action_target.deep_view());
        copy
    }
}

/// How urgent the desktop takes a notification to be.
#[derive(Clone, Copy, Debug, PartialEq, Eq, Structural)]
pub enum Urgency {
    Low,
    Normal,
    Critical,
}

impl DeepView for Urgency {
    type V = Urgency;

    open spec fn deep_view(&self) -> Urgency {
        *self
    }
}

/// What the desktop is asked for to show a notification.
#[derive(Debug, PartialEq, Eq)]
pub struct NotificationPlan {
    pub summary: String,
    pub body: String,
    pub icon: Option<String>,
    pub urgency: Urgency,
    pub app_name: Option<String>,
    /// The sound to play; the desktop is asked not to play its own.
    pub sound_name: Option<String>,
    /// Whether there is a button to open what the notification is about.
    pub offers_open: bool,
    /// What to open when the user asks for it.
    pub opens: Option<String>,
}

/// What a [`NotificationPlan`] says: its texts as sequences of characters.
#[verifier::ext_equal]
pub struct NotificationPlanModel {
    pub summary: Seq<char>,
    pub body: Seq<char>,
    pub icon: Option<Seq<char>>,
    pub urgency: Urgency,
    pub app_name: Option<Seq<char>>,
    pub sound_name: Option<Seq<char>>,
    pub offers_open: bool,
    pub opens: Option<Seq<char>>,
}

impl DeepView for NotificationPlan {
    type V = NotificationPlanModel;

    open spec fn deep_view(&self) -> NotificationPlanModel {
        NotificationPlanModel {
            summary: self.summary@,
            body: self.body@,
            icon: self.icon.deep_view(),
            urgency: self.urgency,
            app_name: self.app_name.deep_view(),
            sound_name: self.sound_name.deep_view(),
            offers_open: self.offers_open,
            opens: self.opens.deep_view(),
        }
    }
}

impl Clone for NotificationPlan {
    fn clone(&self) -> (copy: Self)
        ensures
            copy.deep_view() == self.deep_view(),
    {
        let copy = NotificationPlan {
            summary: self.summary.clone(),
            body: self.body.clone(),
            icon: self.icon.clone(),
            urgency: self.urgency,
            app_name: self.app_name.clone(),
            sound_name: self.sound_name.clone(),
            offers_open: self.offers_open,
            opens: self.opens.clone(),
        };
        assert(copy.icon.deep_view() =~= self.icon.deep_view());
        assert(copy.app_name.deep_view() =~= self.app_name.deep_view());
        assert(copy.sound_name.deep_view() =~= self.sound_name.deep_view());
        assert(copy.opens.deep_view() =~= self.opens.deep_view());
        copy
    }
}

/// The urgency of an action.
pub open spec fn urgency_of(action: NotificationAction) -> Urgency {
    match action {
        NotificationAction::Notify => Urgency::Normal,
        NotificationAction::Silent => Urgency::Low,
        NotificationAction::Critical => Urgency::Critical,
    }
}

/// The urgency of an action.
pub fn map_urgency(action: NotificationAction) -> (r: Urgency)
    ensures
        r == urgency_of(action),
{
    match action {
        NotificationAction::Notify => Urgency::Normal,
        NotificationAction::Silent => Urgency::Low,
        NotificationAction::Critical => Urgency::Critical,
    }
}

/// Shows notifications on the desktop, with or without a way to open what they are about.
#[derive(Clone, Copy, Debug, PartialEq, Eq, Structural)]
pub struct NotifyRustBackend {
    pub handles_activation: bool,
}

impl Default for NotifyRustBackend {
    fn default() -> (backend: Self)
        ensures
            !backend.handles_activation,
    {
        NotifyRustBackend { handles_activation: false }
    }
}

impl NotifyRustBackend {
    /// A backend that only shows notifications.
    pub fn new() -> (backend: Self)
        ensures
            !backend.handles_activation,
    {
        NotifyRustBackend { handles_activation: false }
    }

    /// The backend with a way to open what notifications are about.
    pub fn with_activation_handler(self) -> (backend: Self)
        ensures
            backend.handles_activation,
    {
        NotifyRustBackend { handles_activation: true }
    }

    /// What the desktop is asked for to show a notification.
    pub fn plan(&self, request: &NotificationRequest) -> (r: NotificationPlan)
        ensures
            r.deep_view() == (NotificationPlanModel {
                summary: request.deep_view().summary,
                body: request.deep_view().body,
                icon: request.deep_view().icon,
                urgency: urgency_of(request.action),
                app_name: request.deep_view().category,
                sound_name: request.deep_view().sound_name,
                offers_open: request.default_action_target is Some,
                opens: if self.handles_activation {
                    request.deep_view().default_action_target
                } else {
                    None
                },
            }),
    {
        let copy = request.clone();
        let offers_open = copy.default_action_target.is_some();
        NotificationPlan {
            summary: copy.summary,
            body: copy.body,
            icon: copy.icon,
            urgency: map_urgency(request.action),
            app_name: copy.category,
            sound_name: copy.sound_name,
            offers_open,
            opens: if self.handles_activation {
                copy.default_action_target
            } else {
                None
            },
        }
    }
}

/// The file of a sound of the desktop.
pub fn sound_file_path(sound_name: &str) -> (r: String)
    ensures
        r@ == "/usr/share/sounds/freedesktop/stereo/"@ + sound_name@ + ".oga"@,
{
    let mut path = owned("/usr/share/sounds/freedesktop/stereo/");
    path.append(sound_name);
    path.append(".oga");
    path
}

/// Why a store of secrets did not do what it was asked.
#[derive(Debug, PartialEq, Eq)]
pub struct SecretStoreError {
    pub message: String,
}

/// Secrets, by account.
pub type Secrets = Seq<(Seq<char>, Seq<char>)>;

/// An account or a secret, as contracts speak of it.
pub type SecretText = Seq<char>;

/// A store of secrets, by account. What becomes of an account is promised where the store
/// succeeds; the secrets of other accounts stay whatever it answers.
///
/// What a store answers may depend on more than its secrets. So each method has a relation that
/// ties the store before the call, the arguments and the answer to the store after the call: who
/// knows that it holds knows that the call was made.
pub trait SecretStore {
    /// The secrets, by account.
    spec fn secrets(&self) -> Secrets;

    /// Whether the store can answer so, and be left so, when it is to keep a secret.
    spec fn sets(
        &self,
        account: SecretText,
        secret: SecretText,
        after: &Self,
        answer: Result<(), SecretStoreError>,
    ) -> bool;

    /// Whether the store can answer so when it is asked for a secret.
    spec fn gets(
        &self,
        account: SecretText,
        answer: Result<Option<String>, SecretStoreError>,
    ) -> bool;

    /// Whether the store can answer so, and be left so, when it is to forget a secret.
    spec fn deletes(
        &self,
        account: SecretText,
        after: &Self,
        answer: Result<(), SecretStoreError>,
    ) -> bool;

    /// Keeps the secret of an account.
    fn set_secret(&mut self, account: &str, secret: &str) -> (r: Result<(), SecretStoreError>)
        ensures
            old(self).sets(account@, secret@, final(self), r),
            r is Ok ==> final(self).secrets() == bind(old(self).secrets(), account@, secret@),
            others_stay(old(self).secrets(), final(self).secrets(), account@),
    ;

    /// The secret of an account.
    fn get_secret(&self, account: &str) -> (r: Result<Option<String>, SecretStoreError>)
        ensures
            self.gets(account@, r),
            r matches Ok(found) ==> found.deep_view() == lookup(self.secrets(), account@),
    ;

    /// Forgets the secret of an account.
    fn delete_secret(&mut self, account: &str) -> (r: Result<(), SecretStoreError>)
        ensures
            old(self).deletes(account@, final(self), r),
            r is Ok ==> final(self).secrets() == unbind(old(self).secrets(), account@),
            others_stay(old(self).secrets(), final(self).secrets(), account@),
    ;
}

/// Whether the secrets of all accounts but one are the same.
pub open spec fn others_stay(before: Secrets, after: Secrets, account: Seq<char>) -> bool {
    forall|other: Seq<char>|
        other != account ==> #[trigger] lookup(after, other) == lookup(before, other)
}

/// A store that forgets its secrets when the program ends.
#[derive(Debug)]
pub struct InMemorySecretStore {
    inner: TextMap<String>,
}

impl Default for InMemorySecretStore {
    fn default() -> (store: Self)
        ensures
            store.secrets() == Seq::<(Seq<char>, Seq<char>)>::empty(),
    {
        InMemorySecretStore { inner: TextMap::new() }
    }
}

impl SecretStore for InMemorySecretStore {
    closed spec fn secrets(&self) -> Secrets {
        self.inner.deep_view()
    }

    open spec fn sets(
        &self,
        account: SecretText,
        secret: SecretText,
        after: &Self,
        answer: Result<(), SecretStoreError>,
    ) -> bool {
        answer is Ok && after.secrets() == bind(self.secrets(), account, secret)
    }

    open spec fn gets(
        &self,
        account: SecretText,
        answer: Result<Option<String>, SecretStoreError>,
    ) -> bool {
        answer matches Ok(found) && found.deep_view() == lookup(self.secrets(), account)
    }

    open spec fn deletes(
        &self,
        account: SecretText,
        after: &Self,
        answer: Result<(), SecretStoreError>,
    ) -> bool {
        answer is Ok && after.secrets() == unbind(self.secrets(), account)
    }

    fn set_secret(&mut self, account: &str, secret: &str) -> (r: Result<(), SecretStoreError>)
    {
        self.inner.insert(owned(account), owned(secret));
        assert forall|other: Seq<char>| other != account@ implies #[trigger] lookup(
            self.secrets(),
            other,
        ) == lookup(old(self).secrets(), other) by {
            law_secrets_read_back(old(self).secrets(), account@, secret@, other);
        }
        Ok(())
    }

    fn get_secret(&self, account: &str) -> (r: Result<Option<String>, SecretStoreError>)
    {
        match self.inner.get(account) {
            Some(secret) => Ok(Some(secret.clone())),
            None => Ok(None),
        }
    }

    fn delete_secret(&mut self, account: &str) -> (r: Result<(), SecretStoreError>)
    {
        self.inner.remove(account);
        assert forall|other: Seq<char>| other != account@ implies #[trigger] lookup(
            self.secrets(),
            other,
        ) == lookup(old(self).secrets(), other) by {
            law_deleted_secrets_are_gone(old(self).secrets(), account@, other);
        }
        Ok(())
    }
}

/// What is read of an account is what was last written to it; other accounts are not touched.
pub proof fn law_secrets_read_back(
    secrets: Secrets,
    account: Seq<char>,
    secret: Seq<char>,
    other: Seq<char>,
)
    ensures
        lookup(bind(secrets, account, secret), account) == Some(secret),
        other != account ==> lookup(bind(secrets, account, secret), other) == lookup(
            secrets,
            other,
        ),
{
    lemma_lookup_bind(secrets, account, secret, account);
    lemma_lookup_bind(secrets, account, secret, other);
}

/// A secret that is deleted is not read any more; other accounts are not touched.
pub proof fn law_deleted_secrets_are_gone(secrets: Secrets, account: Seq<char>, other: Seq<char>)
    ensures
        lookup(unbind(secrets, account), account) is None,
        other != account ==> lookup(unbind(secrets, account), other) == lookup(secrets, other),
    decreases secrets.len(),
{
    crate::collections::lemma_lookup_unbind(secrets, account, other);
    crate::collections::lemma_lookup_unbind(secrets, account, account);
}

} // verus!
