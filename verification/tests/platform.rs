use slaxide::auth::keyring_account_for;
use slaxide::platform::{
    map_urgency, sound_file_path, InMemorySecretStore, NotificationRequest, NotifyRustBackend,
    SecretStore, SecretStoreError, SecretText, Secrets, Urgency,
};
use slaxide::sessions::{session_step, SessionStep, SlackAuthController};
use slaxide::settings::NotificationAction;
use slaxide::time::Timestamp;

#[test]
fn in_memory_secret_store_round_trips() {
    let mut store = InMemorySecretStore::default();
    store.set_secret("workspace", "token").unwrap();

    assert_eq!(
        store.get_secret("workspace").unwrap().as_deref(),
        Some("token")
    );

    store.delete_secret("workspace").unwrap();
    assert_eq!(store.get_secret("workspace").unwrap(), None);
}

#[test]
fn urgency_mapping_matches_notification_action() {
    let request = NotificationRequest {
        summary: "Focus".into(),
        body: "Ship room".into(),
        action: NotificationAction::Critical,
        icon: None,
        category: None,
        sound_name: Some("message-new-instant".into()),
        default_action_target: Some("1".into()),
    };

    assert_eq!(map_urgency(request.action), Urgency::Critical);
}

#[test]
fn secrets_of_other_accounts_stay() {
    let mut store = InMemorySecretStore::default();
    store.set_secret("one", "1").unwrap();
    store.set_secret("two", "2").unwrap();
    store.set_secret("one", "3").unwrap();
    store.delete_secret("two").unwrap();

    assert_eq!(store.get_secret("one").unwrap().as_deref(), Some("3"));
    assert_eq!(store.get_secret("two").unwrap(), None);
}

#[test]
fn notifications_open_what_they_are_about() {
    let request = NotificationRequest {
        summary: "Focus".into(),
        body: "Ship room".into(),
        action: NotificationAction::Silent,
        icon: None,
        category: None,
        sound_name: None,
        default_action_target: Some("1".into()),
    };

    let plan = NotifyRustBackend::new().with_activation_handler().plan(&request);
    assert_eq!(plan.urgency, Urgency::Low);
    assert!(plan.offers_open);
    assert_eq!(plan.opens.as_deref(), Some("1"));
    assert_eq!(NotifyRustBackend::new().plan(&request).opens, None);
    assert_eq!(
        sound_file_path("message-new-instant"),
        "/usr/share/sounds/freedesktop/stereo/message-new-instant.oga"
    );
}

#[test]
fn sessions_are_kept_by_workspace() {
    let mut controller = SlackAuthController::new(InMemorySecretStore::default());
    assert_eq!(controller.load_session_for("default"), Ok(None));
    assert_eq!(controller.save_session_for("default", "one"), Ok(()));
    assert_eq!(controller.save_session_for("T2", "two"), Ok(()));
    assert_eq!(controller.load_session_for("default"), Ok(Some("one".to_string())));
    assert_eq!(controller.load_session_for("T2"), Ok(Some("two".to_string())));
    assert!(controller.clear_session_for("default").is_ok());
    assert_eq!(controller.load_session_for("default"), Ok(None));
    assert_eq!(controller.load_session_for("T2"), Ok(Some("two".to_string())));
}

#[test]
fn a_workspace_without_a_session_has_nothing_to_refresh() {
    let now = Timestamp { seconds: 1_700_000_000, nanos: 0 };
    assert_eq!(session_step(&None, true, now), SessionStep::Absent);
}

/// A store that is locked.
struct LockedStore {
    asked: Vec<String>,
}

fn locked() -> SecretStoreError {
    SecretStoreError { message: "locked".into() }
}

impl SecretStore for LockedStore {
    fn secrets(&self) -> Secrets {
        unreachable!()
    }

    fn sets(
        &self,
        _account: SecretText,
        _secret: SecretText,
        _after: &Self,
        _answer: Result<(), SecretStoreError>,
    ) -> bool {
        unreachable!()
    }

    fn gets(
        &self,
        _account: SecretText,
        _answer: Result<Option<String>, SecretStoreError>,
    ) -> bool {
        unreachable!()
    }

    fn deletes(
        &self,
        _account: SecretText,
        _after: &Self,
        _answer: Result<(), SecretStoreError>,
    ) -> bool {
        unreachable!()
    }

    fn set_secret(&mut self, account: &str, _secret: &str) -> Result<(), SecretStoreError> {
        self.asked.push(account.into());
        Err(locked())
    }

    fn get_secret(&self, _account: &str) -> Result<Option<String>, SecretStoreError> {
        Err(locked())
    }

    fn delete_secret(&mut self, account: &str) -> Result<(), SecretStoreError> {
        self.asked.push(account.into());
        Err(locked())
    }
}

#[test]
fn failures_of_the_store_are_told() {
    let mut controller = SlackAuthController::new(LockedStore { asked: vec![] });

    assert_eq!(controller.clear_session_for("T1"), Err(locked()));
    assert_eq!(controller.secret_store.asked, vec![keyring_account_for("T1")]);
    assert_eq!(
        controller.save_session_for("T1", "{}"),
        Err("failed to write Slack auth to secret store".to_string())
    );
    assert_eq!(
        controller.load_session_for("T1"),
        Err("failed to read Slack auth from secret store".to_string())
    );
}
