use std::collections::BTreeMap;

use weechatrs::kwallet::{
    advance, begin, service, service_failed, service_path, ServiceStep, WalletCall, WalletReply,
    WalletStep, WalletTask,
};
use weechatrs::secure_storage::{
    load, load_by_key, load_by_key_status, load_profile_password, load_status, user_key,
    EntryReply, LoadResult,
};

/// A wallet that answers the calls from memory.
struct MockWallet {
    entries: BTreeMap<String, String>,
    folder: bool,
    open_result: i32,
    write_result: i32,
    remove_result: i32,
}

impl MockWallet {
    fn ready() -> Self {
        Self {
            entries: BTreeMap::new(),
            folder: false,
            open_result: 7,
            write_result: 0,
            remove_result: 0,
        }
    }

    fn answer(&mut self, call: WalletCall, key: &str, password: &str) -> WalletReply {
        match call {
            WalletCall::Open => WalletReply::Number(self.open_result),
            WalletCall::HasFolder(_) => WalletReply::Flag(self.folder),
            WalletCall::CreateFolder(_) => {
                self.folder = true;
                WalletReply::Flag(true)
            }
            WalletCall::HasEntry(_) => WalletReply::Flag(self.entries.contains_key(key)),
            WalletCall::ReadPassword(_) => {
                WalletReply::Text(self.entries.get(key).cloned().unwrap_or_default())
            }
            WalletCall::WritePassword(handle) => {
                assert_eq!(handle, 7);
                if self.write_result == 0 {
                    self.entries.insert(key.to_owned(), password.to_owned());
                }
                WalletReply::Number(self.write_result)
            }
            WalletCall::RemoveEntry(handle) => {
                assert_eq!(handle, 7);
                if self.remove_result == 0 {
                    self.entries.remove(key);
                }
                WalletReply::Number(self.remove_result)
            }
        }
    }

    fn run(
        &mut self,
        task: WalletTask,
        key: &str,
        password: &str,
    ) -> Result<Option<String>, String> {
        let mut call = begin();
        loop {
            let reply = self.answer(call, key, password);
            match advance(task, call, reply) {
                WalletStep::Call(next) => call = next,
                WalletStep::Done(result) => return result,
            }
        }
    }

    fn load(&mut self, key: &str) -> Result<Option<String>, String> {
        self.run(WalletTask::Load, key, "")
    }

    fn save(&mut self, key: &str, password: &str) -> Result<Option<String>, String> {
        self.run(WalletTask::Save, key, password)
    }

    fn delete(&mut self, key: &str) -> Result<Option<String>, String> {
        self.run(WalletTask::Delete, key, "")
    }
}

#[test]
fn mocked_kwallet_save_load_delete_and_missing() {
    let mut client = MockWallet::ready();
    assert_eq!(client.load("profile:9000").unwrap(), None);
    client.save("profile:9000", "saved-password").unwrap();
    assert_eq!(
        client.load("profile:9000").unwrap(),
        Some("saved-password".into())
    );
    client.delete("profile:9000").unwrap();
    assert_eq!(client.load("profile:9000").unwrap(), None);
}

#[test]
fn mocked_kwallet_uses_the_kde5_service_and_path_when_kde6_is_absent() {
    let mut errors = Vec::new();
    assert_eq!(service(0), "org.kde.kwalletd6");
    assert_eq!(service_path(0), "/modules/kwalletd6");
    match service_failed(0, "no such name", &mut errors) {
        ServiceStep::Ask(next) => {
            assert_eq!(service(next), "org.kde.kwalletd5");
            assert_eq!(service_path(next), "/modules/kwalletd5");
            assert_eq!(MockWallet::ready().load("profile:9000").unwrap(), None);
        }
        ServiceStep::Unavailable(error) => panic!("gave up: {error}"),
    }
}

#[test]
fn both_missing_services_are_reported() {
    let mut errors = Vec::new();
    service_failed(0, "first error", &mut errors);
    match service_failed(1, "second error", &mut errors) {
        ServiceStep::Ask(_) => panic!("there is no third service"),
        ServiceStep::Unavailable(error) => {
            assert!(error.contains("first error"));
            assert!(error.contains("second error"));
        }
    }
}

#[test]
fn mocked_kwallet_surfaces_open_and_return_code_errors() {
    let mut unavailable = MockWallet::ready();
    unavailable.open_result = -1;
    assert!(unavailable
        .load("profile:9000")
        .unwrap_err()
        .contains("open returned -1"));

    let mut write_failure = MockWallet::ready();
    write_failure.write_result = 23;
    assert!(write_failure
        .save("profile:9000", "password")
        .unwrap_err()
        .contains("writePassword returned 23"));

    let mut remove_failure = MockWallet::ready();
    remove_failure.remove_result = 29;
    remove_failure
        .entries
        .insert("profile:9000".into(), "password".into());
    assert!(remove_failure
        .delete("profile:9000")
        .unwrap_err()
        .contains("removeEntry returned 29"));
}

#[test]
fn failed_calls_end_the_request() {
    assert!(matches!(
        advance(
            WalletTask::Load,
            begin(),
            WalletReply::Failed("bus is gone".to_owned())
        ),
        WalletStep::Done(Err(error)) if error == "bus is gone"
    ));
    assert!(matches!(
        advance(
            WalletTask::Save,
            WalletCall::CreateFolder(7),
            WalletReply::Flag(false)
        ),
        WalletStep::Done(Err(error))
            if error == "KWallet could not create the weechat-rs folder"
    ));
}

#[test]
fn a_locked_store_is_not_a_missing_password() {
    assert_eq!(user_key("example.org", "9001"), "example.org:9001");
    assert_eq!(
        load_by_key_status(EntryReply::Password("x".to_owned())),
        LoadResult::Found("x".to_owned())
    );
    assert_eq!(load_status(EntryReply::NoEntry), LoadResult::Missing);
    assert_eq!(
        load_by_key_status(EntryReply::Failed("locked".to_owned())),
        LoadResult::Unavailable("locked".to_owned())
    );
    assert!(matches!(
        load_by_key_status(EntryReply::Lost),
        LoadResult::Unavailable(_)
    ));
    assert_eq!(load(LoadResult::Unavailable("locked".to_owned())), None);
    assert_eq!(
        load_by_key(LoadResult::Found("x".to_owned())),
        Some("x".to_owned())
    );
    assert_eq!(
        load_profile_password(LoadResult::Missing, LoadResult::Found("y".to_owned())),
        Some("y".to_owned())
    );
}
