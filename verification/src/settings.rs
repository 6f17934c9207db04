//! Application settings: a key, a value, and when the value was last written.

use vstd::prelude::*;
use crate::error::{spec_no_such_table, ErrorKind, ErrorView, Operation, StoreError};
use crate::model::{SettingPairView, SettingView};
use crate::store::Database;
use crate::text::copy_text;

verus! {

/// One setting as a caller sees it.
#[derive(Debug, PartialEq, Eq)]
pub struct AppSetting {
    pub key: String,
    pub value: String,
}

/// One setting as the store keeps it.
#[derive(Debug, PartialEq, Eq)]
pub struct SettingEntry {
    pub key: String,
    pub value: String,
    pub updated_at: String,
}

impl View for AppSetting {
    type V = SettingPairView;

    open spec fn view(&self) -> SettingPairView {
        SettingPairView { key: self.key@, value: self.value@ }
    }
}

impl View for SettingEntry {
    type V = SettingView;

    open spec fn view(&self) -> SettingView {
        SettingView { key: self.key@, value: self.value@, updated_at: self.updated_at@ }
    }
}

/// The settings of a listing as the model sees them.
pub open spec fn pair_views(rows: Seq<AppSetting>) -> Seq<SettingPairView> {
    rows.map_values(|s: AppSetting| s@)
}

impl Database {
    /// Where the setting with the given key stands in the settings table, if
    /// there is one.
    pub fn find_setting(&self, key: &String) -> (found: Option<usize>)
        ensures
            found is Some <==> self@.has_setting(key@),
            found matches Some(i) ==> i < self@.settings.len() && self@.settings[i as int].key
                == key@,
    {
        let mut i: usize = 0;
        while i < self.settings.len()
            invariant
                i <= self.settings.len(),
                forall|k: int| 0 <= k < i ==> (#[trigger] self@.settings[k]).key != key@,
            decreases self.settings.len() - i,
        {
            if self.settings[i].key == *key {
                assert(self@.settings[i as int].key == key@);
                return Some(i);
            }
            i = i + 1;
        }
        None
    }
}

/// Saves a setting at the time `now`. The last write to a key wins: a setting
/// that exists takes the new value, and a new key is added at the end.
pub fn save_app_setting(db: &mut Database, key: String, value: String, now: String) -> (result:
    Result<(), StoreError>)
    requires
        old(db)@.wf(),
    ensures
        final(db)@.wf(),
        result is Ok <==> old(db)@.initialized,
        result is Ok ==> final(db)@ == old(db)@.with_setting(key@, value@, now@),
        result matches Err(error) ==> final(db)@ == old(db)@ && error@ == (ErrorView {
            kind: ErrorKind::QueryExecError,
            operation: Operation::SaveAppSetting,
            cause: spec_no_such_table("app_settings"@),
        }),
{
    if !db.initialized {
        return Err(
            StoreError::no_such_table(
                ErrorKind::QueryExecError,
                Operation::SaveAppSetting,
                "app_settings",
            ),
        );
    }
    let ghost before = db@;
    let ghost wanted = SettingView { key: key@, value: value@, updated_at: now@ };
    let found = db.find_setting(&key);
    let entry = SettingEntry { key, value, updated_at: now };
    match found {
        Some(i) => {
            db.settings.set(i, entry);
            proof {
                let after = db@;
                let replace = |s: SettingView|
                    if s.key == wanted.key {
                        wanted
                    } else {
                        s
                    };
                assert forall|k: int| 0 <= k < before.settings.len() implies after.settings[k]
                    == replace(before.settings[k]) by {
                    if k < i {
                        assert(before.settings[k].key != before.settings[i as int].key);
                    } else if k > i {
                        assert(before.settings[i as int].key != before.settings[k].key);
                    }
                }
                assert(after.settings =~= before.settings.map_values(replace));
                assert(after.sessions == before.sessions);
                assert(after.records == before.records);
            }
        },
        None => {
            db.settings.push(entry);
            proof {
                let after = db@;
                assert(after.settings =~= before.settings.push(wanted));
                assert(after.sessions == before.sessions);
                assert(after.records == before.records);
            }
        },
    }
    Ok(())
}

/// Every setting as a pair of key and value, in the order in which the keys
/// were first written.
pub fn load_app_settings(db: &Database) -> (result: Result<Vec<AppSetting>, StoreError>)
    ensures
        result is Ok <==> db@.initialized,
        result matches Ok(settings) ==> pair_views(settings@) == db@.setting_pairs(),
        result matches Err(error) ==> error@ == (ErrorView {
            kind: ErrorKind::QueryPrepareError,
            operation: Operation::LoadAppSettings,
            cause: spec_no_such_table("app_settings"@),
        }),
{
    if !db.initialized {
        return Err(
            StoreError::no_such_table(
                ErrorKind::QueryPrepareError,
                Operation::LoadAppSettings,
                "app_settings",
            ),
        );
    }
    let mut settings: Vec<AppSetting> = Vec::new();
    let mut i: usize = 0;
    while i < db.settings.len()
        invariant
            i <= db.settings.len(),
            settings@.len() == i,
            forall|k: int| 0 <= k < i ==> (#[trigger] settings@[k])@ == (SettingPairView {
                key: db@.settings[k].key,
                value: db@.settings[k].value,
            }),
        decreases db.settings.len() - i,
    {
        let entry = &db.settings[i];
        settings.push(AppSetting { key: copy_text(&entry.key), value: copy_text(&entry.value) });
        i = i + 1;
    }
    proof {
        assert(pair_views(settings@) =~= db@.setting_pairs());
    }
    Ok(settings)
}

} // verus!
