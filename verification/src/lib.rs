//! A store for quality-control review sessions, the per-image records made in
//! them and the settings of the application, with the analytics drawn from
//! the records. Every operation is specified against a mathematical model of
//! the database and proved to follow it.

pub mod analytics;
pub mod error;
pub mod files;
pub mod laws;
pub mod location;
pub mod model;
pub mod order;
pub mod record;
pub mod session;
pub mod settings;
pub mod store;
pub mod text;

pub use analytics::{
    get_analytics_data, get_analytics_records, is_active, AnalyticsRecord, AnalyticsSummary,
    MeanTime,
};
pub use error::{ErrorKind, Operation, StoreError};
pub use location::{
    checked_database_path, database_path_in, get_database_path, APPLICATION, DATABASE_FILE,
    ORGANIZATION, QUALIFIER,
};
pub use model::{JournalMode, ACTIVE_LIMIT_MILLIS};
pub use record::{save_qc_record, QcRecord, SaveQcRecordPayload};
pub use session::{
    create_session, get_session_history, CreateSessionPayload, QcSession, SessionSummary,
};
pub use settings::{load_app_settings, save_app_setting, AppSetting, SettingEntry};
pub use store::{init_database, Database};
