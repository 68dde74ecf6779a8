//! A queryable view of the configured components of a pipeline, and a feed
//! of the components that appear and disappear when the configuration is
//! reloaded.
//!
//! A query filters the components of a snapshot ([`filter`]), sorts what is
//! left ([`sort`]) and returns one page of it ([`relay`]). A reload
//! ([`config`]) replaces the snapshot held by the store ([`state`]) and
//! publishes the difference ([`notify`]).

pub mod component;
pub mod config;
pub mod filter;
pub mod notify;
pub mod query;
pub mod relay;
pub mod seqs;
pub mod sink;
pub mod sort;
pub mod sortable;
pub mod source;
pub mod state;
pub mod subscription;
pub mod text;
pub mod transform;

pub use component::{Component, ComponentKey, ComponentKind, DataType, OutputId};
pub use config::{update_config, Config};
pub use filter::{filter_items, ComponentsFilter};
pub use notify::{ComponentChanged, Notifier};
pub use query::ComponentsQuery;
pub use sort::ComponentsSortFieldName;
pub use state::{Snapshot, State};
pub use subscription::ComponentsSubscription;
