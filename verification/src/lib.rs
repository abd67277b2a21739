//! Decision core of Prunr, a background-removal application: batch and memory
//! management, settings routing, undo history, previews, presets, downloads and
//! the command line, without the inference itself and without I/O.
//!
//! * Plain values: [`pipeline`], [`pixmap`], [`single`], [`text`], [`paths`],
//!   [`tables`].
//! * Settings: [`item_settings`], [`knob_catalog`], [`brush_state`], [`settings`],
//!   [`presets`], [`presets_fs`], [`env_overrides`].
//! * Items and their history: [`item`], [`history_disk`], [`history_manager`],
//!   [`batch_manager`], [`imaging`].
//! * Work in progress: [`memory`], [`processor`], [`live_preview`],
//!   [`inpaint_bridge`], [`background_io`], [`animation_sweep`], [`download_manager`],
//!   [`checksum`].
//! * The command line: [`cli`], [`batch_run`], [`doctor`].
//! * The window: [`app_import`], [`app_process`], [`app_dispatch`], [`app_results`],
//!   [`app_toolbar`], [`app_view`], [`app_frame`], [`app_export`], [`drag_export`],
//!   [`drag_export_state`], [`hardware_cache`].
//! * Laws that span the window's operations: [`wholeness`].
pub mod animation_sweep;
pub mod app_dispatch;
pub mod app_export;
pub mod app_frame;
pub mod app_import;
pub mod app_process;
pub mod app_results;
pub mod app_toolbar;
pub mod app_view;
pub mod background_io;
pub mod batch_manager;
pub mod batch_run;
pub mod brush_state;
pub mod checksum;
pub mod cli;
pub mod doctor;
pub mod download_manager;
pub mod drag_export;
pub mod drag_export_state;
pub mod env_overrides;
pub mod hardware_cache;
pub mod history_disk;
pub mod history_manager;
pub mod imaging;
pub mod inpaint_bridge;
pub mod item;
pub mod item_settings;
pub mod knob_catalog;
pub mod live_preview;
pub mod memory;
pub mod paths;
pub mod pipeline;
pub mod pixmap;
pub mod presets;
pub mod presets_fs;
pub mod processor;
pub mod settings;
pub mod single;
pub mod tables;
pub mod text;
pub mod wholeness;
