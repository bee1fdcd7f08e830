//! Ingest-and-file engine for a managed music library: naming, source
//! provenance, relocation plans, quarantine, reconciliation and watcher
//! supervision. Each module states its behaviour over spec functions on
//! character sequences; the laws of the engine stand beside the functions
//! they relate as public proof functions.

pub mod console;
pub mod error;
pub mod item;
pub mod mover;
pub mod naming;
pub mod paths;
pub mod quarantine;
pub mod reconcile;
pub mod supervisor;
pub mod text;

pub use console::{
    ingest_action, parse_command, parse_trimmed_command, ConsoleCommand, IngestAction,
};
pub use error::Error;
pub use item::Item;
pub use mover::{move_new_track, move_track, require_tags, MovePlan};
pub use naming::{
    get_iterative_filename, get_track_directory, get_track_filename, join_album_artists,
    join_path,
};
pub use paths::{
    get_auto_add_folder, get_extension, get_file_name, get_file_stem, get_parent, get_source,
    get_track_extension, is_in_hidden_path,
};
pub use quarantine::{
    format_date, get_not_added_directory, move_non_track, quarantine_error,
    today, todays_not_added_directory, CalendarDate, FOUR_DIGIT_YEARS_END,
};
pub use reconcile::{cleanup_directories, reconsider_track, track_warrants_move, Reconsideration};
pub use supervisor::{
    initial_state, supervisor_step, Command, Notice, SupervisorEvent, SupervisorState, WatchStatus,
};
pub use text::{is_invalid_for_path, sanitize_file_name};
