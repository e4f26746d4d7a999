//! Query-driven launcher engine: mode dispatch, application matching,
//! filesystem path resolution, and the selectable result list.
//!
//! Everything that touches the outside world (enumerating applications,
//! reading directories, launching, drawing widgets) is left to the caller,
//! which feeds plain values in and carries out the returned effects.

pub mod apps;
pub mod files;
pub mod icons;
pub mod mask;
pub mod modes;
pub mod results;
pub mod session;
pub mod text;

pub use apps::{AppEntry, AppResults, Catalog};
pub use files::{DirEntry, FileBrowser, Lookup};
pub use icons::{get_icon_name_from_path, same_text};
pub use modes::Mode;
pub use results::{Candidate, Direction, SearchResults};
pub use session::{AppMode, Effect, Key, SearchWindow};
pub use text::{contains, expand_home, starts_with_char};
