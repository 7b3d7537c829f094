//! Messages exchanged between the shell hook (client) and the daemon.
//!
//! Communication happens over a Unix domain socket at
//! `$XDG_RUNTIME_DIR/tabra.sock` (or `/tmp/tabra-$UID.sock` as fallback),
//! one JSON object per line, one request and one response per connection.
use vstd::prelude::*;
use crate::spec::types::SuggestionType;
use crate::paths::{path_join, path_join_text};
use crate::text::{decimal, decimal_string, owned, push_str};

verus! {

/// The socket path: `tabra.sock` in the runtime directory when there is
/// one, else `/tmp/tabra-<uid>.sock`.
pub open spec fn socket_path_spec(runtime_dir: Option<Seq<char>>, uid: u32) -> Seq<char> {
    match runtime_dir {
        Some(d) => path_join_text(d, "tabra.sock"@),
        None => "/tmp/tabra-"@ + decimal(uid as nat) + ".sock"@,
    }
}

/// Get the Unix socket path for the daemon, given `$XDG_RUNTIME_DIR` (if
/// set) and the user id.
pub fn socket_path(runtime_dir: Option<&str>, uid: u32) -> (r: String)
    ensures
        r@ == socket_path_spec(
            match runtime_dir {
                Some(d) => Some(d@),
                None => None,
            },
            uid,
        ),
{
    match runtime_dir {
        Some(d) => path_join(d, "tabra.sock"),
        None => {
            let mut s = owned("/tmp/tabra-");
            let n = decimal_string(uid as u64);
            push_str(&mut s, n.as_str());
            push_str(&mut s, ".sock");
            s
        },
    }
}

/// Shell hook -> daemon.
#[derive(Debug, Clone)]
pub enum Request {
    /// Request completions for the current command line.
    Complete {
        /// The full command line buffer.
        buffer: String,
        /// Cursor position as a character index (not byte offset).
        cursor: usize,
        /// Current working directory.
        cwd: String,
        /// Terminal width in columns, when known.
        terminal_cols: Option<u16>,
    },
    /// User accepted a suggestion from the popup.
    Accept {
        /// The text to insert.
        text: String,
    },
    /// User dismissed the popup (Escape, Ctrl-C, etc).
    Dismiss,
    /// Health check.
    Status,
    /// Shutdown the daemon.
    Stop,
}

/// Daemon -> shell hook.
#[derive(Debug, Clone)]
pub enum Response {
    /// Completion results to display in the popup.
    Completions {
        /// Suggestions to show (already ranked).
        items: Vec<CompletionItem>,
        /// Index of the selected item (0 = first).
        selected: usize,
        /// The partial token these suggestions are filtering on.
        query: String,
        /// The popup pre-rendered as ANSI text.
        rendered_popup: Option<String>,
    },
    /// No completions available (hide popup if visible).
    Empty,
    /// Acknowledgement (for Accept, Dismiss).
    Ack,
    /// Daemon status information.
    StatusInfo {
        /// Number of loaded specs.
        specs_loaded: usize,
        /// Daemon uptime in seconds.
        uptime_secs: u64,
        /// Daemon PID.
        pid: u32,
    },
    /// Daemon is shutting down.
    Goodbye,
    /// Error message.
    Error { message: String },
}

/// What gets sent to the shell hook for rendering.
#[derive(Debug, Clone)]
pub struct CompletionItem {
    /// Text displayed in the popup.
    pub display: String,
    /// Text inserted on accept.
    pub insert: String,
    /// Description/help text.
    pub description: String,
    /// Kind (for icon rendering).
    pub kind: SuggestionType,
    /// Character indices of `display` that matched the query.
    pub match_indices: Vec<u32>,
    /// Whether this is dangerous.
    pub is_dangerous: bool,
}

pub struct ItemView {
    pub display: Seq<char>,
    pub insert: Seq<char>,
    pub description: Seq<char>,
    pub kind: SuggestionType,
    pub match_indices: Seq<u32>,
    pub is_dangerous: bool,
}

impl View for CompletionItem {
    type V = ItemView;

    open spec fn view(&self) -> ItemView {
        ItemView {
            display: self.display@,
            insert: self.insert@,
            description: self.description@,
            kind: self.kind,
            match_indices: self.match_indices@,
            is_dangerous: self.is_dangerous,
        }
    }
}

pub open spec fn item_views(s: Seq<CompletionItem>) -> Seq<ItemView> {
    s.map_values(|i: CompletionItem| i@)
}

} // verus!
