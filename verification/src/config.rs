//! The persisted configuration: the fields the form edits, their defaults,
//! and the clamp applied to the thread-count field.

use vstd::prelude::*;

verus! {

/// Smallest thread count the form accepts.
pub const MIN_THREADS: u32 = 1;

/// Largest thread count the form accepts.
pub const MAX_THREADS: u32 = 256;

/// Everything the GUI persists between sessions: the two chosen paths, the
/// manually entered decryption key, the thread count handed to the tool, and
/// whether the tool should detect the key itself.
pub struct AppConfig {
    pub iso_path: String,
    pub decryption_key: String,
    pub thread_count: u32,
    pub auto: bool,
    pub ps3dec_path: String,
}

/// The mathematical content of an [`AppConfig`]: each string field as a
/// sequence of characters.
pub struct ConfigView {
    pub iso_path: Seq<char>,
    pub decryption_key: Seq<char>,
    pub thread_count: u32,
    pub auto: bool,
    pub ps3dec_path: Seq<char>,
}

impl View for AppConfig {
    type V = ConfigView;

    open spec fn view(&self) -> ConfigView {
        ConfigView {
            iso_path: self.iso_path@,
            decryption_key: self.decryption_key@,
            thread_count: self.thread_count,
            auto: self.auto,
            ps3dec_path: self.ps3dec_path@,
        }
    }
}

/// The configuration used when no persisted file exists or it fails to
/// parse: empty paths and key, one thread, automatic detection off.
pub open spec fn default_config_view() -> ConfigView {
    ConfigView {
        iso_path: Seq::empty(),
        decryption_key: Seq::empty(),
        thread_count: MIN_THREADS,
        auto: false,
        ps3dec_path: Seq::empty(),
    }
}

impl Default for AppConfig {
    /// The documented fallback configuration.
    fn default() -> (c: AppConfig)
        ensures
            c@ == default_config_view(),
    {
        let c = AppConfig {
            iso_path: String::new(),
            decryption_key: String::new(),
            thread_count: MIN_THREADS,
            auto: false,
            ps3dec_path: String::new(),
        };
        c
    }
}

/// What the thread-count field stores for an attempted entry `n`.
pub open spec fn spec_clamp_thread_count(n: u32) -> u32 {
    if n < MIN_THREADS {
        MIN_THREADS
    } else if n > MAX_THREADS {
        MAX_THREADS
    } else {
        n
    }
}

/// Clamps an attempted thread-count entry into the accepted range.
pub fn clamp_thread_count(n: u32) -> (r: u32)
    ensures
        r == spec_clamp_thread_count(n),
        MIN_THREADS <= r <= MAX_THREADS,
{
    if n < MIN_THREADS {
        MIN_THREADS
    } else if n > MAX_THREADS {
        MAX_THREADS
    } else {
        n
    }
}

} // verus!
