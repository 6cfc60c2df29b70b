//! Keyboard listener core: hotkey tracking, signal routing between the
//! listener's workers, the key log and the persisted key-press metric.

pub mod signals;
pub mod text;
pub mod hotkey;
pub mod clock;
pub mod metrics;
pub mod logger;
pub mod safe_term;
pub mod logic;
pub mod listener;

pub use signals::Signals;
pub use hotkey::HotKey;
pub use metrics::Metrics;
pub use logger::Logger;
pub use safe_term::SafeTerm;
pub use logic::{EventType, KeyEvent, Logic};
pub use listener::{analyze_signals, on_key_event, AnalyzerStep};
