//! What a hosting runtime's change of configuration means for the streamer
//! that runs as its plugin.

use crate::json::{member_named, Json, JsonView};
use vstd::prelude::*;

verus! {

/// The selector that the plugin starts with where its configuration names
/// none.
pub const DEFAULT_SELECTOR: &'static str = "demo/example/**";

/// The name of the one option that the plugin knows.
pub const STORAGE_SELECTOR: &'static str = "storage-selector";

/// Mathematical value of a [`ConfigChange`].
pub enum ConfigChangeView {
    Restart { selector: Seq<char> },
    Unknown { stop: bool },
    NotAString,
}

/// What to do about a change of the plugin's configuration.
#[derive(Debug)]
pub enum ConfigChange {
    /// The change is accepted: stop the running loop and start one on
    /// `selector`.
    Restart { selector: String },
    /// The change is refused as an unknown option. Where `stop` holds the
    /// running loop is stopped all the same, because the selector is gone.
    Unknown { stop: bool },
    /// The change is refused: the selector must be a string.
    NotAString,
}

impl View for ConfigChange {
    type V = ConfigChangeView;

    open spec fn view(&self) -> ConfigChangeView {
        match self {
            ConfigChange::Restart { selector } => ConfigChangeView::Restart { selector: selector@ },
            ConfigChange::Unknown { stop } => ConfigChangeView::Unknown { stop: *stop },
            ConfigChange::NotAString => ConfigChangeView::NotAString,
        }
    }
}

/// Whether a change at `path` is about the selector: it is where the path
/// names the selector, or names nothing.
pub open spec fn concerns_selector(path: Seq<char>) -> bool {
    path == STORAGE_SELECTOR@ || path.len() == 0
}

/// What a change at `path` from the configuration `old` to `new` means.
///
/// A change that is not about the selector is unknown. One that is about it
/// is read off the selector of `new`: no selector stops the loop, a string
/// other than the string in `old` restarts it, the same string changes
/// nothing, and anything but a string is refused.
pub open spec fn config_change_of(path: Seq<char>, old: JsonView, new: JsonView) -> ConfigChangeView {
    if !concerns_selector(path) {
        ConfigChangeView::Unknown { stop: false }
    } else {
        match member_named(new.members(), STORAGE_SELECTOR@) {
            None => ConfigChangeView::Unknown { stop: true },
            Some(JsonView::Text(selector)) => {
                if member_named(old.members(), STORAGE_SELECTOR@) == Some(JsonView::Text(selector)) {
                    ConfigChangeView::Unknown { stop: false }
                } else {
                    ConfigChangeView::Restart { selector }
                }
            },
            Some(_) => ConfigChangeView::NotAString,
        }
    }
}

/// Decides what a change at `path` from the configuration `old` to `new`
/// means for the running plugin.
pub fn config_change(path: &str, old: &Json, new: &Json) -> (r: ConfigChange)
    ensures
        r@ == config_change_of(path@, old@, new@),
{
    let at = path.to_owned();
    let concerned = at == STORAGE_SELECTOR.to_owned() || path.is_empty();
    if !concerned {
        return ConfigChange::Unknown { stop: false };
    }
    match new.get(STORAGE_SELECTOR) {
        None => ConfigChange::Unknown { stop: true },
        Some(Json::Text(selector)) => {
            match old.get(STORAGE_SELECTOR) {
                Some(Json::Text(before)) => {
                    if *before == *selector {
                        ConfigChange::Unknown { stop: false }
                    } else {
                        ConfigChange::Restart { selector: selector.clone() }
                    }
                },
                _ => ConfigChange::Restart { selector: selector.clone() },
            }
        },
        Some(_) => ConfigChange::NotAString,
    }
}

} // verus!
