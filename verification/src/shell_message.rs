//! The messages the settings shell posts to the daemon, and the action each
//! one asks for: a wallpaper assignment, a configuration or wallpaper
//! property update, a cache clear, a backend setting, or an editable value
//! or preview of a wallpaper.
use vstd::prelude::*;
use crate::json::{Json, JsonV, NumberV};
use crate::text::{str_eq, string_from_str, to_lowercase, unicode_lower, trim, chars_of, chars_trim, text_views};

verus! {

/// A message of the shell, as it arrives (its `type` is its kind).
pub struct ShellMessage {
    pub kind: String,
    pub addon_id: Option<String>,
    pub wallpaper_id: Option<String>,
    pub monitor_ids: Option<Vec<String>>,
    pub monitor_indexes: Option<Vec<String>>,
    pub path: Option<String>,
    pub value: Option<Json>,
    pub property: Option<String>,
    pub key: Option<String>,
    pub manifest_path: Option<String>,
}

pub struct ShellMessageV {
    pub kind: Seq<char>,
    pub addon_id: Option<Seq<char>>,
    pub wallpaper_id: Option<Seq<char>>,
    pub monitor_ids: Option<Seq<Seq<char>>>,
    pub monitor_indexes: Option<Seq<Seq<char>>>,
    pub path: Option<Seq<char>>,
    pub value: Option<JsonV>,
    pub property: Option<Seq<char>>,
    pub key: Option<Seq<char>>,
    pub manifest_path: Option<Seq<char>>,
}

pub open spec fn opt_text(o: Option<String>) -> Option<Seq<char>> {
    match o {
        Some(t) => Some(t@),
        None => None,
    }
}

pub open spec fn opt_texts(o: Option<Vec<String>>) -> Option<Seq<Seq<char>>> {
    match o {
        Some(v) => Some(text_views(v@)),
        None => None,
    }
}

impl ShellMessage {
    pub open spec fn view(&self) -> ShellMessageV {
        ShellMessageV {
            kind: self.kind@,
            addon_id: opt_text(self.addon_id),
            wallpaper_id: opt_text(self.wallpaper_id),
            monitor_ids: opt_texts(self.monitor_ids),
            monitor_indexes: opt_texts(self.monitor_indexes),
            path: opt_text(self.path),
            value: match self.value {
                Some(v) => Some(v.view()),
                None => None,
            },
            property: opt_text(self.property),
            key: opt_text(self.key),
            manifest_path: opt_text(self.manifest_path),
        }
    }
}

/// A backend setting the shell changes.
pub enum BackendSetting {
    FastPullRate(u64),
    SlowPullRate(u64),
    PullPaused(bool),
    RefreshOnRequest(bool),
}

/// What a shell message asks of the daemon.
pub enum ShellAction {
    ApplyAssignment { addon_id: String, wallpaper_id: String, monitor_ids: Vec<String>, monitor_indexes: Vec<String> },
    ConfigUpdate { addon_id: String, path: String, value: Json },
    UpdateProperty { addon_id: String, monitor_indexes: Vec<String>, property: String, value: Json },
    ClearCache { addon_id: String },
    Backend(BackendSetting),
    SaveEditable { manifest_path: String, key: String, value: Json },
    CapturePreview { manifest_path: String },
    /// Nothing to do: an unknown kind or setting, a blank wallpaper id, or
    /// a setting value of the wrong kind.
    Ignore,
}

pub enum ShellActionV {
    ApplyAssignment {
        addon_id: Seq<char>,
        wallpaper_id: Seq<char>,
        monitor_ids: Seq<Seq<char>>,
        monitor_indexes: Seq<Seq<char>>,
    },
    ConfigUpdate { addon_id: Seq<char>, path: Seq<char>, value: JsonV },
    UpdateProperty { addon_id: Seq<char>, monitor_indexes: Seq<Seq<char>>, property: Seq<char>, value: JsonV },
    ClearCache { addon_id: Seq<char> },
    Backend(BackendSetting),
    SaveEditable { manifest_path: Seq<char>, key: Seq<char>, value: JsonV },
    CapturePreview { manifest_path: Seq<char> },
    Ignore,
}

impl ShellAction {
    pub open spec fn view(&self) -> ShellActionV {
        match self {
            ShellAction::ApplyAssignment { addon_id, wallpaper_id, monitor_ids, monitor_indexes } => {
                ShellActionV::ApplyAssignment {
                    addon_id: addon_id@,
                    wallpaper_id: wallpaper_id@,
                    monitor_ids: text_views(monitor_ids@),
                    monitor_indexes: text_views(monitor_indexes@),
                }
            },
            ShellAction::ConfigUpdate { addon_id, path, value } => ShellActionV::ConfigUpdate {
                addon_id: addon_id@,
                path: path@,
                value: value.view(),
            },
            ShellAction::UpdateProperty { addon_id, monitor_indexes, property, value } => ShellActionV::UpdateProperty {
                addon_id: addon_id@,
                monitor_indexes: text_views(monitor_indexes@),
                property: property@,
                value: value.view(),
            },
            ShellAction::ClearCache { addon_id } => ShellActionV::ClearCache { addon_id: addon_id@ },
            ShellAction::Backend(b) => ShellActionV::Backend(*b),
            ShellAction::SaveEditable { manifest_path, key, value } => ShellActionV::SaveEditable {
                manifest_path: manifest_path@,
                key: key@,
                value: value.view(),
            },
            ShellAction::CapturePreview { manifest_path } => ShellActionV::CapturePreview {
                manifest_path: manifest_path@,
            },
            ShellAction::Ignore => ShellActionV::Ignore,
        }
    }
}

pub open spec fn text_or_empty(o: Option<Seq<char>>) -> Seq<char> {
    match o {
        Some(t) => t,
        None => Seq::empty(),
    }
}

pub open spec fn texts_or_empty(o: Option<Seq<Seq<char>>>) -> Seq<Seq<char>> {
    match o {
        Some(t) => t,
        None => Seq::empty(),
    }
}

pub open spec fn value_or_null(o: Option<JsonV>) -> JsonV {
    match o {
        Some(v) => v,
        None => JsonV::Null,
    }
}

/// The addon a message is about: its `addonId`, else the wallpaper addon.
pub open spec fn message_addon(m: ShellMessageV) -> Seq<char> {
    match m.addon_id {
        Some(a) => a,
        None => "sentinel.addon.wallpaper"@,
    }
}

/// The backend setting a key and value ask for: the pull rates take a
/// whole number, pausing and refresh-on-request a boolean.
pub open spec fn backend_setting_spec(key: Seq<char>, value: JsonV) -> Option<BackendSetting> {
    if key == "fast_pull_rate"@ {
        match value {
            JsonV::Number(NumberV::Unsigned(n)) => Some(BackendSetting::FastPullRate(n)),
            _ => None,
        }
    } else if key == "slow_pull_rate"@ {
        match value {
            JsonV::Number(NumberV::Unsigned(n)) => Some(BackendSetting::SlowPullRate(n)),
            _ => None,
        }
    } else if key == "pull_paused"@ {
        match value {
            JsonV::Bool(b) => Some(BackendSetting::PullPaused(b)),
            _ => None,
        }
    } else if key == "refresh_on_request"@ {
        match value {
            JsonV::Bool(b) => Some(BackendSetting::RefreshOnRequest(b)),
            _ => None,
        }
    } else {
        None
    }
}

/// The action a message asks for, by its kind in lower case; a missing
/// text is empty, a missing list empty, a missing value `null`.
pub open spec fn shell_action_spec(m: ShellMessageV) -> ShellActionV {
    let kind = unicode_lower(m.kind);
    let addon = message_addon(m);
    if kind == "wallpaper_apply_assignment"@ {
        match m.wallpaper_id {
            Some(w) => if trim(w).len() > 0 {
                ShellActionV::ApplyAssignment {
                    addon_id: addon,
                    wallpaper_id: w,
                    monitor_ids: texts_or_empty(m.monitor_ids),
                    monitor_indexes: texts_or_empty(m.monitor_indexes),
                }
            } else {
                ShellActionV::Ignore
            },
            None => ShellActionV::Ignore,
        }
    } else if kind == "config_update"@ {
        ShellActionV::ConfigUpdate { addon_id: addon, path: text_or_empty(m.path), value: value_or_null(m.value) }
    } else if kind == "wallpaper_update_property"@ {
        ShellActionV::UpdateProperty {
            addon_id: addon,
            monitor_indexes: texts_or_empty(m.monitor_indexes),
            property: text_or_empty(m.property),
            value: value_or_null(m.value),
        }
    } else if kind == "clear_cache"@ {
        ShellActionV::ClearCache { addon_id: addon }
    } else if kind == "backend_setting"@ {
        match backend_setting_spec(text_or_empty(m.key), value_or_null(m.value)) {
            Some(b) => ShellActionV::Backend(b),
            None => ShellActionV::Ignore,
        }
    } else if kind == "wallpaper_save_editable"@ {
        ShellActionV::SaveEditable {
            manifest_path: text_or_empty(m.manifest_path),
            key: text_or_empty(m.key),
            value: value_or_null(m.value),
        }
    } else if kind == "wallpaper_capture_preview"@ {
        ShellActionV::CapturePreview { manifest_path: text_or_empty(m.manifest_path) }
    } else {
        ShellActionV::Ignore
    }
}

fn string_or_empty(o: Option<String>) -> (r: String)
    ensures
        r@ == text_or_empty(opt_text(o)),
{
    match o {
        Some(t) => t,
        None => String::new(),
    }
}

fn strings_or_empty(o: Option<Vec<String>>) -> (r: Vec<String>)
    ensures
        text_views(r@) == texts_or_empty(opt_texts(o)),
{
    match o {
        Some(v) => v,
        None => {
            let v: Vec<String> = Vec::new();
            assert(text_views(v@) =~= Seq::<Seq<char>>::empty());
            v
        },
    }
}

fn json_or_null(o: Option<Json>) -> (r: Json)
    ensures
        r.view() == value_or_null(match o {
            Some(v) => Some(v.view()),
            None => None,
        }),
{
    match o {
        Some(v) => v,
        None => Json::Null,
    }
}

fn backend_setting(key: &str, value: &Json) -> (r: Option<BackendSetting>)
    ensures
        r == backend_setting_spec(key@, value.view()),
{
    if str_eq(key, "fast_pull_rate") {
        match value {
            Json::Number(crate::json::JsonNumber::Unsigned(n)) => Some(BackendSetting::FastPullRate(*n)),
            _ => None,
        }
    } else if str_eq(key, "slow_pull_rate") {
        match value {
            Json::Number(crate::json::JsonNumber::Unsigned(n)) => Some(BackendSetting::SlowPullRate(*n)),
            _ => None,
        }
    } else if str_eq(key, "pull_paused") {
        match value {
            Json::Bool(b) => Some(BackendSetting::PullPaused(*b)),
            _ => None,
        }
    } else if str_eq(key, "refresh_on_request") {
        match value {
            Json::Bool(b) => Some(BackendSetting::RefreshOnRequest(*b)),
            _ => None,
        }
    } else {
        None
    }
}

/// The action a shell message asks for.
pub fn shell_message_action(m: ShellMessage) -> (r: ShellAction)
    ensures
        r.view() == shell_action_spec(m.view()),
{
    let ghost mv = m.view();
    let kind = to_lowercase(m.kind.as_str());
    let k = kind.as_str();
    let addon_id = match m.addon_id {
        Some(a) => a,
        None => string_from_str("sentinel.addon.wallpaper"),
    };
    assert(addon_id@ == message_addon(mv));
    if str_eq(k, "wallpaper_apply_assignment") {
        match m.wallpaper_id {
            Some(w) => {
                if chars_trim(&chars_of(w.as_str())).len() > 0 {
                    ShellAction::ApplyAssignment {
                        addon_id,
                        wallpaper_id: w,
                        monitor_ids: strings_or_empty(m.monitor_ids),
                        monitor_indexes: strings_or_empty(m.monitor_indexes),
                    }
                } else {
                    ShellAction::Ignore
                }
            },
            None => ShellAction::Ignore,
        }
    } else if str_eq(k, "config_update") {
        ShellAction::ConfigUpdate { addon_id, path: string_or_empty(m.path), value: json_or_null(m.value) }
    } else if str_eq(k, "wallpaper_update_property") {
        ShellAction::UpdateProperty {
            addon_id,
            monitor_indexes: strings_or_empty(m.monitor_indexes),
            property: string_or_empty(m.property),
            value: json_or_null(m.value),
        }
    } else if str_eq(k, "clear_cache") {
        ShellAction::ClearCache { addon_id }
    } else if str_eq(k, "backend_setting") {
        let key = string_or_empty(m.key);
        let value = json_or_null(m.value);
        match backend_setting(key.as_str(), &value) {
            Some(b) => ShellAction::Backend(b),
            None => ShellAction::Ignore,
        }
    } else if str_eq(k, "wallpaper_save_editable") {
        ShellAction::SaveEditable {
            manifest_path: string_or_empty(m.manifest_path),
            key: string_or_empty(m.key),
            value: json_or_null(m.value),
        }
    } else if str_eq(k, "wallpaper_capture_preview") {
        ShellAction::CapturePreview { manifest_path: string_or_empty(m.manifest_path) }
    } else {
        ShellAction::Ignore
    }
}

} // verus!
