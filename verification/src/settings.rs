//! Settings as they are persisted: every field may be missing, and a missing
//! field takes its default instead of failing the whole record.

use crate::models::{
    clone_prompts, prompt_views, AppSettings, DocumentContextMode, SavedPrompt, SavedPromptView,
    SettingsView,
};
use vstd::prelude::*;

verus! {

/// The settings as read from storage. A record written by an earlier version
/// lacks the fields that were added since.
#[derive(Debug)]
pub struct PersistedSettings {
    pub system_prompt: Option<String>,
    pub base_url: Option<String>,
    pub selected_model: Option<String>,
    pub stream_enabled: Option<bool>,
    pub saved_prompts: Option<Vec<SavedPrompt>>,
    pub document_context_mode: Option<DocumentContextMode>,
    pub show_metrics: Option<bool>,
}

/// The mathematical content of a [`PersistedSettings`].
pub ghost struct PersistedView {
    pub system_prompt: Option<Seq<char>>,
    pub base_url: Option<Seq<char>>,
    pub selected_model: Option<Seq<char>>,
    pub stream_enabled: Option<bool>,
    pub saved_prompts: Option<Seq<SavedPromptView>>,
    pub document_context_mode: Option<DocumentContextMode>,
    pub show_metrics: Option<bool>,
}

impl View for PersistedSettings {
    type V = PersistedView;

    open spec fn view(&self) -> PersistedView {
        PersistedView {
            system_prompt: crate::models::opt_text(self.system_prompt),
            base_url: crate::models::opt_text(self.base_url),
            selected_model: crate::models::opt_text(self.selected_model),
            stream_enabled: self.stream_enabled,
            saved_prompts: match self.saved_prompts {
                Some(p) => Some(prompt_views(p@)),
                None => None,
            },
            document_context_mode: self.document_context_mode,
            show_metrics: self.show_metrics,
        }
    }
}

impl PersistedView {
    /// The record that holds every field of the settings.
    pub open spec fn of(settings: SettingsView) -> PersistedView {
        PersistedView {
            system_prompt: Some(settings.system_prompt),
            base_url: Some(settings.base_url),
            selected_model: Some(settings.selected_model),
            stream_enabled: Some(settings.stream_enabled),
            saved_prompts: Some(settings.saved_prompts),
            document_context_mode: Some(settings.document_context_mode),
            show_metrics: Some(settings.show_metrics),
        }
    }

    /// The settings that the record gives: each field that it holds, and the
    /// default of each field that it lacks.
    pub open spec fn restored(self) -> SettingsView {
        let initial = SettingsView::initial();
        SettingsView {
            system_prompt: match self.system_prompt {
                Some(v) => v,
                None => initial.system_prompt,
            },
            base_url: match self.base_url {
                Some(v) => v,
                None => initial.base_url,
            },
            selected_model: match self.selected_model {
                Some(v) => v,
                None => initial.selected_model,
            },
            stream_enabled: match self.stream_enabled {
                Some(v) => v,
                None => initial.stream_enabled,
            },
            saved_prompts: match self.saved_prompts {
                Some(v) => v,
                None => initial.saved_prompts,
            },
            document_context_mode: match self.document_context_mode {
                Some(v) => v,
                None => initial.document_context_mode,
            },
            show_metrics: match self.show_metrics {
                Some(v) => v,
                None => initial.show_metrics,
            },
        }
    }
}

/// The settings to start with: those of the record where storage held one,
/// and the defaults where it held none.
pub open spec fn loaded(record: Option<PersistedView>) -> SettingsView {
    match record {
        Some(r) => r.restored(),
        None => SettingsView::initial(),
    }
}

impl AppSettings {
    /// The record to persist.
    pub fn to_persisted(&self) -> (record: PersistedSettings)
        ensures
            record@ == PersistedView::of(self@),
    {
        PersistedSettings {
            system_prompt: Some(self.system_prompt.clone()),
            base_url: Some(self.base_url.clone()),
            selected_model: Some(self.selected_model.clone()),
            stream_enabled: Some(self.stream_enabled),
            saved_prompts: Some(clone_prompts(&self.saved_prompts)),
            document_context_mode: Some(self.document_context_mode),
            show_metrics: Some(self.show_metrics),
        }
    }

    /// The settings that a record gives.
    pub fn from_persisted(record: PersistedSettings) -> (settings: AppSettings)
        ensures
            settings@ == record@.restored(),
    {
        let initial = AppSettings::default();
        AppSettings {
            system_prompt: match record.system_prompt {
                Some(v) => v,
                None => initial.system_prompt,
            },
            base_url: match record.base_url {
                Some(v) => v,
                None => initial.base_url,
            },
            selected_model: match record.selected_model {
                Some(v) => v,
                None => initial.selected_model,
            },
            stream_enabled: match record.stream_enabled {
                Some(v) => v,
                None => initial.stream_enabled,
            },
            saved_prompts: match record.saved_prompts {
                Some(v) => v,
                None => initial.saved_prompts,
            },
            document_context_mode: match record.document_context_mode {
                Some(v) => v,
                None => initial.document_context_mode,
            },
            show_metrics: match record.show_metrics {
                Some(v) => v,
                None => initial.show_metrics,
            },
        }
    }

    /// The settings to start with, given what storage held.
    pub fn load(record: Option<PersistedSettings>) -> (settings: AppSettings)
        ensures
            settings@ == loaded(
                match record {
                    Some(r) => Some(r@),
                    None => None,
                },
            ),
    {
        match record {
            Some(r) => AppSettings::from_persisted(r),
            None => AppSettings::default(),
        }
    }
}

/// Settings that are persisted and read back are the settings that were
/// persisted, every field intact.
pub proof fn law_settings_round_trip(settings: SettingsView)
    ensures
        PersistedView::of(settings).restored() == settings,
{
}

/// A record that lacks a field gives the default of that field and every
/// other field as it holds it; so a record from before `show_metrics` was
/// added restores with `show_metrics` off and the chosen model intact.
pub proof fn law_missing_field_takes_default(settings: SettingsView)
    ensures
        ({
            let full = PersistedView::of(settings);
            let older = PersistedView { show_metrics: None, ..full };
            &&& older.restored().show_metrics == SettingsView::initial().show_metrics
            &&& older.restored().show_metrics == false
            &&& older.restored() == (SettingsView { show_metrics: false, ..settings })
            &&& older.restored().selected_model == settings.selected_model
        }),
{
}

} // verus!
