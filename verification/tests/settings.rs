use llm_chat::models::{AppSettings, DocumentContextMode, SavedPrompt};
use llm_chat::settings::PersistedSettings;

fn custom() -> AppSettings {
    AppSettings {
        system_prompt: "Be terse.".to_string(),
        base_url: "http://box:9000".to_string(),
        selected_model: "llama-3".to_string(),
        stream_enabled: false,
        saved_prompts: vec![SavedPrompt {
            id: "prompt-1".to_string(),
            name: "Terse".to_string(),
            content: "Be terse.".to_string(),
        }],
        document_context_mode: DocumentContextMode::Manual,
        show_metrics: true,
    }
}

fn assert_same(a: &AppSettings, b: &AppSettings) {
    assert_eq!(a.system_prompt, b.system_prompt);
    assert_eq!(a.base_url, b.base_url);
    assert_eq!(a.selected_model, b.selected_model);
    assert_eq!(a.stream_enabled, b.stream_enabled);
    assert_eq!(a.document_context_mode, b.document_context_mode);
    assert_eq!(a.show_metrics, b.show_metrics);
    assert_eq!(a.saved_prompts.len(), b.saved_prompts.len());
    for (x, y) in a.saved_prompts.iter().zip(b.saved_prompts.iter()) {
        assert_eq!((&x.id, &x.name, &x.content), (&y.id, &y.name, &y.content));
    }
}

#[test]
fn defaults_are_those_of_a_first_launch() {
    let d = AppSettings::default();
    assert_eq!(d.system_prompt, "You are a helpful assistant.");
    assert_eq!(d.base_url, "http://localhost:8080");
    assert_eq!(d.selected_model, "default");
    assert!(d.stream_enabled);
    assert!(d.saved_prompts.is_empty());
    assert_eq!(d.document_context_mode, DocumentContextMode::RAG);
    assert!(!d.show_metrics);
}

#[test]
fn settings_round_trip_through_the_persisted_record() {
    let settings = custom();
    let restored = AppSettings::from_persisted(settings.to_persisted());
    assert_same(&restored, &settings);
    assert_eq!(restored.selected_model, "llama-3");
    assert_same(&AppSettings::load(Some(settings.to_persisted())), &settings);
    assert_same(&settings.clone(), &settings);
}

#[test]
fn record_without_show_metrics_defaults_that_field_only() {
    let mut record = custom().to_persisted();
    record.show_metrics = None;
    let restored = AppSettings::from_persisted(record);
    assert!(!restored.show_metrics);
    let mut expected = custom();
    expected.show_metrics = false;
    assert_same(&restored, &expected);
}

#[test]
fn every_missing_field_takes_its_default() {
    let empty = PersistedSettings {
        system_prompt: None,
        base_url: None,
        selected_model: None,
        stream_enabled: None,
        saved_prompts: None,
        document_context_mode: None,
        show_metrics: None,
    };
    assert_same(&AppSettings::from_persisted(empty), &AppSettings::default());
    assert_same(&AppSettings::load(None), &AppSettings::default());
    let partial = PersistedSettings {
        system_prompt: None,
        base_url: Some("http://x".to_string()),
        selected_model: None,
        stream_enabled: Some(false),
        saved_prompts: None,
        document_context_mode: None,
        show_metrics: None,
    };
    let restored = AppSettings::from_persisted(partial);
    assert_eq!(restored.base_url, "http://x");
    assert!(!restored.stream_enabled);
    assert_eq!(restored.selected_model, "default");
    assert_eq!(restored.system_prompt, "You are a helpful assistant.");
}
