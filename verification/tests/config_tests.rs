use novelai::config::{blend_channel, find_preset, provider_presets, SettingsForm};

fn form() -> SettingsForm {
    SettingsForm {
        provider: "DeepSeek".to_string(),
        api_key: "k".to_string(),
        base_url: "https://x/v1".to_string(),
        model: "m".to_string(),
        model_input: "m".to_string(),
        max_tokens: "4096".to_string(),
    }
}

#[test]
fn presets_in_order() {
    let ps = provider_presets();
    let names: Vec<&str> = ps.iter().map(|p| p.name).collect();
    assert_eq!(names, vec!["DeepSeek", "OpenAI", "Gemini", "Ollama", "自定义"]);
    assert_eq!(ps[1].models.len(), 4);
    assert_eq!(ps[3].base_url, "http://localhost:11434/v1");
    assert!(ps[4].models.is_empty());
}

#[test]
fn choosing_a_provider() {
    let ps = provider_presets();
    let mut f = form();
    f.choose_provider(&find_preset(&ps, "Gemini").unwrap());
    assert_eq!(f.provider, "Gemini");
    assert_eq!(f.base_url, "https://generativelanguage.googleapis.com/v1beta/openai");
    assert_eq!(f.model, "gemini-flash-lite-latest");
    assert_eq!(f.model_input, "gemini-flash-lite-latest");
    f.choose_provider(&find_preset(&ps, "自定义").unwrap());
    assert_eq!(f.provider, "自定义");
    assert_eq!(f.base_url, "https://generativelanguage.googleapis.com/v1beta/openai");
    assert!(find_preset(&ps, "Nope").is_none());
}

#[test]
fn max_tokens_parsing() {
    let mut f = form();
    f.max_tokens = "8192".to_string();
    assert_eq!(f.max_tokens_value(), 8192);
    f.max_tokens = "4294967296".to_string();
    assert_eq!(f.max_tokens_value(), 4096);
    f.max_tokens = "lots".to_string();
    assert_eq!(f.max_tokens_value(), 4096);
}

#[test]
fn blending() {
    assert_eq!(blend_channel(0, 255, 255), 255);
    assert_eq!(blend_channel(0, 255, 0), 0);
    assert_eq!(blend_channel(100, 200, 51), 120);
    assert_eq!(blend_channel(255, 255, 20), 255);
}

#[test]
fn default_settings_match_a_preset() {
    let f = SettingsForm::default();
    assert_eq!(f.provider, "DeepSeek");
    assert_eq!(f.base_url, "https://api.deepseek.com/v1");
    assert_eq!(f.model, "deepseek-chat");
    assert_eq!(f.model_input, "deepseek-chat");
    assert_eq!(f.max_tokens, "4096");
    assert!(f.api_key.is_empty());
    let ps = provider_presets();
    let p = find_preset(&ps, &f.provider).unwrap();
    assert_eq!(p.base_url, f.base_url);
    assert!(p.models.contains(&f.model.as_str()));
}

#[test]
fn preset_names_are_distinct_and_urls_clean() {
    let ps = provider_presets();
    for (i, a) in ps.iter().enumerate() {
        for b in ps.iter().skip(i + 1) {
            assert_ne!(a.name, b.name);
        }
        if a.name != "自定义" {
            assert!(!a.base_url.is_empty() && !a.base_url.ends_with('/'));
            assert!(!a.models.is_empty());
        }
    }
}
