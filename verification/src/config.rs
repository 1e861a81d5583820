use crate::text::{chars_of, parse_unsigned, parse_unsigned_chars, str_equal};
use vstd::prelude::*;

verus! {

/// A model provider that the settings offer, with its endpoint and models.
#[derive(Debug, Clone, Copy)]
pub struct ProviderPreset {
    pub name: &'static str,
    pub base_url: &'static str,
    pub models: &'static [&'static str],
}

/// The providers offered in the settings, in display order.
pub open spec fn preset_table() -> Seq<ProviderPreset> {
    seq![
        ProviderPreset {
            name: "DeepSeek",
            base_url: "https://api.deepseek.com/v1",
            models: &["deepseek-chat", "deepseek-reasoner"],
        },
        ProviderPreset {
            name: "OpenAI",
            base_url: "https://api.openai.com/v1",
            models: &["gpt-4o", "gpt-4o-mini", "gpt-4-turbo", "gpt-3.5-turbo"],
        },
        ProviderPreset {
            name: "Gemini",
            base_url: "https://generativelanguage.googleapis.com/v1beta/openai",
            models: &["gemini-flash-lite-latest", "gemini-flash-latest", "gemini-pro-latest"],
        },
        ProviderPreset {
            name: "Ollama",
            base_url: "http://localhost:11434/v1",
            models: &["llama3.2", "qwen2.5", "deepseek-r1", "mistral", "gemma3"],
        },
        ProviderPreset { name: "自定义", base_url: "", models: &[] },
    ]
}

/// The providers offered in the settings, in display order.
pub fn provider_presets() -> (r: Vec<ProviderPreset>)
    ensures
        r@ == preset_table(),
{
    let r = vec![
        ProviderPreset {
            name: "DeepSeek",
            base_url: "https://api.deepseek.com/v1",
            models: &["deepseek-chat", "deepseek-reasoner"],
        },
        ProviderPreset {
            name: "OpenAI",
            base_url: "https://api.openai.com/v1",
            models: &["gpt-4o", "gpt-4o-mini", "gpt-4-turbo", "gpt-3.5-turbo"],
        },
        ProviderPreset {
            name: "Gemini",
            base_url: "https://generativelanguage.googleapis.com/v1beta/openai",
            models: &["gemini-flash-lite-latest", "gemini-flash-latest", "gemini-pro-latest"],
        },
        ProviderPreset {
            name: "Ollama",
            base_url: "http://localhost:11434/v1",
            models: &["llama3.2", "qwen2.5", "deepseek-r1", "mistral", "gemma3"],
        },
        ProviderPreset { name: "自定义", base_url: "", models: &[] },
    ];
    proof {
        assert(r@ =~= preset_table());
    }
    r
}

/// The provider preset with the given name.
pub open spec fn preset_named(ps: Seq<ProviderPreset>, name: Seq<char>) -> Option<ProviderPreset>
    decreases ps.len(),
{
    if ps.len() == 0 {
        None
    } else if ps[0].name@ == name {
        Some(ps[0])
    } else {
        preset_named(ps.drop_first(), name)
    }
}

/// Looks up the preset of a provider by name.
pub fn find_preset(presets: &Vec<ProviderPreset>, name: &str) -> (r: Option<ProviderPreset>)
    ensures
        r == preset_named(presets@, name@),
{
    let mut i: usize = 0;
    proof {
        assert(presets@.skip(0) =~= presets@);
    }
    while i < presets.len()
        invariant
            i <= presets.len(),
            preset_named(presets@, name@) == preset_named(presets@.skip(i as int), name@),
        decreases presets.len() - i,
    {
        proof {
            assert(presets@.skip(i as int).drop_first() =~= presets@.skip(i + 1));
        }
        if str_equal(presets[i].name, name) {
            return Some(presets[i]);
        }
        i += 1;
    }
    None
}

/// The text fields of the settings dialog (the numeric sliders live with
/// the application).
#[derive(Debug)]
pub struct SettingsForm {
    pub provider: String,
    pub api_key: String,
    pub base_url: String,
    pub model: String,
    pub model_input: String,
    pub max_tokens: String,
}

/// Whether the preset `p` offers the model `m`.
pub open spec fn offers_model(p: ProviderPreset, m: Seq<char>) -> bool {
    exists|k: int| 0 <= k < p.models@.len() && #[trigger] p.models@[k]@ == m
}

/// The provider a fresh configuration uses.
pub open spec fn default_provider() -> Seq<char> {
    "DeepSeek"@
}

/// The endpoint a fresh configuration uses.
pub open spec fn default_base_url() -> Seq<char> {
    "https://api.deepseek.com/v1"@
}

/// The model a fresh configuration uses.
pub open spec fn default_model() -> Seq<char> {
    "deepseek-chat"@
}

impl Default for SettingsForm {
    /// The settings of a fresh configuration: the default provider, endpoint
    /// and model, no key, 4096 tokens.
    fn default() -> (r: Self)
        ensures
            r.provider@ == default_provider(),
            r.api_key@ == Seq::<char>::empty(),
            r.base_url@ == default_base_url(),
            r.model@ == default_model(),
            r.model_input@ == default_model(),
            r.max_tokens@ == "4096"@,
    {
        SettingsForm {
            provider: String::from_str("DeepSeek"),
            api_key: String::new(),
            base_url: String::from_str("https://api.deepseek.com/v1"),
            model: String::from_str("deepseek-chat"),
            model_input: String::from_str("deepseek-chat"),
            max_tokens: String::from_str("4096"),
        }
    }
}

impl SettingsForm {
    /// Picks a provider: its endpoint and first model are filled in, except
    /// for the custom provider, which keeps what was typed.
    pub fn choose_provider(&mut self, p: &ProviderPreset)
        ensures
            final(self).provider@ == p.name@,
            final(self).api_key == old(self).api_key,
            final(self).max_tokens == old(self).max_tokens,
            p.name@ == "自定义"@ ==> {
                &&& final(self).base_url == old(self).base_url
                &&& final(self).model == old(self).model
                &&& final(self).model_input == old(self).model_input
            },
            p.name@ != "自定义"@ ==> {
                &&& final(self).base_url@ == p.base_url@
                &&& p.models@.len() == 0 ==> final(self).model == old(self).model && final(self).model_input
                    == old(self).model_input
                &&& p.models@.len() > 0 ==> final(self).model@ == p.models@[0]@ && final(self).model_input@
                    == p.models@[0]@
            },
    {
        self.provider = String::from_str(p.name);
        if !str_equal(p.name, "自定义") {
            self.base_url = String::from_str(p.base_url);
            if p.models.len() > 0 {
                self.model = String::from_str(p.models[0]);
                self.model_input = String::from_str(p.models[0]);
            }
        }
    }

    /// The maximum number of tokens typed, or 4096 when it is not a valid
    /// `u32`.
    pub fn max_tokens_value(&self) -> (r: u32)
        ensures
            r == match parse_unsigned(self.max_tokens@, u32::MAX as nat) {
                Some(n) => n as u32,
                None => 4096u32,
            },
    {
        match parse_unsigned_chars(&chars_of(self.max_tokens.as_str()), 4294967295usize) {
            Some(n) => n as u32,
            None => 4096,
        }
    }
}

/// One color channel mixed from `bg` toward `fg` with weight `a` out of 255.
pub open spec fn blend_channel_value(bg: u8, fg: u8, a: u8) -> int {
    ((bg as nat) * (255 - a as nat) + (fg as nat) * (a as nat)) / 255
}

/// Mixes one color channel from `bg` toward `fg` with weight `a` out of 255.
pub fn blend_channel(bg: u8, fg: u8, a: u8) -> (r: u8)
    ensures
        r as int == blend_channel_value(bg, fg, a),
{
    let ia: u16 = 255 - a as u16;
    let a16: u16 = a as u16;
    proof {
        assert((bg as u16) * ia + (fg as u16) * a16 <= 65025) by (nonlinear_arith)
            requires
                bg <= 255,
                fg <= 255,
                ia + a16 == 255,
        {
        }
        assert(((bg as u16) * ia + (fg as u16) * a16) / 255 <= 255) by (nonlinear_arith)
            requires
                (bg as u16) * ia + (fg as u16) * a16 <= 65025,
        {
        }
    }
    let v: u16 = ((bg as u16) * ia + (fg as u16) * a16) / 255;
    v as u8
}

} // verus!
