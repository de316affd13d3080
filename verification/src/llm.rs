//! What the core knows of the local language model: its status, the models
//! that can be fetched, and the request that is made of it.

use crate::text::{push_text, text_eq, trim, trimmed};
use vstd::prelude::*;
use vstd::string::*;

verus! {

/// The number of tokens asked for where the caller names none.
pub const DEFAULT_COMPLETION_TOKENS: usize = 128;

pub const LLM_MODEL_SETTING_KEY: &'static str = "llm_model_path";

pub const DEFAULT_LLM_MODEL_ID: &'static str = "tinyllama-1.1b-q4";

pub const MODEL_DOWNLOAD_EVENT: &'static str = "model-download-progress";

/// The instructions that stand before every request.
pub const SYSTEM_PROMPT: &'static str =
    "You are \"Personal Mail Copilot\", a focused assistant embedded in an email\nproduct. Answer only with useful, direct help related to the user's request.\n\nGuidance:\n- Be concise and practical (keep replies under ~120 words unless summarizing).\n- When the user asks for a joke or small-talk, respond briefly and on-topic.\n- If information is missing, state the assumption or ask a clarifying question.\n- Prefer markdown bullet lists for multiple items, otherwise plain sentences.\n- Never invent email content or speculate about private data you do not have.\n\nReply as a single assistant message that the UI can render directly.";

#[derive(Debug, Clone)]
pub struct LlmStatus {
    pub configured_path: Option<String>,
    pub loaded: bool,
    pub last_error: Option<String>,
}

/// A model that the application knows where to fetch.
#[derive(Debug, Clone, Copy)]
pub struct KnownModel {
    pub id: &'static str,
    pub display_name: &'static str,
    pub description: &'static str,
    pub filename: &'static str,
    pub download_url: &'static str,
    pub estimated_size_bytes: u64,
    pub recommended_ram_gb: u16,
    pub context_length: u32,
    pub notes: &'static str,
    pub is_default: bool,
}

pub open spec fn tiny_llama_model() -> KnownModel {
    KnownModel {
        id: "tinyllama-1.1b-q4",
        display_name: "TinyLlama 1.1B Chat (Q4_K_M)",
        description: "Fastest option for quick label checks and lightweight analysis.",
        filename: "tinyllama-1.1b-chat-q4_k_m.gguf",
        download_url: "https://huggingface.co/TheBloke/TinyLlama-1.1B-Chat-v1.0-GGUF/resolve/main/tinyllama-1.1b-chat-v1.0.Q4_K_M.gguf?download=1",
        estimated_size_bytes: 205_000_000,
        recommended_ram_gb: 4,
        context_length: 2048,
        notes: "Great on low-power devices, but offers the least nuanced reasoning.",
        is_default: true,
    }
}

pub fn tiny_llama() -> (r: KnownModel)
    ensures
        r == tiny_llama_model(),
{
    KnownModel {
        id: "tinyllama-1.1b-q4",
        display_name: "TinyLlama 1.1B Chat (Q4_K_M)",
        description: "Fastest option for quick label checks and lightweight analysis.",
        filename: "tinyllama-1.1b-chat-q4_k_m.gguf",
        download_url: "https://huggingface.co/TheBloke/TinyLlama-1.1B-Chat-v1.0-GGUF/resolve/main/tinyllama-1.1b-chat-v1.0.Q4_K_M.gguf?download=1",
        estimated_size_bytes: 205_000_000,
        recommended_ram_gb: 4,
        context_length: 2048,
        notes: "Great on low-power devices, but offers the least nuanced reasoning.",
        is_default: true,
    }
}

pub open spec fn mistral_7b_model() -> KnownModel {
    KnownModel {
        id: "mistral-7b-instruct-q4",
        display_name: "Mistral 7B Instruct v0.2 (Q4_K_M)",
        description: "High-quality summaries and classifications on modern hardware.",
        filename: "mistral-7b-instruct-v0.2-q4_k_m.gguf",
        download_url: "https://huggingface.co/TheBloke/Mistral-7B-Instruct-v0.2-GGUF/resolve/main/mistral-7b-instruct-v0.2.Q4_K_M.gguf?download=1",
        estimated_size_bytes: 4_100_000_000,
        recommended_ram_gb: 8,
        context_length: 8192,
        notes: "Best balance for most users – strong reasoning with moderate memory needs.",
        is_default: false,
    }
}

pub fn mistral_7b() -> (r: KnownModel)
    ensures
        r == mistral_7b_model(),
{
    KnownModel {
        id: "mistral-7b-instruct-q4",
        display_name: "Mistral 7B Instruct v0.2 (Q4_K_M)",
        description: "High-quality summaries and classifications on modern hardware.",
        filename: "mistral-7b-instruct-v0.2-q4_k_m.gguf",
        download_url: "https://huggingface.co/TheBloke/Mistral-7B-Instruct-v0.2-GGUF/resolve/main/mistral-7b-instruct-v0.2.Q4_K_M.gguf?download=1",
        estimated_size_bytes: 4_100_000_000,
        recommended_ram_gb: 8,
        context_length: 8192,
        notes: "Best balance for most users – strong reasoning with moderate memory needs.",
        is_default: false,
    }
}

pub open spec fn llama3_8b_model() -> KnownModel {
    KnownModel {
        id: "llama3-8b-instruct-q8",
        display_name: "Llama 3 8B Instruct (Q8_0)",
        description: "Premium quality responses with deep understanding and tone control.",
        filename: "llama3-8b-instruct-q8_0.gguf",
        download_url: "https://huggingface.co/TheBloke/Meta-Llama-3-8B-Instruct-GGUF/resolve/main/Meta-Llama-3-8B-Instruct.Q8_0.gguf?download=1",
        estimated_size_bytes: 9_100_000_000,
        recommended_ram_gb: 14,
        context_length: 8192,
        notes: "Requires plenty of RAM/VRAM – ideal when you want the best accuracy locally.",
        is_default: false,
    }
}

pub fn llama3_8b() -> (r: KnownModel)
    ensures
        r == llama3_8b_model(),
{
    KnownModel {
        id: "llama3-8b-instruct-q8",
        display_name: "Llama 3 8B Instruct (Q8_0)",
        description: "Premium quality responses with deep understanding and tone control.",
        filename: "llama3-8b-instruct-q8_0.gguf",
        download_url: "https://huggingface.co/TheBloke/Meta-Llama-3-8B-Instruct-GGUF/resolve/main/Meta-Llama-3-8B-Instruct.Q8_0.gguf?download=1",
        estimated_size_bytes: 9_100_000_000,
        recommended_ram_gb: 14,
        context_length: 8192,
        notes: "Requires plenty of RAM/VRAM – ideal when you want the best accuracy locally.",
        is_default: false,
    }
}

/// The known models, the default first.
pub open spec fn known_model_list() -> Seq<KnownModel> {
    seq![tiny_llama_model(), mistral_7b_model(), llama3_8b_model()]
}

/// The first model of a list that carries the id.
pub open spec fn model_of_id(models: Seq<KnownModel>, id: Seq<char>) -> Option<KnownModel>
    decreases models.len(),
{
    if models.len() == 0 {
        None
    } else if models[0].id@ == id {
        Some(models[0])
    } else {
        model_of_id(models.skip(1), id)
    }
}

pub fn known_models() -> (r: Vec<KnownModel>)
    ensures
        r@ == known_model_list(),
{
    let mut v: Vec<KnownModel> = Vec::new();
    v.push(tiny_llama());
    v.push(mistral_7b());
    v.push(llama3_8b());
    assert(v@ =~= known_model_list());
    v
}

/// The known model of an id: the first entry of the list that carries it.
pub fn known_model_by_id(id: &str) -> (r: Option<KnownModel>)
    ensures
        r == model_of_id(known_model_list(), id@),
{
    let models = known_models();
    let mut i: usize = 0;
    assert(models@.skip(0) =~= models@);
    while i < models.len()
        invariant
            i <= models.len(),
            models@ == known_model_list(),
            model_of_id(known_model_list(), id@) == model_of_id(models@.skip(i as int), id@),
        decreases models.len() - i,
    {
        assert(models@.skip(i as int)[0] == models@[i as int]);
        assert(models@.skip(i as int).skip(1) =~= models@.skip(i + 1));
        if text_eq(models[i].id, id) {
            return Some(models[i]);
        }
        i += 1;
    }
    None
}

/// The id of the model that a file holds: the id of the known model of that
/// file name, else the file name itself.
pub fn model_id_for_filename(filename: &str) -> (r: String)
    ensures
        r@ == if filename@ == "tinyllama-1.1b-chat-q4_k_m.gguf"@ {
            "tinyllama-1.1b-q4"@
        } else if filename@ == "mistral-7b-instruct-v0.2-q4_k_m.gguf"@ {
            "mistral-7b-instruct-q4"@
        } else if filename@ == "llama3-8b-instruct-q8_0.gguf"@ {
            "llama3-8b-instruct-q8"@
        } else {
            filename@
        },
{
    let models = known_models();
    if text_eq(models[0].filename, filename) {
        models[0].id.to_owned()
    } else if text_eq(models[1].filename, filename) {
        models[1].id.to_owned()
    } else if text_eq(models[2].filename, filename) {
        models[2].id.to_owned()
    } else {
        filename.to_owned()
    }
}

/// The number of tokens to ask for.
pub fn completion_tokens(max_tokens: Option<usize>) -> (r: usize)
    ensures
        r == match max_tokens {
            Some(n) => n,
            None => DEFAULT_COMPLETION_TOKENS,
        },
{
    match max_tokens {
        Some(n) => n,
        None => DEFAULT_COMPLETION_TOKENS,
    }
}

/// The text handed to the model: the instructions, the user's request
/// trimmed, and the cue for the answer.
pub fn completion_prompt(prompt: &str) -> (r: String)
    ensures
        r@ == SYSTEM_PROMPT@ + "\n\nUser: "@ + trim(prompt@) + "\nAssistant:"@,
{
    let mut out = SYSTEM_PROMPT.to_owned();
    push_text(&mut out, "\n\nUser: ");
    push_text(&mut out, trimmed(prompt).as_str());
    push_text(&mut out, "\nAssistant:");
    out
}

/// The answer as it is handed on: trimmed.
pub fn completion_output(raw: &str) -> (r: String)
    ensures
        r@ == trim(raw@),
{
    trimmed(raw)
}

} // verus!
