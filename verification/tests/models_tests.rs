use personal_mail_client::accounts::{
    credentials_for, normalize_email, validate_connect, AccessError, AccountMap,
};
use personal_mail_client::llm::{
    completion_output, completion_prompt, completion_tokens, known_model_by_id, known_models,
    model_id_for_filename, DEFAULT_LLM_MODEL_ID, SYSTEM_PROMPT,
};
use personal_mail_client::models::{Credentials, Provider, SyncReport, DEFAULT_IMAP_PORT};

fn credentials(provider: Provider, host: Option<&str>, port: Option<u16>) -> Credentials {
    Credentials::new(
        provider,
        "user@example.com".to_string(),
        "secret".to_string(),
        host.map(|h| h.to_string()),
        port,
    )
}

#[test]
fn provider_keys_hosts_and_names() {
    assert_eq!(Provider::Gmail.as_key(), "gmail");
    assert_eq!(Provider::Outlook.as_key(), "outlook");
    assert_eq!(Provider::Yahoo.as_key(), "yahoo");
    assert_eq!(Provider::Custom.as_key(), "custom");
    assert_eq!(Provider::Gmail.imap_host(), "imap.gmail.com");
    assert_eq!(Provider::Outlook.imap_host(), "outlook.office365.com");
    assert_eq!(Provider::Yahoo.imap_host(), "imap.mail.yahoo.com");
    assert_eq!(Provider::Custom.imap_host(), "localhost");
    assert_eq!(Provider::Gmail.display_name(), "Gmail");
    assert_eq!(Provider::Outlook.display_name(), "Outlook / Live");
    assert_eq!(Provider::Yahoo.display_name(), "Yahoo Mail");
    assert_eq!(Provider::Custom.display_name(), "Custom IMAP");
    assert_eq!(Provider::Yahoo.to_display_string(), "Yahoo Mail");
    assert_eq!(Provider::Gmail.trash_folder(), "[Gmail]/Trash");
    assert_eq!(Provider::Yahoo.trash_folder(), "Trash");
}

#[test]
fn provider_from_key_reads_known_keys_only() {
    for p in [Provider::Gmail, Provider::Outlook, Provider::Yahoo, Provider::Custom] {
        assert_eq!(Provider::from_key(p.as_key()), Some(p));
    }
    assert_eq!(Provider::from_key("Gmail"), None);
    assert_eq!(Provider::from_key(""), None);
    assert_eq!(Provider::from_key("aol"), None);
}

#[test]
fn credentials_key_joins_display_name_and_address() {
    assert_eq!(credentials(Provider::Gmail, None, None).key(), "Gmail::user@example.com");
    assert_eq!(
        credentials(Provider::Outlook, None, None).key(),
        "Outlook / Live::user@example.com"
    );
}

#[test]
fn credentials_account_drops_the_password() {
    let c = credentials(Provider::Custom, Some("mail.example.com"), Some(1993));
    let account = c.account();
    assert_eq!(account.provider, Provider::Custom);
    assert_eq!(account.email, "user@example.com");
    assert_eq!(account.display_name, None);
    assert_eq!(account.custom_host.as_deref(), Some("mail.example.com"));
    assert_eq!(account.custom_port, Some(1993));
}

#[test]
fn credentials_resolve_host_and_port() {
    let plain = credentials(Provider::Yahoo, None, None);
    assert_eq!(plain.host(), "imap.mail.yahoo.com");
    assert_eq!(plain.port(), 993);
    assert_eq!(DEFAULT_IMAP_PORT, 993);
    let custom = credentials(Provider::Custom, Some("mail.example.com"), Some(1993));
    assert_eq!(custom.host(), "mail.example.com");
    assert_eq!(custom.port(), 1993);
    let copy = custom.duplicate();
    assert_eq!(copy.password, "secret");
    assert_eq!(copy.custom_port, Some(1993));
}

#[test]
fn sync_report_holds_its_counts() {
    let report = SyncReport { fetched: 2, stored: 2, duration_ms: 15 };
    assert_eq!(report, SyncReport { fetched: 2, stored: 2, duration_ms: 15 });
}

#[test]
fn normalize_email_trims_and_lowers() {
    assert_eq!(normalize_email("  User@Example.COM "), "user@example.com");
}

#[test]
fn validate_connect_asks_for_address_and_password() {
    assert_eq!(validate_connect(" ", "pw"), Err("Email address is required".to_string()));
    assert_eq!(validate_connect("a@b.c", "  "), Err("App password is required".to_string()));
    assert_eq!(validate_connect("", ""), Err("Email address is required".to_string()));
    assert_eq!(validate_connect(" A@B.c ", "pw"), Ok("a@b.c".to_string()));
}

#[test]
fn account_map_inserts_replaces_and_removes() {
    let mut map: AccountMap<u32> = AccountMap::new();
    assert_eq!(map.len(), 0);
    assert!(!map.contains_key("a@x"));
    map.insert("a@x", 1);
    map.insert("b@x", 2);
    map.insert("a@x", 3);
    assert_eq!(map.len(), 2);
    assert_eq!(map.get("a@x"), Some(&3));
    assert_eq!(map.get("b@x"), Some(&2));
    assert_eq!(map.get("c@x"), None);
    assert_eq!(map.keys(), vec!["a@x", "b@x"]);
    assert_eq!(map.remove("a@x"), Some(3));
    assert_eq!(map.remove("a@x"), None);
    assert_eq!(map.len(), 1);
    assert!(map.contains_key("b@x"));
}

#[test]
fn credentials_for_checks_connection_and_provider() {
    let mut accounts: AccountMap<Credentials> = AccountMap::new();
    accounts.insert("user@example.com", credentials(Provider::Gmail, None, None));
    let found = credentials_for(&accounts, "user@example.com", Provider::Gmail);
    assert_eq!(found.map(|c| c.password), Ok("secret".to_string()));
    let mismatch = credentials_for(&accounts, "user@example.com", Provider::Yahoo);
    assert_eq!(mismatch.map(|c| c.email), Err(AccessError::ProviderMismatch));
    let missing = credentials_for(&accounts, "other@example.com", Provider::Gmail);
    assert_eq!(missing.map(|c| c.email), Err(AccessError::NotConnected));
    assert_eq!(AccessError::NotConnected.to_message(), "Account is not connected");
    assert_eq!(
        AccessError::ProviderMismatch.to_message(),
        "Provider mismatch for stored credentials"
    );
}

#[test]
fn known_models_are_found_by_id() {
    let models = known_models();
    assert_eq!(models.len(), 3);
    assert!(models[0].is_default);
    assert_eq!(models[0].id, DEFAULT_LLM_MODEL_ID);
    let mistral = known_model_by_id("mistral-7b-instruct-q4");
    assert_eq!(mistral.map(|m| m.context_length), Some(8192));
    assert_eq!(known_model_by_id("llama3-8b-instruct-q8").map(|m| m.recommended_ram_gb), Some(14));
    assert_eq!(
        known_model_by_id(DEFAULT_LLM_MODEL_ID).map(|m| m.estimated_size_bytes),
        Some(205_000_000)
    );
    assert!(known_model_by_id("gpt").is_none());
}

#[test]
fn model_id_is_inferred_from_the_file_name() {
    assert_eq!(model_id_for_filename("tinyllama-1.1b-chat-q4_k_m.gguf"), "tinyllama-1.1b-q4");
    assert_eq!(model_id_for_filename("llama3-8b-instruct-q8_0.gguf"), "llama3-8b-instruct-q8");
    assert_eq!(model_id_for_filename("custom.gguf"), "custom.gguf");
}

#[test]
fn completion_request_is_framed_by_the_system_prompt() {
    assert_eq!(completion_tokens(None), 128);
    assert_eq!(completion_tokens(Some(512)), 512);
    let prompt = completion_prompt("  tell me a joke \n");
    assert_eq!(prompt, format!("{}\n\nUser: tell me a joke\nAssistant:", SYSTEM_PROMPT));
    assert!(SYSTEM_PROMPT.starts_with("You are \"Personal Mail Copilot\""));
    assert_eq!(completion_output("  fine. \n"), "fine.");
}
