//! Accounts, credentials and the summaries that travel between the mail
//! provider, the cache and the user interface.

use crate::text::{opt_text, text_eq};
use vstd::prelude::*;
use vstd::string::*;

verus! {

/// The port of IMAP over TLS, used unless an account names its own.
pub const DEFAULT_IMAP_PORT: u16 = 993;

#[derive(Debug, Clone, Copy, PartialEq, Eq, Hash, Structural)]
pub enum Provider {
    Gmail,
    Outlook,
    Yahoo,
    Custom,
}

impl Provider {
    /// The key under which a provider is persisted.
    pub open spec fn key_text(self) -> Seq<char> {
        match self {
            Provider::Gmail => "gmail"@,
            Provider::Outlook => "outlook"@,
            Provider::Yahoo => "yahoo"@,
            Provider::Custom => "custom"@,
        }
    }

    /// The provider that a persisted key stands for, if any.
    pub open spec fn of_key(key: Seq<char>) -> Option<Provider> {
        if key == "gmail"@ {
            Some(Provider::Gmail)
        } else if key == "outlook"@ {
            Some(Provider::Outlook)
        } else if key == "yahoo"@ {
            Some(Provider::Yahoo)
        } else if key == "custom"@ {
            Some(Provider::Custom)
        } else {
            None
        }
    }

    /// The IMAP host a provider is reached at when the account names none.
    pub open spec fn host_text(self) -> Seq<char> {
        match self {
            Provider::Gmail => "imap.gmail.com"@,
            Provider::Outlook => "outlook.office365.com"@,
            Provider::Yahoo => "imap.mail.yahoo.com"@,
            Provider::Custom => "localhost"@,
        }
    }

    /// The name shown to the user.
    pub open spec fn display_text(self) -> Seq<char> {
        match self {
            Provider::Gmail => "Gmail"@,
            Provider::Outlook => "Outlook / Live"@,
            Provider::Yahoo => "Yahoo Mail"@,
            Provider::Custom => "Custom IMAP"@,
        }
    }

    /// The folder that deleted messages are copied to.
    pub open spec fn trash_text(self) -> Seq<char> {
        match self {
            Provider::Gmail => "[Gmail]/Trash"@,
            Provider::Outlook => "Deleted Items"@,
            Provider::Yahoo => "Trash"@,
            Provider::Custom => "Trash"@,
        }
    }

    pub fn as_key(&self) -> (r: &'static str)
        ensures
            r@ == self.key_text(),
    {
        match self {
            Provider::Gmail => "gmail",
            Provider::Outlook => "outlook",
            Provider::Yahoo => "yahoo",
            Provider::Custom => "custom",
        }
    }

    pub fn from_key(value: &str) -> (r: Option<Provider>)
        ensures
            r == Provider::of_key(value@),
    {
        if text_eq(value, "gmail") {
            Some(Provider::Gmail)
        } else if text_eq(value, "outlook") {
            Some(Provider::Outlook)
        } else if text_eq(value, "yahoo") {
            Some(Provider::Yahoo)
        } else if text_eq(value, "custom") {
            Some(Provider::Custom)
        } else {
            None
        }
    }

    pub fn imap_host(&self) -> (r: &'static str)
        ensures
            r@ == self.host_text(),
    {
        match self {
            Provider::Gmail => "imap.gmail.com",
            Provider::Outlook => "outlook.office365.com",
            Provider::Yahoo => "imap.mail.yahoo.com",
            Provider::Custom => "localhost",
        }
    }

    pub fn display_name(&self) -> (r: &'static str)
        ensures
            r@ == self.display_text(),
    {
        match self {
            Provider::Gmail => "Gmail",
            Provider::Outlook => "Outlook / Live",
            Provider::Yahoo => "Yahoo Mail",
            Provider::Custom => "Custom IMAP",
        }
    }

    pub fn trash_folder(&self) -> (r: &'static str)
        ensures
            r@ == self.trash_text(),
    {
        match self {
            Provider::Gmail => "[Gmail]/Trash",
            Provider::Outlook => "Deleted Items",
            Provider::Yahoo => "Trash",
            Provider::Custom => "Trash",
        }
    }

    /// The display name as an owned string, for callers that print a provider.
    pub fn to_display_string(&self) -> (r: String)
        ensures
            r@ == self.display_text(),
    {
        self.display_name().to_owned()
    }
}

/// Every provider is found again under its own key.
pub proof fn lemma_provider_key_round_trip(p: Provider)
    ensures
        Provider::of_key(p.key_text()) == Some(p),
{
    reveal_strlit("gmail");
    reveal_strlit("outlook");
    reveal_strlit("yahoo");
    reveal_strlit("custom");
    assert("outlook"@.len() != "gmail"@.len());
    assert("yahoo"@[0] != "gmail"@[0]);
    assert("custom"@.len() != "gmail"@.len());
    assert("yahoo"@.len() != "outlook"@.len());
    assert("custom"@.len() != "outlook"@.len());
    assert("custom"@.len() != "yahoo"@.len());
}

#[derive(Debug, Clone)]
pub struct Account {
    pub provider: Provider,
    pub email: String,
    pub display_name: Option<String>,
    pub custom_host: Option<String>,
    pub custom_port: Option<u16>,
}

pub struct AccountView {
    pub provider: Provider,
    pub email: Seq<char>,
    pub display_name: Option<Seq<char>>,
    pub custom_host: Option<Seq<char>>,
    pub custom_port: Option<u16>,
}

impl View for Account {
    type V = AccountView;

    open spec fn view(&self) -> AccountView {
        AccountView {
            provider: self.provider,
            email: self.email@,
            display_name: opt_text(self.display_name),
            custom_host: opt_text(self.custom_host),
            custom_port: self.custom_port,
        }
    }
}

#[derive(Debug, Clone)]
pub struct MailAddress {
    pub display_name: Option<String>,
    pub email: String,
}

pub struct MailAddressView {
    pub display_name: Option<Seq<char>>,
    pub email: Seq<char>,
}

impl View for MailAddress {
    type V = MailAddressView;

    open spec fn view(&self) -> MailAddressView {
        MailAddressView { display_name: opt_text(self.display_name), email: self.email@ }
    }
}

#[derive(Debug, Clone)]
pub struct EmailSummary {
    pub uid: String,
    pub subject: String,
    pub sender: MailAddress,
    pub date: Option<String>,
}

pub struct EmailSummaryView {
    pub uid: Seq<char>,
    pub subject: Seq<char>,
    pub sender: MailAddressView,
    pub date: Option<Seq<char>>,
}

impl View for EmailSummary {
    type V = EmailSummaryView;

    open spec fn view(&self) -> EmailSummaryView {
        EmailSummaryView {
            uid: self.uid@,
            subject: self.subject@,
            sender: self.sender@,
            date: opt_text(self.date),
        }
    }
}

#[derive(Debug, Clone)]
pub struct Credentials {
    pub provider: Provider,
    pub email: String,
    pub password: String,
    pub custom_host: Option<String>,
    pub custom_port: Option<u16>,
}

pub struct CredentialsView {
    pub provider: Provider,
    pub email: Seq<char>,
    pub password: Seq<char>,
    pub custom_host: Option<Seq<char>>,
    pub custom_port: Option<u16>,
}

impl View for Credentials {
    type V = CredentialsView;

    open spec fn view(&self) -> CredentialsView {
        CredentialsView {
            provider: self.provider,
            email: self.email@,
            password: self.password@,
            custom_host: opt_text(self.custom_host),
            custom_port: self.custom_port,
        }
    }
}

/// A copy of an optional string.
pub fn clone_opt_string(o: &Option<String>) -> (r: Option<String>)
    ensures
        opt_text(r) == opt_text(*o),
{
    match o {
        Some(s) => Some(s.clone()),
        None => None,
    }
}

impl CredentialsView {
    /// The host that a session for these credentials connects to.
    pub open spec fn host(self) -> Seq<char> {
        match self.custom_host {
            Some(h) => h,
            None => self.provider.host_text(),
        }
    }

    /// The port that a session for these credentials connects to.
    pub open spec fn port(self) -> u16 {
        match self.custom_port {
            Some(p) => p,
            None => DEFAULT_IMAP_PORT,
        }
    }
}

impl Credentials {
    pub fn new(
        provider: Provider,
        email: String,
        password: String,
        custom_host: Option<String>,
        custom_port: Option<u16>,
    ) -> (r: Credentials)
        ensures
            r@ == (CredentialsView {
                provider,
                email: email@,
                password: password@,
                custom_host: opt_text(custom_host),
                custom_port,
            }),
    {
        Credentials { provider, email, password, custom_host, custom_port }
    }

    /// The key under which the credentials are held in memory:
    /// the provider's display name, `::`, and the address.
    pub fn key(&self) -> (r: String)
        ensures
            r@ == self.provider.display_text() + "::"@ + self.email@,
    {
        let mut out = self.provider.display_name().to_owned();
        out.append("::");
        out.append(self.email.as_str());
        out
    }

    pub fn account(&self) -> (r: Account)
        ensures
            r@ == (AccountView {
                provider: self.provider,
                email: self.email@,
                display_name: None,
                custom_host: opt_text(self.custom_host),
                custom_port: self.custom_port,
            }),
    {
        Account {
            provider: self.provider,
            email: self.email.clone(),
            display_name: None,
            custom_host: clone_opt_string(&self.custom_host),
            custom_port: self.custom_port,
        }
    }

    /// The host to connect to: the account's own, or else the provider's.
    pub fn host(&self) -> (r: String)
        ensures
            r@ == self@.host(),
    {
        match &self.custom_host {
            Some(h) => h.clone(),
            None => self.provider.imap_host().to_owned(),
        }
    }

    /// The port to connect to: the account's own, or else 993.
    pub fn port(&self) -> (r: u16)
        ensures
            r == self@.port(),
    {
        match self.custom_port {
            Some(p) => p,
            None => DEFAULT_IMAP_PORT,
        }
    }

    /// A copy of the credentials, as each session owns its own.
    pub fn duplicate(&self) -> (r: Credentials)
        ensures
            r@ == self@,
    {
        Credentials {
            provider: self.provider,
            email: self.email.clone(),
            password: self.password.clone(),
            custom_host: clone_opt_string(&self.custom_host),
            custom_port: self.custom_port,
        }
    }
}

#[derive(Debug, Clone)]
pub struct SavedAccount {
    pub provider: Provider,
    pub email: String,
    pub custom_host: Option<String>,
    pub custom_port: Option<u16>,
    pub has_password: bool,
}

#[derive(Debug)]
pub struct ConnectAccountResponse {
    pub account: Account,
    pub emails: Vec<EmailSummary>,
}

#[derive(Debug, Clone, Copy, PartialEq, Eq, Structural)]
pub struct SyncReport {
    pub fetched: usize,
    pub stored: usize,
    pub duration_ms: u64,
}

} // verus!
