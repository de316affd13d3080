//! The rows of the encrypted cache and the rules by which they are written
//! and read back.

use crate::cipher::{
    decrypted, decrypted_text, encrypted_with, fresh_nonce, text_result, Cipher, NONCE_LEN,
};
use crate::json::{
    json_parse_of, parse_json, read_string_list, string_list_of, JsonModel, JsonValue,
};
use crate::models::{clone_opt_string, Provider};
use crate::providers::opt_bytes;
use crate::text::{lower_case, opt_text, push_text, text_eq, texts, to_lower_case, trim, trimmed};
use vstd::prelude::*;
use vstd::string::*;
use vstd::utf8::{encode_utf8, encode_utf8_decode_utf8, encode_utf8_valid_utf8};

verus! {

#[derive(Debug)]
pub enum StorageError {
    Database(String),
    Key(String),
    Encryption,
    Decryption,
    Serialization(String),
    Io(String),
}

pub enum StorageErrorView {
    Database(Seq<char>),
    Key(Seq<char>),
    Encryption,
    Decryption,
    Serialization(Seq<char>),
    Io(Seq<char>),
}

impl View for StorageError {
    type V = StorageErrorView;

    open spec fn view(&self) -> StorageErrorView {
        match self {
            StorageError::Database(m) => StorageErrorView::Database(m@),
            StorageError::Key(m) => StorageErrorView::Key(m@),
            StorageError::Encryption => StorageErrorView::Encryption,
            StorageError::Decryption => StorageErrorView::Decryption,
            StorageError::Serialization(m) => StorageErrorView::Serialization(m@),
            StorageError::Io(m) => StorageErrorView::Io(m@),
        }
    }
}

impl StorageErrorView {
    /// The text an error is logged and shown with.
    pub open spec fn description(self) -> Seq<char> {
        match self {
            StorageErrorView::Database(m) => "database error: "@ + m,
            StorageErrorView::Key(m) => "key error: "@ + m,
            StorageErrorView::Encryption => "encryption error"@,
            StorageErrorView::Decryption => "decryption error"@,
            StorageErrorView::Serialization(m) => "serialization error: "@ + m,
            StorageErrorView::Io(m) => "io error: "@ + m,
        }
    }
}

impl StorageError {
    /// The text an error is logged and shown with.
    pub fn describe(&self) -> (r: String)
        ensures
            r@ == self@.description(),
    {
        match self {
            StorageError::Database(m) => {
                let mut out = "database error: ".to_owned();
                push_text(&mut out, m.as_str());
                out
            },
            StorageError::Key(m) => {
                let mut out = "key error: ".to_owned();
                push_text(&mut out, m.as_str());
                out
            },
            StorageError::Encryption => "encryption error".to_owned(),
            StorageError::Decryption => "decryption error".to_owned(),
            StorageError::Serialization(m) => {
                let mut out = "serialization error: ".to_owned();
                push_text(&mut out, m.as_str());
                out
            },
            StorageError::Io(m) => {
                let mut out = "io error: ".to_owned();
                push_text(&mut out, m.as_str());
                out
            },
        }
    }

    /// The error for a storage worker that did not finish.
    pub fn worker_failure(detail: &str) -> (r: StorageError)
        ensures
            r@ == StorageErrorView::Io("storage worker panicked: "@ + detail@),
    {
        let mut out = "storage worker panicked: ".to_owned();
        push_text(&mut out, detail);
        StorageError::Io(out)
    }

    /// Checks a master key read from disk: any length but 32 is a key error.
    pub fn check_stored_key(key: &Vec<u8>) -> (r: Result<(), StorageError>)
        ensures
            match r {
                Ok(_) => key@.len() == 32,
                Err(e) => key@.len() != 32 && e@ == StorageErrorView::Key(
                    "stored key has invalid length"@,
                ),
            },
    {
        if key.len() != 32 {
            Err(StorageError::Key("stored key has invalid length".to_owned()))
        } else {
            Ok(())
        }
    }
}

#[derive(Debug, Clone, Copy, PartialEq, Eq, Structural)]
pub enum SenderStatus {
    Allowed,
    Blocked,
    Neutral,
}

impl SenderStatus {
    pub open spec fn label(self) -> Seq<char> {
        match self {
            SenderStatus::Allowed => "allowed"@,
            SenderStatus::Blocked => "blocked"@,
            SenderStatus::Neutral => "neutral"@,
        }
    }

    /// The status that a stored label stands for; any unknown label is
    /// neutral.
    pub open spec fn of_label(label: Seq<char>) -> SenderStatus {
        if label == "allowed"@ {
            SenderStatus::Allowed
        } else if label == "blocked"@ {
            SenderStatus::Blocked
        } else {
            SenderStatus::Neutral
        }
    }

    pub fn as_str(&self) -> (r: &'static str)
        ensures
            r@ == self.label(),
    {
        match self {
            SenderStatus::Allowed => "allowed",
            SenderStatus::Blocked => "blocked",
            SenderStatus::Neutral => "neutral",
        }
    }

    pub fn from_str(value: &str) -> (r: SenderStatus)
        ensures
            r == SenderStatus::of_label(value@),
    {
        if text_eq(value, "allowed") {
            SenderStatus::Allowed
        } else if text_eq(value, "blocked") {
            SenderStatus::Blocked
        } else {
            SenderStatus::Neutral
        }
    }
}

/// Every status is read back from its own label.
pub proof fn lemma_status_label_round_trip(status: SenderStatus)
    ensures
        SenderStatus::of_label(status.label()) == status,
{
    reveal_strlit("allowed");
    reveal_strlit("blocked");
    reveal_strlit("neutral");
    assert("allowed"@[0] != "blocked"@[0]);
    assert("allowed"@[0] != "neutral"@[0]);
    assert("blocked"@[0] != "neutral"@[0]);
}

/// The normal form of a sender's address: trimmed, in lower case.
pub open spec fn normalized(email: Seq<char>) -> Seq<char> {
    lower_case(trim(email))
}

pub fn normalize_sender(email: &str) -> (r: String)
    ensures
        r@ == normalized(email@),
{
    let t = trimmed(email);
    to_lower_case(t.as_str())
}

/// What `Sha256::digest` returns for a byte string: its SHA-256 digest.
pub uninterp spec fn sha256_of(data: Seq<u8>) -> Seq<u8>;

/// Calls `Sha256::digest`. The digest is known only by its name.
#[verifier::external_body]
fn sha256(data: &[u8]) -> (r: Vec<u8>)
    ensures
        r@ == sha256_of(data@),
{
    <sha2::Sha256 as sha2::Digest>::digest(data).to_vec()
}

/// The lower-case hexadecimal digit of a value below 16.
pub open spec fn hex_digit(v: int) -> char {
    if v < 10 {
        ((48 + v) as u8) as char
    } else {
        ((87 + v) as u8) as char
    }
}

/// The hexadecimal notation of a byte string: two lower-case digits a byte.
pub open spec fn hex_text(bytes: Seq<u8>) -> Seq<char>
    decreases bytes.len(),
{
    if bytes.len() == 0 {
        Seq::empty()
    } else {
        hex_text(bytes.drop_last()).push(hex_digit(bytes.last() as int / 16)).push(
            hex_digit(bytes.last() as int % 16),
        )
    }
}

/// Calls `hex::encode`, which prints each byte as two lower-case digits.
#[verifier::external_body]
fn hex_encode(bytes: &[u8]) -> (r: String)
    ensures
        r@ == hex_text(bytes@),
{
    hex::encode(bytes)
}

/// The fingerprint of a sender: the SHA-256 digest of the normalized
/// address, in hexadecimal notation.
pub fn sender_fingerprint(email: &str) -> (r: String)
    ensures
        r@ == hex_text(sha256_of(vstd::utf8::encode_utf8(normalized(email@)))),
{
    let normalized = normalize_sender(email);
    let digest = sha256(normalized.as_str().as_bytes());
    hex_encode(digest.as_slice())
}

#[derive(Debug, Clone)]
pub struct MessageInsert {
    pub account_email: String,
    pub uid: String,
    pub sender_display: String,
    pub sender_email: String,
    pub subject: String,
    pub date: Option<String>,
    pub snippet: Option<String>,
    pub body: Option<Vec<u8>>,
    pub flags: Option<String>,
}

pub struct MessageInsertView {
    pub account_email: Seq<char>,
    pub uid: Seq<char>,
    pub sender_display: Seq<char>,
    pub sender_email: Seq<char>,
    pub subject: Seq<char>,
    pub date: Option<Seq<char>>,
    pub snippet: Option<Seq<char>>,
    pub body: Option<Seq<u8>>,
    pub flags: Option<Seq<char>>,
}

impl View for MessageInsert {
    type V = MessageInsertView;

    open spec fn view(&self) -> MessageInsertView {
        MessageInsertView {
            account_email: self.account_email@,
            uid: self.uid@,
            sender_display: self.sender_display@,
            sender_email: self.sender_email@,
            subject: self.subject@,
            date: opt_text(self.date),
            snippet: opt_text(self.snippet),
            body: opt_bytes(self.body),
            flags: opt_text(self.flags),
        }
    }
}

pub open spec fn insert_views(v: Seq<MessageInsert>) -> Seq<MessageInsertView> {
    v.map_values(|m: MessageInsert| m@)
}

/// The verdict of a second model on an analysis. A confidence is held as
/// the text of its number.
#[derive(Debug, Clone)]
pub struct AnalysisValidation {
    pub validator_model_id: Option<String>,
    pub status: Option<String>,
    pub confidence: Option<String>,
    pub notes: Option<String>,
    pub validated_at: Option<i64>,
}

pub struct AnalysisValidationView {
    pub validator_model_id: Option<Seq<char>>,
    pub status: Option<Seq<char>>,
    pub confidence: Option<Seq<char>>,
    pub notes: Option<Seq<char>>,
    pub validated_at: Option<i64>,
}

impl View for AnalysisValidation {
    type V = AnalysisValidationView;

    open spec fn view(&self) -> AnalysisValidationView {
        AnalysisValidationView {
            validator_model_id: opt_text(self.validator_model_id),
            status: opt_text(self.status),
            confidence: opt_text(self.confidence),
            notes: opt_text(self.notes),
            validated_at: self.validated_at,
        }
    }
}

impl AnalysisValidationView {
    /// The validation of an analysis that no model has looked at.
    pub open spec fn none() -> AnalysisValidationView {
        AnalysisValidationView {
            validator_model_id: None,
            status: None,
            confidence: None,
            notes: None,
            validated_at: None,
        }
    }

    /// The validation of an analysis that waits for `validator`.
    pub open spec fn pending(validator: Seq<char>) -> AnalysisValidationView {
        AnalysisValidationView {
            validator_model_id: Some(validator),
            status: Some("pending"@),
            confidence: None,
            notes: None,
            validated_at: None,
        }
    }
}

impl Default for AnalysisValidation {
    fn default() -> (r: AnalysisValidation)
        ensures
            r@ == AnalysisValidationView::none(),
    {
        AnalysisValidation {
            validator_model_id: None,
            status: None,
            confidence: None,
            notes: None,
            validated_at: None,
        }
    }
}

impl AnalysisValidation {
    /// The validation that a run starts with: pending where a validator is
    /// configured, empty otherwise.
    pub fn initial(validator_model_id: &Option<String>) -> (r: AnalysisValidation)
        ensures
            r@ == match validator_model_id {
                Some(v) => AnalysisValidationView::pending(v@),
                None => AnalysisValidationView::none(),
            },
    {
        match validator_model_id {
            Some(validator) => AnalysisValidation {
                validator_model_id: Some(validator.clone()),
                status: Some("pending".to_owned()),
                confidence: None,
                notes: None,
                validated_at: None,
            },
            None => AnalysisValidation {
                validator_model_id: None,
                status: None,
                confidence: None,
                notes: None,
                validated_at: None,
            },
        }
    }
}

/// The analysis of one message as it is written to the cache.
#[derive(Debug)]
pub struct AnalysisInsert {
    pub account_email: String,
    pub uid: String,
    pub summary: Option<String>,
    pub sentiment: Option<String>,
    pub categories: Vec<String>,
    pub metadata_json: JsonValue,
    pub model_id: Option<String>,
    pub analyzed: bool,
    pub analyzed_at: Option<i64>,
    pub analysis_confidence: Option<String>,
    pub validation: AnalysisValidation,
}

pub struct AnalysisInsertView {
    pub account_email: Seq<char>,
    pub uid: Seq<char>,
    pub summary: Option<Seq<char>>,
    pub sentiment: Option<Seq<char>>,
    pub categories: Seq<Seq<char>>,
    pub metadata_json: JsonModel,
    pub model_id: Option<Seq<char>>,
    pub analyzed: bool,
    pub analyzed_at: Option<i64>,
    pub analysis_confidence: Option<Seq<char>>,
    pub validation: AnalysisValidationView,
}

impl View for AnalysisInsert {
    type V = AnalysisInsertView;

    open spec fn view(&self) -> AnalysisInsertView {
        AnalysisInsertView {
            account_email: self.account_email@,
            uid: self.uid@,
            summary: opt_text(self.summary),
            sentiment: opt_text(self.sentiment),
            categories: texts(self.categories@),
            metadata_json: self.metadata_json.model(),
            model_id: opt_text(self.model_id),
            analyzed: self.analyzed,
            analyzed_at: self.analyzed_at,
            analysis_confidence: opt_text(self.analysis_confidence),
            validation: self.validation@,
        }
    }
}

impl AnalysisInsertView {
    /// An analysis that is marked as done says when it was done.
    pub open spec fn consistent(self) -> bool {
        self.analyzed ==> self.analyzed_at is Some
    }
}

pub open spec fn analysis_views(v: Seq<AnalysisInsert>) -> Seq<AnalysisInsertView> {
    v.map_values(|a: AnalysisInsert| a@)
}

#[derive(Debug, Clone)]
pub struct CachedMessageSummary {
    pub uid: String,
    pub subject: String,
    pub sender_email: String,
    pub sender_display: Option<String>,
    pub date: Option<String>,
}

#[derive(Debug, Clone)]
pub struct AccountSyncState {
    pub account_email: String,
    pub last_full_sync: Option<i64>,
    pub last_incremental_sync: Option<i64>,
    pub last_uid: Option<String>,
    pub total_messages: i64,
}

pub struct AccountSyncStateView {
    pub account_email: Seq<char>,
    pub last_full_sync: Option<i64>,
    pub last_incremental_sync: Option<i64>,
    pub last_uid: Option<Seq<char>>,
    pub total_messages: i64,
}

impl View for AccountSyncState {
    type V = AccountSyncStateView;

    open spec fn view(&self) -> AccountSyncStateView {
        AccountSyncStateView {
            account_email: self.account_email@,
            last_full_sync: self.last_full_sync,
            last_incremental_sync: self.last_incremental_sync,
            last_uid: opt_text(self.last_uid),
            total_messages: self.total_messages,
        }
    }
}

#[derive(Debug, Clone)]
pub struct AccountRecord {
    pub provider: Provider,
    pub email: String,
    pub custom_host: Option<String>,
    pub custom_port: Option<u16>,
}

/// One message as the user interface lists it. A confidence is held as the
/// text of its number.
#[derive(Debug)]
pub struct MessageRow {
    pub id: i64,
    pub uid: String,
    pub subject: String,
    pub sender_display: String,
    pub sender_email: String,
    pub date: Option<String>,
    pub snippet: Option<String>,
    pub status: SenderStatus,
    pub flags: Option<String>,
    pub analysis_summary: Option<String>,
    pub analysis_sentiment: Option<String>,
    pub analysis_categories: Vec<String>,
    pub analysis_metadata: Option<JsonValue>,
    pub analysis_model_id: Option<String>,
    pub analysis_analyzed: bool,
    pub analysis_analyzed_at: Option<i64>,
    pub analysis_confidence: Option<String>,
    pub analysis_validator_model_id: Option<String>,
    pub analysis_validation_status: Option<String>,
    pub analysis_validation_confidence: Option<String>,
    pub analysis_validation_notes: Option<String>,
    pub analysis_validated_at: Option<i64>,
    pub body_cached: bool,
}

/// One row of the cache as it is read for the list of messages: the
/// message, the status of its sender and its analysis, the encrypted
/// columns still encrypted, categories and metadata still as JSON text.
#[derive(Debug)]
pub struct RawMessageRow {
    pub id: i64,
    pub uid: String,
    pub sender_email: String,
    pub sender_display: Option<String>,
    pub subject_encrypted: String,
    pub date: Option<String>,
    pub snippet_encrypted: Option<String>,
    pub body_cached: i64,
    pub flags: Option<String>,
    pub status: String,
    pub analysis_summary: Option<String>,
    pub analysis_sentiment: Option<String>,
    pub analysis_categories: Option<String>,
    pub analysis_metadata: Option<String>,
    pub analysis_model_id: Option<String>,
    pub analysis_analyzed: i64,
    pub analysis_analyzed_at: Option<i64>,
    pub analysis_confidence: Option<String>,
    pub analysis_validator_model_id: Option<String>,
    pub analysis_validation_status: Option<String>,
    pub analysis_validation_confidence: Option<String>,
    pub analysis_validation_notes: Option<String>,
    pub analysis_validated_at: Option<i64>,
}

#[derive(Debug)]
pub struct SenderGroup {
    pub sender_email: String,
    pub sender_display: String,
    pub status: SenderStatus,
    pub messages: Vec<MessageRow>,
}

/// What decryption makes of an optional column.
pub open spec fn opt_decrypted(key: Seq<u8>, field: Option<String>) -> Result<
    Option<Seq<char>>,
    StorageErrorView,
> {
    match field {
        Some(text) => match decrypted_text(key, text@) {
            Ok(plain) => Ok(Some(plain)),
            Err(e) => Err(e),
        },
        None => Ok(None),
    }
}

/// Decrypts an optional column.
pub fn decrypt_optional(cipher: &Cipher, field: &Option<String>) -> (r: Result<
    Option<String>,
    StorageError,
>)
    ensures
        match r {
            Ok(plain) => opt_decrypted(cipher.key(), *field) == Ok::<
                Option<Seq<char>>,
                StorageErrorView,
            >(opt_text(plain)),
            Err(e) => opt_decrypted(cipher.key(), *field) is Err && e@
                == StorageErrorView::Decryption,
        },
{
    match field {
        Some(text) => match cipher.decrypt_string(text.as_str()) {
            Ok(plain) => Ok(Some(plain)),
            Err(_) => Err(StorageError::Decryption),
        },
        None => Ok(None),
    }
}

/// What reading a column of categories gives: the list that the JSON text
/// holds, the empty list for a column without value, a serialization error
/// for a text that is no list of strings.
pub open spec fn categories_of(column: Option<String>) -> Result<Seq<Seq<char>>, StorageErrorView> {
    match column {
        Some(text) => match string_list_of(text@) {
            Ok(list) => Ok(list),
            Err(message) => Err(StorageErrorView::Serialization(message)),
        },
        None => Ok(Seq::empty()),
    }
}

/// What reading a column of metadata gives: the document that the JSON
/// text holds, nothing for a column without value, a serialization error
/// for a text that is no JSON.
pub open spec fn metadata_of(column: Option<String>) -> Result<Option<JsonModel>, StorageErrorView> {
    match column {
        Some(text) => match json_parse_of(text@) {
            Ok(document) => Ok(Some(document)),
            Err(message) => Err(StorageErrorView::Serialization(message)),
        },
        None => Ok(None),
    }
}

/// The model of an optional JSON value.
pub open spec fn opt_json(o: Option<JsonValue>) -> Option<JsonModel> {
    match o {
        Some(v) => Some(v.model()),
        None => None,
    }
}

/// Reads a column of categories.
pub fn decode_categories(column: &Option<String>) -> (r: Result<Vec<String>, StorageError>)
    ensures
        match r {
            Ok(list) => categories_of(*column) == Ok::<Seq<Seq<char>>, StorageErrorView>(
                texts(list@),
            ),
            Err(e) => categories_of(*column) == Err::<Seq<Seq<char>>, StorageErrorView>(e@),
        },
{
    match column {
        Some(text) => match read_string_list(text.as_str()) {
            Ok(list) => Ok(list),
            Err(message) => Err(StorageError::Serialization(message)),
        },
        None => {
            let list: Vec<String> = Vec::new();
            assert(texts(list@) =~= Seq::<Seq<char>>::empty());
            Ok(list)
        },
    }
}

/// Reads a column of metadata.
pub fn decode_metadata(column: &Option<String>) -> (r: Result<Option<JsonValue>, StorageError>)
    ensures
        match r {
            Ok(value) => metadata_of(*column) == Ok::<Option<JsonModel>, StorageErrorView>(
                opt_json(value),
            ),
            Err(e) => metadata_of(*column) == Err::<Option<JsonModel>, StorageErrorView>(e@),
        },
{
    match column {
        Some(text) => match parse_json(text.as_str()) {
            Ok(document) => Ok(Some(document)),
            Err(message) => Err(StorageError::Serialization(message)),
        },
        None => Ok(None),
    }
}

/// The error that reading a row meets first, if any: the subject and then
/// the snippet must decrypt, the categories and then the metadata must be
/// read as JSON.
pub open spec fn row_error(key: Seq<u8>, row: RawMessageRow) -> Option<StorageErrorView> {
    if decrypted_text(key, row.subject_encrypted@) is Err {
        Some(StorageErrorView::Decryption)
    } else if opt_decrypted(key, row.snippet_encrypted) is Err {
        Some(StorageErrorView::Decryption)
    } else if categories_of(row.analysis_categories) is Err {
        Some(categories_of(row.analysis_categories)->Err_0)
    } else if metadata_of(row.analysis_metadata) is Err {
        Some(metadata_of(row.analysis_metadata)->Err_0)
    } else {
        None
    }
}

/// `m` is the message that a row of the cache holds: its encrypted
/// columns decrypted, categories and metadata read from their JSON text,
/// its display name the sender's or else the address, its status that of
/// the row's label, every other column as it is.
pub open spec fn decodes_to(key: Seq<u8>, row: RawMessageRow, m: MessageRow) -> bool {
    &&& decrypted_text(key, row.subject_encrypted@) == Ok::<Seq<char>, StorageErrorView>(
        m.subject@,
    )
    &&& opt_decrypted(key, row.snippet_encrypted) == Ok::<Option<Seq<char>>, StorageErrorView>(
        opt_text(m.snippet),
    )
    &&& categories_of(row.analysis_categories) == Ok::<Seq<Seq<char>>, StorageErrorView>(
        texts(m.analysis_categories@),
    )
    &&& metadata_of(row.analysis_metadata) == Ok::<Option<JsonModel>, StorageErrorView>(
        opt_json(m.analysis_metadata),
    )
    &&& m.sender_display@ == match row.sender_display {
        Some(d) => d@,
        None => row.sender_email@,
    }
    &&& m.status == SenderStatus::of_label(row.status@)
    &&& m.analysis_analyzed == (row.analysis_analyzed != 0)
    &&& m.body_cached == (row.body_cached != 0)
    &&& m.id == row.id
    &&& m.uid == row.uid
    &&& m.sender_email == row.sender_email
    &&& m.analysis_analyzed_at == row.analysis_analyzed_at
    &&& m.analysis_validated_at == row.analysis_validated_at
    &&& m.date == row.date
    &&& m.flags == row.flags
    &&& m.analysis_summary == row.analysis_summary
    &&& m.analysis_sentiment == row.analysis_sentiment
    &&& m.analysis_model_id == row.analysis_model_id
    &&& m.analysis_confidence == row.analysis_confidence
    &&& m.analysis_validator_model_id == row.analysis_validator_model_id
    &&& m.analysis_validation_status == row.analysis_validation_status
    &&& m.analysis_validation_confidence == row.analysis_validation_confidence
    &&& m.analysis_validation_notes == row.analysis_validation_notes
}

/// Decodes one row of the cache. It succeeds exactly where the row meets no
/// error, and fails with the error that the row meets first.
pub fn decode_message_row(cipher: &Cipher, row: RawMessageRow) -> (r: Result<
    MessageRow,
    StorageError,
>)
    ensures
        match r {
            Ok(m) => row_error(cipher.key(), row) is None && decodes_to(cipher.key(), row, m),
            Err(e) => row_error(cipher.key(), row) == Some(e@),
        },
{
    let subject = match cipher.decrypt_string(row.subject_encrypted.as_str()) {
        Ok(plain) => plain,
        Err(_) => {
            return Err(StorageError::Decryption);
        },
    };
    let snippet = match decrypt_optional(cipher, &row.snippet_encrypted) {
        Ok(plain) => plain,
        Err(e) => {
            return Err(e);
        },
    };
    let analysis_categories = match decode_categories(&row.analysis_categories) {
        Ok(list) => list,
        Err(e) => {
            return Err(e);
        },
    };
    let analysis_metadata = match decode_metadata(&row.analysis_metadata) {
        Ok(value) => value,
        Err(e) => {
            return Err(e);
        },
    };
    let sender_display = match &row.sender_display {
        Some(d) => d.clone(),
        None => row.sender_email.clone(),
    };
    let status = SenderStatus::from_str(row.status.as_str());
    Ok(
        MessageRow {
            id: row.id,
            uid: row.uid,
            subject,
            sender_display,
            sender_email: row.sender_email,
            date: row.date,
            snippet,
            status,
            flags: row.flags,
            analysis_summary: row.analysis_summary,
            analysis_sentiment: row.analysis_sentiment,
            analysis_categories,
            analysis_metadata,
            analysis_model_id: row.analysis_model_id,
            analysis_analyzed: row.analysis_analyzed != 0,
            analysis_analyzed_at: row.analysis_analyzed_at,
            analysis_confidence: row.analysis_confidence,
            analysis_validator_model_id: row.analysis_validator_model_id,
            analysis_validation_status: row.analysis_validation_status,
            analysis_validation_confidence: row.analysis_validation_confidence,
            analysis_validation_notes: row.analysis_validation_notes,
            analysis_validated_at: row.analysis_validated_at,
            body_cached: row.body_cached != 0,
        },
    )
}

/// Every row was decoded, each into the message at its place.
pub open spec fn decoded_all(key: Seq<u8>, rows: Seq<RawMessageRow>, messages: Seq<MessageRow>) -> bool {
    messages.len() == rows.len() && forall|k: int|
        0 <= k < rows.len() ==> decodes_to(key, #[trigger] rows[k], messages[k])
}

/// The row at `k` is the first that meets an error, and `e` is that error.
pub open spec fn first_row_error(
    key: Seq<u8>,
    rows: Seq<RawMessageRow>,
    k: int,
    e: StorageErrorView,
) -> bool {
    &&& 0 <= k < rows.len()
    &&& row_error(key, rows[k]) == Some(e)
    &&& forall|j: int| 0 <= j < k ==> row_error(key, #[trigger] rows[j]) is None
}

/// Decodes the rows of a query, in their order. The first row that meets an
/// error fails the whole query with that error.
pub fn decode_message_rows(cipher: &Cipher, rows: Vec<RawMessageRow>) -> (r: Result<
    Vec<MessageRow>,
    StorageError,
>)
    ensures
        match r {
            Ok(messages) => decoded_all(cipher.key(), rows@, messages@) && forall|k: int|
                0 <= k < rows.len() ==> row_error(cipher.key(), #[trigger] rows[k]) is None,
            Err(e) => exists|k: int| #[trigger] first_row_error(cipher.key(), rows@, k, e@),
        },
{
    let mut out: Vec<MessageRow> = Vec::new();
    for row in it: rows
        invariant
            it.seq() == rows@,
            out.len() == it.index(),
            forall|k: int|
                0 <= k < it.index() ==> decodes_to(cipher.key(), #[trigger] rows@[k], out@[k]),
            forall|k: int|
                0 <= k < it.index() ==> row_error(cipher.key(), #[trigger] rows@[k]) is None,
    {
        match decode_message_row(cipher, row) {
            Ok(m) => {
                out.push(m);
            },
            Err(e) => {
                assert(first_row_error(cipher.key(), rows@, it.index() as int, e@));
                return Err(e);
            },
        }
    }
    Ok(out)
}

/// A group of messages of one sender, as a value of mathematics.
pub struct GroupModel {
    pub sender_email: Seq<char>,
    pub sender_display: Seq<char>,
    pub status: SenderStatus,
    pub messages: Seq<MessageRow>,
}

impl SenderGroup {
    pub open spec fn model(self) -> GroupModel {
        GroupModel {
            sender_email: self.sender_email@,
            sender_display: self.sender_display@,
            status: self.status,
            messages: self.messages@,
        }
    }
}

pub open spec fn group_models(groups: Seq<SenderGroup>) -> Seq<GroupModel> {
    groups.map_values(|g: SenderGroup| g.model())
}

/// The message with the status of its group.
pub open spec fn with_status(m: MessageRow, status: SenderStatus) -> MessageRow {
    MessageRow { status, ..m }
}

/// The groups of a list of messages: each run of neighbours with one
/// sender address makes a group, which takes the display name and the
/// status of its first message and hands that status to all its messages.
pub open spec fn grouped(messages: Seq<MessageRow>) -> Seq<GroupModel>
    decreases messages.len(),
{
    if messages.len() == 0 {
        Seq::empty()
    } else {
        let before = grouped(messages.drop_last());
        let m = messages.last();
        if before.len() > 0 && before.last().sender_email == m.sender_email@ {
            let open = before.last();
            before.update(
                before.len() - 1,
                GroupModel { messages: open.messages.push(with_status(m, open.status)), ..open },
            )
        } else {
            before.push(
                GroupModel {
                    sender_email: m.sender_email@,
                    sender_display: m.sender_display@,
                    status: m.status,
                    messages: seq![m],
                },
            )
        }
    }
}

/// The UIDs of a list of messages.
pub open spec fn uids_of(messages: Seq<MessageRow>) -> Seq<Seq<char>> {
    messages.map_values(|m: MessageRow| m.uid@)
}

/// The UIDs of all groups, one group after the other.
pub open spec fn listed_uids(groups: Seq<GroupModel>) -> Seq<Seq<char>>
    decreases groups.len(),
{
    if groups.len() == 0 {
        Seq::empty()
    } else {
        listed_uids(groups.drop_last()) + uids_of(groups.last().messages)
    }
}

/// Grouping neither drops a message nor lists one twice: the groups, read
/// one after the other, hold the UIDs of the messages in their order.
pub proof fn lemma_grouping_keeps_every_message(messages: Seq<MessageRow>)
    ensures
        listed_uids(grouped(messages)) == uids_of(messages),
    decreases messages.len(),
{
    if messages.len() == 0 {
        assert(uids_of(messages) =~= Seq::<Seq<char>>::empty());
    } else {
        let rest = messages.drop_last();
        let m = messages.last();
        lemma_grouping_keeps_every_message(rest);
        let before = grouped(rest);
        assert(uids_of(messages) =~= uids_of(rest).push(m.uid@));
        if before.len() > 0 && before.last().sender_email == m.sender_email@ {
            let open = before.last();
            let grown = GroupModel {
                messages: open.messages.push(with_status(m, open.status)),
                ..open
            };
            let after = before.update(before.len() - 1, grown);
            assert(after.drop_last() =~= before.drop_last());
            assert(after.last() == grown);
            assert(uids_of(grown.messages) =~= uids_of(open.messages).push(m.uid@));
            assert(listed_uids(after) =~= listed_uids(before).push(m.uid@));
        } else {
            let fresh = GroupModel {
                sender_email: m.sender_email@,
                sender_display: m.sender_display@,
                status: m.status,
                messages: seq![m],
            };
            let after = before.push(fresh);
            assert(after.drop_last() =~= before);
            assert(uids_of(fresh.messages) =~= seq![m.uid@]);
            assert(listed_uids(after) =~= listed_uids(before).push(m.uid@));
        }
    }
}

pub open spec fn with_open(done: Seq<GroupModel>, open: Option<SenderGroup>) -> Seq<GroupModel> {
    match open {
        Some(g) => done.push(g.model()),
        None => done,
    }
}

/// Groups messages that come ordered by sender.
pub fn group_messages(messages: Vec<MessageRow>) -> (r: Vec<SenderGroup>)
    ensures
        group_models(r@) == grouped(messages@),
{
    let mut groups: Vec<SenderGroup> = Vec::new();
    let mut current: Option<SenderGroup> = None;
    assert(group_models(groups@) =~= Seq::<GroupModel>::empty());
    for m in it: messages
        invariant
            it.seq() == messages@,
            current is None ==> groups.len() == 0,
            with_open(group_models(groups@), current) == grouped(it.seq().take(it.index())),
    {
        let ghost seen = it.seq().take(it.index());
        let ghost next = it.seq().take(it.index() + 1);
        let ghost done = group_models(groups@);
        proof {
            assert(next.drop_last() =~= seen);
            assert(next.last() == m);
        }
        current = match current {
            Some(open) => {
                if open.sender_email == m.sender_email {
                    let mut open = open;
                    let ghost before_model = open.model();
                    let mut m = m;
                    m.status = open.status;
                    open.messages.push(m);
                    proof {
                        assert(done.push(before_model).update(done.len() as int, open.model())
                            =~= done.push(open.model()));
                    }
                    Some(open)
                } else {
                    let ghost closed = open.model();
                    groups.push(open);
                    let fresh = SenderGroup {
                        sender_email: m.sender_email.clone(),
                        sender_display: m.sender_display.clone(),
                        status: m.status,
                        messages: Vec::new(),
                    };
                    let mut fresh = fresh;
                    fresh.messages.push(m);
                    proof {
                        assert(group_models(groups@) =~= done.push(closed));
                        assert(fresh.messages@ =~= seq![m]);
                    }
                    Some(fresh)
                }
            },
            None => {
                let mut fresh = SenderGroup {
                    sender_email: m.sender_email.clone(),
                    sender_display: m.sender_display.clone(),
                    status: m.status,
                    messages: Vec::new(),
                };
                fresh.messages.push(m);
                proof {
                    assert(fresh.messages@ =~= seq![m]);
                }
                Some(fresh)
            },
        };
    }
    assert(messages@.take(messages@.len() as int) =~= messages@);
    match current {
        Some(open) => {
            let ghost done = group_models(groups@);
            let ghost last = open.model();
            groups.push(open);
            assert(group_models(groups@) =~= done.push(last));
        },
        None => {},
    }
    groups
}

/// Decodes the rows of a query that come ordered by sender and groups
/// them. It succeeds exactly where no row meets an error, and fails with
/// the error of the first row that meets one.
pub fn group_rows(cipher: &Cipher, rows: Vec<RawMessageRow>) -> (r: Result<
    Vec<SenderGroup>,
    StorageError,
>)
    ensures
        match r {
            Ok(groups) => (forall|k: int|
                0 <= k < rows.len() ==> row_error(cipher.key(), #[trigger] rows[k]) is None)
                && exists|messages: Seq<MessageRow>|
                decoded_all(cipher.key(), rows@, messages) && #[trigger] grouped(messages)
                    == group_models(groups@),
            Err(e) => exists|k: int| #[trigger] first_row_error(cipher.key(), rows@, k, e@),
        },
{
    match decode_message_rows(cipher, rows) {
        Ok(messages) => {
            let ghost decoded = messages@;
            let groups = group_messages(messages);
            assert(grouped(decoded) == group_models(groups@));
            Ok(groups)
        },
        Err(e) => Err(e),
    }
}

/// What the cache knows of the analysis of a message.
#[derive(Debug)]
pub struct ExistingAnalysisRecord {
    pub analyzed: bool,
    pub analyzed_at: Option<i64>,
    pub model_id: Option<String>,
    pub categories: Vec<String>,
    pub metadata: Option<JsonValue>,
}

#[derive(Debug)]
pub struct MessageForAnalysis {
    pub message_id: i64,
    pub account_email: String,
    pub uid: String,
    pub subject: String,
    pub snippet: Option<String>,
    pub date: Option<String>,
    pub sender_email: String,
    pub sender_display: Option<String>,
    pub existing_analysis: ExistingAnalysisRecord,
}

/// One row of the cache as it is read for analysis.
#[derive(Debug)]
pub struct RawAnalysisRow {
    pub message_id: i64,
    pub uid: String,
    pub subject_encrypted: String,
    pub snippet_encrypted: Option<String>,
    pub date: Option<String>,
    pub sender_email: String,
    pub sender_display: Option<String>,
    pub analyzed: Option<i64>,
    pub analyzed_at: Option<i64>,
    pub model_id: Option<String>,
    pub categories: Option<String>,
    pub metadata: Option<String>,
}

/// The error that reading a row for analysis meets first, if any: the
/// subject and then the snippet must decrypt, the categories and then the
/// metadata must be read as JSON.
pub open spec fn analysis_row_error(key: Seq<u8>, row: RawAnalysisRow) -> Option<StorageErrorView> {
    if decrypted_text(key, row.subject_encrypted@) is Err {
        Some(StorageErrorView::Decryption)
    } else if opt_decrypted(key, row.snippet_encrypted) is Err {
        Some(StorageErrorView::Decryption)
    } else if categories_of(row.categories) is Err {
        Some(categories_of(row.categories)->Err_0)
    } else if metadata_of(row.metadata) is Err {
        Some(metadata_of(row.metadata)->Err_0)
    } else {
        None
    }
}

/// `m` is the message that a row holds for analysis. A row without
/// analysis counts as not analyzed.
pub open spec fn analysis_decodes_to(
    key: Seq<u8>,
    account_email: Seq<char>,
    row: RawAnalysisRow,
    m: MessageForAnalysis,
) -> bool {
    &&& decrypted_text(key, row.subject_encrypted@) == Ok::<Seq<char>, StorageErrorView>(
        m.subject@,
    )
    &&& opt_decrypted(key, row.snippet_encrypted) == Ok::<Option<Seq<char>>, StorageErrorView>(
        opt_text(m.snippet),
    )
    &&& m.account_email@ == account_email
    &&& m.message_id == row.message_id
    &&& m.uid == row.uid
    &&& m.date == row.date
    &&& m.sender_email == row.sender_email
    &&& m.sender_display == row.sender_display
    &&& m.existing_analysis.analyzed == match row.analyzed {
        Some(flag) => flag != 0,
        None => false,
    }
    &&& m.existing_analysis.analyzed_at == row.analyzed_at
    &&& m.existing_analysis.model_id == row.model_id
    &&& categories_of(row.categories) == Ok::<Seq<Seq<char>>, StorageErrorView>(
        texts(m.existing_analysis.categories@),
    )
    &&& metadata_of(row.metadata) == Ok::<Option<JsonModel>, StorageErrorView>(
        opt_json(m.existing_analysis.metadata),
    )
}

pub fn decode_analysis_row(cipher: &Cipher, account_email: &str, row: RawAnalysisRow) -> (r: Result<
    MessageForAnalysis,
    StorageError,
>)
    ensures
        match r {
            Ok(m) => analysis_row_error(cipher.key(), row) is None && analysis_decodes_to(
                cipher.key(),
                account_email@,
                row,
                m,
            ),
            Err(e) => analysis_row_error(cipher.key(), row) == Some(e@),
        },
{
    let subject = match cipher.decrypt_string(row.subject_encrypted.as_str()) {
        Ok(plain) => plain,
        Err(_) => {
            return Err(StorageError::Decryption);
        },
    };
    let snippet = match decrypt_optional(cipher, &row.snippet_encrypted) {
        Ok(plain) => plain,
        Err(e) => {
            return Err(e);
        },
    };
    let categories = match decode_categories(&row.categories) {
        Ok(list) => list,
        Err(e) => {
            return Err(e);
        },
    };
    let metadata = match decode_metadata(&row.metadata) {
        Ok(value) => value,
        Err(e) => {
            return Err(e);
        },
    };
    let analyzed = match row.analyzed {
        Some(flag) => flag != 0,
        None => false,
    };
    Ok(
        MessageForAnalysis {
            message_id: row.message_id,
            account_email: account_email.to_owned(),
            uid: row.uid,
            subject,
            snippet,
            date: row.date,
            sender_email: row.sender_email,
            sender_display: row.sender_display,
            existing_analysis: ExistingAnalysisRecord {
                analyzed,
                analyzed_at: row.analyzed_at,
                model_id: row.model_id,
                categories,
                metadata,
            },
        },
    )
}

/// The most rows that a list of recent messages asks the cache for.
pub const MAX_RECENT_SUMMARIES: usize = 100000;

/// The number of rows to ask for: none for a limit of zero, at most a
/// hundred thousand.
pub fn summaries_limit(limit: usize) -> (r: Option<usize>)
    ensures
        r == if limit == 0 {
            None
        } else if limit > MAX_RECENT_SUMMARIES {
            Some(MAX_RECENT_SUMMARIES)
        } else {
            Some(limit)
        },
{
    if limit == 0 {
        None
    } else if limit > MAX_RECENT_SUMMARIES {
        Some(MAX_RECENT_SUMMARIES)
    } else {
        Some(limit)
    }
}

/// One row of the cache as it is read for the list of recent messages.
#[derive(Debug)]
pub struct RawSummaryRow {
    pub uid: String,
    pub sender_email: String,
    pub sender_display: Option<String>,
    pub subject_encrypted: String,
    pub date: Option<String>,
}

pub fn decode_summary_row(cipher: &Cipher, row: RawSummaryRow) -> (r: Result<
    CachedMessageSummary,
    StorageError,
>)
    ensures
        match r {
            Ok(m) => decrypted_text(cipher.key(), row.subject_encrypted@) == Ok::<
                Seq<char>,
                StorageErrorView,
            >(m.subject@) && m.uid == row.uid && m.sender_email == row.sender_email
                && m.sender_display == row.sender_display && m.date == row.date,
            Err(e) => e@ == StorageErrorView::Decryption && decrypted_text(
                cipher.key(),
                row.subject_encrypted@,
            ) is Err,
        },
{
    match cipher.decrypt_string(row.subject_encrypted.as_str()) {
        Ok(subject) => Ok(
            CachedMessageSummary {
                uid: row.uid,
                subject,
                sender_email: row.sender_email,
                sender_display: row.sender_display,
                date: row.date,
            },
        ),
        Err(_) => Err(StorageError::Decryption),
    }
}

/// A message as it is written to the cache: the sender's address in lower
/// case, subject, snippet and body encrypted.
#[derive(Debug)]
pub struct StoredMessage {
    pub account_email: String,
    pub uid: String,
    pub sender_email: String,
    pub sender_display: String,
    pub subject_encrypted: String,
    pub date: Option<String>,
    pub snippet_encrypted: Option<String>,
    pub body_encrypted: Option<String>,
    pub flags: Option<String>,
    pub created_at: i64,
    pub updated_at: i64,
}

/// `stored` is what the cache holds of `row` when it is written at `now`:
/// every encrypted column decrypts to the row's plaintext, byte for byte.
pub open spec fn stores(key: Seq<u8>, row: MessageInsert, now: i64, stored: StoredMessage) -> bool {
    &&& stored.account_email@ == row.account_email@
    &&& stored.uid@ == row.uid@
    &&& stored.sender_email@ == lower_case(row.sender_email@)
    &&& stored.sender_display@ == row.sender_display@
    &&& decrypted_text(key, stored.subject_encrypted@) == Ok::<Seq<char>, StorageErrorView>(
        row.subject@,
    )
    &&& opt_text(stored.date) == opt_text(row.date)
    &&& match row.snippet {
        Some(text) => stored.snippet_encrypted is Some && decrypted_text(
            key,
            stored.snippet_encrypted->0@,
        ) == Ok::<Seq<char>, StorageErrorView>(text@),
        None => stored.snippet_encrypted is None,
    }
    &&& match row.body {
        Some(bytes) => stored.body_encrypted is Some && decrypted(key, stored.body_encrypted->0@)
            == Ok::<Seq<u8>, StorageErrorView>(bytes@),
        None => stored.body_encrypted is None,
    }
    &&& opt_text(stored.flags) == opt_text(row.flags)
    &&& stored.created_at == now
    &&& stored.updated_at == now
}

/// What sealing a text under a nonce stores: the text is sealed as the
/// bytes that encode it.
pub open spec fn sealed_text(key: Seq<u8>, nonce: Seq<u8>, text: Seq<char>) -> Result<
    Seq<char>,
    StorageErrorView,
> {
    encrypted_with(key, nonce, encode_utf8(text))
}

/// Every encrypted column that a row has can be sealed under its nonce.
pub open spec fn row_seals(
    key: Seq<u8>,
    row: MessageInsert,
    subject_nonce: Seq<u8>,
    snippet_nonce: Seq<u8>,
    body_nonce: Seq<u8>,
) -> bool {
    &&& sealed_text(key, subject_nonce, row.subject@) is Ok
    &&& row.snippet is Some ==> sealed_text(key, snippet_nonce, row.snippet->0@) is Ok
    &&& row.body is Some ==> encrypted_with(key, body_nonce, row.body->0@) is Ok
}

/// Each encrypted column of `stored` is what sealing the row's column under
/// its nonce gives; a column that the row lacks is absent.
pub open spec fn sealed_as(
    key: Seq<u8>,
    row: MessageInsert,
    subject_nonce: Seq<u8>,
    snippet_nonce: Seq<u8>,
    body_nonce: Seq<u8>,
    stored: StoredMessage,
) -> bool {
    &&& sealed_text(key, subject_nonce, row.subject@) == Ok::<Seq<char>, StorageErrorView>(
        stored.subject_encrypted@,
    )
    &&& match row.snippet {
        Some(text) => stored.snippet_encrypted is Some && sealed_text(key, snippet_nonce, text@)
            == Ok::<Seq<char>, StorageErrorView>(stored.snippet_encrypted->0@),
        None => stored.snippet_encrypted is None,
    }
    &&& match row.body {
        Some(bytes) => stored.body_encrypted is Some && encrypted_with(key, body_nonce, bytes@)
            == Ok::<Seq<char>, StorageErrorView>(stored.body_encrypted->0@),
        None => stored.body_encrypted is None,
    }
}

/// Seals a text under a nonce. What is stored decrypts to the text again.
fn seal_text(cipher: &Cipher, nonce: &[u8], text: &str) -> (r: Result<String, StorageError>)
    requires
        nonce@.len() == NONCE_LEN,
    ensures
        text_result(r) == sealed_text(cipher.key(), nonce@, text@),
        r is Ok ==> decrypted_text(cipher.key(), r->Ok_0@) == Ok::<Seq<char>, StorageErrorView>(
            text@,
        ),
{
    proof {
        encode_utf8_valid_utf8(text@);
        encode_utf8_decode_utf8(text@);
    }
    cipher.encrypt_with_nonce(nonce, text.as_bytes())
}

/// Makes the row that is written for a message, each encrypted column
/// sealed under the nonce given for it. It succeeds exactly where the
/// cipher seals every column that the row has.
pub fn prepare_message_with(
    cipher: &Cipher,
    row: &MessageInsert,
    now: i64,
    subject_nonce: &[u8],
    snippet_nonce: &[u8],
    body_nonce: &[u8],
) -> (r: Result<StoredMessage, StorageError>)
    requires
        subject_nonce@.len() == NONCE_LEN,
        snippet_nonce@.len() == NONCE_LEN,
        body_nonce@.len() == NONCE_LEN,
    ensures
        r is Ok <==> row_seals(cipher.key(), *row, subject_nonce@, snippet_nonce@, body_nonce@),
        r is Ok ==> stores(cipher.key(), *row, now, r->Ok_0) && sealed_as(
            cipher.key(),
            *row,
            subject_nonce@,
            snippet_nonce@,
            body_nonce@,
            r->Ok_0,
        ),
        r is Err ==> r->Err_0@ == StorageErrorView::Encryption,
{
    let subject_encrypted = match seal_text(cipher, subject_nonce, row.subject.as_str()) {
        Ok(text) => text,
        Err(e) => {
            return Err(e);
        },
    };
    let snippet_encrypted = match &row.snippet {
        Some(text) => match seal_text(cipher, snippet_nonce, text.as_str()) {
            Ok(sealed) => Some(sealed),
            Err(e) => {
                return Err(e);
            },
        },
        None => None,
    };
    let body_encrypted = match &row.body {
        Some(bytes) => match cipher.encrypt_with_nonce(body_nonce, bytes.as_slice()) {
            Ok(sealed) => Some(sealed),
            Err(e) => {
                return Err(e);
            },
        },
        None => None,
    };
    Ok(
        StoredMessage {
            account_email: row.account_email.clone(),
            uid: row.uid.clone(),
            sender_email: to_lower_case(row.sender_email.as_str()),
            sender_display: row.sender_display.clone(),
            subject_encrypted,
            date: clone_opt_string(&row.date),
            snippet_encrypted,
            body_encrypted,
            flags: clone_opt_string(&row.flags),
            created_at: now,
            updated_at: now,
        },
    )
}

/// Makes the row that is written for a message, each encrypted column
/// sealed under a fresh nonce. Whether it succeeds lies with the random
/// source and the cipher; what it returns decrypts to the row again.
pub fn prepare_message(cipher: &Cipher, row: &MessageInsert, now: i64) -> (r: Result<
    StoredMessage,
    StorageError,
>)
    ensures
        match r {
            Ok(stored) => stores(cipher.key(), *row, now, stored) && exists|
                subject_nonce: Seq<u8>,
                snippet_nonce: Seq<u8>,
                body_nonce: Seq<u8>,
            |
                #[trigger] sealed_as(
                    cipher.key(),
                    *row,
                    subject_nonce,
                    snippet_nonce,
                    body_nonce,
                    stored,
                ),
            Err(e) => e@ == StorageErrorView::Encryption,
        },
{
    let subject_nonce = match fresh_nonce() {
        Some(nonce) => nonce,
        None => {
            return Err(StorageError::Encryption);
        },
    };
    let snippet_nonce = match fresh_nonce() {
        Some(nonce) => nonce,
        None => {
            return Err(StorageError::Encryption);
        },
    };
    let body_nonce = match fresh_nonce() {
        Some(nonce) => nonce,
        None => {
            return Err(StorageError::Encryption);
        },
    };
    let r = prepare_message_with(
        cipher,
        row,
        now,
        subject_nonce.as_slice(),
        snippet_nonce.as_slice(),
        body_nonce.as_slice(),
    );
    proof {
        if r is Ok {
            assert(sealed_as(
                cipher.key(),
                *row,
                subject_nonce@,
                snippet_nonce@,
                body_nonce@,
                r->Ok_0,
            ));
        }
    }
    r
}

/// The nonces under which the encrypted columns of one row are sealed.
#[derive(Debug, Clone)]
pub struct RowNonces {
    pub subject: Vec<u8>,
    pub snippet: Vec<u8>,
    pub body: Vec<u8>,
}

impl RowNonces {
    /// Each nonce has the length of a nonce.
    pub open spec fn wf(self) -> bool {
        self.subject@.len() == NONCE_LEN && self.snippet@.len() == NONCE_LEN && self.body@.len()
            == NONCE_LEN
    }

    /// Draws three fresh nonces; none where the random source fails.
    pub fn fresh() -> (r: Option<RowNonces>)
        ensures
            r is Some ==> r->0.wf(),
    {
        let subject = match fresh_nonce() {
            Some(nonce) => nonce,
            None => {
                return None;
            },
        };
        let snippet = match fresh_nonce() {
            Some(nonce) => nonce,
            None => {
                return None;
            },
        };
        let body = match fresh_nonce() {
            Some(nonce) => nonce,
            None => {
                return None;
            },
        };
        Some(RowNonces { subject, snippet, body })
    }
}

/// The row at `k` of a batch can be sealed under the nonces at `k`.
pub open spec fn batch_row_seals(
    key: Seq<u8>,
    rows: Seq<MessageInsert>,
    nonces: Seq<RowNonces>,
    k: int,
) -> bool {
    row_seals(key, rows[k], nonces[k].subject@, nonces[k].snippet@, nonces[k].body@)
}

/// `stored` is what the cache holds of the row at `k` of a batch written at
/// `now` under the nonces at `k`.
pub open spec fn batch_row_stored(
    key: Seq<u8>,
    rows: Seq<MessageInsert>,
    nonces: Seq<RowNonces>,
    now: i64,
    k: int,
    stored: StoredMessage,
) -> bool {
    stores(key, rows[k], now, stored) && sealed_as(
        key,
        rows[k],
        nonces[k].subject@,
        nonces[k].snippet@,
        nonces[k].body@,
        stored,
    )
}

/// Makes the rows that are written for a batch, the row at each place sealed
/// under the nonces at that place. It succeeds exactly where every row can
/// be sealed; where one cannot, nothing is handed out.
pub fn prepare_messages_with(
    cipher: &Cipher,
    rows: &Vec<MessageInsert>,
    now: i64,
    nonces: &Vec<RowNonces>,
) -> (r: Result<Vec<StoredMessage>, StorageError>)
    requires
        nonces.len() == rows.len(),
        forall|k: int| 0 <= k < nonces.len() ==> (#[trigger] nonces@[k]).wf(),
    ensures
        r is Ok <==> forall|k: int|
            0 <= k < rows.len() ==> #[trigger] batch_row_seals(cipher.key(), rows@, nonces@, k),
        r is Ok ==> r->Ok_0.len() == rows.len() && forall|k: int|
            0 <= k < rows.len() ==> batch_row_stored(
                cipher.key(),
                rows@,
                nonces@,
                now,
                k,
                #[trigger] r->Ok_0@[k],
            ),
        r is Err ==> r->Err_0@ == StorageErrorView::Encryption,
{
    let mut out: Vec<StoredMessage> = Vec::new();
    let mut i: usize = 0;
    while i < rows.len()
        invariant
            i <= rows.len(),
            nonces.len() == rows.len(),
            forall|k: int| 0 <= k < nonces.len() ==> (#[trigger] nonces@[k]).wf(),
            out.len() == i,
            forall|k: int|
                0 <= k < i ==> #[trigger] batch_row_seals(cipher.key(), rows@, nonces@, k),
            forall|k: int|
                0 <= k < i ==> batch_row_stored(
                    cipher.key(),
                    rows@,
                    nonces@,
                    now,
                    k,
                    #[trigger] out@[k],
                ),
        decreases rows.len() - i,
    {
        assert(nonces@[i as int].wf());
        let sealed = prepare_message_with(
            cipher,
            &rows[i],
            now,
            nonces[i].subject.as_slice(),
            nonces[i].snippet.as_slice(),
            nonces[i].body.as_slice(),
        );
        match sealed {
            Ok(stored) => {
                assert(batch_row_seals(cipher.key(), rows@, nonces@, i as int));
                assert(batch_row_stored(cipher.key(), rows@, nonces@, now, i as int, stored));
                out.push(stored);
            },
            Err(e) => {
                assert(!batch_row_seals(cipher.key(), rows@, nonces@, i as int));
                return Err(e);
            },
        }
        i += 1;
    }
    Ok(out)
}

/// Makes the rows that are written for a batch, each column sealed under a
/// fresh nonce. An empty batch always succeeds. Where one row fails, the
/// whole batch fails and nothing is written.
pub fn prepare_messages(cipher: &Cipher, rows: &Vec<MessageInsert>, now: i64) -> (r: Result<
    Vec<StoredMessage>,
    StorageError,
>)
    ensures
        rows.len() == 0 ==> r is Ok,
        match r {
            Ok(stored) => stored.len() == rows.len() && forall|k: int|
                0 <= k < rows.len() ==> stores(cipher.key(), rows@[k], now, #[trigger] stored@[k]),
            Err(e) => e@ == StorageErrorView::Encryption,
        },
{
    let mut nonces: Vec<RowNonces> = Vec::new();
    let mut i: usize = 0;
    while i < rows.len()
        invariant
            i <= rows.len(),
            nonces.len() == i,
            forall|k: int| 0 <= k < i ==> (#[trigger] nonces@[k]).wf(),
        decreases rows.len() - i,
    {
        match RowNonces::fresh() {
            Some(drawn) => {
                nonces.push(drawn);
            },
            None => {
                return Err(StorageError::Encryption);
            },
        }
        i += 1;
    }
    let r = prepare_messages_with(cipher, rows, now, &nonces);
    proof {
        if r is Ok {
            assert forall|k: int| 0 <= k < rows.len() implies stores(
                cipher.key(),
                rows@[k],
                now,
                #[trigger] r->Ok_0@[k],
            ) by {
                assert(batch_row_stored(cipher.key(), rows@, nonces@, now, k, r->Ok_0@[k]));
            }
        }
    }
    r
}

pub struct StoredMessageView {
    pub account_email: Seq<char>,
    pub uid: Seq<char>,
    pub sender_email: Seq<char>,
    pub sender_display: Seq<char>,
    pub subject_encrypted: Seq<char>,
    pub date: Option<Seq<char>>,
    pub snippet_encrypted: Option<Seq<char>>,
    pub body_encrypted: Option<Seq<char>>,
    pub flags: Option<Seq<char>>,
    pub created_at: i64,
    pub updated_at: i64,
}

impl View for StoredMessage {
    type V = StoredMessageView;

    open spec fn view(&self) -> StoredMessageView {
        StoredMessageView {
            account_email: self.account_email@,
            uid: self.uid@,
            sender_email: self.sender_email@,
            sender_display: self.sender_display@,
            subject_encrypted: self.subject_encrypted@,
            date: opt_text(self.date),
            snippet_encrypted: opt_text(self.snippet_encrypted),
            body_encrypted: opt_text(self.body_encrypted),
            flags: opt_text(self.flags),
            created_at: self.created_at,
            updated_at: self.updated_at,
        }
    }
}

/// What the cache holds already under the key of a message that is about
/// to be written: the id of its row and the time at which it was created.
#[derive(Debug, Clone, Copy, PartialEq, Eq, Structural)]
pub struct ExistingRow {
    pub id: i64,
    pub created_at: i64,
}

/// How a message is written: as a new row, or over the row that its key
/// has already.
#[derive(Debug)]
pub enum RowWrite {
    Insert(StoredMessage),
    Update { id: i64, row: StoredMessage },
}

pub enum RowWriteView {
    Insert(StoredMessageView),
    Update { id: i64, row: StoredMessageView },
}

impl View for RowWrite {
    type V = RowWriteView;

    open spec fn view(&self) -> RowWriteView {
        match self {
            RowWrite::Insert(row) => RowWriteView::Insert(row@),
            RowWrite::Update { id, row } => RowWriteView::Update { id: *id, row: row@ },
        }
    }
}

/// The write of a message: a key without a row gets a new one; a key with
/// a row keeps the row's id and its time of creation and takes every other
/// column from the message.
pub open spec fn write_of(existing: Option<ExistingRow>, stored: StoredMessageView) -> RowWriteView {
    match existing {
        Some(found) => RowWriteView::Update {
            id: found.id,
            row: StoredMessageView { created_at: found.created_at, ..stored },
        },
        None => RowWriteView::Insert(stored),
    }
}

/// Decides how a message is written, given what the cache holds under its
/// key.
pub fn plan_write(existing: Option<ExistingRow>, stored: StoredMessage) -> (r: RowWrite)
    ensures
        r@ == write_of(existing, stored@),
{
    match existing {
        Some(found) => {
            let mut row = stored;
            row.created_at = found.created_at;
            RowWrite::Update { id: found.id, row }
        },
        None => RowWrite::Insert(stored),
    }
}

/// One row of the messages table.
pub struct TableRow {
    pub id: int,
    pub row: StoredMessageView,
}

/// The messages table as a value of mathematics: one row for each key of
/// account and UID, and the id that the next new row gets.
pub struct MessageTable {
    pub rows: Map<(Seq<char>, Seq<char>), TableRow>,
    pub next_id: int,
}

/// The key of a message: its account and its UID.
pub open spec fn key_of(row: StoredMessageView) -> (Seq<char>, Seq<char>) {
    (row.account_email, row.uid)
}

impl MessageTable {
    /// What the table holds under a key, as the write plan reads it. The
    /// ids of the table are ids that a row can have.
    pub open spec fn existing(self, key: (Seq<char>, Seq<char>)) -> Option<ExistingRow> {
        if self.rows.dom().contains(key) {
            Some(
                ExistingRow {
                    id: self.rows[key].id as i64,
                    created_at: self.rows[key].row.created_at,
                },
            )
        } else {
            None
        }
    }

    /// Every id of the table, and the next one, is an id that a row can
    /// have.
    pub open spec fn wf(self) -> bool {
        &&& i64::MIN <= self.next_id <= i64::MAX
        &&& forall|key: (Seq<char>, Seq<char>)|
            self.rows.dom().contains(key) ==> i64::MIN <= (#[trigger] self.rows[key]).id
                <= i64::MAX
    }

    /// The table after a write.
    pub open spec fn applied(self, write: RowWriteView) -> MessageTable {
        match write {
            RowWriteView::Insert(row) => MessageTable {
                rows: self.rows.insert(key_of(row), TableRow { id: self.next_id, row }),
                next_id: self.next_id + 1,
            },
            RowWriteView::Update { id, row } => MessageTable {
                rows: self.rows.insert(key_of(row), TableRow { id: id as int, row }),
                next_id: self.next_id,
            },
        }
    }

    /// The table after a message was upserted.
    pub open spec fn upserted(self, stored: StoredMessageView) -> MessageTable {
        self.applied(write_of(self.existing(key_of(stored)), stored))
    }

    /// The table after a batch was upserted, row by row.
    pub open spec fn upserted_all(self, batch: Seq<StoredMessageView>) -> MessageTable
        decreases batch.len(),
    {
        if batch.len() == 0 {
            self
        } else {
            self.upserted_all(batch.drop_last()).upserted(batch.last())
        }
    }
}

/// After a message was upserted, the table holds one row under its key,
/// with the columns of the message, and every other row is as it was.
pub proof fn lemma_upsert_holds_one_row(table: MessageTable, stored: StoredMessageView)
    requires
        table.wf(),
    ensures
        table.upserted(stored).rows.dom() == table.rows.dom().insert(key_of(stored)),
        table.upserted(stored).rows[key_of(stored)].row == (StoredMessageView {
            created_at: table.upserted(stored).rows[key_of(stored)].row.created_at,
            ..stored
        }),
        forall|key: (Seq<char>, Seq<char>)|
            key != key_of(stored) && table.rows.dom().contains(key) ==> table.upserted(
                stored,
            ).rows[key] == table.rows[key],
{
}

/// An upsert over a row that exists keeps the row's id and its time of
/// creation and writes the time of the update anew; an upsert of a new key
/// creates the row at the time of the write.
pub proof fn lemma_upsert_keeps_creation(table: MessageTable, stored: StoredMessageView)
    requires
        table.wf(),
    ensures
        table.rows.dom().contains(key_of(stored)) ==> {
            &&& table.upserted(stored).rows[key_of(stored)].id == table.rows[key_of(stored)].id
            &&& table.upserted(stored).rows[key_of(stored)].row.created_at
                == table.rows[key_of(stored)].row.created_at
            &&& table.upserted(stored).next_id == table.next_id
        },
        !table.rows.dom().contains(key_of(stored)) ==> table.upserted(
            stored,
        ).rows[key_of(stored)].row.created_at == stored.created_at,
        table.upserted(stored).rows[key_of(stored)].row.updated_at == stored.updated_at,
{
}

/// Upserting the same message a second time changes nothing; upserting it
/// again at a later time changes the time of the update and nothing else.
pub proof fn lemma_upsert_twice(table: MessageTable, stored: StoredMessageView, later: i64)
    requires
        table.wf(),
    ensures
        table.upserted(stored).upserted(stored) == table.upserted(stored),
        ({
            let once = table.upserted(stored);
            let twice = once.upserted(StoredMessageView { updated_at: later, ..stored });
            &&& twice.next_id == once.next_id
            &&& twice.rows.dom() == once.rows.dom()
            &&& twice.rows[key_of(stored)].id == once.rows[key_of(stored)].id
            &&& twice.rows[key_of(stored)].row == (StoredMessageView {
                updated_at: later,
                ..once.rows[key_of(stored)].row
            })
            &&& forall|key: (Seq<char>, Seq<char>)|
                key != key_of(stored) && once.rows.dom().contains(key) ==> twice.rows[key]
                    == once.rows[key]
        }),
{
    let once = table.upserted(stored);
    let key = key_of(stored);
    assert(once.rows.dom().contains(key));
    let again = once.upserted(stored);
    assert(again.rows =~= once.rows);
    let twice = once.upserted(StoredMessageView { updated_at: later, ..stored });
    assert(twice.rows.dom() =~= once.rows.dom());
}

/// An empty batch leaves the table as it is.
pub proof fn lemma_empty_batch_changes_nothing(table: MessageTable)
    ensures
        table.upserted_all(Seq::empty()) == table,
{
}

/// The categories as they are written: no value for an empty list.
pub fn stored_categories(categories: &Vec<String>) -> (r: Option<&Vec<String>>)
    ensures
        r == if categories.len() == 0 {
            None
        } else {
            Some(categories)
        },
{
    if categories.len() == 0 {
        None
    } else {
        Some(categories)
    }
}

/// The metadata as it is written: no value for null.
pub fn stored_metadata(metadata: &JsonValue) -> (r: Option<&JsonValue>)
    ensures
        r == if metadata.model() == JsonModel::Null {
            None
        } else {
            Some(metadata)
        },
{
    match metadata {
        JsonValue::Null => None,
        _ => Some(metadata),
    }
}

/// The flag that is written for an analysis: one where it is done.
pub fn analyzed_flag(analyzed: bool) -> (r: i64)
    ensures
        r == if analyzed {
            1i64
        } else {
            0i64
        },
{
    if analyzed {
        1
    } else {
        0
    }
}

/// The number of messages that a count of the cache stands for.
pub fn message_count(count: i64) -> (r: usize)
    ensures
        r == if count < 0 {
            0
        } else if count > usize::MAX {
            usize::MAX as int
        } else {
            count as int
        },
{
    if count < 0 {
        0
    } else if count as u64 > usize::MAX as u64 {
        usize::MAX
    } else {
        count as usize
    }
}

/// The sync state of an account after a sync that ended at `now`. The time
/// of the last full sync and the last UID are kept where the sync brings
/// none; the time of the last incremental sync and the number of messages
/// are always written anew.
pub open spec fn merged_sync_state(
    existing: Option<AccountSyncStateView>,
    account_email: Seq<char>,
    last_uid: Option<Seq<char>>,
    is_full: bool,
    total_messages: usize,
    now: i64,
) -> AccountSyncStateView {
    AccountSyncStateView {
        account_email: lower_case(account_email),
        last_full_sync: if is_full {
            Some(now)
        } else {
            match existing {
                Some(e) => e.last_full_sync,
                None => None,
            }
        },
        last_incremental_sync: Some(now),
        last_uid: match last_uid {
            Some(uid) => Some(uid),
            None => match existing {
                Some(e) => e.last_uid,
                None => None,
            },
        },
        total_messages: if total_messages > i64::MAX {
            i64::MAX
        } else {
            total_messages as i64
        },
    }
}

pub open spec fn opt_state(o: Option<&AccountSyncState>) -> Option<AccountSyncStateView> {
    match o {
        Some(s) => Some(s@),
        None => None,
    }
}

pub open spec fn opt_str_text(o: Option<&str>) -> Option<Seq<char>> {
    match o {
        Some(s) => Some(s@),
        None => None,
    }
}

pub fn merge_sync_state(
    existing: Option<&AccountSyncState>,
    account_email: &str,
    last_uid: Option<&str>,
    is_full: bool,
    total_messages: usize,
    now: i64,
) -> (r: AccountSyncState)
    ensures
        r@ == merged_sync_state(
            opt_state(existing),
            account_email@,
            opt_str_text(last_uid),
            is_full,
            total_messages,
            now,
        ),
{
    let last_full_sync = if is_full {
        Some(now)
    } else {
        match existing {
            Some(e) => e.last_full_sync,
            None => None,
        }
    };
    let uid = match last_uid {
        Some(uid) => Some(uid.to_owned()),
        None => match existing {
            Some(e) => clone_opt_string(&e.last_uid),
            None => None,
        },
    };
    let total: i64 = if total_messages as u64 > i64::MAX as u64 {
        i64::MAX
    } else {
        total_messages as i64
    };
    AccountSyncState {
        account_email: to_lower_case(account_email),
        last_full_sync,
        last_incremental_sync: Some(now),
        last_uid: uid,
        total_messages: total,
    }
}

/// A sync that brings no new UID and is not full leaves the watermark and
/// the time of the last full sync as they were.
pub proof fn lemma_partial_sync_keeps_progress(
    existing: AccountSyncStateView,
    account_email: Seq<char>,
    total_messages: usize,
    now: i64,
)
    ensures
        merged_sync_state(Some(existing), account_email, None, false, total_messages, now).last_uid
            == existing.last_uid,
        merged_sync_state(
            Some(existing),
            account_email,
            None,
            false,
            total_messages,
            now,
        ).last_full_sync == existing.last_full_sync,
        merged_sync_state(
            Some(existing),
            account_email,
            None,
            false,
            total_messages,
            now,
        ).last_incremental_sync == Some(now),
{
}

/// The account that a stored row stands for: none where the provider's key
/// is unknown; a port that no port number can be is left out.
pub fn account_record(
    email: String,
    provider_key: &str,
    custom_host: Option<String>,
    custom_port: Option<i64>,
) -> (r: Option<AccountRecord>)
    ensures
        match Provider::of_key(provider_key@) {
            Some(provider) => r is Some && r->0.provider == provider && r->0.email == email
                && r->0.custom_host == custom_host && r->0.custom_port == match custom_port {
                Some(p) => if 0 <= p <= u16::MAX {
                    Some(p as u16)
                } else {
                    None
                },
                None => None,
            },
            None => r is None,
        },
{
    match Provider::from_key(provider_key) {
        Some(provider) => {
            let port = match custom_port {
                Some(p) => if 0 <= p && p <= 65535 {
                    Some(p as u16)
                } else {
                    None
                },
                None => None,
            };
            Some(AccountRecord { provider, email, custom_host, custom_port: port })
        },
        None => None,
    }
}

/// The senders that are blocked, in the order of the list.
pub open spec fn blocked_of(statuses: Seq<(String, SenderStatus)>) -> Seq<Seq<char>>
    decreases statuses.len(),
{
    if statuses.len() == 0 {
        Seq::empty()
    } else if statuses.last().1 == SenderStatus::Blocked {
        blocked_of(statuses.drop_last()).push(statuses.last().0@)
    } else {
        blocked_of(statuses.drop_last())
    }
}

pub fn blocked_senders(statuses: &Vec<(String, SenderStatus)>) -> (r: Vec<String>)
    ensures
        texts(r@) == blocked_of(statuses@),
{
    let mut out: Vec<String> = Vec::new();
    let mut i: usize = 0;
    while i < statuses.len()
        invariant
            i <= statuses.len(),
            texts(out@) == blocked_of(statuses@.take(i as int)),
        decreases statuses.len() - i,
    {
        assert(statuses@.take(i + 1).drop_last() =~= statuses@.take(i as int));
        let blocked = match statuses[i].1 {
            SenderStatus::Blocked => true,
            _ => false,
        };
        if blocked {
            let ghost before = texts(out@);
            out.push(statuses[i].0.clone());
            assert(texts(out@) =~= before.push(statuses@[i as int].0@));
        }
        i += 1;
    }
    assert(statuses@.take(statuses.len() as int) =~= statuses@);
    out
}

} // verus!
