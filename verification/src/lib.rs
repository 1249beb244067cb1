mod codegen;
mod models;
mod service;
mod store;

pub use codegen::ALPHABET_SIZE;
pub use codegen::DEFAULT_CODE_LENGTH;
pub use codegen::GenerationError;
pub use codegen::MAX_ATTEMPTS;
pub use codegen::code_symbol;
pub use codegen::generate_random_string;
pub use codegen::generate_unique_short_code;
pub use codegen::generate_unique_short_code_with_probe;
pub use codegen::is_code_char;
pub use codegen::valid_code;
pub use models::Message;
pub use models::RecordView;
pub use models::ShortCode;
pub use models::UrlDbSchema;
pub use models::UrlExistsRequest;
pub use models::valid_record;
pub use service::shorten_url;
pub use store::InsertError;
pub use store::UrlStore;
pub use store::codes_unique;
pub use store::contains_code;
pub use store::keeps_code;
pub use store::lemma_codes_unique;
pub use store::lemma_find_means_contains;
pub use store::lemma_delete_terminal;
pub use store::lemma_insert_round_trip;
pub use store::owned_by;
pub use store::spec_find;
