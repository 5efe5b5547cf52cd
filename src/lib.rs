pub mod bindings;
pub mod chars;
pub mod data_url;
pub mod laws;
pub mod media_type;
pub mod meta_data;
pub mod percent;

pub use chars::chars_of;
pub use data_url::{DataUrl, DataUrlParseError, DataUrlView};
pub use laws::{
    lemma_bad_charset_clears, lemma_binary_ignores_charset_and_data,
    lemma_canonical_components_decode,
};
pub use media_type::{
    detect_media_type, detect_media_type_by_file_name, media_type_for_file_name, validate_media_type,
};
pub use meta_data::parse_data_url_meta_data;
