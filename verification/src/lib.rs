//! A pure-Rust client-side implementation of the X Window System display
//! protocol's connection establishment: display-address resolution, reading
//! locally stored authentication credentials, and the binary SETUP handshake
//! over a byte-stream transport.

mod connection;
mod display;
mod framed;
mod protocol;
mod utils;
mod xauthority;

pub use connection::{CapabilityError, Connection, ConnectionError};
pub use display::{
    after_colon, all_digits, colon_index, dec_value, digit_char, digit_val, display_segment,
    dot_index, first_index_of, is_digit, lemma_canonical_digits, lemma_dec_value_nonneg,
    lemma_dec_value_pos, lemma_dec_value_prefix, lemma_first_index_at, lemma_first_index_of,
    lemma_malformed_rejected, lemma_parse_then_format, screen_segment, spec_digits_of, spec_format,
    spec_parse, valid_u16_digits, Display, DisplayError, DisplayView,
};
pub use framed::{
    first_byte_index, lemma_first_byte_index, DecodeStep, Decoder, Encoder, Framed, FramedError,
    LinesCodec, MemoryStream, StreamError, StreamMarker,
};
pub use protocol::{
    lemma_pad_aligns, pad, spec_pad, spec_setup_bytes, Deserialize, Serialize, SetupCodec,
    SetupRequest, SetupRequestError, PROTOCOL_MAJOR_VERSION, PROTOCOL_MINOR_VERSION,
};
pub use utils::{
    be16_val, be32_val, be64_val, le16_val, le32_val, le64_val, spec_i16_bits, spec_i32_bits,
    spec_i64_bits, spec_i8_bits, spec_u16_be, spec_u16_le, spec_u32_be, spec_u32_le, spec_u64_be,
    spec_u64_le, ByteOrder, ByteReader, WriteBytesExt,
};
pub use xauthority::{
    all_digit_bytes, dec_value_bytes, entry_matches, from_reader, is_digit_byte,
    is_record_boundary, lemma_entry_consumes, lemma_truncated_fails, lossy_of, read_entry,
    read_sized_string, spec_family_code, spec_family_of, spec_parse_entries, spec_parse_entry,
    spec_sized_ok, spec_sized_rest, spec_sized_str, valid_u16_digit_bytes, AuthParse,
    ConnectionFamily, EntryParse, ParseError, XAuthEntry, XAuthEntryData, XAuthEntryView,
};
