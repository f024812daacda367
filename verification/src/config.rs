//! Config values that validators read: how a temporal unit is inferred, and how bytes
//! are read from a JSON string (as UTF-8, base64 or hex).
use vstd::prelude::*;
use base64::alphabet;
use base64::engine::general_purpose::GeneralPurpose;
use base64::engine::{DecodePaddingMode, GeneralPurposeConfig};
use base64::{DecodeError, Engine};
use crate::errors::ErrorType;
use crate::lookup::str_eq;

verus! {

#[derive(Debug, PartialEq, Eq, Structural, Clone, Copy)]
pub enum TemporalUnitMode {
    Seconds,
    Milliseconds,
    Infer,
}

/// The name of a temporal unit mode.
pub open spec fn temporal_unit_name(m: TemporalUnitMode) -> Seq<char> {
    match m {
        TemporalUnitMode::Seconds => "seconds"@,
        TemporalUnitMode::Milliseconds => "milliseconds"@,
        TemporalUnitMode::Infer => "infer"@,
    }
}

/// The temporal unit mode with the name `s`, where there is one.
pub open spec fn temporal_unit_named(s: Seq<char>) -> Option<TemporalUnitMode> {
    if s == "seconds"@ {
        Some(TemporalUnitMode::Seconds)
    } else if s == "milliseconds"@ {
        Some(TemporalUnitMode::Milliseconds)
    } else if s == "infer"@ {
        Some(TemporalUnitMode::Infer)
    } else {
        None
    }
}

/// Reading a temporal unit mode's name gives the mode back.
pub proof fn temporal_unit_name_round_trip(m: TemporalUnitMode)
    ensures
        temporal_unit_named(temporal_unit_name(m)) == Some(m),
{
    reveal_strlit("seconds");
    reveal_strlit("milliseconds");
    reveal_strlit("infer");
    assert("seconds"@[0] == 's' && "milliseconds"@[0] == 'm' && "infer"@[0] == 'i');
}

impl TemporalUnitMode {
    /// Reads the mode from its name.
    pub fn from_str(s: &str) -> (r: Result<TemporalUnitMode, String>)
        ensures
            match temporal_unit_named(s@) {
                Some(m) => r == Ok::<TemporalUnitMode, String>(m),
                None => r matches Err(m) && m@ == "Invalid temporal_unit_mode serialization mode: `"@ + s@
                    + "`, expected seconds, milliseconds or infer"@,
            },
    {
        proof {
            reveal_strlit("seconds");
            reveal_strlit("milliseconds");
            reveal_strlit("infer");
            assert("seconds"@[0] == 's' && "milliseconds"@[0] == 'm' && "infer"@[0] == 'i');
        }
        if str_eq(s, "seconds") {
            Ok(TemporalUnitMode::Seconds)
        } else if str_eq(s, "milliseconds") {
            Ok(TemporalUnitMode::Milliseconds)
        } else if str_eq(s, "infer") {
            Ok(TemporalUnitMode::Infer)
        } else {
            let mut m = String::from_str("Invalid temporal_unit_mode serialization mode: `");
            m.append(s);
            m.append("`, expected seconds, milliseconds or infer");
            Err(m)
        }
    }

    /// The mode's name.
    pub fn as_str(&self) -> (r: &'static str)
        ensures
            r@ == temporal_unit_name(*self),
    {
        match self {
            TemporalUnitMode::Seconds => "seconds",
            TemporalUnitMode::Milliseconds => "milliseconds",
            TemporalUnitMode::Infer => "infer",
        }
    }

    /// The mode that the config sets, else `infer`.
    pub fn from_config(val_temporal_unit: Option<TemporalUnitMode>) -> (r: TemporalUnitMode)
        ensures
            r == (match val_temporal_unit {
                Some(m) => m,
                None => TemporalUnitMode::Infer,
            }),
    {
        match val_temporal_unit {
            Some(m) => m,
            None => TemporalUnitMode::Infer,
        }
    }
}

/// How bytes are written in a JSON string.
#[derive(Debug, PartialEq, Eq, Structural, Clone, Copy)]
pub enum BytesMode {
    Utf8,
    Base64,
    Hex,
}

#[derive(Debug, PartialEq, Eq, Structural, Clone, Copy)]
pub struct ValBytesMode {
    pub ser: BytesMode,
}

/// Why a decoder refused a string.
#[derive(Debug)]
pub enum DecodeFailure {
    /// A byte that the alphabet does not hold (with the error's message).
    InvalidByte { byte: u8, message: String },
    /// Any other reason (with the error's message).
    Other { message: String },
}

/// What a decoder gives for a string, as plain values.
pub enum DecodeOutcome {
    Decoded(Seq<u8>),
    InvalidByte { byte: u8, message: Seq<char> },
    Failed { message: Seq<char> },
}

pub open spec fn decode_outcome_of(r: Result<Vec<u8>, DecodeFailure>) -> DecodeOutcome {
    match r {
        Ok(v) => DecodeOutcome::Decoded(v@),
        Err(DecodeFailure::InvalidByte { byte, message }) => DecodeOutcome::InvalidByte { byte, message: message@ },
        Err(DecodeFailure::Other { message }) => DecodeOutcome::Failed { message: message@ },
    }
}

/// What base64 decoding (URL-safe alphabet, padding optional) gives for a string.
pub uninterp spec fn base64_url_safe_decoded(s: Seq<char>) -> DecodeOutcome;

/// What base64 decoding (standard alphabet, padding optional) gives for a string.
pub uninterp spec fn base64_standard_decoded(s: Seq<char>) -> DecodeOutcome;

/// What hex decoding gives for a string.
pub uninterp spec fn hex_decoded(s: Seq<char>) -> DecodeOutcome;

/// `Engine::decode` of a `GeneralPurpose` engine with the URL-safe alphabet and
/// indifferent padding: the bytes, or the error (an invalid byte told apart). What it
/// gives is named, as a function of the string alone.
#[verifier::external_body]
fn decode_base64_url_safe(s: &str) -> (r: Result<Vec<u8>, DecodeFailure>)
    ensures
        decode_outcome_of(r) == base64_url_safe_decoded(s@),
{
    let config = GeneralPurposeConfig::new().with_decode_padding_mode(DecodePaddingMode::Indifferent);
    match GeneralPurpose::new(&alphabet::URL_SAFE, config).decode(s) {
        Ok(v) => Ok(v),
        Err(e @ DecodeError::InvalidByte(_, byte)) => Err(DecodeFailure::InvalidByte { byte, message: e.to_string() }),
        Err(e) => Err(DecodeFailure::Other { message: e.to_string() }),
    }
}

/// `Engine::decode` of a `GeneralPurpose` engine with the standard alphabet and
/// indifferent padding: the bytes, or the error (an invalid byte told apart). What it
/// gives is named, as a function of the string alone.
#[verifier::external_body]
fn decode_base64_standard(s: &str) -> (r: Result<Vec<u8>, DecodeFailure>)
    ensures
        decode_outcome_of(r) == base64_standard_decoded(s@),
{
    let config = GeneralPurposeConfig::new().with_decode_padding_mode(DecodePaddingMode::Indifferent);
    match GeneralPurpose::new(&alphabet::STANDARD, config).decode(s) {
        Ok(v) => Ok(v),
        Err(e @ DecodeError::InvalidByte(_, byte)) => Err(DecodeFailure::InvalidByte { byte, message: e.to_string() }),
        Err(e) => Err(DecodeFailure::Other { message: e.to_string() }),
    }
}

/// `hex::decode`: the bytes, or the error's message. What it gives is named, as a
/// function of the string alone.
#[verifier::external_body]
fn decode_hex(s: &str) -> (r: Result<Vec<u8>, DecodeFailure>)
    ensures
        decode_outcome_of(r) == hex_decoded(s@),
        !(r matches Err(DecodeFailure::InvalidByte { .. })),
{
    match hex::decode(s) {
        Ok(v) => Ok(v),
        Err(e) => Err(DecodeFailure::Other { message: e.to_string() }),
    }
}

/// The message of a decoder's failure.
pub open spec fn failure_message(o: DecodeOutcome) -> Seq<char> {
    match o {
        DecodeOutcome::InvalidByte { message, .. } => message,
        DecodeOutcome::Failed { message } => message,
        DecodeOutcome::Decoded(_) => Seq::empty(),
    }
}

/// What reading `s` as base64 gives: the URL-safe alphabet first; where that meets a `/`
/// or a `+`, the standard alphabet.
pub open spec fn spec_base64(s: Seq<char>) -> DecodeOutcome {
    base64_fallback(base64_url_safe_decoded(s), base64_standard_decoded(s))
}

/// Whether the URL-safe decoding `first` met a `/` or a `+`, so that the standard alphabet
/// is tried.
pub open spec fn needs_standard(first: DecodeOutcome) -> bool {
    first matches DecodeOutcome::InvalidByte { byte, .. } && (byte == 47 || byte == 43)
}

/// What reading base64 gives from the URL-safe decoding `first` and the standard decoding
/// `second` (used only where `first` met a `/` or a `+`).
pub open spec fn base64_fallback(first: DecodeOutcome, second: DecodeOutcome) -> DecodeOutcome {
    if needs_standard(first) {
        second
    } else {
        first
    }
}

/// Whether the URL-safe decoding `first` met a `/` or a `+` (see `needs_standard`).
pub fn needs_standard_alphabet(first: &Result<Vec<u8>, DecodeFailure>) -> (r: bool)
    ensures
        r == needs_standard(decode_outcome_of(*first)),
{
    match first {
        Err(DecodeFailure::InvalidByte { byte, .. }) => *byte == 47 || *byte == 43,
        _ => false,
    }
}

/// The bytes that a base64 string stands for, from its URL-safe decoding `first` and,
/// where that met a `/` or a `+`, its standard decoding `second`; a string that does not
/// decode is an invalid-encoding error with the decoder's message.
pub fn base64_result(first: Result<Vec<u8>, DecodeFailure>, second: Option<Result<Vec<u8>, DecodeFailure>>) -> (r: Result<
    Vec<u8>,
    ErrorType,
>)
    requires
        needs_standard(decode_outcome_of(first)) ==> second is Some,
    ensures
        needs_standard(decode_outcome_of(first)) ==> decoded_result(decode_outcome_of(second->Some_0), "base64"@, r),
        !needs_standard(decode_outcome_of(first)) ==> decoded_result(decode_outcome_of(first), "base64"@, r),
{
    let decoded = if needs_standard_alphabet(&first) {
        match second {
            Some(d) => d,
            None => first,
        }
    } else {
        first
    };
    match decoded {
        Ok(v) => Ok(v),
        Err(DecodeFailure::InvalidByte { message, .. }) => Err(
            ErrorType::BytesInvalidEncoding { encoding: String::from_str("base64"), encoding_error: message },
        ),
        Err(DecodeFailure::Other { message }) => Err(
            ErrorType::BytesInvalidEncoding { encoding: String::from_str("base64"), encoding_error: message },
        ),
    }
}

/// The result of reading a string `s` as bytes with the encoding `encoding`, given what
/// the decoder gave.
pub open spec fn decoded_result(o: DecodeOutcome, encoding: Seq<char>, r: Result<Vec<u8>, ErrorType>) -> bool {
    match o {
        DecodeOutcome::Decoded(bytes) => r matches Ok(v) && v@ == bytes,
        _ => r matches Err(ErrorType::BytesInvalidEncoding { encoding: e, encoding_error: m }) && e@ == encoding && m@
            == failure_message(o),
    }
}

/// The UTF-8 bytes of `s`.
fn bytes_of(s: &str) -> (r: Vec<u8>)
    ensures
        r@ == vstd::utf8::encode_utf8(s@),
{
    let b = s.as_bytes();
    let mut out: Vec<u8> = Vec::new();
    let mut i: usize = 0;
    while i < b.len()
        invariant
            i <= b.len(),
            b@ == vstd::utf8::encode_utf8(s@),
            out@ == b@.subrange(0, i as int),
        decreases b.len() - i,
    {
        out.push(b[i]);
        proof {
            assert(out@ =~= b@.subrange(0, i + 1));
        }
        i = i + 1;
    }
    proof {
        assert(b@.subrange(0, b@.len() as int) =~= b@);
    }
    out
}

impl ValBytesMode {
    /// The mode that the config sets, else UTF-8.
    pub fn from_config(val_json_bytes: Option<ValBytesMode>) -> (r: ValBytesMode)
        ensures
            r == (match val_json_bytes {
                Some(m) => m,
                None => ValBytesMode { ser: BytesMode::Utf8 },
            }),
    {
        match val_json_bytes {
            Some(m) => m,
            None => ValBytesMode { ser: BytesMode::Utf8 },
        }
    }

    /// The mode's name.
    pub fn as_str(&self) -> (r: &'static str)
        ensures
            r@ == (match self.ser {
                BytesMode::Utf8 => "utf-8"@,
                BytesMode::Base64 => "base64"@,
                BytesMode::Hex => "hex"@,
            }),
    {
        match self.ser {
            BytesMode::Utf8 => "utf-8",
            BytesMode::Base64 => "base64",
            BytesMode::Hex => "hex",
        }
    }

    /// Reads the bytes that the string `s` stands for: its UTF-8 bytes, or its base64 or
    /// hex decoding; a string that does not decode is an invalid-encoding error.
    pub fn deserialize_string(self, s: &str) -> (r: Result<Vec<u8>, ErrorType>)
        ensures
            match self.ser {
                BytesMode::Utf8 => r matches Ok(v) && v@ == vstd::utf8::encode_utf8(s@),
                BytesMode::Base64 => decoded_result(spec_base64(s@), "base64"@, r),
                BytesMode::Hex => decoded_result(hex_decoded(s@), "hex"@, r),
            },
    {
        match self.ser {
            BytesMode::Utf8 => Ok(bytes_of(s)),
            BytesMode::Base64 => {
                let first = decode_base64_url_safe(s);
                let second = if needs_standard_alphabet(&first) {
                    Some(decode_base64_standard(s))
                } else {
                    None
                };
                base64_result(first, second)
            },
            BytesMode::Hex => match decode_hex(s) {
                Ok(v) => Ok(v),
                Err(DecodeFailure::InvalidByte { message, .. }) => Err(
                    ErrorType::BytesInvalidEncoding { encoding: String::from_str("hex"), encoding_error: message },
                ),
                Err(DecodeFailure::Other { message }) => Err(
                    ErrorType::BytesInvalidEncoding { encoding: String::from_str("hex"), encoding_error: message },
                ),
            },
        }
    }
}

} // verus!
