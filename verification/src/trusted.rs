//! The boundary to code that is not verified here: pattern matching (`regex`),
//! transfer decodings (`base64`, `quoted_printable`), signature checking
//! (`openssl`) and two functions of the standard library.
//!
//! Every item in this module is believed, not proved. Results that are a
//! function of the arguments alone, and too long to write out, are given a
//! name; the wrappers say that what they return is that named value.

use openssl::error::ErrorStack;
use openssl::hash::MessageDigest;
use openssl::pkey::PKey;
use openssl::pkey::Public;
use openssl::sign::Verifier;
use std::string::FromUtf8Error;
use vstd::prelude::*;
use vstd::utf8::decode_utf8;
use vstd::utf8::valid_utf8;

verus! {

/// Whether `regex::Regex::new` accepts `pattern`.
pub uninterp spec fn regex_compiles(pattern: Seq<char>) -> bool;

/// What `regex::Regex::captures` finds for `pattern` in `text`: `None` when
/// the pattern matches nowhere, otherwise the text of capture groups 1 and 2
/// of the leftmost match, each `None` when the pattern has no such group or
/// the group took no part in the match.
pub uninterp spec fn regex_captures(pattern: Seq<char>, text: Seq<char>) -> Option<
    (Option<Seq<char>>, Option<Seq<char>>),
>;

/// What `base64::decode` makes of `input`: the decoded bytes, or `None` when
/// the input is not standard padded base64.
pub uninterp spec fn base64_decoded(input: Seq<u8>) -> Option<Seq<u8>>;

/// What `quoted_printable::decode` makes of `input` in strict mode: the
/// decoded bytes, or `None` when the input is malformed.
pub uninterp spec fn quoted_printable_decoded(input: Seq<u8>) -> Option<Seq<u8>>;

/// What `str::to_lowercase` returns for `text`.
pub uninterp spec fn lowercase(text: Seq<char>) -> Seq<char>;

/// Whether `openssl::pkey::PKey::public_key_from_pem` reads `pem` as a
/// public key.
pub uninterp spec fn reads_as_key(pem: Seq<u8>) -> bool;

/// What a check of `signature` against the SHA-256 digest of `message`
/// answers, made with an `openssl::sign::Verifier` under the public key that
/// the PEM text `key_pem` holds: whether the signature matches, or the step
/// at which the check gave up.
pub uninterp spec fn signature_checked(
    key_pem: Seq<u8>,
    message: Seq<u8>,
    signature: Seq<u8>,
) -> Result<bool, VerifierFailure>;

/// The error of `base64::decode`, carried through unread.
#[verifier::external_type_specification]
#[verifier::external_body]
pub struct ExBase64DecodeError(base64::DecodeError);

/// The error of `quoted_printable::decode`, carried through unread.
#[verifier::external_type_specification]
#[verifier::external_body]
pub struct ExQuotedPrintableError(quoted_printable::QuotedPrintableError);

/// The error of `String::from_utf8`, carried through unread.
#[verifier::external_type_specification]
#[verifier::external_body]
pub struct ExFromUtf8Error(FromUtf8Error);

/// The errors of OpenSSL, carried through unread.
#[verifier::external_type_specification]
#[verifier::external_body]
pub struct ExErrorStack(ErrorStack);

/// A key of OpenSSL; nothing is known of what it holds.
#[verifier::external_type_specification]
#[verifier::external_body]
#[verifier::reject_recursive_types(T)]
pub struct ExPKey<T>(PKey<T>);

/// The mark of a key that holds public components only.
#[verifier::external_type_specification]
#[verifier::external_body]
pub struct ExPublic(Public);

/// The step at which a signature check gave up.
#[derive(Clone, Copy, Debug, PartialEq, Eq)]
pub enum VerifierFailure {
    /// The key text could not be read as a public key.
    Key,
    /// The verifier could not be set up for the key.
    Init,
    /// The message could not be fed to the verifier.
    Update,
    /// The final comparison reported a failure of the library itself.
    Verify,
}

/// The text of an optional captured group.
pub open spec fn text_of(group: Option<String>) -> Option<Seq<char>> {
    match group {
        Some(t) => Some(t@),
        None => None,
    }
}

/// The texts of an optional pair of captured groups.
pub open spec fn groups_of(groups: Option<(Option<String>, Option<String>)>) -> Option<
    (Option<Seq<char>>, Option<Seq<char>>),
> {
    match groups {
        Some((first, second)) => Some((text_of(first), text_of(second))),
        None => None,
    }
}

/// Calls `regex::Regex::new` and reports whether the pattern was accepted.
/// Believed: the answer depends on the pattern alone.
#[verifier::external_body]
pub(crate) fn pattern_compiles(pattern: &str) -> (ok: bool)
    ensures
        ok == regex_compiles(pattern@),
{
    regex::Regex::new(pattern).is_ok()
}

/// Calls `regex::Regex::captures` for `pattern` on `text` and copies out
/// groups 1 and 2 (`Captures::get`, `Match::as_str`). Believed: the groups
/// depend on the pattern and the text alone. The pattern is compiled here,
/// at each use, so that the groups can be stated over its text; it must
/// compile, as the wrapper unwraps the compiled expression.
#[verifier::external_body]
pub(crate) fn capture_pair(pattern: &str, text: &str) -> (groups: Option<
    (Option<String>, Option<String>),
>)
    requires
        regex_compiles(pattern@),
    ensures
        groups_of(groups) == regex_captures(pattern@, text@),
{
    let re = regex::Regex::new(pattern).unwrap();
    re.captures(text).map(
        |c| (c.get(1).map(|m| m.as_str().to_string()), c.get(2).map(|m| m.as_str().to_string())),
    )
}

/// Calls `base64::decode`. Believed: success and the decoded bytes depend on
/// the input alone. `base64::decode` panics when rounding the input length
/// up to a multiple of eight overflows, so such lengths are left out.
#[verifier::external_body]
pub(crate) fn base64_decode(input: &[u8]) -> (r: Result<Vec<u8>, base64::DecodeError>)
    requires
        input@.len() + 7 <= usize::MAX,
    ensures
        r is Ok <==> base64_decoded(input@) is Some,
        r matches Ok(bytes) ==> base64_decoded(input@) == Some(bytes@),
{
    base64::decode(input)
}

/// Calls `quoted_printable::decode` with `ParseMode::Strict`. Believed:
/// success and the decoded bytes depend on the input alone.
#[verifier::external_body]
pub(crate) fn quoted_printable_decode(input: &[u8]) -> (r: Result<
    Vec<u8>,
    quoted_printable::QuotedPrintableError,
>)
    ensures
        r is Ok <==> quoted_printable_decoded(input@) is Some,
        r matches Ok(bytes) ==> quoted_printable_decoded(input@) == Some(bytes@),
{
    quoted_printable::decode(input, quoted_printable::ParseMode::Strict)
}

/// Calls `String::from_utf8`. Believed, as documented: it succeeds exactly
/// on well-formed UTF-8 and then holds the characters those bytes encode.
#[verifier::external_body]
pub(crate) fn string_from_utf8(bytes: Vec<u8>) -> (r: Result<String, FromUtf8Error>)
    ensures
        r is Ok <==> valid_utf8(bytes@),
        r matches Ok(text) ==> text@ == decode_utf8(bytes@),
{
    String::from_utf8(bytes)
}

/// Calls `str::to_lowercase`. Believed: the result depends on the text
/// alone.
#[verifier::external_body]
pub(crate) fn to_lowercase(text: &str) -> (r: String)
    ensures
        r@ == lowercase(text@),
{
    text.to_lowercase()
}

/// Calls `openssl::pkey::PKey::public_key_from_pem`. Believed: whether the
/// text is read as a key depends on the text alone. Nothing is claimed of
/// the key that comes back. The call asserts that the length fits a C
/// `int`, so longer inputs are left out.
#[verifier::external_body]
pub(crate) fn public_key_from_pem(pem: &[u8]) -> (r: Result<PKey<Public>, ErrorStack>)
    requires
        pem@.len() <= i32::MAX,
    ensures
        r is Ok <==> reads_as_key(pem@),
{
    PKey::public_key_from_pem(pem)
}

/// Reads the key with `PKey::public_key_from_pem` and runs an
/// `openssl::sign::Verifier` with SHA-256 over `message`
/// (`Verifier::new`, `update`, `verify`). Believed: the answer, a match, a
/// mismatch or the step that failed, depends on the three arguments alone.
/// The key text must fit a C `int`, as for `public_key_from_pem`;
/// `Verifier::new` further asserts that OpenSSL has set up its context,
/// which OpenSSL does whenever it reports success.
#[verifier::external_body]
pub(crate) fn check_signature(key_pem: &[u8], message: &[u8], signature: &[u8]) -> (r: Result<
    bool,
    VerifierFailure,
>)
    requires
        key_pem@.len() <= i32::MAX,
    ensures
        r == signature_checked(key_pem@, message@, signature@),
{
    let key = PKey::public_key_from_pem(key_pem).map_err(|_| VerifierFailure::Key)?;
    let mut verifier = Verifier::new(MessageDigest::sha256(), &key).map_err(
        |_| VerifierFailure::Init,
    )?;
    verifier.update(message).map_err(|_| VerifierFailure::Update)?;
    verifier.verify(signature).map_err(|_| VerifierFailure::Verify)
}

} // verus!
