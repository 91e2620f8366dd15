//! The content decoder: finds the transfer encoding of each finished part,
//! decodes its data, tells text from bytes and HTML from other text, and files
//! the part as body or attachment.

use crate::config::ContentDecoded;
use crate::config::ContentEncoding;
use crate::config::DecodedView;
use crate::config::EmailBody;
use crate::config::EmailBodyView;
use crate::config::Part;
use crate::config::PartView;
use crate::config::part_views;
use crate::text::contains;
use crate::text::has_infix;
use crate::trusted::base64_decode;
use crate::trusted::base64_decoded;
use crate::trusted::lowercase;
use crate::trusted::quoted_printable_decode;
use crate::trusted::quoted_printable_decoded;
use crate::trusted::string_from_utf8;
use crate::trusted::to_lowercase;
use vstd::prelude::*;
use vstd::utf8::decode_utf8;
use vstd::utf8::encode_utf8;
use vstd::utf8::is_ascii_chars;
use vstd::utf8::is_ascii_chars_encode_utf8;
use vstd::utf8::valid_utf8;

verus! {

/// The transfer encoding that a value in lower case names. The first name
/// found decides; a value that names nothing known is plain text.
pub open spec fn encoding_named(v: Seq<char>) -> ContentEncoding {
    if has_infix(v, "base64"@) {
        ContentEncoding::Base64
    } else if has_infix(v, "quoted-printable"@) || has_infix(v, "qp"@) {
        ContentEncoding::Qp
    } else if has_infix(v, "text"@) || has_infix(v, "string"@) || has_infix(v, "7bit"@)
        || has_infix(v, "8bit"@) {
        ContentEncoding::String
    } else if has_infix(v, "binary"@) {
        ContentEncoding::UnSupported
    } else {
        ContentEncoding::String
    }
}

/// The transfer encoding that a `Content-Transfer-Encoding` value names,
/// whatever its case.
pub open spec fn encoding_of(value: Seq<char>) -> ContentEncoding {
    encoding_named(lowercase(value))
}

/// The transfer encoding of a part: its own `Content-Transfer-Encoding`
/// field, else the message's header of that name, else plain text.
pub open spec fn part_encoding(
    part: PartView,
    headers: Map<Seq<char>, Seq<char>>,
) -> ContentEncoding {
    if part.content_features.contains_key("Content-Transfer-Encoding"@) {
        encoding_of(part.content_features["Content-Transfer-Encoding"@])
    } else if headers.contains_key("content-transfer-encoding"@) {
        encoding_of(headers["content-transfer-encoding"@])
    } else {
        ContentEncoding::String
    }
}

/// The content type that applies to a part: its own, or the message's where
/// the part declared none.
pub open spec fn applicable_type(part: PartView, message_type: Seq<char>) -> Seq<char> {
    if part.content_type.value.len() == 0 {
        message_type
    } else {
        part.content_type.value
    }
}

/// Whether a content type names text.
pub open spec fn names_text(kind: Seq<char>) -> bool {
    has_infix(kind, "html"@) || has_infix(kind, "text"@) || has_infix(kind, "string"@)
        || has_infix(kind, "utf-8"@)
}

/// `bytes` without its carriage returns and line feeds.
pub open spec fn without_line_breaks(bytes: Seq<u8>) -> Seq<u8>
    decreases bytes.len(),
{
    if bytes.len() == 0 {
        bytes
    } else if bytes.last() == 0x0a || bytes.last() == 0x0d {
        without_line_breaks(bytes.drop_last())
    } else {
        without_line_breaks(bytes.drop_last()).push(bytes.last())
    }
}

/// A text payload: HTML where the applicable content type says so.
pub open spec fn as_text(text: Seq<char>, kind: Seq<char>) -> DecodedView {
    if has_infix(kind, "html"@) {
        DecodedView::Html(text)
    } else {
        DecodedView::Text(text)
    }
}

/// The payload of what base64 data decoded to, `None` standing for data that
/// could not be decoded: the bytes, or their text where text is expected.
pub open spec fn base64_payload_of(decoded: Option<Seq<u8>>, kind: Seq<char>) -> Result<
    DecodedView,
    Seq<char>,
> {
    match decoded {
        None => Err("failed-decode-base64"@),
        Some(bytes) => if !names_text(kind) {
            Ok(DecodedView::Base64(bytes))
        } else if valid_utf8(bytes) {
            Ok(as_text(decode_utf8(bytes), kind))
        } else {
            Err("failed-parse_base64_to_string"@)
        },
    }
}

/// The payload of what quoted-printable data decoded to, `None` standing for
/// data that could not be decoded: the bytes, or their text where text is
/// expected.
pub open spec fn quoted_printable_payload_of(decoded: Option<Seq<u8>>, kind: Seq<char>) -> Result<
    DecodedView,
    Seq<char>,
> {
    match decoded {
        None => Err("failed-decode-base64"@),
        Some(bytes) => if !names_text(kind) {
            Ok(DecodedView::Qp(bytes))
        } else if valid_utf8(bytes) {
            Ok(as_text(decode_utf8(bytes), kind))
        } else {
            Err("failed-parse_qp_to_string"@)
        },
    }
}

/// The payload of base64 data: the bytes that the data decodes to once its
/// line breaks are gone, read as UTF-8 where text is expected.
pub open spec fn base64_payload(data: Seq<char>, kind: Seq<char>) -> Result<
    DecodedView,
    Seq<char>,
> {
    let input = without_line_breaks(encode_utf8(data));
    if input.len() + 7 > usize::MAX {
        Err("failed-decode-base64"@)
    } else {
        base64_payload_of(base64_decoded(input), kind)
    }
}

/// The payload of quoted-printable data, decoded strictly and read as UTF-8
/// where text is expected.
pub open spec fn quoted_printable_payload(data: Seq<char>, kind: Seq<char>) -> Result<
    DecodedView,
    Seq<char>,
> {
    quoted_printable_payload_of(quoted_printable_decoded(encode_utf8(data)), kind)
}

/// The decoded payload of a part of a message with the given headers and
/// content type, or the error that decoding ends in.
pub open spec fn decoded(
    part: PartView,
    headers: Map<Seq<char>, Seq<char>>,
    message_type: Seq<char>,
) -> Result<DecodedView, Seq<char>> {
    let kind = applicable_type(part, message_type);
    match part_encoding(part, headers) {
        ContentEncoding::Base64 => base64_payload(part.data, kind),
        ContentEncoding::Qp => quoted_printable_payload(part.data, kind),
        ContentEncoding::String => Ok(as_text(part.data, kind)),
        ContentEncoding::UnSupported => Err("unsupported-content-encoding"@),
    }
}

/// Whether a part is an attachment: its `Content-Disposition` says so.
pub open spec fn is_attachment(part: PartView) -> bool {
    part.content_features.contains_key("Content-Disposition"@) && has_infix(
        part.content_features["Content-Disposition"@],
        "attachment"@,
    )
}

/// The message after `part` is filed with the given payload: the part,
/// with the payload in place of its data, goes behind the attachments or
/// behind the body.
pub open spec fn placed(
    email: EmailBodyView,
    part: PartView,
    payload: DecodedView,
) -> EmailBodyView {
    let done = PartView { data: Seq::empty(), decoded: payload, ..part };
    if is_attachment(part) {
        EmailBodyView { attachments: email.attachments.push(done), ..email }
    } else {
        EmailBodyView { body: email.body.push(done), ..email }
    }
}

/// The message after `part` is decoded and filed, or the error that
/// decoding ends in.
pub open spec fn filed(email: EmailBodyView, part: PartView) -> Result<EmailBodyView, Seq<char>> {
    match decoded(part, email.headers, email.content_type.value) {
        Err(e) => Err(e),
        Ok(payload) => Ok(placed(email, part, payload)),
    }
}

/// The message after `parts` are decoded and filed with it in order, or the
/// error of the first part that cannot be decoded.
pub open spec fn filed_all(email: EmailBodyView, parts: Seq<PartView>) -> Result<
    EmailBodyView,
    Seq<char>,
>
    decreases parts.len(),
{
    if parts.len() == 0 {
        Ok(email)
    } else {
        match filed(email, parts[0]) {
            Err(e) => Err(e),
            Ok(next) => filed_all(next, parts.drop_first()),
        }
    }
}

/// The message after all its finished parts are decoded and filed; `None`
/// if one of them cannot be decoded.
pub open spec fn drained(email: EmailBodyView) -> Option<EmailBodyView> {
    match filed_all(EmailBodyView { parts: Seq::empty(), ..email }, email.parts) {
        Ok(done) => Some(done),
        Err(_) => None,
    }
}

/// A part that was decoded has a payload.
pub proof fn lemma_decoded_is_something(
    part: PartView,
    headers: Map<Seq<char>, Seq<char>>,
    message_type: Seq<char>,
)
    ensures
        decoded(part, headers, message_type) matches Ok(payload) ==> !(payload is Nothing),
{
}

/// A part is filed in one place: behind the body or behind the
/// attachments, never both.
pub proof fn lemma_filed_in_one_place(email: EmailBodyView, part: PartView, payload: DecodedView)
    ensures
        placed(email, part, payload).body.len() + placed(email, part, payload).attachments.len()
            == email.body.len() + email.attachments.len() + 1,
        placed(email, part, payload).parts == email.parts,
{
}

/// A part that cannot be decoded fails the pass, wherever it stands.
pub proof fn lemma_one_failure_fails_all(email: EmailBodyView, parts: Seq<PartView>, at: int)
    requires
        0 <= at < parts.len(),
        decoded(parts[at], email.headers, email.content_type.value) is Err,
    ensures
        filed_all(email, parts) is Err,
    decreases parts.len(),
{
    if at > 0 {
        match filed(email, parts[0]) {
            Err(_) => {},
            Ok(next) => {
                assert(parts.drop_first()[at - 1] == parts[at]);
                lemma_one_failure_fails_all(next, parts.drop_first(), at - 1);
            },
        }
    }
}

/// Line breaks may be removed piece by piece.
pub proof fn lemma_line_breaks_of_concat(a: Seq<u8>, b: Seq<u8>)
    ensures
        without_line_breaks(a + b) == without_line_breaks(a) + without_line_breaks(b),
    decreases b.len(),
{
    if b.len() == 0 {
        assert(a + b =~= a);
    } else {
        lemma_line_breaks_of_concat(a, b.drop_last());
        assert((a + b).drop_last() =~= a + b.drop_last());
        assert((a + b).last() == b.last());
    }
}

/// Bytes that are all line breaks leave nothing.
pub proof fn lemma_only_line_breaks(wrap: Seq<u8>)
    requires
        forall|i: int| 0 <= i < wrap.len() ==> wrap[i] == 0x0a || wrap[i] == 0x0d,
    ensures
        without_line_breaks(wrap) == Seq::<u8>::empty(),
    decreases wrap.len(),
{
    if wrap.len() > 0 {
        lemma_only_line_breaks(wrap.drop_last());
    }
}

/// The bytes of a text are the bytes of its pieces, one behind the other.
pub proof fn lemma_bytes_of_concat(a: Seq<char>, b: Seq<char>)
    ensures
        encode_utf8(a + b) == encode_utf8(a) + encode_utf8(b),
    decreases a.len(),
{
    if a.len() == 0 {
        assert(a + b =~= b);
    } else {
        lemma_bytes_of_concat(a.drop_first(), b);
        assert((a + b).drop_first() =~= a.drop_first() + b);
    }
}

/// Base64 data decodes to the same payload however it is wrapped: two data
/// texts whose bytes agree once the line breaks are gone give the same
/// result.
pub proof fn lemma_base64_ignores_wrapping(a: Seq<char>, b: Seq<char>, kind: Seq<char>)
    requires
        without_line_breaks(encode_utf8(a)) == without_line_breaks(encode_utf8(b)),
    ensures
        base64_payload(a, kind) == base64_payload(b, kind),
{
}

/// Carriage returns and line feeds put into base64 data, wherever they
/// stand, change nothing of what is decoded.
pub proof fn lemma_line_breaks_are_dropped(
    head: Seq<char>,
    wrap: Seq<char>,
    tail: Seq<char>,
    kind: Seq<char>,
)
    requires
        forall|i: int| 0 <= i < wrap.len() ==> wrap[i] == '\r' || wrap[i] == '\n',
    ensures
        base64_payload(head + wrap + tail, kind) == base64_payload(head + tail, kind),
{
    let h = encode_utf8(head);
    let w = encode_utf8(wrap);
    let t = encode_utf8(tail);
    lemma_bytes_of_concat(head + wrap, tail);
    lemma_bytes_of_concat(head, wrap);
    lemma_bytes_of_concat(head, tail);
    assert(is_ascii_chars(wrap));
    is_ascii_chars_encode_utf8(wrap);
    assert forall|i: int| 0 <= i < w.len() implies w[i] == 0x0a || w[i] == 0x0d by {
        assert(wrap[i] as u8 == w[i]);
    }
    lemma_only_line_breaks(w);
    lemma_line_breaks_of_concat(h + w, t);
    lemma_line_breaks_of_concat(h, w);
    lemma_line_breaks_of_concat(h, t);
    lemma_base64_ignores_wrapping(head + wrap + tail, head + tail, kind);
}

fn strip_line_breaks(bytes: &[u8]) -> (r: Vec<u8>)
    ensures
        r@ == without_line_breaks(bytes@),
{
    let mut r: Vec<u8> = Vec::new();
    let mut i: usize = 0;
    while i < bytes.len()
        invariant
            i <= bytes.len(),
            r@ == without_line_breaks(bytes@.take(i as int)),
        decreases bytes.len() - i,
    {
        let b: u8 = bytes[i];
        assert(bytes@.take(i + 1).drop_last() =~= bytes@.take(i as int));
        if b != 0x0a && b != 0x0d {
            r.push(b);
        }
        i += 1;
    }
    assert(bytes@.take(i as int) =~= bytes@);
    r
}

/// The transfer encoding that a `Content-Transfer-Encoding` value names.
pub fn encoding_for(value: &str) -> (r: ContentEncoding)
    ensures
        r == encoding_of(value@),
{
    encoding_in(to_lowercase(value).as_str())
}

/// The transfer encoding that a value in lower case names.
pub fn encoding_in(v: &str) -> (r: ContentEncoding)
    ensures
        r == encoding_named(v@),
{
    if contains(v, "base64") {
        ContentEncoding::Base64
    } else if contains(v, "quoted-printable") || contains(v, "qp") {
        ContentEncoding::Qp
    } else if contains(v, "text") || contains(v, "string") || contains(v, "7bit") || contains(
        v,
        "8bit",
    ) {
        ContentEncoding::String
    } else if contains(v, "binary") {
        ContentEncoding::UnSupported
    } else {
        ContentEncoding::String
    }
}

fn is_text_type(kind: &str) -> (r: bool)
    ensures
        r == names_text(kind@),
{
    contains(kind, "html") || contains(kind, "text") || contains(kind, "string") || contains(
        kind,
        "utf-8",
    )
}

fn text_payload(text: String, kind: &str) -> (r: ContentDecoded)
    ensures
        r@ == as_text(text@, kind@),
{
    if contains(kind, "html") {
        ContentDecoded::Html(text)
    } else {
        ContentDecoded::String(text)
    }
}

/// The bytes of an optional decoding.
pub open spec fn bytes_of(decoded: Option<Vec<u8>>) -> Option<Seq<u8>> {
    match decoded {
        Some(bytes) => Some(bytes@),
        None => None,
    }
}

/// Makes the payload of what base64 data decoded to; `None` stands for data
/// that could not be decoded.
pub fn base64_payload_from(decoded: Option<Vec<u8>>, kind: &str) -> (r: Result<
    ContentDecoded,
    &'static str,
>)
    ensures
        match base64_payload_of(bytes_of(decoded), kind@) {
            Ok(payload) => r matches Ok(found) && found@ == payload,
            Err(e) => r matches Err(m) && m@ == e,
        },
{
    match decoded {
        None => Err("failed-decode-base64"),
        Some(bytes) => if !is_text_type(kind) {
            Ok(ContentDecoded::Base64(bytes))
        } else {
            match string_from_utf8(bytes) {
                Ok(text) => Ok(text_payload(text, kind)),
                Err(_) => Err("failed-parse_base64_to_string"),
            }
        },
    }
}

/// Makes the payload of what quoted-printable data decoded to; `None` stands
/// for data that could not be decoded.
pub fn quoted_printable_payload_from(decoded: Option<Vec<u8>>, kind: &str) -> (r: Result<
    ContentDecoded,
    &'static str,
>)
    ensures
        match quoted_printable_payload_of(bytes_of(decoded), kind@) {
            Ok(payload) => r matches Ok(found) && found@ == payload,
            Err(e) => r matches Err(m) && m@ == e,
        },
{
    match decoded {
        None => Err("failed-decode-base64"),
        Some(bytes) => if !is_text_type(kind) {
            Ok(ContentDecoded::Qp(bytes))
        } else {
            match string_from_utf8(bytes) {
                Ok(text) => Ok(text_payload(text, kind)),
                Err(_) => Err("failed-parse_qp_to_string"),
            }
        },
    }
}

/// Decodes the data of a part that belongs to `email`.
pub fn decode_part(part: &Part, email: &EmailBody) -> (r: Result<ContentDecoded, &'static str>)
    ensures
        match decoded(part@, email@.headers, email@.content_type.value) {
            Ok(payload) => r matches Ok(found) && found@ == payload,
            Err(e) => r matches Err(m) && m@ == e,
        },
{
    let encoding = match part.content_features.get("Content-Transfer-Encoding") {
        Some(v) => encoding_for(v.as_str()),
        None => match email.headers.get("content-transfer-encoding") {
            Some(v) => encoding_for(v.as_str()),
            None => ContentEncoding::String,
        },
    };
    let kind: &str = if part.content_type.value.as_str().is_empty() {
        email.content_type.value.as_str()
    } else {
        part.content_type.value.as_str()
    };
    match encoding {
        ContentEncoding::Base64 => {
            let input = strip_line_breaks(part.data.as_str().as_bytes());
            if input.len() > usize::MAX - 7 {
                return Err("failed-decode-base64");
            }
            let decoded = match base64_decode(input.as_slice()) {
                Ok(bytes) => Some(bytes),
                Err(_) => None,
            };
            base64_payload_from(decoded, kind)
        },
        ContentEncoding::Qp => {
            let decoded = match quoted_printable_decode(part.data.as_str().as_bytes()) {
                Ok(bytes) => Some(bytes),
                Err(_) => None,
            };
            quoted_printable_payload_from(decoded, kind)
        },
        ContentEncoding::String => Ok(text_payload(part.data.clone(), kind)),
        ContentEncoding::UnSupported => Err("unsupported-content-encoding"),
    }
}

fn file_part(part: Part, payload: ContentDecoded, email: &mut EmailBody)
    ensures
        final(email)@ == placed(old(email)@, part@, payload@),
{
    let mut part = part;
    part.decoded = payload;
    part.data = String::new();
    let attached = match part.content_features.get("Content-Disposition") {
        Some(v) => contains(v.as_str(), "attachment"),
        None => false,
    };
    if attached {
        email.attachments.push(part);
    } else {
        email.body.push(part);
    }
}

/// Decodes `part` and files it with `email`, as body or as attachment. If
/// the part cannot be decoded the message stays as it was.
pub fn parse_part(part: Part, email: &mut EmailBody) -> (r: Result<(), &'static str>)
    ensures
        match filed(old(email)@, part@) {
            Ok(next) => r is Ok && final(email)@ == next,
            Err(e) => r matches Err(m) && m@ == e && final(email)@ == old(email)@,
        },
{
    match decode_part(&part, email) {
        Ok(payload) => {
            file_part(part, payload, email);
            Ok(())
        },
        Err(e) => Err(e),
    }
}

/// Decodes the finished parts of `email` and files each one, in order. If
/// one of them cannot be decoded, nothing is filed and the message stays as
/// it was.
pub fn init(email: &mut EmailBody) -> (r: Result<(), &'static str>)
    ensures
        match drained(old(email)@) {
            Some(done) => r is Ok && final(email)@ == done,
            None => r matches Err(m) && m@ == "failed-parse-part"@ && final(email)@ == old(
                email,
            )@,
        },
{
    let ghost all = part_views(email.parts@);
    let ghost start = EmailBodyView { parts: Seq::empty(), ..email@ };
    let mut payloads: Vec<ContentDecoded> = Vec::new();
    let mut i: usize = 0;
    while i < email.parts.len()
        invariant
            *email == *old(email),
            all == part_views(email.parts@),
            start == (EmailBodyView { parts: Seq::empty(), ..email@ }),
            i <= email.parts.len(),
            payloads.len() == i,
            forall|k: int|
                0 <= k < i ==> decoded(
                    #[trigger] email.parts@[k]@,
                    email@.headers,
                    email@.content_type.value,
                ) == Ok::<DecodedView, Seq<char>>(payloads@[k]@),
        decreases email.parts.len() - i,
    {
        match decode_part(&email.parts[i], email) {
            Ok(payload) => {
                payloads.push(payload);
            },
            Err(_) => {
                proof {
                    lemma_one_failure_fails_all(start, all, i as int);
                }
                return Err("failed-parse-part");
            },
        }
        i += 1;
    }
    let mut parts: Vec<Part> = Vec::new();
    std::mem::swap(&mut email.parts, &mut parts);
    assert(email@ =~= start);
    while parts.len() > 0
        invariant
            payloads.len() == parts.len(),
            email@.headers == start.headers,
            email@.content_type == start.content_type,
            forall|k: int|
                0 <= k < parts.len() ==> decoded(
                    #[trigger] parts@[k]@,
                    start.headers,
                    start.content_type.value,
                ) == Ok::<DecodedView, Seq<char>>(payloads@[k]@),
            filed_all(email@, part_views(parts@)) == filed_all(start, all),
        decreases parts.len(),
    {
        let ghost waiting = parts@;
        let ghost ready = payloads@;
        let part = parts.remove(0);
        let payload = payloads.remove(0);
        assert(part_views(parts@) =~= part_views(waiting).drop_first());
        assert forall|k: int| 0 <= k < parts.len() implies decoded(
            #[trigger] parts@[k]@,
            start.headers,
            start.content_type.value,
        ) == Ok::<DecodedView, Seq<char>>(payloads@[k]@) by {
            assert(parts@[k] == waiting[k + 1]);
            assert(payloads@[k] == ready[k + 1]);
        }
        file_part(part, payload, email);
    }
    Ok(())
}

} // verus!
