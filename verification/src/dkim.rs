//! The DKIM verifier: rebuilds the text that was signed, names the key that
//! signed it, reads that key from the domain's TXT records, and checks the
//! signature.
//!
//! Looking the key up, in a cache or in the DNS, is left to the caller. The
//! verifier says what is to be done next (`Action`) and is told what came
//! of it (`key_cached`, `key_fetched`, `key_stored`).

use crate::config::Config;
use crate::config::EmailBody;
use crate::config::EmailBodyView;
use crate::config::FROM_PATTERN;
use crate::parser::features_of;
use crate::parser::lemma_order_lists_the_tag_names;
use crate::parser::only_features;
use crate::parser::parse_only_features;
use crate::parser::tag_of;
use crate::parser::tag_value;
use crate::text::contains;
use crate::text::has_infix;
use crate::text::pieces;
use crate::text::same_text;
use crate::text::slices;
use crate::text::split;
use crate::text::texts;
use crate::text::trim_end;
use crate::text::trimmed_end;
use crate::trusted::VerifierFailure;
use crate::trusted::base64_decode;
use crate::trusted::base64_decoded;
use crate::trusted::check_signature;
use crate::trusted::groups_of;
use crate::trusted::public_key_from_pem;
use crate::trusted::regex_captures;
use crate::trusted::reads_as_key;
use crate::trusted::signature_checked;
use vstd::hash_map::StringHashMap;
use vstd::prelude::*;
use vstd::utf8::encode_utf8;

verus! {

/// Whether a PEM text is short enough to be handed on and reads as a public
/// key.
pub open spec fn is_key_text(pem: Seq<char>) -> bool {
    encode_utf8(pem).len() <= i32::MAX && reads_as_key(encode_utf8(pem))
}

/// A public key, kept as its PEM text.
#[derive(Debug)]
pub struct PublicKey {
    pem: String,
}

impl View for PublicKey {
    type V = Seq<char>;

    closed spec fn view(&self) -> Seq<char> {
        self.pem@
    }
}

impl Clone for PublicKey {
    fn clone(&self) -> (r: PublicKey)
        ensures
            r@ == self@,
    {
        proof {
            use_type_invariant(self);
        }
        PublicKey { pem: self.pem.clone() }
    }
}

impl PublicKey {
    #[verifier::type_invariant]
    spec fn holds_key_text(&self) -> bool {
        is_key_text(self.pem@)
    }

    /// Reads a key from its PEM text. The text is kept exactly if it reads
    /// as a public key; a text too long to be handed on is refused unread.
    pub fn from_pem(text: String) -> (r: Result<PublicKey, &'static str>)
        ensures
            match r {
                Ok(key) => is_key_text(text@) && key@ == text@,
                Err(m) => !is_key_text(text@) && m@ == "failed-invalid_key"@,
            },
    {
        if text.as_str().as_bytes().len() > 0x7fff_ffff {
            return Err("failed-invalid_key");
        }
        match public_key_from_pem(text.as_str().as_bytes()) {
            Ok(_) => Ok(PublicKey { pem: text }),
            Err(_) => Err("failed-invalid_key"),
        }
    }

    /// The PEM text of the key.
    pub fn as_pem(&self) -> (text: &str)
        ensures
            text@ == self@,
    {
        self.pem.as_str()
    }
}

/// The keys that were read so far, by key name. A key that is stored stays
/// until another is stored under the same name; nothing is ever removed.
pub struct KeyCache {
    keys: StringHashMap<PublicKey>,
}

impl View for KeyCache {
    type V = Map<Seq<char>, Seq<char>>;

    closed spec fn view(&self) -> Map<Seq<char>, Seq<char>> {
        self.keys@.map_values(|key: PublicKey| key@)
    }
}

impl KeyCache {
    /// A cache without keys.
    pub fn new() -> (cache: KeyCache)
        ensures
            cache@ == Map::<Seq<char>, Seq<char>>::empty(),
    {
        let cache = KeyCache { keys: StringHashMap::new() };
        cache
    }

    /// The key stored under `name`, if there is one.
    pub fn get(&self, name: &str) -> (found: Option<PublicKey>)
        ensures
            found is Some <==> self@.contains_key(name@),
            found matches Some(key) ==> key@ == self@[name@],
    {
        match self.keys.get(name) {
            Some(key) => Some(key.clone()),
            None => None,
        }
    }

    /// Stores `key` under `name`; every other name keeps its key.
    pub fn insert(&mut self, name: String, key: PublicKey)
        ensures
            final(self)@ == old(self)@.insert(name@, key@),
    {
        self.keys.insert(name, key);
    }
}

/// A verification that waits for its key.
#[derive(Debug)]
pub struct Pending {
    verification_string: String,
    signature: String,
    key_name: String,
}

/// What a `Pending` holds.
pub struct PendingView {
    /// The text that was signed.
    pub verification_string: Seq<char>,
    /// The signature, in base64.
    pub signature: Seq<char>,
    /// The name under which the key is published and cached.
    pub key_name: Seq<char>,
}

impl View for Pending {
    type V = PendingView;

    closed spec fn view(&self) -> PendingView {
        PendingView {
            verification_string: self.verification_string@,
            signature: self.signature@,
            key_name: self.key_name@,
        }
    }
}

impl Pending {
    /// The name under which the key is published and cached.
    pub fn key_name(&self) -> (name: &str)
        ensures
            name@ == self@.key_name,
    {
        self.key_name.as_str()
    }
}

/// What the caller is to do next.
#[derive(Debug)]
pub enum Action {
    /// The verification has ended.
    Finish(Result<(), &'static str>),
    /// Look the key up in the cache, then call `key_cached`.
    FindKey(Pending),
    /// Ask the DNS for the TXT records of the key name, then call
    /// `key_fetched`.
    FetchKey(Pending),
    /// Store the key in the cache under the key name, then call
    /// `key_stored`.
    StoreKey(Pending, PublicKey),
}

/// What an `Action` holds.
pub enum ActionView {
    Finish(Result<(), Seq<char>>),
    FindKey(PendingView),
    FetchKey(PendingView),
    StoreKey(PendingView, Seq<char>),
}

impl View for Action {
    type V = ActionView;

    open spec fn view(&self) -> ActionView {
        match self {
            Action::Finish(Ok(_)) => ActionView::Finish(Ok(())),
            Action::Finish(Err(m)) => ActionView::Finish(Err(m@)),
            Action::FindKey(pending) => ActionView::FindKey(pending@),
            Action::FetchKey(pending) => ActionView::FetchKey(pending@),
            Action::StoreKey(pending, key) => ActionView::StoreKey(pending@, key@),
        }
    }
}

/// The headers that every message must carry.
pub open spec fn has_basic_headers(headers: Map<Seq<char>, Seq<char>>) -> bool {
    headers.contains_key("to"@) && headers.contains_key("from"@) && headers.contains_key(
        "subject"@,
    )
}

/// The signed headers, one line each: the name as the signature lists it,
/// a colon, the header's value without white space at its end, and CR LF.
/// `None` if a listed header is missing.
pub open spec fn signed_headers(
    names: Seq<Seq<char>>,
    headers: Map<Seq<char>, Seq<char>>,
) -> Option<Seq<char>>
    decreases names.len(),
{
    if names.len() == 0 {
        Some(Seq::empty())
    } else {
        match signed_headers(names.drop_last(), headers) {
            None => None,
            Some(text) => if headers.contains_key(names.last()) {
                Some(text + names.last() + ":"@ + trimmed_end(headers[names.last()]) + "\r\n"@)
            } else {
                None
            },
        }
    }
}

/// One tag of the signature as it was signed: the signature tag `b` is
/// signed with an empty value.
pub open spec fn signed_tag(name: Seq<char>, value: Seq<char>) -> Seq<char> {
    if name == "b"@ {
        "b="@
    } else {
        name + "="@ + value
    }
}

/// The tags of the signature in their recorded order, joined by `"; "`.
/// `None` if a recorded name has no value.
pub open spec fn signed_tags(order: Seq<Seq<char>>, features: Map<Seq<char>, Seq<char>>) -> Option<
    Seq<char>,
>
    decreases order.len(),
{
    if order.len() == 0 {
        Some(Seq::empty())
    } else {
        match signed_tags(order.drop_last(), features) {
            None => None,
            Some(text) => if features.contains_key(order.last()) {
                Some(
                    text + (if text.len() > 0 {
                        "; "@
                    } else {
                        Seq::empty()
                    }) + signed_tag(order.last(), features[order.last()]),
                )
            } else {
                None
            },
        }
    }
}

/// The text that the signature of a message was made over: the signed
/// headers, then the signature's own header with an empty `b`.
pub open spec fn signature_string(email: EmailBodyView) -> Result<Seq<char>, Seq<char>> {
    if !email.dkim.features.contains_key("h"@) {
        Err("not_found-h-dkim"@)
    } else {
        match signed_headers(pieces(email.dkim.features["h"@], ':'), email.headers) {
            None => Err("not_found-header-dkim"@),
            Some(headers) => match signed_tags(email.dkim.order, email.dkim.features) {
                None => Err("failed-find_dkim_feature"@),
                Some(tags) => Ok(headers + "dkim-signature:"@ + tags),
            },
        }
    }
}

/// The domain that the address pattern found: its second group.
pub open spec fn domain_of(groups: Option<(Option<Seq<char>>, Option<Seq<char>>)>) -> Result<
    Seq<char>,
    Seq<char>,
> {
    match groups {
        Some((_, Some(domain))) => Ok(domain),
        _ => Err("failed-get_email-from_header"@),
    }
}

/// The domain of the sender: what follows the `@` in the `from` header.
pub open spec fn sender_domain(headers: Map<Seq<char>, Seq<char>>) -> Result<
    Seq<char>,
    Seq<char>,
> {
    if !headers.contains_key("from"@) {
        Err("not_found-from-header"@)
    } else {
        domain_of(regex_captures(FROM_PATTERN@, headers["from"@]))
    }
}

/// The name of the key: the selector, `._domainkey.`, the sender's domain.
pub open spec fn key_name(features: Map<Seq<char>, Seq<char>>, sender: Seq<char>) -> Result<
    Seq<char>,
    Seq<char>,
> {
    if features.contains_key("s"@) {
        Ok(features["s"@] + "._domainkey."@ + sender)
    } else {
        Err("failed-get-dkim-selector"@)
    }
}

/// The bytes of a signature given in base64. A text too long to be decoded
/// on this machine counts as malformed.
pub open spec fn signature_bytes(signature: Seq<char>) -> Option<Seq<u8>> {
    let input = encode_utf8(signature);
    if input.len() + 7 > usize::MAX {
        None
    } else {
        base64_decoded(input)
    }
}

/// What a check of the signature is reported as.
pub open spec fn check_report(check: Result<bool, VerifierFailure>) -> Result<bool, Seq<char>> {
    match check {
        Ok(matches) => Ok(matches),
        Err(VerifierFailure::Key) => Err("failed-init-verifier"@),
        Err(VerifierFailure::Init) => Err("failed-init-verifier"@),
        Err(VerifierFailure::Update) => Err("failed-update-verifier"@),
        Err(VerifierFailure::Verify) => Err("failed-verify-verifier"@),
    }
}

/// What the verification of `signature`, given in base64, over `message`
/// under the key with the PEM text `key` answers: a signature that is not
/// base64 is reported as such, any other is checked and the check reported.
pub open spec fn verification(message: Seq<char>, key: Seq<char>, signature: Seq<char>) -> Result<
    bool,
    Seq<char>,
> {
    match signature_bytes(signature) {
        None => Err("failed-parse_to_u8_buffer"@),
        Some(bytes) => check_report(
            signature_checked(encode_utf8(key), encode_utf8(message), bytes),
        ),
    }
}

/// What a verification ends in: a match passes, a mismatch is an invalid
/// signature, and a check that could not be made is a failure.
pub open spec fn verdict(report: Result<bool, Seq<char>>) -> Result<(), Seq<char>> {
    match report {
        Ok(true) => Ok(()),
        Ok(false) => Err("invalid-dkim"@),
        Err(_) => Err("failed-get_dkim_sender_key"@),
    }
}

/// The first record that holds `DKIM`.
pub open spec fn dkim_record(records: Seq<Seq<char>>) -> Option<Seq<char>>
    decreases records.len(),
{
    if records.len() == 0 {
        None
    } else if has_infix(records.first(), "DKIM"@) {
        Some(records.first())
    } else {
        dkim_record(records.drop_first())
    }
}

/// Key material in PEM armor; material that names `PUBLIC KEY` already is
/// left as it is.
pub open spec fn armored(key: Seq<char>) -> Seq<char> {
    if has_infix(key, "PUBLIC KEY"@) {
        key
    } else {
        "-----BEGIN PUBLIC KEY-----\n"@ + key + "\n-----END PUBLIC KEY-----"@
    }
}

/// The PEM text of the key that a list of TXT records publishes: the tag `p`
/// of the first DKIM record, in armor.
pub open spec fn published_key(records: Seq<Seq<char>>) -> Result<Seq<char>, Seq<char>> {
    match dkim_record(records) {
        None => Err("not_found-dkim_key"@),
        Some(record) => match only_features("key:"@ + record) {
            Err(_) => Err("failed-parse-dkim_key_string"@),
            Ok(list) => if list.tags.contains_key("p"@) {
                Ok(armored(list.tags["p"@]))
            } else {
                Err("not_found-dkin-key"@)
            },
        },
    }
}

/// The PEM text of the key that a list of TXT records gives: the published
/// text, if it reads as a key.
pub open spec fn sender_key(records: Seq<Seq<char>>) -> Result<Seq<char>, Seq<char>> {
    match published_key(records) {
        Err(e) => Err(e),
        Ok(pem) => if is_key_text(pem) {
            Ok(pem)
        } else {
            Err("failed-invalid_key"@)
        },
    }
}

/// What a verification starts with: an error, nothing to verify (`None`),
/// or the text, signature and key name of the signature to check.
pub open spec fn prepared(email: EmailBodyView) -> Result<Option<PendingView>, Seq<char>> {
    if !has_basic_headers(email.headers) {
        Err("basic-validation-failed"@)
    } else if !email.dkim_found {
        Ok(None)
    } else {
        match signature_string(email) {
            Err(e) => Err(e),
            Ok(verification_string) => if !email.dkim.features.contains_key("b"@) {
                Err("failed-get-dkim-selector"@)
            } else {
                match sender_domain(email.headers) {
                    Err(e) => Err(e),
                    Ok(domain) => match key_name(email.dkim.features, domain) {
                        Err(e) => Err(e),
                        Ok(key_name) => Ok(
                            Some(
                                PendingView {
                                    verification_string,
                                    signature: email.dkim.features["b"@],
                                    key_name,
                                },
                            ),
                        ),
                    },
                }
            },
        }
    }
}

/// The first action of a verification.
pub open spec fn first_action(email: EmailBodyView) -> ActionView {
    match prepared(email) {
        Err(e) => ActionView::Finish(Err(e)),
        Ok(None) => ActionView::Finish(Ok(())),
        Ok(Some(pending)) => ActionView::FindKey(pending),
    }
}

/// The action that ends a verification which waited for its key: the
/// verdict on the check of the signature under `key`.
pub open spec fn conclusion(pending: PendingView, key: Seq<char>) -> ActionView {
    ActionView::Finish(
        verdict(verification(pending.verification_string, key, pending.signature)),
    )
}

/// The action that follows a lookup in the DNS; `lookup` is `None` if the
/// lookup failed. A failed lookup and records that publish no key end the
/// verification. Where the records publish a key text, the key is to be
/// stored if the text reads as a key, and the verification ends if not.
pub open spec fn after_fetch(pending: PendingView, lookup: Option<Seq<Seq<char>>>) -> ActionView {
    match lookup {
        None => ActionView::Finish(Err("failed-txt-lookup"@)),
        Some(records) => match sender_key(records) {
            Err(e) => ActionView::Finish(Err(e)),
            Ok(pem) => ActionView::StoreKey(pending, pem),
        },
    }
}

/// Checks that the message carries the headers `to`, `from` and `subject`.
pub fn check_basic_validation(email: &mut EmailBody) -> (r: Result<(), &'static str>)
    ensures
        r is Ok <==> has_basic_headers(old(email)@.headers),
        r matches Err(m) ==> m@ == "not_found-to-header"@,
        *final(email) == *old(email),
{
    if !email.headers.contains_key("to") {
        return Err("not_found-to-header");
    }
    if !email.headers.contains_key("from") {
        return Err("not_found-to-header");
    }
    if !email.headers.contains_key("subject") {
        return Err("not_found-to-header");
    }
    Ok(())
}

/// Rebuilds the text that the signature was made over.
pub fn get_dkim_signature_string(email: &mut EmailBody) -> (r: Result<String, &'static str>)
    ensures
        match signature_string(old(email)@) {
            Ok(text) => r matches Ok(found) && found@ == text,
            Err(e) => r matches Err(m) && m@ == e,
        },
        *final(email) == *old(email),
{
    let names = match email.dkim.features.get("h") {
        Some(v) => split(v.as_str(), ':'),
        None => {
            return Err("not_found-h-dkim");
        },
    };
    let ghost listed = slices(names@);
    let mut text = String::new();
    let mut i: usize = 0;
    while i < names.len()
        invariant
            i <= names.len(),
            listed == slices(names@),
            *email == *old(email),
            email@.dkim.features.contains_key("h"@),
            listed == pieces(email@.dkim.features["h"@], ':'),
            signed_headers(listed.take(i as int), email@.headers) == Some(text@),
        decreases names.len() - i,
    {
        let name: &str = names[i];
        assert(listed.take(i + 1).drop_last() =~= listed.take(i as int));
        match email.headers.get(name) {
            Some(value) => {
                text.append(name);
                text.append(":");
                text.append(trim_end(value.as_str()));
                text.append("\r\n");
            },
            None => {
                proof {
                    lemma_missing_header_stays_missing(listed, email@.headers, i + 1);
                }
                return Err("not_found-header-dkim");
            },
        }
        i += 1;
    }
    assert(listed.take(i as int) =~= listed);
    let ghost headers = text@;
    let ghost order = texts(email.dkim.order@);
    let mut tags = String::new();
    let mut k: usize = 0;
    while k < email.dkim.order.len()
        invariant
            k <= email.dkim.order.len(),
            order == texts(email.dkim.order@),
            *email == *old(email),
            email@.dkim.features.contains_key("h"@),
            signed_headers(pieces(email@.dkim.features["h"@], ':'), email@.headers) == Some(
                headers,
            ),
            signed_tags(order.take(k as int), email@.dkim.features) == Some(tags@),
        decreases email.dkim.order.len() - k,
    {
        let name: &str = email.dkim.order[k].as_str();
        assert(order.take(k + 1).drop_last() =~= order.take(k as int));
        let value: &String = match email.dkim.features.get(name) {
            Some(value) => value,
            None => {
                proof {
                    lemma_missing_tag_stays_missing(order, email@.dkim.features, k + 1);
                }
                return Err("failed-find_dkim_feature");
            },
        };
        if !tags.as_str().is_empty() {
            tags.append("; ");
        }
        if same_text(name, "b") {
            tags.append("b=");
        } else {
            tags.append(name);
            tags.append("=");
            tags.append(value.as_str());
        }
        k += 1;
    }
    assert(order.take(k as int) =~= order);
    text.append("dkim-signature:");
    text.append(tags.as_str());
    Ok(text)
}

/// A header that is missing among the first names is missing among all.
pub proof fn lemma_missing_header_stays_missing(
    names: Seq<Seq<char>>,
    headers: Map<Seq<char>, Seq<char>>,
    n: int,
)
    requires
        0 <= n <= names.len(),
        signed_headers(names.take(n), headers) is None,
    ensures
        signed_headers(names, headers) is None,
    decreases names.len(),
{
    if n == names.len() {
        assert(names.take(n) =~= names);
    } else {
        assert(names.drop_last().take(n) =~= names.take(n));
        lemma_missing_header_stays_missing(names.drop_last(), headers, n);
    }
}

/// A tag that is missing among the first names is missing among all.
pub proof fn lemma_missing_tag_stays_missing(
    order: Seq<Seq<char>>,
    features: Map<Seq<char>, Seq<char>>,
    n: int,
)
    requires
        0 <= n <= order.len(),
        signed_tags(order.take(n), features) is None,
    ensures
        signed_tags(order, features) is None,
    decreases order.len(),
{
    if n == order.len() {
        assert(order.take(n) =~= order);
    } else {
        assert(order.drop_last().take(n) =~= order.take(n));
        lemma_missing_tag_stays_missing(order.drop_last(), features, n);
    }
}

/// The tag list of a signature as its tokens spell it, with the value of `b`
/// left out: each token as `name=value`, joined by `"; "`.
pub open spec fn spelled_tags(tokens: Seq<Seq<char>>) -> Seq<char>
    decreases tokens.len(),
{
    if tokens.len() == 0 {
        Seq::empty()
    } else {
        let before = spelled_tags(tokens.drop_last());
        let tag = tag_of(tokens.last())->Some_0;
        before + (if before.len() > 0 {
            "; "@
        } else {
            Seq::empty()
        }) + signed_tag(tag.0, tag_value(tag.1, false))
    }
}

/// A tag that the order does not list has no part in the signed tags.
pub proof fn lemma_unlisted_tag_changes_nothing(
    order: Seq<Seq<char>>,
    features: Map<Seq<char>, Seq<char>>,
    name: Seq<char>,
    value: Seq<char>,
)
    requires
        forall|i: int| 0 <= i < order.len() ==> order[i] != name,
    ensures
        signed_tags(order, features.insert(name, value)) == signed_tags(order, features),
    decreases order.len(),
{
    if order.len() > 0 {
        assert forall|i: int| 0 <= i < order.drop_last().len() implies order.drop_last()[i]
            != name by {
            assert(order.drop_last()[i] == order[i]);
        }
        lemma_unlisted_tag_changes_nothing(order.drop_last(), features, name, value);
        assert(order.last() == order[order.len() - 1]);
    }
}

/// What is rebuilt from a parsed signature is what the signature spelled:
/// for a tag list in which every token is a tag and no name comes twice,
/// the tags of the parsed block, written in the recorded order with `b`
/// blanked, are the tokens as they stood, with `b` blanked.
pub proof fn lemma_signed_tags_are_the_tokens(tokens: Seq<Seq<char>>)
    requires
        forall|i: int| 0 <= i < tokens.len() ==> tag_of(#[trigger] tokens[i]) is Some,
        forall|i: int, j: int|
            0 <= i < j < tokens.len() ==> tag_of(#[trigger] tokens[i])->Some_0.0 != tag_of(
                #[trigger] tokens[j],
            )->Some_0.0,
    ensures
        signed_tags(features_of(tokens, false).order, features_of(tokens, false).tags) == Some(
            spelled_tags(tokens),
        ),
    decreases tokens.len(),
{
    if tokens.len() > 0 {
        let before = tokens.drop_last();
        let last = tokens.len() - 1;
        assert forall|i: int| 0 <= i < before.len() implies tag_of(#[trigger] before[i])
            is Some by {
            assert(before[i] == tokens[i]);
        }
        assert forall|i: int, j: int| 0 <= i < j < before.len() implies tag_of(
            #[trigger] before[i],
        )->Some_0.0 != tag_of(#[trigger] before[j])->Some_0.0 by {
            assert(before[i] == tokens[i]);
            assert(before[j] == tokens[j]);
        }
        lemma_signed_tags_are_the_tokens(before);
        lemma_order_lists_the_tag_names(before, false);
        let held = features_of(before, false);
        let tag = tag_of(tokens[last])->Some_0;
        assert forall|i: int| 0 <= i < held.order.len() implies held.order[i] != tag.0 by {
            assert(before[i] == tokens[i]);
            assert(tag_of(tokens[i])->Some_0.0 != tag_of(tokens[last])->Some_0.0);
        }
        lemma_unlisted_tag_changes_nothing(held.order, held.tags, tag.0, tag_value(tag.1, false));
        assert(held.order.push(tag.0).drop_last() =~= held.order);
    }
}

/// Takes the domain out of what the address pattern found.
pub fn domain_from(groups: Option<(Option<String>, Option<String>)>) -> (r: Result<
    String,
    &'static str,
>)
    ensures
        match domain_of(groups_of(groups)) {
            Ok(domain) => r matches Ok(found) && found@ == domain,
            Err(e) => r matches Err(m) && m@ == e,
        },
{
    match groups {
        Some((_, Some(domain))) => Ok(domain),
        _ => Err("failed-get_email-from_header"),
    }
}

/// Finds the domain of the sender in the `from` header.
pub fn get_sender_from_email_headers(email: &mut EmailBody, config: &Config) -> (r: Result<
    String,
    &'static str,
>)
    ensures
        match sender_domain(old(email)@.headers) {
            Ok(domain) => r matches Ok(found) && found@ == domain,
            Err(e) => r matches Err(m) && m@ == e,
        },
        *final(email) == *old(email),
{
    let from = match email.headers.get("from") {
        Some(v) => v,
        None => {
            return Err("not_found-from-header");
        },
    };
    domain_from(config.from_groups(from.as_str()))
}

/// Builds the name under which the key of the signature is published.
pub fn get_dkim_key_name(email: &mut EmailBody, sender: &String) -> (r: Result<
    String,
    &'static str,
>)
    ensures
        match key_name(old(email)@.dkim.features, sender@) {
            Ok(name) => r matches Ok(found) && found@ == name,
            Err(e) => r matches Err(m) && m@ == e,
        },
        *final(email) == *old(email),
{
    match email.dkim.features.get("s") {
        Some(selector) => {
            let mut name = selector.clone();
            name.append("._domainkey.");
            name.append(sender.as_str());
            Ok(name)
        },
        None => Err("failed-get-dkim-selector"),
    }
}

/// Names the outcome of a signature check.
pub fn report_check(check: Result<bool, VerifierFailure>) -> (r: Result<bool, &'static str>)
    ensures
        match check_report(check) {
            Ok(matches) => r == Ok::<bool, &'static str>(matches),
            Err(e) => r matches Err(m) && m@ == e,
        },
{
    match check {
        Ok(matches) => Ok(matches),
        Err(VerifierFailure::Key) => Err("failed-init-verifier"),
        Err(VerifierFailure::Init) => Err("failed-init-verifier"),
        Err(VerifierFailure::Update) => Err("failed-update-verifier"),
        Err(VerifierFailure::Verify) => Err("failed-verify-verifier"),
    }
}

/// Checks a signature, given in base64, of `verification_string` under
/// `key`. A signature that is not base64 is reported as such; for any other
/// the answer is that of the check: a match, a mismatch, or the step at
/// which the check gave up.
pub fn verify_dkim_signature(verification_string: String, key: &PublicKey, signature: String) -> (r:
    Result<bool, &'static str>)
    ensures
        match verification(verification_string@, key@, signature@) {
            Ok(matches) => r == Ok::<bool, &'static str>(matches),
            Err(e) => r matches Err(m) && m@ == e,
        },
{
    proof {
        use_type_invariant(key);
    }
    if signature.as_str().as_bytes().len() > usize::MAX - 7 {
        return Err("failed-parse_to_u8_buffer");
    }
    let bytes = match base64_decode(signature.as_str().as_bytes()) {
        Ok(bytes) => bytes,
        Err(_) => {
            return Err("failed-parse_to_u8_buffer");
        },
    };
    report_check(
        check_signature(
            key.pem.as_str().as_bytes(),
            verification_string.as_str().as_bytes(),
            bytes.as_slice(),
        ),
    )
}

/// Says what a verification ends in, given the answer of the signature
/// check.
pub fn dkim_verdict(report: Result<bool, &'static str>) -> (r: Result<(), &'static str>)
    ensures
        match report {
            Ok(true) => r is Ok,
            Ok(false) => r matches Err(m) && m@ == "invalid-dkim"@,
            Err(_) => r matches Err(m) && m@ == "failed-get_dkim_sender_key"@,
        },
{
    match report {
        Ok(true) => Ok(()),
        Ok(false) => Err("invalid-dkim"),
        Err(_) => Err("failed-get_dkim_sender_key"),
    }
}

/// Says what the validation of a message ends in, given the outcome of its
/// verification: every failure is reported under one name.
pub fn validated(outcome: Result<(), &'static str>) -> (r: Result<(), &'static str>)
    ensures
        outcome is Ok <==> r is Ok,
        r matches Err(m) ==> m@ == "failed-dkim-validate"@,
{
    match outcome {
        Ok(_) => Ok(()),
        Err(_) => Err("failed-dkim-validate"),
    }
}

fn find_dkim_record(records: &Vec<String>) -> (r: Option<&String>)
    ensures
        match dkim_record(texts(records@)) {
            Some(record) => r matches Some(found) && found@ == record,
            None => r is None,
        },
{
    let ghost all = texts(records@);
    let mut i: usize = 0;
    assert(all.skip(0) =~= all);
    while i < records.len()
        invariant
            i <= records.len(),
            all == texts(records@),
            dkim_record(all) == dkim_record(all.skip(i as int)),
        decreases records.len() - i,
    {
        assert(all.skip(i as int).drop_first() =~= all.skip(i + 1));
        if contains(records[i].as_str(), "DKIM") {
            return Some(&records[i]);
        }
        i += 1;
    }
    None
}

/// Reads the public key that a list of TXT records publishes: the tag `p`
/// of the first record that holds `DKIM`, put in PEM armor where it has
/// none. The key is returned exactly if that text reads as a key.
pub fn get_dkim_sender_key(config: &Config, records: &Vec<String>) -> (r: Result<
    PublicKey,
    &'static str,
>)
    ensures
        match sender_key(texts(records@)) {
            Ok(pem) => r matches Ok(key) && key@ == pem,
            Err(e) => r matches Err(m) && m@ == e,
        },
{
    let record = match find_dkim_record(records) {
        Some(record) => record,
        None => {
            return Err("not_found-dkim_key");
        },
    };
    let mut line = "key:".to_owned();
    line.append(record.as_str());
    let found = match parse_only_features(config, line.as_str()) {
        Ok(found) => found,
        Err(_) => {
            return Err("failed-parse-dkim_key_string");
        },
    };
    let material = match found.0.get("p") {
        Some(material) => material,
        None => {
            return Err("not_found-dkin-key");
        },
    };
    let pem = if contains(material.as_str(), "PUBLIC KEY") {
        material.clone()
    } else {
        let mut pem = "-----BEGIN PUBLIC KEY-----\n".to_owned();
        pem.append(material.as_str());
        pem.append("\n-----END PUBLIC KEY-----");
        pem
    };
    PublicKey::from_pem(pem)
}

fn conclude(pending: &Pending, key: &PublicKey) -> (action: Action)
    ensures
        action@ == conclusion(pending@, key@),
{
    let report = verify_dkim_signature(
        pending.verification_string.clone(),
        key,
        pending.signature.clone(),
    );
    Action::Finish(dkim_verdict(report))
}

/// Starts the verification of a message. A message without the basic
/// headers fails; one without a signature passes at once; for any other
/// the key is to be found in the cache.
pub fn init(email: &mut EmailBody, config: &Config) -> (action: Action)
    ensures
        action@ == first_action(old(email)@),
        *final(email) == *old(email),
{
    match check_basic_validation(email) {
        Ok(_) => {},
        Err(_) => {
            return Action::Finish(Err("basic-validation-failed"));
        },
    }
    if !email.dkim_found {
        return Action::Finish(Ok(()));
    }
    let verification_string = match get_dkim_signature_string(email) {
        Ok(v) => v,
        Err(e) => {
            return Action::Finish(Err(e));
        },
    };
    let signature = match email.dkim.features.get("b") {
        Some(v) => v.clone(),
        None => {
            return Action::Finish(Err("failed-get-dkim-selector"));
        },
    };
    let sender = match get_sender_from_email_headers(email, config) {
        Ok(v) => v,
        Err(e) => {
            return Action::Finish(Err(e));
        },
    };
    let key_name = match get_dkim_key_name(email, &sender) {
        Ok(v) => v,
        Err(e) => {
            return Action::Finish(Err(e));
        },
    };
    Action::FindKey(Pending { verification_string, signature, key_name })
}

/// Goes on after the cache was asked. With a cached key the signature is
/// checked at once; without one the key is to be fetched.
pub fn key_cached(pending: Pending, cached: Option<PublicKey>) -> (action: Action)
    ensures
        match cached {
            Some(key) => action@ == conclusion(pending@, key@),
            None => action@ == ActionView::FetchKey(pending@),
        },
{
    match cached {
        Some(key) => conclude(&pending, &key),
        None => Action::FetchKey(pending),
    }
}

/// Goes on after the DNS was asked; `lookup` is `None` if the lookup
/// failed. A key that was read is to be stored; anything else ends the
/// verification.
pub fn key_fetched(pending: Pending, config: &Config, lookup: Option<Vec<String>>) -> (action:
    Action)
    ensures
        action@ == after_fetch(
            pending@,
            match lookup {
                Some(records) => Some(texts(records@)),
                None => None,
            },
        ),
{
    let records = match lookup {
        Some(records) => records,
        None => {
            return Action::Finish(Err("failed-txt-lookup"));
        },
    };
    match get_dkim_sender_key(config, &records) {
        Ok(key) => Action::StoreKey(pending, key),
        Err(e) => Action::Finish(Err(e)),
    }
}

/// Goes on after the key was stored: checks the signature with it.
pub fn key_stored(pending: Pending, key: PublicKey) -> (action: Action)
    ensures
        action@ == conclusion(pending@, key@),
{
    conclude(&pending, &key)
}

} // verus!
