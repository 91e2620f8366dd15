use letterman_email_body_parser::dkim;
use letterman_email_body_parser::dkim::check_basic_validation;
use letterman_email_body_parser::dkim::dkim_verdict;
use letterman_email_body_parser::dkim::domain_from;
use letterman_email_body_parser::dkim::get_dkim_key_name;
use letterman_email_body_parser::dkim::get_dkim_sender_key;
use letterman_email_body_parser::dkim::get_dkim_signature_string;
use letterman_email_body_parser::dkim::get_sender_from_email_headers;
use letterman_email_body_parser::dkim::key_cached;
use letterman_email_body_parser::dkim::key_fetched;
use letterman_email_body_parser::dkim::key_stored;
use letterman_email_body_parser::dkim::report_check;
use letterman_email_body_parser::dkim::validated;
use letterman_email_body_parser::dkim::verify_dkim_signature;
use letterman_email_body_parser::dkim::Action;
use letterman_email_body_parser::dkim::KeyCache;
use letterman_email_body_parser::dkim::PublicKey;
use letterman_email_body_parser::init;
use letterman_email_body_parser::trusted::VerifierFailure;
use letterman_email_body_parser::Config;
use letterman_email_body_parser::EmailBody;
use openssl::hash::MessageDigest;
use openssl::pkey::PKey;
use openssl::pkey::Private;
use openssl::rsa::Rsa;
use openssl::sign::Signer;

const SIGNATURE_TAGS: &str = "v=1; a=rsa-sha256; s=sel; d=example.com; h=from:to:subject; b=";

fn config() -> Config {
    Config::new().unwrap()
}

fn new_key(bits: u32) -> PKey<Private> {
    PKey::from_rsa(Rsa::generate(bits).unwrap()).unwrap()
}

fn sign(key: &PKey<Private>, text: &str) -> String {
    let mut signer = Signer::new(MessageDigest::sha256(), key).unwrap();
    signer.update(text.as_bytes()).unwrap();
    base64::encode(signer.sign_to_vec().unwrap())
}

fn record_of(key: &PKey<Private>) -> String {
    format!("v=DKIM1; k=rsa; p={}", base64::encode(key.public_key_to_der().unwrap()))
}

fn pem_of(key: &PKey<Private>) -> String {
    String::from_utf8(key.public_key_to_pem().unwrap()).unwrap()
}

fn message(signature: &str, subject: &str) -> EmailBody {
    let signed = format!("DKIM-Signature: {}{}", SIGNATURE_TAGS, signature);
    let subject = format!("Subject: {}", subject);
    let lines = vec![
        signed.as_str(),
        "From: Alice <alice@example.com>",
        "To: bob@example.org",
        subject.as_str(),
        "",
        "hello bob",
    ];
    init(lines, &config()).unwrap()
}

fn signed_text(subject: &str) -> String {
    format!(
        "from:Alice <alice@example.com>\r\nto:bob@example.org\r\nsubject:{}\r\ndkim-signature:{}",
        subject, SIGNATURE_TAGS
    )
}

fn unsigned() -> EmailBody {
    init(vec!["From: a@example.com", "To: b@example.com", "Subject: hi", "", "x"], &config())
        .unwrap()
}

fn outcome(action: Action) -> Result<(), &'static str> {
    match action {
        Action::Finish(r) => r,
        Action::FindKey(_) => panic!("asks for the cache"),
        Action::FetchKey(_) => panic!("asks for the records"),
        Action::StoreKey(_, _) => panic!("asks to store the key"),
    }
}

/// Runs a verification to its end, as a caller with a cache and a resolver
/// would: `records` is what the resolver answers, `None` if it fails.
fn verify(
    email: &mut EmailBody,
    cache: &mut KeyCache,
    records: Option<Vec<String>>,
) -> Result<(), &'static str> {
    let config = config();
    let mut action = dkim::init(email, &config);
    let mut records = records;
    loop {
        action = match action {
            Action::Finish(r) => return r,
            Action::FindKey(pending) => {
                let cached = cache.get(pending.key_name());
                key_cached(pending, cached)
            }
            Action::FetchKey(pending) => {
                assert_eq!(pending.key_name(), "sel._domainkey.example.com");
                key_fetched(pending, &config, records.take())
            }
            Action::StoreKey(pending, key) => {
                cache.insert(pending.key_name().to_string(), key.clone());
                key_stored(pending, key)
            }
        };
    }
}

#[test]
fn basic_headers_are_required() {
    let mut email = EmailBody::new();
    assert_eq!(check_basic_validation(&mut email), Err("not_found-to-header"));
    email.header("To".to_string(), "b@example.com".to_string());
    assert_eq!(check_basic_validation(&mut email), Err("not_found-to-header"));
    email.header("From".to_string(), "a@example.com".to_string());
    assert_eq!(check_basic_validation(&mut email), Err("not_found-to-header"));
    email.header("Subject".to_string(), "hi".to_string());
    assert_eq!(check_basic_validation(&mut email), Ok(()));
}

#[test]
fn message_without_basic_headers_fails() {
    let mut email = init(vec!["From: a@example.com", "", "x"], &config()).unwrap();
    assert_eq!(outcome(dkim::init(&mut email, &config())), Err("basic-validation-failed"));
}

#[test]
fn message_without_signature_passes() {
    let mut email = unsigned();
    assert_eq!(outcome(dkim::init(&mut email, &config())), Ok(()));
    let mut cache = KeyCache::new();
    assert_eq!(verify(&mut email, &mut cache, None), Ok(()));
}

#[test]
fn signature_string_is_rebuilt_in_tag_order() {
    let mut email = message("c2lnbmF0dXJl", "hi   ");
    assert_eq!(get_dkim_signature_string(&mut email), Ok(signed_text("hi")));
}

#[test]
fn signature_string_keeps_the_listed_header_order() {
    let lines = vec![
        "From: a@example.com",
        "Subject: s",
        "To: b@example.com",
        "DKIM-Signature: b=QUJD; h=subject:from; s=x",
    ];
    let mut email = init(lines, &config()).unwrap();
    assert_eq!(
        get_dkim_signature_string(&mut email),
        Ok("subject:s\r\nfrom:a@example.com\r\ndkim-signature:b=; h=subject:from; s=x".to_string())
    );
}

#[test]
fn signature_string_needs_the_header_list() {
    let mut email = init(vec!["DKIM-Signature: v=1; b=QUJD"], &config()).unwrap();
    assert_eq!(get_dkim_signature_string(&mut email), Err("not_found-h-dkim"));
}

#[test]
fn signature_string_needs_every_listed_header() {
    let lines = vec!["DKIM-Signature: v=1; h=from:date; b=QUJD", "From: a@example.com"];
    let mut email = init(lines, &config()).unwrap();
    assert_eq!(get_dkim_signature_string(&mut email), Err("not_found-header-dkim"));
}

#[test]
fn signature_string_needs_a_value_for_every_recorded_tag() {
    let mut email = message("QUJD", "hi");
    email.dkim.order.push("zz".to_string());
    assert_eq!(get_dkim_signature_string(&mut email), Err("failed-find_dkim_feature"));
}

#[test]
fn sender_is_the_domain_of_the_from_header() {
    let mut email = message("QUJD", "hi");
    assert_eq!(get_sender_from_email_headers(&mut email, &config()), Ok("example.com".to_string()));
}

#[test]
fn sender_needs_a_from_header_with_an_address() {
    let mut email = EmailBody::new();
    assert_eq!(get_sender_from_email_headers(&mut email, &config()), Err("not_found-from-header"));
    email.header("From".to_string(), "nobody".to_string());
    assert_eq!(
        get_sender_from_email_headers(&mut email, &config()),
        Err("failed-get_email-from_header")
    );
}

#[test]
fn key_name_joins_selector_and_domain() {
    let mut email = message("QUJD", "hi");
    assert_eq!(
        get_dkim_key_name(&mut email, &"example.com".to_string()),
        Ok("sel._domainkey.example.com".to_string())
    );
}

#[test]
fn key_name_needs_a_selector() {
    let mut email = unsigned();
    assert_eq!(
        get_dkim_key_name(&mut email, &"example.com".to_string()),
        Err("failed-get-dkim-selector")
    );
}

#[test]
fn start_asks_for_the_key() {
    let mut email = message("QUJD", "hi");
    match dkim::init(&mut email, &config()) {
        Action::FindKey(pending) => assert_eq!(pending.key_name(), "sel._domainkey.example.com"),
        _ => panic!("does not ask for the key"),
    }
}

#[test]
fn start_fails_without_signature_tag() {
    let lines = vec![
        "DKIM-Signature: v=1; s=sel; h=from",
        "From: a@example.com",
        "To: b@example.com",
        "Subject: hi",
    ];
    let mut email = init(lines, &config()).unwrap();
    assert_eq!(outcome(dkim::init(&mut email, &config())), Err("failed-get-dkim-selector"));
}

#[test]
fn start_fails_without_signed_header() {
    let lines = vec![
        "DKIM-Signature: v=1; s=sel; h=date; b=QUJD",
        "From: a@example.com",
        "To: b@example.com",
        "Subject: hi",
    ];
    let mut email = init(lines, &config()).unwrap();
    assert_eq!(outcome(dkim::init(&mut email, &config())), Err("not_found-header-dkim"));
}

#[test]
fn start_fails_without_sender_selector_or_header_list() {
    let lines = vec![
        "DKIM-Signature: v=1; s=sel; h=from; b=QUJD",
        "From: nobody",
        "To: b@example.com",
        "Subject: hi",
    ];
    let mut email = init(lines, &config()).unwrap();
    assert_eq!(outcome(dkim::init(&mut email, &config())), Err("failed-get_email-from_header"));
    let lines = vec![
        "DKIM-Signature: v=1; h=from; b=QUJD",
        "From: a@example.com",
        "To: b@example.com",
        "Subject: hi",
    ];
    let mut email = init(lines, &config()).unwrap();
    assert_eq!(outcome(dkim::init(&mut email, &config())), Err("failed-get-dkim-selector"));
    let lines = vec![
        "DKIM-Signature: v=1; s=sel; b=QUJD",
        "From: a@example.com",
        "To: b@example.com",
        "Subject: hi",
    ];
    let mut email = init(lines, &config()).unwrap();
    assert_eq!(outcome(dkim::init(&mut email, &config())), Err("not_found-h-dkim"));
}

#[test]
fn key_is_read_from_the_first_dkim_record() {
    let key = new_key(2048);
    let other = new_key(1024);
    let records = vec!["v=spf1 -all".to_string(), record_of(&key), record_of(&other)];
    let found = get_dkim_sender_key(&config(), &records).unwrap();
    let material = base64::encode(key.public_key_to_der().unwrap());
    assert_eq!(
        found.as_pem(),
        format!("-----BEGIN PUBLIC KEY-----\n{}\n-----END PUBLIC KEY-----", material)
    );
}

#[test]
fn key_in_armor_is_taken_as_it_is() {
    let key = new_key(1024);
    let pem = pem_of(&key);
    let records = vec![format!("v=DKIM1; p={}", pem)];
    let found = get_dkim_sender_key(&config(), &records).unwrap();
    assert_eq!(found.as_pem(), pem);
}

#[test]
fn key_errors() {
    let config = config();
    assert_eq!(get_dkim_sender_key(&config, &vec![]).err(), Some("not_found-dkim_key"));
    assert_eq!(
        get_dkim_sender_key(&config, &vec!["v=spf1 -all".to_string()]).err(),
        Some("not_found-dkim_key")
    );
    assert_eq!(
        get_dkim_sender_key(&config, &vec!["v=DKIM1; k=rsa".to_string()]).err(),
        Some("not_found-dkin-key")
    );
    assert_eq!(
        get_dkim_sender_key(&config, &vec!["v=DKIM1; p=bm90IGEga2V5".to_string()]).err(),
        Some("failed-invalid_key")
    );
}

#[test]
fn pem_text_must_read_as_a_key() {
    let key = new_key(1024);
    let pem = pem_of(&key);
    assert_eq!(PublicKey::from_pem(pem.clone()).unwrap().as_pem(), pem);
    assert_eq!(PublicKey::from_pem("not a key".to_string()).err(), Some("failed-invalid_key"));
    assert_eq!(PublicKey::from_pem(String::new()).err(), Some("failed-invalid_key"));
}

#[test]
fn cache_keeps_keys_by_name() {
    let first = PublicKey::from_pem(pem_of(&new_key(1024))).unwrap();
    let second = PublicKey::from_pem(pem_of(&new_key(1024))).unwrap();
    let mut cache = KeyCache::new();
    assert!(cache.get("a._domainkey.example.com").is_none());
    cache.insert("a._domainkey.example.com".to_string(), first.clone());
    cache.insert("b._domainkey.example.com".to_string(), second.clone());
    assert_eq!(cache.get("a._domainkey.example.com").unwrap().as_pem(), first.as_pem());
    assert_eq!(cache.get("b._domainkey.example.com").unwrap().as_pem(), second.as_pem());
    cache.insert("a._domainkey.example.com".to_string(), second.clone());
    assert_eq!(cache.get("a._domainkey.example.com").unwrap().as_pem(), second.as_pem());
    assert!(cache.get("c._domainkey.example.com").is_none());
}

#[test]
fn signature_is_checked_against_the_text() {
    let key = new_key(2048);
    let public = PublicKey::from_pem(pem_of(&key)).unwrap();
    let signature = sign(&key, "some text");
    assert_eq!(
        verify_dkim_signature("some text".to_string(), &public, signature.clone()),
        Ok(true)
    );
    assert_eq!(
        verify_dkim_signature("some texT".to_string(), &public, signature.clone()),
        Ok(false)
    );
    let other = PublicKey::from_pem(pem_of(&new_key(2048))).unwrap();
    assert_eq!(verify_dkim_signature("some text".to_string(), &other, signature), Ok(false));
    assert_eq!(
        verify_dkim_signature("some text".to_string(), &public, "not base64".to_string()),
        Err("failed-parse_to_u8_buffer")
    );
}

#[test]
fn check_outcomes_are_named() {
    assert_eq!(report_check(Ok(true)), Ok(true));
    assert_eq!(report_check(Ok(false)), Ok(false));
    assert_eq!(report_check(Err(VerifierFailure::Key)), Err("failed-init-verifier"));
    assert_eq!(report_check(Err(VerifierFailure::Init)), Err("failed-init-verifier"));
    assert_eq!(report_check(Err(VerifierFailure::Update)), Err("failed-update-verifier"));
    assert_eq!(report_check(Err(VerifierFailure::Verify)), Err("failed-verify-verifier"));
}

#[test]
fn verdicts() {
    assert_eq!(dkim_verdict(Ok(true)), Ok(()));
    assert_eq!(dkim_verdict(Ok(false)), Err("invalid-dkim"));
    assert_eq!(dkim_verdict(Err("failed-verify-verifier")), Err("failed-get_dkim_sender_key"));
    assert_eq!(dkim_verdict(Err("failed-parse_to_u8_buffer")), Err("failed-get_dkim_sender_key"));
}

#[test]
fn validation_reports_every_failure_under_one_name() {
    assert_eq!(validated(Ok(())), Ok(()));
    assert_eq!(validated(Err("invalid-dkim")), Err("failed-dkim-validate"));
    assert_eq!(validated(Err("basic-validation-failed")), Err("failed-dkim-validate"));
}

#[test]
fn signed_message_verifies() {
    let key = new_key(2048);
    let signature = sign(&key, &signed_text("hi"));
    let mut email = message(&signature, "hi");
    assert!(email.dkim_found);
    let mut cache = KeyCache::new();
    assert_eq!(verify(&mut email, &mut cache, Some(vec![record_of(&key)])), Ok(()));
    assert!(cache.get("sel._domainkey.example.com").is_some());
}

#[test]
fn signed_message_verifies_from_the_cache() {
    let key = new_key(2048);
    let signature = sign(&key, &signed_text("hi"));
    let mut cache = KeyCache::new();
    let mut email = message(&signature, "hi");
    assert_eq!(verify(&mut email, &mut cache, Some(vec![record_of(&key)])), Ok(()));
    let mut again = message(&signature, "hi");
    assert_eq!(verify(&mut again, &mut cache, None), Ok(()));
}

#[test]
fn tampered_header_is_refused() {
    let key = new_key(2048);
    let signature = sign(&key, &signed_text("hi"));
    let mut cache = KeyCache::new();
    let mut email = message(&signature, "hj");
    assert_eq!(verify(&mut email, &mut cache, Some(vec![record_of(&key)])), Err("invalid-dkim"));
    let mut email = message(&signature, "hj");
    assert_eq!(verify(&mut email, &mut cache, None), Err("invalid-dkim"));
    let mut email = message(&signature, "hi");
    email.header("From".to_string(), "Alicia <alice@example.com>".to_string());
    assert_eq!(verify(&mut email, &mut cache, None), Err("invalid-dkim"));
}

#[test]
fn signature_of_another_key_is_refused() {
    let key = new_key(2048);
    let signature = sign(&new_key(2048), &signed_text("hi"));
    let mut cache = KeyCache::new();
    let mut email = message(&signature, "hi");
    assert_eq!(verify(&mut email, &mut cache, Some(vec![record_of(&key)])), Err("invalid-dkim"));
}

#[test]
fn malformed_signature_is_a_failure() {
    let key = new_key(1024);
    let mut cache = KeyCache::new();
    let mut email = message("***", "hi");
    assert_eq!(
        verify(&mut email, &mut cache, Some(vec![record_of(&key)])),
        Err("failed-get_dkim_sender_key")
    );
}

#[test]
fn failed_lookup_ends_the_verification() {
    let mut cache = KeyCache::new();
    let mut email = message("QUJD", "hi");
    assert_eq!(verify(&mut email, &mut cache, None), Err("failed-txt-lookup"));
    assert!(cache.get("sel._domainkey.example.com").is_none());
}

#[test]
fn records_without_key_end_the_verification() {
    let mut cache = KeyCache::new();
    let cases = [
        (vec![], "not_found-dkim_key"),
        (vec!["v=spf1 -all".to_string()], "not_found-dkim_key"),
        (vec!["v=DKIM1; k=rsa".to_string()], "not_found-dkin-key"),
        (vec!["v=DKIM1; p=AAAA".to_string()], "failed-invalid_key"),
    ];
    for (records, error) in cases {
        let mut email = message("QUJD", "hi");
        assert_eq!(verify(&mut email, &mut cache, Some(records)), Err(error));
        assert!(cache.get("sel._domainkey.example.com").is_none());
    }
}

#[test]
fn domain_of_given_groups() {
    let groups = |a: Option<&str>, b: Option<&str>| {
        Some((a.map(|s| s.to_string()), b.map(|s| s.to_string())))
    };
    assert_eq!(
        domain_from(groups(Some("alice"), Some("example.com"))),
        Ok("example.com".to_string())
    );
    assert_eq!(domain_from(groups(None, Some("example.org"))), Ok("example.org".to_string()));
    assert_eq!(domain_from(groups(Some("alice"), None)), Err("failed-get_email-from_header"));
    assert_eq!(domain_from(None), Err("failed-get_email-from_header"));
}

#[test]
fn mismatch_is_told_from_a_signature_that_is_not_base64() {
    let key = new_key(2048);
    let public = PublicKey::from_pem(pem_of(&key)).unwrap();
    let signature = sign(&key, "signed text");
    assert_eq!(
        dkim_verdict(verify_dkim_signature("other text".to_string(), &public, signature)),
        Err("invalid-dkim")
    );
    assert_eq!(
        dkim_verdict(verify_dkim_signature("signed text".to_string(), &public, "%%".to_string())),
        Err("failed-get_dkim_sender_key")
    );
}

#[test]
fn published_key_is_accepted_exactly_if_it_reads_as_a_key() {
    let key = new_key(2048);
    let material = base64::encode(key.public_key_to_der().unwrap());
    let good = vec!["v=spf1".to_string(), format!("v=DKIM1; p={}", material)];
    assert!(get_dkim_sender_key(&config(), &good).is_ok());
    let cut = vec![format!("v=DKIM1; p={}", &material[..material.len() - 8])];
    assert_eq!(get_dkim_sender_key(&config(), &cut).err(), Some("failed-invalid_key"));
    let mut email = message("QUJD", "hi");
    let pending = match dkim::init(&mut email, &config()) {
        Action::FindKey(pending) => pending,
        _ => panic!("does not ask for the key"),
    };
    match key_fetched(pending, &config(), Some(good)) {
        Action::StoreKey(pending, stored) => {
            assert_eq!(pending.key_name(), "sel._domainkey.example.com");
            assert_eq!(
                stored.as_pem(),
                format!("-----BEGIN PUBLIC KEY-----\n{}\n-----END PUBLIC KEY-----", material)
            );
        }
        _ => panic!("does not store the key"),
    }
}
