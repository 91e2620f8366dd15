//! Header lines and feature lists: `key: value`, and the `;`-separated
//! `name=value` tokens and bare flags that follow a content type or make up a
//! DKIM signature.

use crate::config::Config;
use crate::config::ContentType;
use crate::config::ContentTypeView;
use crate::config::FEATURE_PATTERN;
use crate::config::KEYVAL_PATTERN;
use crate::config::TextMap;
use crate::text::chars_of;
use crate::text::pieces;
use crate::text::slices;
use crate::text::split;
use crate::text::texts;
use crate::text::trim;
use crate::text::trim_end;
use crate::text::trimmed;
use crate::text::trimmed_end;
use crate::trusted::groups_of;
use crate::trusted::regex_captures;
use vstd::prelude::*;

verus! {

/// What a feature list holds: the tags with their values, the bare flags,
/// and the tag names in the order in which they appeared.
#[verifier::ext_equal]
pub struct FeatureList {
    pub tags: Map<Seq<char>, Seq<char>>,
    pub flags: Seq<Seq<char>>,
    pub order: Seq<Seq<char>>,
}

/// What the two groups of a pattern hold, where it matched.
pub type Groups = Option<(Option<Seq<char>>, Option<Seq<char>>)>;

/// The key and the value that the header pattern found, both trimmed. A
/// line without a match is no header.
pub open spec fn keyval_of(groups: Groups) -> Result<(Seq<char>, Seq<char>), Seq<char>> {
    match groups {
        None => Err("invalid-header"@),
        Some((None, _)) => Err("failed-get-key"@),
        Some((Some(_), None)) => Err("failed-get-features_string"@),
        Some((Some(key), Some(value))) => Ok((trimmed(key), trimmed(value))),
    }
}

/// The key and the value of a header line, both trimmed.
pub open spec fn keyval(line: Seq<char>) -> Result<(Seq<char>, Seq<char>), Seq<char>> {
    keyval_of(regex_captures(KEYVAL_PATTERN@, line))
}

/// The value that the header pattern found, as it stands.
pub open spec fn list_of(groups: Groups) -> Result<Seq<char>, Seq<char>> {
    match groups {
        None => Err("invalid-header"@),
        Some((_, None)) => Err("failed-get-features_string"@),
        Some((_, Some(list))) => Ok(list),
    }
}

/// The part of a header line behind its key and colon.
pub open spec fn feature_text(line: Seq<char>) -> Result<Seq<char>, Seq<char>> {
    list_of(regex_captures(KEYVAL_PATTERN@, line))
}

/// The name and the raw value that the feature pattern found; a token in
/// which it did not find both is no tag.
pub open spec fn named_tag(groups: Groups) -> Option<(Seq<char>, Seq<char>)> {
    match groups {
        Some((Some(name), Some(value))) => Some((name, value)),
        _ => None,
    }
}

/// The name and the raw value of a token that has the shape `name=value`.
pub open spec fn tag_of(token: Seq<char>) -> Option<(Seq<char>, Seq<char>)> {
    named_tag(regex_captures(FEATURE_PATTERN@, token))
}

/// `value` without one closing quote at its end.
pub open spec fn without_closing_quote(value: Seq<char>) -> Seq<char> {
    if value.len() > 0 && value.last() == '"' {
        value.drop_last()
    } else {
        value
    }
}

/// The value stored for a tag. A content type drops the white space at the
/// end first; one closing quote is dropped in either case.
pub open spec fn tag_value(raw: Seq<char>, trim: bool) -> Seq<char> {
    without_closing_quote(
        if trim {
            trimmed_end(raw)
        } else {
            raw
        },
    )
}

/// The feature list that a sequence of tokens makes, read from the left: a
/// later value of a tag replaces the earlier one, while the order keeps
/// every appearance.
pub open spec fn features_of(tokens: Seq<Seq<char>>, trim: bool) -> FeatureList
    decreases tokens.len(),
{
    if tokens.len() == 0 {
        FeatureList { tags: Map::empty(), flags: Seq::empty(), order: Seq::empty() }
    } else {
        let before = features_of(tokens.drop_last(), trim);
        match tag_of(tokens.last()) {
            Some((name, raw)) => FeatureList {
                tags: before.tags.insert(name, tag_value(raw, trim)),
                order: before.order.push(name),
                ..before
            },
            None => FeatureList { flags: before.flags.push(tokens.last()), ..before },
        }
    }
}

/// The feature list of a header line.
pub open spec fn only_features(line: Seq<char>) -> Result<FeatureList, Seq<char>> {
    match feature_text(line) {
        Err(e) => Err(e),
        Ok(list) => Ok(features_of(pieces(list, ';'), false)),
    }
}

/// The content type of a header line: the first token is the primary value,
/// the others are its parameters and flags.
pub open spec fn content_type(line: Seq<char>) -> Result<ContentTypeView, Seq<char>> {
    match feature_text(line) {
        Err(e) => Err(e),
        Ok(list) => {
            let tokens = pieces(list, ';');
            let rest = features_of(tokens.drop_first(), true);
            Ok(ContentTypeView { value: tokens[0], features: rest.tags, flags: rest.flags })
        },
    }
}

/// Every name in the order of a feature list is one of its tags.
pub proof fn lemma_order_names_are_tags(tokens: Seq<Seq<char>>, trim: bool)
    ensures
        forall|i: int|
            0 <= i < features_of(tokens, trim).order.len() ==> features_of(
                tokens,
                trim,
            ).tags.contains_key(#[trigger] features_of(tokens, trim).order[i]),
    decreases tokens.len(),
{
    if tokens.len() > 0 {
        lemma_order_names_are_tags(tokens.drop_last(), trim);
        let before = features_of(tokens.drop_last(), trim);
        let now = features_of(tokens, trim);
        assert forall|i: int| 0 <= i < now.order.len() implies now.tags.contains_key(
            #[trigger] now.order[i],
        ) by {
            if i < before.order.len() {
                assert(before.tags.contains_key(before.order[i]));
            }
        }
    }
}

/// Where every token is a tag, the order lists the names of the tokens, one
/// for one.
pub proof fn lemma_order_lists_the_tag_names(tokens: Seq<Seq<char>>, trim: bool)
    requires
        forall|i: int| 0 <= i < tokens.len() ==> tag_of(#[trigger] tokens[i]) is Some,
    ensures
        features_of(tokens, trim).order.len() == tokens.len(),
        forall|i: int|
            0 <= i < tokens.len() ==> features_of(tokens, trim).order[i] == tag_of(
                #[trigger] tokens[i],
            )->Some_0.0,
    decreases tokens.len(),
{
    if tokens.len() > 0 {
        let before = tokens.drop_last();
        assert forall|i: int| 0 <= i < before.len() implies tag_of(#[trigger] before[i])
            is Some by {
            assert(before[i] == tokens[i]);
        }
        lemma_order_lists_the_tag_names(before, trim);
        assert forall|i: int| 0 <= i < tokens.len() implies features_of(tokens, trim).order[i]
            == tag_of(#[trigger] tokens[i])->Some_0.0 by {
            if i < before.len() {
                assert(before[i] == tokens[i]);
            }
        }
    }
}

fn drop_closing_quote<'a>(value: &'a str) -> (r: &'a str)
    ensures
        r@ == without_closing_quote(value@),
{
    let chars = chars_of(value);
    let n = chars.len();
    if n > 0 && chars[n - 1] == '"' {
        let r = value.substring_char(0, n - 1);
        r
    } else {
        value
    }
}

/// Takes the feature list out of what the header pattern found in a line.
pub fn list_from(groups: Option<(Option<String>, Option<String>)>) -> (r: Result<
    String,
    &'static str,
>)
    ensures
        match list_of(groups_of(groups)) {
            Ok(list) => r matches Ok(text) && text@ == list,
            Err(e) => r matches Err(m) && m@ == e,
        },
{
    match groups {
        Some((_, Some(list))) => Ok(list),
        Some((_, None)) => Err("failed-get-features_string"),
        None => Err("invalid-header"),
    }
}

/// Takes the tag out of what the feature pattern found in a token: its
/// name, and its value as it is stored. `None` if the token is no tag.
pub fn tag_from(groups: Option<(Option<String>, Option<String>)>, trim: bool) -> (r: Option<
    (String, String),
>)
    ensures
        match named_tag(groups_of(groups)) {
            Some((name, raw)) => r matches Some(tag) && tag.0@ == name && tag.1@ == tag_value(
                raw,
                trim,
            ),
            None => r is None,
        },
{
    match groups {
        Some((Some(name), Some(raw))) => {
            let kept = if trim {
                trim_end(raw.as_str())
            } else {
                raw.as_str()
            };
            Some((name, drop_closing_quote(kept).to_owned()))
        },
        _ => None,
    }
}

/// Takes the key and the value out of what the header pattern found in a
/// line.
pub fn keyval_from(groups: Option<(Option<String>, Option<String>)>) -> (r: Result<
    (String, String),
    &'static str,
>)
    ensures
        match keyval_of(groups_of(groups)) {
            Ok((key, value)) => r matches Ok(found) && found.0@ == key && found.1@ == value,
            Err(e) => r matches Err(m) && m@ == e,
        },
{
    match groups {
        Some((Some(key), Some(value))) => Ok(
            (trim(key.as_str()).to_owned(), trim(value.as_str()).to_owned()),
        ),
        Some((Some(_), None)) => Err("failed-get-features_string"),
        Some((None, _)) => Err("failed-get-key"),
        None => Err("invalid-header"),
    }
}

fn collect_features(config: &Config, tokens: &Vec<&str>, from: usize, trim: bool) -> (r: (
    TextMap,
    Vec<String>,
    Vec<String>,
))
    requires
        from <= tokens.len(),
    ensures
        (FeatureList { tags: r.0@, flags: texts(r.1@), order: texts(r.2@) }) == features_of(
            slices(tokens@).skip(from as int),
            trim,
        ),
{
    let mut tags = TextMap::new();
    let mut flags: Vec<String> = Vec::new();
    let mut order: Vec<String> = Vec::new();
    let ghost all = slices(tokens@).skip(from as int);
    let mut i: usize = from;
    while i < tokens.len()
        invariant
            from <= i <= tokens.len(),
            all == slices(tokens@).skip(from as int),
            (FeatureList { tags: tags@, flags: texts(flags@), order: texts(order@) })
                == features_of(all.take(i - from), trim),
        decreases tokens.len() - i,
    {
        let token: &str = tokens[i];
        assert(all.take(i + 1 - from).drop_last() =~= all.take(i - from));
        match tag_from(config.feature_groups(token), trim) {
            Some(tag) => {
                order.push(tag.0.clone());
                tags.insert(tag.0, tag.1);
            },
            None => {
                flags.push(token.to_owned());
            },
        }
        i += 1;
    }
    assert(all.take(i - from) =~= all);
    (tags, flags, order)
}

/// Reads the feature list behind the key of a header line: the tags, the
/// flags, and the tag names in order of appearance.
pub fn parse_only_features(config: &Config, line: &str) -> (r: Result<
    (TextMap, Vec<String>, Vec<String>),
    &'static str,
>)
    ensures
        match only_features(line@) {
            Ok(list) => r matches Ok(found) && (FeatureList {
                tags: found.0@,
                flags: texts(found.1@),
                order: texts(found.2@),
            }) == list,
            Err(e) => r matches Err(m) && m@ == e,
        },
{
    let list = match list_from(config.keyval_groups(line)) {
        Ok(list) => list,
        Err(e) => {
            return Err(e);
        },
    };
    let tokens = split(list.as_str(), ';');
    assert(slices(tokens@).skip(0) =~= slices(tokens@));
    Ok(collect_features(config, &tokens, 0, false))
}

/// Reads a content type line: the primary value, then its parameters and
/// flags.
pub fn parse_content_type(config: &Config, line: &str) -> (r: Result<ContentType, &'static str>)
    ensures
        match content_type(line@) {
            Ok(found) => r matches Ok(c) && c@ == found,
            Err(e) => r matches Err(m) && m@ == e,
        },
{
    let list = match list_from(config.keyval_groups(line)) {
        Ok(list) => list,
        Err(e) => {
            return Err(e);
        },
    };
    let tokens = split(list.as_str(), ';');
    proof {
        crate::text::lemma_pieces_hold_no_separator(list@, ';');
    }
    let value = tokens[0].to_owned();
    let rest = collect_features(config, &tokens, 1, true);
    Ok(ContentType { value, features: rest.0, flags: rest.1 })
}

/// Splits a header line into its key and its value.
pub fn parse_keyval(config: &Config, line: &str) -> (r: Result<(String, String), &'static str>)
    ensures
        match keyval(line@) {
            Ok((key, value)) => r matches Ok(found) && found.0@ == key && found.1@ == value,
            Err(e) => r matches Err(m) && m@ == e,
        },
{
    keyval_from(config.keyval_groups(line))
}

} // verus!
