//! The data of a parsed message: header maps, content types, parts, the part
//! accumulator and the message record, each with its mathematical view.

use crate::part::drained;
use crate::text::same_text;
use crate::text::texts;
use crate::trusted::capture_pair;
use crate::trusted::groups_of;
use crate::trusted::lowercase;
use crate::trusted::pattern_compiles;
use crate::trusted::regex_captures;
use crate::trusted::regex_compiles;
use crate::trusted::to_lowercase;
use vstd::prelude::*;

verus! {

/// The shape of a multipart boundary line: two dashes, the token, and any
/// closing dashes.
pub const BOUNDARY_PATTERN: &'static str = r"--([\w\d]+)([--]*)";

/// The shape of a header line: a bare key, a colon, the value.
pub const KEYVAL_PATTERN: &'static str = r"([\w\d-]+)\s*:\s*([\w\d\W]+)";

/// The shape of one `name=value` token of a feature list; the quotes are
/// optional.
pub const FEATURE_PATTERN: &'static str = r#"([\w\d-]+)="*([\w\s\d\D]+)"*"#;

/// The shape of a mail address: a local part, `@`, the domain.
pub const FROM_PATTERN: &'static str = r#"([\w\d_=+/*!@#$%^&*()-|]+)@([\w\d.]+)"#;

/// The four patterns that the parser matches lines against. A value of this
/// type exists only if every pattern compiles.
#[derive(Debug)]
pub struct Config {
    boundary_regex: String,
    keyval_regex: String,
    feature_regex: String,
    from_regex: String,
}

impl Clone for Config {
    fn clone(&self) -> (r: Config)
        ensures
            r == *self,
    {
        proof {
            use_type_invariant(self);
        }
        Config {
            boundary_regex: self.boundary_regex.clone(),
            keyval_regex: self.keyval_regex.clone(),
            feature_regex: self.feature_regex.clone(),
            from_regex: self.from_regex.clone(),
        }
    }
}

impl Config {
    #[verifier::type_invariant]
    spec fn patterns_compile(&self) -> bool {
        &&& self.boundary_regex@ == BOUNDARY_PATTERN@
        &&& self.keyval_regex@ == KEYVAL_PATTERN@
        &&& self.feature_regex@ == FEATURE_PATTERN@
        &&& self.from_regex@ == FROM_PATTERN@
        &&& regex_compiles(BOUNDARY_PATTERN@)
        &&& regex_compiles(KEYVAL_PATTERN@)
        &&& regex_compiles(FEATURE_PATTERN@)
        &&& regex_compiles(FROM_PATTERN@)
    }

    /// The outcome of `new`: the first pattern that does not compile names
    /// the error.
    pub open spec fn new_outcome() -> Result<(), Seq<char>> {
        if !regex_compiles(BOUNDARY_PATTERN@) {
            Err("failed-regex-boundary_regex"@)
        } else if !regex_compiles(KEYVAL_PATTERN@) {
            Err("failed-regex-keyval_regex"@)
        } else if !regex_compiles(FEATURE_PATTERN@) {
            Err("failed-regex-feature_regex"@)
        } else if !regex_compiles(FROM_PATTERN@) {
            Err("failed-regex-from_regex"@)
        } else {
            Ok(())
        }
    }

    /// Checks the four patterns and keeps them.
    pub fn new() -> (r: Result<Config, &'static str>)
        ensures
            match Self::new_outcome() {
                Ok(_) => r is Ok,
                Err(e) => r matches Err(m) && m@ == e,
            },
    {
        if !pattern_compiles(BOUNDARY_PATTERN) {
            return Err("failed-regex-boundary_regex");
        }
        if !pattern_compiles(KEYVAL_PATTERN) {
            return Err("failed-regex-keyval_regex");
        }
        if !pattern_compiles(FEATURE_PATTERN) {
            return Err("failed-regex-feature_regex");
        }
        if !pattern_compiles(FROM_PATTERN) {
            return Err("failed-regex-from_regex");
        }
        Ok(
            Config {
                boundary_regex: BOUNDARY_PATTERN.to_owned(),
                keyval_regex: KEYVAL_PATTERN.to_owned(),
                feature_regex: FEATURE_PATTERN.to_owned(),
                from_regex: FROM_PATTERN.to_owned(),
            },
        )
    }

    /// The groups of the boundary pattern in `text`.
    pub(crate) fn boundary_groups(&self, text: &str) -> (groups: Option<
        (Option<String>, Option<String>),
    >)
        ensures
            groups_of(groups) == regex_captures(BOUNDARY_PATTERN@, text@),
    {
        proof {
            use_type_invariant(self);
        }
        capture_pair(self.boundary_regex.as_str(), text)
    }

    /// The groups of the header pattern in `text`.
    pub(crate) fn keyval_groups(&self, text: &str) -> (groups: Option<
        (Option<String>, Option<String>),
    >)
        ensures
            groups_of(groups) == regex_captures(KEYVAL_PATTERN@, text@),
    {
        proof {
            use_type_invariant(self);
        }
        capture_pair(self.keyval_regex.as_str(), text)
    }

    /// The groups of the feature pattern in `text`.
    pub(crate) fn feature_groups(&self, text: &str) -> (groups: Option<
        (Option<String>, Option<String>),
    >)
        ensures
            groups_of(groups) == regex_captures(FEATURE_PATTERN@, text@),
    {
        proof {
            use_type_invariant(self);
        }
        capture_pair(self.feature_regex.as_str(), text)
    }

    /// The groups of the address pattern in `text`.
    pub(crate) fn from_groups(&self, text: &str) -> (groups: Option<
        (Option<String>, Option<String>),
    >)
        ensures
            groups_of(groups) == regex_captures(FROM_PATTERN@, text@),
    {
        proof {
            use_type_invariant(self);
        }
        capture_pair(self.from_regex.as_str(), text)
    }
}

/// A map from text to text. A key has one value, and a later value for it
/// replaces the earlier. The entries stand in the order in which their keys
/// first came.
#[derive(Debug)]
pub struct TextMap {
    entries: Vec<(String, String)>,
}

/// The map that a list of entries makes, read from the left.
pub closed spec fn map_of(entries: Seq<(String, String)>) -> Map<Seq<char>, Seq<char>>
    decreases entries.len(),
{
    if entries.len() == 0 {
        Map::empty()
    } else {
        map_of(entries.drop_last()).insert(entries.last().0@, entries.last().1@)
    }
}

/// No two entries have the same key.
pub closed spec fn keys_differ(entries: Seq<(String, String)>) -> bool {
    forall|i: int, j: int|
        0 <= i < j < entries.len() ==> (#[trigger] entries[i]).0@ != (#[trigger] entries[j]).0@
}

proof fn lemma_keys_of_map(entries: Seq<(String, String)>, key: Seq<char>)
    ensures
        map_of(entries).contains_key(key) <==> exists|i: int|
            0 <= i < entries.len() && (#[trigger] entries[i]).0@ == key,
    decreases entries.len(),
{
    if entries.len() > 0 {
        let before = entries.drop_last();
        lemma_keys_of_map(before, key);
        if exists|i: int| 0 <= i < entries.len() && (#[trigger] entries[i]).0@ == key {
            let i = choose|i: int| 0 <= i < entries.len() && (#[trigger] entries[i]).0@ == key;
            if i < before.len() {
                assert(before[i].0@ == key);
            }
        }
    }
}

proof fn lemma_keys_differ_before(entries: Seq<(String, String)>)
    requires
        keys_differ(entries),
        entries.len() > 0,
    ensures
        keys_differ(entries.drop_last()),
{
    let before = entries.drop_last();
    assert forall|i: int, j: int| 0 <= i < j < before.len() implies (#[trigger] before[i]).0@
        != (#[trigger] before[j]).0@ by {}
}

proof fn lemma_value_of_key(entries: Seq<(String, String)>, at: int)
    requires
        keys_differ(entries),
        0 <= at < entries.len(),
    ensures
        map_of(entries).contains_key(entries[at].0@),
        map_of(entries)[entries[at].0@] == entries[at].1@,
    decreases entries.len(),
{
    let before = entries.drop_last();
    if at < before.len() {
        lemma_keys_differ_before(entries);
        lemma_value_of_key(before, at);
    }
}

proof fn lemma_value_replaced(entries: Seq<(String, String)>, at: int, entry: (String, String))
    requires
        keys_differ(entries),
        0 <= at < entries.len(),
        entry.0@ == entries[at].0@,
    ensures
        keys_differ(entries.update(at, entry)),
        map_of(entries.update(at, entry)) == map_of(entries).insert(entry.0@, entry.1@),
    decreases entries.len(),
{
    let after = entries.update(at, entry);
    assert forall|i: int, j: int| 0 <= i < j < after.len() implies (#[trigger] after[i]).0@
        != (#[trigger] after[j]).0@ by {}
    let before = entries.drop_last();
    if at == entries.len() - 1 {
        assert(after.drop_last() =~= before);
    } else {
        lemma_keys_differ_before(entries);
        lemma_value_replaced(before, at, entry);
        assert(after.drop_last() =~= before.update(at, entry));
    }
}

impl View for TextMap {
    type V = Map<Seq<char>, Seq<char>>;

    closed spec fn view(&self) -> Map<Seq<char>, Seq<char>> {
        map_of(self.entries@)
    }
}

impl Clone for TextMap {
    fn clone(&self) -> (r: TextMap)
        ensures
            r@ == self@,
    {
        let mut entries: Vec<(String, String)> = Vec::new();
        let mut i: usize = 0;
        while i < self.entries.len()
            invariant
                i <= self.entries.len(),
                entries@ == self.entries@.take(i as int),
            decreases self.entries.len() - i,
        {
            let entry = (self.entries[i].0.clone(), self.entries[i].1.clone());
            entries.push(entry);
            i += 1;
        }
        proof {
            use_type_invariant(self);
            assert(entries@ =~= self.entries@);
        }
        TextMap { entries }
    }
}

impl TextMap {
    #[verifier::type_invariant]
    spec fn one_value_a_key(&self) -> bool {
        keys_differ(self.entries@)
    }

    /// The empty map.
    pub fn new() -> (m: TextMap)
        ensures
            m@ == Map::<Seq<char>, Seq<char>>::empty(),
    {
        TextMap { entries: Vec::new() }
    }

    fn find(&self, key: &str) -> (at: Option<usize>)
        ensures
            match at {
                Some(i) => i < self.entries@.len() && self.entries@[i as int].0@ == key@,
                None => !self@.contains_key(key@),
            },
    {
        let mut i: usize = 0;
        while i < self.entries.len()
            invariant
                i <= self.entries.len(),
                forall|k: int| 0 <= k < i ==> (#[trigger] self.entries@[k]).0@ != key@,
            decreases self.entries.len() - i,
        {
            if same_text(self.entries[i].0.as_str(), key) {
                return Some(i);
            }
            i += 1;
        }
        proof {
            lemma_keys_of_map(self.entries@, key@);
        }
        None
    }

    /// Sets the value of `key`, replacing any earlier one.
    pub fn insert(&mut self, key: String, value: String)
        ensures
            final(self)@ == old(self)@.insert(key@, value@),
    {
        proof {
            use_type_invariant(&*self);
        }
        let found = self.find(key.as_str());
        let mut entries: Vec<(String, String)> = Vec::new();
        std::mem::swap(&mut self.entries, &mut entries);
        let ghost before = entries@;
        match found {
            Some(i) => {
                proof {
                    lemma_value_replaced(before, i as int, (key, value));
                }
                entries.set(i, (key, value));
            },
            None => {
                proof {
                    lemma_keys_of_map(before, key@);
                    let after = before.push((key, value));
                    assert(after.drop_last() =~= before);
                    assert forall|i: int, j: int| 0 <= i < j < after.len() implies (
                        #[trigger] after[i]
                    ).0@ != (#[trigger] after[j]).0@ by {}
                }
                entries.push((key, value));
            },
        }
        self.entries = entries;
    }

    /// The value of `key`, if it has one.
    pub fn get(&self, key: &str) -> (value: Option<&String>)
        ensures
            value is Some <==> self@.contains_key(key@),
            value matches Some(v) ==> v@ == self@[key@],
    {
        proof {
            use_type_invariant(self);
        }
        match self.find(key) {
            Some(i) => {
                proof {
                    lemma_value_of_key(self.entries@, i as int);
                }
                Some(&self.entries[i].1)
            },
            None => None,
        }
    }

    /// Whether `key` has a value.
    pub fn contains_key(&self, key: &str) -> (r: bool)
        ensures
            r == self@.contains_key(key@),
    {
        proof {
            use_type_invariant(self);
        }
        match self.find(key) {
            Some(i) => {
                proof {
                    lemma_value_of_key(self.entries@, i as int);
                }
                true
            },
            None => false,
        }
    }

    /// The keys with their values, in the order in which the keys first came.
    /// Every key of the map stands here once.
    pub fn entries(&self) -> (list: &Vec<(String, String)>)
        ensures
            forall|i: int|
                0 <= i < list@.len() ==> self@.contains_key((#[trigger] list@[i]).0@)
                    && self@[list@[i].0@] == list@[i].1@,
            forall|key: Seq<char>|
                self@.contains_key(key) ==> exists|i: int|
                    0 <= i < list@.len() && (#[trigger] list@[i]).0@ == key,
            forall|i: int, j: int|
                0 <= i < j < list@.len() ==> (#[trigger] list@[i]).0@ != (#[trigger] list@[j]).0@,
    {
        proof {
            use_type_invariant(self);
            assert forall|i: int| 0 <= i < self.entries@.len() implies self@.contains_key(
                (#[trigger] self.entries@[i]).0@,
            ) && self@[self.entries@[i].0@] == self.entries@[i].1@ by {
                lemma_value_of_key(self.entries@, i);
            }
            assert forall|key: Seq<char>| self@.contains_key(key) implies exists|i: int|
                0 <= i < self.entries@.len() && (#[trigger] self.entries@[i]).0@ == key by {
                lemma_keys_of_map(self.entries@, key);
            }
        }
        &self.entries
    }
}

/// A content type: the primary value, its `name=value` parameters and its
/// bare flags.
#[derive(Debug)]
pub struct ContentType {
    pub value: String,
    pub features: TextMap,
    pub flags: Vec<String>,
}

/// What a `ContentType` holds.
#[verifier::ext_equal]
pub struct ContentTypeView {
    pub value: Seq<char>,
    pub features: Map<Seq<char>, Seq<char>>,
    pub flags: Seq<Seq<char>>,
}

impl ContentTypeView {
    /// The content type of a part that declared none.
    pub open spec fn empty() -> ContentTypeView {
        ContentTypeView { value: Seq::empty(), features: Map::empty(), flags: Seq::empty() }
    }
}

impl View for ContentType {
    type V = ContentTypeView;

    open spec fn view(&self) -> ContentTypeView {
        ContentTypeView {
            value: self.value@,
            features: self.features@,
            flags: texts(self.flags@),
        }
    }
}

impl Clone for ContentType {
    fn clone(&self) -> (r: ContentType)
        ensures
            r@ == self@,
    {
        let r = ContentType {
            value: self.value.clone(),
            features: self.features.clone(),
            flags: self.flags.clone(),
        };
        r
    }
}

impl ContentType {
    /// The content type of a part that declared none.
    pub fn new() -> (c: ContentType)
        ensures
            c@ == ContentTypeView::empty(),
    {
        let c = ContentType { value: String::new(), features: TextMap::new(), flags: Vec::new() };
        c
    }
}

/// The DKIM signature's tags and the order in which they appeared.
#[derive(Debug)]
pub struct Dkim {
    pub features: TextMap,
    pub order: Vec<String>,
}

/// What a `Dkim` holds.
#[verifier::ext_equal]
pub struct DkimView {
    pub features: Map<Seq<char>, Seq<char>>,
    pub order: Seq<Seq<char>>,
}

impl View for Dkim {
    type V = DkimView;

    open spec fn view(&self) -> DkimView {
        DkimView { features: self.features@, order: texts(self.order@) }
    }
}

impl Clone for Dkim {
    fn clone(&self) -> (r: Dkim)
        ensures
            r@ == self@,
    {
        let r = Dkim { features: self.features.clone(), order: self.order.clone() };
        r
    }
}

impl Dkim {
    /// A block without tags.
    pub fn init() -> (d: Dkim)
        ensures
            d@ == (DkimView { features: Map::empty(), order: Seq::empty() }),
    {
        let d = Dkim { features: TextMap::new(), order: Vec::new() };
        d
    }

    /// Takes over a parsed tag list: the tags replace those held, the order
    /// is added behind the order held.
    pub fn overtake(&mut self, features: TextMap, order: Vec<String>)
        ensures
            final(self)@ == (DkimView {
                features: features@,
                order: old(self)@.order + texts(order@),
            }),
    {
        let mut order = order;
        self.features = features;
        self.order.append(&mut order);
    }
}

/// The transfer encoding of a part.
#[derive(Debug, Clone, Copy, PartialEq, Eq)]
pub enum ContentEncoding {
    Base64,
    Qp,
    String,
    UnSupported,
}

/// The decoded payload of a part.
#[derive(Debug, PartialEq, Eq)]
pub enum ContentDecoded {
    Base64(Vec<u8>),
    Qp(Vec<u8>),
    String(String),
    Html(String),
    Nothing,
}

/// What a `ContentDecoded` holds.
pub enum DecodedView {
    Base64(Seq<u8>),
    Qp(Seq<u8>),
    Text(Seq<char>),
    Html(Seq<char>),
    Nothing,
}

impl View for ContentDecoded {
    type V = DecodedView;

    open spec fn view(&self) -> DecodedView {
        match self {
            ContentDecoded::Base64(bytes) => DecodedView::Base64(bytes@),
            ContentDecoded::Qp(bytes) => DecodedView::Qp(bytes@),
            ContentDecoded::String(text) => DecodedView::Text(text@),
            ContentDecoded::Html(text) => DecodedView::Html(text@),
            ContentDecoded::Nothing => DecodedView::Nothing,
        }
    }
}

impl Clone for ContentDecoded {
    fn clone(&self) -> (r: ContentDecoded)
        ensures
            r@ == self@,
    {
        match self {
            ContentDecoded::Base64(bytes) => ContentDecoded::Base64(bytes.clone()),
            ContentDecoded::Qp(bytes) => ContentDecoded::Qp(bytes.clone()),
            ContentDecoded::String(text) => ContentDecoded::String(text.clone()),
            ContentDecoded::Html(text) => ContentDecoded::Html(text.clone()),
            ContentDecoded::Nothing => ContentDecoded::Nothing,
        }
    }
}

/// One body part: its content type, its own header fields, the raw data
/// gathered for it and, once decoded, its payload.
#[derive(Debug)]
pub struct Part {
    pub content_type: ContentType,
    pub content_features: TextMap,
    pub data: String,
    pub decoded: ContentDecoded,
}

/// What a `Part` holds.
#[verifier::ext_equal]
pub struct PartView {
    pub content_type: ContentTypeView,
    pub content_features: Map<Seq<char>, Seq<char>>,
    pub data: Seq<char>,
    pub decoded: DecodedView,
}

impl PartView {
    /// The part that nothing has been gathered for.
    pub open spec fn empty() -> PartView {
        PartView {
            content_type: ContentTypeView::empty(),
            content_features: Map::empty(),
            data: Seq::empty(),
            decoded: DecodedView::Nothing,
        }
    }
}

impl View for Part {
    type V = PartView;

    open spec fn view(&self) -> PartView {
        PartView {
            content_type: self.content_type@,
            content_features: self.content_features@,
            data: self.data@,
            decoded: self.decoded@,
        }
    }
}

/// The views of a list of parts.
pub open spec fn part_views(parts: Seq<Part>) -> Seq<PartView> {
    parts.map_values(|p: Part| p@)
}

impl Clone for Part {
    fn clone(&self) -> (r: Part)
        ensures
            r@ == self@,
    {
        let r = Part {
            content_type: self.content_type.clone(),
            content_features: self.content_features.clone(),
            data: self.data.clone(),
            decoded: self.decoded.clone(),
        };
        r
    }
}

impl Part {
    /// A part that nothing has been gathered for.
    pub fn new() -> (p: Part)
        ensures
            p@ == PartView::empty(),
    {
        let p = Part {
            content_type: ContentType::new(),
            content_features: TextMap::new(),
            data: String::new(),
            decoded: ContentDecoded::Nothing,
        };
        p
    }

    /// Forgets everything gathered.
    pub fn reset(&mut self)
        ensures
            final(self)@ == PartView::empty(),
    {
        self.content_type = ContentType::new();
        self.content_features = TextMap::new();
        self.data = String::new();
        self.decoded = ContentDecoded::Nothing;
    }
}

/// Gathers the part that is being read and keeps the parts that are done.
#[derive(Debug)]
pub struct PartHandler {
    finished: Vec<Part>,
    active: Part,
}

/// What a `PartHandler` holds.
#[verifier::ext_equal]
pub struct PartHandlerView {
    pub finished: Seq<PartView>,
    pub active: PartView,
}

impl PartHandlerView {
    /// The data of the active part after one more line.
    pub open spec fn data_with(self, line: Seq<char>) -> Seq<char> {
        if self.active.data.len() == 0 {
            line
        } else {
            self.active.data.push('\n') + line
        }
    }

    /// The accumulator after a line of data.
    pub open spec fn data(self, line: Seq<char>) -> PartHandlerView {
        PartHandlerView {
            active: PartView { data: self.data_with(line), ..self.active },
            ..self
        }
    }

    /// The accumulator after a header field of the active part.
    pub open spec fn content_feature(self, key: Seq<char>, value: Seq<char>) -> PartHandlerView {
        PartHandlerView {
            active: PartView {
                content_features: self.active.content_features.insert(key, value),
                ..self.active
            },
            ..self
        }
    }

    /// The accumulator after the content type of the active part.
    pub open spec fn content_type(self, content_type: ContentTypeView) -> PartHandlerView {
        PartHandlerView { active: PartView { content_type, ..self.active }, ..self }
    }

    /// The accumulator after the active part is closed: kept if it holds
    /// data, dropped if it holds none.
    pub open spec fn flush(self) -> PartHandlerView {
        PartHandlerView {
            finished: if self.active.data.len() > 0 {
                self.finished.push(self.active)
            } else {
                self.finished
            },
            active: PartView::empty(),
        }
    }
}

impl View for PartHandler {
    type V = PartHandlerView;

    closed spec fn view(&self) -> PartHandlerView {
        PartHandlerView { finished: part_views(self.finished@), active: self.active@ }
    }
}

impl Clone for PartHandler {
    fn clone(&self) -> (r: PartHandler)
        ensures
            r@ == self@,
    {
        let r = PartHandler { finished: self.finished.clone(), active: self.active.clone() };
        r
    }
}

impl PartHandler {
    /// Sets the content type of the active part.
    pub fn content_type(&mut self, v: ContentType)
        ensures
            final(self)@ == old(self)@.content_type(v@),
    {
        self.active.content_type = v;
    }

    /// Sets one header field of the active part.
    pub fn content_feature(&mut self, key: String, value: String)
        ensures
            final(self)@ == old(self)@.content_feature(key@, value@),
    {
        self.active.content_features.insert(key, value);
    }

    /// Adds a line to the data of the active part; a line feed goes between
    /// two lines.
    pub fn data(&mut self, v: String)
        ensures
            final(self)@ == old(self)@.data(v@),
    {
        if !self.active.data.as_str().is_empty() {
            proof {
                reveal_strlit("\n");
            }
            self.active.data.append("\n");
        }
        self.active.data.append(v.as_str());
    }

    /// An accumulator that holds nothing.
    pub fn new() -> (h: PartHandler)
        ensures
            h@ == (PartHandlerView { finished: Seq::empty(), active: PartView::empty() }),
    {
        let h = PartHandler { finished: Vec::new(), active: Part::new() };
        h
    }

    /// Closes the active part. A part without data is dropped, so that a
    /// boundary that follows another leaves no empty part behind.
    pub fn flush(&mut self)
        ensures
            final(self)@ == old(self)@.flush(),
            old(self)@.active.data.len() == 0 ==> final(self)@.finished == old(self)@.finished,
    {
        let mut part = Part::new();
        std::mem::swap(&mut self.active, &mut part);
        if !part.data.as_str().is_empty() {
            self.finished.push(part);
        }
    }
}

/// A parsed message.
#[derive(Debug)]
pub struct EmailBody {
    pub dkim_found: bool,
    pub dkim: Dkim,
    pub headers: TextMap,
    pub parts: Vec<Part>,
    pub body: Vec<Part>,
    pub attachments: Vec<Part>,
    pub content_type: ContentType,
}

/// What an `EmailBody` holds.
#[verifier::ext_equal]
pub struct EmailBodyView {
    pub dkim_found: bool,
    pub dkim: DkimView,
    pub headers: Map<Seq<char>, Seq<char>>,
    pub parts: Seq<PartView>,
    pub body: Seq<PartView>,
    pub attachments: Seq<PartView>,
    pub content_type: ContentTypeView,
}

impl EmailBodyView {
    /// The message before its first line.
    pub open spec fn empty() -> EmailBodyView {
        EmailBodyView {
            dkim_found: false,
            dkim: DkimView { features: Map::empty(), order: Seq::empty() },
            headers: Map::empty(),
            parts: Seq::empty(),
            body: Seq::empty(),
            attachments: Seq::empty(),
            content_type: ContentTypeView::empty(),
        }
    }

    /// The message after a header line: the key is stored in lower case and
    /// a later value replaces an earlier one.
    pub open spec fn header(self, key: Seq<char>, value: Seq<char>) -> EmailBodyView {
        EmailBodyView { headers: self.headers.insert(lowercase(key), value), ..self }
    }
}

impl View for EmailBody {
    type V = EmailBodyView;

    open spec fn view(&self) -> EmailBodyView {
        EmailBodyView {
            dkim_found: self.dkim_found,
            dkim: self.dkim@,
            headers: self.headers@,
            parts: part_views(self.parts@),
            body: part_views(self.body@),
            attachments: part_views(self.attachments@),
            content_type: self.content_type@,
        }
    }
}

impl Clone for EmailBody {
    fn clone(&self) -> (r: EmailBody)
        ensures
            r@ == self@,
    {
        let r = EmailBody {
            dkim_found: self.dkim_found,
            dkim: self.dkim.clone(),
            headers: self.headers.clone(),
            parts: self.parts.clone(),
            body: self.body.clone(),
            attachments: self.attachments.clone(),
            content_type: self.content_type.clone(),
        };
        r
    }
}

impl EmailBody {
    /// The message before its first line.
    pub fn new() -> (e: EmailBody)
        ensures
            e@ == EmailBodyView::empty(),
    {
        let e = EmailBody {
            dkim_found: false,
            dkim: Dkim::init(),
            headers: TextMap::new(),
            parts: Vec::new(),
            body: Vec::new(),
            attachments: Vec::new(),
            content_type: ContentType::new(),
        };
        e
    }

    /// Stores a header under its lower-cased key.
    pub fn header(&mut self, key: String, value: String)
        ensures
            final(self)@ == old(self)@.header(key@, value@),
    {
        let lower = to_lowercase(key.as_str());
        self.headers.insert(lower, value);
    }

    /// Records the DKIM block of the message.
    pub fn dkim(&mut self, value: Dkim)
        ensures
            final(self)@ == (EmailBodyView { dkim_found: true, dkim: value@, ..old(self)@ }),
    {
        self.dkim_found = true;
        self.dkim = value;
    }

    /// Takes the parts that `handler` gathered, the active one included if
    /// it holds data, then decodes and files them in order. If one of them
    /// cannot be decoded, the parts stay with the message as they were
    /// gathered.
    pub fn parts(&mut self, handler: PartHandler) -> (r: Result<(), &'static str>)
        ensures
            match drained(EmailBodyView { parts: handler@.flush().finished, ..old(self)@ }) {
                Some(done) => r is Ok && final(self)@ == done,
                None => r matches Err(m) && m@ == "failed-parse_parts"@ && final(self)@ == (
                    EmailBodyView { parts: handler@.flush().finished, ..old(self)@ }
                ),
            },
    {
        let mut handler = handler;
        handler.flush();
        self.parts = handler.finished;
        match crate::part::init(self) {
            Ok(_) => Ok(()),
            Err(_) => Err("failed-parse_parts"),
        }
    }
}

} // verus!
