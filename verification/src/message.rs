//! The message state machine: reads a message line by line, tells headers,
//! boundaries and part data apart, and gathers the parts.

use crate::config::BOUNDARY_PATTERN;
use crate::config::Config;
use crate::config::ContentEncoding;
use crate::config::ContentTypeView;
use crate::config::DecodedView;
use crate::config::DkimView;
use crate::config::EmailBody;
use crate::config::EmailBodyView;
use crate::config::PartHandler;
use crate::config::PartHandlerView;
use crate::config::PartView;
use crate::dkim::ActionView;
use crate::dkim::first_action;
use crate::dkim::has_basic_headers;
use crate::parser::content_type;
use crate::parser::keyval;
use crate::parser::only_features;
use crate::parser::parse_content_type;
use crate::parser::parse_keyval;
use crate::parser::parse_only_features;
use crate::part::applicable_type;
use crate::part::drained;
use crate::part::filed;
use crate::part::filed_all;
use crate::part::is_attachment;
use crate::part::part_encoding;
use crate::text::contains;
use crate::text::has_infix;
use crate::text::joined;
use crate::text::same_text;
use crate::text::texts;
use crate::trusted::groups_of;
use crate::trusted::regex_captures;
use vstd::prelude::*;

verus! {

/// The reader of a message: where it stands, which boundaries are open, the
/// parts gathered and the message built so far.
#[derive(Debug)]
pub struct Reader {
    data_started: bool,
    boundary_started: bool,
    boundaries: Vec<String>,
    part_handler: PartHandler,
    body: EmailBody,
}

/// What a `Reader` holds.
#[verifier::ext_equal]
pub struct ReaderView {
    /// The blank line that ends a header block has been seen, and no
    /// boundary or content type has opened another since.
    pub data_started: bool,
    /// A boundary has opened a part whose own headers are being read.
    pub boundary_started: bool,
    /// The boundary tokens that were declared and not yet closed.
    pub boundaries: Seq<Seq<char>>,
    pub handler: PartHandlerView,
    pub body: EmailBodyView,
}

impl ReaderView {
    /// The reader before the first line.
    pub open spec fn start() -> ReaderView {
        ReaderView {
            data_started: false,
            boundary_started: false,
            boundaries: Seq::empty(),
            handler: PartHandlerView { finished: Seq::empty(), active: PartView::empty() },
            body: EmailBodyView::empty(),
        }
    }

    /// A header field goes to the part whose headers are being read, or
    /// else to the message.
    pub open spec fn field(self, key: Seq<char>, value: Seq<char>) -> ReaderView {
        if self.boundary_started {
            ReaderView { handler: self.handler.content_feature(key, value), ..self }
        } else {
            ReaderView { body: self.body.header(key, value), ..self }
        }
    }

    /// A content type goes where its header field goes.
    pub open spec fn kind(self, found: ContentTypeView) -> ReaderView {
        if self.boundary_started {
            ReaderView { handler: self.handler.content_type(found), ..self }
        } else {
            ReaderView { body: EmailBodyView { content_type: found, ..self.body }, ..self }
        }
    }

    /// The first DKIM signature line: its tags become the DKIM block, and
    /// the line is a header of the message as well.
    pub open spec fn after_signature(self, line: Seq<char>) -> Result<ReaderView, Seq<char>> {
        match only_features(line) {
            Err(_) => Err("invalid-DKIM_Signature"@),
            Ok(list) => {
                let signed = EmailBodyView {
                    dkim_found: true,
                    dkim: DkimView {
                        features: list.tags,
                        order: self.body.dkim.order + list.order,
                    },
                    ..self.body
                };
                Ok(
                    ReaderView {
                        body: match keyval(line) {
                            Ok((key, value)) => signed.header(key, value),
                            Err(_) => signed,
                        },
                        ..self
                    },
                )
            },
        }
    }

    /// A line that holds `Content-Type`. A multipart type opens its
    /// boundary; the reader is back among headers afterwards. A line that
    /// does not parse is fatal among headers and data within a body.
    pub open spec fn after_content_type(self, line: Seq<char>) -> Result<ReaderView, Seq<char>> {
        match content_type(line) {
            Err(_) => if self.data_started {
                Ok(ReaderView { handler: self.handler.data(line), ..self })
            } else {
                Err("failed-parse-Content-Type"@)
            },
            Ok(found) => {
                let multipart = has_infix(found.value, "multipart"@);
                if multipart && !found.features.contains_key("boundary"@) {
                    Err("not_found-boundry-Content-Type"@)
                } else {
                    let routed = match keyval(line) {
                        Ok((key, value)) => self.field(key, value).kind(found),
                        Err(_) => self,
                    };
                    Ok(
                        ReaderView {
                            data_started: false,
                            boundaries: if multipart {
                                self.boundaries.push(found.features["boundary"@])
                            } else {
                                self.boundaries
                            },
                            ..routed
                        },
                    )
                }
            },
        }
    }

    /// A line of a header block.
    pub open spec fn after_header(self, line: Seq<char>) -> Result<ReaderView, Seq<char>> {
        match keyval(line) {
            Ok((key, value)) => Ok(self.field(key, value)),
            Err(_) => Err("failed-parse-keyval"@),
        }
    }

    /// The blank line between headers and body.
    pub open spec fn after_blank(self) -> ReaderView {
        ReaderView { data_started: true, boundary_started: false, ..self }
    }

    /// A line of a body, given what the boundary pattern found in it.
    /// Without a match the line is data of the active part. A token with
    /// dashes behind it closes the innermost boundary, which must bear that
    /// token. A token without them opens a new part: the active part is
    /// closed, and the reader stands among the headers of the new part.
    pub open spec fn after_boundary(
        self,
        line: Seq<char>,
        groups: Option<(Option<Seq<char>>, Option<Seq<char>>)>,
    ) -> Result<ReaderView, Seq<char>> {
        match groups {
            None => Ok(ReaderView { handler: self.handler.data(line), ..self }),
            Some((None, _)) => Ok(self),
            Some((Some(token), dashes)) => if closes(dashes) {
                if self.boundaries.len() == 0 {
                    Err("invalid_boundary_end-overflow"@)
                } else if self.boundaries.last() != token {
                    Err("invalid_boundary_end-diff"@)
                } else {
                    Ok(ReaderView { boundaries: self.boundaries.drop_last(), ..self })
                }
            } else {
                Ok(
                    ReaderView {
                        data_started: false,
                        boundary_started: true,
                        handler: self.handler.flush(),
                        ..self
                    },
                )
            },
        }
    }

    /// A line of a body: a boundary that closes, a boundary that opens, or
    /// data of the active part.
    pub open spec fn after_body_line(self, line: Seq<char>) -> Result<ReaderView, Seq<char>> {
        self.after_boundary(line, regex_captures(BOUNDARY_PATTERN@, line))
    }

    /// The reader after one more line, or the error that the line ends in.
    pub open spec fn after_line(self, line: Seq<char>) -> Result<ReaderView, Seq<char>> {
        if has_infix(line, "DKIM-Signature"@) && !self.body.dkim_found {
            self.after_signature(line)
        } else if has_infix(line, "Content-Type"@) {
            self.after_content_type(line)
        } else if line.len() > 0 && !self.data_started {
            self.after_header(line)
        } else if line.len() == 0 {
            Ok(self.after_blank())
        } else {
            self.after_body_line(line)
        }
    }

    /// The reader after a sequence of lines; the first error ends the run.
    pub open spec fn after_lines(self, lines: Seq<Seq<char>>) -> Result<ReaderView, Seq<char>>
        decreases lines.len(),
    {
        if lines.len() == 0 {
            Ok(self)
        } else {
            match self.after_lines(lines.drop_last()) {
                Err(e) => Err(e),
                Ok(reader) => reader.after_line(lines.last()),
            }
        }
    }

    /// The message at the end of input: the active part is closed, and the
    /// finished parts are decoded and filed.
    pub open spec fn finished(self) -> Result<EmailBodyView, Seq<char>> {
        match drained(EmailBodyView { parts: self.handler.flush().finished, ..self.body }) {
            Some(message) => Ok(message),
            None => Err("failed-parse_parts"@),
        }
    }
}

/// Whether the dashes behind a boundary token close the boundary.
pub open spec fn closes(dashes: Option<Seq<char>>) -> bool {
    dashes matches Some(d) && d.len() > 0
}

/// The message that a sequence of lines holds, or the error that parsing
/// ends in.
pub open spec fn parsed(lines: Seq<Seq<char>>) -> Result<EmailBodyView, Seq<char>> {
    match ReaderView::start().after_lines(lines) {
        Err(e) => Err(e),
        Ok(reader) => reader.finished(),
    }
}

/// A header line of a message that is not multipart and not signed: it has
/// a key and a value, and if it gives a content type, that type parses and
/// is not multipart.
pub open spec fn is_header_line(line: Seq<char>) -> bool {
    &&& line.len() > 0
    &&& !has_infix(line, "DKIM-Signature"@)
    &&& keyval(line) is Ok
    &&& has_infix(line, "Content-Type"@) ==> (content_type(line) matches Ok(found) && !has_infix(
        found.value,
        "multipart"@,
    ))
}

/// A line of plain data: not empty, no boundary, and free of the two names
/// that the reader looks for in every line.
pub open spec fn is_data_line(line: Seq<char>) -> bool {
    &&& line.len() > 0
    &&& !has_infix(line, "DKIM-Signature"@)
    &&& !has_infix(line, "Content-Type"@)
    &&& regex_captures(BOUNDARY_PATTERN@, line) is None
}

/// The reader stands among the headers of the message and has gathered no
/// data, no boundary and no signature.
pub open spec fn reads_headers(reader: ReaderView) -> bool {
    &&& !reader.data_started
    &&& !reader.boundary_started
    &&& reader.boundaries.len() == 0
    &&& reader.handler == (PartHandlerView { finished: Seq::empty(), active: PartView::empty() })
    &&& !reader.body.dkim_found
    &&& reader.body.parts.len() == 0
    &&& reader.body.body.len() == 0
    &&& reader.body.attachments.len() == 0
}

/// The line is read as a line of a body.
pub open spec fn reads_body_line(reader: ReaderView, line: Seq<char>) -> bool {
    &&& !(has_infix(line, "DKIM-Signature"@) && !reader.body.dkim_found)
    &&& !has_infix(line, "Content-Type"@)
    &&& line.len() > 0
    &&& reader.data_started
}

/// The line closes a boundary.
pub open spec fn is_close(reader: ReaderView, line: Seq<char>) -> bool {
    &&& reads_body_line(reader, line)
    &&& regex_captures(BOUNDARY_PATTERN@, line) matches Some((Some(_), dashes)) && closes(dashes)
}

/// The line opens a part.
pub open spec fn is_open(reader: ReaderView, line: Seq<char>) -> bool {
    &&& reads_body_line(reader, line)
    &&& regex_captures(BOUNDARY_PATTERN@, line) matches Some((Some(_), dashes)) && !closes(dashes)
}

/// The line declares a multipart content type, and with it a boundary.
pub open spec fn is_declaration(reader: ReaderView, line: Seq<char>) -> bool {
    &&& !(has_infix(line, "DKIM-Signature"@) && !reader.body.dkim_found)
    &&& has_infix(line, "Content-Type"@)
    &&& content_type(line) matches Ok(found) && has_infix(found.value, "multipart"@)
}

/// How many of `lines`, read from `start`, declared a boundary.
pub open spec fn declared(start: ReaderView, lines: Seq<Seq<char>>) -> nat
    decreases lines.len(),
{
    if lines.len() == 0 {
        0
    } else {
        declared(start, lines.drop_last()) + (match start.after_lines(lines.drop_last()) {
            Ok(reader) => if is_declaration(reader, lines.last()) {
                1nat
            } else {
                0nat
            },
            Err(_) => 0nat,
        })
    }
}

/// How many of `lines`, read from `start`, closed a boundary.
pub open spec fn closed(start: ReaderView, lines: Seq<Seq<char>>) -> nat
    decreases lines.len(),
{
    if lines.len() == 0 {
        0
    } else {
        closed(start, lines.drop_last()) + (match start.after_lines(lines.drop_last()) {
            Ok(reader) => if is_close(reader, lines.last()) {
                1nat
            } else {
                0nat
            },
            Err(_) => 0nat,
        })
    }
}

/// Reading `first` and then `second` is reading the two in one run.
pub proof fn lemma_after_lines_concat(
    start: ReaderView,
    first: Seq<Seq<char>>,
    second: Seq<Seq<char>>,
)
    ensures
        start.after_lines(first + second) == match start.after_lines(first) {
            Err(e) => Err(e),
            Ok(reader) => reader.after_lines(second),
        },
    decreases second.len(),
{
    if second.len() == 0 {
        assert(first + second =~= first);
    } else {
        assert((first + second).drop_last() =~= first + second.drop_last());
        assert((first + second).last() == second.last());
        lemma_after_lines_concat(start, first, second.drop_last());
    }
}

/// Once a line has ended in an error, the lines behind it change nothing.
pub proof fn lemma_error_ends_run(start: ReaderView, lines: Seq<Seq<char>>, n: int)
    requires
        0 <= n <= lines.len(),
        start.after_lines(lines.take(n)) is Err,
    ensures
        start.after_lines(lines) == start.after_lines(lines.take(n)),
    decreases lines.len(),
{
    if n == lines.len() {
        assert(lines.take(n) =~= lines);
    } else {
        assert(lines.drop_last().take(n) =~= lines.take(n));
        lemma_error_ends_run(start, lines.drop_last(), n);
    }
}

/// A boundary close while no boundary is open fails with the overflow
/// error.
pub proof fn lemma_close_without_open_overflows(reader: ReaderView, line: Seq<char>)
    requires
        is_close(reader, line),
        reader.boundaries.len() == 0,
    ensures
        reader.after_line(line) == Err::<ReaderView, Seq<char>>("invalid_boundary_end-overflow"@),
{
}

/// In a run without error, the boundaries that are open at its end are
/// those open at its start, plus those declared, less those closed. So no
/// run closes more boundaries than were opened, and a run from the start
/// ends with no boundary open exactly if it closed as many as it declared.
pub proof fn lemma_boundaries_balance(start: ReaderView, lines: Seq<Seq<char>>)
    requires
        start.after_lines(lines) is Ok,
    ensures
        start.after_lines(lines)->Ok_0.boundaries.len() + closed(start, lines)
            == start.boundaries.len() + declared(start, lines),
    decreases lines.len(),
{
    if lines.len() > 0 {
        lemma_boundaries_balance(start, lines.drop_last());
    }
}

/// A header line that follows the boundary which opened a part is a header
/// of that part, whichever header it is: it goes to the part's fields and
/// not to its data.
pub proof fn lemma_part_header_follows_open(
    reader: ReaderView,
    open: Seq<char>,
    header: Seq<char>,
)
    requires
        is_open(reader, open),
        header.len() > 0,
        !has_infix(header, "DKIM-Signature"@) || reader.body.dkim_found,
        !has_infix(header, "Content-Type"@),
        keyval(header) is Ok,
    ensures
        reader.after_line(open) is Ok,
        reader.after_line(open)->Ok_0.after_line(header) == Ok::<ReaderView, Seq<char>>(
            ReaderView {
                data_started: false,
                boundary_started: true,
                handler: reader.handler.flush().content_feature(
                    keyval(header)->Ok_0.0,
                    keyval(header)->Ok_0.1,
                ),
                ..reader
            },
        ),
{
}

/// Header lines of a message that is not multipart and not signed are all
/// accepted, and leave the reader among the headers with nothing gathered.
pub proof fn lemma_header_lines(headers: Seq<Seq<char>>)
    requires
        forall|i: int| 0 <= i < headers.len() ==> is_header_line(#[trigger] headers[i]),
    ensures
        ReaderView::start().after_lines(headers) matches Ok(reader) && reads_headers(reader),
    decreases headers.len(),
{
    if headers.len() > 0 {
        let before = headers.drop_last();
        assert forall|i: int| 0 <= i < before.len() implies is_header_line(
            #[trigger] before[i],
        ) by {
            assert(before[i] == headers[i]);
        }
        lemma_header_lines(before);
        assert(is_header_line(headers[headers.len() - 1]));
    }
}

/// Lines of plain data, read within a body, go to the active part one
/// after the other and change nothing else.
pub proof fn lemma_data_lines(start: ReaderView, lines: Seq<Seq<char>>)
    requires
        start.data_started,
        start.handler.active.data.len() == 0,
        forall|i: int| 0 <= i < lines.len() ==> is_data_line(#[trigger] lines[i]),
    ensures
        start.after_lines(lines) == Ok::<ReaderView, Seq<char>>(
            ReaderView {
                handler: PartHandlerView {
                    active: PartView { data: joined(lines, '\n'), ..start.handler.active },
                    ..start.handler
                },
                ..start
            },
        ),
        lines.len() > 0 ==> joined(lines, '\n').len() > 0,
    decreases lines.len(),
{
    if lines.len() == 0 {
        assert(start.handler.active.data =~= Seq::<char>::empty());
    } else {
        let before = lines.drop_last();
        assert forall|i: int| 0 <= i < before.len() implies is_data_line(#[trigger] before[i]) by {
            assert(before[i] == lines[i]);
        }
        lemma_data_lines(start, before);
        assert(is_data_line(lines[lines.len() - 1]));
    }
}

/// A message that is neither multipart nor signed, with plain data for its
/// body, parses: header lines, a blank line and lines of data give a message
/// with the headers read and one body part, whose text is the data lines
/// joined by line feeds. The message must not ask for another transfer
/// encoding than plain text, nor call itself HTML. If it carries the
/// headers `to`, `from` and `subject`, its verification passes at once.
pub proof fn lemma_plain_message(headers: Seq<Seq<char>>, body: Seq<Seq<char>>)
    requires
        forall|i: int| 0 <= i < headers.len() ==> is_header_line(#[trigger] headers[i]),
        body.len() > 0,
        forall|i: int| 0 <= i < body.len() ==> is_data_line(#[trigger] body[i]),
        part_encoding(
            PartView::empty(),
            ReaderView::start().after_lines(headers)->Ok_0.body.headers,
        ) == ContentEncoding::String,
        !has_infix(
            ReaderView::start().after_lines(headers)->Ok_0.body.content_type.value,
            "html"@,
        ),
    ensures
        ReaderView::start().after_lines(headers) is Ok,
        parsed(headers.push(Seq::empty()) + body) == Ok::<EmailBodyView, Seq<char>>(
            EmailBodyView {
                body: seq![
                    PartView {
                        decoded: DecodedView::Text(joined(body, '\n')),
                        ..PartView::empty()
                    },
                ],
                ..ReaderView::start().after_lines(headers)->Ok_0.body
            },
        ),
        has_basic_headers(ReaderView::start().after_lines(headers)->Ok_0.body.headers)
            ==> first_action(parsed(headers.push(Seq::empty()) + body)->Ok_0)
            == ActionView::Finish(Ok(())),
{
    lemma_header_lines(headers);
    let read = ReaderView::start().after_lines(headers)->Ok_0;
    let blank = Seq::<char>::empty();
    assert(headers.push(blank).drop_last() =~= headers);
    let opened = read.after_blank();
    assert(ReaderView::start().after_lines(headers.push(blank)) == Ok::<ReaderView, Seq<char>>(
        opened,
    )) by {
        reveal_strlit("DKIM-Signature");
        reveal_strlit("Content-Type");
        assert(!has_infix(blank, "DKIM-Signature"@));
        assert(!has_infix(blank, "Content-Type"@));
    }
    lemma_data_lines(opened, body);
    lemma_after_lines_concat(ReaderView::start(), headers.push(blank), body);
    let end = ReaderView::start().after_lines(headers.push(blank) + body)->Ok_0;
    let part = PartView { data: joined(body, '\n'), ..PartView::empty() };
    assert(end.handler.active == part);
    assert(end.handler.flush().finished =~= seq![part]);
    let gathered = EmailBodyView { parts: seq![part], ..read.body };
    assert(gathered =~= (EmailBodyView { parts: end.handler.flush().finished, ..end.body }));
    let emptied = EmailBodyView { parts: Seq::empty(), ..gathered };
    let done = PartView { decoded: DecodedView::Text(joined(body, '\n')), ..PartView::empty() };
    assert(done =~= (PartView {
        data: Seq::empty(),
        decoded: DecodedView::Text(joined(body, '\n')),
        ..part
    }));
    assert(part_encoding(part, emptied.headers) == ContentEncoding::String);
    assert(applicable_type(part, emptied.content_type.value) == read.body.content_type.value);
    assert(!is_attachment(part));
    let next = EmailBodyView { body: emptied.body.push(done), ..emptied };
    assert(filed(emptied, part) == Ok::<EmailBodyView, Seq<char>>(next));
    assert(seq![part].drop_first() =~= Seq::<PartView>::empty());
    assert(filed_all(next, seq![part].drop_first()) == Ok::<EmailBodyView, Seq<char>>(next));
    assert(emptied.body.push(done) =~= seq![done]);
    assert(next =~= (EmailBodyView { body: seq![done], ..read.body }));
}

impl View for Reader {
    type V = ReaderView;

    closed spec fn view(&self) -> ReaderView {
        ReaderView {
            data_started: self.data_started,
            boundary_started: self.boundary_started,
            boundaries: texts(self.boundaries@),
            handler: self.part_handler@,
            body: self.body@,
        }
    }
}

impl Reader {
    /// A reader before the first line.
    pub fn new() -> (reader: Reader)
        ensures
            reader@ == ReaderView::start(),
    {
        let reader = Reader {
            data_started: false,
            boundary_started: false,
            boundaries: Vec::new(),
            part_handler: PartHandler::new(),
            body: EmailBody::new(),
        };
        reader
    }

    fn signature(&mut self, config: &Config, line: &str) -> (r: Result<(), &'static str>)
        ensures
            match old(self)@.after_signature(line@) {
                Ok(next) => r is Ok && final(self)@ == next,
                Err(e) => r matches Err(m) && m@ == e && final(self)@ == old(self)@,
            },
    {
        match parse_only_features(config, line) {
            Ok(found) => {
                self.body.dkim.overtake(found.0, found.2);
                self.body.dkim_found = true;
            },
            Err(_) => {
                return Err("invalid-DKIM_Signature");
            },
        }
        match parse_keyval(config, line) {
            Ok(hold) => {
                self.body.header(hold.0, hold.1);
            },
            Err(_) => {},
        }
        Ok(())
    }

    fn field(&mut self, key: String, value: String)
        ensures
            final(self)@ == old(self)@.field(key@, value@),
    {
        if self.boundary_started {
            self.part_handler.content_feature(key, value);
        } else {
            self.body.header(key, value);
        }
    }

    fn content_type(&mut self, config: &Config, line: &str) -> (r: Result<(), &'static str>)
        ensures
            match old(self)@.after_content_type(line@) {
                Ok(next) => r is Ok && final(self)@ == next,
                Err(e) => r matches Err(m) && m@ == e && final(self)@ == old(self)@,
            },
    {
        match parse_content_type(config, line) {
            Ok(found) => {
                if contains(found.value.as_str(), "multipart") {
                    match found.features.get("boundary") {
                        Some(token) => {
                            self.boundaries.push(token.clone());
                        },
                        None => {
                            return Err("not_found-boundry-Content-Type");
                        },
                    }
                }
                match parse_keyval(config, line) {
                    Ok(hold) => {
                        self.field(hold.0, hold.1);
                        if self.boundary_started {
                            self.part_handler.content_type(found);
                        } else {
                            self.body.content_type = found;
                        }
                    },
                    Err(_) => {},
                }
                self.data_started = false;
                Ok(())
            },
            Err(_) => {
                if !self.data_started {
                    Err("failed-parse-Content-Type")
                } else {
                    self.part_handler.data(line.to_owned());
                    Ok(())
                }
            },
        }
    }

    fn header(&mut self, config: &Config, line: &str) -> (r: Result<(), &'static str>)
        ensures
            match old(self)@.after_header(line@) {
                Ok(next) => r is Ok && final(self)@ == next,
                Err(e) => r matches Err(m) && m@ == e && final(self)@ == old(self)@,
            },
    {
        match parse_keyval(config, line) {
            Ok(hold) => {
                self.field(hold.0, hold.1);
                Ok(())
            },
            Err(_) => Err("failed-parse-keyval"),
        }
    }

    /// Reads a line of a body, given what the boundary pattern found in it.
    /// If the line ends in an error the reader stays as it was.
    pub fn boundary(
        &mut self,
        line: &str,
        groups: Option<(Option<String>, Option<String>)>,
    ) -> (r: Result<(), &'static str>)
        ensures
            match old(self)@.after_boundary(line@, groups_of(groups)) {
                Ok(next) => r is Ok && final(self)@ == next,
                Err(e) => r matches Err(m) && m@ == e && final(self)@ == old(self)@,
            },
    {
        match groups {
            None => {
                self.part_handler.data(line.to_owned());
            },
            Some((None, _)) => {},
            Some((Some(token), dashes)) => {
                let closing = match dashes {
                    Some(d) => !d.as_str().is_empty(),
                    None => false,
                };
                if closing {
                    let open = self.boundaries.len();
                    if open == 0 {
                        return Err("invalid_boundary_end-overflow");
                    }
                    if !same_text(self.boundaries[open - 1].as_str(), token.as_str()) {
                        return Err("invalid_boundary_end-diff");
                    }
                    self.boundaries.pop();
                } else {
                    self.data_started = false;
                    self.boundary_started = true;
                    self.part_handler.flush();
                }
            },
        }
        Ok(())
    }

    fn body_line(&mut self, config: &Config, line: &str) -> (r: Result<(), &'static str>)
        ensures
            match old(self)@.after_body_line(line@) {
                Ok(next) => r is Ok && final(self)@ == next,
                Err(e) => r matches Err(m) && m@ == e && final(self)@ == old(self)@,
            },
    {
        self.boundary(line, config.boundary_groups(line))
    }

    /// Reads one line. If the line ends in an error the reader stays as it
    /// was.
    pub fn line(&mut self, config: &Config, line: &str) -> (r: Result<(), &'static str>)
        ensures
            match old(self)@.after_line(line@) {
                Ok(next) => r is Ok && final(self)@ == next,
                Err(e) => r matches Err(m) && m@ == e && final(self)@ == old(self)@,
            },
    {
        if contains(line, "DKIM-Signature") && !self.body.dkim_found {
            self.signature(config, line)
        } else if contains(line, "Content-Type") {
            self.content_type(config, line)
        } else if !line.is_empty() && !self.data_started {
            self.header(config, line)
        } else if line.is_empty() {
            self.data_started = true;
            self.boundary_started = false;
            Ok(())
        } else {
            self.body_line(config, line)
        }
    }

    /// Ends the input: closes the active part, then decodes and files the
    /// finished parts.
    pub fn finish(self) -> (r: Result<EmailBody, &'static str>)
        ensures
            match self@.finished() {
                Ok(message) => r matches Ok(found) && found@ == message,
                Err(e) => r matches Err(m) && m@ == e,
            },
    {
        let mut body = self.body;
        match body.parts(self.part_handler) {
            Ok(_) => Ok(body),
            Err(_) => Err("failed-parse_parts"),
        }
    }
}

} // verus!
