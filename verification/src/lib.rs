//! A parser for mail messages and a verifier for their DKIM signatures.
//!
//! A message comes as its lines. [`init`] reads them into an [`EmailBody`]:
//! the headers, the MIME parts with their decoded payloads, filed as body or
//! attachment, and the DKIM signature block if there is one. [`dkim::init`]
//! then starts the verification of the signature; it tells the caller when a
//! key has to be looked up and goes on with what the caller found.
//!
//! Every function states what it returns over a mathematical view of its
//! arguments, and is proved to return just that. What is believed and not
//! proved is gathered in [`trusted`].
//!
//! - [`text`]: searching, splitting and trimming text
//! - [`config`]: the patterns, and the data of a message
//! - [`parser`]: header lines and feature lists
//! - [`message`]: the line-by-line reader
//! - [`part`]: the content decoder
//! - [`dkim`]: the DKIM verifier and the key cache
//! - [`io`]: the bytes of a message file as text

pub mod config;
pub mod dkim;
pub mod io;
pub mod message;
pub mod parser;
pub mod part;
pub mod text;
pub mod trusted;

pub use config::Config;
pub use config::ContentDecoded;
pub use config::ContentEncoding;
pub use config::ContentType;
pub use config::Dkim;
pub use config::EmailBody;
pub use config::Part;
pub use config::PartHandler;
pub use config::TextMap;

use message::lemma_error_ends_run;
use message::parsed;
use message::Reader;
use message::ReaderView;
use text::slices;
use vstd::prelude::*;

verus! {

/// Parses a message given as its lines, without the line ends and without
/// the final end-of-data marker. The first line that ends in an error ends
/// the parse with that error.
pub fn init(lines: Vec<&str>, config: &Config) -> (r: Result<EmailBody, &'static str>)
    ensures
        match parsed(slices(lines@)) {
            Ok(message) => r matches Ok(found) && found@ == message,
            Err(e) => r matches Err(m) && m@ == e,
        },
{
    let mut reader = Reader::new();
    let ghost all = slices(lines@);
    let mut i: usize = 0;
    while i < lines.len()
        invariant
            i <= lines.len(),
            all == slices(lines@),
            ReaderView::start().after_lines(all.take(i as int)) == Ok::<ReaderView, Seq<char>>(
                reader@,
            ),
        decreases lines.len() - i,
    {
        assert(all.take(i + 1).drop_last() =~= all.take(i as int));
        match reader.line(config, lines[i]) {
            Ok(_) => {},
            Err(e) => {
                proof {
                    lemma_error_ends_run(ReaderView::start(), all, i + 1);
                }
                return Err(e);
            },
        }
        i += 1;
    }
    assert(all.take(i as int) =~= all);
    reader.finish()
}

} // verus!
