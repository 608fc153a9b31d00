//! The XML layer: markup is read and written by `quick_xml`; this module
//! turns its events into plain tokens that the codec works on.

use quick_xml::events::{BytesDecl, BytesEnd, BytesStart, BytesText, Event};
use quick_xml::reader::Reader;
use quick_xml::writer::Writer;
use vstd::prelude::*;

verus! {

/// `quick_xml::reader::Reader`: a reader of XML events. Nothing is known of
/// what is inside one.
#[verifier::external_type_specification]
#[verifier::external_body]
#[verifier::reject_recursive_types(R)]
pub struct ExReader<R>(Reader<R>);

/// `quick_xml::writer::Writer`: a writer of XML events. Nothing is known of
/// what is inside one.
#[verifier::external_type_specification]
#[verifier::external_body]
#[verifier::reject_recursive_types(W)]
pub struct ExWriter<W>(Writer<W>);

/// One piece of markup or text of an XML document.
#[derive(Debug)]
pub enum Token {
    /// An opening tag, with its name.
    Start(String),
    /// A closing tag, with its name.
    End(String),
    /// A self-closing tag, with its name.
    Empty(String),
    /// Character data, unescaped.
    Text(String),
    /// A comment, a declaration, a processing instruction, a CDATA section
    /// or a document type.
    Other,
    /// The end of the document.
    Eof,
    /// Markup that the reader could not make sense of, with its message.
    Malformed(String),
}

impl Token {
    /// Whether nothing can follow this token: the end of the document or a
    /// reading error.
    pub open spec fn is_last(self) -> bool {
        self is Eof || self is Malformed
    }
}

/// The tokens that `quick_xml` reads from a document, with text trimming
/// switched on or off, up to and including the end of the document or the
/// first reading error. With trimming on, character data comes without the
/// XML white space at its edges, and not at all where nothing else is left.
pub uninterp spec fn xml_tokens(text: Seq<char>, trim: bool) -> Seq<Token>;

/// The tokens that a reader has yet to hand out.
pub uninterp spec fn pending(reader: &Reader<&[u8]>) -> Seq<Token>;

/// `Reader::from_str`, then `Config::trim_text`: a reader at the start of
/// the document. It has at least one token to give, the last one.
#[verifier::external_body]
fn open_reader(text: &str, trim: bool) -> (reader: Reader<&[u8]>)
    ensures
        pending(&reader) == xml_tokens(text@, trim),
        pending(&reader).len() > 0,
{
    let mut reader = Reader::from_str(text);
    reader.config_mut().trim_text(trim);
    reader
}

/// `Reader::read_event_into`: hands out the next token. Tag names are
/// decoded as UTF-8 with replacement, text is unescaped (empty where the
/// escapes are invalid), an error becomes `Malformed` with its message. The
/// reader runs dry exactly when it has handed out the last token.
#[verifier::external_body]
fn next_token(reader: &mut Reader<&[u8]>) -> (token: Token)
    requires
        pending(old(reader)).len() > 0,
    ensures
        token == pending(old(reader))[0],
        pending(final(reader)) == pending(old(reader)).drop_first(),
        token.is_last() <==> pending(final(reader)).len() == 0,
{
    let mut buf = Vec::new();
    match reader.read_event_into(&mut buf) {
        Ok(Event::Start(e)) => Token::Start(String::from_utf8_lossy(e.name().as_ref()).into_owned()),
        Ok(Event::End(e)) => Token::End(String::from_utf8_lossy(e.name().as_ref()).into_owned()),
        Ok(Event::Empty(e)) => Token::Empty(String::from_utf8_lossy(e.name().as_ref()).into_owned()),
        Ok(Event::Text(e)) => Token::Text(e.unescape().unwrap_or_default().into_owned()),
        Ok(Event::Eof) => Token::Eof,
        Ok(_) => Token::Other,
        Err(e) => Token::Malformed(e.to_string()),
    }
}

/// The message for a document that ends inside an element.
pub open spec fn unclosed() -> Seq<char> {
    "document ends inside an element"@
}

/// The message for a closing tag where no element is open.
pub open spec fn unopened() -> Seq<char> {
    "closing tag without an element"@
}

/// Whether a list of tokens is one that a reader hands out: its last token
/// is the end of the document or a reading error, and no other one is.
pub open spec fn is_token_stream(tokens: Seq<Token>) -> bool {
    &&& tokens.len() > 0
    &&& tokens.last().is_last()
    &&& forall|i: int| 0 <= i < tokens.len() - 1 ==> !(#[trigger] tokens[i]).is_last()
}

/// Reads a whole document into tokens, with the white space at the edges
/// of character data trimmed off or left in place.
pub fn tokenize(text: &str, trim: bool) -> (tokens: Vec<Token>)
    ensures
        tokens@ == xml_tokens(text@, trim),
        is_token_stream(tokens@),
{
    let mut reader = open_reader(text, trim);
    let mut tokens: Vec<Token> = Vec::new();
    let mut done = false;
    while !done
        invariant
            tokens@ + pending(&reader) == xml_tokens(text@, trim),
            done <==> pending(&reader).len() == 0,
            done ==> tokens@.len() > 0 && tokens@.last().is_last(),
            forall|i: int|
                0 <= i < tokens@.len() - (if done {
                    1int
                } else {
                    0int
                }) ==> !(#[trigger] tokens@[i]).is_last(),
        decreases pending(&reader).len(),
    {
        let token = next_token(&mut reader);
        done = matches!(token, Token::Eof | Token::Malformed(_));
        tokens.push(token);
        assert(tokens@ + pending(&reader) =~= xml_tokens(text@, trim));
    }
    assert(tokens@ =~= tokens@ + pending(&reader));
    tokens
}

/// The text that stands for one character in escaped character data.
pub open spec fn escaped_char(c: char) -> Seq<char> {
    if c == '<' {
        seq!['&', 'l', 't', ';']
    } else if c == '>' {
        seq!['&', 'g', 't', ';']
    } else if c == '&' {
        seq!['&', 'a', 'm', 'p', ';']
    } else if c == '\'' {
        seq!['&', 'a', 'p', 'o', 's', ';']
    } else if c == '"' {
        seq!['&', 'q', 'u', 'o', 't', ';']
    } else {
        seq![c]
    }
}

/// Character data with its five special characters escaped.
pub open spec fn escaped(text: Seq<char>) -> Seq<char>
    decreases text.len(),
{
    if text.len() == 0 {
        Seq::empty()
    } else {
        escaped(text.drop_last()) + escaped_char(text.last())
    }
}

/// The markup of an opening tag.
pub open spec fn start_tag(name: Seq<char>) -> Seq<char> {
    seq!['<'] + name + seq!['>']
}

/// The markup of a closing tag.
pub open spec fn end_tag(name: Seq<char>) -> Seq<char> {
    seq!['<', '/'] + name + seq!['>']
}

/// The markup of an XML declaration of the given version.
pub open spec fn declaration_of(version: Seq<char>) -> Seq<char> {
    seq!['<', '?', 'x', 'm', 'l', ' ', 'v', 'e', 'r', 's', 'i', 'o', 'n', '=', '"'] + version
        + seq!['"', '?', '>']
}

/// The XML declaration that opens every document written here.
pub open spec fn declaration() -> Seq<char> {
    declaration_of(seq!['1', '.', '0'])
}

/// The text that a writer has put out so far.
pub uninterp spec fn written(writer: &Writer<Vec<u8>>) -> Seq<char>;

/// `Writer::new` over an empty buffer, without indentation.
#[verifier::external_body]
fn new_writer() -> (writer: Writer<Vec<u8>>)
    ensures
        written(&writer) == Seq::<char>::empty(),
{
    Writer::new(Vec::new())
}

/// `Writer::write_event` with `BytesDecl::new` for a version, without
/// encoding or standalone: appends the declaration with the version between
/// double quotes. Writing to a buffer in memory does not fail.
#[verifier::external_body]
fn write_declaration(writer: &mut Writer<Vec<u8>>, version: &str)
    ensures
        written(final(writer)) == written(old(writer)) + declaration_of(version@),
{
    let _ = writer.write_event(Event::Decl(BytesDecl::new(version, None, None)));
}

/// `Writer::write_event` with `BytesStart::new`: appends `<`, the name as it
/// stands and `>`. Writing to a buffer in memory does not fail.
#[verifier::external_body]
fn write_start(writer: &mut Writer<Vec<u8>>, name: &str)
    ensures
        written(final(writer)) == written(old(writer)) + start_tag(name@),
{
    let _ = writer.write_event(Event::Start(BytesStart::new(name)));
}

/// `Writer::write_event` with `BytesEnd::new`: appends `</`, the name as it
/// stands and `>`. Writing to a buffer in memory does not fail.
#[verifier::external_body]
fn write_end(writer: &mut Writer<Vec<u8>>, name: &str)
    ensures
        written(final(writer)) == written(old(writer)) + end_tag(name@),
{
    let _ = writer.write_event(Event::End(BytesEnd::new(name)));
}

/// `Writer::write_event` with `BytesText::new`: appends the text with `<`,
/// `>`, `&`, `'` and `"` escaped. Writing to a buffer in memory does not
/// fail.
#[verifier::external_body]
fn write_text(writer: &mut Writer<Vec<u8>>, text: &str)
    ensures
        written(final(writer)) == written(old(writer)) + escaped(text@),
{
    let _ = writer.write_event(Event::Text(BytesText::new(text)));
}

/// `Writer::into_inner`, then `String::from_utf8`: the text put out. The
/// buffer holds UTF-8, since only strings were written to it.
#[verifier::external_body]
fn finish_writer(writer: Writer<Vec<u8>>) -> (text: String)
    ensures
        text@ == written(&writer),
{
    String::from_utf8(writer.into_inner()).unwrap_or_default()
}

/// An XML document under construction: markup and character data are
/// appended piece by piece, and `finish` hands out the text.
pub struct Markup {
    writer: Writer<Vec<u8>>,
}

impl Markup {
    /// The text put out so far.
    pub closed spec fn text(&self) -> Seq<char> {
        written(&self.writer)
    }

    /// A document with nothing in it.
    pub fn new() -> (markup: Markup)
        ensures
            markup.text() == Seq::<char>::empty(),
    {
        Markup { writer: new_writer() }
    }

    /// Appends the XML declaration.
    pub fn declare(&mut self)
        ensures
            final(self).text() == old(self).text() + declaration(),
    {
        proof {
            reveal_strlit("1.0");
            assert("1.0"@ =~= seq!['1', '.', '0']);
        }
        write_declaration(&mut self.writer, "1.0");
    }

    /// Appends an opening tag.
    pub fn open(&mut self, name: &str)
        ensures
            final(self).text() == old(self).text() + start_tag(name@),
    {
        write_start(&mut self.writer, name);
    }

    /// Appends a closing tag.
    pub fn close(&mut self, name: &str)
        ensures
            final(self).text() == old(self).text() + end_tag(name@),
    {
        write_end(&mut self.writer, name);
    }

    /// Appends character data, escaped.
    pub fn put(&mut self, text: &str)
        ensures
            final(self).text() == old(self).text() + escaped(text@),
    {
        write_text(&mut self.writer, text);
    }

    /// Appends an element that holds character data only.
    pub fn element(&mut self, name: &str, text: &str)
        ensures
            final(self).text() == old(self).text() + start_tag(name@) + escaped(text@) + end_tag(
                name@,
            ),
    {
        self.open(name);
        self.put(text);
        self.close(name);
    }

    /// The text of the document.
    pub fn finish(self) -> (text: String)
        ensures
            text@ == self.text(),
    {
        finish_writer(self.writer)
    }
}

} // verus!
