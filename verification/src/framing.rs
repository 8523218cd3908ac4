//! Content-Length framed messages, as JSON-RPC uses them over standard streams.
//!
//! A message is a list of header lines, an empty line and a body. The header `Content-Length`
//! says how many bytes the body has; other headers are ignored.

use crate::text;
use crate::text::{concat2, parse_size, strip_prefix, trim, NumberFault};
use vstd::prelude::*;
use vstd::slice::slice_subrange;
use vstd::string::*;
use vstd::utf8;

verus! {

/// Why a message cannot be read.
#[derive(Debug)]
pub enum McpError {
    /// The stream is broken.
    Transport(String),
    /// The stream does not keep to the protocol.
    Protocol(String),
    /// A header line is not UTF-8.
    InvalidText,
    /// The stream ends inside the body.
    UnexpectedEof,
}

/// Why a message cannot be read, with texts as sequences of characters.
pub enum McpErrorView {
    Transport(Seq<char>),
    Protocol(Seq<char>),
    InvalidText,
    UnexpectedEof,
}

impl View for McpError {
    type V = McpErrorView;

    open spec fn view(&self) -> McpErrorView {
        match self {
            McpError::Transport(s) => McpErrorView::Transport(s@),
            McpError::Protocol(s) => McpErrorView::Protocol(s@),
            McpError::InvalidText => McpErrorView::InvalidText,
            McpError::UnexpectedEof => McpErrorView::UnexpectedEof,
        }
    }
}

// ---------------------------------------------------------------------------
// Header lines
// ---------------------------------------------------------------------------

/// The name of the header that counts.
pub const LENGTH_HEADER: &'static str = "Content-Length:";

/// What follows a header line.
pub enum HeaderOutcome {
    /// A further line; the length as far as it is known.
    More(Option<usize>),
    /// The body, with its length.
    Body(usize),
    /// Nothing: the message cannot be read.
    Fail(McpErrorView),
}

/// What is wrong with the number of a header, in words.
pub open spec fn fault_words(fault: NumberFault) -> Seq<char> {
    match fault {
        NumberFault::Empty => "cannot parse integer from empty string"@,
        NumberFault::InvalidDigit => "invalid digit found in string"@,
        NumberFault::TooLarge => "number too large to fit in target type"@,
    }
}

/// What a line means, given the length as far as it is known. Without a line the stream has
/// ended.
pub open spec fn header_outcome(known: Option<usize>, line: Option<Seq<char>>) -> HeaderOutcome {
    match line {
        None => HeaderOutcome::Fail(McpErrorView::Transport("EOF while reading headers"@)),
        Some(chars) => {
            let content = text::trimmed(chars);
            if content.len() == 0 {
                match known {
                    Some(length) => HeaderOutcome::Body(length),
                    None => HeaderOutcome::Fail(
                        McpErrorView::Protocol("Missing Content-Length header"@),
                    ),
                }
            } else if LENGTH_HEADER@.is_prefix_of(content) {
                match text::size_value(text::trimmed(content.skip(LENGTH_HEADER@.len() as int))) {
                    Ok(length) => HeaderOutcome::More(Some(length as usize)),
                    Err(fault) => HeaderOutcome::Fail(
                        McpErrorView::Protocol("Invalid Content-Length: "@ + fault_words(fault)),
                    ),
                }
            } else {
                HeaderOutcome::More(known)
            }
        },
    }
}

/// What to read next.
#[derive(Debug, Clone, Copy, PartialEq, Eq, Structural)]
pub enum NextRead {
    /// A further header line.
    Line,
    /// The body, with its length.
    Body(usize),
}

/// The headers of a message as far as they have been read.
#[derive(Debug)]
pub struct HeaderReader {
    /// The length of the body, once it is known.
    pub content_length: Option<usize>,
}

fn fault_text(fault: NumberFault) -> (r: &'static str)
    ensures
        r@ == fault_words(fault),
{
    match fault {
        NumberFault::Empty => "cannot parse integer from empty string",
        NumberFault::InvalidDigit => "invalid digit found in string",
        NumberFault::TooLarge => "number too large to fit in target type",
    }
}

impl HeaderReader {
    /// A reader before the first line.
    pub fn new() -> (r: Self)
        ensures
            r.content_length is None,
    {
        HeaderReader { content_length: None }
    }

    /// Take a line, or the end of the stream, and say what to read next.
    pub fn accept(&mut self, line: Option<&str>) -> (r: Result<NextRead, McpError>)
        ensures
            match (
                header_outcome(old(self).content_length, crate::json::option_chars(line)),
                r,
            ) {
                (HeaderOutcome::More(known), Ok(NextRead::Line)) => final(self).content_length
                    == known,
                (HeaderOutcome::Body(length), Ok(NextRead::Body(n))) => n == length && *final(self)
                    == *old(self),
                (HeaderOutcome::Fail(error), Err(e)) => e@ == error && *final(self) == *old(self),
                _ => false,
            },
    {
        let line = match line {
            Some(line) => line,
            None => {
                return Err(McpError::Transport("EOF while reading headers".to_owned()));
            },
        };
        let content = trim(line);
        if content.is_empty() {
            return match self.content_length {
                Some(length) => Ok(NextRead::Body(length)),
                None => Err(McpError::Protocol("Missing Content-Length header".to_owned())),
            };
        }
        if let Some(value) = strip_prefix(content, LENGTH_HEADER) {
            proof {
                assert(value@ =~= content@.skip(LENGTH_HEADER@.len() as int));
            }
            match parse_size(trim(value)) {
                Ok(length) => {
                    self.content_length = Some(length);
                },
                Err(fault) => {
                    return Err(
                        McpError::Protocol(
                            concat2("Invalid Content-Length: ", fault_text(fault)),
                        ),
                    );
                },
            }
        }
        Ok(NextRead::Line)
    }
}

// ---------------------------------------------------------------------------
// Messages in a buffer
// ---------------------------------------------------------------------------

/// The length of the first line of some bytes, with the newline that ends it.
pub open spec fn line_length(bytes: Seq<u8>) -> nat
    decreases bytes.len(),
{
    if bytes.len() == 0 {
        0
    } else if bytes[0] == 10 {
        1
    } else {
        1 + line_length(bytes.drop_first())
    }
}

/// A line is not longer than the bytes, and not empty where there are bytes.
pub proof fn lemma_line_length(bytes: Seq<u8>)
    ensures
        line_length(bytes) <= bytes.len(),
        bytes.len() > 0 ==> line_length(bytes) > 0,
    decreases bytes.len(),
{
    if bytes.len() > 0 {
        lemma_line_length(bytes.drop_first());
    }
}

/// What is read from some bytes, and the bytes that are left, given the length as far as it is
/// known.
pub open spec fn frame(bytes: Seq<u8>, known: Option<usize>) -> (
    Result<Seq<u8>, McpErrorView>,
    Seq<u8>,
)
    decreases bytes.len(),
{
    if bytes.len() == 0 {
        (Err(McpErrorView::Transport("EOF while reading headers"@)), bytes)
    } else {
        let n = line_length(bytes) as int;
        let line = bytes.take(n);
        let rest = bytes.skip(n);
        proof {
            lemma_line_length(bytes);
        }
        if !utf8::valid_utf8(line) {
            (Err(McpErrorView::InvalidText), rest)
        } else {
            match header_outcome(known, Some(utf8::decode_utf8(line))) {
                HeaderOutcome::More(length) => frame(rest, length),
                HeaderOutcome::Fail(error) => (Err(error), rest),
                HeaderOutcome::Body(length) => if rest.len() < length {
                    (Err(McpErrorView::UnexpectedEof), Seq::empty())
                } else {
                    (Ok(rest.take(length as int)), rest.skip(length as int))
                },
            }
        }
    }
}

/// A buffer that is read from the front.
#[derive(Debug)]
pub struct ByteReader {
    data: Vec<u8>,
    pos: usize,
}

impl View for ByteReader {
    type V = Seq<u8>;

    /// The bytes that have not been read.
    closed spec fn view(&self) -> Seq<u8> {
        self.data@.skip(self.pos as int)
    }
}

/// Calls `std::str::from_utf8`, which accepts exactly the bytes that are valid UTF-8 and hands
/// them back as text.
#[verifier::external_body]
fn utf8_text(bytes: &[u8]) -> (r: Option<&str>)
    ensures
        match r {
            Some(s) => utf8::valid_utf8(bytes@) && s.spec_bytes() == bytes@,
            None => !utf8::valid_utf8(bytes@),
        },
{
    std::str::from_utf8(bytes).ok()
}

impl ByteReader {
    #[verifier::type_invariant]
    spec fn position_is_inside(&self) -> bool {
        self.pos <= self.data@.len()
    }

    /// A reader of some bytes.
    pub fn new(data: Vec<u8>) -> (r: Self)
        ensures
            r@ == data@,
    {
        proof {
            assert(data@.skip(0) =~= data@);
        }
        ByteReader { data, pos: 0 }
    }

    /// How many bytes have not been read.
    pub fn remaining(&self) -> (r: usize)
        ensures
            r == self@.len(),
    {
        proof {
            use_type_invariant(self);
        }
        self.data.len() - self.pos
    }

    /// The length of the line at the front.
    fn line_size(&self) -> (r: usize)
        ensures
            r == line_length(self@),
            r <= self@.len(),
    {
        proof {
            use_type_invariant(self);
        }
        let mut i: usize = self.pos;
        let n = self.data.len();
        while i < n && self.data[i] != 10
            invariant
                self.pos <= i <= n,
                n == self.data@.len(),
                line_length(self@) == (i - self.pos) + line_length(self.data@.skip(i as int)),
            decreases n - i,
        {
            proof {
                assert(self.data@.skip(i as int).drop_first() =~= self.data@.skip(i + 1));
            }
            i += 1;
        }
        if i < n {
            i += 1;
        }
        i - self.pos
    }

    /// Take bytes off the front.
    fn take(&mut self, n: usize) -> (r: Vec<u8>)
        requires
            n <= old(self)@.len(),
        ensures
            r@ == old(self)@.take(n as int),
            final(self)@ == old(self)@.skip(n as int),
    {
        proof {
            use_type_invariant(&*self);
        }
        let total: usize = self.data.len();
        proof {
            assert(self@.len() == total - self.pos);
        }
        let end: usize = self.pos + n;
        let taken = slice_subrange(self.data.as_slice(), self.pos, end);
        let mut r: Vec<u8> = Vec::new();
        let mut i: usize = 0;
        while i < taken.len()
            invariant
                i <= taken@.len(),
                r@ == taken@.take(i as int),
            decreases taken@.len() - i,
        {
            r.push(taken[i]);
            proof {
                assert(taken@.take(i + 1) =~= taken@.take(i as int).push(taken@[i as int]));
            }
            i += 1;
        }
        proof {
            assert(taken@.take(taken@.len() as int) =~= taken@);
            assert(taken@ =~= self@.take(n as int));
            assert(self.data@.skip(end as int) =~= self@.skip(n as int));
        }
        self.pos = end;
        r
    }
}

/// Read one message from the front of a buffer.
pub fn read_message(reader: &mut ByteReader) -> (r: Result<Vec<u8>, McpError>)
    ensures
        match r {
            Ok(body) => frame(old(reader)@, None) == (
                Ok::<Seq<u8>, McpErrorView>(body@),
                final(reader)@,
            ),
            Err(error) => frame(old(reader)@, None) == (
                Err::<Seq<u8>, McpErrorView>(error@),
                final(reader)@,
            ),
        },
{
    let mut headers = HeaderReader::new();
    let ghost all = reader@;
    loop
        invariant
            all == old(reader)@,
            frame(all, None) == frame(reader@, headers.content_length),
        decreases reader@.len(),
    {
        let ghost known = headers.content_length;
        let ghost here = reader@;
        if reader.remaining() == 0 {
            return match headers.accept(None) {
                Err(error) => Err(error),
                Ok(_) => Err(McpError::UnexpectedEof),
            };
        }
        proof {
            lemma_line_length(here);
        }
        let n = reader.line_size();
        let bytes = reader.take(n);
        let next = match utf8_text(bytes.as_slice()) {
            Some(line) => {
                proof {
                    utf8::encode_utf8_decode_utf8(line@);
                }
                headers.accept(Some(line))
            },
            None => {
                return Err(McpError::InvalidText);
            },
        };
        match next {
            Err(error) => {
                return Err(error);
            },
            Ok(NextRead::Line) => {},
            Ok(NextRead::Body(length)) => {
                let left = reader.remaining();
                if left < length {
                    reader.take(left);
                    proof {
                        assert(reader@ =~= Seq::<u8>::empty());
                    }
                    return Err(McpError::UnexpectedEof);
                }
                return Ok(reader.take(length));
            },
        }
    }
}

// ---------------------------------------------------------------------------
// Laws
// ---------------------------------------------------------------------------

/// The header line that announces a body.
pub open spec fn length_line(length: nat) -> Seq<char> {
    "Content-Length: "@ + text::decimal(length) + "\r\n"@
}

/// A body with the headers that it needs.
pub open spec fn framed(body: Seq<u8>) -> Seq<u8> {
    utf8::encode_utf8(length_line(body.len())) + utf8::encode_utf8("\r\n"@) + body
}

/// A line ends at its first newline.
proof fn lemma_line_of_prefix(line: Seq<u8>, rest: Seq<u8>)
    requires
        line.len() > 0,
        line.last() == 10,
        forall|i: int| 0 <= i < line.len() - 1 ==> #[trigger] line[i] != 10,
    ensures
        line_length(line + rest) == line.len(),
    decreases line.len(),
{
    let bytes = line + rest;
    assert(bytes[0] == line[0]);
    if line.len() > 1 {
        let shorter = line.drop_first();
        assert forall|i: int| 0 <= i < shorter.len() - 1 implies #[trigger] shorter[i] != 10 by {
            assert(shorter[i] == line[i + 1]);
        }
        lemma_line_of_prefix(shorter, rest);
        assert(bytes.drop_first() =~= shorter + rest);
        assert(line[0] != 10);
    }
}

/// The bytes of a line of ASCII characters are read back as that line.
proof fn lemma_ascii_line(chars: Seq<char>, rest: Seq<u8>)
    requires
        utf8::is_ascii_chars(chars),
        chars.len() > 0,
        chars.last() == '\n',
        forall|i: int| 0 <= i < chars.len() - 1 ==> #[trigger] chars[i] != '\n',
    ensures
        ({
            let line = utf8::encode_utf8(chars);
            &&& line_length(line + rest) == line.len()
            &&& (line + rest).take(line.len() as int) == line
            &&& (line + rest).skip(line.len() as int) == rest
            &&& utf8::valid_utf8(line)
            &&& utf8::decode_utf8(line) == chars
            &&& line.len() > 0
        }),
{
    let line = utf8::encode_utf8(chars);
    utf8::is_ascii_chars_encode_utf8(chars);
    utf8::is_ascii_chars_nat_bound(chars);
    assert forall|i: int| 0 <= i < line.len() - 1 implies #[trigger] line[i] != 10 by {
        assert(chars[i] != '\n');
        assert(line[i] == chars[i] as u8);
    }
    lemma_line_of_prefix(line, rest);
    assert((line + rest).take(line.len() as int) =~= line);
    assert((line + rest).skip(line.len() as int) =~= rest);
    utf8::encode_utf8_valid_utf8(chars);
    utf8::encode_utf8_decode_utf8(chars);
}

/// The header line of a length gives that length.
proof fn lemma_length_line(length: nat, known: Option<usize>)
    requires
        length <= usize::MAX,
    ensures
        utf8::is_ascii_chars(length_line(length)),
        length_line(length).len() > 0,
        length_line(length).last() == '\n',
        forall|i: int|
            0 <= i < length_line(length).len() - 1 ==> #[trigger] length_line(length)[i] != '\n',
        header_outcome(known, Some(length_line(length))) == HeaderOutcome::More(
            Some(length as usize),
        ),
{
    reveal_strlit("Content-Length: ");
    reveal_strlit("Content-Length:");
    reveal_strlit("\r\n");
    let digits = text::decimal(length);
    let name = "Content-Length: "@;
    let line = length_line(length);
    text::lemma_decimal_digits(length);
    text::law_size_is_read_back(length);
    assert(name.len() == 16);
    assert("\r\n"@.len() == 2);
    assert(forall|i: int|
        0 <= i < name.len() ==> '\0' <= #[trigger] name[i] <= '\u{7f}' && name[i] != '\n');
    assert(forall|i: int|
        0 <= i < line.len() ==> #[trigger] line[i] == (if i < 16 {
            name[i]
        } else if i < 16 + digits.len() {
            digits[i - 16]
        } else {
            "\r\n"@[i - 16 - digits.len()]
        }));
    assert(utf8::is_ascii_chars(line)) by {
        assert forall|i: int| 0 <= i < line.len() implies '\0' <= #[trigger] line[i] <= '\u{7f}' by {
            if 16 <= i < 16 + digits.len() {
                assert('0' <= digits[i - 16] <= '9');
            }
        }
    }
    // The white space at the end is that of the line ending.
    let content = name + digits;
    assert(line.drop_last().drop_last() =~= content);
    assert(text::white_space(line.last()));
    assert(text::white_space(line.drop_last().last()));
    assert(!text::white_space(content.last())) by {
        assert(content.last() == digits.last());
        assert(digits.last() == digits[digits.len() - 1]);
    }
    assert(text::trimmed_end(content) == content);
    assert(text::trimmed_end(line.drop_last()) == content);
    assert(text::trimmed_end(line) == content);
    assert(text::trimmed_start(line) == line);
    assert(text::trimmed(line) == content);
    // The value stands behind the name and a blank.
    assert(LENGTH_HEADER@.len() == 15);
    assert(LENGTH_HEADER@ =~= content.subrange(0, 15));
    let value = content.skip(15);
    assert(value.drop_first() =~= digits);
    assert(text::white_space(value[0]));
    assert(!text::white_space(digits[0])) by {
        assert('0' as u32 <= digits[0] as u32 <= '9' as u32);
    }
    assert(text::trimmed_start(digits) == digits);
    assert(text::trimmed_start(value) == digits);
    assert(text::trimmed_end(digits) == digits);
    assert(text::trimmed(value) == digits);
}

/// A body that stands behind its length is read back, and what follows it is left.
pub proof fn law_framed_body_is_read_back(body: Seq<u8>, rest: Seq<u8>)
    requires
        body.len() <= usize::MAX,
    ensures
        frame(framed(body) + rest, None) == (Ok::<Seq<u8>, McpErrorView>(body), rest),
{
    let first = utf8::encode_utf8(length_line(body.len()));
    let second = utf8::encode_utf8("\r\n"@);
    let bytes = framed(body) + rest;
    assert(bytes =~= first + (second + (body + rest)));
    lemma_length_line(body.len(), None);
    lemma_ascii_line(length_line(body.len()), second + (body + rest));
    reveal_strlit("\r\n");
    let ending = "\r\n"@;
    assert(ending.len() == 2);
    assert(ending[0] == '\r' && ending[1] == '\n');
    assert(utf8::is_ascii_chars(ending));
    lemma_ascii_line(ending, body + rest);
    assert(text::trimmed(ending).len() == 0) by {
        assert(text::white_space(ending[0]));
        assert(text::white_space(ending[1]));
        assert(text::white_space(ending.drop_first()[0]));
        assert(ending.drop_first().drop_first() =~= Seq::<char>::empty());
        assert(text::trimmed_start(ending.drop_first()) == text::trimmed_start(
            ending.drop_first().drop_first(),
        ));
    }
    assert(frame(bytes, None) == frame(second + (body + rest), Some(body.len() as usize)));
    assert((body + rest).take(body.len() as int) =~= body);
    assert((body + rest).skip(body.len() as int) =~= rest);
}

/// What is left after reading is the end of what was there.
pub proof fn law_reading_only_takes_from_the_front(bytes: Seq<u8>, known: Option<usize>)
    ensures
        frame(bytes, known).1.len() <= bytes.len(),
        frame(bytes, known).1 == bytes.skip(bytes.len() - frame(bytes, known).1.len()),
    decreases bytes.len(),
{
    if bytes.len() > 0 {
        lemma_line_length(bytes);
        let n = line_length(bytes) as int;
        let rest = bytes.skip(n);
        if utf8::valid_utf8(bytes.take(n)) {
            match header_outcome(known, Some(utf8::decode_utf8(bytes.take(n)))) {
                HeaderOutcome::More(length) => {
                    law_reading_only_takes_from_the_front(rest, length);
                    let left = frame(rest, length).1;
                    assert(rest.skip(rest.len() - left.len()) =~= bytes.skip(
                        bytes.len() - left.len(),
                    ));
                },
                HeaderOutcome::Fail(_) => {},
                HeaderOutcome::Body(length) => {
                    if rest.len() >= length {
                        assert(rest.skip(length as int) =~= bytes.skip(n + length));
                    } else {
                        assert(Seq::<u8>::empty() =~= bytes.skip(bytes.len() as int));
                    }
                },
            }
        }
    } else {
        assert(bytes.skip(0) =~= bytes);
    }
}

/// A line of white space ends the headers, a line that begins with `Content-Length:` gives the
/// length, and any other line changes nothing. The end of the stream is an error.
pub proof fn law_header_lines_are_told_apart(
    known: Option<usize>,
    line: Seq<char>,
    value: Seq<char>,
)
    ensures
        header_outcome(known, None) == HeaderOutcome::Fail(
            McpErrorView::Transport("EOF while reading headers"@),
        ),
        text::trimmed(line).len() == 0 ==> header_outcome(known, Some(line)) == match known {
            Some(length) => HeaderOutcome::Body(length),
            None => HeaderOutcome::Fail(McpErrorView::Protocol("Missing Content-Length header"@)),
        },
        text::trimmed(line) == "Content-Length:"@ + value ==> header_outcome(known, Some(line))
            == match text::size_value(text::trimmed(value)) {
            Ok(length) => HeaderOutcome::More(Some(length as usize)),
            Err(NumberFault::Empty) => HeaderOutcome::Fail(
                McpErrorView::Protocol(
                    "Invalid Content-Length: "@ + "cannot parse integer from empty string"@,
                ),
            ),
            Err(NumberFault::InvalidDigit) => HeaderOutcome::Fail(
                McpErrorView::Protocol(
                    "Invalid Content-Length: "@ + "invalid digit found in string"@,
                ),
            ),
            Err(NumberFault::TooLarge) => HeaderOutcome::Fail(
                McpErrorView::Protocol(
                    "Invalid Content-Length: "@ + "number too large to fit in target type"@,
                ),
            ),
        },
        text::trimmed(line).len() > 0 && !"Content-Length:"@.is_prefix_of(text::trimmed(line))
            ==> header_outcome(known, Some(line)) == HeaderOutcome::More(known),
{
    reveal_strlit("Content-Length:");
    assert("Content-Length:"@.len() == 15);
    let whole = "Content-Length:"@ + value;
    assert(whole.skip(15) =~= value);
    assert("Content-Length:"@ =~= whole.subrange(0, 15));
}

/// A line reaches to its newline, which belongs to it, or else to the end.
pub proof fn law_line_ends_at_its_newline(line: Seq<u8>, rest: Seq<u8>)
    requires
        forall|i: int| 0 <= i < line.len() ==> #[trigger] line[i] != 10,
    ensures
        line_length(line.push(10) + rest) == line.len() + 1,
        line_length(line) == line.len(),
    decreases line.len(),
{
    let ended = line.push(10);
    assert forall|i: int| 0 <= i < ended.len() - 1 implies #[trigger] ended[i] != 10 by {
        assert(ended[i] == line[i]);
    }
    lemma_line_of_prefix(ended, rest);
    if line.len() > 0 {
        let shorter = line.drop_first();
        assert forall|i: int| 0 <= i < shorter.len() implies #[trigger] shorter[i] != 10 by {
            assert(shorter[i] == line[i + 1]);
        }
        law_line_ends_at_its_newline(shorter, rest);
        assert(line[0] != 10);
    }
}

proof fn lemma_first_line(line: Seq<u8>, rest: Seq<u8>)
    requires
        line.len() > 0,
        forall|i: int| 0 <= i < line.len() - 1 ==> #[trigger] line[i] != 10,
        line.last() == 10 || rest.len() == 0,
    ensures
        line_length(line + rest) == line.len(),
{
    if line.last() == 10 {
        lemma_line_of_prefix(line, rest);
    } else {
        assert forall|i: int| 0 <= i < line.len() implies #[trigger] line[i] != 10 by {
            if i == line.len() - 1 {
                assert(line[i] == line.last());
            }
        }
        law_line_ends_at_its_newline(line, rest);
        assert(line + rest =~= line);
    }
}

/// The last of several lengths counts: what was known before makes no difference.
pub proof fn law_last_length_counts(length: nat, rest: Seq<u8>, known: Option<usize>)
    requires
        length <= usize::MAX,
    ensures
        frame(utf8::encode_utf8(length_line(length)) + rest, known) == frame(
            rest,
            Some(length as usize),
        ),
{
    lemma_length_line(length, known);
    lemma_ascii_line(length_line(length), rest);
}

/// A header line of another name makes no difference.
pub proof fn law_other_headers_do_not_count(line: Seq<char>, rest: Seq<u8>, known: Option<usize>)
    requires
        utf8::is_ascii_chars(line),
        line.len() > 0,
        line.last() == '\n',
        forall|i: int| 0 <= i < line.len() - 1 ==> #[trigger] line[i] != '\n',
        text::trimmed(line).len() > 0,
        !"Content-Length:"@.is_prefix_of(text::trimmed(line)),
    ensures
        frame(utf8::encode_utf8(line) + rest, known) == frame(rest, known),
{
    lemma_ascii_line(line, rest);
    law_header_lines_are_told_apart(known, line, Seq::empty());
}

/// An empty line ends the headers. Behind it stand as many bytes of the body as the length says;
/// where there are fewer, or where no length was given, the message cannot be read.
pub proof fn law_empty_line_ends_the_headers(rest: Seq<u8>, known: Option<usize>)
    ensures
        ({
            let read = frame(utf8::encode_utf8("\r\n"@) + rest, known);
            match known {
                Some(length) => {
                    &&& length <= rest.len() ==> read == (
                        Ok::<Seq<u8>, McpErrorView>(rest.take(length as int)),
                        rest.skip(length as int),
                    )
                    &&& length > rest.len() ==> read == (
                        Err::<Seq<u8>, McpErrorView>(McpErrorView::UnexpectedEof),
                        Seq::<u8>::empty(),
                    )
                },
                None => read == (
                    Err::<Seq<u8>, McpErrorView>(
                        McpErrorView::Protocol("Missing Content-Length header"@),
                    ),
                    rest,
                ),
            }
        }),
{
    reveal_strlit("\r\n");
    let ending = "\r\n"@;
    assert(ending.len() == 2);
    assert(ending[0] == '\r' && ending[1] == '\n');
    assert(utf8::is_ascii_chars(ending));
    lemma_ascii_line(ending, rest);
    assert(text::trimmed(ending).len() == 0) by {
        assert(text::white_space(ending[0]));
        assert(text::white_space(ending.drop_first()[0]));
        assert(ending.drop_first().drop_first() =~= Seq::<char>::empty());
        assert(text::trimmed_start(ending.drop_first()) == text::trimmed_start(
            ending.drop_first().drop_first(),
        ));
    }
    law_header_lines_are_told_apart(known, ending, Seq::empty());
}

/// A stream that ends before the headers do, and a header line that is no text, are errors.
pub proof fn law_broken_headers_are_refused(line: Seq<u8>, rest: Seq<u8>, known: Option<usize>)
    ensures
        frame(Seq::empty(), known) == (
            Err::<Seq<u8>, McpErrorView>(McpErrorView::Transport("EOF while reading headers"@)),
            Seq::<u8>::empty(),
        ),
        line.len() > 0 && (line.last() == 10 || rest.len() == 0) && (forall|i: int|
            0 <= i < line.len() - 1 ==> #[trigger] line[i] != 10) && !utf8::valid_utf8(line)
            ==> frame(line + rest, known) == (
            Err::<Seq<u8>, McpErrorView>(McpErrorView::InvalidText),
            rest,
        ),
{
    if line.len() > 0 && (line.last() == 10 || rest.len() == 0) && (forall|i: int|
        0 <= i < line.len() - 1 ==> #[trigger] line[i] != 10) {
        lemma_first_line(line, rest);
        assert((line + rest).take(line.len() as int) =~= line);
        assert((line + rest).skip(line.len() as int) =~= rest);
    }
}

/// An error says what it is, with its own text.
pub proof fn law_error_keeps_its_text(error: McpError)
    ensures
        match error {
            McpError::Transport(s) => error@ == McpErrorView::Transport(s@),
            McpError::Protocol(s) => error@ == McpErrorView::Protocol(s@),
            McpError::InvalidText => error@ == McpErrorView::InvalidText,
            McpError::UnexpectedEof => error@ == McpErrorView::UnexpectedEof,
        },
{
}

/// A stream is read line by line: each line that is text means what a header line means, with
/// what is known from the lines before it, and the rest is read behind it.
pub proof fn law_stream_is_read_line_by_line(line: Seq<u8>, rest: Seq<u8>, known: Option<usize>)
    requires
        line.len() > 0,
        forall|i: int| 0 <= i < line.len() - 1 ==> #[trigger] line[i] != 10,
        line.last() == 10 || rest.len() == 0,
        utf8::valid_utf8(line),
    ensures
        ({
            let read = frame(line + rest, known);
            match header_outcome(known, Some(utf8::decode_utf8(line))) {
                HeaderOutcome::More(length) => read == frame(rest, length),
                HeaderOutcome::Fail(error) => read == (Err::<Seq<u8>, McpErrorView>(error), rest),
                HeaderOutcome::Body(length) => {
                    &&& length <= rest.len() ==> read == (
                        Ok::<Seq<u8>, McpErrorView>(rest.take(length as int)),
                        rest.skip(length as int),
                    )
                    &&& length > rest.len() ==> read == (
                        Err::<Seq<u8>, McpErrorView>(McpErrorView::UnexpectedEof),
                        Seq::<u8>::empty(),
                    )
                },
            }
        }),
{
    lemma_first_line(line, rest);
    assert((line + rest).take(line.len() as int) =~= line);
    assert((line + rest).skip(line.len() as int) =~= rest);
}

} // verus!
