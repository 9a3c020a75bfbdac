//! The outline format, one line at a time. The indentation of a line says
//! what it declares: 0 an area, 1 a category, 2 a folder, 3 an extended
//! folder.
use vstd::prelude::*;
use vstd::string::*;

use crate::model::{kind_of_char, FolderKind};
use crate::text::{
    parse_u8, prefix_len, split_at_first, split_once, trim, trimmed, u8_of, white,
    leading_whitespace, other_than,
};

verus! {

/// The different kinds of lines that can be parsed
#[derive(Debug)]
pub enum ParsedKind<'topic> {
    /// Area with a range of ids
    Area(u8, u8, &'topic str),
    /// Category with a number id
    Category(u8, &'topic str),
    /// Folder with a number id
    Folder(u8, FolderKind, &'topic str),
    /// Extended folder with a string id
    ExtendedFolder(&'topic str, FolderKind, &'topic str),
}

/// What a line declares.
pub enum Record {
    Area(u8, u8, Seq<char>),
    Category(u8, Seq<char>),
    Folder(u8, FolderKind, Seq<char>),
    ExtendedFolder(Seq<char>, FolderKind, Seq<char>),
}

impl<'topic> View for ParsedKind<'topic> {
    type V = Record;

    open spec fn view(&self) -> Record {
        match *self {
            ParsedKind::Area(s, e, t) => Record::Area(s, e, t@),
            ParsedKind::Category(id, t) => Record::Category(id, t@),
            ParsedKind::Folder(id, k, t) => Record::Folder(id, k, t@),
            ParsedKind::ExtendedFolder(id, k, t) => Record::ExtendedFolder(id@, k, t@),
        }
    }
}

/// Why a line of the outline was refused.
#[derive(Debug, Clone, Copy, PartialEq, Eq, Structural)]
pub enum ParseErrorKind {
    /// The line is indented by more than three characters
    Indent,
    /// An id, or one bound of an area's range, is missing
    MissingId,
    /// A numeric id is not a number from 0 to 255
    BadNumber,
}

/// A line of the outline that could not be read.
#[derive(Debug)]
pub struct ParseError {
    /// The line's number, counted from 1
    pub line_no: usize,
    /// Why it was refused
    pub kind: ParseErrorKind,
    /// The line as it was written
    pub line: String,
}

/// A numeric id token.
pub open spec fn number_of(tok: Seq<char>) -> Result<u8, ParseErrorKind> {
    if tok.len() == 0 {
        Err(ParseErrorKind::MissingId)
    } else {
        match u8_of(tok) {
            Some(n) => Ok(n),
            None => Err(ParseErrorKind::BadNumber),
        }
    }
}

/// The kind that the first character of a remainder selects.
pub open spec fn style_of(rest: Seq<char>) -> FolderKind {
    if rest.len() > 0 {
        kind_of_char(rest[0])
    } else {
        FolderKind::Folder
    }
}

/// The remainder without the directive character that selected `style`.
pub open spec fn topic_after(rest: Seq<char>, style: FolderKind) -> Seq<char> {
    if style == FolderKind::Folder {
        rest
    } else {
        rest.drop_first()
    }
}

/// An extended folder is a plain folder or a file, nothing else.
pub open spec fn extended_kind(style: FolderKind) -> FolderKind {
    if style == FolderKind::File {
        FolderKind::File
    } else {
        FolderKind::Folder
    }
}

/// An area line, trimmed: `<start>-<end> <topic>`.
pub open spec fn area_of(t: Seq<char>) -> Result<(u8, u8, Seq<char>), ParseErrorKind> {
    let (range, topic) = split_at_first(t, ' ');
    let (first, second) = split_at_first(range, '-');
    match number_of(first) {
        Err(e) => Err(e),
        Ok(start) => if prefix_len(range, other_than('-')) >= range.len() {
            Err(ParseErrorKind::MissingId)
        } else {
            match number_of(second) {
                Err(e) => Err(e),
                Ok(end) => Ok((start, end, topic)),
            }
        },
    }
}

/// A directive character: it selects the kind of a folder.
pub open spec fn is_directive(c: char) -> bool {
    c == '-' || c == '+' || c == '!'
}

/// An id token, and the kind that a directive written right after the id
/// selects, if there is one.
pub open spec fn id_and_style(token: Seq<char>) -> (Seq<char>, Option<FolderKind>) {
    if token.len() > 0 && is_directive(token.last()) {
        (token.drop_last(), Some(kind_of_char(token.last())))
    } else {
        (token, None)
    }
}

/// A category line, trimmed: the id and the remainder, which is kept as
/// written. A directive after the id is tolerated and ignored.
pub open spec fn entry_of(t: Seq<char>) -> Result<(u8, Seq<char>), ParseErrorKind> {
    let (token, rest) = split_at_first(t, ' ');
    match number_of(id_and_style(token).0) {
        Err(e) => Err(e),
        Ok(n) => Ok((n, rest)),
    }
}

/// The id, kind and topic of a folder or extended folder line, trimmed:
/// the kind comes from a directive right after the id, or else from the
/// first character of the remainder, which is then no part of the topic.
pub open spec fn folder_parts(t: Seq<char>) -> (Seq<char>, FolderKind, Seq<char>) {
    let (token, rest) = split_at_first(t, ' ');
    let (id, attached) = id_and_style(token);
    match attached {
        Some(k) => (id, k, rest),
        None => (id, style_of(rest), topic_after(rest, style_of(rest))),
    }
}

/// A folder line, trimmed: the id, its kind, its topic.
pub open spec fn folder_of(t: Seq<char>) -> Result<(u8, FolderKind, Seq<char>), ParseErrorKind> {
    let (id, kind, topic) = folder_parts(t);
    match number_of(id) {
        Err(e) => Err(e),
        Ok(n) => Ok((n, kind, topic)),
    }
}

/// An extended folder line, trimmed: the id, its kind, its topic.
pub open spec fn extended_of(t: Seq<char>) -> Result<(Seq<char>, FolderKind, Seq<char>), ParseErrorKind> {
    let (id, kind, topic) = folder_parts(t);
    if id.len() == 0 {
        Err(ParseErrorKind::MissingId)
    } else {
        Ok((id, extended_kind(kind), topic))
    }
}

/// What one line of the outline declares.
pub open spec fn record_of(line: Seq<char>) -> Result<Record, ParseErrorKind> {
    let indent = prefix_len(line, white());
    let t = trimmed(line);
    if indent == 0 {
        match area_of(t) {
            Ok((s, e, topic)) => Ok(Record::Area(s, e, topic)),
            Err(e) => Err(e),
        }
    } else if indent == 1 {
        match entry_of(t) {
            Ok((id, rest)) => Ok(Record::Category(id, rest)),
            Err(e) => Err(e),
        }
    } else if indent == 2 {
        match folder_of(t) {
            Ok((id, kind, topic)) => Ok(Record::Folder(id, kind, topic)),
            Err(e) => Err(e),
        }
    } else if indent == 3 {
        match extended_of(t) {
            Ok((id, kind, topic)) => Ok(Record::ExtendedFolder(id, kind, topic)),
            Err(e) => Err(e),
        }
    } else {
        Err(ParseErrorKind::Indent)
    }
}

/// Reads a numeric id token.
fn parse_number(tok: &str) -> (r: Result<u8, ParseErrorKind>)
    ensures
        r == number_of(tok@),
{
    if tok.unicode_len() == 0 {
        return Err(ParseErrorKind::MissingId);
    }
    match parse_u8(tok) {
        Some(n) => Ok(n),
        None => Err(ParseErrorKind::BadNumber),
    }
}

/// The first character of `s` as a directive, if `s` has one.
fn style_char(s: &str) -> (r: Option<FolderKind>)
    ensures
        r == (if s@.len() > 0 {
            Some(kind_of_char(s@[0]))
        } else {
            None::<FolderKind>
        }),
{
    if s.unicode_len() > 0 {
        Some(FolderKind::from_char(s.get_char(0)))
    } else {
        None
    }
}

/// Splits an id token from a directive written right after it.
fn split_style(token: &str) -> (r: (&str, Option<FolderKind>))
    ensures
        (r.0@, r.1) == id_and_style(token@),
{
    let len = token.unicode_len();
    if len > 0 {
        let last = token.get_char(len - 1);
        if last == '-' || last == '+' || last == '!' {
            let id = token.substring_char(0, len - 1);
            assert(id@ =~= token@.drop_last());
            return (id, Some(FolderKind::from_char(last)));
        }
    }
    (token, None)
}

/// The id, kind and topic of a folder or extended folder line.
fn split_folder(trimmed: &str) -> (r: (&str, FolderKind, &str))
    ensures
        (r.0@, r.1, r.2@) == folder_parts(trimmed@),
{
    let (token, rest) = split_once(trimmed, ' ');
    let (id, attached) = split_style(token);
    match attached {
        Some(kind) => (id, kind, rest),
        None => {
            let style = match style_char(rest) {
                Some(k) => k,
                None => FolderKind::default(),
            };
            (id, style, strip_style(rest, style))
        },
    }
}

/// Parses a category or folder line: its id, the remainder after the id,
/// and the kind that a directive right after the id selects
fn parse_entry(_line_no: usize, trimmed: &str) -> (r: Result<(u8, &str, Option<FolderKind>), ParseErrorKind>)
    ensures
        match r {
            Ok((id, rest, style)) => entry_of(trimmed@) == Ok::<_, ParseErrorKind>((id, rest@))
                && style == id_and_style(split_at_first(trimmed@, ' ').0).1,
            Err(e) => entry_of(trimmed@) == Err::<(u8, Seq<char>), _>(e),
        },
{
    let (token, rest) = split_once(trimmed, ' ');
    let (id, style) = split_style(token);
    match parse_number(id) {
        Ok(n) => Ok((n, rest, style)),
        Err(e) => Err(e),
    }
}

/// Parses a line that is a folder
fn parse_folder(trimmed: &str) -> (r: Result<(u8, FolderKind, &str), ParseErrorKind>)
    ensures
        match r {
            Ok((id, kind, topic)) => folder_of(trimmed@) == Ok::<_, ParseErrorKind>((id, kind, topic@)),
            Err(e) => folder_of(trimmed@) == Err::<(u8, FolderKind, Seq<char>), _>(e),
        },
{
    let (id, kind, topic) = split_folder(trimmed);
    match parse_number(id) {
        Ok(n) => Ok((n, kind, topic)),
        Err(e) => Err(e),
    }
}

/// Parses a line that is an area
fn parse_area_entry(trimmed: &str) -> (r: Result<(u8, u8, &str), ParseErrorKind>)
    ensures
        match r {
            Ok((s, e, topic)) => area_of(trimmed@) == Ok::<_, ParseErrorKind>((s, e, topic@)),
            Err(e) => area_of(trimmed@) == Err::<(u8, u8, Seq<char>), _>(e),
        },
{
    let (range, rest) = split_once(trimmed, ' ');
    let (first, second) = split_once(range, '-');
    let start = match parse_number(first) {
        Ok(n) => n,
        Err(e) => return Err(e),
    };
    if crate::text::find_char(range, '-') >= range.unicode_len() {
        return Err(ParseErrorKind::MissingId);
    }
    let end = match parse_number(second) {
        Ok(n) => n,
        Err(e) => return Err(e),
    };
    Ok((start, end, rest))
}

/// Parses a line that is an extended folder
fn parse_extended_folder(_line_no: usize, line: &str) -> (r: Result<(&str, FolderKind, &str), ParseErrorKind>)
    ensures
        match r {
            Ok((id, kind, topic)) => extended_of(line@) == Ok::<_, ParseErrorKind>((id@, kind, topic@)),
            Err(e) => extended_of(line@) == Err::<(Seq<char>, FolderKind, Seq<char>), _>(e),
        },
{
    let (id, style, topic) = split_folder(line);
    if id.unicode_len() == 0 {
        return Err(ParseErrorKind::MissingId);
    }
    let kind = if style == FolderKind::File {
        FolderKind::File
    } else {
        FolderKind::Folder
    };
    Ok((id, kind, topic))
}

/// The remainder without the directive character that selected `style`.
fn strip_style(rest: &str, style: FolderKind) -> (r: &str)
    requires
        style == style_of(rest@),
    ensures
        r@ == topic_after(rest@, style),
{
    if style == FolderKind::Folder {
        rest
    } else {
        let t = rest.substring_char(1, rest.unicode_len());
        assert(t@ =~= rest@.drop_first());
        t
    }
}

/// Parses a single line into a `ParsedKind`
pub fn parse_single(line_no: usize, line: &str) -> (r: Result<ParsedKind<'_>, ParseError>)
    ensures
        match r {
            Ok(k) => record_of(line@) == Ok::<_, ParseErrorKind>(k@),
            Err(e) => record_of(line@) == Err::<Record, _>(e.kind) && e.line_no == line_no
                && e.line@ == line@,
        },
{
    let trimmed = trim(line);
    let indent = leading_whitespace(line);
    let result = if indent == 0 {
        match parse_area_entry(trimmed) {
            Ok((start, end, topic)) => Ok(ParsedKind::Area(start, end, topic)),
            Err(e) => Err(e),
        }
    } else if indent == 1 {
        match parse_entry(line_no, trimmed) {
            Ok((id, rest, _)) => Ok(ParsedKind::Category(id, rest)),
            Err(e) => Err(e),
        }
    } else if indent == 2 {
        match parse_folder(trimmed) {
            Ok((id, kind, topic)) => Ok(ParsedKind::Folder(id, kind, topic)),
            Err(e) => Err(e),
        }
    } else if indent == 3 {
        match parse_extended_folder(line_no, trimmed) {
            Ok((id, kind, topic)) => Ok(ParsedKind::ExtendedFolder(id, kind, topic)),
            Err(e) => Err(e),
        }
    } else {
        Err(ParseErrorKind::Indent)
    };
    match result {
        Ok(k) => Ok(k),
        Err(kind) => Err(ParseError { line_no, kind, line: line.to_owned() }),
    }
}

/// The indentation of a line alone selects what it may declare: an area at
/// 0, a category at 1, a folder at 2, an extended folder at 3; deeper
/// indentation is refused, shallower never for its indentation.
pub proof fn indent_selects_record(line: Seq<char>)
    ensures
        prefix_len(line, white()) > 3 ==> record_of(line) == Err::<Record, _>(ParseErrorKind::Indent),
        prefix_len(line, white()) <= 3 ==> record_of(line) != Err::<Record, _>(ParseErrorKind::Indent),
        record_of(line) is Ok ==> match record_of(line)->Ok_0 {
            Record::Area(..) => prefix_len(line, white()) == 0,
            Record::Category(..) => prefix_len(line, white()) == 1,
            Record::Folder(..) => prefix_len(line, white()) == 2,
            Record::ExtendedFolder(..) => prefix_len(line, white()) == 3,
        },
{
}

} // verus!
