//! Statements: turning a line of text into a `select` or an `insert`, and
//! carrying either out on a table.

use crate::row::{
    DeserializeError, Email, Id, Row, RowView, Username, EMAIL_SIZE, USERNAME_SIZE,
};
use crate::table::{
    lemma_scan_keeps_bytes, GetRowError, Table, TableView, WriteRowError, MAX_ROWS,
};
use crate::text::{has_prefix, lowercase, to_lowercase};
use vstd::prelude::*;
use vstd::string::StrSliceExecFns;
use vstd::utf8::encode_utf8;

verus! {

/// The pattern of an insert statement: the word, a number, a name made of
/// word characters, and an address that runs to the end of the line.
pub const INSERT_REGEX_STR: &'static str = r"insert (?<id>\b\d+\b) (?<username>\w+) (?<email>.+)";

/// The error of compiling a pattern, carried through unopened.
#[verifier::external_type_specification]
#[verifier::external_body]
pub struct ExRegexError(regex::Error);

/// Whether `regex::Regex::new` accepts `pattern`.
pub uninterp spec fn regex_compiles(pattern: Seq<char>) -> bool;

/// What `regex::Regex::captures` finds for `pattern` in `haystack`: nothing,
/// or the text of each group of the leftmost match, group 0 being the whole
/// match and a group that took no part being `None`.
pub uninterp spec fn regex_groups(pattern: Seq<char>, haystack: Seq<char>) -> Option<
    Seq<Option<Seq<char>>>,
>;

/// Compiles `pattern` with `regex::Regex::new` and searches `haystack` with
/// `regex::Regex::captures`. The call fails exactly when the pattern does not
/// compile; otherwise it gives what the search finds, each group as a
/// string of its own.
#[verifier::external_body]
fn regex_captures(pattern: &str, haystack: &str) -> (r: Result<
    Option<Vec<Option<String>>>,
    regex::Error,
>)
    ensures
        r is Ok <==> regex_compiles(pattern@),
        r matches Ok(found) ==> found.deep_view() == regex_groups(pattern@, haystack@),
{
    let re = regex::Regex::new(pattern)?;
    Ok(
        re.captures(haystack).map(
            |caps| caps.iter().map(|group| group.map(|m| m.as_str().to_owned())).collect(),
        ),
    )
}

/// A statement that is ready to be carried out.
#[derive(Debug, PartialEq)]
pub enum StatementType {
    Select,
    Insert(Row),
}

/// Why a line is no statement.
#[derive(Debug, PartialEq)]
pub enum PrepareStatementError {
    /// The line starts with neither `select` nor `insert`.
    UnrecognizedStatement,
    /// The line starts with `insert` and is not of the form of an insert.
    InvalidInsert,
    /// A text is longer than its field: the field's name and its width.
    StringTooLong(String, usize),
}

/// What a statement gave.
#[derive(Debug, PartialEq)]
pub enum StatementOutput {
    Select(Vec<Row>),
    InsertSuccessfull,
}

/// Why a statement failed.
#[derive(Debug)]
pub enum StatementOutputError {
    PoisonedTable,
    /// The rows that could be read, and the first error of the scan.
    Select(Vec<Row>, GetRowError),
    Insert(WriteRowError),
}

/// The word that a statement starts with.
#[derive(Debug, PartialEq, Eq, Clone, Copy, Structural)]
pub enum Keyword {
    Select,
    Insert,
    Other,
}

/// What preparing a line comes to, over the views of the values involved.
pub enum Prepared {
    Select,
    Insert(RowView),
    UnrecognizedStatement,
    InvalidInsert,
    StringTooLong(Seq<char>, usize),
}

/// The outcome that `r` stands for.
pub open spec fn prepared_of(r: Result<StatementType, PrepareStatementError>) -> Prepared {
    match r {
        Ok(StatementType::Select) => Prepared::Select,
        Ok(StatementType::Insert(row)) => Prepared::Insert(row@),
        Err(PrepareStatementError::UnrecognizedStatement) => Prepared::UnrecognizedStatement,
        Err(PrepareStatementError::InvalidInsert) => Prepared::InvalidInsert,
        Err(PrepareStatementError::StringTooLong(name, max)) => Prepared::StringTooLong(name@, max),
    }
}

/// Whether `c` is one of the ten decimal digits.
pub open spec fn is_digit(c: char) -> bool {
    '0' <= c <= '9'
}

/// The number that the digits of `digits` spell.
pub open spec fn digits_value(digits: Seq<char>) -> nat
    decreases digits.len(),
{
    if digits.len() == 0 {
        0
    } else {
        digits_value(digits.drop_last()) * 10 + (digits.last() as nat - '0' as nat) as nat
    }
}

/// `text` without a leading plus sign.
pub open spec fn without_sign(text: Seq<char>) -> Seq<char> {
    if text.len() > 0 && text[0] == '+' {
        text.drop_first()
    } else {
        text
    }
}

/// The identifier that `text` spells: decimal digits, at least one, after an
/// optional plus sign, with a value that fits in 64 bits.
pub open spec fn parsed_id(text: Seq<char>) -> Option<u64> {
    let digits = without_sign(text);
    if digits.len() > 0 && (forall|i: int| 0 <= i < digits.len() ==> is_digit(#[trigger] digits[i]))
        && digits_value(digits) <= u64::MAX {
        Some(digits_value(digits) as u64)
    } else {
        None
    }
}

/// The keyword that a line in lower case starts with.
pub open spec fn keyword_of(lowercase: Seq<char>) -> Keyword {
    if "select"@.is_prefix_of(lowercase) {
        Keyword::Select
    } else if "insert"@.is_prefix_of(lowercase) {
        Keyword::Insert
    } else {
        Keyword::Other
    }
}

/// What the groups of an insert's match come to. There have to be the
/// whole match and the three groups, each with a text; the first has to
/// spell an identifier; the name and the address have to fit their fields,
/// the name being looked at first.
pub open spec fn insert_of(groups: Option<Seq<Option<Seq<char>>>>) -> Prepared {
    match groups {
        Some(g) if g.len() == 4 && g[1] is Some && g[2] is Some && g[3] is Some => {
            let (id, username, email) = (g[1]->0, g[2]->0, g[3]->0);
            if parsed_id(id) is None {
                Prepared::InvalidInsert
            } else if encode_utf8(username).len() > USERNAME_SIZE {
                Prepared::StringTooLong("username"@, USERNAME_SIZE)
            } else if encode_utf8(email).len() > EMAIL_SIZE {
                Prepared::StringTooLong("email"@, EMAIL_SIZE)
            } else {
                Prepared::Insert(RowView { id: parsed_id(id)->0, username, email })
            }
        },
        _ => Prepared::InvalidInsert,
    }
}

/// What a line comes to, given its lower-case form and what the pattern of
/// an insert finds in it.
pub open spec fn prepare_of(
    lowercase: Seq<char>,
    groups: Option<Seq<Option<Seq<char>>>>,
) -> Prepared {
    match keyword_of(lowercase) {
        Keyword::Select => Prepared::Select,
        Keyword::Insert => insert_of(groups),
        Keyword::Other => Prepared::UnrecognizedStatement,
    }
}

/// The keyword that `lowercase`, a line in lower case, starts with.
pub fn statement_keyword(lowercase: &str) -> (r: Keyword)
    ensures
        r == keyword_of(lowercase@),
{
    if has_prefix(lowercase, "select") {
        Keyword::Select
    } else if has_prefix(lowercase, "insert") {
        Keyword::Insert
    } else {
        Keyword::Other
    }
}

/// Reads `text` as an identifier.
pub fn parse_id(text: &str) -> (r: Option<u64>)
    ensures
        r == parsed_id(text@),
{
    let n = text.unicode_len();
    let start: usize = if n > 0 && text.get_char(0) == '+' {
        1
    } else {
        0
    };
    let ghost digits = without_sign(text@);
    assert(digits =~= text@.subrange(start as int, n as int));
    if start == n {
        return None;
    }
    let mut value: u64 = 0;
    let mut i: usize = start;
    assert(digits.subrange(0, 0) =~= Seq::<char>::empty());
    while i < n
        invariant
            start <= i <= n,
            n == text@.len(),
            digits == text@.subrange(start as int, n as int),
            digits == without_sign(text@),
            forall|j: int| 0 <= j < i - start ==> is_digit(#[trigger] digits[j]),
            value == digits_value(digits.subrange(0, i - start)),
        decreases n - i,
    {
        let c = text.get_char(i);
        assert(c == digits[i - start]);
        if !('0' <= c && c <= '9') {
            assert(!is_digit(digits[i - start]));
            return None;
        }
        let digit: u64 = (c as u32 - '0' as u32) as u64;
        proof {
            let done = digits.subrange(0, i - start + 1);
            assert(done.drop_last() =~= digits.subrange(0, i - start));
            assert(done.last() == c);
            assert(digits_value(done) == value * 10 + digit);
            lemma_digits_value_grows(done, digits);
        }
        if value > (u64::MAX - digit) / 10 {
            assert(value * 10 + digit > u64::MAX);
            return None;
        }
        value = value * 10 + digit;
        i += 1;
    }
    assert(digits.subrange(0, digits.len() as int) =~= digits);
    Some(value)
}

/// The value of a run of digits is no more than the value of any run that
/// it starts.
proof fn lemma_digits_value_grows(prefix: Seq<char>, digits: Seq<char>)
    requires
        prefix.is_prefix_of(digits),
    ensures
        digits_value(prefix) <= digits_value(digits),
    decreases digits.len(),
{
    if prefix.len() < digits.len() {
        assert(prefix.is_prefix_of(digits.drop_last())) by {
            assert(prefix =~= digits.drop_last().subrange(0, prefix.len() as int));
        }
        lemma_digits_value_grows(prefix, digits.drop_last());
    } else {
        assert(prefix =~= digits);
    }
}

/// The insert that the groups of a match spell, or why they spell none.
pub fn prepare_insert(captures: Option<Vec<Option<String>>>) -> (r: Result<
    StatementType,
    PrepareStatementError,
>)
    ensures
        prepared_of(r) == insert_of(captures.deep_view()),
{
    let mut groups = match captures {
        Some(groups) => groups,
        None => {
            return Err(PrepareStatementError::InvalidInsert);
        },
    };
    let ghost g = groups.deep_view();
    assert(g.len() == groups@.len());
    if groups.len() != 4 {
        return Err(PrepareStatementError::InvalidInsert);
    }
    assert(g[1] == groups@[1].deep_view() && g[2] == groups@[2].deep_view() && g[3]
        == groups@[3].deep_view());
    let email = groups.pop();
    let username = groups.pop();
    let id = groups.pop();
    let (id, username, email) = match (id, username, email) {
        (Some(Some(id)), Some(Some(username)), Some(Some(email))) => (id, username, email),
        _ => {
            return Err(PrepareStatementError::InvalidInsert);
        },
    };
    assert(g[1] == Some(id@) && g[2] == Some(username@) && g[3] == Some(email@));
    let id = match parse_id(id.as_str()) {
        Some(id) => id,
        None => {
            return Err(PrepareStatementError::InvalidInsert);
        },
    };
    if username.as_str().as_bytes().len() > USERNAME_SIZE {
        return Err(
            PrepareStatementError::StringTooLong("username".to_owned(), USERNAME_SIZE),
        );
    }
    if email.as_str().as_bytes().len() > EMAIL_SIZE {
        return Err(PrepareStatementError::StringTooLong("email".to_owned(), EMAIL_SIZE));
    }
    let row = Row::new(Id::new(id), Username::new(username), Email::new(email));
    Ok(StatementType::Insert(row))
}

/// The statement that `buffer` spells. A line whose lower-case form starts
/// with `select` is a select; one that starts with `insert` is the insert
/// that the pattern finds in it, if any; every other line is refused.
pub fn prepare_statement(buffer: &str) -> (r: Result<StatementType, PrepareStatementError>)
    ensures
        prepared_of(r) == prepare_of(
            lowercase(buffer@),
            if regex_compiles(INSERT_REGEX_STR@) {
                regex_groups(INSERT_REGEX_STR@, buffer@)
            } else {
                None
            },
        ),
{
    let lowercase = to_lowercase(buffer);
    match statement_keyword(lowercase.as_str()) {
        Keyword::Select => Ok(StatementType::Select),
        Keyword::Insert => match regex_captures(INSERT_REGEX_STR, buffer) {
            Ok(captures) => prepare_insert(captures),
            Err(_) => Err(PrepareStatementError::InvalidInsert),
        },
        Keyword::Other => Err(PrepareStatementError::UnrecognizedStatement),
    }
}

/// What each row of `rows` holds.
pub open spec fn rows_view(rows: Seq<Row>) -> Seq<RowView> {
    Seq::new(rows.len(), |i: int| rows[i]@)
}

/// What a select owes: the table is as after a read of each of its rows;
/// the rows given are those that decode, in the order of their numbers;
/// and the select fails, with the error of a decoding, exactly when some row
/// does not decode.
pub open spec fn select_done(
    before: TableView,
    after: TableView,
    r: Result<StatementOutput, StatementOutputError>,
) -> bool {
    &&& after == before.scanned(before.nb_rows)
    &&& match r {
        Ok(StatementOutput::Select(rows)) => {
            &&& before.all_readable(before.nb_rows)
            &&& rows_view(rows@) == before.readable_rows(before.nb_rows)
        },
        Err(
            StatementOutputError::Select(
                rows,
                GetRowError::Deserialize(DeserializeError::FromUtf8Error(_)),
            ),
        ) => {
            &&& !before.all_readable(before.nb_rows)
            &&& rows_view(rows@) == before.readable_rows(before.nb_rows)
        },
        _ => false,
    }
}

/// What an insert owes: a full table stays as it is and the insert fails
/// with `TableFull`; any other table takes the row at its end.
pub open spec fn insert_done(
    before: TableView,
    after: TableView,
    row: RowView,
    r: Result<StatementOutput, StatementOutputError>,
) -> bool {
    if before.nb_rows == MAX_ROWS {
        &&& after == before
        &&& r matches Err(StatementOutputError::Insert(WriteRowError::TableFull))
    } else {
        &&& after == before.append(row)
        &&& r matches Ok(StatementOutput::InsertSuccessfull)
    }
}

/// Carries out `statement` on `table`.
pub fn execute_statement(table: &mut Table, statement: StatementType) -> (r: Result<
    StatementOutput,
    StatementOutputError,
>)
    requires
        old(table)@.wf(),
    ensures
        final(table)@.wf(),
        match statement {
            StatementType::Select => select_done(old(table)@, final(table)@, r),
            StatementType::Insert(row) => insert_done(old(table)@, final(table)@, row@, r),
        },
{
    match statement {
        StatementType::Select => execute_select(table),
        StatementType::Insert(row) => execute_insert(table, row),
    }
}

/// Reads every row of `table`, from the first to the last. A row that does
/// not decode is left out and the scan goes on; the first such error is
/// what the select fails with, together with the rows that were read.
pub fn execute_select(table: &mut Table) -> (r: Result<StatementOutput, StatementOutputError>)
    requires
        old(table)@.wf(),
    ensures
        final(table)@.wf(),
        select_done(old(table)@, final(table)@, r),
{
    let ghost before = table@;
    let nb_rows = table.get_nb_rows();
    let mut result: Vec<Row> = Vec::new();
    let mut first_error: Option<GetRowError> = None;
    let mut i: usize = 0;
    assert(rows_view(result@) =~= before.readable_rows(0));
    while i < nb_rows
        invariant
            i <= nb_rows,
            nb_rows == before.nb_rows,
            before.wf(),
            table@.wf(),
            table@ == before.scanned(i as nat),
            rows_view(result@) == before.readable_rows(i as nat),
            first_error is None <==> before.all_readable(i as nat),
            first_error matches Some(e) ==> e matches GetRowError::Deserialize(
                DeserializeError::FromUtf8Error(_),
            ),
        decreases nb_rows - i,
    {
        proof {
            lemma_scan_keeps_bytes(before, i as nat);
            assert(table@.row_bytes(i as int) == before.row_bytes(i as int));
        }
        let ghost collected = rows_view(result@);
        match table.get_row(i) {
            Some(Ok(row)) => {
                result.push(row);
                assert(rows_view(result@) =~= collected.push(row@));
            },
            Some(Err(e)) => {
                if first_error.is_none() {
                    first_error = Some(e);
                }
            },
            None => {},
        }
        i += 1;
    }
    match first_error {
        None => Ok(StatementOutput::Select(result)),
        Some(e) => Err(StatementOutputError::Select(result, e)),
    }
}

/// Appends `row` to `table`.
pub fn execute_insert(table: &mut Table, row: Row) -> (r: Result<
    StatementOutput,
    StatementOutputError,
>)
    requires
        old(table)@.wf(),
    ensures
        final(table)@.wf(),
        insert_done(old(table)@, final(table)@, row@, r),
{
    match table.write_row(row) {
        Ok(()) => Ok(StatementOutput::InsertSuccessfull),
        Err(e) => Err(StatementOutputError::Insert(e)),
    }
}

} // verus!
