//! Parser for tracepoint format file under `/sys/kernel/tracing/events`.

use crate::text::{
    chars_of, decimal_digits, ends_with_text, find, first_index, is_digit, last_index,
    parse_u32, parsed_u32, push_chars, push_decimal, rfind, same_text, split, split_at_each,
    starts_with_text, string_of,
};
use vstd::prelude::*;
use vstd::slice::slice_subrange;
use vstd::string::StringExecFns;

verus! {

/// `std::io::Error` of std, which a format error carries along unread.
#[verifier::external_type_specification]
#[verifier::external_body]
pub struct ExIoError(std::io::Error);

/// Error type for tracepoint format parsing.
#[derive(Debug)]
pub enum TracepointFormatError {
    /// Parse error in tracepoint format.
    ParseError(String),
    /// IO error when reading tracepoint format file.
    IoError(std::io::Error),
}

/// Represents the type of an array in a tracepoint format.
#[derive(Clone, Copy, Debug, PartialEq, Eq, Hash, Structural)]
pub enum TracepointArrayType {
    /// Not an array. Example: `char val; size:1;`
    NotArray,
    /// Fixed (see `size`). Example: `char val[16]; size:16;`
    Fixed,
    /// Example: `char val[]; size:0;`
    /// The rest of the event is the array
    Trailing,
    /// Example: `__data_loc char[] val; size:4;`
    /// The upper half is length, the lower half is offset from start of
    /// tracepoint.
    DataLoc4,
}

/// Represents a tracepoint format.
#[derive(Debug, Clone)]
pub struct TracepointFormat {
    /// The name of the tracepoint, e.g. `sched_switch`.
    pub name: String,
    /// The ID of the tracepoint.
    pub id: u32,
    /// The print format string for the tracepoint.
    pub print_fmt: String,
    /// The fields in the tracepoint format.
    pub fields: Vec<TracepointField>,
}

/// Represents a field in a tracepoint format.
#[derive(Debug, Clone)]
pub struct TracepointField {
    /// The C type of the field, e.g. `int`, `char[16]`, `__data_loc char[]`.
    pub field_type: String,
    /// The name of the field, e.g. `prev_comm`, `next_pid`.
    pub field_name: String,
    /// The offset in bytes from the start of the record
    pub offset: u32,
    /// The size of the field in bytes
    pub size: u32,
    /// Whether the field is signed (e.g. `int` vs `unsigned int`).
    pub signed: bool,
    /// The type of array this field is, if any.
    pub array_type: TracepointArrayType,
}

/// A field, with its texts as sequences of characters.
pub ghost struct FieldView {
    pub field_type: Seq<char>,
    pub field_name: Seq<char>,
    pub offset: u32,
    pub size: u32,
    pub signed: bool,
    pub array_type: TracepointArrayType,
}

impl View for TracepointField {
    type V = FieldView;

    open spec fn view(&self) -> FieldView {
        FieldView {
            field_type: self.field_type@,
            field_name: self.field_name@,
            offset: self.offset,
            size: self.size,
            signed: self.signed,
            array_type: self.array_type,
        }
    }
}

impl FieldView {
    /// An indirect field is four bytes wide, and a trailing field has no
    /// width of its own.
    pub open spec fn wf(self) -> bool {
        &&& self.array_type == TracepointArrayType::DataLoc4 ==> self.size == 4
        &&& self.array_type == TracepointArrayType::Trailing ==> self.size == 0
    }
}

/// The views of the fields of `fields`, in order.
pub open spec fn field_views(fields: Seq<TracepointField>) -> Seq<FieldView> {
    Seq::new(fields.len(), |i: int| fields[i]@)
}

/// A format, with its texts as sequences of characters.
pub ghost struct FormatView {
    pub name: Seq<char>,
    pub id: u32,
    pub print_fmt: Seq<char>,
    pub fields: Seq<FieldView>,
}

impl View for TracepointFormat {
    type V = FormatView;

    open spec fn view(&self) -> FormatView {
        FormatView {
            name: self.name@,
            id: self.id,
            print_fmt: self.print_fmt@,
            fields: field_views(self.fields@),
        }
    }
}

/// `t` ends in a bracketed, non-empty run of decimal digits, as in `char[16]`.
pub open spec fn ends_with_length(t: Seq<char>) -> bool {
    exists|k: int|
        {
            &&& 1 <= k
            &&& k + 2 <= t.len()
            &&& t[t.len() - 1] == ']'
            &&& #[trigger] t[t.len() - 2 - k] == '['
            &&& forall|j: int| t.len() - 1 - k <= j < t.len() - 1 ==> is_digit(#[trigger] t[j])
        }
}

/// The array kind that a field's type and size stand for.
pub open spec fn array_kind(field_type: Seq<char>, size: u32) -> TracepointArrayType {
    if "__data_loc"@.is_prefix_of(field_type) && size == 4 {
        TracepointArrayType::DataLoc4
    } else if "[]"@.is_suffix_of(field_type) && size == 0 {
        TracepointArrayType::Trailing
    } else if ends_with_length(field_type) {
        TracepointArrayType::Fixed
    } else {
        TracepointArrayType::NotArray
    }
}

/// Every field that a line describes is well formed.
pub proof fn lemma_parsed_field_wf(line: Seq<char>)
    ensures
        parsed_field(line) matches Ok(Some(field)) ==> field.wf(),
{
}

/// `s` without its last character, if that is `c`.
pub open spec fn strip_last(s: Seq<char>, c: char) -> Seq<char> {
    if s.len() > 0 && s.last() == c {
        s.drop_last()
    } else {
        s
    }
}

/// `s` without its first character, if that is `c`.
pub open spec fn strip_first(s: Seq<char>, c: char) -> Seq<char> {
    if s.len() > 0 && s[0] == c {
        s.skip(1)
    } else {
        s
    }
}

/// What has been read of a field line so far.
pub ghost struct FieldDraft {
    /// Type and name, once a `field:` entry was read.
    pub decl: Option<(Seq<char>, Seq<char>)>,
    pub offset: u32,
    pub size: u32,
    pub signed: bool,
}

/// The draft before anything was read.
pub open spec fn empty_draft() -> FieldDraft {
    FieldDraft { decl: None, offset: 0, size: 0, signed: false }
}

/// Type and name of a declaration such as `char next_comm[16]`: the split is
/// at the last space. Where the name ends in a bracketed suffix, what
/// follows its last `[`, bracket included, goes to the type; a name that
/// holds no `[` or does not end in `]` stays as it is.
pub open spec fn declared(value: Seq<char>) -> Option<(Seq<char>, Seq<char>)> {
    let space = last_index(value, ' ');
    if space < 0 {
        None
    } else {
        let ftype = value.take(space);
        let fname = value.skip(space + 1);
        let bracket = last_index(fname, '[');
        if bracket < 0 || fname.last() != ']' {
            Some((ftype, fname))
        } else {
            Some((ftype + fname.skip(bracket), fname.take(bracket)))
        }
    }
}

/// The draft after one `key:value;` entry of a field line, or the message
/// of the error that the entry gives.
pub open spec fn read_entry(part: Seq<char>, draft: FieldDraft) -> Result<FieldDraft, Seq<char>> {
    let entry = strip_last(part, ';');
    let colon = first_index(entry, ':');
    if !(0 <= colon < entry.len()) {
        Err("Field definition does not contain a colon"@)
    } else {
        let key = entry.take(colon);
        let value = entry.skip(colon + 1);
        if key == "field"@ {
            match declared(value) {
                Some(d) => Ok(
                    FieldDraft {
                        decl: Some(d),
                        offset: draft.offset,
                        size: draft.size,
                        signed: draft.signed,
                    },
                ),
                None => Err("Field definition does not contain a space"@),
            }
        } else if key == "offset"@ {
            match parsed_u32(value) {
                Some(v) => Ok(
                    FieldDraft {
                        decl: draft.decl,
                        offset: v,
                        size: draft.size,
                        signed: draft.signed,
                    },
                ),
                None => Err("Invalid offset value"@),
            }
        } else if key == "size"@ {
            match parsed_u32(value) {
                Some(v) => Ok(
                    FieldDraft {
                        decl: draft.decl,
                        offset: draft.offset,
                        size: v,
                        signed: draft.signed,
                    },
                ),
                None => Err("Invalid size value"@),
            }
        } else if key == "signed"@ {
            if value == "1"@ {
                Ok(
                    FieldDraft {
                        decl: draft.decl,
                        offset: draft.offset,
                        size: draft.size,
                        signed: true,
                    },
                )
            } else if value == "0"@ {
                Ok(
                    FieldDraft {
                        decl: draft.decl,
                        offset: draft.offset,
                        size: draft.size,
                        signed: false,
                    },
                )
            } else {
                Err("Invalid signed value"@)
            }
        } else {
            Err("Unknown field: "@ + key)
        }
    }
}

/// The draft after the entries `parts`, read in order; the first error ends
/// the reading.
pub open spec fn read_entries(parts: Seq<Seq<char>>, draft: FieldDraft) -> Result<
    FieldDraft,
    Seq<char>,
>
    decreases parts.len(),
{
    if parts.len() == 0 {
        Ok(draft)
    } else {
        match read_entry(parts[0], draft) {
            Ok(next) => read_entries(parts.skip(1), next),
            Err(message) => Err(message),
        }
    }
}

/// The field that a draft stands for.
pub open spec fn finished(draft: FieldDraft) -> Result<Option<FieldView>, Seq<char>> {
    match draft.decl {
        Some((field_type, field_name)) => Ok(
            Some(
                FieldView {
                    field_type,
                    field_name,
                    offset: draft.offset,
                    size: draft.size,
                    signed: draft.signed,
                    array_type: array_kind(field_type, draft.size),
                },
            ),
        ),
        None => Err("Missing field type"@),
    }
}

/// The message for a field line that does not have four entries.
pub open spec fn entry_count_message(count: nat) -> Seq<char> {
    "Invalid tracepoint field format (expected 4 fields, got "@ + decimal_digits(count) + ")"@
}

/// The field that a line of the `format:` block describes, or the message
/// of the error that it gives. The line's first character, a TAB in a
/// format file, is dropped; the rest is four entries separated by TABs.
pub open spec fn parsed_field(line: Seq<char>) -> Result<Option<FieldView>, Seq<char>> {
    if line.len() == 0 {
        Ok(None)
    } else {
        let parts = split(line.skip(1), '\t');
        if parts.len() != 4 {
            Err(entry_count_message(parts.len()))
        } else {
            match read_entries(parts, empty_draft()) {
                Ok(draft) => finished(draft),
                Err(message) => Err(message),
            }
        }
    }
}

/// Where the reading of a format file stands: what was read so far, and
/// whether the last key was `format`, so that lines led by a TAB are fields.
pub ghost struct Reading {
    pub in_fields: bool,
    pub format: FormatView,
}

/// The reading before the first line.
pub open spec fn start_of_file() -> Reading {
    Reading {
        in_fields: false,
        format: FormatView {
            name: Seq::empty(),
            id: 0,
            print_fmt: Seq::empty(),
            fields: Seq::empty(),
        },
    }
}

/// The reading after a `key: value` line, or the message of the error that
/// the line gives. One space after the colon is not part of the value.
pub open spec fn read_key_line(line: Seq<char>, format: FormatView) -> Result<Reading, Seq<char>> {
    let colon = first_index(line, ':');
    if !(0 <= colon < line.len()) {
        Err("Tracepoint format line does not contain a colon"@)
    } else {
        let key = line.take(colon);
        let value = strip_first(line.skip(colon + 1), ' ');
        if key == "name"@ {
            Ok(
                Reading {
                    in_fields: false,
                    format: FormatView {
                        name: format.name + value,
                        id: format.id,
                        print_fmt: format.print_fmt,
                        fields: format.fields,
                    },
                },
            )
        } else if key == "ID"@ {
            match parsed_u32(value) {
                Some(id) => Ok(
                    Reading {
                        in_fields: false,
                        format: FormatView {
                            name: format.name,
                            id,
                            print_fmt: format.print_fmt,
                            fields: format.fields,
                        },
                    },
                ),
                None => Err("Invalid ID value"@),
            }
        } else if key == "format"@ {
            Ok(Reading { in_fields: true, format })
        } else if key == "print fmt"@ {
            Ok(
                Reading {
                    in_fields: false,
                    format: FormatView {
                        name: format.name,
                        id: format.id,
                        print_fmt: format.print_fmt + value,
                        fields: format.fields,
                    },
                },
            )
        } else {
            Err("Unknown tracepoint key: "@ + key)
        }
    }
}

/// The reading after one more line. Empty lines change nothing. After the
/// key `format`, a line led by a TAB adds a field; any other line is a
/// `key: value` line.
pub open spec fn read_line(line: Seq<char>, at: Reading) -> Result<Reading, Seq<char>> {
    if line.len() == 0 {
        Ok(at)
    } else if at.in_fields && line[0] == '\t' {
        match parsed_field(line) {
            Ok(Some(field)) => Ok(
                Reading {
                    in_fields: true,
                    format: FormatView {
                        name: at.format.name,
                        id: at.format.id,
                        print_fmt: at.format.print_fmt,
                        fields: at.format.fields.push(field),
                    },
                },
            ),
            Ok(None) => Ok(at),
            Err(message) => Err(message),
        }
    } else {
        read_key_line(line, at.format)
    }
}

/// The reading after the lines `lines`, read in order; the first error ends
/// the reading.
pub open spec fn read_lines(lines: Seq<Seq<char>>, at: Reading) -> Result<Reading, Seq<char>>
    decreases lines.len(),
{
    if lines.len() == 0 {
        Ok(at)
    } else {
        match read_line(lines[0], at) {
            Ok(next) => read_lines(lines.skip(1), next),
            Err(message) => Err(message),
        }
    }
}

/// The format that the text of a format file describes, or the message of
/// the error that it gives.
pub open spec fn parsed_format(text: Seq<char>) -> Result<FormatView, Seq<char>> {
    match read_lines(split(text, '\n'), start_of_file()) {
        Ok(at) => Ok(at.format),
        Err(message) => Err(message),
    }
}

/// A parse error with the given message.
fn parse_error(message: &str) -> (e: TracepointFormatError)
    ensures
        e matches TracepointFormatError::ParseError(m) && m@ == message@,
{
    TracepointFormatError::ParseError(message.to_owned())
}

/// A parse error whose message is `prefix` followed by `rest`.
fn parse_error_about(prefix: &str, rest: &[char]) -> (e: TracepointFormatError)
    ensures
        e matches TracepointFormatError::ParseError(m) && m@ == prefix@ + rest@,
{
    let mut message = prefix.to_owned();
    push_chars(&mut message, rest);
    TracepointFormatError::ParseError(message)
}

/// Whether `t` ends in a bracketed, non-empty run of decimal digits.
fn has_length_suffix(t: &[char]) -> (r: bool)
    ensures
        r == ends_with_length(t@),
{
    let n = t.len();
    if n < 3 || t[n - 1] != ']' {
        return false;
    }
    let mut i: usize = n - 1;
    while i > 0 && '0' <= t[i - 1] && t[i - 1] <= '9'
        invariant
            i <= n - 1,
            n == t@.len(),
            forall|j: int| i <= j < n - 1 ==> is_digit(#[trigger] t@[j]),
        decreases i,
    {
        i -= 1;
    }
    // `i` is where the run of digits before the closing bracket begins.
    if i == n - 1 || i == 0 {
        proof {
            assert forall|k: int|
                1 <= k && k + 2 <= t@.len() && t@[t@.len() - 1] == ']' && #[trigger] t@[t@.len() - 2
                    - k] == '[' implies !(forall|j: int|
                t@.len() - 1 - k <= j < t@.len() - 1 ==> is_digit(#[trigger] t@[j])) by {
                if i == n - 1 {
                    assert(!is_digit(t@[n - 2]));
                } else {
                    assert(!is_digit(t@[n - 2 - k]));
                }
            }
        }
        return false;
    }
    if t[i - 1] == '[' {
        proof {
            let k = n - 1 - i;
            assert(t@[t@.len() - 2 - k] == '[');
        }
        true
    } else {
        proof {
            assert forall|k: int|
                1 <= k && k + 2 <= t@.len() && t@[t@.len() - 1] == ']' && #[trigger] t@[t@.len() - 2
                    - k] == '[' implies !(forall|j: int|
                t@.len() - 1 - k <= j < t@.len() - 1 ==> is_digit(#[trigger] t@[j])) by {
                let b = n - 2 - k;
                if b < i - 1 {
                    assert(!is_digit(t@[i - 1]));
                } else if b > i - 1 {
                    assert(!is_digit(t@[b]));
                }
            }
        }
        false
    }
}

/// The array kind that a field's type and size stand for.
fn derive_array_kind(field_type: &[char], size: u32) -> (kind: TracepointArrayType)
    ensures
        kind == array_kind(field_type@, size),
{
    if starts_with_text(field_type, "__data_loc") && size == 4 {
        TracepointArrayType::DataLoc4
    } else if ends_with_text(field_type, "[]") && size == 0 {
        TracepointArrayType::Trailing
    } else if has_length_suffix(field_type) {
        TracepointArrayType::Fixed
    } else {
        TracepointArrayType::NotArray
    }
}

/// What has been read of a field line so far.
struct Draft {
    decl: Option<(String, String)>,
    offset: u32,
    size: u32,
    signed: bool,
}

impl View for Draft {
    type V = FieldDraft;

    closed spec fn view(&self) -> FieldDraft {
        FieldDraft {
            decl: match self.decl {
                Some((field_type, field_name)) => Some((field_type@, field_name@)),
                None => None,
            },
            offset: self.offset,
            size: self.size,
            signed: self.signed,
        }
    }
}

/// Type and name of a declaration such as `char next_comm[16]`.
fn declaration(value: &[char]) -> (r: Option<(String, String)>)
    ensures
        match r {
            Some((field_type, field_name)) => declared(value@) == Some(
                (field_type@, field_name@),
            ),
            None => declared(value@) is None,
        },
{
    let space = match rfind(value, ' ') {
        Some(space) => space,
        None => {
            return None;
        },
    };
    assert(space < value.len());
    let ftype = slice_subrange(value, 0, space);
    let fname = slice_subrange(value, space + 1, value.len());
    let mut field_type = string_of(ftype);
    // If the field name ends with a bracketed suffix, move that to the type.
    match rfind(fname, '[') {
        Some(bracket) => {
            if fname[fname.len() - 1] == ']' {
                push_chars(&mut field_type, slice_subrange(fname, bracket, fname.len()));
                let field_name = string_of(slice_subrange(fname, 0, bracket));
                Some((field_type, field_name))
            } else {
                Some((field_type, string_of(fname)))
            }
        },
        None => Some((field_type, string_of(fname))),
    }
}

/// Reads one `key:value;` entry of a field line into `draft`.
fn read_one_entry(part: &[char], draft: Draft) -> (r: Result<Draft, TracepointFormatError>)
    ensures
        match r {
            Ok(next) => read_entry(part@, draft@) == Ok::<FieldDraft, Seq<char>>(next@),
            Err(e) => e matches TracepointFormatError::ParseError(m) && read_entry(part@, draft@)
                == Err::<FieldDraft, Seq<char>>(m@),
        },
{
    let n = part.len();
    let entry = if n > 0 && part[n - 1] == ';' {
        slice_subrange(part, 0, n - 1)
    } else {
        part
    };
    assert(entry@ == strip_last(part@, ';'));
    let colon = match find(entry, ':') {
        Some(colon) => colon,
        None => {
            return Err(parse_error("Field definition does not contain a colon"));
        },
    };
    let key = slice_subrange(entry, 0, colon);
    let value = slice_subrange(entry, colon + 1, entry.len());
    let mut draft = draft;
    if same_text(key, "field") {
        match declaration(value) {
            Some(decl) => {
                draft.decl = Some(decl);
            },
            None => {
                return Err(parse_error("Field definition does not contain a space"));
            },
        }
    } else if same_text(key, "offset") {
        match parse_u32(value) {
            Some(v) => {
                draft.offset = v;
            },
            None => {
                return Err(parse_error("Invalid offset value"));
            },
        }
    } else if same_text(key, "size") {
        match parse_u32(value) {
            Some(v) => {
                draft.size = v;
            },
            None => {
                return Err(parse_error("Invalid size value"));
            },
        }
    } else if same_text(key, "signed") {
        if same_text(value, "1") {
            draft.signed = true;
        } else if same_text(value, "0") {
            draft.signed = false;
        } else {
            return Err(parse_error("Invalid signed value"));
        }
    } else {
        return Err(parse_error_about("Unknown field: ", key));
    }
    Ok(draft)
}

impl TracepointField {
    /// Reads one line of the `format:` block of a format file.
    pub fn parse(line: &str) -> (r: Result<Option<Self>, TracepointFormatError>)
        ensures
            match r {
                Ok(Some(field)) => parsed_field(line@) == Ok::<Option<FieldView>, Seq<char>>(
                    Some(field@),
                ) && field@.wf(),
                Ok(None) => parsed_field(line@) == Ok::<Option<FieldView>, Seq<char>>(None),
                Err(e) => e matches TracepointFormatError::ParseError(m) && parsed_field(line@)
                    == Err::<Option<FieldView>, Seq<char>>(m@),
            },
    {
        let chars = chars_of(line);
        Self::parse_chars(chars.as_slice())
    }

    /// Reads one line of the `format:` block, given as characters.
    pub fn parse_chars(line: &[char]) -> (r: Result<Option<Self>, TracepointFormatError>)
        ensures
            match r {
                Ok(Some(field)) => parsed_field(line@) == Ok::<Option<FieldView>, Seq<char>>(
                    Some(field@),
                ) && field@.wf(),
                Ok(None) => parsed_field(line@) == Ok::<Option<FieldView>, Seq<char>>(None),
                Err(e) => e matches TracepointFormatError::ParseError(m) && parsed_field(line@)
                    == Err::<Option<FieldView>, Seq<char>>(m@),
            },
    {
        if line.len() == 0 {
            return Ok(None);
        }
        let rest = slice_subrange(line, 1, line.len());
        assert(rest@ == line@.skip(1));
        let parts = split_at_each(rest, '\t');
        let ghost all = split(rest@, '\t');
        if parts.len() != 4 {
            let mut message = "Invalid tracepoint field format (expected 4 fields, got ".to_owned();
            push_decimal(&mut message, parts.len() as u64);
            message.append(")");
            return Err(TracepointFormatError::ParseError(message));
        }
        let mut draft = Draft { decl: None, offset: 0, size: 0, signed: false };
        let mut k: usize = 0;
        assert(all.skip(0) =~= all);
        while k < 4
            invariant
                k <= 4,
                parts@.len() == 4,
                all.len() == 4,
                line@.len() > 0,
                all == split(line@.skip(1), '\t'),
                forall|i: int| 0 <= i < 4 ==> (#[trigger] parts@[i])@ == all[i],
                read_entries(all.skip(k as int), draft@) == read_entries(all, empty_draft()),
            decreases 4 - k,
        {
            let ghost before = draft@;
            proof {
                assert(all.skip(k as int)[0] == all[k as int]);
                assert(all.skip(k as int).skip(1) =~= all.skip(k + 1));
                assert(read_entries(all.skip(k as int), before) == match read_entry(
                    all[k as int],
                    before,
                ) {
                    Ok(next) => read_entries(all.skip(k + 1), next),
                    Err(message) => Err(message),
                });
            }
            match read_one_entry(parts[k], draft) {
                Ok(next) => {
                    draft = next;
                },
                Err(e) => {
                    return Err(e);
                },
            }
            k += 1;
        }
        assert(all.skip(4).len() == 0);
        match draft.decl {
            Some((field_type, field_name)) => {
                let type_chars = chars_of(field_type.as_str());
                let array_type = derive_array_kind(type_chars.as_slice(), draft.size);
                Ok(
                    Some(
                        TracepointField {
                            field_type,
                            field_name,
                            offset: draft.offset,
                            size: draft.size,
                            signed: draft.signed,
                            array_type,
                        },
                    ),
                )
            },
            None => Err(parse_error("Missing field type")),
        }
    }
}

impl TracepointFormat {
    /// Reads the text of a format file.
    pub fn parse(lines: &str) -> (r: Result<Self, TracepointFormatError>)
        ensures
            match r {
                Ok(format) => parsed_format(lines@) == Ok::<FormatView, Seq<char>>(format@)
                    && forall|i: int|
                    0 <= i < format@.fields.len() ==> (#[trigger] format@.fields[i]).wf(),
                Err(e) => e matches TracepointFormatError::ParseError(m) && parsed_format(lines@)
                    == Err::<FormatView, Seq<char>>(m@),
            },
    {
        let chars = chars_of(lines);
        let all_lines = split_at_each(chars.as_slice(), '\n');
        let ghost all = split(lines@, '\n');
        let mut in_fields = false;
        let mut fields: Vec<TracepointField> = Vec::new();
        let mut tp_name = String::new();
        let mut id: u32 = 0;
        let mut print_fmt = String::new();
        let mut k: usize = 0;
        proof {
            assert(all.skip(0) =~= all);
            assert(field_views(fields@) =~= Seq::<FieldView>::empty());
        }
        while k < all_lines.len()
            invariant
                k <= all_lines@.len(),
                all == split(lines@, '\n'),
                all.len() == all_lines@.len(),
                forall|i: int| 0 <= i < all.len() ==> (#[trigger] all_lines@[i])@ == all[i],
                forall|i: int| 0 <= i < fields@.len() ==> (#[trigger] fields@[i])@.wf(),
                read_lines(
                    all.skip(k as int),
                    Reading {
                        in_fields,
                        format: FormatView {
                            name: tp_name@,
                            id,
                            print_fmt: print_fmt@,
                            fields: field_views(fields@),
                        },
                    },
                ) == read_lines(all, start_of_file()),
            decreases all_lines@.len() - k,
        {
            let line = all_lines[k];
            let ghost at = Reading {
                in_fields,
                format: FormatView {
                    name: tp_name@,
                    id,
                    print_fmt: print_fmt@,
                    fields: field_views(fields@),
                },
            };
            proof {
                assert(all.skip(k as int)[0] == all[k as int]);
                assert(all.skip(k as int).skip(1) =~= all.skip(k + 1));
                assert(read_lines(all.skip(k as int), at) == match read_line(all[k as int], at) {
                    Ok(next) => read_lines(all.skip(k + 1), next),
                    Err(message) => Err(message),
                });
            }
            k += 1;
            if line.len() == 0 {
                continue ;
            }
            if in_fields {
                if line[0] == '\t' {
                    match TracepointField::parse_chars(line) {
                        Ok(Some(field)) => {
                            assert(field_views(fields@.push(field)) =~= field_views(fields@).push(
                                field@,
                            ));
                            fields.push(field);
                        },
                        Ok(None) => {},
                        Err(e) => {
                            return Err(e);
                        },
                    }
                    continue ;
                }
                in_fields = false;
            }
            let colon = match find(line, ':') {
                Some(colon) => colon,
                None => {
                    return Err(parse_error("Tracepoint format line does not contain a colon"));
                },
            };
            let key = slice_subrange(line, 0, colon);
            let after = slice_subrange(line, colon + 1, line.len());
            let value = if after.len() > 0 && after[0] == ' ' {
                slice_subrange(after, 1, after.len())
            } else {
                after
            };
            assert(value@ == strip_first(line@.skip(colon + 1), ' '));
            if same_text(key, "name") {
                push_chars(&mut tp_name, value);
            } else if same_text(key, "ID") {
                match parse_u32(value) {
                    Some(v) => {
                        id = v;
                    },
                    None => {
                        return Err(parse_error("Invalid ID value"));
                    },
                }
            } else if same_text(key, "format") {
                in_fields = true;
            } else if same_text(key, "print fmt") {
                push_chars(&mut print_fmt, value);
            } else {
                return Err(parse_error_about("Unknown tracepoint key: ", key));
            }
        }
        assert(all.skip(k as int).len() == 0);
        Ok(TracepointFormat { name: tp_name, id, print_fmt, fields })
    }
}

} // verus!
