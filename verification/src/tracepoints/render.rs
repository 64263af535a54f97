//! The text of a format file that describes a given format, and the proof
//! that reading that text gives the format back.

use crate::text::{
    decimal_digits, first_index, free_of, is_digit, lemma_decimal_digits_value,
    lemma_first_index_in_middle, lemma_last_index_absent, lemma_last_index_in_middle,
    lemma_parse_decimal, lemma_split_first, lemma_split_one, split,
};
use crate::tracepoints::format::{
    array_kind, declared, empty_draft, finished, parsed_field, parsed_format, read_entries,
    read_entry, read_key_line, read_line, read_lines, start_of_file, strip_first, strip_last,
    FieldDraft, FieldView, FormatView, Reading,
};
use vstd::prelude::*;

verus! {

/// One `key:value;` entry of a field line.
pub open spec fn entry(key: Seq<char>, value: Seq<char>) -> Seq<char> {
    key + seq![':'] + value + seq![';']
}

/// The declaration of a field: its type, a space, its name.
pub open spec fn declaration_of(field: FieldView) -> Seq<char> {
    field.field_type + seq![' '] + field.field_name
}

/// The digit that says whether a field is signed.
pub open spec fn signed_flag(signed: bool) -> Seq<char> {
    if signed {
        "1"@
    } else {
        "0"@
    }
}

/// The line of the `format:` block that describes `field`.
pub open spec fn field_line(field: FieldView) -> Seq<char> {
    seq!['\t'] + (entry("field"@, declaration_of(field)) + seq!['\t'] + (entry(
        "offset"@,
        decimal_digits(field.offset as nat),
    ) + seq!['\t'] + (entry("size"@, decimal_digits(field.size as nat)) + seq!['\t'] + entry(
        "signed"@,
        signed_flag(field.signed),
    ))))
}

/// A field that a line can describe: its type holds no TAB, its name holds
/// no TAB or space and does not end in a bracketed suffix, and its array
/// kind is the one that its type and size stand for.
pub open spec fn describable(field: FieldView) -> bool {
    &&& free_of(field.field_type, '\t')
    &&& free_of(field.field_name, '\t')
    &&& free_of(field.field_name, ' ')
    &&& free_of(field.field_name, '[') || field.field_name.last() != ']'
    &&& field.array_type == array_kind(field.field_type, field.size)
}

/// What the four keys of a field line are made of.
proof fn lemma_keys()
    ensures
        "field"@ == seq!['f', 'i', 'e', 'l', 'd'],
        "offset"@ == seq!['o', 'f', 'f', 's', 'e', 't'],
        "size"@ == seq!['s', 'i', 'z', 'e'],
        "signed"@ == seq!['s', 'i', 'g', 'n', 'e', 'd'],
        "1"@ == seq!['1'],
        "0"@ == seq!['0'],
{
    reveal_strlit("field");
    reveal_strlit("offset");
    reveal_strlit("size");
    reveal_strlit("signed");
    reveal_strlit("1");
    reveal_strlit("0");
    assert("field"@ =~= seq!['f', 'i', 'e', 'l', 'd']);
    assert("offset"@ =~= seq!['o', 'f', 'f', 's', 'e', 't']);
    assert("size"@ =~= seq!['s', 'i', 'z', 'e']);
    assert("signed"@ =~= seq!['s', 'i', 'g', 'n', 'e', 'd']);
    assert("1"@ =~= seq!['1']);
    assert("0"@ =~= seq!['0']);
}

/// An entry whose key holds no colon is read under that key, with its
/// value.
proof fn lemma_entry_parts(key: Seq<char>, value: Seq<char>)
    requires
        free_of(key, ':'),
    ensures
        ({
            let e = strip_last(entry(key, value), ';');
            let colon = first_index(e, ':');
            &&& 0 <= colon < e.len()
            &&& e.take(colon) == key
            &&& e.skip(colon + 1) == value
        }),
{
    let whole = entry(key, value);
    assert(whole.last() == ';');
    assert(whole.drop_last() =~= key + seq![':'] + value);
    lemma_first_index_in_middle(key, ':', value);
}

/// An entry holds a TAB only where its key or value does.
proof fn lemma_entry_free(key: Seq<char>, value: Seq<char>)
    requires
        free_of(key, '\t'),
        free_of(value, '\t'),
    ensures
        free_of(entry(key, value), '\t'),
{
    let e = entry(key, value);
    assert forall|j: int| 0 <= j < e.len() implies e[j] != '\t' by {
        if j < key.len() {
            assert(e[j] == key[j]);
        } else if j == key.len() {
        } else if j < key.len() + 1 + value.len() {
            assert(e[j] == value[j - key.len() - 1]);
        } else {
        }
    }
}

/// Decimal digits hold nothing but digits.
proof fn lemma_digits_free(n: nat, c: char)
    requires
        !is_digit(c),
    ensures
        free_of(decimal_digits(n), c),
{
    lemma_decimal_digits_value(n);
    assert forall|j: int| 0 <= j < decimal_digits(n).len() implies decimal_digits(n)[j] != c by {
        assert(is_digit(decimal_digits(n)[j]));
    }
}

/// The pieces of the line that describes a field are its four entries.
proof fn lemma_field_pieces(field: FieldView)
    requires
        describable(field),
    ensures
        split(field_line(field).skip(1), '\t') == seq![
            entry("field"@, declaration_of(field)),
            entry("offset"@, decimal_digits(field.offset as nat)),
            entry("size"@, decimal_digits(field.size as nat)),
            entry("signed"@, signed_flag(field.signed)),
        ],
{
    lemma_keys();
    let e0 = entry("field"@, declaration_of(field));
    let e1 = entry("offset"@, decimal_digits(field.offset as nat));
    let e2 = entry("size"@, decimal_digits(field.size as nat));
    let e3 = entry("signed"@, signed_flag(field.signed));
    let rest = e0 + seq!['\t'] + (e1 + seq!['\t'] + (e2 + seq!['\t'] + e3));
    assert(field_line(field).skip(1) =~= rest);
    assert(free_of(declaration_of(field), '\t')) by {
        let d = declaration_of(field);
        assert forall|j: int| 0 <= j < d.len() implies d[j] != '\t' by {
            if j < field.field_type.len() {
                assert(d[j] == field.field_type[j]);
            } else if j > field.field_type.len() {
                assert(d[j] == field.field_name[j - field.field_type.len() - 1]);
            }
        }
    }
    lemma_digits_free(field.offset as nat, '\t');
    lemma_digits_free(field.size as nat, '\t');
    lemma_entry_free("field"@, declaration_of(field));
    lemma_entry_free("offset"@, decimal_digits(field.offset as nat));
    lemma_entry_free("size"@, decimal_digits(field.size as nat));
    lemma_entry_free("signed"@, signed_flag(field.signed));
    lemma_split_one(e3, '\t');
    lemma_split_first(e2, '\t', e3);
    lemma_split_first(e1, '\t', e2 + seq!['\t'] + e3);
    lemma_split_first(e0, '\t', e1 + seq!['\t'] + (e2 + seq!['\t'] + e3));
    assert(split(rest, '\t') =~= seq![e0, e1, e2, e3]);
}

/// The entry that declares a field sets the draft's type and name.
proof fn lemma_read_declaration(field: FieldView, draft: FieldDraft)
    requires
        describable(field),
    ensures
        read_entry(entry("field"@, declaration_of(field)), draft) == Ok::<FieldDraft, Seq<char>>(
            FieldDraft {
                decl: Some((field.field_type, field.field_name)),
                offset: draft.offset,
                size: draft.size,
                signed: draft.signed,
            },
        ),
{
    lemma_keys();
    lemma_entry_parts("field"@, declaration_of(field));
    lemma_last_index_in_middle(field.field_type, ' ', field.field_name);
    if free_of(field.field_name, '[') {
        lemma_last_index_absent(field.field_name, '[');
    }
    assert(declared(declaration_of(field)) == Some((field.field_type, field.field_name)));
}

/// The entry that gives an offset sets the draft's offset.
proof fn lemma_read_offset(offset: u32, draft: FieldDraft)
    ensures
        read_entry(entry("offset"@, decimal_digits(offset as nat)), draft) == Ok::<
            FieldDraft,
            Seq<char>,
        >(FieldDraft { decl: draft.decl, offset, size: draft.size, signed: draft.signed }),
{
    lemma_keys();
    lemma_entry_parts("offset"@, decimal_digits(offset as nat));
    lemma_parse_decimal(offset as nat);
    assert("offset"@ != "field"@);
}

/// The entry that gives a size sets the draft's size.
proof fn lemma_read_size(size: u32, draft: FieldDraft)
    ensures
        read_entry(entry("size"@, decimal_digits(size as nat)), draft) == Ok::<
            FieldDraft,
            Seq<char>,
        >(FieldDraft { decl: draft.decl, offset: draft.offset, size, signed: draft.signed }),
{
    lemma_keys();
    lemma_entry_parts("size"@, decimal_digits(size as nat));
    lemma_parse_decimal(size as nat);
    assert("size"@ != "field"@);
    assert("size"@ != "offset"@);
}

/// The entry that says whether a field is signed sets the draft's
/// signedness.
proof fn lemma_read_signed(signed: bool, draft: FieldDraft)
    ensures
        read_entry(entry("signed"@, signed_flag(signed)), draft) == Ok::<FieldDraft, Seq<char>>(
            FieldDraft { decl: draft.decl, offset: draft.offset, size: draft.size, signed },
        ),
{
    lemma_keys();
    lemma_entry_parts("signed"@, signed_flag(signed));
    assert("signed"@ != "field"@);
    assert("signed"@ != "offset"@);
    assert("signed"@ != "size"@);
    assert("0"@ != "1"@);
}

/// Four entries that are each read without error are read in order.
proof fn lemma_read_four(
    e0: Seq<char>,
    e1: Seq<char>,
    e2: Seq<char>,
    e3: Seq<char>,
    d0: FieldDraft,
    d1: FieldDraft,
    d2: FieldDraft,
    d3: FieldDraft,
    d4: FieldDraft,
)
    requires
        read_entry(e0, d0) == Ok::<FieldDraft, Seq<char>>(d1),
        read_entry(e1, d1) == Ok::<FieldDraft, Seq<char>>(d2),
        read_entry(e2, d2) == Ok::<FieldDraft, Seq<char>>(d3),
        read_entry(e3, d3) == Ok::<FieldDraft, Seq<char>>(d4),
    ensures
        read_entries(seq![e0, e1, e2, e3], d0) == Ok::<FieldDraft, Seq<char>>(d4),
{
    let parts = seq![e0, e1, e2, e3];
    assert(parts.skip(1) =~= seq![e1, e2, e3]);
    assert(seq![e1, e2, e3].skip(1) =~= seq![e2, e3]);
    assert(seq![e2, e3].skip(1) =~= seq![e3]);
    assert(seq![e3].skip(1) =~= Seq::<Seq<char>>::empty());
    assert(read_entries(Seq::<Seq<char>>::empty(), d4) == Ok::<FieldDraft, Seq<char>>(d4));
    assert(read_entries(seq![e3], d3) == Ok::<FieldDraft, Seq<char>>(d4));
    assert(read_entries(seq![e2, e3], d2) == Ok::<FieldDraft, Seq<char>>(d4));
    assert(read_entries(seq![e1, e2, e3], d1) == Ok::<FieldDraft, Seq<char>>(d4));
}

/// Reading the line that describes a field gives the field back: its type
/// and name, offset, size, signedness and array kind.
pub proof fn lemma_field_round_trip(field: FieldView)
    requires
        describable(field),
    ensures
        parsed_field(field_line(field)) == Ok::<Option<FieldView>, Seq<char>>(Some(field)),
{
    let e0 = entry("field"@, declaration_of(field));
    let e1 = entry("offset"@, decimal_digits(field.offset as nat));
    let e2 = entry("size"@, decimal_digits(field.size as nat));
    let e3 = entry("signed"@, signed_flag(field.signed));
    let d0 = empty_draft();
    let d1 = FieldDraft {
        decl: Some((field.field_type, field.field_name)),
        offset: 0,
        size: 0,
        signed: false,
    };
    let d2 = FieldDraft { decl: d1.decl, offset: field.offset, size: 0, signed: false };
    let d3 = FieldDraft { decl: d1.decl, offset: field.offset, size: field.size, signed: false };
    let d4 = FieldDraft {
        decl: d1.decl,
        offset: field.offset,
        size: field.size,
        signed: field.signed,
    };
    lemma_field_pieces(field);
    lemma_read_declaration(field, d0);
    lemma_read_offset(field.offset, d1);
    lemma_read_size(field.size, d2);
    lemma_read_signed(field.signed, d3);
    lemma_read_four(e0, e1, e2, e3, d0, d1, d2, d3, d4);
    assert(field_line(field).len() > 0);
    assert(finished(d4) == Ok::<Option<FieldView>, Seq<char>>(Some(field)));
}

/// The lines `lines`, with a line feed between each two.
pub open spec fn join_lines(lines: Seq<Seq<char>>) -> Seq<char>
    decreases lines.len(),
{
    if lines.len() == 0 {
        Seq::empty()
    } else if lines.len() == 1 {
        lines[0]
    } else {
        lines[0] + seq!['\n'] + join_lines(lines.skip(1))
    }
}

/// A `key: value` line.
pub open spec fn key_line(key: Seq<char>, value: Seq<char>) -> Seq<char> {
    key + seq![':'] + (seq![' '] + value)
}

/// The lines that describe `fields`, in order.
pub open spec fn field_lines(fields: Seq<FieldView>) -> Seq<Seq<char>> {
    Seq::new(fields.len(), |i: int| field_line(fields[i]))
}

/// The lines of the format file that describes `format`: name and ID, the
/// `format:` block with one line for each field, an empty line, the print
/// format, and the empty line after the last line feed.
pub open spec fn format_lines(format: FormatView) -> Seq<Seq<char>> {
    seq![
        key_line("name"@, format.name),
        key_line("ID"@, decimal_digits(format.id as nat)),
        "format"@ + seq![':'],
    ] + field_lines(format.fields) + seq![
        Seq::empty(),
        key_line("print fmt"@, format.print_fmt),
        Seq::empty(),
    ]
}

/// The text of the format file that describes `format`.
pub open spec fn format_text(format: FormatView) -> Seq<char> {
    join_lines(format_lines(format))
}

/// A format that a file can describe: its name and print format hold no
/// line feed, and each field can be described by a line and holds no line
/// feed in its type or name.
pub open spec fn writable(format: FormatView) -> bool {
    &&& free_of(format.name, '\n')
    &&& free_of(format.print_fmt, '\n')
    &&& forall|i: int|
        0 <= i < format.fields.len() ==> {
            &&& describable(#[trigger] format.fields[i])
            &&& free_of(format.fields[i].field_type, '\n')
            &&& free_of(format.fields[i].field_name, '\n')
        }
}

/// Two texts that hold no `c` hold none when put together.
proof fn lemma_free_concat(a: Seq<char>, b: Seq<char>, c: char)
    requires
        free_of(a, c),
        free_of(b, c),
    ensures
        free_of(a + b, c),
{
    assert forall|j: int| 0 <= j < (a + b).len() implies (a + b)[j] != c by {
        if j < a.len() {
            assert((a + b)[j] == a[j]);
        } else {
            assert((a + b)[j] == b[j - a.len()]);
        }
    }
}

/// Lines that hold no line feed are the pieces of their joined text.
proof fn lemma_split_join(lines: Seq<Seq<char>>)
    requires
        lines.len() >= 1,
        forall|i: int| 0 <= i < lines.len() ==> free_of(#[trigger] lines[i], '\n'),
    ensures
        split(join_lines(lines), '\n') == lines,
    decreases lines.len(),
{
    if lines.len() == 1 {
        lemma_split_one(lines[0], '\n');
        assert(seq![lines[0]] =~= lines);
    } else {
        let rest = lines.skip(1);
        assert forall|i: int| 0 <= i < rest.len() implies free_of(#[trigger] rest[i], '\n') by {
            assert(rest[i] == lines[i + 1]);
        }
        lemma_split_join(rest);
        lemma_split_first(lines[0], '\n', join_lines(rest));
        assert(seq![lines[0]] + rest =~= lines);
    }
}

/// What the keys of a format file are made of.
proof fn lemma_file_keys()
    ensures
        "name"@ == seq!['n', 'a', 'm', 'e'],
        "ID"@ == seq!['I', 'D'],
        "format"@ == seq!['f', 'o', 'r', 'm', 'a', 't'],
        "print fmt"@ == seq!['p', 'r', 'i', 'n', 't', ' ', 'f', 'm', 't'],
{
    reveal_strlit("name");
    reveal_strlit("ID");
    reveal_strlit("format");
    reveal_strlit("print fmt");
    assert("name"@ =~= seq!['n', 'a', 'm', 'e']);
    assert("ID"@ =~= seq!['I', 'D']);
    assert("format"@ =~= seq!['f', 'o', 'r', 'm', 'a', 't']);
    assert("print fmt"@ =~= seq!['p', 'r', 'i', 'n', 't', ' ', 'f', 'm', 't']);
}

/// A `key: value` line whose key holds no colon is read under that key,
/// with its value.
proof fn lemma_key_line_parts(key: Seq<char>, value: Seq<char>)
    requires
        free_of(key, ':'),
    ensures
        ({
            let line = key_line(key, value);
            let colon = first_index(line, ':');
            &&& 0 <= colon < line.len()
            &&& line.take(colon) == key
            &&& strip_first(line.skip(colon + 1), ' ') == value
        }),
{
    lemma_first_index_in_middle(key, ':', seq![' '] + value);
    assert((seq![' '] + value).skip(1) =~= value);
}

/// The line that describes a field holds no line feed.
proof fn lemma_field_line_free(field: FieldView)
    requires
        free_of(field.field_type, '\n'),
        free_of(field.field_name, '\n'),
    ensures
        free_of(field_line(field), '\n'),
        field_line(field).len() > 0,
        field_line(field)[0] == '\t',
{
    lemma_keys();
    lemma_digits_free(field.offset as nat, '\n');
    lemma_digits_free(field.size as nat, '\n');
    let nl = '\n';
    let tab = seq!['\t'];
    let colon = seq![':'];
    let semi = seq![';'];
    let space = seq![' '];
    let e0 = entry("field"@, declaration_of(field));
    let e1 = entry("offset"@, decimal_digits(field.offset as nat));
    let e2 = entry("size"@, decimal_digits(field.size as nat));
    let e3 = entry("signed"@, signed_flag(field.signed));
    assert(free_of(e0, nl)) by {
        lemma_free_concat(field.field_type, space, nl);
        lemma_free_concat(field.field_type + space, field.field_name, nl);
        lemma_free_concat("field"@, colon, nl);
        lemma_free_concat("field"@ + colon, declaration_of(field), nl);
        lemma_free_concat("field"@ + colon + declaration_of(field), semi, nl);
    }
    assert(free_of(e1, nl)) by {
        lemma_free_concat("offset"@, colon, nl);
        lemma_free_concat("offset"@ + colon, decimal_digits(field.offset as nat), nl);
        lemma_free_concat("offset"@ + colon + decimal_digits(field.offset as nat), semi, nl);
    }
    assert(free_of(e2, nl)) by {
        lemma_free_concat("size"@, colon, nl);
        lemma_free_concat("size"@ + colon, decimal_digits(field.size as nat), nl);
        lemma_free_concat("size"@ + colon + decimal_digits(field.size as nat), semi, nl);
    }
    assert(free_of(e3, nl)) by {
        lemma_free_concat("signed"@, colon, nl);
        lemma_free_concat("signed"@ + colon, signed_flag(field.signed), nl);
        lemma_free_concat("signed"@ + colon + signed_flag(field.signed), semi, nl);
    }
    lemma_free_concat(e2, tab, nl);
    lemma_free_concat(e2 + tab, e3, nl);
    lemma_free_concat(e1, tab, nl);
    lemma_free_concat(e1 + tab, e2 + tab + e3, nl);
    lemma_free_concat(e0, tab, nl);
    lemma_free_concat(e0 + tab, e1 + tab + (e2 + tab + e3), nl);
    lemma_free_concat(tab, e0 + tab + (e1 + tab + (e2 + tab + e3)), nl);
}

/// Lines read one after the other are read as one run of lines.
proof fn lemma_read_lines_concat(a: Seq<Seq<char>>, b: Seq<Seq<char>>, at: Reading)
    ensures
        read_lines(a + b, at) == match read_lines(a, at) {
            Ok(next) => read_lines(b, next),
            Err(message) => Err(message),
        },
    decreases a.len(),
{
    if a.len() == 0 {
        assert(a + b =~= b);
    } else {
        assert((a + b)[0] == a[0]);
        assert((a + b).skip(1) =~= a.skip(1) + b);
        match read_line(a[0], at) {
            Ok(next) => {
                lemma_read_lines_concat(a.skip(1), b, next);
            },
            Err(_) => {},
        }
    }
}

/// Inside the `format:` block, the lines that describe fields add those
/// fields, in order.
proof fn lemma_read_field_lines(fields: Seq<FieldView>, at: Reading)
    requires
        at.in_fields,
        forall|i: int|
            0 <= i < fields.len() ==> {
                &&& describable(#[trigger] fields[i])
                &&& free_of(fields[i].field_type, '\n')
                &&& free_of(fields[i].field_name, '\n')
            },
    ensures
        read_lines(field_lines(fields), at) == Ok::<Reading, Seq<char>>(
            Reading {
                in_fields: true,
                format: FormatView {
                    name: at.format.name,
                    id: at.format.id,
                    print_fmt: at.format.print_fmt,
                    fields: at.format.fields + fields,
                },
            },
        ),
    decreases fields.len(),
{
    let lines = field_lines(fields);
    if fields.len() == 0 {
        assert(at.format.fields + fields =~= at.format.fields);
    } else {
        let first = fields[0];
        lemma_field_line_free(first);
        lemma_field_round_trip(first);
        let next = Reading {
            in_fields: true,
            format: FormatView {
                name: at.format.name,
                id: at.format.id,
                print_fmt: at.format.print_fmt,
                fields: at.format.fields.push(first),
            },
        };
        assert(lines[0] == field_line(first));
        assert(read_line(lines[0], at) == Ok::<Reading, Seq<char>>(next));
        let rest = fields.skip(1);
        assert(lines.skip(1) =~= field_lines(rest));
        assert forall|i: int| 0 <= i < rest.len() implies {
            &&& describable(#[trigger] rest[i])
            &&& free_of(rest[i].field_type, '\n')
            &&& free_of(rest[i].field_name, '\n')
        } by {
            assert(rest[i] == fields[i + 1]);
        }
        lemma_read_field_lines(rest, next);
        assert(at.format.fields.push(first) + rest =~= at.format.fields + fields);
    }
}

/// The three lines before the fields give the name and the ID and open the
/// `format:` block.
proof fn lemma_read_head(format: FormatView)
    ensures
        read_lines(
            seq![
                key_line("name"@, format.name),
                key_line("ID"@, decimal_digits(format.id as nat)),
                "format"@ + seq![':'],
            ],
            start_of_file(),
        ) == Ok::<Reading, Seq<char>>(
            Reading {
                in_fields: true,
                format: FormatView {
                    name: format.name,
                    id: format.id,
                    print_fmt: Seq::empty(),
                    fields: Seq::empty(),
                },
            },
        ),
{
    lemma_file_keys();
    let l0 = key_line("name"@, format.name);
    let l1 = key_line("ID"@, decimal_digits(format.id as nat));
    let l2 = "format"@ + seq![':'];
    let a0 = start_of_file();
    let a1 = Reading {
        in_fields: false,
        format: FormatView {
            name: format.name,
            id: 0,
            print_fmt: Seq::empty(),
            fields: Seq::empty(),
        },
    };
    let a2 = Reading {
        in_fields: false,
        format: FormatView {
            name: format.name,
            id: format.id,
            print_fmt: Seq::empty(),
            fields: Seq::empty(),
        },
    };
    let a3 = Reading { in_fields: true, format: a2.format };
    assert(read_line(l0, a0) == Ok::<Reading, Seq<char>>(a1)) by {
        lemma_key_line_parts("name"@, format.name);
        assert(Seq::<char>::empty() + format.name =~= format.name);
    }
    assert(read_line(l1, a1) == Ok::<Reading, Seq<char>>(a2)) by {
        lemma_key_line_parts("ID"@, decimal_digits(format.id as nat));
        lemma_parse_decimal(format.id as nat);
        assert("ID"@ != "name"@);
    }
    assert(read_line(l2, a2) == Ok::<Reading, Seq<char>>(a3)) by {
        assert(l2 =~= "format"@ + seq![':'] + Seq::<char>::empty());
        lemma_first_index_in_middle("format"@, ':', Seq::<char>::empty());
        assert("format"@ != "name"@);
        assert("format"@ != "ID"@);
    }
    let lines = seq![l0, l1, l2];
    assert(lines.skip(1) =~= seq![l1, l2]);
    assert(seq![l1, l2].skip(1) =~= seq![l2]);
    assert(seq![l2].skip(1) =~= Seq::<Seq<char>>::empty());
    assert(read_lines(Seq::<Seq<char>>::empty(), a3) == Ok::<Reading, Seq<char>>(a3));
    assert(read_lines(seq![l2], a2) == Ok::<Reading, Seq<char>>(a3));
    assert(read_lines(seq![l1, l2], a1) == Ok::<Reading, Seq<char>>(a3));
}

/// The three lines after the fields give the print format.
proof fn lemma_read_tail(print_fmt: Seq<char>, at: Reading)
    requires
        at.format.print_fmt == Seq::<char>::empty(),
    ensures
        read_lines(
            seq![Seq::empty(), key_line("print fmt"@, print_fmt), Seq::empty()],
            at,
        ) == Ok::<Reading, Seq<char>>(
            Reading {
                in_fields: false,
                format: FormatView {
                    name: at.format.name,
                    id: at.format.id,
                    print_fmt,
                    fields: at.format.fields,
                },
            },
        ),
{
    lemma_file_keys();
    let blank = Seq::<char>::empty();
    let l1 = key_line("print fmt"@, print_fmt);
    let done = Reading {
        in_fields: false,
        format: FormatView {
            name: at.format.name,
            id: at.format.id,
            print_fmt,
            fields: at.format.fields,
        },
    };
    assert(read_line(blank, at) == Ok::<Reading, Seq<char>>(at));
    assert(read_line(l1, at) == Ok::<Reading, Seq<char>>(done)) by {
        lemma_key_line_parts("print fmt"@, print_fmt);
        assert(l1[0] == 'p');
        assert(Seq::<char>::empty() + print_fmt =~= print_fmt);
        assert("print fmt"@ != "name"@);
        assert("print fmt"@ != "ID"@);
        assert("print fmt"@ != "format"@);
        assert(read_key_line(l1, at.format) == Ok::<Reading, Seq<char>>(done));
    }
    assert(read_line(blank, done) == Ok::<Reading, Seq<char>>(done));
    let lines = seq![blank, l1, blank];
    assert(lines.skip(1) =~= seq![l1, blank]);
    assert(seq![l1, blank].skip(1) =~= seq![blank]);
    assert(seq![blank].skip(1) =~= Seq::<Seq<char>>::empty());
    assert(read_lines(Seq::<Seq<char>>::empty(), done) == Ok::<Reading, Seq<char>>(done));
    assert(read_lines(seq![blank], done) == Ok::<Reading, Seq<char>>(done));
    assert(read_lines(seq![l1, blank], at) == Ok::<Reading, Seq<char>>(done));
}

/// The lines of a format file hold no line feed.
proof fn lemma_format_lines_free(format: FormatView)
    requires
        writable(format),
    ensures
        forall|i: int|
            0 <= i < format_lines(format).len() ==> free_of(
                #[trigger] format_lines(format)[i],
                '\n',
            ),
{
    lemma_file_keys();
    let lines = format_lines(format);
    let n = format.fields.len() as int;
    let nl = '\n';
    let colon = seq![':'];
    let space = seq![' '];
    assert forall|i: int| 0 <= i < lines.len() implies free_of(#[trigger] lines[i], nl) by {
        if i == 0 {
            lemma_free_concat(space, format.name, nl);
            lemma_free_concat("name"@, colon, nl);
            lemma_free_concat("name"@ + colon, space + format.name, nl);
        } else if i == 1 {
            lemma_digits_free(format.id as nat, nl);
            lemma_free_concat(space, decimal_digits(format.id as nat), nl);
            lemma_free_concat("ID"@, colon, nl);
            lemma_free_concat("ID"@ + colon, space + decimal_digits(format.id as nat), nl);
        } else if i == 2 {
            lemma_free_concat("format"@, colon, nl);
        } else if i < 3 + n {
            assert(lines[i] == field_line(format.fields[i - 3]));
            lemma_field_line_free(format.fields[i - 3]);
        } else if i == 3 + n + 1 {
            lemma_free_concat(space, format.print_fmt, nl);
            lemma_free_concat("print fmt"@, colon, nl);
            lemma_free_concat("print fmt"@ + colon, space + format.print_fmt, nl);
        } else {
            assert(lines[i] =~= Seq::<char>::empty());
        }
    }
}

/// Reading the text of the format file that describes a format gives the
/// format back: its name, ID and print format, and exactly its fields, in
/// their order, each with its type and name, offset, size, signedness and
/// array kind.
pub proof fn lemma_format_round_trip(format: FormatView)
    requires
        writable(format),
    ensures
        parsed_format(format_text(format)) == Ok::<FormatView, Seq<char>>(format),
{
    let head = seq![
        key_line("name"@, format.name),
        key_line("ID"@, decimal_digits(format.id as nat)),
        "format"@ + seq![':'],
    ];
    let body = field_lines(format.fields);
    let tail = seq![Seq::empty(), key_line("print fmt"@, format.print_fmt), Seq::empty()];
    let lines = format_lines(format);
    lemma_format_lines_free(format);
    lemma_split_join(lines);
    let opened = Reading {
        in_fields: true,
        format: FormatView {
            name: format.name,
            id: format.id,
            print_fmt: Seq::empty(),
            fields: Seq::empty(),
        },
    };
    let filled = Reading {
        in_fields: true,
        format: FormatView {
            name: format.name,
            id: format.id,
            print_fmt: Seq::empty(),
            fields: Seq::<FieldView>::empty() + format.fields,
        },
    };
    lemma_read_head(format);
    lemma_read_field_lines(format.fields, opened);
    lemma_read_tail(format.print_fmt, filled);
    lemma_read_lines_concat(head, body + tail, start_of_file());
    lemma_read_lines_concat(body, tail, opened);
    assert(lines =~= head + (body + tail));
    assert(Seq::<FieldView>::empty() + format.fields =~= format.fields);
}

} // verus!
