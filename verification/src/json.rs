//! The self-describing text format that crosses the sandbox boundary: a
//! JSON writer and reader for the wire payload. The writer emits the
//! compact form (no whitespace); the reader accepts exactly that form, so
//! that a payload written here reads back unchanged — and it reads an
//! object field by field, carrying unknown fields through, so a reader
//! built against an older schema still sees the fields it knows.
//!
//! Values are modeled twice: `JsonValue` is the executable tree, and
//! `JsonModel` is its mathematical image, over character sequences, which
//! every contract speaks of.

use vstd::prelude::*;

use crate::text::{digit_val, is_digit};

verus! {

/// An executable JSON tree. A number is carried as its raw token text and
/// never interpreted: nothing in the wire schema is numeric, but a reader
/// must still carry unknown numeric fields through.
#[derive(Debug)]
pub struct JsonField {
    pub key: String,
    pub value: JsonValue,
}

/// The mathematical image of one object field.
#[verifier::ext_equal]
pub struct FieldModel {
    pub key: Seq<char>,
    pub value: JsonModel,
}

#[derive(Debug)]
pub enum JsonValue {
    Null,
    Bool(bool),
    Num(String),
    Str(String),
    Arr(Vec<JsonValue>),
    Obj(Vec<JsonField>),
}

/// The mathematical image of a JSON tree, over character sequences.
#[verifier::ext_equal]
pub enum JsonModel {
    Null,
    Bool(bool),
    Num(Seq<char>),
    Str(Seq<char>),
    Arr(Seq<JsonModel>),
    Obj(Seq<FieldModel>),
}

/// What an executable tree says.
pub open spec fn json_view(v: JsonValue) -> JsonModel
    decreases v, 1int,
{
    match v {
        JsonValue::Null => JsonModel::Null,
        JsonValue::Bool(b) => JsonModel::Bool(b),
        JsonValue::Num(s) => JsonModel::Num(s@),
        JsonValue::Str(s) => JsonModel::Str(s@),
        JsonValue::Arr(items) => JsonModel::Arr(json_view_list(items@)),
        JsonValue::Obj(fields) => JsonModel::Obj(json_view_fields(fields@)),
    }
}

/// The images of a list of trees.
pub open spec fn json_view_list(s: Seq<JsonValue>) -> Seq<JsonModel>
    decreases s, 0int,
{
    if s.len() == 0 {
        Seq::empty()
    } else {
        json_view_list(s.drop_last()).push(json_view(s.last()))
    }
}

/// The images of a list of fields.
pub open spec fn json_view_fields(s: Seq<JsonField>) -> Seq<FieldModel>
    decreases s, 0int,
{
    if s.len() == 0 {
        Seq::empty()
    } else {
        json_view_fields(s.drop_last()).push(
            FieldModel { key: s.last().key@, value: json_view(s.last().value) },
        )
    }
}

/// The image list maps the trees element for element.
pub proof fn lemma_json_view_list_index(s: Seq<JsonValue>)
    ensures
        json_view_list(s).len() == s.len(),
        forall|i: int| 0 <= i < s.len() ==> json_view_list(s)[i] == json_view(#[trigger] s[i]),
    decreases s.len(),
{
    if s.len() > 0 {
        lemma_json_view_list_index(s.drop_last());
        let pre = json_view_list(s.drop_last());
        assert(json_view_list(s) == pre.push(json_view(s.last())));
        assert forall|i: int| 0 <= i < s.len() implies json_view_list(s)[i] == json_view(
            #[trigger] s[i],
        ) by {
            if i < s.len() - 1 {
                assert(s.drop_last()[i] == s[i]);
                assert(json_view_list(s)[i] == pre[i]);
            }
        };
    }
}

/// The image fields map the tree's fields element for element.
pub proof fn lemma_json_view_fields_index(s: Seq<JsonField>)
    ensures
        json_view_fields(s).len() == s.len(),
        forall|i: int|
            0 <= i < s.len() ==> json_view_fields(s)[i] == (FieldModel {
                key: (#[trigger] s[i]).key@,
                value: json_view(s[i].value),
            }),
    decreases s.len(),
{
    if s.len() > 0 {
        lemma_json_view_fields_index(s.drop_last());
        let pre = json_view_fields(s.drop_last());
        assert(json_view_fields(s) == pre.push(
            FieldModel { key: s.last().key@, value: json_view(s.last().value) },
        ));
        assert forall|i: int|
            0 <= i < s.len() implies json_view_fields(s)[i] == (FieldModel {
                key: (#[trigger] s[i]).key@,
                value: json_view(s[i].value),
            }) by {
            if i < s.len() - 1 {
                assert(s.drop_last()[i] == s[i]);
                assert(json_view_fields(s)[i] == pre[i]);
            }
        };
    }
}

/// The hexadecimal digit character for a value below sixteen.
pub open spec fn hex_char(d: int) -> char {
    if d < 10 {
        crate::text::digit_char(d)
    } else if d == 10 {
        'a'
    } else if d == 11 {
        'b'
    } else if d == 12 {
        'c'
    } else if d == 13 {
        'd'
    } else if d == 14 {
        'e'
    } else {
        'f'
    }
}

/// The numeric value of a hexadecimal digit character, or 16 for any other
/// character.
pub open spec fn hex_val(c: char) -> int {
    if c == 'a' {
        10
    } else if c == 'b' {
        11
    } else if c == 'c' {
        12
    } else if c == 'd' {
        13
    } else if c == 'e' {
        14
    } else if c == 'f' {
        15
    } else if digit_val(c) < 10 {
        digit_val(c)
    } else {
        16
    }
}

pub open spec fn is_hex(c: char) -> bool {
    hex_val(c) < 16
}

/// How one character appears inside a quoted string: the five named
/// escapes, a `\u00XX` escape for any other control character, and the
/// character itself otherwise.
pub open spec fn esc_char(c: char) -> Seq<char> {
    if c == '"' {
        seq!['\\', '"']
    } else if c == '\\' {
        seq!['\\', '\\']
    } else if c == '\n' {
        seq!['\\', 'n']
    } else if c == '\r' {
        seq!['\\', 'r']
    } else if c == '\t' {
        seq!['\\', 't']
    } else if (c as u32) < 32 {
        seq!['\\', 'u', '0', '0', hex_char(c as u32 as int / 16), hex_char(c as u32 as int % 16)]
    } else {
        seq![c]
    }
}

/// The body of a quoted string: each character escaped in turn.
pub open spec fn str_body(s: Seq<char>) -> Seq<char>
    decreases s.len(),
{
    if s.len() == 0 {
        Seq::empty()
    } else {
        str_body(s.drop_last()) + esc_char(s.last())
    }
}

/// The body also reads one escaped character at a time from the front.
pub proof fn lemma_str_body_front(s: Seq<char>)
    requires
        s.len() > 0,
    ensures
        str_body(s) == esc_char(s[0]) + str_body(s.drop_first()),
    decreases s.len(),
{
    if s.len() == 1 {
        assert(s.drop_last() =~= Seq::<char>::empty());
        assert(s.drop_first() =~= Seq::<char>::empty());
        assert(str_body(s) =~= esc_char(s[0]) + str_body(s.drop_first()));
    } else {
        lemma_str_body_front(s.drop_last());
        assert(s.drop_last()[0] == s[0]);
        assert(s.drop_last().drop_first() =~= s.drop_first().drop_last());
        assert(s.drop_first().last() == s.last());
        assert(str_body(s) == str_body(s.drop_last()) + esc_char(s.last()));
        assert(esc_char(s[0]) + (str_body(s.drop_first().drop_last()) + esc_char(s.last()))
            =~= (esc_char(s[0]) + str_body(s.drop_first().drop_last())) + esc_char(s.last()));
    }
}

/// A quoted string.
pub open spec fn print_string(s: Seq<char>) -> Seq<char> {
    seq!['"'] + str_body(s) + seq!['"']
}

/// The compact rendering of a JSON tree.
pub open spec fn print_model(m: JsonModel) -> Seq<char>
    decreases m, 1int,
{
    match m {
        JsonModel::Null => "null"@,
        JsonModel::Bool(b) => if b {
            "true"@
        } else {
            "false"@
        },
        JsonModel::Num(raw) => raw,
        JsonModel::Str(s) => print_string(s),
        JsonModel::Arr(items) => if items.len() == 0 {
            "[]"@
        } else {
            seq!['['] + print_items(items) + seq![']']
        },
        JsonModel::Obj(fields) => if fields.len() == 0 {
            "{}"@
        } else {
            seq!['{'] + print_fields(fields) + seq!['}']
        },
    }
}

/// Comma-separated item renderings.
pub open spec fn print_items(items: Seq<JsonModel>) -> Seq<char>
    decreases items, 0int,
{
    if items.len() == 0 {
        Seq::empty()
    } else if items.len() == 1 {
        print_model(items[0])
    } else {
        print_model(items[0]) + seq![','] + print_items(items.drop_first())
    }
}

/// Comma-separated `"key":value` renderings.
pub open spec fn print_fields(fields: Seq<FieldModel>) -> Seq<char>
    decreases fields, 0int,
{
    if fields.len() == 0 {
        Seq::empty()
    } else if fields.len() == 1 {
        print_string(fields[0].key) + seq![':'] + print_model(fields[0].value)
    } else {
        print_string(fields[0].key) + seq![':'] + print_model(fields[0].value) + seq![',']
            + print_fields(fields.drop_first())
    }
}

/// The trees the writer can emit and the reader is proved to invert: a raw
/// number token carries no grammar, so it is left out.
pub open spec fn printable(m: JsonModel) -> bool
    decreases m, 1int,
{
    match m {
        JsonModel::Null => true,
        JsonModel::Bool(_) => true,
        JsonModel::Num(_) => false,
        JsonModel::Str(_) => true,
        JsonModel::Arr(items) => all_printable(items),
        JsonModel::Obj(fields) => all_fields_printable(fields),
    }
}

pub open spec fn all_printable(items: Seq<JsonModel>) -> bool
    decreases items, 0int,
{
    if items.len() == 0 {
        true
    } else {
        printable(items[0]) && all_printable(items.drop_first())
    }
}

pub open spec fn all_fields_printable(fields: Seq<FieldModel>) -> bool
    decreases fields, 0int,
{
    if fields.len() == 0 {
        true
    } else {
        printable(fields[0].value) && all_fields_printable(fields.drop_first())
    }
}

/// The hexadecimal digit character for `d`; matches `hex_char`.
pub fn hex_char_exec(d: u32) -> (r: char)
    requires
        d < 16,
    ensures
        r == hex_char(d as int),
{
    if d < 10 {
        crate::text::digit_char_exec(d as u64)
    } else if d == 10 {
        'a'
    } else if d == 11 {
        'b'
    } else if d == 12 {
        'c'
    } else if d == 13 {
        'd'
    } else if d == 14 {
        'e'
    } else {
        'f'
    }
}

/// Appends the escaped form of `c`; matches `esc_char`.
fn write_escaped(c: char, out: &mut Vec<char>)
    ensures
        final(out)@ == old(out)@ + esc_char(c),
{
    if c == '"' {
        out.push('\\');
        out.push('"');
    } else if c == '\\' {
        out.push('\\');
        out.push('\\');
    } else if c == '\n' {
        out.push('\\');
        out.push('n');
    } else if c == '\r' {
        out.push('\\');
        out.push('r');
    } else if c == '\t' {
        out.push('\\');
        out.push('t');
    } else if (c as u32) < 32 {
        out.push('\\');
        out.push('u');
        out.push('0');
        out.push('0');
        out.push(hex_char_exec((c as u32) / 16));
        out.push(hex_char_exec((c as u32) % 16));
    } else {
        out.push(c);
    }
    proof {
        assert(out@ =~= old(out)@ + esc_char(c));
    }
}

/// Appends the quoted form of `s`; matches `print_string`.
fn write_string(s: &str, out: &mut Vec<char>)
    ensures
        final(out)@ == old(out)@ + print_string(s@),
{
    let chars = crate::text::chars_of(s);
    out.push('"');
    let n = chars.len();
    let mut i: usize = 0;
    while i < n
        invariant
            n == chars@.len(),
            chars@ == s@,
            i <= n,
            out@ == old(out)@ + seq!['"'] + str_body(s@.subrange(0, i as int)),
        decreases n - i,
    {
        proof {
            let pre = s@.subrange(0, i as int + 1);
            assert(pre.drop_last() =~= s@.subrange(0, i as int));
            assert(pre.last() == s@[i as int]);
        }
        write_escaped(chars[i], out);
        i = i + 1;
        proof {
            assert(out@ =~= old(out)@ + seq!['"'] + str_body(s@.subrange(0, i as int)));
        }
    }
    out.push('"');
    proof {
        assert(s@.subrange(0, n as int) =~= s@);
        assert(out@ =~= old(out)@ + print_string(s@));
    }
}

/// Appends the compact rendering of `v`; matches `print_model` on the
/// tree's image.
#[verifier::loop_isolation(false)]
#[verifier::rlimit(100)]
pub fn write_value(v: &JsonValue, out: &mut Vec<char>)
    ensures
        final(out)@ == old(out)@ + print_model(json_view(*v)),
    decreases *v,
{
    match v {
        JsonValue::Null => {
            out.push('n');
            out.push('u');
            out.push('l');
            out.push('l');
            proof {
                reveal_strlit("null");
                assert(out@ =~= old(out)@ + print_model(json_view(*v)));
            }
        },
        JsonValue::Bool(b) => {
            if *b {
                out.push('t');
                out.push('r');
                out.push('u');
                out.push('e');
            } else {
                out.push('f');
                out.push('a');
                out.push('l');
                out.push('s');
                out.push('e');
            }
            proof {
                reveal_strlit("true");
                reveal_strlit("false");
                assert(out@ =~= old(out)@ + print_model(json_view(*v)));
            }
        },
        JsonValue::Num(raw) => {
            let chars = crate::text::chars_of(raw.as_str());
            let n = chars.len();
            let mut i: usize = 0;
            while i < n
                invariant
                    n == chars@.len(),
                    chars@ == raw@,
                    i <= n,
                    out@ == old(out)@ + raw@.subrange(0, i as int),
                decreases n - i,
            {
                out.push(chars[i]);
                i = i + 1;
                proof {
                    assert(out@ =~= old(out)@ + raw@.subrange(0, i as int));
                }
            }
            proof {
                assert(raw@.subrange(0, n as int) =~= raw@);
                assert(out@ =~= old(out)@ + print_model(json_view(*v)));
            }
        },
        JsonValue::Str(s) => {
            write_string(s.as_str(), out);
        },
        JsonValue::Arr(items) => {
            out.push('[');
            let n = items.len();
            let mut i: usize = 0;
            while i < n
                invariant
                    n == items@.len(),
                    i <= n,
                    json_view(*v) == JsonModel::Arr(json_view_list(items@)),
                    n > 0 ==> out@ == old(out)@ + seq!['['] + print_items_prefix(
                        json_view_list(items@),
                        i as int,
                    ),
                    n == 0 ==> out@ == old(out)@ + seq!['['],
                decreases n - i,
            {
                if i > 0 {
                    out.push(',');
                }
                proof {
                    lemma_json_view_list_index(items@);
                    assert(decreases_to!(JsonValue::Arr(*items) => *items));
                    assert(decreases_to!(*items => items@));
                    assert(decreases_to!(items@ => items@[i as int]));
                    assert(decreases_to!(*v => items@[i as int]));
                }
                write_value(&items[i], out);
                i = i + 1;
                proof {
                    lemma_print_items_prefix_step(
                        json_view_list(items@),
                        i as int,
                    );
                    assert(out@ =~= old(out)@ + seq!['['] + print_items_prefix(
                        json_view_list(items@),
                        i as int,
                    ));
                }
            }
            out.push(']');
            proof {
                let models = json_view_list(items@);
                lemma_json_view_list_index(items@);
                if n == 0 {
                    reveal_strlit("[]");
                    assert(out@ =~= old(out)@ + print_model(json_view(*v)));
                } else {
                    lemma_print_items_prefix_full(models);
                    assert(out@ =~= old(out)@ + print_model(json_view(*v)));
                }
            }
        },
        JsonValue::Obj(fields) => {
            out.push('{');
            let n = fields.len();
            let mut i: usize = 0;
            while i < n
                invariant
                    n == fields@.len(),
                    i <= n,
                    json_view(*v) == JsonModel::Obj(json_view_fields(fields@)),
                    n > 0 ==> out@ == old(out)@ + seq!['{'] + print_fields_prefix(
                        json_view_fields(fields@),
                        i as int,
                    ),
                    n == 0 ==> out@ == old(out)@ + seq!['{'],
                decreases n - i,
            {
                if i > 0 {
                    out.push(',');
                }
                write_string(fields[i].key.as_str(), out);
                out.push(':');
                proof {
                    lemma_json_view_fields_index(fields@);
                    assert(decreases_to!(JsonValue::Obj(*fields) => *fields));
                    assert(decreases_to!(*fields => fields@));
                    assert(decreases_to!(fields@ => fields@[i as int]));
                    assert(decreases_to!(*v => fields@[i as int].value));
                }
                write_value(&fields[i].value, out);
                i = i + 1;
                proof {
                    lemma_print_fields_prefix_step(
                        json_view_fields(fields@),
                        i as int,
                    );
                    assert(out@ =~= old(out)@ + seq!['{'] + print_fields_prefix(
                        json_view_fields(fields@),
                        i as int,
                    ));
                }
            }
            out.push('}');
            proof {
                let models = json_view_fields(fields@);
                lemma_json_view_fields_index(fields@);
                if n == 0 {
                    reveal_strlit("{}");
                    assert(out@ =~= old(out)@ + print_model(json_view(*v)));
                } else {
                    lemma_print_fields_prefix_full(models);
                    assert(out@ =~= old(out)@ + print_model(json_view(*v)));
                }
            }
        },
    }
}

/// The rendering of the first `i` items of a nonempty item list, with the
/// comma that precedes the item to come, if any.
pub open spec fn print_items_prefix(items: Seq<JsonModel>, i: int) -> Seq<char>
    decreases i,
{
    if i <= 0 {
        Seq::empty()
    } else if i == 1 {
        print_model(items[0])
    } else {
        print_items_prefix(items, i - 1) + seq![','] + print_model(items[i - 1])
    }
}

/// Extending the prefix by one item appends one comma-separated rendering.
proof fn lemma_print_items_prefix_step(items: Seq<JsonModel>, i: int)
    requires
        1 <= i <= items.len(),
    ensures
        i == 1 ==> print_items_prefix(items, i) == print_model(items[0]),
        i > 1 ==> print_items_prefix(items, i) == print_items_prefix(items, i - 1) + seq![',']
            + print_model(items[i - 1]),
{
}

/// The full prefix renders the whole list.
proof fn lemma_print_items_prefix_full(items: Seq<JsonModel>)
    requires
        items.len() >= 1,
    ensures
        print_items_prefix(items, items.len() as int) == print_items(items),
    decreases items.len(),
{
    lemma_print_items_suffix(items, items.len() as int);
}

/// The prefix of length `i` plus the rendering of the rest is the whole.
proof fn lemma_print_items_suffix(items: Seq<JsonModel>, i: int)
    requires
        1 <= i <= items.len(),
    ensures
        print_items(items) == print_items_prefix(items, i) + (if i < items.len() {
            seq![','] + print_items(items.subrange(i, items.len() as int))
        } else {
            Seq::empty()
        }),
    decreases i,
{
    if i == 1 {
        if items.len() == 1 {
            assert(print_items(items) =~= print_items_prefix(items, 1) + Seq::<char>::empty());
        } else {
            assert(items.drop_first() =~= items.subrange(1, items.len() as int));
            assert(print_items(items) =~= print_items_prefix(items, 1) + (seq![','] + print_items(
                items.subrange(1, items.len() as int),
            )));
        }
    } else {
        lemma_print_items_suffix(items, i - 1);
        let tail_prev = items.subrange(i - 1, items.len() as int);
        assert(tail_prev[0] == items[i - 1]);
        if i < items.len() {
            assert(tail_prev.len() > 1);
            assert(tail_prev.drop_first() =~= items.subrange(i, items.len() as int));
            assert(print_items(tail_prev) == print_model(items[i - 1]) + seq![','] + print_items(
                items.subrange(i, items.len() as int),
            ));
            assert(print_items(items) =~= print_items_prefix(items, i) + (seq![','] + print_items(
                items.subrange(i, items.len() as int),
            )));
        } else {
            assert(tail_prev.len() == 1);
            assert(print_items(tail_prev) == print_model(items[i - 1]));
            assert(print_items(items) =~= print_items_prefix(items, i) + Seq::<char>::empty());
        }
    }
}

/// The rendering of the first `i` fields of a nonempty field list.
pub open spec fn print_fields_prefix(fields: Seq<FieldModel>, i: int) -> Seq<char>
    decreases i,
{
    if i <= 0 {
        Seq::empty()
    } else if i == 1 {
        print_string(fields[0].key) + seq![':'] + print_model(fields[0].value)
    } else {
        print_fields_prefix(fields, i - 1) + seq![','] + print_string(fields[i - 1].key) + seq![':']
            + print_model(fields[i - 1].value)
    }
}

/// Extending the prefix by one field appends one comma-separated rendering.
proof fn lemma_print_fields_prefix_step(fields: Seq<FieldModel>, i: int)
    requires
        1 <= i <= fields.len(),
    ensures
        i == 1 ==> print_fields_prefix(fields, i) == print_string(fields[0].key) + seq![':']
            + print_model(fields[0].value),
        i > 1 ==> print_fields_prefix(fields, i) == print_fields_prefix(fields, i - 1) + seq![',']
            + print_string(fields[i - 1].key) + seq![':'] + print_model(fields[i - 1].value),
{
}

/// The full prefix renders the whole list.
proof fn lemma_print_fields_prefix_full(fields: Seq<FieldModel>)
    requires
        fields.len() >= 1,
    ensures
        print_fields_prefix(fields, fields.len() as int) == print_fields(fields),
    decreases fields.len(),
{
    lemma_print_fields_suffix(fields, fields.len() as int);
}

/// The prefix of length `i` plus the rendering of the rest is the whole.
proof fn lemma_print_fields_suffix(fields: Seq<FieldModel>, i: int)
    requires
        1 <= i <= fields.len(),
    ensures
        print_fields(fields) == print_fields_prefix(fields, i) + (if i < fields.len() {
            seq![','] + print_fields(fields.subrange(i, fields.len() as int))
        } else {
            Seq::empty()
        }),
    decreases i,
{
    if i == 1 {
        if fields.len() == 1 {
            assert(print_fields(fields) =~= print_fields_prefix(fields, 1) + Seq::<char>::empty());
        } else {
            assert(fields.drop_first() =~= fields.subrange(1, fields.len() as int));
            assert(print_fields(fields) =~= print_fields_prefix(fields, 1) + (seq![',']
                + print_fields(fields.subrange(1, fields.len() as int))));
        }
    } else {
        lemma_print_fields_suffix(fields, i - 1);
        let tail_prev = fields.subrange(i - 1, fields.len() as int);
        assert(tail_prev[0] == fields[i - 1]);
        if i < fields.len() {
            assert(tail_prev.len() > 1);
            assert(tail_prev.drop_first() =~= fields.subrange(i, fields.len() as int));
            assert(print_fields(tail_prev) == print_string(fields[i - 1].key) + seq![':']
                + print_model(fields[i - 1].value) + seq![','] + print_fields(
                fields.subrange(i, fields.len() as int),
            ));
            assert(print_fields(fields) =~= print_fields_prefix(fields, i) + (seq![',']
                + print_fields(fields.subrange(i, fields.len() as int))));
        } else {
            assert(tail_prev.len() == 1);
            assert(print_fields(tail_prev) == print_string(fields[i - 1].key) + seq![':']
                + print_model(fields[i - 1].value));
            assert(print_fields(fields) =~= print_fields_prefix(fields, i) + Seq::<char>::empty());
        }
    }
}

/// The compact rendering of `v`, as a string.
pub fn to_json_string(v: &JsonValue) -> (r: String)
    ensures
        r@ == print_model(json_view(*v)),
{
    let mut out: Vec<char> = Vec::new();
    write_value(v, &mut out);
    crate::text::string_of_chars(&out)
}


/// Reads a quoted string's remainder, after the opening quote: the decoded
/// body and what follows the closing quote. The five named escapes, `\\/`,
/// and `\\u00XX` are decoded; anything else after a backslash is refused.
pub open spec fn parse_str_rest(s: Seq<char>) -> Option<(Seq<char>, Seq<char>)>
    decreases s.len(),
{
    if s.len() == 0 {
        None
    } else if s[0] == '"' {
        Some((Seq::empty(), s.drop_first()))
    } else if s[0] == '\\' {
        if s.len() < 2 {
            None
        } else {
            let c = s[1];
            if c == '"' || c == '\\' || c == '/' || c == 'n' || c == 'r' || c == 't' {
                let decoded = if c == 'n' {
                    '\n'
                } else if c == 'r' {
                    '\r'
                } else if c == 't' {
                    '\t'
                } else {
                    c
                };
                match parse_str_rest(s.subrange(2, s.len() as int)) {
                    Some((body, rest)) => Some((seq![decoded] + body, rest)),
                    None => None,
                }
            } else if c == 'u' {
                if s.len() >= 6 && s[2] == '0' && s[3] == '0' && is_hex(s[4]) && is_hex(s[5]) {
                    let code = hex_val(s[4]) * 16 + hex_val(s[5]);
                    match parse_str_rest(s.subrange(6, s.len() as int)) {
                        Some((body, rest)) => Some((seq![code as char] + body, rest)),
                        None => None,
                    }
                } else {
                    None
                }
            } else {
                None
            }
        }
    } else {
        match parse_str_rest(s.drop_first()) {
            Some((body, rest)) => Some((seq![s[0]] + body, rest)),
            None => None,
        }
    }
}

/// The characters a raw number token may hold.
pub open spec fn is_num_char(c: char) -> bool {
    is_digit(c) || c == '-' || c == '+' || c == '.' || c == 'e' || c == 'E'
}

/// How far the number token starting the text runs.
pub open spec fn num_token_len(s: Seq<char>) -> int
    decreases s.len(),
{
    if s.len() > 0 && is_num_char(s[0]) {
        1 + num_token_len(s.drop_first())
    } else {
        0
    }
}

/// The token never runs past the text.
pub proof fn lemma_num_token_len_bound(s: Seq<char>)
    ensures
        0 <= num_token_len(s) <= s.len(),
    decreases s.len(),
{
    if s.len() > 0 && is_num_char(s[0]) {
        lemma_num_token_len_bound(s.drop_first());
    }
}

/// The token is exactly the longest prefix of number characters.
pub proof fn lemma_num_token_len_is(s: Seq<char>, k: int)
    requires
        0 <= k <= s.len(),
        forall|m: int| 0 <= m < k ==> is_num_char(#[trigger] s[m]),
        k == s.len() || !is_num_char(s[k]),
    ensures
        num_token_len(s) == k,
    decreases k,
{
    if k == 0 {
    } else {
        assert(is_num_char(s[0]));
        let t = s.drop_first();
        assert(forall|m: int| 0 <= m < k - 1 ==> #[trigger] t[m] == s[m + 1]);
        lemma_num_token_len_is(t, k - 1);
    }
}

/// Reads one value from the front of the text: the value and what follows
/// it. Only the compact form — the one the writer emits — is read.
pub open spec fn parse_value(s: Seq<char>) -> Option<(JsonModel, Seq<char>)>
    decreases s.len(), 0int,
{
    if s.len() == 0 {
        None
    } else if s[0] == 'n' {
        if s.len() >= 4 && s.subrange(0, 4) == "null"@ {
            Some((JsonModel::Null, s.subrange(4, s.len() as int)))
        } else {
            None
        }
    } else if s[0] == 't' {
        if s.len() >= 4 && s.subrange(0, 4) == "true"@ {
            Some((JsonModel::Bool(true), s.subrange(4, s.len() as int)))
        } else {
            None
        }
    } else if s[0] == 'f' {
        if s.len() >= 5 && s.subrange(0, 5) == "false"@ {
            Some((JsonModel::Bool(false), s.subrange(5, s.len() as int)))
        } else {
            None
        }
    } else if s[0] == '"' {
        match parse_str_rest(s.drop_first()) {
            Some((body, rest)) => Some((JsonModel::Str(body), rest)),
            None => None,
        }
    } else if s[0] == '[' {
        if s.len() >= 2 && s[1] == ']' {
            Some((JsonModel::Arr(Seq::empty()), s.subrange(2, s.len() as int)))
        } else {
            match parse_items(s.drop_first()) {
                Some((items, rest)) => Some((JsonModel::Arr(items), rest)),
                None => None,
            }
        }
    } else if s[0] == '{' {
        if s.len() >= 2 && s[1] == '}' {
            Some((JsonModel::Obj(Seq::empty()), s.subrange(2, s.len() as int)))
        } else {
            match parse_fields(s.drop_first()) {
                Some((fields, rest)) => Some((JsonModel::Obj(fields), rest)),
                None => None,
            }
        }
    } else if is_digit(s[0]) || s[0] == '-' {
        let n = num_token_len(s);
        Some((JsonModel::Num(s.subrange(0, n)), s.subrange(n, s.len() as int)))
    } else {
        None
    }
}

/// Reads the items of a nonempty array, after the opening bracket, up to
/// and past the closing bracket.
pub open spec fn parse_items(s: Seq<char>) -> Option<(Seq<JsonModel>, Seq<char>)>
    decreases s.len(), 1int,
{
    match parse_value(s) {
        None => None,
        Some((v, r)) => if r.len() >= s.len() {
            None  // unreachable: a value consumes at least one character
        } else if r.len() > 0 && r[0] == ',' {
            match parse_items(r.drop_first()) {
                Some((vs, r2)) => Some((seq![v] + vs, r2)),
                None => None,
            }
        } else if r.len() > 0 && r[0] == ']' {
            Some((seq![v], r.drop_first()))
        } else {
            None
        },
    }
}

/// Reads the fields of a nonempty object, after the opening brace, up to
/// and past the closing brace.
pub open spec fn parse_fields(s: Seq<char>) -> Option<(Seq<FieldModel>, Seq<char>)>
    decreases s.len(), 1int,
{
    if s.len() == 0 || s[0] != '"' {
        None
    } else {
        match parse_str_rest(s.drop_first()) {
            None => None,
            Some((key, r)) => if r.len() >= s.len() || r.len() == 0 || r[0] != ':' {
                None
            } else {
                match parse_value(r.drop_first()) {
                    None => None,
                    Some((v, r2)) => if r2.len() >= s.len() {
                        None  // unreachable: the key and value consume characters
                    } else if r2.len() > 0 && r2[0] == ',' {
                        match parse_fields(r2.drop_first()) {
                            Some((fs, r3)) => Some(
                                (seq![FieldModel { key, value: v }] + fs, r3),
                            ),
                            None => None,
                        }
                    } else if r2.len() > 0 && r2[0] == '}' {
                        Some((seq![FieldModel { key, value: v }], r2.drop_first()))
                    } else {
                        None
                    },
                }
            },
        }
    }
}

/// Reads a complete text as one value: nothing may follow it.
pub open spec fn parse_json_complete(s: Seq<char>) -> Option<JsonModel> {
    match parse_value(s) {
        Some((m, rest)) => if rest.len() == 0 {
            Some(m)
        } else {
            None
        },
        None => None,
    }
}



/// Prepending a tree prepends its image.
pub proof fn lemma_json_view_list_prepend(x: JsonValue, s: Seq<JsonValue>)
    ensures
        json_view_list(seq![x] + s) == seq![json_view(x)] + json_view_list(s),
{
    let whole = seq![x] + s;
    lemma_json_view_list_index(whole);
    lemma_json_view_list_index(s);
    assert forall|k: int|
        0 <= k < json_view_list(whole).len() implies json_view_list(whole)[k] == (seq![
        json_view(x),
    ] + json_view_list(s))[k] by {
        assert(whole[k] == if k == 0 {
            x
        } else {
            s[k - 1]
        });
    };
    assert(json_view_list(whole) =~= seq![json_view(x)] + json_view_list(s));
}

/// Prepending a field prepends its image.
pub proof fn lemma_json_view_fields_prepend(x: JsonField, s: Seq<JsonField>)
    ensures
        json_view_fields(seq![x] + s) == seq![
            FieldModel { key: x.key@, value: json_view(x.value) },
        ] + json_view_fields(s),
{
    let whole = seq![x] + s;
    lemma_json_view_fields_index(whole);
    lemma_json_view_fields_index(s);
    assert forall|k: int|
        0 <= k < json_view_fields(whole).len() implies json_view_fields(whole)[k] == (seq![
        FieldModel { key: x.key@, value: json_view(x.value) },
    ] + json_view_fields(s))[k] by {
        assert(whole[k] == if k == 0 {
            x
        } else {
            s[k - 1]
        });
    };
    assert(json_view_fields(whole) =~= seq![FieldModel { key: x.key@, value: json_view(x.value) }]
        + json_view_fields(s));
}

/// The numeric value of a hexadecimal digit character; matches `hex_val`.
pub fn hex_val_exec(c: char) -> (r: u32)
    ensures
        r as int == hex_val(c),
{
    if c == 'a' {
        10
    } else if c == 'b' {
        11
    } else if c == 'c' {
        12
    } else if c == 'd' {
        13
    } else if c == 'e' {
        14
    } else if c == 'f' {
        15
    } else {
        let d = crate::text::digit_val_exec(c);
        if d < 10 {
            d as u32
        } else {
            16
        }
    }
}

/// Whether `c` may appear in a raw number token; matches `is_num_char`.
pub fn is_num_char_exec(c: char) -> (r: bool)
    ensures
        r == is_num_char(c),
{
    crate::text::digit_val_exec(c) < 10 || c == '-' || c == '+' || c == '.' || c == 'e' || c == 'E'
}

/// Reads a quoted string's remainder; matches `parse_str_rest` on the text
/// from position `i`.
pub fn parse_str_rest_exec(v: &Vec<char>, i: usize) -> (r: Option<(Vec<char>, usize)>)
    requires
        i <= v@.len(),
    ensures
        match r {
            Some(p) => i < p.1 <= v@.len() && parse_str_rest(
                v@.subrange(i as int, v@.len() as int),
            ) == Some((p.0@, v@.subrange(p.1 as int, v@.len() as int))),
            None => parse_str_rest(v@.subrange(i as int, v@.len() as int)) is None,
        },
    decreases v@.len() - i,
{
    let ghost u = v@.subrange(i as int, v@.len() as int);
    if i >= v.len() {
        return None;
    }
    let c = v[i];
    proof {
        assert(u[0] == v@[i as int]);
    }
    if c == '"' {
        proof {
            assert(u.drop_first() =~= v@.subrange(i as int + 1, v@.len() as int));
        }
        return Some((Vec::new(), i + 1));
    }
    if c == '\\' {
        if i + 1 >= v.len() {
            return None;
        }
        let e = v[i + 1];
        proof {
            assert(u[1] == v@[i as int + 1]);
        }
        if e == '"' || e == '\\' || e == '/' || e == 'n' || e == 'r' || e == 't' {
            let decoded: char = if e == 'n' {
                '\n'
            } else if e == 'r' {
                '\r'
            } else if e == 't' {
                '\t'
            } else {
                e
            };
            proof {
                assert(u.subrange(2, u.len() as int) =~= v@.subrange(
                    i as int + 2,
                    v@.len() as int,
                ));
            }
            match parse_str_rest_exec(v, i + 2) {
                Some((body, j)) => {
                    let mut body = body;
                    let ghost pre = body@;
                    body.insert(0, decoded);
                    proof {
                        assert(body@ =~= seq![decoded] + pre);
                    }
                    Some((body, j))
                },
                None => None,
            }
        } else if e == 'u' {
            if v.len() - i < 6 {
                return None;
            }
            if !(v[i + 2] == '0' && v[i + 3] == '0') {
                proof {
                    assert(u[2] == v@[i as int + 2]);
                    assert(u[3] == v@[i as int + 3]);
                }
                return None;
            }
            let h1 = hex_val_exec(v[i + 4]);
            let h2 = hex_val_exec(v[i + 5]);
            proof {
                assert(u[2] == v@[i as int + 2]);
                assert(u[3] == v@[i as int + 3]);
                assert(u[4] == v@[i as int + 4]);
                assert(u[5] == v@[i as int + 5]);
            }
            if h1 >= 16 || h2 >= 16 {
                return None;
            }
            let code: u32 = h1 * 16 + h2;
            let decoded: char = (code as u8) as char;
            proof {
                assert(decoded == ((hex_val(u[4]) * 16 + hex_val(u[5])) as char));
                assert(u.subrange(6, u.len() as int) =~= v@.subrange(
                    i as int + 6,
                    v@.len() as int,
                ));
            }
            match parse_str_rest_exec(v, i + 6) {
                Some((body, j)) => {
                    let mut body = body;
                    let ghost pre = body@;
                    body.insert(0, decoded);
                    proof {
                        assert(body@ =~= seq![decoded] + pre);
                    }
                    Some((body, j))
                },
                None => None,
            }
        } else {
            None
        }
    } else {
        proof {
            assert(u.drop_first() =~= v@.subrange(i as int + 1, v@.len() as int));
        }
        match parse_str_rest_exec(v, i + 1) {
            Some((body, j)) => {
                let mut body = body;
                let ghost pre = body@;
                body.insert(0, c);
                proof {
                    assert(body@ =~= seq![c] + pre);
                }
                Some((body, j))
            },
            None => None,
        }
    }
}

/// Reads one value; matches `parse_value` on the text from position `i`.
#[verifier::rlimit(100)]
pub fn parse_value_exec(v: &Vec<char>, i: usize) -> (r: Option<(JsonValue, usize)>)
    requires
        i <= v@.len(),
    ensures
        match r {
            Some(p) => i < p.1 <= v@.len() && parse_value(
                v@.subrange(i as int, v@.len() as int),
            ) == Some((json_view(p.0), v@.subrange(p.1 as int, v@.len() as int))),
            None => parse_value(v@.subrange(i as int, v@.len() as int)) is None,
        },
    decreases v@.len() - i, 0int,
{
    let ghost u = v@.subrange(i as int, v@.len() as int);
    if i >= v.len() {
        return None;
    }
    let c = v[i];
    proof {
        assert(u[0] == v@[i as int]);
    }
    if c == 'n' {
        proof {
            reveal_strlit("null");
        }
        if v.len() - i >= 4 && v[i + 1] == 'u' && v[i + 2] == 'l' && v[i + 3] == 'l' {
            proof {
                assert(u.subrange(0, 4) =~= "null"@);
                assert(u.subrange(4, u.len() as int) =~= v@.subrange(
                    i as int + 4,
                    v@.len() as int,
                ));
            }
            Some((JsonValue::Null, i + 4))
        } else {
            proof {
                if u.len() >= 4 {
                    assert(u[1] == v@[i as int + 1]);
                    assert(u[2] == v@[i as int + 2]);
                    assert(u[3] == v@[i as int + 3]);
                    if u.subrange(0, 4) == "null"@ {
                        assert(u.subrange(0, 4)[1] == u[1]);
                        assert(u.subrange(0, 4)[2] == u[2]);
                        assert(u.subrange(0, 4)[3] == u[3]);
                    }
                }
            }
            None
        }
    } else if c == 't' {
        proof {
            reveal_strlit("true");
        }
        if v.len() - i >= 4 && v[i + 1] == 'r' && v[i + 2] == 'u' && v[i + 3] == 'e' {
            proof {
                assert(u.subrange(0, 4) =~= "true"@);
                assert(u.subrange(4, u.len() as int) =~= v@.subrange(
                    i as int + 4,
                    v@.len() as int,
                ));
            }
            Some((JsonValue::Bool(true), i + 4))
        } else {
            proof {
                if u.len() >= 4 {
                    assert(u[1] == v@[i as int + 1]);
                    assert(u[2] == v@[i as int + 2]);
                    assert(u[3] == v@[i as int + 3]);
                    if u.subrange(0, 4) == "true"@ {
                        assert(u.subrange(0, 4)[1] == u[1]);
                        assert(u.subrange(0, 4)[2] == u[2]);
                        assert(u.subrange(0, 4)[3] == u[3]);
                    }
                }
            }
            None
        }
    } else if c == 'f' {
        proof {
            reveal_strlit("false");
        }
        if v.len() - i >= 5 && v[i + 1] == 'a' && v[i + 2] == 'l' && v[i + 3] == 's' && v[i + 4]
            == 'e' {
            proof {
                assert(u.subrange(0, 5) =~= "false"@);
                assert(u.subrange(5, u.len() as int) =~= v@.subrange(
                    i as int + 5,
                    v@.len() as int,
                ));
            }
            Some((JsonValue::Bool(false), i + 5))
        } else {
            proof {
                if u.len() >= 5 {
                    assert(u[1] == v@[i as int + 1]);
                    assert(u[2] == v@[i as int + 2]);
                    assert(u[3] == v@[i as int + 3]);
                    assert(u[4] == v@[i as int + 4]);
                    if u.subrange(0, 5) == "false"@ {
                        assert(u.subrange(0, 5)[1] == u[1]);
                        assert(u.subrange(0, 5)[2] == u[2]);
                        assert(u.subrange(0, 5)[3] == u[3]);
                        assert(u.subrange(0, 5)[4] == u[4]);
                    }
                }
            }
            None
        }
    } else if c == '"' {
        proof {
            assert(u.drop_first() =~= v@.subrange(i as int + 1, v@.len() as int));
        }
        match parse_str_rest_exec(v, i + 1) {
            Some((body, j)) => Some((JsonValue::Str(crate::text::string_of_chars(&body)), j)),
            None => None,
        }
    } else if c == '[' {
        proof {
            assert(u.drop_first() =~= v@.subrange(i as int + 1, v@.len() as int));
            if u.len() >= 2 {
                assert(u[1] == v@[i as int + 1]);
            }
        }
        if i + 1 < v.len() && v[i + 1] == ']' {
            proof {
                assert(u.subrange(2, u.len() as int) =~= v@.subrange(
                    i as int + 2,
                    v@.len() as int,
                ));
            }
            Some((JsonValue::Arr(Vec::new()), i + 2))
        } else {
            match parse_items_exec(v, i + 1) {
                Some((items, j)) => Some((JsonValue::Arr(items), j)),
                None => None,
            }
        }
    } else if c == '{' {
        proof {
            assert(u.drop_first() =~= v@.subrange(i as int + 1, v@.len() as int));
            if u.len() >= 2 {
                assert(u[1] == v@[i as int + 1]);
            }
        }
        if i + 1 < v.len() && v[i + 1] == '}' {
            proof {
                assert(u.subrange(2, u.len() as int) =~= v@.subrange(
                    i as int + 2,
                    v@.len() as int,
                ));
            }
            Some((JsonValue::Obj(Vec::new()), i + 2))
        } else {
            match parse_fields_exec(v, i + 1) {
                Some((fields, j)) => Some((JsonValue::Obj(fields), j)),
                None => None,
            }
        }
    } else if crate::text::digit_val_exec(c) < 10 || c == '-' {
        let mut j: usize = i;
        while j < v.len() && is_num_char_exec(v[j])
            invariant
                i <= j <= v@.len(),
                forall|m: int| i <= m < j ==> is_num_char(#[trigger] v@[m]),
            decreases v@.len() - j,
        {
            j = j + 1;
        }
        proof {
            assert(forall|m: int|
                0 <= m < j - i ==> is_num_char(#[trigger] u[m]));
            if j < v@.len() {
                assert(u[j - i] == v@[j as int]);
            }
            lemma_num_token_len_is(u, j as int - i);
        }
        let mut raw: Vec<char> = Vec::new();
        let mut k: usize = i;
        while k < j
            invariant
                i <= k <= j <= v@.len(),
                raw@ == v@.subrange(i as int, k as int),
            decreases j - k,
        {
            raw.push(v[k]);
            k = k + 1;
            proof {
                assert(raw@ =~= v@.subrange(i as int, k as int));
            }
        }
        proof {
            assert(raw@ =~= u.subrange(0, j as int - i));
            assert(u.subrange(j as int - i, u.len() as int) =~= v@.subrange(
                j as int,
                v@.len() as int,
            ));
        }
        if j == i {
            proof {
                assert(is_num_char(u[0]));
                assert(false);
            }
        }
        Some((JsonValue::Num(crate::text::string_of_chars(&raw)), j))
    } else {
        None
    }
}

/// Reads a nonempty array's items; matches `parse_items` on the text from
/// position `i`.
pub fn parse_items_exec(v: &Vec<char>, i: usize) -> (r: Option<(Vec<JsonValue>, usize)>)
    requires
        i <= v@.len(),
    ensures
        match r {
            Some(p) => i < p.1 <= v@.len() && parse_items(
                v@.subrange(i as int, v@.len() as int),
            ) == Some((json_view_list(p.0@), v@.subrange(p.1 as int, v@.len() as int))),
            None => parse_items(v@.subrange(i as int, v@.len() as int)) is None,
        },
    decreases v@.len() - i, 1int,
{
    let ghost u = v@.subrange(i as int, v@.len() as int);
    match parse_value_exec(v, i) {
        None => None,
        Some((val, j)) => {
            let ghost rem = v@.subrange(j as int, v@.len() as int);
            proof {
                if rem.len() > 0 {
                    assert(rem[0] == v@[j as int]);
                }
            }
            if j < v.len() && v[j] == ',' {
                proof {
                    assert(rem.drop_first() =~= v@.subrange(j as int + 1, v@.len() as int));
                }
                match parse_items_exec(v, j + 1) {
                    Some((items, k)) => {
                        let mut items = items;
                        let ghost pre = items@;
                        items.insert(0, val);
                        proof {
                            assert(items@ =~= seq![val] + pre);
                            lemma_json_view_list_prepend(val, pre);
                        }
                        Some((items, k))
                    },
                    None => None,
                }
            } else if j < v.len() && v[j] == ']' {
                let mut items: Vec<JsonValue> = Vec::new();
                items.push(val);
                proof {
                    lemma_json_view_list_index(items@);
                    assert(json_view_list(items@) =~= seq![json_view(val)]);
                    assert(rem.drop_first() =~= v@.subrange(j as int + 1, v@.len() as int));
                }
                Some((items, j + 1))
            } else {
                None
            }
        },
    }
}

/// Reads a nonempty object's fields; matches `parse_fields` on the text
/// from position `i`.
#[verifier::rlimit(60)]
pub fn parse_fields_exec(v: &Vec<char>, i: usize) -> (r: Option<(Vec<JsonField>, usize)>)
    requires
        i <= v@.len(),
    ensures
        match r {
            Some(p) => i < p.1 <= v@.len() && parse_fields(
                v@.subrange(i as int, v@.len() as int),
            ) == Some((json_view_fields(p.0@), v@.subrange(p.1 as int, v@.len() as int))),
            None => parse_fields(v@.subrange(i as int, v@.len() as int)) is None,
        },
    decreases v@.len() - i, 1int,
{
    let ghost u = v@.subrange(i as int, v@.len() as int);
    if i >= v.len() || v[i] != '"' {
        proof {
            if u.len() > 0 {
                assert(u[0] == v@[i as int]);
            }
        }
        return None;
    }
    proof {
        assert(u[0] == v@[i as int]);
        assert(u.drop_first() =~= v@.subrange(i as int + 1, v@.len() as int));
    }
    match parse_str_rest_exec(v, i + 1) {
        None => None,
        Some((key_chars, j)) => {
            let ghost rem = v@.subrange(j as int, v@.len() as int);
            proof {
                if rem.len() > 0 {
                    assert(rem[0] == v@[j as int]);
                }
            }
            if !(j < v.len() && v[j] == ':') {
                return None;
            }
            proof {
                assert(rem.drop_first() =~= v@.subrange(j as int + 1, v@.len() as int));
            }
            let key = crate::text::string_of_chars(&key_chars);
            match parse_value_exec(v, j + 1) {
                None => None,
                Some((val, k)) => {
                    let ghost rem2 = v@.subrange(k as int, v@.len() as int);
                    proof {
                        if rem2.len() > 0 {
                            assert(rem2[0] == v@[k as int]);
                        }
                    }
                    if k < v.len() && v[k] == ',' {
                        proof {
                            assert(rem2.drop_first() =~= v@.subrange(
                                k as int + 1,
                                v@.len() as int,
                            ));
                        }
                        match parse_fields_exec(v, k + 1) {
                            Some((fields, m)) => {
                                let mut fields = fields;
                                let ghost pre = fields@;
                                fields.insert(0, JsonField { key, value: val });
                                proof {
                                    assert(fields@ =~= seq![
                                        JsonField { key, value: val },
                                    ] + pre);
                                    lemma_json_view_fields_prepend(
                                        JsonField { key, value: val },
                                        pre,
                                    );
                                }
                                Some((fields, m))
                            },
                            None => None,
                        }
                    } else if k < v.len() && v[k] == '}' {
                        let mut fields: Vec<JsonField> = Vec::new();
                        fields.push(JsonField { key, value: val });
                        proof {
                            lemma_json_view_fields_index(fields@);
                            assert(json_view_fields(fields@) =~= seq![
                                FieldModel { key: key@, value: json_view(val) },
                            ]);
                            assert(rem2.drop_first() =~= v@.subrange(
                                k as int + 1,
                                v@.len() as int,
                            ));
                        }
                        Some((fields, k + 1))
                    } else {
                        None
                    }
                },
            }
        },
    }
}

/// Reads a complete text as one value; matches `parse_json_complete`.
pub fn parse_json_text(s: &str) -> (r: Option<JsonValue>)
    ensures
        match r {
            Some(val) => parse_json_complete(s@) == Some(json_view(val)),
            None => parse_json_complete(s@) is None,
        },
{
    let v = crate::text::chars_of(s);
    proof {
        assert(v@.subrange(0, v@.len() as int) =~= s@);
    }
    match parse_value_exec(&v, 0) {
        Some((val, j)) => {
            if j == v.len() {
                Some(val)
            } else {
                None
            }
        },
        None => None,
    }
}


/// A character is its own code point, read back.
proof fn lemma_char_code_identity(c: char)
    ensures
        c as u32 as int == c as int,
        ((c as u32 as int) as char) == c,
{
}

/// Reading back the hexadecimal digit character of `d` yields `d`.
proof fn lemma_hex_round_trip(d: int)
    requires
        0 <= d < 16,
    ensures
        hex_val(hex_char(d)) == d,
        is_hex(hex_char(d)),
{
    if d < 10 {
        crate::text::lemma_digit_round_trip(d);
    }
}

/// Every printable rendering is nonempty and starts with one of the six
/// value-opening characters.
proof fn lemma_print_first_char(m: JsonModel)
    requires
        printable(m),
    ensures
        print_model(m).len() >= 1,
        print_model(m)[0] == 'n' || print_model(m)[0] == 't' || print_model(m)[0] == 'f'
            || print_model(m)[0] == '"' || print_model(m)[0] == '[' || print_model(m)[0] == '{',
{
    reveal_strlit("null");
    reveal_strlit("true");
    reveal_strlit("false");
    reveal_strlit("[]");
    reveal_strlit("{}");
    match m {
        JsonModel::Null => {},
        JsonModel::Bool(_) => {},
        JsonModel::Num(_) => {},
        JsonModel::Str(sq) => {
            assert(print_model(m)[0] == '"');
        },
        JsonModel::Arr(items) => {
            if items.len() > 0 {
                assert(print_model(m)[0] == '[');
            }
        },
        JsonModel::Obj(fields) => {
            if fields.len() > 0 {
                assert(print_model(m)[0] == '{');
            }
        },
    }
}

/// Reading back an escaped string body yields the original characters.
proof fn lemma_parse_print_str(sq: Seq<char>, rest: Seq<char>)
    ensures
        parse_str_rest(str_body(sq) + seq!['"'] + rest) == Some((sq, rest)),
    decreases sq.len(),
{
    let s = str_body(sq) + seq!['"'] + rest;
    if sq.len() == 0 {
        assert(s =~= seq!['"'] + rest);
        assert(s[0] == '"');
        assert(s.drop_first() =~= rest);
    } else {
        lemma_str_body_front(sq);
        let c = sq[0];
        let tail = sq.drop_first();
        lemma_parse_print_str(tail, rest);
        assert(s =~= esc_char(c) + (str_body(tail) + seq!['"'] + rest));
        let inner = str_body(tail) + seq!['"'] + rest;
        if c == '"' || c == '\\' || c == '\n' || c == '\r' || c == '\t' {
            assert(s[0] == '\\');
            assert(s[1] == esc_char(c)[1]);
            assert(s.subrange(2, s.len() as int) =~= inner);
            assert(seq![c] + tail =~= sq);
        } else if (c as u32) < 32 {
            assert(s[0] == '\\');
            assert(s[1] == 'u');
            assert(s[2] == '0');
            assert(s[3] == '0');
            assert(s[4] == hex_char(c as u32 as int / 16));
            assert(s[5] == hex_char(c as u32 as int % 16));
            lemma_hex_round_trip(c as u32 as int / 16);
            lemma_hex_round_trip(c as u32 as int % 16);
            vstd::arithmetic::div_mod::lemma_fundamental_div_mod(c as u32 as int, 16);
            assert(hex_val(s[4]) * 16 + hex_val(s[5]) == c as u32 as int);
            lemma_char_code_identity(c);
            assert(s.subrange(6, s.len() as int) =~= inner);
            assert(seq![c] + tail =~= sq);
        } else {
            assert(s[0] == c);
            assert(c != '"' && c != '\\');
            assert(s.drop_first() =~= inner);
            assert(seq![c] + tail =~= sq);
        }
    }
}

/// Reading back a printed value yields the value and leaves the rest.
#[verifier::rlimit(100)]
pub proof fn lemma_parse_print_value(m: JsonModel, rest: Seq<char>)
    requires
        printable(m),
    ensures
        parse_value(print_model(m) + rest) == Some((m, rest)),
    decreases m, 1int,
{
    let s = print_model(m) + rest;
    reveal_strlit("null");
    reveal_strlit("true");
    reveal_strlit("false");
    reveal_strlit("[]");
    reveal_strlit("{}");
    match m {
        JsonModel::Null => {
            assert(s.len() >= 4);
            assert(s[0] == 'n');
            assert(s.subrange(0, 4) =~= "null"@);
            assert(s.subrange(4, s.len() as int) =~= rest);
            assert(parse_value(s) =~~= Some((m, rest)));
        },
        JsonModel::Bool(b) => {
            if b {
                assert(s[0] == 't');
                assert(s.subrange(0, 4) =~= "true"@);
                assert(s.subrange(4, s.len() as int) =~= rest);
            } else {
                assert(s[0] == 'f');
                assert(s.subrange(0, 5) =~= "false"@);
                assert(s.subrange(5, s.len() as int) =~= rest);
            }
            assert(parse_value(s) =~~= Some((m, rest)));
        },
        JsonModel::Num(_) => {},
        JsonModel::Str(sq) => {
            assert(s[0] == '"');
            assert(s.drop_first() =~= str_body(sq) + seq!['"'] + rest);
            lemma_parse_print_str(sq, rest);
            assert(parse_value(s) =~~= Some((m, rest)));
        },
        JsonModel::Arr(items) => {
            if items.len() == 0 {
                assert(s[0] == '[');
                assert(s[1] == ']');
                assert(s.subrange(2, s.len() as int) =~= rest);
                assert(items =~= Seq::<JsonModel>::empty());
            } else {
                assert(s =~= seq!['['] + (print_items(items) + seq![']'] + rest));
                assert(s[0] == '[');
                lemma_print_first_char(items[0]);
                assert(print_items(items)[0] == print_model(items[0])[0]);
                assert(s[1] == print_items(items)[0]);
                assert(s[1] != ']');
                assert(s.drop_first() =~= print_items(items) + seq![']'] + rest);
                lemma_parse_print_items(items, rest);
            }
            assert(parse_value(s) =~~= Some((m, rest)));
        },
        JsonModel::Obj(fields) => {
            if fields.len() == 0 {
                assert(s[0] == '{');
                assert(s[1] == '}');
                assert(s.subrange(2, s.len() as int) =~= rest);
                assert(fields =~= Seq::<FieldModel>::empty());
            } else {
                assert(s =~= seq!['{'] + (print_fields(fields) + seq!['}'] + rest));
                assert(s[0] == '{');
                assert(print_fields(fields)[0] == '"');
                assert(s[1] == print_fields(fields)[0]);
                assert(s.drop_first() =~= print_fields(fields) + seq!['}'] + rest);
                lemma_parse_print_fields(fields, rest);
            }
            assert(parse_value(s) =~~= Some((m, rest)));
        },
    }
}

/// Reading back printed items yields the items and leaves the rest.
proof fn lemma_parse_print_items(items: Seq<JsonModel>, rest: Seq<char>)
    requires
        all_printable(items),
        items.len() >= 1,
    ensures
        parse_items(print_items(items) + seq![']'] + rest) == Some((items, rest)),
    decreases items, 0int,
{
    let s = print_items(items) + seq![']'] + rest;
    lemma_print_first_char(items[0]);
    if items.len() == 1 {
        let r = seq![']'] + rest;
        assert(s =~= print_model(items[0]) + r);
        lemma_parse_print_value(items[0], r);
        assert(r.len() < s.len());
        assert(r[0] == ']');
        assert(r.drop_first() =~= rest);
        assert(seq![items[0]] =~= items);
    } else {
        let tail = items.drop_first();
        assert(printable(items[0]) && all_printable(tail));
        let r = seq![','] + (print_items(tail) + seq![']'] + rest);
        assert(s =~= print_model(items[0]) + r);
        lemma_parse_print_value(items[0], r);
        assert(r.len() < s.len());
        assert(r[0] == ',');
        assert(r.drop_first() =~= print_items(tail) + seq![']'] + rest);
        lemma_parse_print_items(tail, rest);
        assert(seq![items[0]] + tail =~= items);
    }
}

/// Reading back printed fields yields the fields and leaves the rest.
#[verifier::rlimit(100)]
proof fn lemma_parse_print_fields(fields: Seq<FieldModel>, rest: Seq<char>)
    requires
        all_fields_printable(fields),
        fields.len() >= 1,
    ensures
        parse_fields(print_fields(fields) + seq!['}'] + rest) == Some((fields, rest)),
    decreases fields, 0int,
{
    let s = print_fields(fields) + seq!['}'] + rest;
    let f0 = fields[0];
    assert(printable(f0.value));
    lemma_print_first_char(f0.value);
    if fields.len() == 1 {
        let after_val = seq!['}'] + rest;
        assert(s =~= seq!['"'] + (str_body(f0.key) + seq!['"'] + (seq![':'] + (print_model(
            f0.value,
        ) + after_val))));
        assert(s[0] == '"');
        assert(s.drop_first() =~= str_body(f0.key) + seq!['"'] + (seq![':'] + (print_model(
            f0.value,
        ) + after_val)));
        lemma_parse_print_str(f0.key, seq![':'] + (print_model(f0.value) + after_val));
        let r = seq![':'] + (print_model(f0.value) + after_val);
        assert(r.len() < s.len());
        assert(r[0] == ':');
        assert(r.drop_first() =~= print_model(f0.value) + after_val);
        lemma_parse_print_value(f0.value, after_val);
        let r2 = after_val;
        assert(r2.len() < s.len());
        assert(r2[0] == '}');
        assert(r2.drop_first() =~= rest);
        assert(seq![FieldModel { key: f0.key, value: f0.value }] =~= fields);
    } else {
        let tail = fields.drop_first();
        assert(all_fields_printable(tail));
        let after_val = seq![','] + (print_fields(tail) + seq!['}'] + rest);
        assert(s =~= seq!['"'] + (str_body(f0.key) + seq!['"'] + (seq![':'] + (print_model(
            f0.value,
        ) + after_val))));
        assert(s[0] == '"');
        assert(s.drop_first() =~= str_body(f0.key) + seq!['"'] + (seq![':'] + (print_model(
            f0.value,
        ) + after_val)));
        lemma_parse_print_str(f0.key, seq![':'] + (print_model(f0.value) + after_val));
        let r = seq![':'] + (print_model(f0.value) + after_val);
        assert(r.len() < s.len());
        assert(r[0] == ':');
        assert(r.drop_first() =~= print_model(f0.value) + after_val);
        lemma_parse_print_value(f0.value, after_val);
        let r2 = after_val;
        assert(r2.len() < s.len());
        assert(r2[0] == ',');
        assert(r2.drop_first() =~= print_fields(tail) + seq!['}'] + rest);
        lemma_parse_print_fields(tail, rest);
        assert(seq![FieldModel { key: f0.key, value: f0.value }] + tail =~= fields);
    }
}

/// Reading back a complete printed value yields exactly that value: the
/// wire format round-trips.
pub proof fn lemma_json_round_trip(m: JsonModel)
    requires
        printable(m),
    ensures
        parse_json_complete(print_model(m)) == Some(m),
{
    lemma_parse_print_value(m, Seq::empty());
    assert(print_model(m) + Seq::<char>::empty() =~= print_model(m));
}


/// The value of the first field bearing `key`, if any.
pub open spec fn obj_get(fields: Seq<FieldModel>, key: Seq<char>) -> Option<JsonModel>
    decreases fields.len(),
{
    if fields.len() == 0 {
        None
    } else if fields[0].key == key {
        Some(fields[0].value)
    } else {
        obj_get(fields.drop_first(), key)
    }
}

/// When nothing before position `i` matches, the lookup is decided by the
/// remainder.
proof fn lemma_obj_get_skip(fields: Seq<FieldModel>, key: Seq<char>, i: int)
    requires
        0 <= i <= fields.len(),
        forall|j: int| 0 <= j < i ==> (#[trigger] fields[j]).key != key,
    ensures
        obj_get(fields, key) == obj_get(fields.subrange(i, fields.len() as int), key),
    decreases i,
{
    if i > 0 {
        assert(fields[0].key != key);
        let t = fields.drop_first();
        lemma_obj_get_skip(t, key, i - 1);
        assert(t.subrange(i - 1, t.len() as int) =~= fields.subrange(i, fields.len() as int));
    } else {
        assert(fields.subrange(0, fields.len() as int) =~= fields);
    }
}

/// Looks a field up by key; matches `obj_get` on the tree's image.
pub fn obj_get_exec<'a>(fields: &'a Vec<JsonField>, key: &str) -> (r: Option<&'a JsonValue>)
    ensures
        match r {
            Some(v) => obj_get(json_view_fields(fields@), key@) == Some(json_view(*v)),
            None => obj_get(json_view_fields(fields@), key@) is None,
        },
{
    let n = fields.len();
    let ghost fm = json_view_fields(fields@);
    proof {
        lemma_json_view_fields_index(fields@);
    }
    let mut i: usize = 0;
    while i < n
        invariant
            n == fields@.len(),
            fm == json_view_fields(fields@),
            fm.len() == n,
            forall|j: int|
                0 <= j < fm.len() ==> #[trigger] fm[j] == (FieldModel {
                    key: fields@[j].key@,
                    value: json_view(fields@[j].value),
                }),
            i <= n,
            forall|j: int| 0 <= j < i ==> (#[trigger] fm[j]).key != key@,
        decreases n - i,
    {
        if crate::text::str_eq_str(fields[i].key.as_str(), key) {
            proof {
                lemma_obj_get_skip(fm, key@, i as int);
                let rest = fm.subrange(i as int, n as int);
                assert(rest[0] == fm[i as int]);
            }
            return Some(&fields[i].value);
        }
        i = i + 1;
    }
    proof {
        lemma_obj_get_skip(fm, key@, n as int);
        assert(fm.subrange(n as int, n as int) =~= Seq::<FieldModel>::empty());
    }
    None
}

} // verus!
