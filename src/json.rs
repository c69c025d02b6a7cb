//! The JSON catalog document: a pretty-printed object with the format key,
//! the per-artifact entries and the totals. This document format is framed
//! here (two-space indentation, keys in sorted order, as serde_json prints
//! such an object); every string in it is encoded by serde_json.
use vstd::prelude::*;
use crate::http::artifacts_view;
use crate::text::{append, decimal, hex2, opt_chars, push_decimal, string_of};
use crate::types::{Metadata, MetadataView};

verus! {

#[verifier::external_type_specification]
#[verifier::external_body]
pub struct ExJsonError(serde_json::Error);

/// One character inside a JSON string literal: `"` and `\\` behind a
/// backslash; backspace, tab, line feed, form feed and carriage return as
/// `\b \t \n \f \r`; other control characters below 0x20 as `\u00xx` in
/// lowercase hexadecimal; every other character as it is.
pub open spec fn json_escape_char(c: char) -> Seq<char> {
    if c == '"' {
        seq!['\\', '"']
    } else if c == '\\' {
        seq!['\\', '\\']
    } else if c == '\x08' {
        seq!['\\', 'b']
    } else if c == '\t' {
        seq!['\\', 't']
    } else if c == '\n' {
        seq!['\\', 'n']
    } else if c == '\x0C' {
        seq!['\\', 'f']
    } else if c == '\r' {
        seq!['\\', 'r']
    } else if (c as u32) < 0x20 {
        seq!['\\', 'u', '0', '0'] + hex2((c as u32) as u8)
    } else {
        seq![c]
    }
}

/// The characters of `s`, each escaped for a JSON string literal.
pub open spec fn json_escaped(s: Seq<char>) -> Seq<char>
    decreases s.len(),
{
    if s.len() == 0 {
        seq![]
    } else {
        json_escaped(s.drop_last()) + json_escape_char(s.last())
    }
}

/// The JSON string literal of `s`: its escaped characters in double quotes.
pub open spec fn json_quoted(s: Seq<char>) -> Seq<char> {
    seq!['"'] + json_escaped(s) + seq!['"']
}

/// Relies on `serde_json::to_string` applied to a `str`: it writes into a
/// vector, which cannot fail, the string literal that `format_escaped_str`
/// gives, as `json_quoted` states it.
#[verifier::external_body]
fn json_string(s: &str) -> (r: Result<String, serde_json::Error>)
    ensures
        r is Ok,
        r matches Ok(t) ==> t@ == json_quoted(s@),
{
    serde_json::to_string(s)
}

/// A value of a catalog field.
pub enum JsonScalar {
    Text(Seq<char>),
    Number(nat),
}

/// A value of a catalog field: text or a non-negative integer.
#[derive(Debug)]
pub enum FieldValue {
    Text(String),
    Number(u128),
}

/// One key and value of a catalog entry.
#[derive(Debug)]
pub struct Field {
    pub key: String,
    pub value: FieldValue,
}

impl View for Field {
    type V = (Seq<char>, JsonScalar);

    open spec fn view(&self) -> (Seq<char>, JsonScalar) {
        (
            self.key@,
            match self.value {
                FieldValue::Text(s) => JsonScalar::Text(s@),
                FieldValue::Number(n) => JsonScalar::Number(n as nat),
            },
        )
    }
}

/// The fields of an entry as keys and values.
pub open spec fn fields_view(v: Seq<Field>) -> Seq<(Seq<char>, JsonScalar)> {
    v.map_values(|f: Field| f@)
}

/// The entries of a catalog as keys and values.
pub open spec fn entries_view(v: Seq<Vec<Field>>) -> Seq<Seq<(Seq<char>, JsonScalar)>> {
    v.map_values(|e: Vec<Field>| fields_view(e@))
}

/// A value as JSON text.
pub open spec fn scalar_text(v: JsonScalar) -> Seq<char> {
    match v {
        JsonScalar::Text(s) => json_quoted(s),
        JsonScalar::Number(n) => decimal(n),
    }
}

/// One `"key": value` line at `indent`.
pub open spec fn field_text(indent: Seq<char>, f: (Seq<char>, JsonScalar)) -> Seq<char> {
    indent + json_quoted(f.0) + ": "@ + scalar_text(f.1)
}

/// The lines of an object's fields, joined by `,` and line breaks.
pub open spec fn fields_text(indent: Seq<char>, fields: Seq<(Seq<char>, JsonScalar)>) -> Seq<char>
    decreases fields.len(),
{
    if fields.len() == 0 {
        seq![]
    } else if fields.len() == 1 {
        field_text(indent, fields[0])
    } else {
        fields_text(indent, fields.drop_last()) + ",\n"@ + field_text(indent, fields.last())
    }
}

/// One catalog entry as an object nested in the `packages` array.
pub open spec fn entry_text(fields: Seq<(Seq<char>, JsonScalar)>) -> Seq<char> {
    if fields.len() == 0 {
        "    {}"@
    } else {
        "    {\n"@ + fields_text("      "@, fields) + "\n    }"@
    }
}

/// The entries, joined by `,` and line breaks.
pub open spec fn entries_text(entries: Seq<Seq<(Seq<char>, JsonScalar)>>) -> Seq<char>
    decreases entries.len(),
{
    if entries.len() == 0 {
        seq![]
    } else if entries.len() == 1 {
        entry_text(entries[0])
    } else {
        entries_text(entries.drop_last()) + ",\n"@ + entry_text(entries.last())
    }
}

/// The `packages` array.
pub open spec fn packages_text(entries: Seq<Seq<(Seq<char>, JsonScalar)>>) -> Seq<char> {
    if entries.len() == 0 {
        "[]"@
    } else {
        "[\n"@ + entries_text(entries) + "\n  ]"@
    }
}

/// The catalog document: `format`, `packages`, `total_count` and
/// `total_size_bytes`, in that order.
pub open spec fn catalog_json(
    format: Seq<char>,
    entries: Seq<Seq<(Seq<char>, JsonScalar)>>,
    total_count: nat,
    total_size: nat,
) -> Seq<char> {
    "{\n  "@ + json_quoted("format"@) + ": "@ + json_quoted(format) + ",\n  "@ + json_quoted(
        "packages"@,
    ) + ": "@ + packages_text(entries) + ",\n  "@ + json_quoted("total_count"@) + ": "@ + decimal(
        total_count,
    ) + ",\n  "@ + json_quoted("total_size_bytes"@) + ": "@ + decimal(total_size) + "\n}"@
}

/// A text field.
pub open spec fn text_field(key: Seq<char>, v: Seq<char>) -> (Seq<char>, JsonScalar) {
    (key, JsonScalar::Text(v))
}

/// A text field when the value is present; nothing otherwise.
pub open spec fn optional_field(key: Seq<char>, v: Option<Seq<char>>) -> Seq<(Seq<char>, JsonScalar)> {
    match v {
        Some(t) => seq![text_field(key, t)],
        None => seq![],
    }
}

/// The sum of the sizes of the artifacts.
pub open spec fn total_size(arts: Seq<MetadataView>) -> nat
    decreases arts.len(),
{
    if arts.len() == 0 {
        0
    } else {
        total_size(arts.drop_last()) + arts.last().size_bytes as nat
    }
}

/// Named output documents as names and bytes.
pub open spec fn documents_view(docs: Seq<(String, Vec<u8>)>) -> Seq<(Seq<char>, Seq<u8>)> {
    docs.map_values(|d: (String, Vec<u8>)| (d.0@, d.1@))
}

/// Appends a text field.
pub(crate) fn push_text_field(fields: &mut Vec<Field>, key: &str, v: String)
    ensures
        fields_view(final(fields)@) == fields_view(old(fields)@).push(text_field(key@, v@)),
{
    fields.push(Field { key: string_of(key), value: FieldValue::Text(v) });
    assert(fields_view(final(fields)@) =~= fields_view(old(fields)@).push(text_field(key@, v@)));
}

/// Appends a text field when the value is present.
pub(crate) fn push_optional_field(fields: &mut Vec<Field>, key: &str, v: Option<String>)
    ensures
        fields_view(final(fields)@) == fields_view(old(fields)@) + optional_field(key@, opt_chars(v)),
{
    match v {
        Some(t) => {
            push_text_field(fields, key, t);
            assert(fields_view(final(fields)@) =~= fields_view(old(fields)@) + optional_field(
                key@,
                opt_chars(Some(t)),
            ));
        },
        None => {
            assert(fields_view(old(fields)@) + optional_field(key@, None) =~= fields_view(
                old(fields)@,
            ));
        },
    }
}

/// Appends a number field.
pub(crate) fn push_number_field(fields: &mut Vec<Field>, key: &str, n: u64)
    ensures
        fields_view(final(fields)@) == fields_view(old(fields)@).push(
            (key@, JsonScalar::Number(n as nat)),
        ),
{
    fields.push(Field { key: string_of(key), value: FieldValue::Number(n as u128) });
    assert(fields_view(final(fields)@) =~= fields_view(old(fields)@).push(
        (key@, JsonScalar::Number(n as nat)),
    ));
}

/// The sum of the sizes of the artifacts, which cannot overflow 128 bits.
pub(crate) fn sum_sizes(artifacts: &Vec<Metadata>) -> (r: u128)
    ensures
        r == total_size(artifacts_view(artifacts@)),
{
    let ghost arts = artifacts_view(artifacts@);
    let mut total: u128 = 0;
    let mut i: usize = 0;
    while i < artifacts.len()
        invariant
            i <= artifacts.len(),
            arts == artifacts_view(artifacts@),
            total == total_size(arts.subrange(0, i as int)),
            total <= i * 0xFFFF_FFFF_FFFF_FFFFu128,
        decreases artifacts.len() - i,
    {
        assert(arts.subrange(0, i + 1).drop_last() =~= arts.subrange(0, i as int));
        assert(arts.subrange(0, i + 1).last() == artifacts@[i as int]@);
        let size = artifacts[i].size_bytes;
        assert(total + size <= (i + 1) * 0xFFFF_FFFF_FFFF_FFFFu128) by (nonlinear_arith)
            requires
                total <= i * 0xFFFF_FFFF_FFFF_FFFFu128,
                size <= 0xFFFF_FFFF_FFFF_FFFFu64,
        ;
        assert((i + 1) * 0xFFFF_FFFF_FFFF_FFFFu128 <= 0x1_0000_0000_0000_0000 * 0xFFFF_FFFF_FFFF_FFFFu128)
            by (nonlinear_arith)
            requires
                i < 0x1_0000_0000_0000_0000,
        ;
        total = total + size as u128;
        i = i + 1;
    }
    assert(arts.subrange(0, arts.len() as int) =~= arts);
    total
}

/// The JSON string literal of `s`.
fn quoted(s: &str) -> (r: String)
    ensures
        r@ == json_quoted(s@),
{
    match json_string(s) {
        Ok(t) => t,
        Err(_) => String::new(),
    }
}

/// Appends `"key": value` at `indent`.
fn push_field(out: &mut String, indent: &str, f: &Field)
    ensures
        final(out)@ == old(out)@ + field_text(indent@, f@),
{
    let key = quoted(f.key.as_str());
    let mut line = string_of(indent);
    append(&mut line, key.as_str());
    append(&mut line, ": ");
    match &f.value {
        FieldValue::Text(s) => {
            let v = quoted(s.as_str());
            append(&mut line, v.as_str());
        },
        FieldValue::Number(n) => {
            push_decimal(&mut line, *n);
        },
    }
    append(out, line.as_str());
}

/// Appends one catalog entry.
fn push_entry(out: &mut String, fields: &Vec<Field>)
    ensures
        final(out)@ == old(out)@ + entry_text(fields_view(fields@)),
{
    let ghost fv = fields_view(fields@);
    if fields.len() == 0 {
        append(out, "    {}");
        return;
    }
    let mut text = String::new();
    let mut i: usize = 0;
    while i < fields.len()
        invariant
            i <= fields.len(),
            fv == fields_view(fields@),
            text@ == fields_text("      "@, fv.subrange(0, i as int)),
        decreases fields.len() - i,
    {
        let ghost pre = fv.subrange(0, i + 1);
        assert(pre.drop_last() =~= fv.subrange(0, i as int));
        if i > 0 {
            append(&mut text, ",\n");
        }
        push_field(&mut text, "      ", &fields[i]);
        proof {
            if i == 0 {
                assert(pre[0] == fields@[0]@);
                assert(text@ =~= fields_text("      "@, pre));
            }
        }
        i = i + 1;
    }
    assert(fv.subrange(0, fv.len() as int) =~= fv);
    let mut e = string_of("    {\n");
    append(&mut e, text.as_str());
    append(&mut e, "\n    }");
    append(out, e.as_str());
}

/// Appends `"key": ` at the top level of the document, after a separator.
fn push_top_key(out: &mut String, sep: &str, key: &str)
    ensures
        final(out)@ == old(out)@ + sep@ + json_quoted(key@) + ": "@,
{
    let k = quoted(key);
    append(out, sep);
    append(out, k.as_str());
    append(out, ": ");
}

/// The catalog document, as `catalog_json` says.
pub fn render_catalog(format: &str, entries: &Vec<Vec<Field>>, total_count: usize, total_size: u128) -> (r:
    String)
    ensures
        r@ == catalog_json(format@, entries_view(entries@), total_count as nat, total_size as nat),
{
    let ghost ev = entries_view(entries@);
    let mut list = String::new();
    let mut i: usize = 0;
    while i < entries.len()
        invariant
            i <= entries.len(),
            ev == entries_view(entries@),
            list@ == entries_text(ev.subrange(0, i as int)),
        decreases entries.len() - i,
    {
        let ghost pre = ev.subrange(0, i + 1);
        assert(pre.drop_last() =~= ev.subrange(0, i as int));
        assert(pre.last() == fields_view(entries@[i as int]@));
        if i > 0 {
            append(&mut list, ",\n");
        }
        push_entry(&mut list, &entries[i]);
        proof {
            if i == 0 {
                assert(pre[0] == pre.last());
                assert(list@ =~= entries_text(pre));
            }
        }
        i = i + 1;
    }
    assert(ev.subrange(0, ev.len() as int) =~= ev);
    let mut doc = string_of("{");
    push_top_key(&mut doc, "\n  ", "format");
    let f = quoted(format);
    append(&mut doc, f.as_str());
    push_top_key(&mut doc, ",\n  ", "packages");
    if entries.len() == 0 {
        append(&mut doc, "[]");
    } else {
        append(&mut doc, "[\n");
        append(&mut doc, list.as_str());
        append(&mut doc, "\n  ]");
    }
    push_top_key(&mut doc, ",\n  ", "total_count");
    push_decimal(&mut doc, total_count as u128);
    push_top_key(&mut doc, ",\n  ", "total_size_bytes");
    push_decimal(&mut doc, total_size);
    append(&mut doc, "\n}");
    proof {
        reveal_strlit("{");
        reveal_strlit("\n  ");
        reveal_strlit("{\n  ");
        assert("{"@ + "\n  "@ =~= "{\n  "@);
    }
    assert(doc@ =~= catalog_json(format@, ev, total_count as nat, total_size as nat));
    doc
}

} // verus!
