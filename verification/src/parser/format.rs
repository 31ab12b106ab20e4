use crate::parser::metadata::{MetadataView, SalesforceMetadata};
use crate::parser::types::object::{
    Field, FieldView, RecordType, RecordTypeView, ValidationRule, ValidationRuleView, Workflow,
    WorkflowView,
};
use crate::text::push_text;
use vstd::prelude::*;

verus! {

/// Some rows, one after the other.
pub open spec fn all_rows(rows: Seq<Seq<char>>) -> Seq<char>
    decreases rows.len(),
{
    if rows.len() == 0 {
        Seq::empty()
    } else {
        all_rows(rows.drop_last()) + rows.last()
    }
}

/// A line that names a value, where there is one.
pub open spec fn named_line(prefix: Seq<char>, value: Option<Seq<char>>) -> Seq<char> {
    match value {
        Some(v) => prefix + v + "\n"@,
        None => Seq::empty(),
    }
}

/// `Y` for a set flag, `N` for an unset one.
pub open spec fn flag_letter(flag: bool) -> Seq<char> {
    if flag {
        "Y"@
    } else {
        "N"@
    }
}

/// The row of a field: its name, its type or `-`, and whether it is required.
pub open spec fn field_row(f: FieldView) -> Seq<char> {
    "  "@ + f.name + " "@ + (match f.field_type {
        Some(t) => t,
        None => "-"@,
    }) + " "@ + flag_letter(f.required) + "\n"@
}

/// The row of something that has a name and is active or not.
pub open spec fn active_row(name: Seq<char>, active: bool) -> Seq<char> {
    "  "@ + name + " "@ + flag_letter(active) + "\n"@
}

/// A heading and its rows, or nothing where there are no rows.
pub open spec fn block(heading: Seq<char>, rows: Seq<Seq<char>>) -> Seq<char> {
    if rows.len() == 0 {
        Seq::empty()
    } else {
        heading + all_rows(rows)
    }
}

/// The readable form of a record: the lines for its name, type and label,
/// then one block each for its fields, validation rules, workflows and
/// record types, as far as it has any.
pub open spec fn toon_text(m: MetadataView) -> Seq<char> {
    named_line("object: "@, m.full_name) + named_line("type: "@, m.object_type) + named_line(
        "label: "@,
        m.label,
    ) + block("\nfields:\n  name type required\n"@, m.fields.map_values(|f: FieldView| field_row(f)))
        + block(
        "\nvalidations:\n  name active\n"@,
        m.validation_rules.map_values(|r: ValidationRuleView| active_row(r.name, r.active)),
    ) + block(
        "\nworkflows:\n  name active\n"@,
        m.workflows.map_values(|w: WorkflowView| active_row(w.name, w.active)),
    ) + block(
        "\nrecord_types:\n  name active\n"@,
        m.record_types.map_values(|t: RecordTypeView| active_row(t.name, t.active)),
    )
}

/// Some parts with ` | ` between one and the next.
pub open spec fn joined_parts(parts: Seq<Seq<char>>) -> Seq<char>
    decreases parts.len(),
{
    if parts.len() == 0 {
        Seq::empty()
    } else if parts.len() == 1 {
        parts[0]
    } else {
        joined_parts(parts.drop_last()) + " | "@ + parts.last()
    }
}

/// A part that names a value, where there is one.
pub open spec fn named_part(prefix: Seq<char>, value: Option<Seq<char>>) -> Seq<Seq<char>> {
    match value {
        Some(v) => seq![prefix + v],
        None => Seq::empty(),
    }
}

/// The part of a field: its name, `!` if it is required, `:`, and its type or `?`.
pub open spec fn field_part(f: FieldView) -> Seq<char> {
    f.name + (if f.required {
        "!"@
    } else {
        Seq::empty()
    }) + ":"@ + (match f.field_type {
        Some(t) => t,
        None => "?"@,
    })
}

/// The parts of the one-line form of a record: its name, its type, and its fields.
pub open spec fn compact_parts(m: MetadataView) -> Seq<Seq<char>> {
    named_part("obj:"@, m.full_name) + named_part("type:"@, m.object_type) + m.fields.map_values(
        |f: FieldView| field_part(f),
    )
}

fn push_named_line(out: &mut String, prefix: &str, value: &Option<String>)
    ensures
        final(out)@ == old(out)@ + named_line(
            prefix@,
            match *value {
                Some(v) => Some(v@),
                None => None,
            },
        ),
{
    match value {
        Some(v) => {
            push_text(out, prefix);
            push_text(out, v.as_str());
            push_text(out, "\n");
            assert(out@ =~= old(out)@ + (prefix@ + v@ + "\n"@));
        },
        None => {
            assert(out@ =~= old(out)@ + Seq::<char>::empty());
        },
    }
}

fn push_flag(out: &mut String, flag: bool)
    ensures
        final(out)@ == old(out)@ + flag_letter(flag),
{
    if flag {
        push_text(out, "Y");
    } else {
        push_text(out, "N");
    }
}

fn push_active_row(out: &mut String, name: &str, active: bool)
    ensures
        final(out)@ == old(out)@ + active_row(name@, active),
{
    push_text(out, "  ");
    push_text(out, name);
    push_text(out, " ");
    push_flag(out, active);
    push_text(out, "\n");
    assert(out@ =~= old(out)@ + active_row(name@, active));
}

fn push_field_row(out: &mut String, f: &Field)
    ensures
        final(out)@ == old(out)@ + field_row(f@),
{
    push_text(out, "  ");
    push_text(out, f.name.as_str());
    push_text(out, " ");
    match &f.field_type {
        Some(t) => push_text(out, t.as_str()),
        None => push_text(out, "-"),
    }
    push_text(out, " ");
    push_flag(out, f.required);
    push_text(out, "\n");
    assert(out@ =~= old(out)@ + field_row(f@));
}

fn push_fields(out: &mut String, fields: &Vec<Field>)
    ensures
        final(out)@ == old(out)@ + block(
            "\nfields:\n  name type required\n"@,
            fields@.map_values(|f: Field| f@).map_values(|f: FieldView| field_row(f)),
        ),
{
    let ghost rows = fields@.map_values(|f: Field| f@).map_values(|f: FieldView| field_row(f));
    if fields.len() == 0 {
        assert(out@ =~= old(out)@ + Seq::<char>::empty());
        return;
    }
    push_text(out, "\nfields:\n  name type required\n");
    let ghost base = out@;
    let mut i: usize = 0;
    while i < fields.len()
        invariant
            i <= fields.len(),
            rows == fields@.map_values(|f: Field| f@).map_values(|f: FieldView| field_row(f)),
            out@ == base + all_rows(rows.take(i as int)),
        decreases fields.len() - i,
    {
        proof {
            assert(rows.take(i + 1).drop_last() == rows.take(i as int));
            assert(rows.take(i + 1).last() == field_row(fields@[i as int]@));
        }
        push_field_row(out, &fields[i]);
        assert(out@ =~= base + all_rows(rows.take(i + 1)));
        i = i + 1;
    }
    assert(rows.take(fields.len() as int) == rows);
    assert(out@ =~= old(out)@ + ("\nfields:\n  name type required\n"@ + all_rows(rows)));
}

fn push_validations(out: &mut String, rules: &Vec<ValidationRule>)
    ensures
        final(out)@ == old(out)@ + block(
            "\nvalidations:\n  name active\n"@,
            rules@.map_values(|r: ValidationRule| r@).map_values(
                |r: ValidationRuleView| active_row(r.name, r.active),
            ),
        ),
{
    let ghost rows = rules@.map_values(|r: ValidationRule| r@).map_values(
        |r: ValidationRuleView| active_row(r.name, r.active),
    );
    if rules.len() == 0 {
        assert(out@ =~= old(out)@ + Seq::<char>::empty());
        return;
    }
    push_text(out, "\nvalidations:\n  name active\n");
    let ghost base = out@;
    let mut i: usize = 0;
    while i < rules.len()
        invariant
            i <= rules.len(),
            rows == rules@.map_values(|r: ValidationRule| r@).map_values(
                |r: ValidationRuleView| active_row(r.name, r.active),
            ),
            out@ == base + all_rows(rows.take(i as int)),
        decreases rules.len() - i,
    {
        proof {
            assert(rows.take(i + 1).drop_last() == rows.take(i as int));
            assert(rows.take(i + 1).last() == active_row(
                rules@[i as int].name@,
                rules@[i as int].active,
            ));
        }
        push_active_row(out, rules[i].name.as_str(), rules[i].active);
        assert(out@ =~= base + all_rows(rows.take(i + 1)));
        i = i + 1;
    }
    assert(rows.take(rules.len() as int) == rows);
    assert(out@ =~= old(out)@ + ("\nvalidations:\n  name active\n"@ + all_rows(rows)));
}

fn push_workflows(out: &mut String, items: &Vec<Workflow>)
    ensures
        final(out)@ == old(out)@ + block(
            "\nworkflows:\n  name active\n"@,
            items@.map_values(|w: Workflow| w@).map_values(
                |w: WorkflowView| active_row(w.name, w.active),
            ),
        ),
{
    let ghost rows = items@.map_values(|w: Workflow| w@).map_values(
        |w: WorkflowView| active_row(w.name, w.active),
    );
    if items.len() == 0 {
        assert(out@ =~= old(out)@ + Seq::<char>::empty());
        return;
    }
    push_text(out, "\nworkflows:\n  name active\n");
    let ghost base = out@;
    let mut i: usize = 0;
    while i < items.len()
        invariant
            i <= items.len(),
            rows == items@.map_values(|w: Workflow| w@).map_values(
                |w: WorkflowView| active_row(w.name, w.active),
            ),
            out@ == base + all_rows(rows.take(i as int)),
        decreases items.len() - i,
    {
        proof {
            assert(rows.take(i + 1).drop_last() == rows.take(i as int));
            assert(rows.take(i + 1).last() == active_row(
                items@[i as int].name@,
                items@[i as int].active,
            ));
        }
        push_active_row(out, items[i].name.as_str(), items[i].active);
        assert(out@ =~= base + all_rows(rows.take(i + 1)));
        i = i + 1;
    }
    assert(rows.take(items.len() as int) == rows);
    assert(out@ =~= old(out)@ + ("\nworkflows:\n  name active\n"@ + all_rows(rows)));
}

fn push_record_types(out: &mut String, items: &Vec<RecordType>)
    ensures
        final(out)@ == old(out)@ + block(
            "\nrecord_types:\n  name active\n"@,
            items@.map_values(|t: RecordType| t@).map_values(
                |t: RecordTypeView| active_row(t.name, t.active),
            ),
        ),
{
    let ghost rows = items@.map_values(|t: RecordType| t@).map_values(
        |t: RecordTypeView| active_row(t.name, t.active),
    );
    if items.len() == 0 {
        assert(out@ =~= old(out)@ + Seq::<char>::empty());
        return;
    }
    push_text(out, "\nrecord_types:\n  name active\n");
    let ghost base = out@;
    let mut i: usize = 0;
    while i < items.len()
        invariant
            i <= items.len(),
            rows == items@.map_values(|t: RecordType| t@).map_values(
                |t: RecordTypeView| active_row(t.name, t.active),
            ),
            out@ == base + all_rows(rows.take(i as int)),
        decreases items.len() - i,
    {
        proof {
            assert(rows.take(i + 1).drop_last() == rows.take(i as int));
            assert(rows.take(i + 1).last() == active_row(
                items@[i as int].name@,
                items@[i as int].active,
            ));
        }
        push_active_row(out, items[i].name.as_str(), items[i].active);
        assert(out@ =~= base + all_rows(rows.take(i + 1)));
        i = i + 1;
    }
    assert(rows.take(items.len() as int) == rows);
    assert(out@ =~= old(out)@ + ("\nrecord_types:\n  name active\n"@ + all_rows(rows)));
}

/// Renders a record in a readable form of lines and blocks.
pub fn to_toon_format(metadata: &SalesforceMetadata) -> (output: String)
    ensures
        output@ == toon_text(metadata@),
{
    let mut output = String::new();
    push_named_line(&mut output, "object: ", &metadata.full_name);
    push_named_line(&mut output, "type: ", &metadata.object_type);
    push_named_line(&mut output, "label: ", &metadata.label);
    push_fields(&mut output, &metadata.fields);
    push_validations(&mut output, &metadata.validation_rules);
    push_workflows(&mut output, &metadata.workflows);
    push_record_types(&mut output, &metadata.record_types);
    assert(output@ =~= toon_text(metadata@));
    output
}

fn field_part_text(f: &Field) -> (s: String)
    ensures
        s@ == field_part(f@),
{
    let mut s = String::new();
    push_text(&mut s, f.name.as_str());
    if f.required {
        push_text(&mut s, "!");
    }
    push_text(&mut s, ":");
    match &f.field_type {
        Some(t) => push_text(&mut s, t.as_str()),
        None => push_text(&mut s, "?"),
    }
    assert(s@ =~= field_part(f@));
    s
}

fn named_part_text(prefix: &str, value: &str) -> (s: String)
    ensures
        s@ == prefix@ + value@,
{
    let mut s = String::new();
    push_text(&mut s, prefix);
    push_text(&mut s, value);
    s
}

pub open spec fn texts_view(parts: Seq<String>) -> Seq<Seq<char>> {
    parts.map_values(|p: String| p@)
}

fn join_parts(parts: &Vec<String>) -> (s: String)
    ensures
        s@ == joined_parts(texts_view(parts@)),
{
    let ghost all = texts_view(parts@);
    let mut s = String::new();
    let mut i: usize = 0;
    while i < parts.len()
        invariant
            i <= parts.len(),
            all == texts_view(parts@),
            s@ == joined_parts(all.take(i as int)),
        decreases parts.len() - i,
    {
        proof {
            assert(all.take(i + 1).drop_last() == all.take(i as int));
            assert(all.take(i + 1).last() == parts@[i as int]@);
        }
        if i > 0 {
            push_text(&mut s, " | ");
        }
        push_text(&mut s, parts[i].as_str());
        i = i + 1;
    }
    assert(all.take(parts.len() as int) == all);
    s
}

/// Renders a record on one line: its name, its type and its fields, with
/// ` | ` between them.
pub fn to_compact_format(metadata: &SalesforceMetadata) -> (output: String)
    ensures
        output@ == joined_parts(compact_parts(metadata@)),
{
    let mut parts: Vec<String> = Vec::new();
    assert(texts_view(parts@) =~= Seq::empty());
    match &metadata.full_name {
        Some(name) => {
            let part = named_part_text("obj:", name.as_str());
            parts.push(part);
        },
        None => {},
    }
    assert(texts_view(parts@) =~= named_part("obj:"@, metadata@.full_name));
    let ghost head = texts_view(parts@);
    match &metadata.object_type {
        Some(t) => {
            let part = named_part_text("type:", t.as_str());
            parts.push(part);
        },
        None => {},
    }
    assert(texts_view(parts@) =~= head + named_part("type:"@, metadata@.object_type));
    let ghost base = texts_view(parts@);
    let ghost rows = metadata@.fields.map_values(|f: FieldView| field_part(f));
    let mut i: usize = 0;
    while i < metadata.fields.len()
        invariant
            i <= metadata.fields.len(),
            rows == metadata@.fields.map_values(|f: FieldView| field_part(f)),
            texts_view(parts@) == base + rows.take(i as int),
        decreases metadata.fields.len() - i,
    {
        let part = field_part_text(&metadata.fields[i]);
        let ghost before = texts_view(parts@);
        parts.push(part);
        proof {
            assert(texts_view(parts@) =~= before.push(part@));
            assert(rows[i as int] == field_part(metadata.fields@[i as int]@));
            assert(rows.take(i + 1) =~= rows.take(i as int).push(rows[i as int]));
        }
        i = i + 1;
    }
    assert(rows.take(metadata.fields.len() as int) == rows);
    assert(texts_view(parts@) =~= compact_parts(metadata@));
    join_parts(&parts)
}

} // verus!
