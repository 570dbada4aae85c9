use vstd::prelude::*;
use vstd::string::StringExecFns;
use crate::error::{CliError, CliErrorView};
use crate::text::{
    join, law_join_contains, law_pad, lemma_occurs_in_concat, newlines_to_spaces, occurs_in, pad_end, push_joined, push_one_line, push_padded_end, push_signed,
    push_str, signed_decimal, signed_string,
};

verus! {

/// A card template of a note type: its name and front and back formats.
#[derive(Debug)]
pub struct Template {
    pub name: String,
    pub question: String,
    pub answer: String,
}

/// A card template as characters.
pub struct TemplateView {
    pub name: Seq<char>,
    pub question: Seq<char>,
    pub answer: Seq<char>,
}

impl View for Template {
    type V = TemplateView;

    open spec fn view(&self) -> TemplateView {
        TemplateView { name: self.name@, question: self.question@, answer: self.answer@ }
    }
}

/// A note type as the commands see it: id, name, whether it is a cloze type,
/// field names in order, and card templates in order.
#[derive(Debug)]
pub struct Notetype {
    pub id: i64,
    pub name: String,
    pub is_cloze: bool,
    pub fields: Vec<String>,
    pub templates: Vec<Template>,
}

/// The kind of a note type as reported.
pub open spec fn spec_kind_name(is_cloze: bool) -> Seq<char> {
    if is_cloze {
        "cloze"@
    } else {
        "standard"@
    }
}

/// The kind of a note type as reported: `cloze` or `standard`.
pub fn kind_name(is_cloze: bool) -> (s: &'static str)
    ensures
        s@ == spec_kind_name(is_cloze),
{
    if is_cloze {
        "cloze"
    } else {
        "standard"
    }
}

/// The note type that a name resolves to, or the error of a name no note
/// type has.
pub fn named_notetype(name: &str, found: Option<Notetype>) -> (r: Result<Notetype, CliError>)
    ensures
        found is Some ==> r == Ok::<Notetype, CliError>(found->0),
        found is None ==> (r matches Err(e) && e@ == (CliErrorView::NoSuchNotetype { name: name@ })),
{
    match found {
        Some(nt) => Ok(nt),
        None => Err(CliError::NoSuchNotetype { name: String::from_str(name) }),
    }
}

/// The names of a note type's templates, in order.
pub open spec fn template_names(ts: Seq<Template>) -> Seq<Seq<char>> {
    ts.map_values(|t: Template| t.name@)
}

/// The names of a note type's templates, in order.
pub fn template_name_list(nt: &Notetype) -> (v: Vec<String>)
    ensures
        v.deep_view() == template_names(nt.templates@),
{
    let mut v: Vec<String> = Vec::new();
    for i in 0..nt.templates.len()
        invariant
            v.deep_view() == template_names(nt.templates@.take(i as int)),
    {
        let ghost before = v.deep_view();
        v.push(nt.templates[i].name.clone());
        assert(v.deep_view() =~= before.push(nt.templates@[i as int].name@));
        assert(template_names(nt.templates@.take(i + 1)) =~= template_names(
            nt.templates@.take(i as int),
        ).push(nt.templates@[i as int].name@));
    }
    assert(nt.templates@.take(nt.templates.len() as int) == nt.templates@);
    v
}

/// The name of the template at `idx`, if the note type has one there.
pub fn template_name(nt: &Notetype, idx: u32) -> (r: Option<String>)
    ensures
        (idx as int) < nt.templates@.len() ==> (r matches Some(s) && s@ == nt.templates@[idx as int].name@),
        (idx as int) >= nt.templates@.len() ==> r is None,
{
    let i = idx as usize;
    if i < nt.templates.len() {
        Some(nt.templates[i].name.clone())
    } else {
        None
    }
}

/// The line listing a note type: id, name, and its field names.
pub open spec fn spec_list_line(id: int, name: Seq<char>, fields: Seq<Seq<char>>) -> Seq<char> {
    pad_end(signed_decimal(id), 15) + " "@ + pad_end(name, 30) + " fields: "@ + join(
        fields,
        ", "@,
    )
}

/// Law: a note type line starts with its id, shows the whole name after the
/// id column, names every field, and ends with the fields joined by `, `.
pub proof fn law_list_line(id: int, name: Seq<char>, fields: Seq<Seq<char>>)
    ensures
        ({
            let line = spec_list_line(id, name, fields);
            let k: int = pad_end(signed_decimal(id), 15).len() as int + 1;
            &&& line.subrange(0, signed_decimal(id).len() as int) == signed_decimal(id)
            &&& line.len() >= k + name.len()
            &&& line.subrange(k, k + name.len()) == name
            &&& line.subrange(line.len() - join(fields, ", "@).len(), line.len() as int) == join(
                fields,
                ", "@,
            )
            &&& forall|i: int| 0 <= i < fields.len() ==> occurs_in(#[trigger] fields[i], line)
        }),
{
    let line = spec_list_line(id, name, fields);
    let d = signed_decimal(id);
    let pd = pad_end(d, 15);
    let pn = pad_end(name, 30);
    let j = join(fields, ", "@);
    law_pad(d, 15);
    law_pad(name, 30);
    reveal_strlit(" ");
    law_join_contains(fields, ", "@);
    let k: int = pd.len() as int + 1;
    let head = pd + " "@ + pn + " fields: "@;
    assert(line == head + j);
    assert(line.subrange(0, d.len() as int) =~= pd.subrange(0, d.len() as int));
    assert(line.subrange(k, k + name.len()) =~= pn.subrange(0, name.len() as int));
    assert(line.subrange(line.len() - j.len(), line.len() as int) =~= j);
    assert forall|i: int| 0 <= i < fields.len() implies occurs_in(#[trigger] fields[i], line) by {
        lemma_occurs_in_concat(fields[i], head, j, Seq::<char>::empty());
        assert(head + j + Seq::<char>::empty() =~= line);
    }
}

/// The line that lists one note type.
pub fn list_line(nt: &Notetype) -> (s: String)
    ensures
        s@ == spec_list_line(nt.id as int, nt.name@, nt.fields.deep_view()),
{
    let mut s = String::new();
    let id = signed_string(nt.id);
    push_padded_end(&mut s, id.as_str(), 15);
    push_str(&mut s, " ");
    push_padded_end(&mut s, nt.name.as_str(), 30);
    push_str(&mut s, " fields: ");
    push_joined(&mut s, nt.fields.as_slice(), ", ");
    s
}

/// The lines of the `notetypes list` command, one per note type.
pub fn list(notetypes: &[Notetype]) -> (lines: Vec<String>)
    ensures
        lines.len() == notetypes.len(),
        forall|i: int|
            0 <= i < notetypes.len() ==> #[trigger] lines@[i]@ == spec_list_line(
                notetypes@[i].id as int,
                notetypes@[i].name@,
                notetypes@[i].fields.deep_view(),
            ),
{
    let mut lines: Vec<String> = Vec::new();
    for i in 0..notetypes.len()
        invariant
            lines.len() == i,
            forall|j: int|
                0 <= j < i ==> #[trigger] lines@[j]@ == spec_list_line(
                    notetypes@[j].id as int,
                    notetypes@[j].name@,
                    notetypes@[j].fields.deep_view(),
                ),
    {
        lines.push(list_line(&notetypes[i]));
    }
    lines
}

/// The field lines of `notetypes show`, one per field.
pub open spec fn field_lines(fields: Seq<Seq<char>>) -> Seq<Seq<char>> {
    fields.map_values(|f: Seq<char>| "  - "@ + f)
}

/// The three lines that show one template: its name and its front and back
/// formats on one line each.
pub open spec fn template_lines(t: TemplateView) -> Seq<Seq<char>> {
    seq![
        "  - "@ + t.name,
        "      Q: "@ + newlines_to_spaces(t.question),
        "      A: "@ + newlines_to_spaces(t.answer),
    ]
}

/// The template lines of `notetypes show`, three per template.
pub open spec fn all_template_lines(ts: Seq<Template>) -> Seq<Seq<char>>
    decreases ts.len(),
{
    if ts.len() == 0 {
        seq![]
    } else {
        all_template_lines(ts.drop_last()) + template_lines(ts.last()@)
    }
}

/// Everything `notetypes show` prints for a note type, line by line.
pub open spec fn spec_show(nt: &Notetype) -> Seq<Seq<char>> {
    seq![
        "notetype: "@ + nt.name@ + " (id "@ + signed_decimal(nt.id as int) + ")"@,
        "kind:     "@ + spec_kind_name(nt.is_cloze),
        "fields:"@,
    ] + field_lines(nt.fields.deep_view()) + seq!["templates:"@] + all_template_lines(
        nt.templates@,
    )
}

/// Law: the template section holds three lines per template, in template
/// order: its name, then its front and back formats on one line each.
pub proof fn law_all_template_lines(ts: Seq<Template>)
    ensures
        all_template_lines(ts).len() == 3 * ts.len(),
        forall|k: int|
            0 <= k < ts.len() ==> {
                &&& all_template_lines(ts)[3 * k] == "  - "@ + (#[trigger] ts[k]).name@
                &&& all_template_lines(ts)[3 * k + 1] == "      Q: "@ + newlines_to_spaces(
                    ts[k].question@,
                )
                &&& all_template_lines(ts)[3 * k + 2] == "      A: "@ + newlines_to_spaces(
                    ts[k].answer@,
                )
            },
    decreases ts.len(),
{
    if ts.len() > 0 {
        let init = ts.drop_last();
        law_all_template_lines(init);
        let a = all_template_lines(init);
        let all = all_template_lines(ts);
        assert(all == a + template_lines(ts.last()@));
        assert forall|k: int| 0 <= k < ts.len() implies {
            &&& all[3 * k] == "  - "@ + (#[trigger] ts[k]).name@
            &&& all[3 * k + 1] == "      Q: "@ + newlines_to_spaces(ts[k].question@)
            &&& all[3 * k + 2] == "      A: "@ + newlines_to_spaces(ts[k].answer@)
        } by {
            if k < ts.len() - 1 {
                assert(init[k] == ts[k]);
                assert(all[3 * k] == a[3 * k]);
                assert(all[3 * k + 1] == a[3 * k + 1]);
                assert(all[3 * k + 2] == a[3 * k + 2]);
            } else {
                assert(ts.last() == ts[k]);
            }
        }
    }
}

/// Law: `notetypes show` prints a header of three lines, then one line per
/// field in order, then `templates:`, then three lines per template in order
/// (its name, its front format, its back format), and nothing else.
pub proof fn law_show(nt: &Notetype)
    ensures
        ({
            let lines = spec_show(nt);
            let f: int = nt.fields@.len() as int;
            &&& lines.len() == 4 + f + 3 * nt.templates@.len()
            &&& lines[0] == "notetype: "@ + nt.name@ + " (id "@ + signed_decimal(nt.id as int) + ")"@
            &&& lines[1] == "kind:     "@ + spec_kind_name(nt.is_cloze)
            &&& lines[2] == "fields:"@
            &&& forall|j: int| 0 <= j < f ==> lines[3 + j] == "  - "@ + (#[trigger] nt.fields@[j])@
            &&& lines[3 + f] == "templates:"@
            &&& forall|k: int|
                0 <= k < nt.templates@.len() ==> {
                    &&& lines[4 + f + 3 * k] == "  - "@ + (#[trigger] nt.templates@[k]).name@
                    &&& lines[4 + f + 3 * k + 1] == "      Q: "@ + newlines_to_spaces(
                        nt.templates@[k].question@,
                    )
                    &&& lines[4 + f + 3 * k + 2] == "      A: "@ + newlines_to_spaces(
                        nt.templates@[k].answer@,
                    )
                }
        }),
{
    law_all_template_lines(nt.templates@);
    let lines = spec_show(nt);
    let f: int = nt.fields@.len() as int;
    let t = all_template_lines(nt.templates@);
    assert forall|k: int| 0 <= k < nt.templates@.len() implies {
        &&& lines[4 + f + 3 * k] == "  - "@ + (#[trigger] nt.templates@[k]).name@
        &&& lines[4 + f + 3 * k + 1] == "      Q: "@ + newlines_to_spaces(nt.templates@[k].question@)
        &&& lines[4 + f + 3 * k + 2] == "      A: "@ + newlines_to_spaces(nt.templates@[k].answer@)
    } by {
        assert(lines[4 + f + 3 * k] == t[3 * k]);
        assert(lines[4 + f + 3 * k + 1] == t[3 * k + 1]);
        assert(lines[4 + f + 3 * k + 2] == t[3 * k + 2]);
    }
    assert forall|j: int| 0 <= j < f implies lines[3 + j] == "  - "@ + (#[trigger] nt.fields@[j])@ by {
        assert(nt.fields.deep_view()[j] == nt.fields@[j]@);
    }
}

/// A string that starts with `prefix` and goes on with `rest`.
fn prefixed(prefix: &str, rest: &str) -> (s: String)
    ensures
        s@ == prefix@ + rest@,
{
    let mut s = String::from_str(prefix);
    push_str(&mut s, rest);
    s
}

/// The lines of the `notetypes show` command.
pub fn show(nt: &Notetype) -> (lines: Vec<String>)
    ensures
        lines.deep_view() == spec_show(nt),
{
    let mut lines: Vec<String> = Vec::new();
    let mut head = String::from_str("notetype: ");
    push_str(&mut head, nt.name.as_str());
    push_str(&mut head, " (id ");
    push_signed(&mut head, nt.id);
    push_str(&mut head, ")");
    let ghost h = head@;
    lines.push(head);
    let kind = prefixed("kind:     ", kind_name(nt.is_cloze));
    let ghost k = kind@;
    lines.push(kind);
    let fl = String::from_str("fields:");
    let ghost f = fl@;
    lines.push(fl);
    let ghost base = lines.deep_view();
    assert(base =~= seq![h, k, f]);
    let ghost fv = nt.fields.deep_view();
    for i in 0..nt.fields.len()
        invariant
            fv == nt.fields.deep_view(),
            fv.len() == nt.fields.len(),
            lines.deep_view() == base + field_lines(fv.take(i as int)),
    {
        let ghost before = lines.deep_view();
        let line = prefixed("  - ", nt.fields[i].as_str());
        let ghost lv = line@;
        lines.push(line);
        assert(lines.deep_view() =~= before.push(lv));
        assert(field_lines(fv.take(i + 1)) =~= field_lines(fv.take(i as int)).push(lv));
    }
    assert(fv.take(nt.fields.len() as int) == fv);
    let ghost mid = lines.deep_view();
    let tl = String::from_str("templates:");
    let ghost tlv = tl@;
    lines.push(tl);
    let ghost base2 = lines.deep_view();
    assert(base2 =~= mid.push(tlv));
    assert(base2 =~= seq![h, k, f] + field_lines(fv) + seq!["templates:"@]);
    let ghost tv = nt.templates@;
    for i in 0..nt.templates.len()
        invariant
            tv == nt.templates@,
            tv.len() == nt.templates.len(),
            lines.deep_view() == base2 + all_template_lines(tv.take(i as int)),
    {
        let ghost before = lines.deep_view();
        let t = &nt.templates[i];
        let name_line = prefixed("  - ", t.name.as_str());
        let mut q = String::from_str("      Q: ");
        push_one_line(&mut q, t.question.as_str());
        let mut a = String::from_str("      A: ");
        push_one_line(&mut a, t.answer.as_str());
        let ghost three = seq![name_line@, q@, a@];
        lines.push(name_line);
        lines.push(q);
        lines.push(a);
        assert(lines.deep_view() =~= before + three);
        assert(tv.take(i + 1).drop_last() == tv.take(i as int));
        assert(tv.take(i + 1).last() == tv[i as int]);
        assert(three == template_lines(tv[i as int]@));
    }
    assert(tv.take(nt.templates.len() as int) == tv);
    assert(lines.deep_view() =~= spec_show(nt));
    lines
}

} // verus!
