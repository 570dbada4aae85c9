use vstd::prelude::*;
use vstd::string::StringExecFns;
use crate::error::{CliError, CliErrorView};
use crate::text::{ascii_fold, chars_eq, clone_strings, decimal, push_decimal, chars_eq_ignore_case, eq_ignore_case, from_chars, to_chars};

verus! {

/// Index of the first `=` in `s`, if there is one.
pub open spec fn eq_sign_pos(s: Seq<char>) -> Option<int>
    decreases s.len(),
{
    if s.len() == 0 {
        None
    } else {
        match eq_sign_pos(s.drop_last()) {
            Some(i) => Some(i),
            None => if s.last() == '=' {
                Some(s.len() - 1)
            } else {
                None
            },
        }
    }
}

/// `NAME=VALUE` split at its first `=` (std's `split_once('=')`).
pub open spec fn split_field(s: Seq<char>) -> Option<(Seq<char>, Seq<char>)> {
    match eq_sign_pos(s) {
        Some(k) => Some((s.take(k), s.skip(k + 1))),
        None => None,
    }
}

/// The parsed `--field` arguments, or the first argument without `=`.
pub open spec fn parse_fields(args: Seq<Seq<char>>) -> Result<Seq<(Seq<char>, Seq<char>)>, Seq<char>>
    decreases args.len(),
{
    if args.len() == 0 {
        Ok(seq![])
    } else {
        match parse_fields(args.drop_last()) {
            Err(e) => Err(e),
            Ok(prev) => match split_field(args.last()) {
                Some(p) => Ok(prev.push(p)),
                None => Err(args.last()),
            },
        }
    }
}

/// What `eq_sign_pos` finds: the first `=`, or no `=` at all.
pub proof fn lemma_eq_sign_pos(s: Seq<char>)
    ensures
        match eq_sign_pos(s) {
            Some(k) => 0 <= k < s.len() && s[k] == '=' && forall|j: int| 0 <= j < k ==> s[j] != '=',
            None => forall|j: int| 0 <= j < s.len() ==> s[j] != '=',
        },
    decreases s.len(),
{
    if s.len() > 0 {
        lemma_eq_sign_pos(s.drop_last());
        assert(forall|j: int| 0 <= j < s.len() - 1 ==> s.drop_last()[j] == s[j]);
    }
}

/// Law: a `NAME=VALUE` argument that splits gives back the argument when
/// its name, `=` and value are put together again, and the name holds no `=`.
pub proof fn law_split_field_roundtrip(s: Seq<char>)
    ensures
        split_field(s) matches Some(p) ==> s == p.0 + seq!['='] + p.1 && !p.0.contains('='),
        split_field(s) is None <==> !s.contains('='),
{
    lemma_eq_sign_pos(s);
    if let Some(k) = eq_sign_pos(s) {
        assert(s == s.take(k) + seq!['='] + s.skip(k + 1));
        assert(!s.take(k).contains('=')) by {
            if s.take(k).contains('=') {
                let j = choose|j: int| 0 <= j < k && s.take(k)[j] == '=';
                assert(s[j] == '=');
            }
        }
        assert(s.contains('=')) by {
            assert(s[k] == '=');
        }
    } else {
        if s.contains('=') {
            let j = choose|j: int| 0 <= j < s.len() && s[j] == '=';
        }
    }
}

/// Law: parsing succeeds exactly when every argument holds `=`, and then
/// gives one pair per argument, in order, that puts its argument back
/// together as name, `=`, value.
pub proof fn law_parse_fields_roundtrip(args: Seq<Seq<char>>)
    ensures
        parse_fields(args) is Ok <==> forall|i: int| 0 <= i < args.len() ==> #[trigger] args[i].contains('='),
        parse_fields(args) matches Ok(pairs) ==> pairs.len() == args.len() && forall|i: int|
            0 <= i < args.len() ==> #[trigger] args[i] == pairs[i].0 + seq!['='] + pairs[i].1,
    decreases args.len(),
{
    if args.len() > 0 {
        let init = args.drop_last();
        law_parse_fields_roundtrip(init);
        law_split_field_roundtrip(args.last());
        assert(args.last() == args[args.len() - 1]);
        assert(forall|i: int| 0 <= i < init.len() ==> #[trigger] init[i] == args[i]);
        let n = args.len() - 1;
        match parse_fields(init) {
            Err(_) => {
                let k = choose|k: int| 0 <= k < init.len() && !#[trigger] init[k].contains('=');
                assert(!args[k].contains('='));
            },
            Ok(prev) => {
                match split_field(args.last()) {
                    Some(p) => {
                        let pairs = prev.push(p);
                        assert(parse_fields(args) == Ok::<_, Seq<char>>(pairs));
                        assert forall|i: int| 0 <= i < args.len() implies #[trigger] args[i]
                            == pairs[i].0 + seq!['='] + pairs[i].1 by {
                            if i < n {
                                assert(init[i] == args[i]);
                                assert(pairs[i] == prev[i]);
                            }
                        }
                        assert forall|i: int| 0 <= i < args.len() implies #[trigger] args[i].contains(
                            '=',
                        ) by {
                            if i < n {
                                assert(init[i] == args[i]);
                            }
                        }
                    },
                    None => {
                        assert(!args[n].contains('='));
                    },
                }
            },
        }
    }
}

/// The characters `v[from..to]` as a string.
fn chars_range(v: &[char], from: usize, to: usize) -> (s: String)
    requires
        from <= to <= v.len(),
    ensures
        s@ == v@.subrange(from as int, to as int),
{
    let mut w: Vec<char> = Vec::new();
    for i in from..to
        invariant
            from <= to <= v.len(),
            w@ == v@.subrange(from as int, i as int),
    {
        w.push(v[i]);
        assert(v@.subrange(from as int, i + 1) == v@.subrange(from as int, i as int).push(v@[i as int]));
    }
    from_chars(&w)
}

/// Splits `NAME=VALUE` at its first `=`.
pub fn split_field_arg(arg: &str) -> (r: Option<(String, String)>)
    ensures
        r.deep_view() == split_field(arg@),
{
    let cs = to_chars(arg);
    let n = cs.len();
    for i in 0..n
        invariant
            n == cs.len(),
            cs@ == arg@,
            eq_sign_pos(cs@.take(i as int)) is None,
    {
        assert(cs@.take(i + 1).drop_last() == cs@.take(i as int));
        if cs[i] == '=' {
            assert(eq_sign_pos(cs@.take(i + 1)) == Some(i as int));
            proof {
                lemma_prefix_pos(cs@, (i + 1) as int);
            }
            let k = chars_range(&cs, 0, i);
            let v = chars_range(&cs, i + 1, n);
            assert(cs@.take(i as int) == cs@.subrange(0, i as int));
            assert(cs@.skip(i + 1) == cs@.subrange(i + 1, n as int));
            return Some((k, v));
        }
    }
    assert(cs@.take(n as int) == cs@);
    None
}

/// The first `=` of a prefix that has one is the first `=` of the whole.
proof fn lemma_prefix_pos(s: Seq<char>, m: int)
    requires
        0 <= m <= s.len(),
        eq_sign_pos(s.take(m)) is Some,
    ensures
        eq_sign_pos(s) == eq_sign_pos(s.take(m)),
    decreases s.len() - m,
{
    if m < s.len() {
        assert(s.take(m + 1).drop_last() == s.take(m));
        lemma_prefix_pos(s, m + 1);
    } else {
        assert(s.take(m) == s);
    }
}

/// Parses repeated `NAME=VALUE` arguments, each split at its first `=`;
/// fails on the first argument that has no `=`.
pub fn parse_field_args(args: &[String]) -> (r: Result<Vec<(String, String)>, CliError>)
    ensures
        match parse_fields(args.deep_view()) {
            Ok(pairs) => r matches Ok(v) && v.deep_view() == pairs,
            Err(bad) => r matches Err(e) && e@ == (CliErrorView::InvalidFieldArg { arg: bad }),
        },
{
    let ghost dv = args.deep_view();
    let mut out: Vec<(String, String)> = Vec::new();
    assert(dv.take(0) =~= Seq::<Seq<char>>::empty());
    assert(out.deep_view() =~= Seq::<(Seq<char>, Seq<char>)>::empty());
    for i in 0..args.len()
        invariant
            dv == args.deep_view(),
            dv.len() == args.len(),
            parse_fields(dv.take(i as int)) == Ok::<_, Seq<char>>(out.deep_view()),
    {
        assert(dv.take(i + 1).drop_last() == dv.take(i as int));
        assert(dv.take(i + 1).last() == args[i as int]@);
        match split_field_arg(args[i].as_str()) {
            Some(p) => {
                let ghost pv = p.deep_view();
                let ghost before = out.deep_view();
                out.push(p);
                assert(split_field(dv[i as int]) == Some(pv));
                assert(out.deep_view() =~= before.push(pv));
            },
            None => {
                proof {
                    lemma_parse_error_sticks(dv, (i + 1) as int);
                }
                return Err(CliError::InvalidFieldArg { arg: args[i].clone() });
            },
        }
    }
    assert(dv.take(args.len() as int) == dv);
    Ok(out)
}

/// Once a prefix of the arguments fails to parse, the whole fails the same way.
proof fn lemma_parse_error_sticks(args: Seq<Seq<char>>, m: int)
    requires
        0 <= m <= args.len(),
        parse_fields(args.take(m)) is Err,
    ensures
        parse_fields(args) == parse_fields(args.take(m)),
    decreases args.len() - m,
{
    if m < args.len() {
        assert(args.take(m + 1).drop_last() == args.take(m));
        lemma_parse_error_sticks(args, m + 1);
    } else {
        assert(args.take(m) == args);
    }
}

/// Index of the first of `names` equal to `name`.
pub open spec fn first_exact(names: Seq<Seq<char>>, name: Seq<char>) -> Option<int>
    decreases names.len(),
{
    if names.len() == 0 {
        None
    } else {
        match first_exact(names.drop_last(), name) {
            Some(i) => Some(i),
            None => if names.last() == name {
                Some(names.len() - 1)
            } else {
                None
            },
        }
    }
}

/// Index of the first of `names` equal to `name` up to ASCII case.
pub open spec fn first_ci(names: Seq<Seq<char>>, name: Seq<char>) -> Option<int>
    decreases names.len(),
{
    if names.len() == 0 {
        None
    } else {
        match first_ci(names.drop_last(), name) {
            Some(i) => Some(i),
            None => if eq_ignore_case(names.last(), name) {
                Some(names.len() - 1)
            } else {
                None
            },
        }
    }
}

/// The ordinal of a field: the first field of exactly that name, else the
/// first whose name equals it up to ASCII case.
pub open spec fn spec_field_index(names: Seq<Seq<char>>, name: Seq<char>) -> Option<int> {
    match first_exact(names, name) {
        Some(i) => Some(i),
        None => first_ci(names, name),
    }
}

/// What the two searches find.
pub proof fn lemma_first_matches(names: Seq<Seq<char>>, name: Seq<char>)
    ensures
        match first_exact(names, name) {
            Some(i) => 0 <= i < names.len() && names[i] == name && forall|j: int|
                0 <= j < i ==> names[j] != name,
            None => forall|j: int| 0 <= j < names.len() ==> names[j] != name,
        },
        match first_ci(names, name) {
            Some(i) => 0 <= i < names.len() && eq_ignore_case(names[i], name) && forall|j: int|
                0 <= j < i ==> !eq_ignore_case(#[trigger] names[j], name),
            None => forall|j: int| 0 <= j < names.len() ==> !eq_ignore_case(#[trigger] names[j], name),
        },
    decreases names.len(),
{
    if names.len() > 0 {
        lemma_first_matches(names.drop_last(), name);
        assert(forall|j: int| 0 <= j < names.len() - 1 ==> names.drop_last()[j] == names[j]);
    }
}

proof fn lemma_first_prefix(names: Seq<Seq<char>>, name: Seq<char>, m: int)
    requires
        0 <= m <= names.len(),
    ensures
        first_exact(names.take(m), name) is Some ==> first_exact(names, name) == first_exact(names.take(m), name),
        first_ci(names.take(m), name) is Some ==> first_ci(names, name) == first_ci(names.take(m), name),
    decreases names.len() - m,
{
    if m < names.len() {
        assert(names.take(m + 1).drop_last() == names.take(m));
        lemma_first_prefix(names, name, m + 1);
    } else {
        assert(names.take(m) == names);
    }
}

/// Resolves a field name to its ordinal: an exact match first, else a
/// match up to ASCII case; fails naming the note type and its fields.
pub fn field_index(notetype: &str, fields: &[String], name: &str) -> (r: Result<usize, CliError>)
    ensures
        match spec_field_index(fields.deep_view(), name@) {
            Some(i) => r == Ok::<usize, CliError>(i as usize) && 0 <= i < fields.len(),
            None => r matches Err(e) && e@ == (CliErrorView::NoSuchField {
                notetype: notetype@,
                field: name@,
                fields: fields.deep_view(),
            }),
        },
{
    let ghost dv = fields.deep_view();
    proof {
        lemma_first_matches(dv, name@);
    }
    let nc = to_chars(name);
    for i in 0..fields.len()
        invariant
            dv == fields.deep_view(),
            dv.len() == fields.len(),
            nc@ == name@,
            first_exact(dv.take(i as int), name@) is None,
    {
        assert(dv.take(i + 1).drop_last() == dv.take(i as int));
        assert(dv.take(i + 1).last() == fields[i as int]@);
        let fc = to_chars(fields[i].as_str());
        if chars_eq(&fc, &nc) {
            proof {
                lemma_first_prefix(dv, name@, (i + 1) as int);
            }
            return Ok(i);
        }
    }
    assert(dv.take(fields.len() as int) == dv);
    for i in 0..fields.len()
        invariant
            dv == fields.deep_view(),
            dv.len() == fields.len(),
            nc@ == name@,
            first_exact(dv, name@) is None,
            first_ci(dv.take(i as int), name@) is None,
    {
        assert(dv.take(i + 1).drop_last() == dv.take(i as int));
        assert(dv.take(i + 1).last() == fields[i as int]@);
        let fc = to_chars(fields[i].as_str());
        if chars_eq_ignore_case(&fc, &nc) {
            proof {
                lemma_first_prefix(dv, name@, (i + 1) as int);
            }
            return Ok(i);
        }
    }
    assert(dv.take(fields.len() as int) == dv);
    Err(
        CliError::NoSuchField {
            notetype: notetype.to_owned(),
            field: name.to_owned(),
            fields: clone_strings(fields),
        },
    )
}


/// Law: a field name resolves to a field equal to it up to ASCII case, to the
/// first field of exactly that name when there is one, and fails only when
/// no field equals it up to ASCII case.
pub proof fn law_field_index(names: Seq<Seq<char>>, name: Seq<char>)
    ensures
        spec_field_index(names, name) matches Some(i) ==> 0 <= i < names.len() && eq_ignore_case(
            names[i],
            name,
        ),
        (exists|k: int| 0 <= k < names.len() && names[k] == name) ==> (spec_field_index(
            names,
            name,
        ) matches Some(i) && names[i] == name && forall|j: int| 0 <= j < i ==> names[j] != name),
        spec_field_index(names, name) is None <==> forall|k: int|
            0 <= k < names.len() ==> !eq_ignore_case(#[trigger] names[k], name),
{
    lemma_first_matches(names, name);
    if let Some(i) = first_exact(names, name) {
        assert forall|c: int| 0 <= c < names[i].len() implies ascii_fold(#[trigger] names[i][c])
            == ascii_fold(name[c]) by {}
    } else if let Some(i) = first_ci(names, name) {
        assert(eq_ignore_case(names[i], name));
    }
}

/// A note's fields after putting `value` at `idx`; fails past the end.
pub open spec fn spec_set_field(fields: Seq<Seq<char>>, idx: int, value: Seq<char>) -> Result<
    Seq<Seq<char>>,
    CliErrorView,
> {
    if 0 <= idx < fields.len() {
        Ok(fields.update(idx, value))
    } else {
        Err(CliErrorView::FieldOutOfRange)
    }
}

/// Puts `value` into the field at `idx` of a note.
pub fn set_field(fields: &mut Vec<String>, idx: usize, value: String) -> (r: Result<(), CliError>)
    ensures
        match spec_set_field(old(fields).deep_view(), idx as int, value@) {
            Ok(f) => r is Ok && final(fields).deep_view() == f,
            Err(e) => r matches Err(x) && x@ == e && final(fields).deep_view() == old(fields).deep_view(),
        },
{
    if idx < fields.len() {
        let ghost before = fields.deep_view();
        let ghost vv = value@;
        fields.set(idx, value);
        assert(fields.deep_view() =~= before.update(idx as int, vv));
        Ok(())
    } else {
        Err(CliError::FieldOutOfRange)
    }
}

/// A note's fields after assigning, in order, each `NAME=VALUE` pair to the
/// field that the name resolves to; the first pair that fails decides the error.
pub open spec fn assigned_fields(
    notetype: Seq<char>,
    names: Seq<Seq<char>>,
    fields: Seq<Seq<char>>,
    pairs: Seq<(Seq<char>, Seq<char>)>,
) -> Result<Seq<Seq<char>>, CliErrorView>
    decreases pairs.len(),
{
    if pairs.len() == 0 {
        Ok(fields)
    } else {
        match assigned_fields(notetype, names, fields, pairs.drop_last()) {
            Err(e) => Err(e),
            Ok(f) => match spec_field_index(names, pairs.last().0) {
                None => Err(
                    CliErrorView::NoSuchField { notetype, field: pairs.last().0, fields: names },
                ),
                Some(i) => spec_set_field(f, i, pairs.last().1),
            },
        }
    }
}

proof fn lemma_assign_error_sticks(
    notetype: Seq<char>,
    names: Seq<Seq<char>>,
    fields: Seq<Seq<char>>,
    pairs: Seq<(Seq<char>, Seq<char>)>,
    m: int,
)
    requires
        0 <= m <= pairs.len(),
        assigned_fields(notetype, names, fields, pairs.take(m)) is Err,
    ensures
        assigned_fields(notetype, names, fields, pairs) == assigned_fields(
            notetype,
            names,
            fields,
            pairs.take(m),
        ),
    decreases pairs.len() - m,
{
    if m < pairs.len() {
        assert(pairs.take(m + 1).drop_last() == pairs.take(m));
        lemma_assign_error_sticks(notetype, names, fields, pairs, m + 1);
    } else {
        assert(pairs.take(m) == pairs);
    }
}

/// Assigns each `NAME=VALUE` pair, in order, to the note field that the name
/// resolves to in its note type.
pub fn set_fields(
    notetype: &str,
    names: &[String],
    fields: Vec<String>,
    pairs: Vec<(String, String)>,
) -> (r: Result<Vec<String>, CliError>)
    ensures
        match assigned_fields(notetype@, names.deep_view(), fields.deep_view(), pairs.deep_view()) {
            Ok(f) => r matches Ok(v) && v.deep_view() == f,
            Err(e) => r matches Err(x) && x@ == e,
        },
{
    let ghost start = fields.deep_view();
    let mut work = fields;
    let ghost pv = pairs.deep_view();
    assert(pv.take(0) =~= Seq::<(Seq<char>, Seq<char>)>::empty());
    for i in 0..pairs.len()
        invariant
            pv == pairs.deep_view(),
            pv.len() == pairs.len(),
            start == fields.deep_view(),
            assigned_fields(notetype@, names.deep_view(), start, pv.take(i as int)) == Ok::<
                Seq<Seq<char>>,
                CliErrorView,
            >(work.deep_view()),
    {
        assert(pv.take(i + 1).drop_last() == pv.take(i as int));
        assert(pv.take(i + 1).last() == pv[i as int]);
        assert(pv[i as int] == (pairs[i as int].0@, pairs[i as int].1@));
        let ghost f = work.deep_view();
        let idx = field_index(notetype, names, pairs[i].0.as_str());
        match idx {
            Ok(idx) => {
                let value = pairs[i].1.clone();
                let set = set_field(&mut work, idx, value);
                if let Err(x) = set {
                    assert(spec_field_index(names.deep_view(), pv[i as int].0) == Some(idx as int));
                    assert(assigned_fields(notetype@, names.deep_view(), start, pv.take(i + 1))
                        == spec_set_field(f, idx as int, pv[i as int].1));
                    proof {
                        lemma_assign_error_sticks(
                            notetype@,
                            names.deep_view(),
                            start,
                            pv,
                            (i + 1) as int,
                        );
                    }
                    assert(assigned_fields(notetype@, names.deep_view(), start, pv) == Err::<
                        Seq<Seq<char>>,
                        CliErrorView,
                    >(CliErrorView::FieldOutOfRange));
                    assert(x@ == CliErrorView::FieldOutOfRange);
                    return Err(x);
                }
            },
            Err(e) => {
                assert(spec_field_index(names.deep_view(), pv[i as int].0) is None);
                assert(assigned_fields(notetype@, names.deep_view(), start, pv.take(i + 1)) is Err);
                proof {
                    lemma_assign_error_sticks(notetype@, names.deep_view(), start, pv, (i + 1) as int);
                }
                assert(assigned_fields(notetype@, names.deep_view(), start, pv) == Err::<
                    Seq<Seq<char>>,
                    CliErrorView,
                >(CliErrorView::NoSuchField { notetype: notetype@, field: pv[i as int].0, fields: names.deep_view() }));
                return Err(e);
            },
        }
    }
    assert(pv.take(pairs.len() as int) == pv);
    Ok(work)
}

/// Law: writing a field puts exactly the given value (empty or not) at its
/// index and keeps every other field; an index past the end fails.
pub proof fn law_set_field(fields: Seq<Seq<char>>, idx: int, value: Seq<char>)
    ensures
        0 <= idx < fields.len() ==> (spec_set_field(fields, idx, value) matches Ok(g) && g.len()
            == fields.len() && g[idx] == value && forall|j: int|
            0 <= j < fields.len() && j != idx ==> #[trigger] g[j] == fields[j]),
        !(0 <= idx < fields.len()) ==> spec_set_field(fields, idx, value) == Err::<
            Seq<Seq<char>>,
            CliErrorView,
        >(CliErrorView::FieldOutOfRange),
{
}

/// Whether the pair at `p` is the last of `pairs` whose name resolves to
/// field `j`.
pub open spec fn last_pair_for(
    names: Seq<Seq<char>>,
    pairs: Seq<(Seq<char>, Seq<char>)>,
    p: int,
    j: int,
) -> bool {
    &&& 0 <= p < pairs.len()
    &&& spec_field_index(names, pairs[p].0) == Some(j)
    &&& forall|q: int| p < q < pairs.len() ==> spec_field_index(names, #[trigger] pairs[q].0) != Some(j)
}

/// Law: assigning `NAME=VALUE` pairs succeeds exactly when every name
/// resolves to a field the note has; then each field named by some pair holds
/// the value of the last pair naming it, and every other field is unchanged.
pub proof fn law_assigned_fields(
    notetype: Seq<char>,
    names: Seq<Seq<char>>,
    fields: Seq<Seq<char>>,
    pairs: Seq<(Seq<char>, Seq<char>)>,
)
    ensures
        assigned_fields(notetype, names, fields, pairs) is Ok <==> forall|p: int|
            0 <= p < pairs.len() ==> (spec_field_index(names, #[trigger] pairs[p].0) matches Some(j)
                && 0 <= j < fields.len()),
        assigned_fields(notetype, names, fields, pairs) matches Ok(g) ==> {
            &&& g.len() == fields.len()
            &&& forall|p: int, j: int| #[trigger] last_pair_for(names, pairs, p, j) ==> g[j] == pairs[p].1
            &&& forall|j: int|
                0 <= j < fields.len() && (forall|p: int|
                    0 <= p < pairs.len() ==> spec_field_index(names, #[trigger] pairs[p].0) != Some(j))
                    ==> #[trigger] g[j] == fields[j]
        },
    decreases pairs.len(),
{
    if pairs.len() > 0 {
        let init = pairs.drop_last();
        let n = pairs.len() - 1;
        law_assigned_fields(notetype, names, fields, init);
        assert(forall|p: int| 0 <= p < n ==> #[trigger] init[p] == pairs[p]);
        assert(pairs.last() == pairs[n]);
        match assigned_fields(notetype, names, fields, init) {
            Err(_) => {
                let p = choose|p: int|
                    0 <= p < init.len() && !(spec_field_index(names, #[trigger] init[p].0) matches Some(
                        j,
                    ) && 0 <= j < fields.len());
                assert(init[p] == pairs[p]);
            },
            Ok(f) => {
                match spec_field_index(names, pairs[n].0) {
                    None => {},
                    Some(i) => {
                        if 0 <= i < fields.len() {
                            let g = f.update(i, pairs[n].1);
                            assert(assigned_fields(notetype, names, fields, pairs) == Ok::<
                                Seq<Seq<char>>,
                                CliErrorView,
                            >(g));
                            assert forall|p: int, j: int| #[trigger] last_pair_for(
                                names,
                                pairs,
                                p,
                                j,
                            ) implies g[j] == pairs[p].1 by {
                                if p < n {
                                    assert(j != i);
                                    assert(last_pair_for(names, init, p, j));
                                }
                            }
                            assert forall|j: int|
                                0 <= j < fields.len() && (forall|p: int|
                                    0 <= p < pairs.len() ==> spec_field_index(
                                        names,
                                        #[trigger] pairs[p].0,
                                    ) != Some(j)) implies #[trigger] g[j] == fields[j] by {
                                assert(j != i);
                                assert(forall|p: int|
                                    0 <= p < init.len() ==> spec_field_index(
                                        names,
                                        #[trigger] init[p].0,
                                    ) != Some(j));
                            }
                            assert forall|p: int| 0 <= p < pairs.len() implies (spec_field_index(
                                names,
                                #[trigger] pairs[p].0,
                            ) matches Some(j) && 0 <= j < fields.len()) by {
                                if p < n {
                                    assert(init[p] == pairs[p]);
                                }
                            }
                        }
                    },
                }
            },
        }
    }
}

/// Law: assigning fields never changes how many fields a note has.
pub proof fn law_assigned_fields_keep_count(
    notetype: Seq<char>,
    names: Seq<Seq<char>>,
    fields: Seq<Seq<char>>,
    pairs: Seq<(Seq<char>, Seq<char>)>,
)
    ensures
        assigned_fields(notetype, names, fields, pairs) matches Ok(f) ==> f.len() == fields.len(),
    decreases pairs.len(),
{
    if pairs.len() > 0 {
        law_assigned_fields_keep_count(notetype, names, fields, pairs.drop_last());
    }
}

/// The fields of a new note of a note type with `count` fields: all empty.
pub fn empty_fields(count: usize) -> (v: Vec<String>)
    ensures
        v.deep_view() == Seq::new(count as nat, |_i: int| Seq::<char>::empty()),
{
    let mut v: Vec<String> = Vec::new();
    for i in 0..count
        invariant
            v.deep_view() == Seq::new(i as nat, |_i: int| Seq::<char>::empty()),
    {
        let ghost before = v.deep_view();
        v.push(String::new());
        assert(v.deep_view() =~= before.push(Seq::<char>::empty()));
        assert(Seq::new((i + 1) as nat, |_i: int| Seq::<char>::empty()) =~= Seq::new(
            i as nat,
            |_i: int| Seq::<char>::empty(),
        ).push(Seq::<char>::empty()));
    }
    v
}

/// The name under which a note's field at `idx` is reported: the note type's
/// field name, or `field<idx>` past the end of the note type's fields.
pub open spec fn field_label(names: Seq<Seq<char>>, idx: int) -> Seq<char> {
    if 0 <= idx < names.len() {
        names[idx]
    } else {
        "field"@ + decimal(idx as nat)
    }
}

/// Position of the first entry of `m` whose key is `k`.
pub open spec fn key_pos(m: Seq<(Seq<char>, Seq<char>)>, k: Seq<char>) -> Option<int>
    decreases m.len(),
{
    if m.len() == 0 {
        None
    } else {
        match key_pos(m.drop_last(), k) {
            Some(i) => Some(i),
            None => if m.last().0 == k {
                Some(m.len() - 1)
            } else {
                None
            },
        }
    }
}

/// Inserting into an insertion-ordered map: a present key keeps its place
/// and takes the new value; a new key goes at the end.
pub open spec fn map_insert(m: Seq<(Seq<char>, Seq<char>)>, k: Seq<char>, v: Seq<char>) -> Seq<
    (Seq<char>, Seq<char>),
> {
    match key_pos(m, k) {
        Some(i) => m.update(i, (k, v)),
        None => m.push((k, v)),
    }
}

/// A note's fields keyed by name, in field order, as an insertion-ordered map.
pub open spec fn labelled(names: Seq<Seq<char>>, values: Seq<Seq<char>>) -> Seq<
    (Seq<char>, Seq<char>),
>
    decreases values.len(),
{
    if values.len() == 0 {
        seq![]
    } else {
        map_insert(
            labelled(names, values.drop_last()),
            field_label(names, values.len() - 1),
            values.last(),
        )
    }
}

proof fn lemma_key_pos(m: Seq<(Seq<char>, Seq<char>)>, k: Seq<char>)
    ensures
        match key_pos(m, k) {
            Some(i) => 0 <= i < m.len() && m[i].0 == k,
            None => forall|j: int| 0 <= j < m.len() ==> #[trigger] m[j].0 != k,
        },
    decreases m.len(),
{
    if m.len() > 0 {
        lemma_key_pos(m.drop_last(), k);
        assert(forall|j: int| 0 <= j < m.len() - 1 ==> m.drop_last()[j] == m[j]);
    }
}

/// The note field at `idx`'s label as a string.
fn label_string(names: &[String], idx: usize) -> (s: String)
    ensures
        s@ == field_label(names.deep_view(), idx as int),
{
    if idx < names.len() {
        names[idx].clone()
    } else {
        let mut s = String::from_str("field");
        push_decimal(&mut s, idx as u64);
        s
    }
}

/// serde_json's JSON object type.
#[verifier::external_type_specification]
#[verifier::external_body]
#[verifier::reject_recursive_types(K)]
#[verifier::reject_recursive_types(V)]
pub struct ExJsonMap<K, V>(serde_json::Map<K, V>);

/// serde_json's JSON value type.
#[verifier::external_type_specification]
#[verifier::external_body]
pub struct ExJsonValue(serde_json::Value);

/// What a JSON object built by [`json_object_new`] and
/// [`json_object_insert_string`] holds: its entries in order, each key with
/// the text of its string value. Nothing is said of objects holding other
/// kinds of values; this library builds none.
pub uninterp spec fn json_string_entries(m: serde_json::Map<String, serde_json::Value>) -> Seq<
    (Seq<char>, Seq<char>),
>;

/// An empty JSON object: serde_json's `Map::new`, which makes an empty map.
#[verifier::external_body]
fn json_object_new() -> (m: serde_json::Map<String, serde_json::Value>)
    ensures
        json_string_entries(m) == Seq::<(Seq<char>, Seq<char>)>::empty(),
{
    serde_json::Map::new()
}

/// Inserts a string value under `k`: serde_json's `Map::insert` with
/// `Value::String(v)`. With the `preserve_order` feature (set in this
/// crate's manifest) the map is an `IndexMap`, whose `insert` keeps a
/// present key in its place and updates its value, and puts a new key last.
#[verifier::external_body]
fn json_object_insert_string(
    m: &mut serde_json::Map<String, serde_json::Value>,
    k: String,
    v: String,
)
    ensures
        json_string_entries(*final(m)) == map_insert(json_string_entries(*old(m)), k@, v@),
{
    m.insert(k, serde_json::Value::String(v));
}

/// A note's fields as a JSON object keyed by their names in the note type,
/// in field order; a later field whose name repeats an earlier one replaces
/// that value in its place.
pub fn fields_json(names: &[String], values: &[String]) -> (m: serde_json::Map<
    String,
    serde_json::Value,
>)
    ensures
        json_string_entries(m) == labelled(names.deep_view(), values.deep_view()),
{
    let ghost vv = values.deep_view();
    let mut m = json_object_new();
    assert(json_string_entries(m) =~= labelled(names.deep_view(), vv.take(0)));
    for i in 0..values.len()
        invariant
            vv == values.deep_view(),
            vv.len() == values.len(),
            json_string_entries(m) == labelled(names.deep_view(), vv.take(i as int)),
    {
        assert(vv.take(i + 1).drop_last() == vv.take(i as int));
        assert(vv.take(i + 1).last() == values[i as int]@);
        let k = label_string(names, i);
        json_object_insert_string(&mut m, k, values[i].clone());
    }
    assert(vv.take(values.len() as int) == vv);
    m
}

/// Law: the keys of the labelled fields are distinct.
pub proof fn law_labelled_keys_distinct(names: Seq<Seq<char>>, values: Seq<Seq<char>>)
    ensures
        forall|i: int, j: int|
            0 <= i < j < labelled(names, values).len() ==> #[trigger] labelled(names, values)[i].0
                != #[trigger] labelled(names, values)[j].0,
    decreases values.len(),
{
    if values.len() > 0 {
        let prev = labelled(names, values.drop_last());
        law_labelled_keys_distinct(names, values.drop_last());
        let k = field_label(names, values.len() - 1);
        lemma_key_pos(prev, k);
    }
}

/// Law: when the note type's field names are distinct and the note has one
/// value per field, the fields are reported under their names in field order
/// (the `n`-th entry is the `n`-th field's name and value).
pub proof fn law_labelled_in_field_order(names: Seq<Seq<char>>, values: Seq<Seq<char>>)
    requires
        values.len() <= names.len(),
        forall|i: int, j: int| 0 <= i < j < names.len() ==> #[trigger] names[i] != #[trigger] names[j],
    ensures
        labelled(names, values).len() == values.len(),
        forall|i: int|
            0 <= i < values.len() ==> #[trigger] labelled(names, values)[i] == (names[i], values[i]),
    decreases values.len(),
{
    if values.len() > 0 {
        let init = values.drop_last();
        law_labelled_in_field_order(names, init);
        let prev = labelled(names, init);
        let n = values.len() - 1;
        lemma_key_pos(prev, names[n]);
        if key_pos(prev, names[n]) is Some {
            let i = key_pos(prev, names[n]).unwrap();
            assert(prev[i] == (names[i], init[i]));
            assert(false);
        }
        assert forall|i: int| 0 <= i < values.len() implies #[trigger] labelled(names, values)[i] == (
            names[i],
            values[i],
        ) by {
            if i < n {
                assert(init[i] == values[i]);
            }
        }
    }
}

} // verus!
