use vstd::prelude::*;
use vstd::string::StringExecFns;
use crate::error::{CliError, CliErrorView};
use crate::text::{
    ascii_fold, chars_eq_ignore_case, decimal, eq_ignore_case, join, join_strings, push_decimal,
    push_joined, push_str, to_chars,
};

verus! {

/// Whether some item of `tags` equals `t` up to ASCII case.
pub open spec fn contains_ci(tags: Seq<Seq<char>>, t: Seq<char>) -> bool {
    exists|i: int| 0 <= i < tags.len() && eq_ignore_case(#[trigger] tags[i], t)
}

/// `tags` after appending, in order, each tag of `adds` that is not yet
/// present up to ASCII case.
pub open spec fn with_added(tags: Seq<Seq<char>>, adds: Seq<Seq<char>>) -> Seq<Seq<char>>
    decreases adds.len(),
{
    if adds.len() == 0 {
        tags
    } else {
        let prev = with_added(tags, adds.drop_last());
        if contains_ci(prev, adds.last()) {
            prev
        } else {
            prev.push(adds.last())
        }
    }
}

/// `tags` without every tag that equals one of `removes` up to ASCII case,
/// the others kept in order.
pub open spec fn without_removed(tags: Seq<Seq<char>>, removes: Seq<Seq<char>>) -> Seq<Seq<char>>
    decreases tags.len(),
{
    if tags.len() == 0 {
        seq![]
    } else {
        let prev = without_removed(tags.drop_last(), removes);
        if contains_ci(removes, tags.last()) {
            prev
        } else {
            prev.push(tags.last())
        }
    }
}

/// A note's tags after an edit: the added tags first, then the removals.
pub open spec fn edited_tags(
    tags: Seq<Seq<char>>,
    adds: Seq<Seq<char>>,
    removes: Seq<Seq<char>>,
) -> Seq<Seq<char>> {
    without_removed(with_added(tags, adds), removes)
}

/// Whether some string of `list` equals `t` up to ASCII case.
pub fn any_eq_ignore_case(list: &[String], t: &str) -> (r: bool)
    ensures
        r == contains_ci(list.deep_view(), t@),
{
    let tc = to_chars(t);
    let ghost dv = list.deep_view();
    for i in 0..list.len()
        invariant
            tc@ == t@,
            dv == list.deep_view(),
            dv.len() == list.len(),
            forall|j: int| 0 <= j < i ==> !eq_ignore_case(#[trigger] dv[j], t@),
    {
        let lc = to_chars(list[i].as_str());
        if chars_eq_ignore_case(&lc, &tc) {
            assert(eq_ignore_case(dv[i as int], t@));
            return true;
        }
    }
    false
}

/// Adds each tag of `adds` that the note does not carry yet (compared up to
/// ASCII case), then drops every tag that equals one of `removes` up to
/// ASCII case.
pub fn edit_tags(tags: &mut Vec<String>, adds: Vec<String>, removes: &[String])
    ensures
        final(tags).deep_view() == edited_tags(
            old(tags).deep_view(),
            adds.deep_view(),
            removes.deep_view(),
        ),
{
    let ghost adv = adds.deep_view();
    let ghost start = tags.deep_view();
    for i in 0..adds.len()
        invariant
            adv == adds.deep_view(),
            adv.len() == adds.len(),
            tags.deep_view() == with_added(start, adv.take(i as int)),
    {
        assert(adv.take(i + 1).drop_last() == adv.take(i as int));
        assert(adv.take(i + 1).last() == adds[i as int]@);
        if !any_eq_ignore_case(tags.as_slice(), adds[i].as_str()) {
            tags.push(adds[i].clone());
            assert(tags.deep_view() == with_added(start, adv.take(i as int)).push(adv[i as int]));
        }
    }
    assert(adv.take(adds.len() as int) == adv);
    let ghost added = tags.deep_view();
    let mut kept: Vec<String> = Vec::new();
    for i in 0..tags.len()
        invariant
            added == tags.deep_view(),
            added.len() == tags.len(),
            kept.deep_view() == without_removed(added.take(i as int), removes.deep_view()),
    {
        assert(added.take(i + 1).drop_last() == added.take(i as int));
        assert(added.take(i + 1).last() == tags[i as int]@);
        if !any_eq_ignore_case(removes, tags[i].as_str()) {
            kept.push(tags[i].clone());
            assert(kept.deep_view() == without_removed(added.take(i as int), removes.deep_view()).push(
                added[i as int],
            ));
        }
    }
    assert(added.take(tags.len() as int) == added);
    *tags = kept;
}


proof fn lemma_ci_equiv(a: Seq<char>, b: Seq<char>, c: Seq<char>)
    ensures
        eq_ignore_case(a, a),
        eq_ignore_case(a, b) ==> eq_ignore_case(b, a),
        eq_ignore_case(a, b) && eq_ignore_case(b, c) ==> eq_ignore_case(a, c),
{
    if eq_ignore_case(a, b) && eq_ignore_case(b, c) {
        assert forall|i: int| 0 <= i < a.len() implies ascii_fold(#[trigger] a[i]) == ascii_fold(
            c[i],
        ) by {
            assert(ascii_fold(b[i]) == ascii_fold(c[i]));
        }
    }
    if eq_ignore_case(a, b) {
        assert forall|i: int| 0 <= i < b.len() implies ascii_fold(#[trigger] b[i]) == ascii_fold(
            a[i],
        ) by {
            assert(ascii_fold(a[i]) == ascii_fold(b[i]));
        }
    }
}

/// What `without_removed` keeps: the tags that match no removal, nothing else.
proof fn lemma_without_removed_members(tags: Seq<Seq<char>>, removes: Seq<Seq<char>>)
    ensures
        forall|i: int|
            0 <= i < without_removed(tags, removes).len() ==> !contains_ci(
                removes,
                #[trigger] without_removed(tags, removes)[i],
            ) && tags.contains(without_removed(tags, removes)[i]),
        forall|i: int|
            0 <= i < tags.len() && !contains_ci(removes, #[trigger] tags[i]) ==> without_removed(
                tags,
                removes,
            ).contains(tags[i]),
    decreases tags.len(),
{
    if tags.len() > 0 {
        let init = tags.drop_last();
        lemma_without_removed_members(init, removes);
        let prev = without_removed(init, removes);
        let res = without_removed(tags, removes);
        assert forall|i: int| 0 <= i < res.len() implies !contains_ci(
            removes,
            #[trigger] res[i],
        ) && tags.contains(res[i]) by {
            if i < prev.len() {
                assert(res[i] == prev[i]);
                let k = choose|k: int| 0 <= k < init.len() && init[k] == prev[i];
                assert(tags[k] == init[k]);
            } else {
                assert(res[i] == tags.last());
                assert(tags[tags.len() - 1] == tags.last());
            }
        }
        assert forall|i: int| 0 <= i < tags.len() && !contains_ci(removes, #[trigger] tags[i]) implies res.contains(
            tags[i],
        ) by {
            if i < tags.len() - 1 {
                assert(init[i] == tags[i]);
                let k = choose|k: int| 0 <= k < prev.len() && prev[k] == init[i];
                assert(res[k] == prev[k]);
            } else {
                assert(res[res.len() - 1] == tags[i]);
            }
        }
    }
}

/// What `with_added` holds: the old tags as a prefix, every added tag up to
/// ASCII case, and nothing that is neither old nor added.
proof fn lemma_with_added_members(tags: Seq<Seq<char>>, adds: Seq<Seq<char>>)
    ensures
        with_added(tags, adds).len() >= tags.len(),
        with_added(tags, adds).take(tags.len() as int) == tags,
        forall|j: int| 0 <= j < adds.len() ==> contains_ci(with_added(tags, adds), #[trigger] adds[j]),
        forall|i: int|
            0 <= i < with_added(tags, adds).len() ==> tags.contains(
                #[trigger] with_added(tags, adds)[i],
            ) || adds.contains(with_added(tags, adds)[i]),
    decreases adds.len(),
{
    if adds.len() > 0 {
        let init = adds.drop_last();
        lemma_with_added_members(tags, init);
        let prev = with_added(tags, init);
        let res = with_added(tags, adds);
        assert(res.take(tags.len() as int) == tags) by {
            assert(res.take(tags.len() as int) == prev.take(tags.len() as int));
        }
        assert forall|j: int| 0 <= j < adds.len() implies contains_ci(res, #[trigger] adds[j]) by {
            if j < adds.len() - 1 {
                assert(init[j] == adds[j]);
                assert(contains_ci(prev, init[j]));
                let k = choose|k: int| 0 <= k < prev.len() && eq_ignore_case(#[trigger] prev[k], init[j]);
                assert(res[k] == prev[k]);
            } else if !contains_ci(prev, adds.last()) {
                lemma_ci_equiv(adds[j], adds[j], adds[j]);
                assert(res[res.len() - 1] == adds[j]);
            }
        }
        assert forall|i: int| 0 <= i < res.len() implies tags.contains(#[trigger] res[i])
            || adds.contains(res[i]) by {
            if i < prev.len() {
                assert(res[i] == prev[i]);
                if !tags.contains(prev[i]) {
                    let k = choose|k: int| 0 <= k < init.len() && init[k] == prev[i];
                    assert(adds[k] == init[k]);
                }
            } else {
                assert(res[i] == adds[adds.len() - 1]);
            }
        }
    }
}

/// Removal splits over concatenation.
proof fn lemma_without_removed_concat(x: Seq<Seq<char>>, y: Seq<Seq<char>>, removes: Seq<Seq<char>>)
    ensures
        without_removed(x + y, removes) == without_removed(x, removes) + without_removed(y, removes),
    decreases y.len(),
{
    if y.len() == 0 {
        assert(x + y == x);
    } else {
        lemma_without_removed_concat(x, y.drop_last(), removes);
        assert((x + y).drop_last() == x + y.drop_last());
        assert((x + y).last() == y.last());
    }
}

/// Removal keeps a sequence none of whose tags match a removal, and empties
/// one all of whose tags match.
proof fn lemma_without_removed_extremes(t: Seq<Seq<char>>, removes: Seq<Seq<char>>)
    ensures
        (forall|i: int| 0 <= i < t.len() ==> !contains_ci(removes, #[trigger] t[i]))
            ==> without_removed(t, removes) == t,
        (forall|i: int| 0 <= i < t.len() ==> contains_ci(removes, #[trigger] t[i]))
            ==> without_removed(t, removes).len() == 0,
    decreases t.len(),
{
    if t.len() > 0 {
        let init = t.drop_last();
        lemma_without_removed_extremes(init, removes);
        assert(forall|i: int| 0 <= i < init.len() ==> #[trigger] init[i] == t[i]);
        assert(t.last() == t[t.len() - 1]);
        if forall|i: int| 0 <= i < t.len() ==> !contains_ci(removes, #[trigger] t[i]) {
            assert(init.push(t.last()) == t);
        }
    }
}

/// Adding to a sequence that already holds, up to case, every added tag that
/// no removal matches appends only tags that some removal matches.
proof fn lemma_with_added_tail(tags: Seq<Seq<char>>, adds: Seq<Seq<char>>, removes: Seq<Seq<char>>)
    requires
        forall|j: int|
            0 <= j < adds.len() && !contains_ci(removes, #[trigger] adds[j]) ==> contains_ci(
                tags,
                adds[j],
            ),
    ensures
        with_added(tags, adds).len() >= tags.len(),
        with_added(tags, adds) == tags + with_added(tags, adds).skip(tags.len() as int),
        forall|i: int|
            tags.len() <= i < with_added(tags, adds).len() ==> contains_ci(
                removes,
                #[trigger] with_added(tags, adds)[i],
            ),
    decreases adds.len(),
{
    if adds.len() > 0 {
        let init = adds.drop_last();
        assert forall|j: int| 0 <= j < init.len() && !contains_ci(removes, #[trigger] init[j]) implies contains_ci(
            tags,
            init[j],
        ) by {
            assert(init[j] == adds[j]);
        }
        lemma_with_added_tail(tags, init, removes);
        let prev = with_added(tags, init);
        let res = with_added(tags, adds);
        if !contains_ci(prev, adds.last()) {
            let x = adds.last();
            assert(x == adds[adds.len() - 1]);
            if !contains_ci(removes, x) {
                let k = choose|k: int| 0 <= k < tags.len() && eq_ignore_case(#[trigger] tags[k], x);
                assert(prev[k] == tags[k]);
                assert(false);
            }
            assert(res[res.len() - 1] == x);
        }
        assert(res == tags + res.skip(tags.len() as int));
    } else {
        assert(tags == tags + tags.skip(tags.len() as int));
    }
}

/// Law: after an edit, no tag of the note equals, up to ASCII case, a tag
/// that was asked to be removed.
pub proof fn law_edit_drops_removed(
    tags: Seq<Seq<char>>,
    adds: Seq<Seq<char>>,
    removes: Seq<Seq<char>>,
)
    ensures
        forall|i: int|
            0 <= i < edited_tags(tags, adds, removes).len() ==> !contains_ci(
                removes,
                #[trigger] edited_tags(tags, adds, removes)[i],
            ),
{
    lemma_without_removed_members(with_added(tags, adds), removes);
}

/// Law: after an edit, every tag asked to be added that no removal matches
/// is on the note, up to ASCII case.
pub proof fn law_edit_adds_missing(
    tags: Seq<Seq<char>>,
    adds: Seq<Seq<char>>,
    removes: Seq<Seq<char>>,
)
    ensures
        forall|j: int|
            0 <= j < adds.len() && !contains_ci(removes, #[trigger] adds[j]) ==> contains_ci(
                edited_tags(tags, adds, removes),
                adds[j],
            ),
{
    let a = with_added(tags, adds);
    let e = edited_tags(tags, adds, removes);
    lemma_with_added_members(tags, adds);
    lemma_without_removed_members(a, removes);
    assert forall|j: int| 0 <= j < adds.len() && !contains_ci(removes, #[trigger] adds[j]) implies contains_ci(
        e,
        adds[j],
    ) by {
        let k = choose|k: int| 0 <= k < a.len() && eq_ignore_case(#[trigger] a[k], adds[j]);
        if contains_ci(removes, a[k]) {
            let m = choose|m: int| 0 <= m < removes.len() && eq_ignore_case(#[trigger] removes[m], a[k]);
            lemma_ci_equiv(removes[m], a[k], adds[j]);
            assert(false);
        }
        let n = choose|n: int| 0 <= n < e.len() && e[n] == a[k];
        assert(eq_ignore_case(e[n], adds[j]));
    }
}

/// Law: an edit keeps every tag the note had that no removal matches.
pub proof fn law_edit_keeps_others(
    tags: Seq<Seq<char>>,
    adds: Seq<Seq<char>>,
    removes: Seq<Seq<char>>,
)
    ensures
        forall|i: int|
            0 <= i < tags.len() && !contains_ci(removes, #[trigger] tags[i]) ==> edited_tags(
                tags,
                adds,
                removes,
            ).contains(tags[i]),
{
    let a = with_added(tags, adds);
    lemma_with_added_members(tags, adds);
    lemma_without_removed_members(a, removes);
    assert forall|i: int| 0 <= i < tags.len() && !contains_ci(removes, #[trigger] tags[i]) implies edited_tags(
        tags,
        adds,
        removes,
    ).contains(tags[i]) by {
        assert(a.take(tags.len() as int)[i] == a[i]);
        assert(a[i] == tags[i]);
    }
}

/// Law: every tag on the note after an edit was on it before or was asked
/// to be added.
pub proof fn law_edit_only_known(
    tags: Seq<Seq<char>>,
    adds: Seq<Seq<char>>,
    removes: Seq<Seq<char>>,
)
    ensures
        forall|i: int|
            0 <= i < edited_tags(tags, adds, removes).len() ==> tags.contains(
                #[trigger] edited_tags(tags, adds, removes)[i],
            ) || adds.contains(edited_tags(tags, adds, removes)[i]),
{
    let a = with_added(tags, adds);
    lemma_with_added_members(tags, adds);
    lemma_without_removed_members(a, removes);
    let e = edited_tags(tags, adds, removes);
    assert forall|i: int| 0 <= i < e.len() implies tags.contains(#[trigger] e[i]) || adds.contains(
        e[i],
    ) by {
        let k = choose|k: int| 0 <= k < a.len() && a[k] == e[i];
    }
}

/// Law: repeating the same edit changes nothing.
pub proof fn law_edit_idempotent(
    tags: Seq<Seq<char>>,
    adds: Seq<Seq<char>>,
    removes: Seq<Seq<char>>,
)
    ensures
        edited_tags(edited_tags(tags, adds, removes), adds, removes) == edited_tags(
            tags,
            adds,
            removes,
        ),
{
    let e = edited_tags(tags, adds, removes);
    law_edit_adds_missing(tags, adds, removes);
    law_edit_drops_removed(tags, adds, removes);
    lemma_with_added_tail(e, adds, removes);
    let a2 = with_added(e, adds);
    let tail = a2.skip(e.len() as int);
    assert forall|i: int| 0 <= i < tail.len() implies contains_ci(removes, #[trigger] tail[i]) by {
        assert(tail[i] == a2[e.len() + i]);
    }
    lemma_without_removed_concat(e, tail, removes);
    lemma_without_removed_extremes(e, removes);
    lemma_without_removed_extremes(tail, removes);
    assert(without_removed(e, removes) + without_removed(tail, removes) == e);
}

/// No two tags are equal up to ASCII case.
pub open spec fn distinct_ci(tags: Seq<Seq<char>>) -> bool {
    forall|i: int, j: int|
        0 <= i < j < tags.len() ==> !eq_ignore_case(#[trigger] tags[i], #[trigger] tags[j])
}

proof fn lemma_with_added_distinct(tags: Seq<Seq<char>>, adds: Seq<Seq<char>>)
    requires
        distinct_ci(tags),
    ensures
        distinct_ci(with_added(tags, adds)),
    decreases adds.len(),
{
    if adds.len() > 0 {
        lemma_with_added_distinct(tags, adds.drop_last());
        let prev = with_added(tags, adds.drop_last());
        let x = adds.last();
        if !contains_ci(prev, x) {
            let res = prev.push(x);
            assert forall|i: int, j: int| 0 <= i < j < res.len() implies !eq_ignore_case(
                #[trigger] res[i],
                #[trigger] res[j],
            ) by {
                if j == res.len() - 1 {
                    assert(res[i] == prev[i]);
                    if eq_ignore_case(prev[i], x) {
                        assert(contains_ci(prev, x));
                    }
                } else {
                    assert(res[i] == prev[i] && res[j] == prev[j]);
                }
            }
        }
    }
}

proof fn lemma_without_removed_distinct(tags: Seq<Seq<char>>, removes: Seq<Seq<char>>)
    requires
        distinct_ci(tags),
    ensures
        distinct_ci(without_removed(tags, removes)),
    decreases tags.len(),
{
    if tags.len() > 0 {
        let init = tags.drop_last();
        assert forall|i: int, j: int| 0 <= i < j < init.len() implies !eq_ignore_case(
            #[trigger] init[i],
            #[trigger] init[j],
        ) by {
            assert(init[i] == tags[i] && init[j] == tags[j]);
        }
        lemma_without_removed_distinct(init, removes);
        lemma_without_removed_members(init, removes);
        let prev = without_removed(init, removes);
        let x = tags.last();
        if !contains_ci(removes, x) {
            let res = prev.push(x);
            assert forall|i: int, j: int| 0 <= i < j < res.len() implies !eq_ignore_case(
                #[trigger] res[i],
                #[trigger] res[j],
            ) by {
                if j == res.len() - 1 {
                    assert(res[i] == prev[i]);
                    let k = choose|k: int| 0 <= k < init.len() && init[k] == prev[i];
                    assert(tags[k] == init[k]);
                    assert(tags[tags.len() - 1] == x);
                } else {
                    assert(res[i] == prev[i] && res[j] == prev[j]);
                }
            }
        }
    }
}

/// Law: an edit of a note whose tags are distinct up to ASCII case leaves
/// them distinct up to ASCII case.
pub proof fn law_edit_keeps_tags_distinct(
    tags: Seq<Seq<char>>,
    adds: Seq<Seq<char>>,
    removes: Seq<Seq<char>>,
)
    requires
        distinct_ci(tags),
    ensures
        distinct_ci(edited_tags(tags, adds, removes)),
{
    lemma_with_added_distinct(tags, adds);
    lemma_without_removed_distinct(with_added(tags, adds), removes);
}

/// A bulk tag command needs its search to match some note.
pub fn require_matches(query: &str, matched: usize) -> (r: Result<(), CliError>)
    ensures
        matched > 0 <==> r is Ok,
        r matches Err(e) ==> e@ == (CliErrorView::NoNotesMatched { query: query@ }),
{
    if matched == 0 {
        Err(CliError::NoNotesMatched { query: String::from_str(query) })
    } else {
        Ok(())
    }
}

/// The tags as the backend takes them: one string, separated by spaces.
pub fn tags_arg(tags: &[String]) -> (s: String)
    ensures
        s@ == join(tags.deep_view(), " "@),
{
    join_strings(tags, " ")
}

/// The report of `tags add`.
pub fn add(changed: usize, matched: usize, tags: &[String]) -> (s: String)
    ensures
        s@ == "tagged "@ + decimal(changed as nat) + " of "@ + decimal(matched as nat)
            + " matched note(s) with: "@ + join(tags.deep_view(), ", "@),
{
    let mut s = String::from_str("tagged ");
    push_decimal(&mut s, changed as u64);
    push_str(&mut s, " of ");
    push_decimal(&mut s, matched as u64);
    push_str(&mut s, " matched note(s) with: ");
    push_joined(&mut s, tags, ", ");
    s
}

/// The report of `tags remove`.
pub fn remove(changed: usize, matched: usize, tags: &[String]) -> (s: String)
    ensures
        s@ == "removed tags from "@ + decimal(changed as nat) + " of "@ + decimal(matched as nat)
            + " matched note(s): "@ + join(tags.deep_view(), ", "@),
{
    let mut s = String::from_str("removed tags from ");
    push_decimal(&mut s, changed as u64);
    push_str(&mut s, " of ");
    push_decimal(&mut s, matched as u64);
    push_str(&mut s, " matched note(s): ");
    push_joined(&mut s, tags, ", ");
    s
}

} // verus!
