use vstd::prelude::*;

verus! {

/// Appends one character to a string; a call of std's `String::push`,
/// which the documentation describes as appending the character to the end.
#[verifier::external_body]
fn push_char(s: &mut String, c: char)
    ensures
        final(s)@ == old(s)@.push(c),
{
    s.push(c);
}

/// The characters of a string, in order.
pub fn to_chars(s: &str) -> (v: Vec<char>)
    ensures
        v@ == s@,
{
    broadcast use vstd::string::group_string_axioms;
    let mut v: Vec<char> = Vec::new();
    for c in it: s.chars()
        invariant
            it.seq() == s@,
            v@ == it.seq().take(it.index() as int),
    {
        v.push(c);
    }
    v
}

/// The string made of the given characters, in order.
pub fn from_chars(v: &[char]) -> (s: String)
    ensures
        s@ == v@,
{
    let mut s = String::new();
    for i in 0..v.len()
        invariant
            s@ == v@.take(i as int),
    {
        push_char(&mut s, v[i]);
        assert(v@.take(i + 1) == v@.take(i as int).push(v@[i as int]));
    }
    assert(v@.take(v.len() as int) == v@);
    s
}


/// Appends a string slice to a string.
pub fn push_str(s: &mut String, t: &str)
    ensures
        final(s)@ == old(s)@ + t@,
{
    s.append(t);
}

/// The decimal digit character for `d < 10`.
pub open spec fn digit_char(d: nat) -> char {
    (48 + d) as char
}

/// The decimal representation of a natural number, without leading zeros.
pub open spec fn decimal(n: nat) -> Seq<char>
    decreases n,
{
    if n < 10 {
        seq![digit_char(n)]
    } else {
        decimal(n / 10).push(digit_char(n % 10))
    }
}

/// The decimal representation of an integer, with a leading `-` when negative.
pub open spec fn signed_decimal(n: int) -> Seq<char> {
    if n < 0 {
        seq!['-'] + decimal((-n) as nat)
    } else {
        decimal(n as nat)
    }
}

/// Appends the decimal representation of `n`.
pub fn push_decimal(s: &mut String, n: u64)
    ensures
        final(s)@ == old(s)@ + decimal(n as nat),
    decreases n,
{
    if n >= 10 {
        push_decimal(s, n / 10);
    }
    let d: u8 = (n % 10) as u8;
    push_char(s, (48u8 + d) as char);
}

/// Appends the decimal representation of a signed number.
pub fn push_signed(s: &mut String, n: i64)
    ensures
        final(s)@ == old(s)@ + signed_decimal(n as int),
{
    if n < 0 {
        push_char(s, '-');
        let m: i128 = 0i128 - (n as i128);
        push_decimal(s, m as u64);
        assert(final(s)@ == old(s)@ + (seq!['-'] + decimal((-n) as nat)));
    } else {
        push_decimal(s, n as u64);
    }
}

/// The decimal representation of `n` as a new string.
pub fn decimal_string(n: u64) -> (s: String)
    ensures
        s@ == decimal(n as nat),
{
    let mut s = String::new();
    push_decimal(&mut s, n);
    s
}

/// The decimal representation of a signed `n` as a new string.
pub fn signed_string(n: i64) -> (s: String)
    ensures
        s@ == signed_decimal(n as int),
{
    let mut s = String::new();
    push_signed(&mut s, n);
    s
}

/// `k` space characters.
pub open spec fn spaces(k: nat) -> Seq<char> {
    Seq::new(k, |_i: int| ' ')
}

/// Left-aligned in a field of `width` characters (the `{:<width}` format).
pub open spec fn pad_end(t: Seq<char>, width: nat) -> Seq<char> {
    if t.len() >= width {
        t
    } else {
        t + spaces((width - t.len()) as nat)
    }
}

/// Right-aligned in a field of `width` characters (the `{:>width}` format).
pub open spec fn pad_start(t: Seq<char>, width: nat) -> Seq<char> {
    if t.len() >= width {
        t
    } else {
        spaces((width - t.len()) as nat) + t
    }
}

/// Appends `k` spaces.
fn push_spaces(s: &mut String, k: usize)
    ensures
        final(s)@ == old(s)@ + spaces(k as nat),
{
    let ghost start = s@;
    for i in 0..k
        invariant
            s@ == start + spaces(i as nat),
    {
        push_char(s, ' ');
        assert(start + spaces((i + 1) as nat) == (start + spaces(i as nat)).push(' '));
    }
}

/// Appends `t` left-aligned in a field of `width` characters.
pub fn push_padded_end(s: &mut String, t: &str, width: usize)
    ensures
        final(s)@ == old(s)@ + pad_end(t@, width as nat),
{
    let len = t.unicode_len();
    push_str(s, t);
    if len < width {
        push_spaces(s, width - len);
        assert(old(s)@ + t@ + spaces((width - len) as nat) == old(s)@ + (t@ + spaces(
            (width - len) as nat,
        )));
    }
}

/// Appends `t` right-aligned in a field of `width` characters.
pub fn push_padded_start(s: &mut String, t: &str, width: usize)
    ensures
        final(s)@ == old(s)@ + pad_start(t@, width as nat),
{
    let len = t.unicode_len();
    if len < width {
        push_spaces(s, width - len);
    }
    push_str(s, t);
    if len < width {
        assert(old(s)@ + spaces((width - len) as nat) + t@ == old(s)@ + (spaces(
            (width - len) as nat,
        ) + t@));
    }
}

/// The items of `list` separated by `sep`.
pub open spec fn join(list: Seq<Seq<char>>, sep: Seq<char>) -> Seq<char>
    decreases list.len(),
{
    if list.len() == 0 {
        seq![]
    } else if list.len() == 1 {
        list[0]
    } else {
        join(list.drop_last(), sep) + sep + list.last()
    }
}

/// Appends the items of `list` separated by `sep`.
pub fn push_joined(s: &mut String, list: &[String], sep: &str)
    ensures
        final(s)@ == old(s)@ + join(list.deep_view(), sep@),
{
    let ghost start = s@;
    let ghost dv = list.deep_view();
    for i in 0..list.len()
        invariant
            dv == list.deep_view(),
            dv.len() == list.len(),
            s@ == start + join(dv.take(i as int), sep@),
    {
        assert(dv.take(i + 1).drop_last() == dv.take(i as int));
        assert(dv.take(i + 1).last() == list[i as int]@);
        if i != 0 {
            push_str(s, sep);
        }
        push_str(s, list[i].as_str());
        assert(start + join(dv.take(i + 1), sep@) == s@);
    }
    assert(dv.take(list.len() as int) == dv);
}

/// The items of `list` separated by `sep`, as a new string.
pub fn join_strings(list: &[String], sep: &str) -> (s: String)
    ensures
        s@ == join(list.deep_view(), sep@),
{
    let mut s = String::new();
    push_joined(&mut s, list, sep);
    s
}

/// `t` with every newline replaced by a space.
pub open spec fn newlines_to_spaces(t: Seq<char>) -> Seq<char> {
    t.map_values(|c: char| if c == '\n' { ' ' } else { c })
}

/// Appends `t` with every newline replaced by a space.
pub fn push_one_line(s: &mut String, t: &str)
    ensures
        final(s)@ == old(s)@ + newlines_to_spaces(t@),
{
    let ghost start = s@;
    let chars = to_chars(t);
    for i in 0..chars.len()
        invariant
            chars@ == t@,
            s@ == start + newlines_to_spaces(t@.take(i as int)),
    {
        let c = chars[i];
        if c == '\n' {
            push_char(s, ' ');
        } else {
            push_char(s, c);
        }
        assert(newlines_to_spaces(t@.take(i + 1)) == newlines_to_spaces(t@.take(i as int)).push(
            if c == '\n' { ' ' } else { c },
        ));
    }
    assert(t@.take(chars.len() as int) == t@);
}

/// ASCII lower-casing of one character; every other character is kept.
pub open spec fn ascii_fold(c: char) -> char {
    if 'A' <= c && c <= 'Z' {
        ((c as u32) + 32) as char
    } else {
        c
    }
}

/// Equality of two strings when ASCII letters are compared without case
/// (std's `eq_ignore_ascii_case`).
pub open spec fn eq_ignore_case(a: Seq<char>, b: Seq<char>) -> bool {
    &&& a.len() == b.len()
    &&& forall|i: int| 0 <= i < a.len() ==> ascii_fold(#[trigger] a[i]) == ascii_fold(b[i])
}

fn fold_char(c: char) -> (r: char)
    ensures
        r == ascii_fold(c),
{
    if 'A' <= c && c <= 'Z' {
        ((c as u8) + 32) as char
    } else {
        c
    }
}

/// Whether two character sequences are equal up to ASCII case.
pub fn chars_eq_ignore_case(a: &[char], b: &[char]) -> (r: bool)
    ensures
        r == eq_ignore_case(a@, b@),
{
    if a.len() != b.len() {
        return false;
    }
    for i in 0..a.len()
        invariant
            a.len() == b.len(),
            forall|j: int| 0 <= j < i ==> ascii_fold(#[trigger] a@[j]) == ascii_fold(b@[j]),
    {
        if fold_char(a[i]) != fold_char(b[i]) {
            return false;
        }
    }
    true
}

/// Whether two character sequences are equal.
pub fn chars_eq(a: &[char], b: &[char]) -> (r: bool)
    ensures
        r == (a@ == b@),
{
    if a.len() != b.len() {
        return false;
    }
    for i in 0..a.len()
        invariant
            a.len() == b.len(),
            forall|j: int| 0 <= j < i ==> #[trigger] a@[j] == b@[j],
    {
        if a[i] != b[i] {
            return false;
        }
    }
    assert(a@ == b@);
    true
}


/// A copy of a list of strings.
pub fn clone_strings(v: &[String]) -> (w: Vec<String>)
    ensures
        w.deep_view() == v.deep_view(),
{
    let mut w: Vec<String> = Vec::new();
    for i in 0..v.len()
        invariant
            w.deep_view() == v.deep_view().take(i as int),
    {
        let ghost before = w.deep_view();
        let c = v[i].clone();
        w.push(c);
        assert(w.deep_view() =~= before.push(v[i as int]@));
        assert(v.deep_view().take(i + 1) =~= v.deep_view().take(i as int).push(v[i as int]@));
    }
    assert(v.deep_view().take(v.len() as int) == v.deep_view());
    w
}

/// Law: ASCII case folding lowers exactly the 26 ASCII capitals, each to its
/// small letter 32 code points up (as std's `to_ascii_lowercase`), and keeps
/// every other character.
pub proof fn law_ascii_fold(c: char)
    ensures
        'A' <= c <= 'Z' ==> ascii_fold(c) as u32 == c as u32 + 32 && 'a' <= ascii_fold(c) <= 'z',
        !('A' <= c <= 'Z') ==> ascii_fold(c) == c,
{
}

/// Law: two strings are equal up to ASCII case exactly when they have the
/// same length and, position by position, the characters are equal or one is
/// an ASCII capital and the other its small letter.
pub proof fn law_eq_ignore_case(a: Seq<char>, b: Seq<char>)
    ensures
        eq_ignore_case(a, b) <==> (a.len() == b.len() && forall|i: int|
            0 <= i < a.len() ==> (#[trigger] a[i] == b[i] || ('A' <= a[i] <= 'Z' && b[i] as u32
                == a[i] as u32 + 32) || ('A' <= b[i] <= 'Z' && a[i] as u32 == b[i] as u32 + 32))),
{
    if a.len() == b.len() {
        assert forall|i: int| 0 <= i < a.len() implies (ascii_fold(#[trigger] a[i]) == ascii_fold(b[i])
            <==> (a[i] == b[i] || ('A' <= a[i] <= 'Z' && b[i] as u32 == a[i] as u32 + 32) || ('A'
            <= b[i] <= 'Z' && a[i] as u32 == b[i] as u32 + 32))) by {
            law_ascii_fold(a[i]);
            law_ascii_fold(b[i]);
        }
    }
}

/// Law: a padded field starts with the whole text, never cut, and is as long
/// as the text or the width, whichever is more; the padding is spaces.
pub proof fn law_pad(t: Seq<char>, width: nat)
    ensures
        pad_end(t, width).subrange(0, t.len() as int) == t,
        pad_end(t, width).len() == if t.len() >= width { t.len() } else { width },
        forall|i: int| t.len() <= i < pad_end(t, width).len() ==> #[trigger] pad_end(t, width)[i] == ' ',
        pad_start(t, width).len() == if t.len() >= width { t.len() } else { width },
        pad_start(t, width).subrange(pad_start(t, width).len() - t.len(), pad_start(t, width).len() as int) == t,
{
    assert(pad_end(t, width).subrange(0, t.len() as int) =~= t);
    let p = pad_start(t, width);
    assert(p.subrange(p.len() - t.len(), p.len() as int) =~= t);
}

/// Whether `t` occurs, whole and in one piece, in `s`.
pub open spec fn occurs_in(t: Seq<char>, s: Seq<char>) -> bool {
    exists|k: int| 0 <= k && k + t.len() <= s.len() && #[trigger] s.subrange(k, k + t.len()) == t
}

/// Law: every item of a joined list occurs in the result, whole and in one
/// piece.
pub proof fn law_join_contains(list: Seq<Seq<char>>, sep: Seq<char>)
    ensures
        forall|i: int| 0 <= i < list.len() ==> occurs_in(#[trigger] list[i], join(list, sep)),
    decreases list.len(),
{
    if list.len() > 0 {
        let init = list.drop_last();
        law_join_contains(init, sep);
        let j = join(list, sep);
        assert forall|i: int| 0 <= i < list.len() implies occurs_in(#[trigger] list[i], j) by {
            if list.len() == 1 {
                assert(j == list[0]);
                assert(j.subrange(0, list[i].len() as int) =~= list[i]);
                assert(j.subrange(0int, 0int + list[i].len()) == list[i]);
            } else if i < list.len() - 1 {
                assert(init[i] == list[i]);
                assert(occurs_in(init[i], join(init, sep)));
                let k = choose|k: int|
                    0 <= k && k + init[i].len() <= join(init, sep).len() && #[trigger] join(
                        init,
                        sep,
                    ).subrange(k, k + init[i].len()) == init[i];
                assert(j == join(init, sep) + sep + list.last());
                assert(j.subrange(k, k + list[i].len()) =~= join(init, sep).subrange(
                    k,
                    k + init[i].len(),
                ));
                assert(j.subrange(k, k + list[i].len()) == list[i]);
            } else {
                let k: int = (join(init, sep).len() + sep.len()) as int;
                assert(j.subrange(k, k + list[i].len()) =~= list[i]);
                assert(j.subrange(k, k + list[i].len()) == list[i]);
            }
        }
    }
}

/// A string that occurs in `s` still occurs when text is put before or after `s`.
pub proof fn lemma_occurs_in_concat(t: Seq<char>, a: Seq<char>, s: Seq<char>, b: Seq<char>)
    requires
        occurs_in(t, s),
    ensures
        occurs_in(t, a + s + b),
{
    let k = choose|k: int| 0 <= k && k + t.len() <= s.len() && #[trigger] s.subrange(k, k + t.len()) == t;
    let w = a + s + b;
    let k2: int = a.len() + k;
    assert(w.subrange(k2, k2 + t.len()) =~= s.subrange(k, k + t.len()));
    assert(w.subrange(k2, k2 + t.len()) == t);
}

/// Law: joining two items puts the separator between them.
pub proof fn law_join_two(a: Seq<char>, b: Seq<char>, sep: Seq<char>)
    ensures
        join(seq![a, b], sep) == a + sep + b,
{
    assert(seq![a, b].drop_last() =~= seq![a]);
    assert(join(seq![a], sep) == a);
}

/// The number that a string of decimal digits stands for.
pub open spec fn digits_value(s: Seq<char>) -> int
    decreases s.len(),
{
    if s.len() == 0 {
        0
    } else {
        digits_value(s.drop_last()) * 10 + (s.last() as int - '0' as int)
    }
}

/// Law: the decimal representation of `n` is a non-empty string of digits,
/// with no leading zero unless it is `0` itself, that stands for `n`.
pub proof fn law_decimal(n: nat)
    ensures
        decimal(n).len() >= 1,
        forall|i: int| 0 <= i < decimal(n).len() ==> '0' <= #[trigger] decimal(n)[i] <= '9',
        digits_value(decimal(n)) == n,
        n >= 10 ==> decimal(n)[0] != '0',
    decreases n,
{
    if n >= 10 {
        law_decimal(n / 10);
        let d = decimal(n);
        let p = decimal(n / 10);
        assert(d.drop_last() == p);
        assert(d[0] == p[0]);
        assert forall|i: int| 0 <= i < d.len() implies '0' <= #[trigger] d[i] <= '9' by {
            if i < d.len() - 1 {
                assert(d[i] == p[i]);
            }
        }
        if n / 10 >= 10 {
        } else {
            assert(p[0] == digit_char(n / 10));
        }
        assert(d.last() == digit_char(n % 10));
        assert(digit_char(n % 10) as int == 48 + n % 10);
        assert(n == (n / 10) * 10 + n % 10);
        assert('0' as int == 48);
        assert(digits_value(d) == digits_value(p) * 10 + (d.last() as int - '0' as int));
        assert(digits_value(p) == n / 10);
        assert(digits_value(d) == n);
    } else {
        assert('0' as int == 48);
        let d = seq![digit_char(n)];
        assert(digits_value(d.drop_last()) == 0);
        assert(digits_value(d) == n);
        assert(decimal(n) == seq![digit_char(n)]);
        assert(digit_char(n) as int == 48 + n);
        assert(seq![digit_char(n)].drop_last().len() == 0);
    }
}

/// Law: a signed decimal is the decimal of the magnitude, behind a `-` for a
/// negative number.
pub proof fn law_signed_decimal(n: int)
    ensures
        n < 0 ==> signed_decimal(n)[0] == '-' && signed_decimal(n).drop_first() == decimal(
            (-n) as nat,
        ),
        n >= 0 ==> signed_decimal(n) == decimal(n as nat),
{
    if n < 0 {
        assert((seq!['-'] + decimal((-n) as nat)).drop_first() =~= decimal((-n) as nat));
    }
}

/// The total length of a list of strings.
pub open spec fn total_len(list: Seq<Seq<char>>) -> nat
    decreases list.len(),
{
    if list.len() == 0 {
        0
    } else {
        total_len(list.drop_last()) + list.last().len()
    }
}

/// Law: a joined list is as long as its items together plus one separator
/// between each two neighbours.
pub proof fn law_join_len(list: Seq<Seq<char>>, sep: Seq<char>)
    ensures
        list.len() > 0 ==> join(list, sep).len() == total_len(list) + (list.len() - 1) * sep.len(),
        list.len() == 0 ==> join(list, sep).len() == 0,
    decreases list.len(),
{
    if list.len() > 1 {
        law_join_len(list.drop_last(), sep);
        assert(join(list, sep) == join(list.drop_last(), sep) + sep + list.last());
        assert(total_len(list) == total_len(list.drop_last()) + list.last().len());
        assert((list.len() - 1) * sep.len() == (list.len() - 2) * sep.len() + sep.len()) by (nonlinear_arith);
    } else if list.len() == 1 {
        assert(list.drop_last().len() == 0);
        assert(total_len(list) == total_len(list.drop_last()) + list.last().len());
        assert(list.last() == list[0]);
    }
}

} // verus!
