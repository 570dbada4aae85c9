use vstd::prelude::*;
use crate::text::{newlines_to_spaces, push_one_line, to_chars, from_chars};

verus! {

/// The human name of a card queue value, as a sequence of characters.
pub open spec fn spec_queue_name(queue: i32) -> Seq<char> {
    if queue == 0 {
        "new"@
    } else if queue == 1 {
        "learn"@
    } else if queue == 2 {
        "review"@
    } else if queue == 3 {
        "daylearn"@
    } else if queue == 4 {
        "preview"@
    } else if queue == -1 {
        "suspended"@
    } else if queue == -2 || queue == -3 {
        "buried"@
    } else {
        "unknown"@
    }
}

/// Human name for a card queue value (new, learning, review, suspended, ...).
pub fn queue_name(queue: i32) -> (name: &'static str)
    ensures
        name@ == spec_queue_name(queue),
{
    match queue {
        0 => "new",
        1 => "learn",
        2 => "review",
        3 => "daylearn",
        4 => "preview",
        -1 => "suspended",
        -2 | -3 => "buried",
        _ => "unknown",
    }
}


/// The one-line preview of a field's plain text: newlines become spaces,
/// and text longer than `max_chars` characters is cut there and ends in `…`.
pub open spec fn spec_preview(text: Seq<char>, max_chars: nat) -> Seq<char> {
    let line = newlines_to_spaces(text);
    if line.len() > max_chars {
        line.take(max_chars as int).push('\u{2026}')
    } else {
        line
    }
}

/// One-line preview of a field value whose HTML has already been stripped:
/// newlines become spaces, and text longer than `max_chars` characters is
/// cut after `max_chars` characters and ends in `…`.
pub fn preview(text: &str, max_chars: usize) -> (out: String)
    ensures
        out@ == spec_preview(text@, max_chars as nat),
{
    let mut line = String::new();
    push_one_line(&mut line, text);
    let chars = to_chars(line.as_str());
    if chars.len() > max_chars {
        let mut cut: Vec<char> = Vec::new();
        for i in 0..max_chars
            invariant
                max_chars < chars.len(),
                cut@ == chars@.take(i as int),
        {
            cut.push(chars[i]);
            assert(chars@.take(i + 1) == chars@.take(i as int).push(chars@[i as int]));
        }
        cut.push('\u{2026}');
        from_chars(&cut)
    } else {
        line
    }
}

/// Law: a preview is at most one character longer than its limit, holds no
/// newline, and is the whole text when the text fits.
pub proof fn law_preview_bounded(text: Seq<char>, max_chars: nat)
    ensures
        spec_preview(text, max_chars).len() <= max_chars + 1,
        !spec_preview(text, max_chars).contains('\n'),
        text.len() <= max_chars ==> spec_preview(text, max_chars) == newlines_to_spaces(text),
        spec_preview(text, max_chars).len() == if text.len() <= max_chars {
            text.len()
        } else {
            max_chars + 1
        },
        forall|i: int|
            0 <= i < text.len() && i < max_chars ==> #[trigger] spec_preview(text, max_chars)[i]
                == if text[i] == '\n' {
                ' '
            } else {
                text[i]
            },
        text.len() > max_chars ==> spec_preview(text, max_chars)[max_chars as int] == '\u{2026}',
{
    let line = newlines_to_spaces(text);
    let p = spec_preview(text, max_chars);
    if p.contains('\n') {
        let j = choose|j: int| 0 <= j < p.len() && p[j] == '\n';
        if line.len() > max_chars {
            if j < max_chars {
                assert(p[j] == line[j]);
            }
        } else {
            assert(p[j] == line[j]);
        }
    }
}

} // verus!
