//! Single-line text input editing: a string with a cursor counted in
//! characters, the editing keys of the practice screen and the terminal
//! kill shortcuts (Ctrl+U, Ctrl+W, Ctrl+K).
use vstd::prelude::*;

use crate::text::{char_is_whitespace, chars_of, white_space, string_from_chars};

verus! {

/// The cursor moved back onto the text when it lies beyond its end.
pub open spec fn clamped(cursor: usize, len: nat) -> nat {
    if cursor > len {
        len
    } else {
        cursor as nat
    }
}

/// Moves the cursor back onto the text when it lies beyond its end.
pub fn clamp_cursor(input: &str, cursor: &mut usize)
    ensures
        *final(cursor) == clamped(*old(cursor), input@.len()),
{
    let len = input.unicode_len();
    if *cursor > len {
        *cursor = len;
    }
}

fn replace_contents(input: &mut String, v: &Vec<char>)
    ensures
        final(input)@ == v@,
{
    *input = string_from_chars(v.as_slice());
}

/// The text and cursor after inserting `c` at the (clamped) cursor: the
/// character goes in at the cursor, which moves past it.
pub open spec fn inserted(s: Seq<char>, cursor: usize, c: char) -> (Seq<char>, int) {
    let k = clamped(cursor, s.len()) as int;
    (s.subrange(0, k) + seq![c] + s.subrange(k, s.len() as int), k + 1)
}

/// The text and cursor after deleting before the (clamped) cursor: nothing
/// at the start of the line, else the one character before the cursor
/// goes and the cursor moves back over it.
pub open spec fn removed_before(s: Seq<char>, cursor: usize) -> (Seq<char>, int) {
    let k = clamped(cursor, s.len()) as int;
    if k == 0 {
        (s, 0)
    } else {
        (s.subrange(0, k - 1) + s.subrange(k, s.len() as int), k - 1)
    }
}

/// Inserts `c` at the (clamped) cursor and moves the cursor past it; a
/// cursor beyond the end appends.
pub fn insert_char(input: &mut String, cursor: &mut usize, c: char)
    requires
        old(input)@.len() < usize::MAX,
    ensures
        (final(input)@, *final(cursor) as int) == inserted(old(input)@, *old(cursor), c),
{
    let mut v = chars_of(input.as_str());
    clamp_cursor(input.as_str(), cursor);
    let k = *cursor;
    v.insert(k, c);
    assert(v@ =~= old(input)@.subrange(0, k as int) + seq![c] + old(input)@.subrange(
        k as int,
        old(input)@.len() as int,
    ));
    replace_contents(input, &v);
    *cursor = k + 1;
}

/// Deletes the character before the (clamped) cursor and moves the cursor
/// back; nothing happens at the start of the line. A stale cursor beyond
/// the end removes the last character, never the whole line.
pub fn remove_before(input: &mut String, cursor: &mut usize)
    ensures
        (final(input)@, *final(cursor) as int) == removed_before(old(input)@, *old(cursor)),
{
    clamp_cursor(input.as_str(), cursor);
    if *cursor == 0 {
        return;
    }
    let mut v = chars_of(input.as_str());
    let k = *cursor;
    let _ = v.remove(k - 1);
    assert(v@ =~= old(input)@.subrange(0, k - 1) + old(input)@.subrange(
        k as int,
        old(input)@.len() as int,
    ));
    replace_contents(input, &v);
    *cursor = k - 1;
}

/// Deletes the character at the (clamped) cursor; nothing happens at the
/// end of the line. The cursor stays.
pub fn remove_at(input: &mut String, cursor: &mut usize)
    ensures
        ({
            let k = clamped(*old(cursor), old(input)@.len()) as int;
            &&& *final(cursor) == k
            &&& if k >= old(input)@.len() {
                final(input)@ == old(input)@
            } else {
                final(input)@ == old(input)@.subrange(0, k) + old(input)@.subrange(
                    k + 1,
                    old(input)@.len() as int,
                )
            }
        }),
{
    clamp_cursor(input.as_str(), cursor);
    let len = input.unicode_len();
    if *cursor >= len {
        return;
    }
    let mut v = chars_of(input.as_str());
    let k = *cursor;
    let _ = v.remove(k);
    assert(v@ =~= old(input)@.subrange(0, k as int) + old(input)@.subrange(
        k + 1,
        old(input)@.len() as int,
    ));
    replace_contents(input, &v);
}

/// Moves the cursor one character to the left, stopping at the start.
pub fn move_left(_input: &str, cursor: &mut usize)
    ensures
        *final(cursor) == if *old(cursor) > 0 {
            (*old(cursor) - 1) as usize
        } else {
            0usize
        },
{
    if *cursor > 0 {
        *cursor = *cursor - 1;
    }
}

/// Moves the cursor one character to the right, stopping at the end.
pub fn move_right(input: &str, cursor: &mut usize)
    ensures
        *final(cursor) == if *old(cursor) < input@.len() {
            (*old(cursor) + 1) as usize
        } else {
            *old(cursor)
        },
{
    let len = input.unicode_len();
    if *cursor < len {
        *cursor = *cursor + 1;
    }
}

/// Typing a character and deleting it with Backspace leaves the text as it
/// was, with the cursor clamped onto it.
pub proof fn lemma_insert_then_remove_before(s: Seq<char>, cursor: usize, c: char)
    requires
        s.len() < usize::MAX,
    ensures
        removed_before(inserted(s, cursor, c).0, inserted(s, cursor, c).1 as usize) == (
            s,
            clamped(cursor, s.len()) as int,
        ),
{
    let k = clamped(cursor, s.len()) as int;
    let ins = inserted(s, cursor, c).0;
    assert(ins.subrange(0, k) + ins.subrange(k + 1, ins.len() as int) =~= s);
}

/// Deleting before a cursor at or beyond the end of a non-empty line
/// removes its last character only, and leaves the cursor at the new end.
pub proof fn lemma_remove_before_stale_cursor(s: Seq<char>, cursor: usize)
    requires
        s.len() > 0,
        cursor >= s.len(),
    ensures
        removed_before(s, cursor) == (s.drop_last(), s.len() - 1),
{
    assert(s.subrange(0, s.len() - 1) + s.subrange(s.len() as int, s.len() as int) =~= s.drop_last());
}

/// Deletes everything before the cursor (readline `unix-line-discard`).
pub fn kill_before_cursor(input: &mut String, cursor: &mut usize)
    ensures
        ({
            let k = clamped(*old(cursor), old(input)@.len()) as int;
            &&& final(input)@ == old(input)@.subrange(k, old(input)@.len() as int)
            &&& *final(cursor) == 0
        }),
{
    clamp_cursor(input.as_str(), cursor);
    if *cursor == 0 {
        assert(old(input)@.subrange(0, old(input)@.len() as int) =~= old(input)@);
        return;
    }
    let v = chars_of(input.as_str());
    let rest = crate::text::substring(&v, *cursor, v.len());
    *input = rest;
    *cursor = 0;
}

/// Deletes from the cursor to the end of the line (readline `kill-line`).
pub fn kill_after_cursor(input: &mut String, cursor: &mut usize)
    ensures
        ({
            let k = clamped(*old(cursor), old(input)@.len()) as int;
            &&& final(input)@ == old(input)@.subrange(0, k)
            &&& *final(cursor) == k
        }),
{
    clamp_cursor(input.as_str(), cursor);
    let v = chars_of(input.as_str());
    let head = crate::text::substring(&v, 0, *cursor);
    *input = head;
}

/// Index reached from `i` going back over whitespace.
pub open spec fn back_over_whitespace(s: Seq<char>, i: int) -> int
    decreases i,
{
    if i > 0 && i <= s.len() && white_space(s[i - 1]) {
        back_over_whitespace(s, i - 1)
    } else {
        i
    }
}

/// Index reached from `i` going back over non-whitespace.
pub open spec fn back_over_word(s: Seq<char>, i: int) -> int
    decreases i,
{
    if i > 0 && i <= s.len() && !white_space(s[i - 1]) {
        back_over_word(s, i - 1)
    } else {
        i
    }
}

/// Where `unix-word-rubout` starts deleting for a cursor at `k`: back over
/// whitespace, then back over the word before it.
pub open spec fn word_rubout_start(s: Seq<char>, k: int) -> int {
    back_over_word(s, back_over_whitespace(s, k))
}

proof fn lemma_back_bounds(s: Seq<char>, i: int)
    requires
        0 <= i <= s.len(),
    ensures
        0 <= back_over_whitespace(s, i) <= i,
        0 <= back_over_word(s, i) <= i,
    decreases i,
{
    if i > 0 {
        lemma_back_bounds(s, i - 1);
    }
}

/// Deletes the whitespace-separated word before the cursor, plus any
/// whitespace between it and the cursor (readline `unix-word-rubout`).
pub fn kill_word_before_cursor(input: &mut String, cursor: &mut usize)
    ensures
        ({
            let k = clamped(*old(cursor), old(input)@.len()) as int;
            let start = word_rubout_start(old(input)@, k);
            &&& final(input)@ == old(input)@.subrange(0, start) + old(input)@.subrange(
                k,
                old(input)@.len() as int,
            )
            &&& *final(cursor) == start
        }),
{
    clamp_cursor(input.as_str(), cursor);
    let ghost s = old(input)@;
    if *cursor == 0 {
        assert(s.subrange(0, 0) + s.subrange(0, s.len() as int) =~= s);
        return;
    }
    let chars = chars_of(input.as_str());
    let k = *cursor;
    let mut start = k;
    while start > 0 && char_is_whitespace(chars[start - 1])
        invariant
            chars@ == s,
            k <= s.len(),
            start <= k,
            back_over_whitespace(s, k as int) == back_over_whitespace(s, start as int),
        decreases start,
    {
        start = start - 1;
    }
    let ghost mid = start as int;
    assert(back_over_whitespace(s, k as int) == mid);
    while start > 0 && !char_is_whitespace(chars[start - 1])
        invariant
            chars@ == s,
            start <= mid <= k <= s.len(),
            back_over_word(s, mid) == back_over_word(s, start as int),
        decreases start,
    {
        start = start - 1;
    }
    let mut out = crate::text::substring(&chars, 0, start);
    let tail = crate::text::substring(&chars, k, chars.len());
    crate::text::push_str(&mut out, tail.as_str());
    *input = out;
    *cursor = start;
}

/// Applies a terminal kill shortcut given by its letter (`u`, `w` or `k`,
/// pressed with Control) to a text input. Returns whether the key was one
/// of them and was consumed; other keys leave the input untouched.
pub fn apply(code: char, input: &mut String, cursor: &mut usize) -> (r: bool)
    ensures
        r == (code == 'u' || code == 'w' || code == 'k'),
        ({
            let k = clamped(*old(cursor), old(input)@.len()) as int;
            let s = old(input)@;
            if code == 'u' {
                final(input)@ == s.subrange(k, s.len() as int) && *final(cursor) == 0
            } else if code == 'w' {
                final(input)@ == s.subrange(0, word_rubout_start(s, k)) + s.subrange(
                    k,
                    s.len() as int,
                ) && *final(cursor) == word_rubout_start(s, k)
            } else if code == 'k' {
                final(input)@ == s.subrange(0, k) && *final(cursor) == k
            } else {
                final(input)@ == s && *final(cursor) == *old(cursor)
            }
        }),
{
    if code == 'u' {
        kill_before_cursor(input, cursor);
    } else if code == 'w' {
        kill_word_before_cursor(input, cursor);
    } else if code == 'k' {
        kill_after_cursor(input, cursor);
    } else {
        return false;
    }
    true
}

/// A key on the practice screen's answer input.
#[derive(Debug, Clone, Copy, PartialEq, Eq)]
pub enum EditKey {
    Char(char),
    Backspace,
    Delete,
    Left,
    Right,
    Home,
    End,
    Enter,
    Esc,
    Other,
}

/// What a key on the answer input leads to.
#[derive(Debug, Clone, Copy, PartialEq, Eq, Structural)]
pub enum EditOutcome {
    /// The input was edited, or the cursor moved, or nothing happened.
    Edited,
    /// Enter: the answer is submitted.
    Submit,
    /// Esc: the session is left.
    Leave,
}

/// The text and cursor after `key` on text `s` with the cursor at `k`
/// (already clamped onto the text): a character is inserted at the cursor;
/// Backspace and Delete remove the character before or at it; the arrows,
/// Home and End move it; other keys change nothing.
pub open spec fn edit_spec(s: Seq<char>, k: int, key: EditKey) -> (Seq<char>, int) {
    match key {
        EditKey::Char(c) => (s.subrange(0, k) + seq![c] + s.subrange(k, s.len() as int), k + 1),
        EditKey::Backspace => if k == 0 {
            (s, 0)
        } else {
            (s.subrange(0, k - 1) + s.subrange(k, s.len() as int), k - 1)
        },
        EditKey::Delete => if k >= s.len() {
            (s, k)
        } else {
            (s.subrange(0, k) + s.subrange(k + 1, s.len() as int), k)
        },
        EditKey::Left => (s, if k > 0 { k - 1 } else { 0 }),
        EditKey::Right => (s, if k < s.len() { k + 1 } else { k }),
        EditKey::Home => (s, 0),
        EditKey::End => (s, s.len() as int),
        _ => (s, k),
    }
}

/// Applies a key of the practice screen to the answer input, after moving
/// a stale cursor back onto the text.
pub fn practice_key(input: &mut String, cursor: &mut usize, key: EditKey) -> (r: EditOutcome)
    requires
        old(input)@.len() < usize::MAX,
    ensures
        r == match key {
            EditKey::Enter => EditOutcome::Submit,
            EditKey::Esc => EditOutcome::Leave,
            _ => EditOutcome::Edited,
        },
        (final(input)@, *final(cursor) as int) == edit_spec(
            old(input)@,
            clamped(*old(cursor), old(input)@.len()) as int,
            key,
        ),
{
    clamp_cursor(input.as_str(), cursor);
    match key {
        EditKey::Char(c) => {
            insert_char(input, cursor, c);
            EditOutcome::Edited
        },
        EditKey::Backspace => {
            remove_before(input, cursor);
            EditOutcome::Edited
        },
        EditKey::Delete => {
            remove_at(input, cursor);
            EditOutcome::Edited
        },
        EditKey::Left => {
            move_left(input.as_str(), cursor);
            EditOutcome::Edited
        },
        EditKey::Right => {
            move_right(input.as_str(), cursor);
            EditOutcome::Edited
        },
        EditKey::Home => {
            *cursor = 0;
            EditOutcome::Edited
        },
        EditKey::End => {
            *cursor = input.unicode_len();
            EditOutcome::Edited
        },
        EditKey::Enter => EditOutcome::Submit,
        EditKey::Esc => EditOutcome::Leave,
        EditKey::Other => EditOutcome::Edited,
    }
}

} // verus!
