//! What holds of text and of text boxes.

use vstd::prelude::*;

#[allow(unused_imports)]
use crate::app::{App, AppView};
#[allow(unused_imports)]
use crate::body::ascii_punctuation;
#[allow(unused_imports)]
use crate::input::InputView;
#[allow(unused_imports)]
use crate::text::{
    alphanumeric, between_bytes, byte_len, char_boundary, chars_before, from_byte, is_prefix,
    lemma_byte_len_push, lemma_starts_at_unique, lowercase, starts_at, trimmed, trimmed_end,
    trimmed_start, unicode_alphanumeric, unicode_lowercase, white_space,
};

verus! {

/// A text starts with another just where something makes it out of the other.
pub proof fn prefixes_are_gone_on_with(p: Seq<char>, s: Seq<char>)
    ensures
        is_prefix(p, s) <==> exists|t: Seq<char>| s == #[trigger] (p + t),
{
    if is_prefix(p, s) {
        assert(s =~= p + s.skip(p.len() as int));
    }
    if exists|t: Seq<char>| s == #[trigger] (p + t) {
        let t = choose|t: Seq<char>| s == #[trigger] (p + t);
        assert(s.take(p.len() as int) =~= p);
    }
}

/// A character has one byte in ASCII, two up to U+07FF, three up to U+FFFF and four beyond, and the
/// bytes of a text are those of its characters.
pub proof fn bytes_are_those_of_characters(s: Seq<char>, c: char)
    ensures
        byte_len(Seq::<char>::empty()) == 0,
        byte_len(s.push(c)) - byte_len(s) == (if c <= '\u{7f}' {
            1int
        } else if c <= '\u{7ff}' {
            2
        } else if c <= '\u{ffff}' {
            3
        } else {
            4
        }),
{
    lemma_byte_len_push(s, c);
}

/// A text is cut at a byte between its characters, and nowhere else.
pub proof fn cuts_are_between_characters(s: Seq<char>, k: int, n: int)
    requires
        0 <= k <= s.len(),
        byte_len(s.take(k)) == n,
    ensures
        char_boundary(s, n),
        chars_before(s, n) == k,
        from_byte(s, n) == s.skip(k),
        forall|j: int| k <= j <= s.len() ==> between_bytes(s, n, byte_len(#[trigger] s.take(j)) as int)
            == s.subrange(k, j),
{
    assert(starts_at(s, k, n));
    lemma_starts_at_unique(s, k, n);
    assert forall|j: int| k <= j <= s.len() implies between_bytes(
        s,
        n,
        byte_len(#[trigger] s.take(j)) as int,
    ) == s.subrange(k, j) by {
        assert(starts_at(s, j, byte_len(s.take(j)) as int));
        lemma_starts_at_unique(s, j, byte_len(s.take(j)) as int);
    }
}

/// Where no characters end before it, a byte is no place to cut a text.
pub proof fn no_cuts_inside_characters(s: Seq<char>, n: int)
    ensures
        char_boundary(s, n) <==> exists|k: int|
            0 <= k <= s.len() && byte_len(#[trigger] s.take(k)) == n,
{
    if char_boundary(s, n) {
        let k = choose|k: int| #[trigger] starts_at(s, k, n);
        assert(byte_len(s.take(k)) == n);
    }
    if exists|k: int| 0 <= k <= s.len() && byte_len(#[trigger] s.take(k)) == n {
        let k = choose|k: int| 0 <= k <= s.len() && byte_len(#[trigger] s.take(k)) == n;
        assert(starts_at(s, k, n));
    }
}

/// In ASCII, the white space is the five characters from the tab on and the space, and the
/// punctuation is all that is printed but letters and digits.
pub proof fn ascii_characters_are_told_apart(c: char)
    requires
        c <= '\u{7f}',
    ensures
        white_space(c) <==> 9 <= c as u32 <= 13 || c as u32 == 32,
        alphanumeric(c) <==> 48 <= c as u32 <= 57 || 65 <= c as u32 <= 90 || 97 <= c as u32 <= 122,
        ascii_punctuation(c) <==> 33 <= c as u32 <= 126 && !alphanumeric(c),
{
}

/// Between ASCII and U+00FF, the letters and numbers are two ordinals, three superscripts, the micro
/// sign, three fractions and the accented letters. White space is the next line and the space that
/// does not break. Further on it is the spaces of Unicode.
pub proof fn latin_characters_are_told_apart(c: char)
    requires
        c > '\u{7f}',
    ensures
        c as u32 <= 255 ==> (alphanumeric(c) <==> c as u32 == 170 || c as u32 == 178 || c as u32
            == 179 || c as u32 == 181 || c as u32 == 185 || c as u32 == 186 || 188 <= c as u32 <= 190
            || (192 <= c as u32 && c as u32 != 215 && c as u32 != 247)),
        white_space(c) <==> c as u32 == 133 || c as u32 == 160 || c as u32 == 5760 || 8192 <= c as u32
            <= 8202 || c as u32 == 8232 || c as u32 == 8233 || c as u32 == 8239 || c as u32 == 8287
            || c as u32 == 12288,
{
}

/// A text in lower case, in ASCII, is as long, and only its capital letters are others.
pub proof fn ascii_lower_case(s: Seq<char>)
    requires
        forall|i: int| 0 <= i < s.len() ==> #[trigger] s[i] <= '\u{7f}',
    ensures
        lowercase(s).len() == s.len(),
        forall|i: int|
            #![trigger s[i]]
            #![trigger lowercase(s)[i]]
            0 <= i < s.len() ==> lowercase(s)[i] as u32 == (if 65 <= s[i] as u32 <= 90 {
                s[i] as u32 + 32
            } else {
                s[i] as int
            }),
{
}

/// Beyond ASCII, letters have the lower case that the standard library gives them, and beyond U+00FF it
/// tells what is a letter or a number.
pub proof fn standard_library_tells_the_rest(s: Seq<char>, c: char)
    ensures
        (exists|i: int| 0 <= i < s.len() && #[trigger] s[i] > '\u{7f}') ==> lowercase(s)
            == unicode_lowercase(s),
        c > '\u{ff}' ==> alphanumeric(c) == unicode_alphanumeric(c),
{
}

/// What is cut off the end of a text is white space, and none is left there.
pub proof fn trimming_the_end(s: Seq<char>)
    ensures
        ({
            let n = trimmed_end(s).len() as int;
            &&& n <= s.len()
            &&& trimmed_end(s) == s.take(n)
            &&& forall|i: int| n <= i < s.len() ==> white_space(#[trigger] s[i])
            &&& n > 0 ==> !white_space(s[n - 1])
        }),
    decreases s.len(),
{
    if s.len() > 0 && white_space(s.last()) {
        trimming_the_end(s.drop_last());
        let n = trimmed_end(s).len() as int;
        assert(s.drop_last().take(n) =~= s.take(n));
        assert forall|i: int| n <= i < s.len() implies white_space(#[trigger] s[i]) by {
            if i < s.len() - 1 {
                assert(s.drop_last()[i] == s[i]);
            }
        }
    } else {
        assert(s.take(s.len() as int) =~= s);
    }
}

proof fn lemma_trimming_the_start(s: Seq<char>)
    ensures
        ({
            let n = (s.len() - trimmed_start(s).len()) as int;
            &&& 0 <= n <= s.len()
            &&& trimmed_start(s) == s.skip(n)
            &&& forall|i: int| 0 <= i < n ==> white_space(#[trigger] s[i])
            &&& n < s.len() ==> !white_space(s[n])
        }),
    decreases s.len(),
{
    if s.len() > 0 && white_space(s[0]) {
        let t = s.drop_first();
        lemma_trimming_the_start(t);
        let n = (s.len() - trimmed_start(s).len()) as int;
        assert(t.skip(n - 1) =~= s.skip(n));
        assert forall|i: int| 0 <= i < n implies white_space(#[trigger] s[i]) by {
            if i > 0 {
                assert(t[i - 1] == s[i]);
            }
        }
    } else {
        assert(s.skip(0) =~= s);
    }
}

/// What is cut off the ends of a text is white space, and none is left there.
pub proof fn trimming_both_ends(s: Seq<char>)
    ensures
        exists|i: int, j: int|
            0 <= i <= j <= s.len() && trimmed(s) == #[trigger] s.subrange(i, j) && (forall|k: int|
                (0 <= k < i || j <= k < s.len()) ==> white_space(#[trigger] s[k])) && (i < j
                ==> !white_space(s[i]) && !white_space(s[j - 1])),
{
    let t = trimmed_end(s);
    trimming_the_end(s);
    lemma_trimming_the_start(t);
    let j = t.len() as int;
    let i = (t.len() - trimmed_start(t).len()) as int;
    assert(t.skip(i) =~= s.subrange(i, j));
    assert forall|k: int| (0 <= k < i || j <= k < s.len()) implies white_space(#[trigger] s[k]) by {
        if k < i {
            assert(t[k] == s[k]);
        }
    }
    assert(trimmed(s) == s.subrange(i, j));
}

/// What is typed stands before the cursor, and the rest of the text stays around it.
pub proof fn typing(input: InputView, c: char)
    requires
        input.cursor <= input.data.len(),
    ensures
        input.typed(c).data == input.data.take(input.cursor as int) + seq![c] + input.data.skip(
            input.cursor as int,
        ),
        input.typed(c).cursor == input.cursor + 1,
{
    assert(input.typed(c).data =~= input.data.take(input.cursor as int) + seq![c]
        + input.data.skip(input.cursor as int));
}

/// Deleting takes the character before the cursor away and nothing else, and nothing at the start.
pub proof fn deleting(input: InputView)
    requires
        input.cursor <= input.data.len(),
    ensures
        input.cursor == 0 ==> input.erased() == input,
        input.cursor > 0 ==> input.erased().data == input.data.remove(input.cursor - 1)
            && input.erased().cursor == input.cursor - 1,
{
    if input.cursor > 0 {
        assert(input.erased().data =~= input.data.remove(input.cursor - 1));
    }
}

/// The cursor moves right over as many characters as it is told, but not beyond the end. The text
/// stays.
pub proof fn moving_right(input: InputView, steps: nat)
    ensures
        input.moved_right(steps).data == input.data,
        input.cursor + steps <= input.data.len() ==> input.moved_right(steps).cursor == input.cursor
            + steps,
        input.cursor + steps > input.data.len() ==> input.moved_right(steps).cursor
            == input.data.len(),
{
}

/// What is put in at the cursor stands before it, or behind it where the cursor stays, and the rest of
/// the text stays around it.
pub proof fn putting_in(input: InputView, text: Seq<char>)
    requires
        input.cursor <= input.data.len(),
    ensures
        input.inserted(text).data == input.data.take(input.cursor as int) + text + input.data.skip(
            input.cursor as int,
        ),
        input.inserted(text).cursor == input.cursor,
        input.completed(text).data == input.data.take(input.cursor as int) + text
            + input.data.skip(input.cursor as int),
        input.completed(text).cursor == input.cursor + text.len(),
{
}

/// What replaces the text from character `start` up to the cursor stands before the cursor, and the
/// rest of the text stays around it.
pub proof fn replacing(input: InputView, start: int, text: Seq<char>)
    requires
        0 <= start <= input.cursor <= input.data.len(),
    ensures
        input.replaced_from(start, text).data == input.data.take(start) + text + input.data.skip(
            input.cursor as int,
        ),
        input.replaced_from(start, text).cursor == start + text.len(),
{
}

/// The two parts of a text are what is before its cursor and what is behind it, and the bytes of the
/// first tell where the cursor stands.
pub proof fn cursor_parts_the_text(input: InputView)
    requires
        input.cursor <= input.data.len(),
    ensures
        input.before() + input.after() == input.data,
        input.before().len() == input.cursor,
        input.idx() == byte_len(input.data.take(input.cursor as int)),
        InputView::empty().data.len() == 0,
        InputView::empty().cursor == 0,
{
    assert(input.before() + input.after() =~= input.data);
}

/// What is typed goes to the box of the channel popup while that is shown, and to the message box
/// otherwise. Replacing the one leaves the other, and everything else.
pub proof fn one_box_is_active(app: AppView, input: InputView)
    ensures
        app.modal_shown ==> app.active() == app.modal_input && app.with_active(input)
            == (AppView { modal_input: input, ..app }),
        !app.modal_shown ==> app.active() == app.input && app.with_active(input) == (AppView {
            input,
            ..app
        }),
{
}

/// The view of the state shows all of it.
pub proof fn state_is_seen_whole(app: App)
    ensures
        app@.user_id == app.user_id,
        app@.input.data == app.input.data@,
        app@.input.cursor == app.input.cursor.col,
        app@.modal_shown == app.select_channel.is_shown,
        app@.modal_input.data == app.select_channel.input.data@,
        app@.modal_input.cursor == app.select_channel.input.cursor.col,
        app@.modal_channel == app.select_channel.selected_channel_id,
        app@.channels == app.channels.items@,
        app@.selected == app.channels.selected,
        app@.messages == app.messages@,
        app@.editing == app.editing,
        app@.mention_completion == app.mention_completion,
        app@.bindings == app.mode_keybindings@,
        app@.is_multiline_input == app.is_multiline_input,
        app@.is_help == app.is_help,
        app@.help_scroll == app.help_scroll,
        app@.should_quit == app.should_quit,
        app@.should_clear == app.should_clear,
        app@.open_editor_requested == app.open_editor_requested,
        app@.popup is Some <==> app.mention_popup is Some,
        app.mention_popup matches Some(popup) ==> app@.popup->0.at_byte_pos == popup.at_byte_pos
            && app@.popup->0.matches == popup.matches@ && app@.popup->0.selected == popup.selected,
        app@.cycle is Some <==> app.mention_cycle is Some,
        app.mention_cycle matches Some(cycle) ==> app@.cycle->0.at_byte_pos == cycle.at_byte_pos
            && app@.cycle->0.matches == cycle.matches@ && app@.cycle->0.index == cycle.index,
{
}

/// A state is well-formed just where its cursors stand between characters of their texts, in bytes as in
/// characters, its selections are inside their lists, the popup stands behind a character of the
/// message box before the cursor, and the cycle stands at one of its names, whose end can be counted.
pub proof fn well_formed_states_fit(app: App)
    ensures
        app.wf() <==> {
            &&& app.input.cursor.col <= app.input.data@.len()
            &&& app.input.cursor.idx == byte_len(app.input.data@.take(app.input.cursor.col as int))
            &&& app.select_channel.input.cursor.col <= app.select_channel.input.data@.len()
            &&& app.select_channel.input.cursor.idx == byte_len(
                app.select_channel.input.data@.take(app.select_channel.input.cursor.col as int),
            )
            &&& app.channels.selected matches Some(i) ==> i < app.channels.items@.len()
            &&& app.mention_popup matches Some(popup) ==> {
                &&& popup.at_byte_pos < app.input.cursor.idx
                &&& char_boundary(app.input.data@, popup.at_byte_pos + 1)
                &&& popup.selected matches Some(i) ==> i < popup.matches@.len()
            }
            &&& app.mention_cycle matches Some(cycle) ==> {
                &&& cycle.index < cycle.matches@.len()
                &&& cycle.at_byte_pos + 1 + byte_len(cycle.matches@[cycle.index as int]@)
                    <= usize::MAX
            }
        },
        app.wf_but_popup() <==> (App { mention_popup: None, ..app }).wf(),
{
}

} // verus!
