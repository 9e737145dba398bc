//! Text to Morse and Morse to text.
//!
//! Morse text is a run of groups separated by single spaces. A group is the
//! symbol of one character, or `/` between two words.

use vstd::prelude::*;
use crate::table::{code_for, code_of, is_coded, is_symbol, letter_for, letter_of};
use crate::table::{lemma_code_table, lemma_letter_of_code};
use crate::text::{ascii_lowercase, ascii_uppercase, is_ascii_text, lower_char, upper_char};
use crate::text::{chars_of, lowercase, lowercase_of};

verus! {

/// What the character at place `i` of a lowercase text contributes to its
/// Morse text: a space gives `/` where a character of the table stands on
/// each side of it and nothing elsewhere; any other character gives its symbol
/// if the table has one.
pub open spec fn token_at(text: Seq<char>, i: int) -> Option<Seq<char>> {
    if text[i] == ' ' {
        if 0 < i && i + 1 < text.len() && is_coded(text[i - 1]) && is_coded(text[i + 1]) {
            Some("/"@)
        } else {
            None
        }
    } else {
        code_for(text[i])
    }
}

/// The groups that the first `n` characters of a lowercase text contribute.
pub open spec fn tokens(text: Seq<char>, n: int) -> Seq<Seq<char>>
    decreases n,
{
    if n <= 0 {
        Seq::empty()
    } else {
        match token_at(text, n - 1) {
            Some(t) => tokens(text, n - 1).push(t),
            None => tokens(text, n - 1),
        }
    }
}

/// Groups written one after the other with a single space between neighbours.
pub open spec fn joined(groups: Seq<Seq<char>>) -> Seq<char>
    decreases groups.len(),
{
    if groups.len() == 0 {
        Seq::empty()
    } else if groups.len() == 1 {
        groups[0]
    } else {
        joined(groups.drop_last()).push(' ') + groups.last()
    }
}

/// The Morse text of a lowercase text.
pub open spec fn encoded(text: Seq<char>) -> Seq<char> {
    joined(tokens(text, text.len() as int))
}

/// The last group of a Morse text: what follows its last space.
pub open spec fn last_group(morse: Seq<char>) -> Seq<char>
    decreases morse.len(),
{
    if morse.len() == 0 || morse.last() == ' ' {
        Seq::empty()
    } else {
        last_group(morse.drop_last()).push(morse.last())
    }
}

/// What one group decodes to: its character, or nothing where the table does
/// not know the group.
pub open spec fn symbol_text(group: Seq<char>) -> Seq<char> {
    match letter_for(group) {
        Some(c) => seq![c],
        None => Seq::empty(),
    }
}

/// The text of a Morse text: what each of its groups decodes to, in order.
pub open spec fn decoded(morse: Seq<char>) -> Seq<char>
    decreases morse.len(),
{
    let g = last_group(morse);
    if g.len() >= morse.len() {
        symbol_text(g)
    } else {
        decoded(morse.take(morse.len() - g.len() - 1)) + symbol_text(g)
    }
}

/// The text of all groups of a Morse text but the last.
pub open spec fn text_before(morse: Seq<char>) -> Seq<char> {
    let g = last_group(morse);
    if g.len() >= morse.len() {
        Seq::empty()
    } else {
        decoded(morse.take(morse.len() - g.len() - 1))
    }
}

/// Whether a group holds no space.
pub open spec fn spaceless(group: Seq<char>) -> bool {
    forall|i: int| 0 <= i < group.len() ==> group[i] != ' '
}

/// Whether a text is words of letters and digits of the table with single
/// spaces between them: every character is in the table, or is a space with a
/// character of the table on each side.
pub open spec fn is_plain(text: Seq<char>) -> bool {
    forall|i: int|
        0 <= i < text.len() ==> is_coded(#[trigger] text[i]) || (text[i] == ' ' && 0 < i && i + 1
            < text.len() && is_coded(text[i - 1]) && is_coded(text[i + 1]))
}

/// Whether a group is not empty and holds no space.
pub open spec fn is_group(group: Seq<char>) -> bool {
    group.len() > 0 && spaceless(group)
}

proof fn lemma_last_group_len(morse: Seq<char>)
    ensures
        last_group(morse).len() <= morse.len(),
    decreases morse.len(),
{
    if morse.len() > 0 && morse.last() != ' ' {
        lemma_last_group_len(morse.drop_last());
    }
}

/// How the last group and the text before it change when one character is
/// appended to a Morse text.
proof fn lemma_decoded_step(morse: Seq<char>, c: char)
    ensures
        decoded(morse) == text_before(morse) + symbol_text(last_group(morse)),
        last_group(morse.push(c)) == if c == ' ' {
            Seq::<char>::empty()
        } else {
            last_group(morse).push(c)
        },
        text_before(morse.push(c)) == if c == ' ' {
            decoded(morse)
        } else {
            text_before(morse)
        },
{
    let next = morse.push(c);
    let g = last_group(morse);
    lemma_last_group_len(morse);
    assert(next.drop_last() =~= morse);
    assert(Seq::<char>::empty() + symbol_text(g) =~= symbol_text(g));
    if c == ' ' {
        assert(next.take(next.len() - 1) =~= morse);
    } else if g.len() < morse.len() {
        let k = morse.len() - g.len() - 1;
        assert(next.take(k) =~= morse.take(k));
    }
}

/// A group that follows a space, or starts the text, is the last group.
proof fn lemma_last_group_of(head: Seq<char>, group: Seq<char>)
    requires
        head.len() == 0 || head.last() == ' ',
        spaceless(group),
    ensures
        last_group(head + group) == group,
    decreases group.len(),
{
    if group.len() == 0 {
        assert(head + group =~= head);
    } else {
        lemma_last_group_of(head, group.drop_last());
        assert((head + group).drop_last() =~= head + group.drop_last());
        assert(group.drop_last().push(group.last()) =~= group);
    }
}

/// A group appended after a space adds what it decodes to.
proof fn lemma_decoded_append(morse: Seq<char>, group: Seq<char>)
    requires
        spaceless(group),
    ensures
        decoded(morse.push(' ') + group) == decoded(morse) + symbol_text(group),
        decoded(group) == symbol_text(group),
{
    let whole = morse.push(' ') + group;
    lemma_last_group_of(morse.push(' '), group);
    assert(whole.take(whole.len() - group.len() - 1) =~= morse);
    lemma_last_group_of(Seq::empty(), group);
    assert(Seq::<char>::empty() + group =~= group);
}

proof fn lemma_round_trip_prefix(text: Seq<char>, n: int)
    requires
        is_plain(text),
        0 <= n <= text.len(),
    ensures
        tokens(text, n).len() == n,
        decoded(joined(tokens(text, n))) == text.take(n),
    decreases n,
{
    lemma_code_table();
    if n == 0 {
        assert(text.take(0) =~= Seq::<char>::empty());
        assert(last_group(Seq::<char>::empty()) =~= Seq::<char>::empty());
        assert("/"@.len() == 1);
        assert forall|c: char| code_for(c) != Some(Seq::<char>::empty()) by {
            if is_coded(c) {
                assert(is_symbol(code_for(c)->0));
            }
        }
        assert(letter_for(Seq::<char>::empty()) is None);
    } else {
        lemma_round_trip_prefix(text, n - 1);
        let c = text[n - 1];
        let t = token_at(text, n - 1)->0;
        let before = tokens(text, n - 1);
        assert(is_coded(c) || c == ' ');
        assert(token_at(text, n - 1) is Some);
        assert(tokens(text, n) == before.push(t));
        assert(before.push(t).drop_last() =~= before);
        if c == ' ' {
            assert(symbol_text(t) == seq![c]);
        } else {
            lemma_letter_of_code(c);
            assert(is_coded(c));
            assert(is_symbol(code_for(c)->0));
        }
        assert(spaceless(t));
        lemma_decoded_append(joined(before), t);
        assert(text.take(n - 1) + seq![c] =~= text.take(n));
    }
}

/// Every group that a text contributes is a symbol of the table or `/`.
proof fn lemma_tokens_are_groups(text: Seq<char>, n: int)
    requires
        0 <= n <= text.len(),
    ensures
        forall|k: int| 0 <= k < tokens(text, n).len() ==> is_group(#[trigger] tokens(text, n)[k]),
    decreases n,
{
    lemma_code_table();
    if n > 0 {
        lemma_tokens_are_groups(text, n - 1);
        let c = text[n - 1];
        let before = tokens(text, n - 1);
        if c != ' ' && is_coded(c) {
            assert(is_symbol(code_for(c)->0));
        }
        assert(is_group("/"@));
        assert forall|k: int| 0 <= k < tokens(text, n).len() implies is_group(
            #[trigger] tokens(text, n)[k],
        ) by {
            if k < before.len() {
                assert(is_group(before[k]));
            }
        }
    }
}

/// Groups joined by single spaces start with the first group's first character
/// and end with the last group's last.
proof fn lemma_joined_ends(groups: Seq<Seq<char>>)
    requires
        groups.len() > 0,
        forall|k: int| 0 <= k < groups.len() ==> is_group(#[trigger] groups[k]),
    ensures
        joined(groups).len() > 0,
        joined(groups).first() == groups.first().first(),
        joined(groups).last() == groups.last().last(),
    decreases groups.len(),
{
    if groups.len() > 1 {
        let head = groups.drop_last();
        assert forall|k: int| 0 <= k < head.len() implies is_group(#[trigger] head[k]) by {
            assert(head[k] == groups[k]);
        }
        lemma_joined_ends(head);
        assert(is_group(groups[groups.len() - 1]));
        assert(is_group(groups[0]));
    } else {
        assert(is_group(groups[0]));
    }
}

/// A Morse text made by encoding neither starts nor ends with a space.
pub proof fn lemma_encoded_has_no_outer_space(text: Seq<char>)
    ensures
        encoded(text).len() > 0 ==> encoded(text).first() != ' ' && encoded(text).last() != ' ',
{
    let groups = tokens(text, text.len() as int);
    lemma_tokens_are_groups(text, text.len() as int);
    if groups.len() > 0 {
        lemma_joined_ends(groups);
        assert(is_group(groups[0]));
        assert(is_group(groups[groups.len() - 1]));
    }
}

/// Encoding a text of words of lowercase letters and digits, with single
/// spaces between the words, and decoding the result gives the text back.
/// Such a text is its own lowercase form.
pub proof fn lemma_round_trip(text: Seq<char>)
    requires
        is_plain(text),
    ensures
        is_ascii_text(text),
        ascii_lowercase(text) == text,
        decoded(encoded(text)) == text,
{
    lemma_round_trip_prefix(text, text.len() as int);
    assert(text.take(text.len() as int) =~= text);
    assert forall|i: int| 0 <= i < text.len() implies (#[trigger] text[i] as int) < 128
        && lower_char(text[i]) == text[i] by {
        assert(is_coded(text[i]) || text[i] == ' ');
    }
    assert(ascii_lowercase(text) =~= text);
}

/// The Morse text of an ASCII text does not depend on the case of its
/// letters: the text in capitals encodes as the text itself does.
pub proof fn lemma_case_insensitive(text: Seq<char>)
    requires
        is_ascii_text(text),
    ensures
        is_ascii_text(ascii_uppercase(text)),
        encoded(ascii_lowercase(ascii_uppercase(text))) == encoded(ascii_lowercase(text)),
{
    assert(ascii_lowercase(ascii_uppercase(text)) =~= ascii_lowercase(text));
}

/// The Morse text of a text that is already lowercase. A capital letter has no
/// symbol and is left out like any other character outside the table.
pub fn encode(text: &str) -> (r: String)
    ensures
        r@ == encoded(text@),
{
    let chars = chars_of(text);
    let n: usize = chars.len();
    let mut out = String::new();
    let mut started = false;
    let mut i: usize = 0;
    while i < n
        invariant
            n == chars@.len(),
            i <= n,
            out@ == joined(tokens(chars@, i as int)),
            started == (tokens(chars@, i as int).len() > 0),
        decreases n - i,
    {
        let c = chars[i];
        let token: Option<&'static str> = if c == ' ' {
            if i > 0 && i + 1 < n && code_of(chars[i - 1]).is_some() && code_of(
                chars[i + 1],
            ).is_some() {
                Some("/")
            } else {
                None
            }
        } else {
            code_of(c)
        };
        assert(match token {
            Some(t) => token_at(chars@, i as int) == Some(t@),
            None => token_at(chars@, i as int) is None,
        });
        if let Some(t) = token {
            let ghost before = tokens(chars@, i as int);
            if started {
                out.push(' ');
            }
            out.append(t);
            started = true;
            proof {
                assert(before.push(t@).drop_last() =~= before);
                assert(Seq::<char>::empty() + t@ =~= t@);
            }
        }
        i += 1;
    }
    out
}

/// The Morse text of `text`: the text is made lowercase, each letter and digit
/// becomes its symbol, a space between two characters of the table becomes
/// `/`, and every other character is left out. The groups are joined by single
/// spaces.
pub fn to_morse(text: &str) -> (r: String)
    ensures
        r@ == encoded(lowercase_of(text@)),
        is_ascii_text(text@) ==> r@ == encoded(ascii_lowercase(text@)),
{
    let lower = lowercase(text);
    encode(lower.as_str())
}

/// The text of a Morse text. Each group between spaces is looked up in the
/// table; a group that the table does not know is left out.
pub fn from_morse(morse: &str) -> (r: String)
    ensures
        r@ == decoded(morse@),
{
    let chars = chars_of(morse);
    let n: usize = chars.len();
    let mut out = String::new();
    let mut look: Vec<char> = Vec::new();
    let mut i: usize = 0;
    assert(chars@.take(0) =~= Seq::<char>::empty());
    while i < n
        invariant
            n == chars@.len(),
            i <= n,
            look@ == last_group(chars@.take(i as int)),
            out@ == text_before(chars@.take(i as int)),
        decreases n - i,
    {
        let c = chars[i];
        proof {
            lemma_decoded_step(chars@.take(i as int), c);
            assert(chars@.take(i as int).push(c) =~= chars@.take(i + 1));
        }
        if c == ' ' {
            if let Some(d) = letter_of(&look) {
                out.push(d);
            }
            look = Vec::new();
            assert(out@ =~= decoded(chars@.take(i as int)));
        } else {
            look.push(c);
        }
        i += 1;
    }
    proof {
        lemma_decoded_step(chars@.take(i as int), ' ');
        assert(chars@.take(i as int) =~= chars@);
    }
    if let Some(d) = letter_of(&look) {
        out.push(d);
    }
    assert(out@ =~= decoded(chars@));
    out
}

} // verus!
