//! The code table: one Morse symbol for each lowercase letter and each digit,
//! and the word separator `/` for the space between words.

use vstd::prelude::*;

verus! {

/// The Morse symbol of a character, where the table has one.
pub open spec fn code_for(c: char) -> Option<Seq<char>> {
    match c {
        'a' => Some(".-"@),
        'b' => Some("-..."@),
        'c' => Some("-.-."@),
        'd' => Some("-.."@),
        'e' => Some("."@),
        'f' => Some("..-."@),
        'g' => Some("--."@),
        'h' => Some("...."@),
        'i' => Some(".."@),
        'j' => Some(".---"@),
        'k' => Some("-.-"@),
        'l' => Some(".-.."@),
        'm' => Some("--"@),
        'n' => Some("-."@),
        'o' => Some("---"@),
        'p' => Some(".--."@),
        'q' => Some("--.-"@),
        'r' => Some(".-."@),
        's' => Some("..."@),
        't' => Some("-"@),
        'u' => Some("..-"@),
        'v' => Some("...-"@),
        'w' => Some(".--"@),
        'x' => Some("-..-"@),
        'y' => Some("-.--"@),
        'z' => Some("--.."@),
        '1' => Some(".----"@),
        '2' => Some("..---"@),
        '3' => Some("...--"@),
        '4' => Some("....-"@),
        '5' => Some("....."@),
        '6' => Some("-...."@),
        '7' => Some("--..."@),
        '8' => Some("---.."@),
        '9' => Some("----."@),
        '0' => Some("-----"@),
        _ => None,
    }
}

/// Whether the table has a symbol for `c`.
pub open spec fn is_coded(c: char) -> bool {
    code_for(c) is Some
}

/// Whether `sym` is a non-empty run of at most five dots and dashes.
pub open spec fn is_symbol(sym: Seq<char>) -> bool {
    &&& 1 <= sym.len() <= 5
    &&& forall|i: int| 0 <= i < sym.len() ==> sym[i] == '.' || sym[i] == '-'
}

/// The character that a group of Morse text stands for: a space for the word
/// separator, the one character whose symbol the group is, or nothing.
pub open spec fn letter_for(sym: Seq<char>) -> Option<char> {
    if sym == "/"@ {
        Some(' ')
    } else if exists|c: char| code_for(c) == Some(sym) {
        Some(choose|c: char| code_for(c) == Some(sym))
    } else {
        None
    }
}

/// The mark at place `i` of a group: 1 for a dot or any other character, 2 for
/// a dash, 0 past the end.
spec fn mark(sym: Seq<char>, i: int) -> int {
    if i < sym.len() {
        if sym[i] == '-' {
            2
        } else {
            1
        }
    } else {
        0
    }
}

/// A number that tells the symbols of the table apart: its first five marks
/// read as digits in base three.
spec fn fingerprint(sym: Seq<char>) -> int {
    mark(sym, 0) + 3 * mark(sym, 1) + 9 * mark(sym, 2) + 27 * mark(sym, 3) + 81 * mark(sym, 4)
}

/// The `k`-th character of the table: the letters first, then the digits.
pub open spec fn letter_at(k: int) -> char {
    if k < 26 {
        (97 + k) as char
    } else {
        (22 + k) as char
    }
}

/// Every symbol of the table is a run of one to five dots and dashes, no two
/// characters share a symbol, and the word separator is a single slash.
pub proof fn lemma_code_table()
    ensures
        forall|c: char| is_coded(c) ==> is_symbol(#[trigger] code_for(c)->0),
        forall|c: char, d: char|
            is_coded(c) && #[trigger] code_for(c) == #[trigger] code_for(d) ==> c == d,
        forall|c: char| is_coded(c) <==> exists|k: int| 0 <= k < 36 && c == #[trigger] letter_at(k),
        "/"@ == seq!['/'],
{
    reveal_strlit(".-");
    reveal_strlit("-...");
    reveal_strlit("-.-.");
    reveal_strlit("-..");
    reveal_strlit(".");
    reveal_strlit("..-.");
    reveal_strlit("--.");
    reveal_strlit("....");
    reveal_strlit("..");
    reveal_strlit(".---");
    reveal_strlit("-.-");
    reveal_strlit(".-..");
    reveal_strlit("--");
    reveal_strlit("-.");
    reveal_strlit("---");
    reveal_strlit(".--.");
    reveal_strlit("--.-");
    reveal_strlit(".-.");
    reveal_strlit("...");
    reveal_strlit("-");
    reveal_strlit("..-");
    reveal_strlit("...-");
    reveal_strlit(".--");
    reveal_strlit("-..-");
    reveal_strlit("-.--");
    reveal_strlit("--..");
    reveal_strlit(".----");
    reveal_strlit("..---");
    reveal_strlit("...--");
    reveal_strlit("....-");
    reveal_strlit(".....");
    reveal_strlit("-....");
    reveal_strlit("--...");
    reveal_strlit("---..");
    reveal_strlit("----.");
    reveal_strlit("-----");
    assert(fingerprint(".-"@) == 7);
    assert(fingerprint("-..."@) == 41);
    assert(fingerprint("-.-."@) == 50);
    assert(fingerprint("-.."@) == 14);
    assert(fingerprint("."@) == 1);
    assert(fingerprint("..-."@) == 49);
    assert(fingerprint("--."@) == 17);
    assert(fingerprint("...."@) == 40);
    assert(fingerprint(".."@) == 4);
    assert(fingerprint(".---"@) == 79);
    assert(fingerprint("-.-"@) == 23);
    assert(fingerprint(".-.."@) == 43);
    assert(fingerprint("--"@) == 8);
    assert(fingerprint("-."@) == 5);
    assert(fingerprint("---"@) == 26);
    assert(fingerprint(".--."@) == 52);
    assert(fingerprint("--.-"@) == 71);
    assert(fingerprint(".-."@) == 16);
    assert(fingerprint("..."@) == 13);
    assert(fingerprint("-"@) == 2);
    assert(fingerprint("..-"@) == 22);
    assert(fingerprint("...-"@) == 67);
    assert(fingerprint(".--"@) == 25);
    assert(fingerprint("-..-"@) == 68);
    assert(fingerprint("-.--"@) == 77);
    assert(fingerprint("--.."@) == 44);
    assert(fingerprint(".----"@) == 241);
    assert(fingerprint("..---"@) == 238);
    assert(fingerprint("...--"@) == 229);
    assert(fingerprint("....-"@) == 202);
    assert(fingerprint("....."@) == 121);
    assert(fingerprint("-...."@) == 122);
    assert(fingerprint("--..."@) == 125);
    assert(fingerprint("---.."@) == 134);
    assert(fingerprint("----."@) == 161);
    assert(fingerprint("-----"@) == 242);
    reveal_strlit("/");
    assert("/"@ =~= seq!['/']);
    assert forall|c: char| is_coded(c) implies exists|k: int|
        0 <= k < 36 && c == #[trigger] letter_at(k) by {
        let k = if c as int >= 97 { c as int - 97 } else { c as int - 22 };
        assert(c == letter_at(k));
    }
}

/// The table read backwards: the symbol of a character stands for that
/// character alone.
pub proof fn lemma_letter_of_code(c: char)
    requires
        is_coded(c),
    ensures
        letter_for(code_for(c)->0) == Some(c),
{
    lemma_code_table();
    let sym = code_for(c)->0;
    assert(sym[0] != '/');
    assert(code_for(c) == Some(sym));
}

/// Looks a character up in the table.
pub fn code_of(c: char) -> (r: Option<&'static str>)
    ensures
        match r {
            Some(s) => code_for(c) == Some(s@),
            None => code_for(c) is None,
        },
{
    match c {
        'a' => Some(".-"),
        'b' => Some("-..."),
        'c' => Some("-.-."),
        'd' => Some("-.."),
        'e' => Some("."),
        'f' => Some("..-."),
        'g' => Some("--."),
        'h' => Some("...."),
        'i' => Some(".."),
        'j' => Some(".---"),
        'k' => Some("-.-"),
        'l' => Some(".-.."),
        'm' => Some("--"),
        'n' => Some("-."),
        'o' => Some("---"),
        'p' => Some(".--."),
        'q' => Some("--.-"),
        'r' => Some(".-."),
        's' => Some("..."),
        't' => Some("-"),
        'u' => Some("..-"),
        'v' => Some("...-"),
        'w' => Some(".--"),
        'x' => Some("-..-"),
        'y' => Some("-.--"),
        'z' => Some("--.."),
        '1' => Some(".----"),
        '2' => Some("..---"),
        '3' => Some("...--"),
        '4' => Some("....-"),
        '5' => Some("....."),
        '6' => Some("-...."),
        '7' => Some("--..."),
        '8' => Some("---.."),
        '9' => Some("----."),
        '0' => Some("-----"),
        _ => None,
    }
}

/// Whether `sym` holds exactly the characters of `code`.
fn same_chars(sym: &Vec<char>, code: &str) -> (r: bool)
    ensures
        r == (sym@ == code@),
{
    let n: usize = code.unicode_len();
    if sym.len() != n {
        return false;
    }
    let mut i: usize = 0;
    while i < n
        invariant
            n == code@.len(),
            n == sym@.len(),
            i <= n,
            forall|j: int| 0 <= j < i ==> sym@[j] == code@[j],
        decreases n - i,
    {
        if sym[i] != code.get_char(i) {
            return false;
        }
        i += 1;
    }
    assert(sym@ =~= code@);
    true
}

/// The `k`-th character of the table.
fn nth_letter(k: u8) -> (c: char)
    requires
        k < 36,
    ensures
        c == letter_at(k as int),
{
    if k < 26 {
        (97 + k) as char
    } else {
        (22 + k) as char
    }
}

/// Looks a group of Morse text up in the table read backwards.
pub fn letter_of(sym: &Vec<char>) -> (r: Option<char>)
    ensures
        r == letter_for(sym@),
{
    proof {
        lemma_code_table();
    }
    if same_chars(sym, "/") {
        return Some(' ');
    }
    let mut k: u8 = 0;
    while k < 36
        invariant
            k <= 36,
            sym@ != "/"@,
            forall|j: int| 0 <= j < k ==> code_for(#[trigger] letter_at(j)) != Some(sym@),
        decreases 36 - k,
    {
        let c: char = nth_letter(k);
        if let Some(code) = code_of(c) {
            if same_chars(sym, code) {
                proof {
                    lemma_code_table();
                    let d = choose|d: char| code_for(d) == Some(sym@);
                    assert(code_for(c) == code_for(d));
                }
                return Some(c);
            }
        }
        k += 1;
    }
    proof {
        assert forall|c: char| code_for(c) != Some(sym@) by {
            if code_for(c) == Some(sym@) {
                assert(is_coded(c));
                let j = choose|j: int| 0 <= j < 36 && c == #[trigger] letter_at(j);
                assert(code_for(letter_at(j)) != Some(sym@));
            }
        }
    }
    None
}

} // verus!
