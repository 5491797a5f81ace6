//! Conversions from JSON wire names to Python field and class names.

use vstd::prelude::*;

verus! {

/// Whether std classifies the character as uppercase (`char::is_uppercase`).
pub uninterp spec fn is_upper_char(c: char) -> bool;

/// The first character of std's lowercase mapping of `c` (`char::to_lowercase`).
pub uninterp spec fn lower_char(c: char) -> char;

/// std's uppercase mapping of `c` (`char::to_uppercase`), one or more characters.
pub uninterp spec fn upper_chars(c: char) -> Seq<char>;

/// Relies on `char::is_uppercase`: the answer depends on the character alone.
#[verifier::external_body]
fn char_is_uppercase(c: char) -> (r: bool)
    ensures
        r == is_upper_char(c),
{
    c.is_uppercase()
}

/// Relies on `char::to_lowercase`, whose iterator yields one or more characters;
/// the first of them is returned.
#[verifier::external_body]
fn char_to_lowercase(c: char) -> (r: char)
    ensures
        r == lower_char(c),
{
    c.to_lowercase().next().unwrap()
}

/// Relies on `char::to_uppercase`, collected into a string: the result depends on
/// the character alone.
#[verifier::external_body]
fn char_to_uppercase(c: char) -> (r: String)
    ensures
        r@ == upper_chars(c),
{
    c.to_uppercase().collect::<String>()
}

/// Relies on `String::push`, which appends one character at the end.
#[verifier::external_body]
pub(crate) fn push_char(s: &mut String, c: char)
    ensures
        final(s)@ == old(s)@.push(c),
{
    s.push(c)
}

/// What the character at position `i` of a wire name becomes in snake case.
pub open spec fn snake_piece(c: char, i: int) -> Seq<char> {
    if is_upper_char(c) {
        if i > 0 {
            seq!['_', lower_char(c)]
        } else {
            seq![lower_char(c)]
        }
    } else {
        seq![c]
    }
}

/// The snake-case form of a wire name: every uppercase character is lowered,
/// and one that does not open the name gets an underscore before it.
pub open spec fn snake_of(s: Seq<char>) -> Seq<char>
    decreases s.len(),
{
    if s.len() == 0 {
        Seq::empty()
    } else {
        snake_of(s.drop_last()) + snake_piece(s.last(), s.len() - 1)
    }
}

/// A wire name with its first character in uppercase and the rest unchanged.
pub open spec fn capitalized(s: Seq<char>) -> Seq<char> {
    if s.len() == 0 {
        Seq::empty()
    } else {
        upper_chars(s[0]) + s.drop_first()
    }
}

/// Snake case is idempotent: a name without uppercase characters is its own
/// snake-case form.
pub proof fn lemma_snake_of_lowercase(s: Seq<char>)
    requires
        forall|i: int| 0 <= i < s.len() ==> !is_upper_char(#[trigger] s[i]),
    ensures
        snake_of(s) == s,
    decreases s.len(),
{
    if s.len() > 0 {
        lemma_snake_of_lowercase(s.drop_last());
        assert(!is_upper_char(s[s.len() - 1]));
        assert(snake_of(s.drop_last()) + seq![s.last()] =~= s);
    }
}

/// Converts a camelCase or PascalCase name into snake_case.
pub fn camel_to_snake_case(s: &str) -> (r: String)
    ensures
        r@ == snake_of(s@),
{
    let mut out = String::new();
    let n = s.unicode_len();
    let mut i: usize = 0;
    while i < n
        invariant
            n == s@.len(),
            i <= n,
            out@ == snake_of(s@.subrange(0, i as int)),
        decreases n - i,
    {
        let ch = s.get_char(i);
        if char_is_uppercase(ch) {
            if i > 0 {
                push_char(&mut out, '_');
            }
            push_char(&mut out, char_to_lowercase(ch));
        } else {
            push_char(&mut out, ch);
        }
        proof {
            let pre = s@.subrange(0, i + 1);
            assert(pre.drop_last() =~= s@.subrange(0, i as int));
        }
        i = i + 1;
    }
    assert(s@.subrange(0, n as int) =~= s@);
    out
}

/// Turns a wire name into a class name by uppercasing its first character.
pub fn capitalize_first_letter(s: &str) -> (r: String)
    ensures
        r@ == capitalized(s@),
{
    let n = s.unicode_len();
    if n == 0 {
        String::new()
    } else {
        let first = char_to_uppercase(s.get_char(0));
        let rest = s.substring_char(1, n);
        assert(rest@ =~= s@.drop_first());
        first.concat(rest)
    }
}

} // verus!
