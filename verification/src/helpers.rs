//! Text utilities shared by the generators: character access, comparison,
//! joining, decimal rendering and the naming rule for identifiers.

use vstd::prelude::*;

verus! {

/// Whether `char::is_uppercase` holds of a character: the Unicode property
/// `Uppercase`, which is a matter of tables and gets no definition here.
pub uninterp spec fn char_is_uppercase(c: char) -> bool;

/// `char::is_uppercase` of std. Nothing is claimed beyond the fact that the
/// answer depends on the character alone.
#[verifier::external_body]
pub(crate) fn is_uppercase(c: char) -> (r: bool)
    ensures
        r == char_is_uppercase(c),
{
    c.is_uppercase()
}

/// What `str::to_uppercase` makes of a text: its Unicode upper-case form,
/// which may be longer than the text and gets no definition here.
pub uninterp spec fn uppercase_text(s: Seq<char>) -> Seq<char>;

/// `str::to_uppercase` of std. Nothing is claimed beyond the fact that the
/// result depends on the characters alone.
#[verifier::external_body]
pub(crate) fn to_uppercase(s: &str) -> (r: String)
    ensures
        r@ == uppercase_text(s@),
{
    s.to_uppercase()
}

/// What `str::to_lowercase` makes of a text: its Unicode lower-case form.
pub uninterp spec fn lowercase_text(s: Seq<char>) -> Seq<char>;

/// `str::to_lowercase` of std. Nothing is claimed beyond the fact that the
/// result depends on the characters alone.
#[verifier::external_body]
pub(crate) fn to_lowercase(s: &str) -> (r: String)
    ensures
        r@ == lowercase_text(s@),
{
    s.to_lowercase()
}

/// `String::push` of std: the character is appended at the end.
#[verifier::external_body]
pub(crate) fn push_char(s: &mut String, c: char)
    ensures
        final(s)@ == old(s)@.push(c),
{
    s.push(c)
}

/// The characters of a string, in order.
pub fn chars_of(s: &str) -> (v: Vec<char>)
    ensures
        v@ == s@,
{
    let mut v: Vec<char> = Vec::new();
    for c in it: s.chars()
        invariant
            v@ == it.seq().take(it.index() as int),
            it.seq() == s@,
    {
        v.push(c);
    }
    v
}

/// The string made of the characters `chars[from..to]`.
pub(crate) fn string_of(chars: &Vec<char>, from: usize, to: usize) -> (s: String)
    requires
        from <= to <= chars.len(),
    ensures
        s@ == chars@.subrange(from as int, to as int),
{
    let mut s = String::new();
    let mut i: usize = from;
    while i < to
        invariant
            from <= i <= to <= chars.len(),
            s@ == chars@.subrange(from as int, i as int),
        decreases to - i,
    {
        push_char(&mut s, chars[i]);
        i += 1;
    }
    s
}

/// Whether `part` stands in `text` at position `at`.
pub open spec fn occurs_at(text: Seq<char>, part: Seq<char>, at: int) -> bool {
    0 <= at && at + part.len() <= text.len() && text.subrange(at, at + part.len()) == part
}

/// Whether the characters of `part` stand in `text` at position `at`.
pub fn chars_occur_at(text: &Vec<char>, part: &Vec<char>, at: usize) -> (r: bool)
    ensures
        r == occurs_at(text@, part@, at as int),
{
    if part.len() > text.len() || at > text.len() - part.len() {
        return false;
    }
    let mut i: usize = 0;
    while i < part.len()
        invariant
            i <= part.len(),
            at + part.len() <= text.len(),
            forall|j: int| 0 <= j < i ==> text@[at + j] == part@[j],
        decreases part.len() - i,
    {
        if text[at + i] != part[i] {
            assert(text@.subrange(at as int, at + part.len())[i as int] != part@[i as int]);
            return false;
        }
        i += 1;
    }
    assert(text@.subrange(at as int, at + part.len()) =~= part@);
    true
}

/// Whether two strings hold the same characters.
pub fn text_eq(a: &str, b: &str) -> (r: bool)
    ensures
        r == (a@ == b@),
{
    let x = chars_of(a);
    let y = chars_of(b);
    if x.len() != y.len() {
        return false;
    }
    let r = chars_occur_at(&x, &y, 0);
    assert(x@.subrange(0, x@.len() as int) =~= x@);
    r
}

/// Whether `text` ends with `suffix`.
pub fn ends_with(text: &str, suffix: &str) -> (r: bool)
    ensures
        r == suffix@.is_suffix_of(text@),
{
    let x = chars_of(text);
    let p = chars_of(suffix);
    if p.len() > x.len() {
        return false;
    }
    chars_occur_at(&x, &p, x.len() - p.len())
}

/// `text` without its last `n` characters.
pub(crate) fn without_last(text: &str, n: usize) -> (s: String)
    requires
        n <= text@.len(),
    ensures
        s@ == text@.subrange(0, text@.len() - n),
{
    let x = chars_of(text);
    string_of(&x, 0, x.len() - n)
}

/// The views of a sequence of strings.
pub open spec fn texts(v: Seq<String>) -> Seq<Seq<char>> {
    v.map_values(|s: String| s@)
}

/// The parts in order, with `sep` between each two neighbours.
pub open spec fn join_spec(parts: Seq<Seq<char>>, sep: Seq<char>) -> Seq<char>
    decreases parts.len(),
{
    if parts.len() == 0 {
        Seq::empty()
    } else if parts.len() == 1 {
        parts[0]
    } else {
        join_spec(parts.drop_last(), sep) + sep + parts.last()
    }
}

/// Joins the parts, with `sep` between each two neighbours.
pub fn join(parts: &Vec<String>, sep: &str) -> (s: String)
    ensures
        s@ == join_spec(texts(parts@), sep@),
{
    let mut s = String::new();
    let mut i: usize = 0;
    while i < parts.len()
        invariant
            i <= parts.len(),
            s@ == join_spec(texts(parts@).take(i as int), sep@),
        decreases parts.len() - i,
    {
        proof {
            let next = texts(parts@).take(i + 1);
            assert(next.drop_last() =~= texts(parts@).take(i as int));
            assert(next.last() == parts@[i as int]@);
        }
        if i > 0 {
            s.append(sep);
        }
        s.append(parts[i].as_str());
        i += 1;
    }
    assert(texts(parts@).take(parts.len() as int) =~= texts(parts@));
    s
}

/// The decimal digit that stands for `d`, for `d` below ten.
pub open spec fn digit_char(d: nat) -> char {
    if d == 0 {
        '0'
    } else if d == 1 {
        '1'
    } else if d == 2 {
        '2'
    } else if d == 3 {
        '3'
    } else if d == 4 {
        '4'
    } else if d == 5 {
        '5'
    } else if d == 6 {
        '6'
    } else if d == 7 {
        '7'
    } else if d == 8 {
        '8'
    } else {
        '9'
    }
}

/// The decimal numeral of `n`: no sign, no leading zero, `0` for zero.
pub open spec fn decimal_text(n: nat) -> Seq<char>
    decreases n,
{
    if n < 10 {
        seq![digit_char(n)]
    } else {
        decimal_text(n / 10).push(digit_char(n % 10))
    }
}

fn digit(d: u128) -> (c: char)
    requires
        d < 10,
    ensures
        c == digit_char(d as nat),
{
    if d == 0 {
        '0'
    } else if d == 1 {
        '1'
    } else if d == 2 {
        '2'
    } else if d == 3 {
        '3'
    } else if d == 4 {
        '4'
    } else if d == 5 {
        '5'
    } else if d == 6 {
        '6'
    } else if d == 7 {
        '7'
    } else if d == 8 {
        '8'
    } else {
        '9'
    }
}

/// The numeral of `n`, but nothing at all for zero: what stands before the
/// digits already taken off a number.
pub open spec fn leading_digits(n: nat) -> Seq<char> {
    if n == 0 {
        Seq::empty()
    } else {
        decimal_text(n)
    }
}

/// Renders a number as its decimal numeral.
pub fn decimal_string(n: u128) -> (s: String)
    ensures
        s@ == decimal_text(n as nat),
{
    let mut low: Vec<char> = Vec::new();
    low.push(digit(n % 10));
    let mut rest: u128 = n / 10;
    assert(decimal_text(n as nat) =~= leading_digits(rest as nat) + low@.reverse());
    while rest > 0
        invariant
            low.len() > 0,
            decimal_text(n as nat) == leading_digits(rest as nat) + low@.reverse(),
        decreases rest,
    {
        let ghost before = low@;
        low.push(digit(rest % 10));
        proof {
            assert(low@.reverse() =~= seq![digit_char((rest % 10) as nat)] + before.reverse());
            assert(leading_digits(rest as nat) =~= leading_digits((rest / 10) as nat).push(
                digit_char((rest % 10) as nat),
            ));
        }
        rest = rest / 10;
    }
    let mut s = String::new();
    let mut k: usize = low.len();
    while k > 0
        invariant
            k <= low.len(),
            s@ == low@.reverse().take(low.len() - k),
        decreases k,
    {
        k -= 1;
        push_char(&mut s, low[k]);
        assert(low@.reverse().take(low.len() - k) =~= low@.reverse().take(low.len() - k - 1).push(
            low@[k as int],
        ));
    }
    assert(low@.reverse().take(low.len() as int) =~= low@.reverse());
    s
}

/// An ASCII capital letter as its small one; any other character unchanged.
pub open spec fn ascii_lower(c: char) -> char {
    if 'A' <= c && c <= 'Z' {
        ((c as u8) + 32) as char
    } else {
        c
    }
}

/// Makes an ASCII capital letter small and leaves every other character.
pub fn to_ascii_lower(c: char) -> (r: char)
    ensures
        r == ascii_lower(c),
{
    if c >= 'A' && c <= 'Z' {
        ((c as u8) + 32) as char
    } else {
        c
    }
}

/// Whether a character is a capital letter. Within ASCII these are `A` to
/// `Z`; beyond ASCII it is for `char::is_uppercase` to say.
pub open spec fn is_capital(c: char) -> bool {
    if c <= '\u{7f}' {
        'A' <= c && c <= 'Z'
    } else {
        char_is_uppercase(c)
    }
}

/// Says whether a character is a capital letter.
pub fn is_capital_letter(c: char) -> (r: bool)
    ensures
        r == is_capital(c),
{
    if c <= '\u{7f}' {
        c >= 'A' && c <= 'Z'
    } else {
        is_uppercase(c)
    }
}

/// What the character at index `i` of a name contributes to its snake-case
/// form: a capital is made small and, unless it opens the name, set off by an
/// underscore.
pub open spec fn snake_piece(i: int, c: char) -> Seq<char> {
    if is_capital(c) {
        if i > 0 {
            seq!['_', ascii_lower(c)]
        } else {
            seq![ascii_lower(c)]
        }
    } else {
        seq![c]
    }
}

/// The snake-case form of a camel-case name.
pub open spec fn camel_to_snake_spec(s: Seq<char>) -> Seq<char>
    decreases s.len(),
{
    if s.len() == 0 {
        Seq::empty()
    } else {
        camel_to_snake_spec(s.drop_last()) + snake_piece(s.len() - 1, s.last())
    }
}

/// Turns a camel-case name into snake case: `MyIndexer` becomes `my_indexer`.
pub fn camel_to_snake(s: &str) -> (r: String)
    ensures
        r@ == camel_to_snake_spec(s@),
{
    let chars = chars_of(s);
    let mut out = String::new();
    let mut i: usize = 0;
    while i < chars.len()
        invariant
            i <= chars.len(),
            chars@ == s@,
            out@ == camel_to_snake_spec(s@.take(i as int)),
        decreases chars.len() - i,
    {
        let c = chars[i];
        proof {
            let next = s@.take(i + 1);
            assert(next.drop_last() =~= s@.take(i as int));
            assert(next.last() == c);
        }
        if is_capital_letter(c) {
            if i > 0 {
                push_char(&mut out, '_');
            }
            push_char(&mut out, to_ascii_lower(c));
        } else {
            push_char(&mut out, c);
        }
        i += 1;
    }
    assert(s@.take(chars.len() as int) =~= s@);
    out
}

} // verus!
