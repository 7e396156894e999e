use vstd::prelude::*;

verus! {

/// `String::push` appends the given character to the end of the string.
pub assume_specification[ String::push ](s: &mut String, c: char)
    ensures
        final(s)@ == old(s)@.push(c),
;

/// What a list of texts holds.
pub open spec fn texts_view(texts: Seq<String>) -> Seq<Seq<char>> {
    Seq::new(texts.len(), |i: int| texts[i]@)
}

/// The character that stands in a name for every character that a path
/// cannot hold.
pub const PLACEHOLDER: char = '_';

/// Whether a character cannot stand in the name of a directory.
pub open spec fn path_unsafe(c: char) -> bool {
    c == '/' || c == '\\' || c == ':' || c == '*' || c == '?' || c == '"' || c == '<' || c == '>'
        || c == '|'
}

/// The character that stands for `c` in a name.
pub open spec fn safe_char(c: char) -> char {
    if path_unsafe(c) {
        PLACEHOLDER
    } else {
        c
    }
}

/// The name of the directory that takes a query's results: the query with
/// the placeholder in place of every character that a path cannot hold.
pub open spec fn safe_name(query: Seq<char>) -> Seq<char> {
    Seq::new(query.len(), |i: int| safe_char(query[i]))
}

/// A name holds no character that a path cannot hold, and naming is the same
/// for equal queries.
pub proof fn lemma_safe_name_is_safe(query: Seq<char>, i: int)
    requires
        0 <= i < query.len(),
    ensures
        safe_name(query).len() == query.len(),
        !path_unsafe(safe_name(query)[i]),
        !path_unsafe(query[i]) ==> safe_name(query)[i] == query[i],
{
}

/// A name is left as it is by naming it again.
pub proof fn lemma_safe_name_idempotent(query: Seq<char>)
    ensures
        safe_name(safe_name(query)) == safe_name(query),
{
    assert(safe_name(safe_name(query)) =~= safe_name(query));
}

#[verifier::when_used_as_spec(path_unsafe)]
pub fn is_path_unsafe(c: char) -> (yes: bool)
    ensures
        yes == path_unsafe(c),
{
    c == '/' || c == '\\' || c == ':' || c == '*' || c == '?' || c == '"' || c == '<' || c == '>'
        || c == '|'
}

/// Derives the name of a query's result directory from the query's text.
pub fn sanitize_query(query: &str) -> (name: String)
    ensures
        name@ == safe_name(query@),
{
    let count: usize = query.unicode_len();
    let mut name = String::new();
    let mut k: usize = 0;
    while k < count
        invariant
            count == query@.len(),
            k <= count,
            name@.len() == k,
            forall|i: int| 0 <= i < k ==> name@[i] == safe_char(query@[i]),
        decreases count - k,
    {
        let c: char = query.get_char(k);
        if is_path_unsafe(c) {
            name.push(PLACEHOLDER);
        } else {
            name.push(c);
        }
        k = k + 1;
    }
    assert(name@ =~= safe_name(query@));
    name
}

/// The character of a decimal digit.
pub open spec fn digit_char(d: nat) -> char {
    if d == 0 {
        '0'
    } else if d == 1 {
        '1'
    } else if d == 2 {
        '2'
    } else if d == 3 {
        '3'
    } else if d == 4 {
        '4'
    } else if d == 5 {
        '5'
    } else if d == 6 {
        '6'
    } else if d == 7 {
        '7'
    } else if d == 8 {
        '8'
    } else {
        '9'
    }
}

/// A number in decimal digits, without leading zeros.
pub open spec fn decimal(n: nat) -> Seq<char>
    decreases n,
{
    if n < 10 {
        seq![digit_char(n)]
    } else {
        decimal(n / 10).push(digit_char(n % 10))
    }
}

/// A number below a thousand in three decimal digits, with leading zeros.
pub open spec fn three_digits(n: nat) -> Seq<char> {
    seq![digit_char(n / 100), digit_char((n / 10) % 10), digit_char(n % 10)]
}

fn digit(d: u64) -> (c: char)
    requires
        d < 10,
    ensures
        c == digit_char(d as nat),
{
    if d == 0 {
        '0'
    } else if d == 1 {
        '1'
    } else if d == 2 {
        '2'
    } else if d == 3 {
        '3'
    } else if d == 4 {
        '4'
    } else if d == 5 {
        '5'
    } else if d == 6 {
        '6'
    } else if d == 7 {
        '7'
    } else if d == 8 {
        '8'
    } else {
        '9'
    }
}

/// Appends `n` in decimal digits to `out`.
pub fn push_decimal(out: &mut String, n: u64)
    ensures
        final(out)@ == old(out)@ + decimal(n as nat),
    decreases n,
{
    if n >= 10 {
        push_decimal(out, n / 10);
    }
    out.push(digit(n % 10));
    assert(out@ =~= old(out)@ + decimal(n as nat));
}

/// Appends `n` in three decimal digits to `out`.
pub fn push_three_digits(out: &mut String, n: u64)
    requires
        n < 1000,
    ensures
        final(out)@ == old(out)@ + three_digits(n as nat),
{
    out.push(digit(n / 100));
    out.push(digit((n / 10) % 10));
    out.push(digit(n % 10));
    assert(out@ =~= old(out)@ + three_digits(n as nat));
}

} // verus!
