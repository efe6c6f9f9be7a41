//! Text handling: joining command words, the backtick rule, markdown
//! escaping of game names and decimal numbers.
use vstd::prelude::*;

verus! {

/// Relies on `String::push`: it appends one character to the string.
pub assume_specification[ String::push ](s: &mut String, ch: char)
    ensures
        final(s)@ == old(s)@.push(ch),
;

/// The character views of a sequence of words.
pub open spec fn word_views(words: Seq<String>) -> Seq<Seq<char>> {
    words.map_values(|w: String| w@)
}

/// Words joined with single spaces.
pub open spec fn join_spec(words: Seq<Seq<char>>) -> Seq<char>
    decreases words.len(),
{
    if words.len() == 0 {
        Seq::empty()
    } else if words.len() == 1 {
        words[0]
    } else {
        join_spec(words.drop_last()) + seq![' '] + words.last()
    }
}

/// Characters that would start markdown formatting when a name is echoed.
pub open spec fn is_markdown_special(c: char) -> bool {
    c == '-' || c == '_' || c == '+' || c == '*' || c == '"' || c == '#' || c == '='
        || c == '.' || c == '\u{00B7}' || c == '\\' || c == '<' || c == '>' || c == '{'
        || c == '}'
}

/// Every markdown-special character preceded by a backslash.
pub open spec fn escape_spec(s: Seq<char>) -> Seq<char>
    decreases s.len(),
{
    if s.len() == 0 {
        Seq::empty()
    } else if is_markdown_special(s.last()) {
        escape_spec(s.drop_last()) + seq!['\\', s.last()]
    } else {
        escape_spec(s.drop_last()).push(s.last())
    }
}

/// Number of markdown-special characters in `s`.
pub open spec fn special_count(s: Seq<char>) -> nat
    decreases s.len(),
{
    if s.len() == 0 {
        0
    } else {
        special_count(s.drop_last()) + if is_markdown_special(s.last()) {
            1nat
        } else {
            0nat
        }
    }
}

/// `s` holds no markdown-special character.
pub open spec fn is_plain(s: Seq<char>) -> bool {
    forall|i: int| 0 <= i < s.len() ==> !is_markdown_special(#[trigger] s[i])
}

/// Escaping lengthens a name by one character per special character.
pub proof fn lemma_escape_len(s: Seq<char>)
    ensures
        escape_spec(s).len() == s.len() + special_count(s),
    decreases s.len(),
{
    if s.len() > 0 {
        lemma_escape_len(s.drop_last());
    }
}

/// No special character is counted exactly when the name is plain.
pub proof fn lemma_special_count_zero(s: Seq<char>)
    ensures
        special_count(s) == 0 <==> is_plain(s),
    decreases s.len(),
{
    if s.len() > 0 {
        let p = s.drop_last();
        lemma_special_count_zero(p);
        if is_plain(s) {
            assert forall|i: int| 0 <= i < p.len() implies !is_markdown_special(#[trigger] p[i]) by {
                assert(p[i] == s[i]);
            }
        }
        if special_count(s) == 0 {
            assert forall|i: int| 0 <= i < s.len() implies !is_markdown_special(#[trigger] s[i]) by {
                if i < p.len() {
                    assert(p[i] == s[i]);
                }
            }
        }
    }
}

/// Escaping leaves a name unchanged exactly when it holds no special
/// character; any special character (a backslash from an earlier escape
/// included) is escaped again.
pub proof fn lemma_escape_unchanged_iff_plain(s: Seq<char>)
    ensures
        (escape_spec(s) == s) <==> is_plain(s),
    decreases s.len(),
{
    lemma_escape_len(s);
    lemma_special_count_zero(s);
    if is_plain(s) && s.len() > 0 {
        let p = s.drop_last();
        assert(is_plain(p)) by {
            assert forall|i: int| 0 <= i < p.len() implies !is_markdown_special(#[trigger] p[i]) by {
                assert(p[i] == s[i]);
            }
        }
        lemma_escape_unchanged_iff_plain(p);
        assert(!is_markdown_special(s[s.len() - 1]));
        assert(escape_spec(s) =~= s);
    } else if s.len() == 0 {
        assert(escape_spec(s) =~= s);
    }
}

/// Escaping a name that holds a special character leaves one in the
/// result (at least the backslash it added).
pub proof fn lemma_escape_keeps_special(s: Seq<char>)
    requires
        !is_plain(s),
    ensures
        !is_plain(escape_spec(s)),
    decreases s.len(),
{
    let e = escape_spec(s);
    let p = s.drop_last();
    if is_markdown_special(s.last()) {
        assert(e[e.len() - 1] == s.last());
    } else {
        let i = choose|i: int| 0 <= i < s.len() && is_markdown_special(#[trigger] s[i]);
        assert(i != s.len() - 1);
        assert(p[i] == s[i]);
        lemma_escape_keeps_special(p);
        let ep = escape_spec(p);
        let j = choose|j: int| 0 <= j < ep.len() && is_markdown_special(#[trigger] ep[j]);
        assert(e == ep.push(s.last()));
        assert(e[j] == ep[j]);
    }
}

/// Escaping is not idempotent: escaping again a name that was escaped
/// from one holding a special character changes it once more, while a
/// name without special characters is left as it is both times.
pub proof fn lemma_escape_twice(t: Seq<char>)
    ensures
        !is_plain(t) ==> escape_spec(escape_spec(t)) != escape_spec(t),
        is_plain(t) ==> escape_spec(escape_spec(t)) == escape_spec(t) && escape_spec(t) == t,
{
    lemma_escape_unchanged_iff_plain(t);
    if !is_plain(t) {
        lemma_escape_keeps_special(t);
        lemma_escape_unchanged_iff_plain(escape_spec(t));
    }
}

/// Joins the words with single spaces.
pub fn join_words(words: &Vec<String>) -> (r: String)
    ensures
        r@ == join_spec(word_views(words@)),
{
    let ghost views = word_views(words@);
    let mut out = String::new();
    let mut i: usize = 0;
    while i < words.len()
        invariant
            i <= words.len(),
            views == word_views(words@),
            out@ == join_spec(views.take(i as int)),
        decreases words.len() - i,
    {
        let ghost before = views.take(i as int);
        if i > 0 {
            out.push(' ');
        }
        out.append(words[i].as_str());
        proof {
            let after = views.take(i + 1);
            assert(after.drop_last() =~= before);
            assert(after.last() == words@[i as int]@);
            if i == 0 {
                assert(out@ =~= join_spec(after));
            } else {
                assert(out@ =~= join_spec(after));
            }
        }
        i = i + 1;
    }
    assert(views.take(words.len() as int) =~= views);
    out
}

/// Whether `s` holds a backtick.
pub fn contains_backtick(s: &str) -> (r: bool)
    ensures
        r == s@.contains('`'),
{
    let n = s.unicode_len();
    let mut i: usize = 0;
    while i < n
        invariant
            n == s@.len(),
            i <= n,
            forall|j: int| 0 <= j < i ==> s@[j] != '`',
        decreases n - i,
    {
        if s.get_char(i) == '`' {
            return true;
        }
        i = i + 1;
    }
    false
}

/// Whether `c` is markdown-special.
pub fn is_markdown_char(c: char) -> (r: bool)
    ensures
        r == is_markdown_special(c),
{
    c == '-' || c == '_' || c == '+' || c == '*' || c == '"' || c == '#' || c == '='
        || c == '.' || c == '\u{00B7}' || c == '\\' || c == '<' || c == '>' || c == '{'
        || c == '}'
}

/// Puts a backslash before every markdown-special character.
pub fn escape_markdown(s: &str) -> (r: String)
    ensures
        r@ == escape_spec(s@),
{
    let n = s.unicode_len();
    let mut out = String::new();
    let mut i: usize = 0;
    while i < n
        invariant
            n == s@.len(),
            i <= n,
            out@ == escape_spec(s@.take(i as int)),
        decreases n - i,
    {
        let c = s.get_char(i);
        if is_markdown_char(c) {
            out.push('\\');
        }
        out.push(c);
        proof {
            let after = s@.take(i + 1);
            assert(after.drop_last() =~= s@.take(i as int));
            assert(out@ =~= escape_spec(after));
        }
        i = i + 1;
    }
    assert(s@.take(n as int) =~= s@);
    out
}

/// Why a game name was refused.
#[derive(Clone, Copy, Debug, PartialEq, Eq, Structural)]
pub enum NameError {
    /// The name has no characters.
    Empty,
    /// The name holds a backtick, which would break code formatting.
    ForbiddenCharacter,
}

/// Joins the words with single spaces and makes the name safe to echo:
/// an empty name and one with a backtick are refused, any other name has
/// its markdown-special characters escaped.
pub fn sanitize(words: &Vec<String>) -> (r: Result<String, NameError>)
    ensures
        join_spec(word_views(words@)).len() == 0 <==> r == Err::<String, NameError>(
            NameError::Empty,
        ),
        (join_spec(word_views(words@)).len() > 0 && join_spec(word_views(words@)).contains('`'))
            <==> r == Err::<String, NameError>(NameError::ForbiddenCharacter),
        r matches Ok(safe) ==> safe@ == escape_spec(join_spec(word_views(words@))),
{
    let name = join_words(words);
    if name.unicode_len() == 0 {
        Err(NameError::Empty)
    } else if contains_backtick(name.as_str()) {
        Err(NameError::ForbiddenCharacter)
    } else {
        Ok(escape_markdown(name.as_str()))
    }
}

/// The character for a decimal digit.
pub open spec fn digit_char(d: int) -> char {
    if d == 0 {
        '0'
    } else if d == 1 {
        '1'
    } else if d == 2 {
        '2'
    } else if d == 3 {
        '3'
    } else if d == 4 {
        '4'
    } else if d == 5 {
        '5'
    } else if d == 6 {
        '6'
    } else if d == 7 {
        '7'
    } else if d == 8 {
        '8'
    } else {
        '9'
    }
}

/// The value of a decimal digit character, or -1.
pub open spec fn digit_value(c: char) -> int {
    if c == '0' {
        0
    } else if c == '1' {
        1
    } else if c == '2' {
        2
    } else if c == '3' {
        3
    } else if c == '4' {
        4
    } else if c == '5' {
        5
    } else if c == '6' {
        6
    } else if c == '7' {
        7
    } else if c == '8' {
        8
    } else if c == '9' {
        9
    } else {
        -1
    }
}

/// The decimal notation of `n`, without leading zeros.
pub open spec fn decimal_spec(n: nat) -> Seq<char>
    decreases n,
{
    if n < 10 {
        seq![digit_char(n as int)]
    } else {
        decimal_spec(n / 10).push(digit_char((n % 10) as int))
    }
}

/// `s` is a non-empty run of decimal digits.
pub open spec fn is_numeral(s: Seq<char>) -> bool {
    s.len() > 0 && forall|i: int| 0 <= i < s.len() ==> digit_value(#[trigger] s[i]) >= 0
}

/// The value of a run of decimal digits.
pub open spec fn numeral_value(s: Seq<char>) -> int
    decreases s.len(),
{
    if s.len() == 0 {
        0
    } else {
        numeral_value(s.drop_last()) * 10 + digit_value(s.last())
    }
}

fn digit_to_char(d: u64) -> (c: char)
    requires
        d < 10,
    ensures
        c == digit_char(d as int),
{
    if d == 0 {
        '0'
    } else if d == 1 {
        '1'
    } else if d == 2 {
        '2'
    } else if d == 3 {
        '3'
    } else if d == 4 {
        '4'
    } else if d == 5 {
        '5'
    } else if d == 6 {
        '6'
    } else if d == 7 {
        '7'
    } else if d == 8 {
        '8'
    } else {
        '9'
    }
}

fn char_to_digit(c: char) -> (d: Option<u64>)
    ensures
        digit_value(c) < 0 <==> d is None,
        d matches Some(v) ==> v == digit_value(c),
{
    if c == '0' {
        Some(0)
    } else if c == '1' {
        Some(1)
    } else if c == '2' {
        Some(2)
    } else if c == '3' {
        Some(3)
    } else if c == '4' {
        Some(4)
    } else if c == '5' {
        Some(5)
    } else if c == '6' {
        Some(6)
    } else if c == '7' {
        Some(7)
    } else if c == '8' {
        Some(8)
    } else if c == '9' {
        Some(9)
    } else {
        None
    }
}

/// Appends the decimal notation of `n`.
pub fn push_decimal(out: &mut String, n: u64)
    ensures
        final(out)@ == old(out)@ + decimal_spec(n as nat),
    decreases n,
{
    if n >= 10 {
        push_decimal(out, n / 10);
    }
    out.push(digit_to_char(n % 10));
    assert(final(out)@ =~= old(out)@ + decimal_spec(n as nat));
}

proof fn lemma_numeral_prefix_grows(s: Seq<char>, i: int, j: int)
    requires
        0 <= i <= j <= s.len(),
        forall|k: int| 0 <= k < s.len() ==> digit_value(#[trigger] s[k]) >= 0,
    ensures
        numeral_value(s.take(i)) <= numeral_value(s.take(j)),
    decreases j - i,
{
    if i < j {
        lemma_numeral_prefix_grows(s, i, j - 1);
        assert(s.take(j).drop_last() =~= s.take(j - 1));
        assert(numeral_value(s.take(j - 1)) >= 0) by {
            lemma_numeral_nonneg(s.take(j - 1));
        }
        assert(s.take(j).last() == s[j - 1]);
    }
}

proof fn lemma_numeral_nonneg(s: Seq<char>)
    requires
        forall|k: int| 0 <= k < s.len() ==> digit_value(#[trigger] s[k]) >= 0,
    ensures
        numeral_value(s) >= 0,
    decreases s.len(),
{
    if s.len() > 0 {
        let p = s.drop_last();
        assert forall|k: int| 0 <= k < p.len() implies digit_value(#[trigger] p[k]) >= 0 by {
            assert(p[k] == s[k]);
        }
        lemma_numeral_nonneg(p);
        assert(digit_value(s[s.len() - 1]) >= 0);
    }
}

/// Reads a decimal number that fits in 64 bits; anything else, a sign
/// included, gives `None`.
pub fn parse_decimal(s: &str) -> (r: Option<u64>)
    ensures
        r is Some <==> is_numeral(s@) && numeral_value(s@) <= u64::MAX,
        r matches Some(v) ==> v == numeral_value(s@),
{
    let n = s.unicode_len();
    if n == 0 {
        return None;
    }
    let mut value: u64 = 0;
    let mut i: usize = 0;
    while i < n
        invariant
            n == s@.len(),
            0 < n,
            i <= n,
            value == numeral_value(s@.take(i as int)),
            forall|k: int| 0 <= k < i ==> digit_value(#[trigger] s@[k]) >= 0,
        decreases n - i,
    {
        let c = s.get_char(i);
        let d = match char_to_digit(c) {
            Some(d) => d,
            None => {
                return None;
            },
        };
        let ghost after = s@.take(i + 1);
        proof {
            assert(after.drop_last() =~= s@.take(i as int));
            assert(after.last() == c);
        }
        let next = match value.checked_mul(10) {
            Some(t) => t.checked_add(d),
            None => None,
        };
        match next {
            Some(v) => {
                value = v;
            },
            None => {
                // The prefix already exceeds the range, and more digits only
                // make the number larger.
                let ghost bad = i + 1;
                proof {
                    assert(numeral_value(after) > u64::MAX);
                    if is_numeral(s@) {
                        lemma_numeral_prefix_grows(s@, bad, n as int);
                        assert(s@.take(n as int) =~= s@);
                    }
                }
                return None;
            },
        }
        i = i + 1;
    }
    assert(s@.take(n as int) =~= s@);
    Some(value)
}

} // verus!
