//! Text as sequences of characters: decimal numbers, words, fields and
//! placeholders.

use vstd::prelude::*;

verus! {

/// `str` equality, `<str as PartialEq>::eq` of the standard library: two string
/// slices are equal exactly when they hold the same characters.
pub assume_specification[ <str as PartialEq>::eq ](a: &str, b: &str) -> (yes: bool)
    ensures
        yes == (a@ == b@),
;

/// Whether two string slices hold the same characters.
pub fn same(a: &str, b: &str) -> (yes: bool)
    ensures
        yes == (a@ == b@),
{
    a.eq(b)
}

/// `String::push` of the standard library: appends one character to the end.
pub assume_specification[ String::push ](text: &mut String, c: char)
    ensures
        final(text)@ == old(text)@.push(c),
;

/// The characters with the Unicode property `White_Space`.
pub open spec fn is_white_space(c: char) -> bool {
    let u = c as u32;
    ||| 0x9 <= u <= 0xd
    ||| u == 0x20
    ||| u == 0x85
    ||| u == 0xa0
    ||| u == 0x1680
    ||| 0x2000 <= u <= 0x200a
    ||| u == 0x2028
    ||| u == 0x2029
    ||| u == 0x202f
    ||| u == 0x205f
    ||| u == 0x3000
}

/// `char::is_whitespace` of the standard library: whether the character has the
/// Unicode property `White_Space`.
pub assume_specification[ char::is_whitespace ](c: char) -> (white: bool)
    ensures
        white == is_white_space(c),
;

/// The character of a decimal digit.
pub open spec fn digit_char(d: nat) -> char {
    (48 + d) as char
}

/// The decimal digits of a number, without leading zeros.
pub open spec fn decimal_nat(n: nat) -> Seq<char>
    decreases n,
{
    if n < 10 {
        seq![digit_char(n)]
    } else {
        decimal_nat(n / 10).push(digit_char(n % 10))
    }
}

/// A number in decimal, with a leading `-` when it is negative.
pub open spec fn decimal(n: int) -> Seq<char> {
    if n < 0 {
        seq!['-'] + decimal_nat((-n) as nat)
    } else {
        decimal_nat(n as nat)
    }
}

fn push_digits(out: &mut String, n: u64)
    ensures
        final(out)@ == old(out)@ + decimal_nat(n as nat),
    decreases n,
{
    let ghost before = out@;
    if n >= 10 {
        push_digits(out, n / 10);
    }
    let d: u8 = (n % 10) as u8;
    out.push((48 + d) as char);
    proof {
        assert(out@ =~= before + decimal_nat(n as nat));
    }
}

/// Renders an unsigned number in decimal.
pub fn show_u64(n: u64) -> (text: String)
    ensures
        text@ == decimal(n as int),
{
    let mut out = String::new();
    push_digits(&mut out, n);
    proof {
        assert(out@ =~= decimal_nat(n as nat));
    }
    out
}

/// Renders a signed number in decimal.
pub fn show_i64(n: i64) -> (text: String)
    ensures
        text@ == decimal(n as int),
{
    let mut out = String::new();
    if n < 0 {
        out.push('-');
        let magnitude: u64 = (-(n + 1)) as u64 + 1;
        push_digits(&mut out, magnitude);
    } else {
        push_digits(&mut out, n as u64);
    }
    proof {
        assert(out@ =~= decimal(n as int));
    }
    out
}

/// The characters of a string slice, in order.
pub fn chars_of(text: &str) -> (chars: Vec<char>)
    ensures
        chars@ == text@,
{
    let mut chars: Vec<char> = Vec::new();
    for c in iter: text.chars()
        invariant
            chars@ == iter.seq().take(iter.index()),
    {
        chars.push(c);
    }
    chars
}

/// Whether a character is a decimal digit.
pub open spec fn is_digit(c: char) -> bool {
    '0' <= c <= '9'
}

/// The number that a run of decimal digits stands for.
pub open spec fn digits_value(s: Seq<char>) -> nat
    decreases s.len(),
{
    if s.len() == 0 {
        0
    } else {
        digits_value(s.drop_last()) * 10 + (s.last() as u32 - 48) as nat
    }
}

/// Reads one or more decimal digits and nothing else.
pub open spec fn parse_digits(s: Seq<char>) -> Option<nat> {
    if s.len() > 0 && (forall|i: int| 0 <= i < s.len() ==> is_digit(#[trigger] s[i])) {
        Some(digits_value(s))
    } else {
        None
    }
}

/// Reads a number: digits, with at most one sign in front.
pub open spec fn parse_signed(s: Seq<char>) -> Option<int> {
    if s.len() > 0 && s[0] == '-' {
        match parse_digits(s.skip(1)) {
            Some(n) => Some(-(n as int)),
            None => None,
        }
    } else {
        match parse_unsigned(s) {
            Some(n) => Some(n as int),
            None => None,
        }
    }
}

/// Reads a number that has no minus sign: digits, with at most a `+` in front.
pub open spec fn parse_unsigned(s: Seq<char>) -> Option<nat> {
    if s.len() > 0 && s[0] == '+' {
        parse_digits(s.skip(1))
    } else {
        parse_digits(s)
    }
}

/// The `i32` that a text denotes, if it denotes one.
pub open spec fn i32_in(s: Seq<char>) -> Option<i32> {
    match parse_signed(s) {
        Some(n) => if i32::MIN <= n <= i32::MAX {
            Some(n as i32)
        } else {
            None
        },
        None => None,
    }
}

/// The `i64` that a text denotes, if it denotes one.
pub open spec fn i64_in(s: Seq<char>) -> Option<i64> {
    match parse_signed(s) {
        Some(n) => if i64::MIN <= n <= i64::MAX {
            Some(n as i64)
        } else {
            None
        },
        None => None,
    }
}

/// The `usize` that a text denotes, if it denotes one.
pub open spec fn usize_in(s: Seq<char>) -> Option<usize> {
    match parse_unsigned(s) {
        Some(n) => if n <= usize::MAX {
            Some(n as usize)
        } else {
            None
        },
        None => None,
    }
}

/// The value of the digits from `start` on; `None` when they are not all digits,
/// when there are none, or when the value is beyond `u64`.
fn read_digits(chars: &Vec<char>, start: usize) -> (value: Option<u64>)
    requires
        start <= chars@.len(),
    ensures
        match parse_digits(chars@.skip(start as int)) {
            Some(n) => if n <= u64::MAX {
                value == Some(n as u64)
            } else {
                value is None
            },
            None => value is None,
        },
{
    let ghost digits = chars@.skip(start as int);
    if start == chars.len() {
        return None;
    }
    let mut i: usize = start;
    let mut value: Option<u64> = Some(0);
    proof {
        assert(digits.take(0) =~= Seq::<char>::empty());
    }
    while i < chars.len()
        invariant
            start <= i <= chars@.len(),
            digits == chars@.skip(start as int),
            forall|j: int| 0 <= j < i - start ==> is_digit(#[trigger] digits[j]),
            match value {
                Some(v) => v == digits_value(digits.take(i - start)),
                None => digits_value(digits.take(i - start)) > u64::MAX,
            },
        decreases chars@.len() - i,
    {
        let c: char = chars[i];
        proof {
            assert(digits[i - start] == c);
        }
        if c < '0' || c > '9' {
            return None;
        }
        let d: u64 = (c as u32 - 48) as u64;
        proof {
            assert(digits.take(i - start + 1).drop_last() =~= digits.take(i - start));
            assert(digits.take(i - start + 1).last() == c);
        }
        value = match value {
            Some(v) => if v < u64::MAX / 10 || (v == u64::MAX / 10 && d <= u64::MAX % 10) {
                Some(v * 10 + d)
            } else {
                None
            },
            None => None,
        };
        i = i + 1;
    }
    proof {
        assert(digits.take(i - start) =~= digits);
    }
    value
}

/// Reads an `i32`.
pub fn parse_i32(text: &str) -> (value: Option<i32>)
    ensures
        value == i32_in(text@),
{
    match parse_i64(text) {
        Some(n) => if i32::MIN as i64 <= n && n <= i32::MAX as i64 {
            Some(n as i32)
        } else {
            None
        },
        None => None,
    }
}

/// Reads an `i64`.
pub fn parse_i64(text: &str) -> (value: Option<i64>)
    ensures
        value == i64_in(text@),
{
    let chars = chars_of(text);
    if chars.len() > 0 && chars[0] == '-' {
        match read_digits(&chars, 1) {
            Some(n) => if n <= 9223372036854775807 {
                Some(-(n as i64))
            } else if n == 9223372036854775808 {
                Some(i64::MIN)
            } else {
                None
            },
            None => None,
        }
    } else {
        match parse_u64(&chars) {
            Some(n) => if n <= 9223372036854775807 {
                Some(n as i64)
            } else {
                None
            },
            None => None,
        }
    }
}

fn parse_u64(chars: &Vec<char>) -> (value: Option<u64>)
    ensures
        match parse_unsigned(chars@) {
            Some(n) => if n <= u64::MAX {
                value == Some(n as u64)
            } else {
                value is None
            },
            None => value is None,
        },
{
    if chars.len() > 0 && chars[0] == '+' {
        read_digits(chars, 1)
    } else {
        proof {
            assert(chars@.skip(0) =~= chars@);
        }
        read_digits(chars, 0)
    }
}

/// Reads a `usize`.
pub fn parse_usize(text: &str) -> (value: Option<usize>)
    ensures
        value == usize_in(text@),
{
    match parse_u64(&chars_of(text)) {
        Some(n) => if n <= usize::MAX as u64 {
            Some(n as usize)
        } else {
            None
        },
        None => None,
    }
}

/// The decimal digits of a number read back as that number.
pub proof fn lemma_decimal_nat_reads_back(n: nat)
    ensures
        parse_digits(decimal_nat(n)) == Some(n),
    decreases n,
{
    let s = decimal_nat(n);
    if n < 10 {
        assert(s.drop_last() =~= Seq::<char>::empty());
        assert(digits_value(s.drop_last()) == 0);
    } else {
        lemma_decimal_nat_reads_back(n / 10);
        assert(s.drop_last() =~= decimal_nat(n / 10));
        assert forall|i: int| 0 <= i < s.len() implies is_digit(#[trigger] s[i]) by {
            if i < s.len() - 1 {
                assert(s[i] == decimal_nat(n / 10)[i]);
            }
        }
    }
}

/// A number in decimal reads back as that number.
pub proof fn decimal_reads_back(n: int)
    ensures
        parse_signed(decimal(n)) == Some(n),
        n >= 0 ==> parse_unsigned(decimal(n)) == Some(n as nat),
{
    if n < 0 {
        lemma_decimal_nat_reads_back((-n) as nat);
        assert(decimal(n).skip(1) =~= decimal_nat((-n) as nat));
    } else {
        lemma_decimal_nat_reads_back(n as nat);
        assert(is_digit(decimal(n)[0]));
    }
}

/// The views of a list of strings.
pub open spec fn texts(v: Seq<String>) -> Seq<Seq<char>> {
    v.map_values(|s: String| s@)
}

/// The pieces of a text between the separators: one more than there are
/// separators.
pub open spec fn fields(s: Seq<char>, sep: char) -> Seq<Seq<char>>
    decreases s.len(),
{
    if s.len() == 0 {
        seq![Seq::empty()]
    } else {
        let before = fields(s.drop_last(), sep);
        if s.last() == sep {
            before.push(Seq::empty())
        } else {
            before.drop_last().push(before.last().push(s.last()))
        }
    }
}

proof fn lemma_fields_nonempty(s: Seq<char>, sep: char)
    ensures
        fields(s, sep).len() > 0,
    decreases s.len(),
{
    if s.len() > 0 {
        lemma_fields_nonempty(s.drop_last(), sep);
    }
}

/// A text without separators only lengthens the last field.
pub proof fn lemma_fields_extend(s: Seq<char>, t: Seq<char>, sep: char)
    requires
        !t.contains(sep),
    ensures
        fields(s, sep).len() > 0,
        fields(s + t, sep) == fields(s, sep).drop_last().push(fields(s, sep).last() + t),
    decreases t.len(),
{
    lemma_fields_nonempty(s, sep);
    let f = fields(s, sep);
    if t.len() == 0 {
        assert(s + t =~= s);
        assert(f.last() + t =~= f.last());
        assert(f.drop_last().push(f.last()) =~= f);
    } else {
        assert(t.contains(t.last()));
        assert forall|c: char| t.drop_last().contains(c) implies t.contains(c) by {
            let i = choose|i: int| 0 <= i < t.drop_last().len() && t.drop_last()[i] == c;
            assert(t[i] == c);
        }
        lemma_fields_extend(s, t.drop_last(), sep);
        assert((s + t).drop_last() =~= s + t.drop_last());
        let g = fields(s + t.drop_last(), sep);
        assert(g.drop_last() =~= f.drop_last());
        assert((f.last() + t.drop_last()).push(t.last()) =~= f.last() + t);
    }
}

/// A separator starts a new, empty field.
pub proof fn lemma_fields_separator(s: Seq<char>, sep: char)
    ensures
        fields(s.push(sep), sep) == fields(s, sep).push(Seq::empty()),
{
    assert(s.push(sep).drop_last() =~= s);
}

/// Splits a text at every separator.
pub fn split(text: &str, sep: char) -> (parts: Vec<String>)
    ensures
        texts(parts@) == fields(text@, sep),
{
    let chars = chars_of(text);
    let mut parts: Vec<String> = Vec::new();
    let mut current = String::new();
    let mut i: usize = 0;
    proof {
        assert(chars@.take(0) =~= Seq::<char>::empty());
        assert(texts(parts@).push(current@) =~= fields(chars@.take(0), sep));
    }
    while i < chars.len()
        invariant
            chars@ == text@,
            i <= chars@.len(),
            texts(parts@).push(current@) == fields(chars@.take(i as int), sep),
        decreases chars@.len() - i,
    {
        let c: char = chars[i];
        let ghost before = texts(parts@).push(current@);
        proof {
            assert(chars@.take(i + 1).drop_last() =~= chars@.take(i as int));
            assert(before.drop_last() =~= texts(parts@));
        }
        if c == sep {
            parts.push(current);
            current = String::new();
            proof {
                assert(texts(parts@) =~= before);
            }
        } else {
            current.push(c);
        }
        i = i + 1;
    }
    let ghost done = parts@;
    let ghost word = current@;
    parts.push(current);
    proof {
        assert(chars@.take(i as int) =~= text@);
        assert(texts(parts@) =~= texts(done).push(word));
    }
    parts
}

/// The words of a text: its longest runs without white space, in order.
pub open spec fn words_of(s: Seq<char>) -> Seq<Seq<char>>
    decreases s.len(),
{
    if s.len() == 0 {
        Seq::empty()
    } else {
        let before = words_of(s.drop_last());
        if is_white_space(s.last()) {
            before
        } else if s.len() == 1 || is_white_space(s[s.len() - 2]) {
            before.push(seq![s.last()])
        } else {
            before.drop_last().push(before.last().push(s.last()))
        }
    }
}

/// Splits a text into its words.
pub fn words(text: &str) -> (list: Vec<String>)
    ensures
        texts(list@) == words_of(text@),
{
    let chars = chars_of(text);
    let mut list: Vec<String> = Vec::new();
    let mut current = String::new();
    let mut i: usize = 0;
    proof {
        assert(chars@.take(0) =~= Seq::<char>::empty());
        assert(texts(list@) =~= words_of(chars@.take(0)));
    }
    while i < chars.len()
        invariant
            chars@ == text@,
            i <= chars@.len(),
            current@.len() > 0 <==> i > 0 && !is_white_space(chars@[i - 1]),
            current@.len() > 0 ==> texts(list@).push(current@) == words_of(chars@.take(i as int)),
            current@.len() == 0 ==> texts(list@) == words_of(chars@.take(i as int)),
        decreases chars@.len() - i,
    {
        let c: char = chars[i];
        let ghost upto = chars@.take(i + 1);
        let ghost done = texts(list@);
        proof {
            assert(upto.drop_last() =~= chars@.take(i as int));
            assert(done.push(current@).drop_last() =~= done);
        }
        if c.is_whitespace() {
            if !current.as_str().is_empty() {
                let ghost word = current@;
                list.push(current);
                current = String::new();
                proof {
                    assert(texts(list@) =~= done.push(word));
                }
            }
        } else {
            proof {
                if i > 0 {
                    assert(upto[upto.len() - 2] == chars@[i - 1]);
                }
            }
            let ghost word = current@;
            current.push(c);
            proof {
                if word.len() == 0 {
                    assert(current@ =~= seq![c]);
                } else {
                    assert(done.push(word).last() == word);
                }
            }
        }
        i = i + 1;
    }
    proof {
        assert(chars@.take(i as int) =~= text@);
    }
    if !current.as_str().is_empty() {
        let ghost done = texts(list@);
        let ghost word = current@;
        list.push(current);
        proof {
            assert(texts(list@) =~= done.push(word));
        }
    }
    list
}

/// The characters of a text from `from` on.
fn tail(chars: &Vec<char>, from: usize) -> (text: String)
    requires
        from <= chars@.len(),
    ensures
        text@ == chars@.skip(from as int),
{
    let mut out = String::new();
    let mut i: usize = from;
    while i < chars.len()
        invariant
            from <= i <= chars@.len(),
            out@ == chars@.subrange(from as int, i as int),
        decreases chars@.len() - i,
    {
        out.push(chars[i]);
        i = i + 1;
    }
    out
}

/// Whether `pattern` stands in `chars` at position `at`.
fn matches_at(chars: &Vec<char>, at: usize, pattern: &Vec<char>) -> (found: bool)
    requires
        at <= chars@.len(),
    ensures
        found == pattern@.is_prefix_of(chars@.skip(at as int)),
{
    if pattern.len() > chars.len() - at {
        return false;
    }
    let mut k: usize = 0;
    while k < pattern.len()
        invariant
            k <= pattern.len() <= chars.len() - at,
            forall|j: int| 0 <= j < k ==> pattern@[j] == chars@[at + j],
        decreases pattern@.len() - k,
    {
        if pattern[k] != chars[at + k] {
            proof {
                assert(chars@.skip(at as int)[k as int] == chars@[at + k]);
            }
            return false;
        }
        k = k + 1;
    }
    proof {
        assert(pattern@ =~= chars@.skip(at as int).subrange(0, pattern@.len() as int));
    }
    true
}

/// What follows a prefix, where the text has it.
pub open spec fn after(s: Seq<char>, prefix: Seq<char>) -> Option<Seq<char>> {
    if prefix.is_prefix_of(s) {
        Some(s.skip(prefix.len() as int))
    } else {
        None
    }
}

/// Takes a prefix off a text.
pub fn strip_prefix(text: &str, prefix: &str) -> (rest: Option<String>)
    ensures
        match after(text@, prefix@) {
            Some(s) => rest is Some && rest->0@ == s,
            None => rest is None,
        },
{
    let chars = chars_of(text);
    let pattern = chars_of(prefix);
    proof {
        assert(chars@.skip(0) =~= text@);
    }
    if matches_at(&chars, 0, &pattern) {
        Some(tail(&chars, pattern.len()))
    } else {
        None
    }
}

/// A text with every occurrence of `pattern`, found from the left without
/// overlaps, replaced by `with`. An empty pattern occurs nowhere.
pub open spec fn replace_all(s: Seq<char>, pattern: Seq<char>, with: Seq<char>) -> Seq<char>
    decreases s.len(),
{
    if pattern.len() == 0 || s.len() == 0 {
        s
    } else if pattern.is_prefix_of(s) {
        with + replace_all(s.skip(pattern.len() as int), pattern, with)
    } else {
        seq![s[0]] + replace_all(s.skip(1), pattern, with)
    }
}

/// Replaces every occurrence of a pattern. An empty pattern occurs nowhere.
pub fn replace(text: &str, pattern: &str, with: &str) -> (result: String)
    ensures
        result@ == replace_all(text@, pattern@, with@),
{
    let chars = chars_of(text);
    let wanted = chars_of(pattern);
    if wanted.len() == 0 {
        return text.to_owned();
    }
    let mut out = String::new();
    let mut i: usize = 0;
    proof {
        assert(chars@.skip(0) =~= text@);
        assert(out@ + replace_all(chars@.skip(0), pattern@, with@) =~= replace_all(
            text@,
            pattern@,
            with@,
        ));
    }
    while i < chars.len()
        invariant
            chars@ == text@,
            wanted@ == pattern@,
            pattern@.len() > 0,
            i <= chars@.len(),
            out@ + replace_all(chars@.skip(i as int), pattern@, with@) == replace_all(
                text@,
                pattern@,
                with@,
            ),
        decreases chars@.len() - i,
    {
        let ghost rest = chars@.skip(i as int);
        let ghost before = out@;
        if matches_at(&chars, i, &wanted) {
            out.append(with);
            proof {
                let next = rest.skip(pattern@.len() as int);
                assert(next =~= chars@.skip(i + wanted@.len()));
                assert(before + (with@ + replace_all(next, pattern@, with@)) =~= out@ + replace_all(
                    next,
                    pattern@,
                    with@,
                ));
            }
            i = i + wanted.len();
        } else {
            out.push(chars[i]);
            proof {
                let next = rest.skip(1);
                assert(next =~= chars@.skip(i + 1));
                assert(before + (seq![rest[0]] + replace_all(next, pattern@, with@)) =~= out@
                    + replace_all(next, pattern@, with@));
            }
            i = i + 1;
        }
    }
    proof {
        assert(chars@.skip(i as int) =~= Seq::<char>::empty());
        assert(out@ + Seq::<char>::empty() =~= out@);
    }
    out
}

/// A list of texts with a separator between neighbours.
pub open spec fn joined(parts: Seq<Seq<char>>, sep: Seq<char>) -> Seq<char>
    decreases parts.len(),
{
    if parts.len() == 0 {
        Seq::empty()
    } else if parts.len() == 1 {
        parts[0]
    } else {
        joined(parts.drop_last(), sep) + sep + parts.last()
    }
}

/// Joins a list of texts with a separator.
pub fn join(parts: &Vec<String>, sep: &str) -> (result: String)
    ensures
        result@ == joined(texts(parts@), sep@),
{
    let mut out = String::new();
    let mut i: usize = 0;
    proof {
        assert(out@ =~= joined(texts(parts@).take(0), sep@));
    }
    while i < parts.len()
        invariant
            i <= parts@.len(),
            out@ == joined(texts(parts@).take(i as int), sep@),
        decreases parts@.len() - i,
    {
        let ghost before = out@;
        if i > 0 {
            out.append(sep);
        }
        out.append(parts[i].as_str());
        proof {
            let upto = texts(parts@).take(i + 1);
            assert(upto.drop_last() =~= texts(parts@).take(i as int));
            assert(upto.last() == parts@[i as int]@);
            assert(out@ =~= joined(upto, sep@));
        }
        i = i + 1;
    }
    proof {
        assert(texts(parts@).take(i as int) =~= texts(parts@));
    }
    out
}

/// Every `i32` and `i64` reads back from its decimal form, with or without a plus sign
/// where it has no minus, and a number beyond the type is not read at all.
pub proof fn numbers_read_back(n: int)
    ensures
        i32_in(decimal(n)) == if i32::MIN <= n <= i32::MAX {
            Some(n as i32)
        } else {
            None
        },
        i64_in(decimal(n)) == if i64::MIN <= n <= i64::MAX {
            Some(n as i64)
        } else {
            None
        },
        usize_in(decimal(n)) == if 0 <= n <= usize::MAX {
            Some(n as usize)
        } else {
            None
        },
        n >= 0 ==> i32_in(seq!['+'] + decimal(n)) == i32_in(decimal(n)),
        n >= 0 ==> i64_in(seq!['+'] + decimal(n)) == i64_in(decimal(n)),
        n >= 0 ==> usize_in(seq!['+'] + decimal(n)) == usize_in(decimal(n)),
{
    decimal_reads_back(n);
    if n >= 0 {
        let s = seq!['+'] + decimal(n);
        assert(s.skip(1) =~= decimal(n));
        lemma_decimal_nat_reads_back(n as nat);
        assert(is_digit(decimal(n)[0]));
    } else {
        assert(decimal(n)[0] == '-');
        assert(!is_digit(decimal(n)[0]));
    }
}

/// A text with anything in it but digits and a sign in front is no number, and neither
/// is a sign alone.
pub proof fn other_texts_are_no_numbers(s: Seq<char>)
    requires
        s.len() == 0 || (s.len() == 1 && !('0' <= s[0] <= '9')) || (exists|i: int|
            0 < i < s.len() && !('0' <= #[trigger] s[i] <= '9')) || !('0' <= s[0] <= '9' || s[0]
            == '+' || s[0] == '-'),
    ensures
        i32_in(s) is None,
        i64_in(s) is None,
        usize_in(s) is None,
{
    if exists|i: int| 0 < i < s.len() && !('0' <= #[trigger] s[i] <= '9') {
        let i = choose|i: int| 0 < i < s.len() && !('0' <= #[trigger] s[i] <= '9');
        assert(s.skip(1)[i - 1] == s[i]);
        assert(!is_digit(s[i]));
        assert(!is_digit(s.skip(1)[i - 1]));
    }
    if s.len() > 0 {
        assert(!is_digit(s[0]) || '0' <= s[0] <= '9');
    }
}

/// Decimal digits are written one behind the other: one digit for a number below ten,
/// and otherwise the digits of the tenth part and then the last digit; a negative
/// number has a minus in front.
pub proof fn decimal_appends_digits(n: int, d: int)
    requires
        n >= 0,
        0 <= d <= 9,
    ensures
        ({
            let digit = seq!['0', '1', '2', '3', '4', '5', '6', '7', '8', '9'][d];
            &&& decimal(d) == seq![digit]
            &&& n > 0 ==> decimal(10 * n + d) == decimal(n).push(digit)
            &&& n > 0 ==> decimal(-n) == seq!['-'] + decimal(n)
        }),
{
    assert(d == 0 || d == 1 || d == 2 || d == 3 || d == 4 || d == 5 || d == 6 || d == 7 || d == 8
        || d == 9);
    let digit = seq!['0', '1', '2', '3', '4', '5', '6', '7', '8', '9'][d];
    assert(digit as u32 == 48 + d);
    assert(digit_char(d as nat) == digit);
    if n > 0 {
        assert((10 * n + d) / 10 == n && (10 * n + d) % 10 == d);
    }
}

/// Fields are what stands between the separators: joined texts have the fields of each
/// part, and a text without a separator is one field.
#[verifier::rlimit(40)]
pub proof fn fields_stand_between_separators(a: Seq<char>, b: Seq<char>, sep: char)
    ensures
        fields(a.push(sep) + b, sep) == fields(a, sep) + fields(b, sep),
        !a.contains(sep) ==> fields(a, sep) == seq![a],
    decreases b.len(),
{
    lemma_fields_nonempty(b, sep);
    if !a.contains(sep) {
        let none = Seq::<char>::empty();
        lemma_fields_extend(none, a, sep);
        assert(none + a =~= a);
        assert(fields(none, sep) =~= seq![none]);
        assert(fields(a, sep) =~= seq![a]);
    }
    if b.len() == 0 {
        lemma_fields_separator(a, sep);
        assert(a.push(sep) + b =~= a.push(sep));
        assert(fields(b, sep) =~= seq![Seq::<char>::empty()]);
        assert(fields(a, sep) + fields(b, sep) =~= fields(a, sep).push(Seq::empty()));
    } else {
        fields_stand_between_separators(a, b.drop_last(), sep);
        lemma_fields_nonempty(b.drop_last(), sep);
        let whole = a.push(sep) + b;
        assert(whole.drop_last() =~= a.push(sep) + b.drop_last());
        assert(whole.last() == b.last());
        let f = fields(a, sep);
        let g = fields(b.drop_last(), sep);
        assert(fields(whole.drop_last(), sep) == f + g);
        assert((f + g).last() == g.last());
        assert(fields(whole, sep) =~= f + fields(b, sep));
    }
}

proof fn lemma_words_nonempty(s: Seq<char>)
    requires
        s.len() > 0,
        !is_white_space(s.last()),
    ensures
        words_of(s).len() > 0,
    decreases s.len(),
{
    if s.len() > 1 && !is_white_space(s[s.len() - 2]) {
        lemma_words_nonempty(s.drop_last());
    }
}

/// Words are what stands between white space: a white space character parts the words
/// before it from those after it, and a text without any is one word.
#[verifier::rlimit(40)]
pub proof fn words_stand_between_white_space(a: Seq<char>, c: char, b: Seq<char>)
    ensures
        is_white_space(c) ==> words_of(a.push(c) + b) == words_of(a) + words_of(b),
        a.len() > 0 && (forall|i: int| 0 <= i < a.len() ==> !is_white_space(#[trigger] a[i]))
            ==> words_of(a) == seq![a],
        words_of(Seq::empty()) == Seq::<Seq<char>>::empty(),
    decreases a.len() + b.len(),
{
    if a.len() > 0 && (forall|i: int| 0 <= i < a.len() ==> !is_white_space(#[trigger] a[i])) {
        if a.len() == 1 {
            assert(a.drop_last() =~= Seq::empty());
            assert(!is_white_space(a[0]));
            assert(words_of(a.drop_last()) =~= Seq::empty());
            assert(seq![a.last()] =~= a);
            assert(words_of(a) =~= seq![a]);
        } else {
            let front = a.drop_last();
            assert forall|i: int| 0 <= i < front.len() implies !is_white_space(
                #[trigger] front[i],
            ) by {
                assert(front[i] == a[i]);
            }
            words_stand_between_white_space(front, c, Seq::empty());
            assert(!is_white_space(a[a.len() - 1]));
            assert(!is_white_space(a[a.len() - 2]));
            assert(front.push(a.last()) =~= a);
            assert(words_of(a) =~= seq![a]);
        }
    }
    if is_white_space(c) {
        let whole = a.push(c) + b;
        if b.len() == 0 {
            assert(whole =~= a.push(c));
            assert(whole.drop_last() =~= a);
            assert(words_of(a) + words_of(b) =~= words_of(a));
        } else {
            words_stand_between_white_space(a, c, b.drop_last());
            assert(whole.drop_last() =~= a.push(c) + b.drop_last());
            assert(whole.last() == b.last());
            let f = words_of(a);
            let g = words_of(b.drop_last());
            if b.len() == 1 {
                assert(whole[whole.len() - 2] == c);
                assert(g =~= Seq::empty());
            } else {
                assert(whole[whole.len() - 2] == b[b.len() - 2]);
                if !is_white_space(b.last()) && !is_white_space(b[b.len() - 2]) {
                    lemma_words_nonempty(b.drop_last());
                }
            }
            assert(words_of(whole) =~= f + words_of(b));
        }
    }
}

/// What follows a prefix is the rest of the text, and a text that does not begin with
/// the prefix has none.
pub proof fn prefix_and_rest_make_the_text(s: Seq<char>, prefix: Seq<char>, rest: Seq<char>)
    ensures
        after(s, prefix) == Some(rest) <==> s == prefix + rest,
{
    if after(s, prefix) == Some(rest) {
        assert(s =~= prefix + rest);
    }
    if s == prefix + rest {
        assert(s.subrange(0, prefix.len() as int) =~= prefix);
        assert(s.skip(prefix.len() as int) =~= rest);
    }
}

/// Replacing leaves a text alone in which the pattern does not occur, and otherwise
/// goes on behind the first place where it does.
#[verifier::rlimit(40)]
pub proof fn replacing_goes_from_left_to_right(
    s: Seq<char>,
    pattern: Seq<char>,
    with: Seq<char>,
    at: int,
)
    requires
        pattern.len() > 0,
        0 <= at <= s.len(),
        forall|i: int| 0 <= i < at ==> !pattern.is_prefix_of(#[trigger] s.skip(i)),
        at < s.len() ==> pattern.is_prefix_of(s.skip(at)),
    ensures
        at == s.len() ==> replace_all(s, pattern, with) == s,
        at < s.len() ==> replace_all(s, pattern, with) == s.take(at) + with + replace_all(
            s.skip(at + pattern.len()),
            pattern,
            with,
        ),
    decreases at,
{
    if at == 0 {
        assert(s.skip(0) =~= s);
        if s.len() > 0 {
            assert(replace_all(s, pattern, with) =~= s.take(0) + with + replace_all(
                s.skip(pattern.len() as int),
                pattern,
                with,
            ));
        }
    } else {
        let t = s.skip(1);
        assert(s.skip(0) =~= s);
        assert(!pattern.is_prefix_of(s.skip(0)));
        assert forall|i: int| 0 <= i < at - 1 implies !pattern.is_prefix_of(
            #[trigger] t.skip(i),
        ) by {
            assert(t.skip(i) =~= s.skip(i + 1));
        }
        assert(t.skip(at - 1) =~= s.skip(at));
        replacing_goes_from_left_to_right(t, pattern, with, at - 1);
        if at == s.len() {
            assert(seq![s[0]] + t =~= s);
        } else {
            assert(t.skip(at - 1 + pattern.len()) =~= s.skip(at + pattern.len()));
            assert(seq![s[0]] + t.take(at - 1) =~= s.take(at));
            let rest = replace_all(s.skip(at + pattern.len()), pattern, with);
            assert(seq![s[0]] + (t.take(at - 1) + with + rest) =~= s.take(at) + with + rest);
        }
    }
}

/// Joined texts stand one behind the other, with the separator in between.
pub proof fn joining_keeps_the_order(a: Seq<Seq<char>>, b: Seq<Seq<char>>, sep: Seq<char>)
    ensures
        joined(Seq::empty(), sep) == Seq::<char>::empty(),
        a.len() == 1 ==> joined(a, sep) == a[0],
        a.len() > 0 && b.len() > 0 ==> joined(a + b, sep) == joined(a, sep) + sep + joined(b, sep),
    decreases b.len(),
{
    if a.len() > 0 && b.len() > 0 {
        assert((a + b).drop_last() =~= a + b.drop_last());
        if b.len() == 1 {
            assert(a + b.drop_last() =~= a);
            assert((a + b).last() == b[0]);
        } else {
            joining_keeps_the_order(a, b.drop_last(), sep);
            assert((a + b).last() == b.last());
            assert(joined(a + b, sep) =~= joined(a, sep) + sep + joined(b, sep));
        }
    }
}

/// Zeros in front of a number do not count, and a minus in front of digits makes the
/// number negative.
pub proof fn zeros_and_minus_in_front(s: Seq<char>, n: int)
    requires
        i64_in(s) == Some(n as i64),
        i64::MIN < n <= i64::MAX,
        '0' <= s[0] <= '9',
    ensures
        i64_in(seq!['0'] + s) == Some(n as i64),
        i64_in(seq!['-'] + s) == Some((-n) as i64),
        i32_in(seq!['0'] + s) == i32_in(s),
        -n >= i32::MIN && n <= i32::MAX ==> i32_in(seq!['-'] + s) == Some((-n) as i32),
        usize_in(seq!['0'] + s) == usize_in(s),
{
    let zero = seq!['0'] + s;
    let minus = seq!['-'] + s;
    assert(minus.skip(1) =~= s);
    lemma_zero_in_front(s);
    assert forall|i: int| 0 <= i < zero.len() implies is_digit(#[trigger] zero[i]) by {
        if i > 0 {
            assert(zero[i] == s[i - 1]);
            assert(is_digit(s[i - 1]));
        }
    }
}

proof fn lemma_zero_in_front(s: Seq<char>)
    ensures
        digits_value(seq!['0'] + s) == digits_value(s),
    decreases s.len(),
{
    let zero = seq!['0'] + s;
    if s.len() == 0 {
        assert(zero.drop_last() =~= Seq::<char>::empty());
        assert(digits_value(zero.drop_last()) == 0);
    } else {
        lemma_zero_in_front(s.drop_last());
        assert(zero.drop_last() =~= seq!['0'] + s.drop_last());
        assert(zero.last() == s.last());
    }
}

} // verus!
