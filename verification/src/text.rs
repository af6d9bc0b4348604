use vstd::prelude::*;

verus! {

/// The character sequences that a list of strings holds.
pub open spec fn strings_view(v: Seq<String>) -> Seq<Seq<char>> {
    v.map_values(|s: String| s@)
}

/// Whether `list` holds a string equal to `s`.
pub fn contains_string(list: &Vec<String>, s: &String) -> (found: bool)
    ensures
        found == strings_view(list@).contains(s@),
{
    let n = list.len();
    for i in 0..n
        invariant
            n == list@.len(),
            forall|j: int| 0 <= j < i ==> list@[j]@ != s@,
    {
        if list[i] == *s {
            assert(strings_view(list@)[i as int] == s@);
            return true;
        }
    }
    proof {
        if strings_view(list@).contains(s@) {
            let j = choose|j: int| 0 <= j < strings_view(list@).len() && strings_view(list@)[j] == s@;
            assert(list@[j]@ == s@);
        }
    }
    false
}

/// The character sequences that an optional list of strings holds.
pub open spec fn opt_strings_view(v: Option<Vec<String>>) -> Option<Seq<Seq<char>>> {
    match v {
        Some(list) => Some(strings_view(list@)),
        None => None,
    }
}

/// The character sequence that an optional string holds.
pub open spec fn opt_string_view(v: Option<String>) -> Option<Seq<char>> {
    match v {
        Some(s) => Some(s@),
        None => None,
    }
}

/// A copy of a list of strings.
pub(crate) fn copy_strings(list: &Vec<String>) -> (copy: Vec<String>)
    ensures
        strings_view(copy@) == strings_view(list@),
{
    let mut copy: Vec<String> = Vec::new();
    let n = list.len();
    for i in 0..n
        invariant
            n == list@.len(),
            strings_view(copy@) == strings_view(list@.take(i as int)),
    {
        let ghost before = copy@;
        copy.push(list[i].clone());
        assert(list@.take(i + 1) == list@.take(i as int).push(list@[i as int]));
        assert(strings_view(copy@) =~= strings_view(before).push(list@[i as int]@));
        assert(strings_view(list@.take(i + 1)) =~= strings_view(list@.take(i as int)).push(
            list@[i as int]@,
        ));
    }
    assert(list@.take(n as int) == list@);
    copy
}

/// A copy of an optional list of strings.
pub(crate) fn copy_opt_strings(list: &Option<Vec<String>>) -> (copy: Option<Vec<String>>)
    ensures
        opt_strings_view(copy) == opt_strings_view(*list),
{
    match list {
        Some(l) => Some(copy_strings(l)),
        None => None,
    }
}

/// The decimal digit character for `d` (`d < 10`).
pub open spec fn digit_char(d: nat) -> char {
    if d == 0 { '0' }
    else if d == 1 { '1' }
    else if d == 2 { '2' }
    else if d == 3 { '3' }
    else if d == 4 { '4' }
    else if d == 5 { '5' }
    else if d == 6 { '6' }
    else if d == 7 { '7' }
    else if d == 8 { '8' }
    else { '9' }
}

/// The decimal notation of `n`, most significant digit first, without leading zeros.
pub open spec fn decimal(n: nat) -> Seq<char>
    decreases n,
{
    if n < 10 {
        seq![digit_char(n)]
    } else {
        decimal(n / 10).push(digit_char(n % 10))
    }
}

/// The number that a text of decimal digits stands for.
pub open spec fn digits_value(s: Seq<char>) -> int
    decreases s.len(),
{
    if s.len() == 0 {
        0
    } else {
        digits_value(s.drop_last()) * 10 + (s.last() as int - '0' as int)
    }
}

/// The decimal notation of `n` is made of digits only, does not start with a
/// zero unless it is `0`, and reads back as `n`.
pub proof fn law_decimal_reads_back(n: nat)
    ensures
        decimal(n).len() > 0,
        forall|i: int| 0 <= i < decimal(n).len() ==> '0' <= #[trigger] decimal(n)[i] <= '9',
        decimal(n)[0] == '0' ==> n == 0,
        digits_value(decimal(n)) == n,
    decreases n,
{
    lemma_digit_char_value((n % 10) as nat);
    if n < 10 {
        assert(decimal(n).drop_last() =~= Seq::<char>::empty());
        assert(digits_value(Seq::<char>::empty()) == 0);
        assert(n % 10 == n);
    } else {
        law_decimal_reads_back(n / 10);
        let d = decimal(n);
        assert(d.drop_last() =~= decimal(n / 10));
        assert(d.last() == digit_char((n % 10) as nat));
        assert(digits_value(d) == digits_value(decimal(n / 10)) * 10 + (n % 10));
        assert(d[0] == decimal(n / 10)[0]);
        assert forall|i: int| 0 <= i < d.len() implies '0' <= #[trigger] d[i] <= '9' by {
            if i < d.len() - 1 {
                assert(d[i] == decimal(n / 10)[i]);
            }
        }
    }
}

/// A digit character stands for its digit.
proof fn lemma_digit_char_value(d: nat)
    requires
        d < 10,
    ensures
        digit_char(d) as int - '0' as int == d,
        '0' <= digit_char(d) <= '9',
{
    assert('0' as int == 48 && '1' as int == 49 && '2' as int == 50 && '3' as int == 51);
    assert('4' as int == 52 && '5' as int == 53 && '6' as int == 54 && '7' as int == 55);
    assert('8' as int == 56 && '9' as int == 57);
}

/// Different numbers have different decimal notations.
pub proof fn law_decimal_is_one_to_one(m: nat, n: nat)
    ensures
        decimal(m) == decimal(n) ==> m == n,
{
    law_decimal_reads_back(m);
    law_decimal_reads_back(n);
}

/// The decimal notation of `n`, with zeros in front up to `width` characters.
pub open spec fn zero_padded(n: nat, width: nat) -> Seq<char> {
    let digits = decimal(n);
    if digits.len() < width {
        Seq::new((width - digits.len()) as nat, |i: int| '0') + digits
    } else {
        digits
    }
}

/// The parts one after another, with `sep` between each two.
pub open spec fn joined(parts: Seq<Seq<char>>, sep: Seq<char>) -> Seq<char>
    decreases parts.len(),
{
    if parts.len() == 0 {
        Seq::empty()
    } else if parts.len() == 1 {
        parts[0]
    } else {
        joined(parts.drop_last(), sep) + sep + parts.last()
    }
}

/// One part is joined to itself; two parts get the separator between them;
/// one more part adds the separator and the part at the end.
pub proof fn law_joined_parts(parts: Seq<Seq<char>>, p: Seq<char>, q: Seq<char>, sep: Seq<char>)
    ensures
        joined(Seq::empty(), sep) == Seq::<char>::empty(),
        joined(seq![p], sep) == p,
        joined(seq![p, q], sep) == p + sep + q,
        parts.len() > 0 ==> joined(parts.push(q), sep) == joined(parts, sep) + sep + q,
{
    assert(seq![p, q].drop_last() =~= seq![p]);
    assert(parts.push(q).drop_last() =~= parts);
}

/// The strings of `parts` one after another, with `sep` between each two.
pub fn join(parts: &Vec<String>, sep: &str) -> (text: String)
    ensures
        text@ == joined(strings_view(parts@), sep@),
{
    let mut text = String::new();
    let n = parts.len();
    for i in 0..n
        invariant
            n == parts@.len(),
            text@ == joined(strings_view(parts@.take(i as int)), sep@),
    {
        let ghost prefix = strings_view(parts@.take(i as int));
        let ghost next = strings_view(parts@.take(i + 1));
        proof {
            assert(next =~= prefix.push(parts@[i as int]@));
            assert(next.drop_last() =~= prefix);
        }
        if i > 0 {
            text.append(sep);
        }
        text.append(parts[i].as_str());
        proof {
            if i == 0 {
                assert(text@ =~= next[0]);
            }
        }
    }
    assert(parts@.take(n as int) =~= parts@);
    text
}

/// The one-character text of a decimal digit.
fn digit_text(d: u64) -> (text: &'static str)
    requires
        d < 10,
    ensures
        text@ == seq![digit_char(d as nat)],
{
    proof {
        reveal_strlit("0");
        reveal_strlit("1");
        reveal_strlit("2");
        reveal_strlit("3");
        reveal_strlit("4");
        reveal_strlit("5");
        reveal_strlit("6");
        reveal_strlit("7");
        reveal_strlit("8");
        reveal_strlit("9");
    }
    if d == 0 {
        "0"
    } else if d == 1 {
        "1"
    } else if d == 2 {
        "2"
    } else if d == 3 {
        "3"
    } else if d == 4 {
        "4"
    } else if d == 5 {
        "5"
    } else if d == 6 {
        "6"
    } else if d == 7 {
        "7"
    } else if d == 8 {
        "8"
    } else {
        "9"
    }
}

/// The decimal notation of `n`.
pub fn decimal_text(n: u64) -> (text: String)
    ensures
        text@ == decimal(n as nat),
    decreases n,
{
    if n < 10 {
        let text = digit_text(n).to_string();
        text
    } else {
        let mut text = decimal_text(n / 10);
        text.append(digit_text(n % 10));
        text
    }
}

/// Whether `c` is a white-space character: the code points that carry the
/// Unicode property `White_Space` (tab, line feed, vertical tab, form feed,
/// carriage return, space, next line, no-break space, ogham space mark, the
/// spaces U+2000 to U+200A, line and paragraph separators, narrow no-break
/// space, medium mathematical space and ideographic space).
pub open spec fn white_space(c: char) -> bool {
    let u = c as int;
    ||| 0x9 <= u <= 0xD
    ||| u == 0x20
    ||| u == 0x85
    ||| u == 0xA0
    ||| u == 0x1680
    ||| 0x2000 <= u <= 0x200A
    ||| u == 0x2028
    ||| u == 0x2029
    ||| u == 0x202F
    ||| u == 0x205F
    ||| u == 0x3000
}

/// `char::is_whitespace`.
///
/// Trusted: std documents the result as whether the character has the
/// Unicode `White_Space` property, whose code points `white_space` lists.
#[verifier::external_body]
pub(crate) fn is_whitespace(c: char) -> (ws: bool)
    ensures
        ws == white_space(c),
{
    c.is_whitespace()
}

/// `s` without the white space at its start and at its end.
pub open spec fn trimmed(s: Seq<char>) -> Seq<char>
    decreases s.len(),
{
    if s.len() > 0 && white_space(s[0]) {
        trimmed(s.drop_first())
    } else if s.len() > 0 && white_space(s.last()) {
        trimmed(s.drop_last())
    } else {
        s
    }
}

/// `trimmed(s)` is the part of `s` between `start` and `end` when all
/// outside it is white space and it neither starts nor ends with white space.
proof fn lemma_trimmed_is_subrange(s: Seq<char>, start: int, end: int)
    requires
        0 <= start <= end <= s.len(),
        forall|i: int| 0 <= i < start ==> white_space(#[trigger] s[i]),
        forall|i: int| end <= i < s.len() ==> white_space(#[trigger] s[i]),
        start < end ==> !white_space(s[start]) && !white_space(s[end - 1]),
    ensures
        trimmed(s) == s.subrange(start, end),
    decreases s.len(),
{
    if s.len() > 0 && white_space(s[0]) {
        let t = s.drop_first();
        if start == 0 {
            assert(end == 0);
            lemma_trimmed_is_subrange(t, 0, 0);
            assert(s.subrange(0, 0) =~= t.subrange(0, 0));
        } else {
            assert forall|i: int| 0 <= i < start - 1 implies white_space(#[trigger] t[i]) by {
                assert(t[i] == s[i + 1]);
            }
            assert forall|i: int| end - 1 <= i < t.len() implies white_space(#[trigger] t[i]) by {
                assert(t[i] == s[i + 1]);
            }
            lemma_trimmed_is_subrange(t, start - 1, end - 1);
            assert(s.subrange(start, end) =~= t.subrange(start - 1, end - 1));
        }
    } else if s.len() > 0 && white_space(s.last()) {
        let t = s.drop_last();
        assert(end < s.len() || start == end) by {
            if end == s.len() && start < end {
                assert(s[end - 1] == s.last());
            }
        }
        if start == end && end == s.len() {
            if start > 0 {
                assert(white_space(s[0]));
            }
            assert(start == 0);
        }
        let e = if end == s.len() { end - 1 } else { end };
        lemma_trimmed_is_subrange(t, start, e);
        assert(s.subrange(start, end) =~= t.subrange(start, e));
    } else {
        if s.len() > 0 {
            assert(start == 0) by {
                if start > 0 {
                    assert(white_space(s[0]));
                }
            }
            assert(end == s.len()) by {
                if end < s.len() {
                    assert(white_space(s[s.len() - 1]));
                }
            }
        }
        assert(s.subrange(start, end) =~= s);
    }
}

/// `s` is white space before `a` and from `b` on, and the part between
/// neither starts nor ends with white space.
pub open spec fn white_space_outside(s: Seq<char>, a: int, b: int) -> bool {
    &&& 0 <= a <= b <= s.len()
    &&& forall|i: int| 0 <= i < a ==> white_space(#[trigger] s[i])
    &&& forall|i: int| b <= i < s.len() ==> white_space(#[trigger] s[i])
    &&& a < b ==> !white_space(s[a]) && !white_space(s[b - 1])
}

/// Bounds for a text that starts with white space, from bounds for the rest.
proof fn lemma_bounds_after_first(s: Seq<char>, a: int, b: int)
    requires
        s.len() > 0,
        white_space(s[0]),
        white_space_outside(s.drop_first(), a, b),
    ensures
        white_space_outside(s, a + 1, b + 1),
        s.drop_first().subrange(a, b) == s.subrange(a + 1, b + 1),
{
    let t = s.drop_first();
    assert(t.subrange(a, b) =~= s.subrange(a + 1, b + 1));
    assert forall|i: int| 0 <= i < a + 1 implies white_space(#[trigger] s[i]) by {
        if i > 0 {
            assert(s[i] == t[i - 1]);
        }
    }
    assert forall|i: int| b + 1 <= i < s.len() implies white_space(#[trigger] s[i]) by {
        assert(s[i] == t[i - 1]);
    }
    if a < b {
        assert(s[a + 1] == t[a] && s[b] == t[b - 1]);
    }
}

/// Bounds for a text that ends with white space, from bounds for the rest.
proof fn lemma_bounds_before_last(s: Seq<char>, a: int, b: int)
    requires
        s.len() > 0,
        white_space(s.last()),
        white_space_outside(s.drop_last(), a, b),
    ensures
        white_space_outside(s, a, b),
        s.drop_last().subrange(a, b) == s.subrange(a, b),
{
    let t = s.drop_last();
    assert(t.subrange(a, b) =~= s.subrange(a, b));
    assert forall|i: int| 0 <= i < a implies white_space(#[trigger] s[i]) by {
        assert(s[i] == t[i]);
    }
    assert forall|i: int| b <= i < s.len() implies white_space(#[trigger] s[i]) by {
        if i < t.len() {
            assert(s[i] == t[i]);
        }
    }
    if a < b {
        assert(s[a] == t[a] && s[b - 1] == t[b - 1]);
    }
}

/// Trimming takes off exactly the white space at both ends: the result is a
/// piece of the text, all that lies outside it is white space, and it
/// neither starts nor ends with white space.
pub proof fn law_trimmed_shape(s: Seq<char>)
    ensures
        exists|a: int, b: int|
            white_space_outside(s, a, b) && #[trigger] s.subrange(a, b) == trimmed(s),
    decreases s.len(),
{
    if s.len() > 0 && white_space(s[0]) {
        let t = s.drop_first();
        law_trimmed_shape(t);
        let (a, b) = choose|a: int, b: int|
            white_space_outside(t, a, b) && #[trigger] t.subrange(a, b) == trimmed(t);
        lemma_bounds_after_first(s, a, b);
        assert(s.subrange(a + 1, b + 1) == trimmed(s));
    } else if s.len() > 0 && white_space(s.last()) {
        let t = s.drop_last();
        law_trimmed_shape(t);
        let (a, b) = choose|a: int, b: int|
            white_space_outside(t, a, b) && #[trigger] t.subrange(a, b) == trimmed(t);
        lemma_bounds_before_last(s, a, b);
        assert(s.subrange(a, b) == trimmed(s));
    } else {
        assert(s.subrange(0, s.len() as int) =~= s);
        if s.len() > 0 {
            assert(s[s.len() - 1] == s.last());
        }
        assert(white_space_outside(s, 0, s.len() as int));
        assert(s.subrange(0, s.len() as int) == trimmed(s));
    }
}

/// White space after the end of a text leaves its trimmed form as it is.
pub proof fn law_trailing_white_space_is_trimmed(s: Seq<char>, c: char)
    requires
        white_space(c),
    ensures
        trimmed(s.push(c)) == trimmed(s),
    decreases s.len(),
{
    let t = s.push(c);
    if s.len() == 0 {
        assert(t.drop_first() =~= s);
    } else if white_space(s[0]) {
        assert(t.drop_first() =~= s.drop_first().push(c));
        law_trailing_white_space_is_trimmed(s.drop_first(), c);
    } else {
        assert(t.drop_last() =~= s);
    }
}

/// `s` without the white space at its start and at its end.
pub fn trim(s: &str) -> (t: String)
    ensures
        t@ == trimmed(s@),
{
    let n = s.unicode_len();
    let mut start: usize = 0;
    while start < n && is_whitespace(s.get_char(start))
        invariant
            n == s@.len(),
            start <= n,
            forall|i: int| 0 <= i < start ==> white_space(#[trigger] s@[i]),
        decreases n - start,
    {
        start = start + 1;
    }
    let mut end: usize = n;
    while end > start && is_whitespace(s.get_char(end - 1))
        invariant
            n == s@.len(),
            start <= end <= n,
            forall|i: int| end <= i < n ==> white_space(#[trigger] s@[i]),
        decreases end,
    {
        end = end - 1;
    }
    proof {
        lemma_trimmed_is_subrange(s@, start as int, end as int);
    }
    s.substring_char(start, end).to_string()
}

} // verus!
