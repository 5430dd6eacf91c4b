//! Strings as sequences of characters.

use vstd::prelude::*;

verus! {

/// `String::push` appends one character to the end of the string.
pub assume_specification[ String::push ](s: &mut String, c: char)
    ensures
        final(s)@ == old(s)@.push(c),
;

/// The characters of `s`, in order.
pub fn chars_of(s: &str) -> (chars: Vec<char>)
    ensures
        chars@ == s@,
{
    let mut chars: Vec<char> = Vec::new();
    for c in it: s.chars()
        invariant
            it.seq() == s@,
            chars@ == s@.take(it.index() as int),
    {
        chars.push(c);
    }
    assert(s@.take(s@.len() as int) == s@);
    chars
}

/// The string whose characters are `chars[from..to]`.
pub fn string_of(chars: &Vec<char>, from: usize, to: usize) -> (s: String)
    requires
        from <= to <= chars@.len(),
    ensures
        s@ == chars@.subrange(from as int, to as int),
{
    let mut s: String = String::new();
    let mut i: usize = from;
    while i < to
        invariant
            from <= i <= to <= chars@.len(),
            s@ == chars@.subrange(from as int, i as int),
        decreases to - i,
    {
        s.push(chars[i]);
        i = i + 1;
        assert(chars@.subrange(from as int, i as int) == chars@.subrange(from as int, i - 1).push(
            chars@[i - 1],
        ));
    }
    s
}

/// Whether two character vectors hold the same characters.
pub fn same_chars(a: &Vec<char>, b: &Vec<char>) -> (same: bool)
    ensures
        same == (a@ == b@),
{
    if a.len() != b.len() {
        return false;
    }
    let mut i: usize = 0;
    while i < a.len()
        invariant
            i <= a@.len() == b@.len(),
            a@.take(i as int) == b@.take(i as int),
        decreases a@.len() - i,
    {
        if a[i] != b[i] {
            assert(a@[i as int] != b@[i as int]);
            return false;
        }
        assert(a@.take(i + 1) == a@.take(i as int).push(a@[i as int]));
        assert(b@.take(i + 1) == b@.take(i as int).push(b@[i as int]));
        i = i + 1;
    }
    assert(a@.take(a@.len() as int) == a@);
    assert(b@.take(b@.len() as int) == b@);
    true
}

/// Whether `a` and `b` hold the same characters.
pub fn same_text(a: &str, b: &str) -> (same: bool)
    ensures
        same == (a@ == b@),
{
    same_chars(&chars_of(a), &chars_of(b))
}

/// `s` begins with `prefix`.
pub open spec fn begins(s: Seq<char>, prefix: Seq<char>) -> bool {
    prefix.len() <= s.len() && s.take(prefix.len() as int) == prefix
}

/// Whether `chars[from..]` begins with `prefix`.
pub fn begins_at(chars: &Vec<char>, from: usize, prefix: &str) -> (r: bool)
    requires
        from <= chars@.len(),
    ensures
        r == begins(chars@.skip(from as int), prefix@),
{
    let wanted: Vec<char> = chars_of(prefix);
    let ghost rest = chars@.skip(from as int);
    let total: usize = chars.len();
    if wanted.len() > total - from {
        return false;
    }
    let mut i: usize = 0;
    while i < wanted.len()
        invariant
            i <= wanted@.len() <= rest.len(),
            from <= total == chars@.len(),
            rest == chars@.skip(from as int),
            wanted@ == prefix@,
            rest.take(i as int) == wanted@.take(i as int),
        decreases wanted@.len() - i,
    {
        if chars[from + i] != wanted[i] {
            proof {
                if rest.take(wanted@.len() as int) == wanted@ {
                    assert(rest.take(wanted@.len() as int)[i as int] == wanted@[i as int]);
                }
            }
            return false;
        }
        assert(rest.take(i + 1) == rest.take(i as int).push(rest[i as int]));
        assert(wanted@.take(i + 1) == wanted@.take(i as int).push(wanted@[i as int]));
        i = i + 1;
    }
    assert(wanted@.take(wanted@.len() as int) == wanted@);
    true
}

/// Whether `s` begins with `prefix`.
pub fn starts_with(s: &str, prefix: &str) -> (r: bool)
    ensures
        r == begins(s@, prefix@),
{
    let chars: Vec<char> = chars_of(s);
    assert(chars@.skip(0) == s@);
    begins_at(&chars, 0, prefix)
}

/// A set of characters.
#[derive(Clone, Copy, Debug, PartialEq, Eq, Structural)]
pub enum CharSet {
    /// The characters that Unicode calls white space.
    Whitespace,
    /// One character alone.
    Only(char),
}

/// The characters with the Unicode property `White_Space`.
pub open spec fn is_whitespace(c: char) -> bool {
    let n = c as u32;
    ||| 9 <= n <= 13
    ||| n == 0x20
    ||| n == 0x85
    ||| n == 0xa0
    ||| n == 0x1680
    ||| 0x2000 <= n <= 0x200a
    ||| n == 0x2028
    ||| n == 0x2029
    ||| n == 0x202f
    ||| n == 0x205f
    ||| n == 0x3000
}

impl CharSet {
    pub open spec fn has_char(self, c: char) -> bool {
        match self {
            CharSet::Whitespace => is_whitespace(c),
            CharSet::Only(d) => c == d,
        }
    }

    /// Whether `c` is in the set.
    pub fn contains(self, c: char) -> (r: bool)
        ensures
            r == self.has_char(c),
    {
        match self {
            CharSet::Whitespace => {
                let n: u32 = c as u32;
                (9 <= n && n <= 13) || n == 0x20 || n == 0x85 || n == 0xa0 || n == 0x1680 || (0x2000
                    <= n && n <= 0x200a) || n == 0x2028 || n == 0x2029 || n == 0x202f || n == 0x205f
                    || n == 0x3000
            },
            CharSet::Only(d) => c == d,
        }
    }
}

/// `s` without the longest run of characters of `set` that it begins with.
pub open spec fn front_dropped(s: Seq<char>, set: CharSet) -> Seq<char>
    decreases s.len(),
{
    if s.len() > 0 && set.has_char(s[0]) {
        front_dropped(s.skip(1), set)
    } else {
        s
    }
}

/// `s` without the longest run of characters of `set` that it ends with.
pub open spec fn back_dropped(s: Seq<char>, set: CharSet) -> Seq<char>
    decreases s.len(),
{
    if s.len() > 0 && set.has_char(s.last()) {
        back_dropped(s.drop_last(), set)
    } else {
        s
    }
}

/// `s` without white space at either end.
pub open spec fn trimmed(s: Seq<char>) -> Seq<char> {
    back_dropped(front_dropped(s, CharSet::Whitespace), CharSet::Whitespace)
}

/// What is left after the front was dropped does not begin with a character of the set.
proof fn lemma_front_dropped(s: Seq<char>, set: CharSet)
    ensures
        front_dropped(s, set).len() > 0 ==> !set.has_char(front_dropped(s, set)[0]),
    decreases s.len(),
{
    if s.len() > 0 && set.has_char(s[0]) {
        lemma_front_dropped(s.skip(1), set);
    }
}

/// What is left after the back was dropped does not end in a character of the set, and begins
/// as before.
proof fn lemma_back_dropped(s: Seq<char>, set: CharSet)
    ensures
        back_dropped(s, set).len() > 0 ==> !set.has_char(back_dropped(s, set).last()),
        back_dropped(s, set).len() > 0 ==> back_dropped(s, set)[0] == s[0],
    decreases s.len(),
{
    if s.len() > 0 && set.has_char(s.last()) {
        lemma_back_dropped(s.drop_last(), set);
    }
}

/// A trimmed text has no white space at either end, and trimming it again changes nothing.
pub proof fn law_trimmed_ends(s: Seq<char>)
    ensures
        trimmed(s).len() > 0 ==> !is_whitespace(trimmed(s)[0]) && !is_whitespace(
            trimmed(s).last(),
        ),
        trimmed(trimmed(s)) == trimmed(s),
{
    lemma_front_dropped(s, CharSet::Whitespace);
    lemma_back_dropped(front_dropped(s, CharSet::Whitespace), CharSet::Whitespace);
}

/// The characters `chars[from..to]`.
pub fn slice(chars: &Vec<char>, from: usize, to: usize) -> (part: Vec<char>)
    requires
        from <= to <= chars@.len(),
    ensures
        part@ == chars@.subrange(from as int, to as int),
{
    let mut part: Vec<char> = Vec::new();
    let mut i: usize = from;
    while i < to
        invariant
            from <= i <= to <= chars@.len(),
            part@ == chars@.subrange(from as int, i as int),
        decreases to - i,
    {
        part.push(chars[i]);
        i = i + 1;
    }
    part
}

/// Drops the longest run of characters of `set` at the front.
pub fn drop_front(chars: &Vec<char>, set: CharSet) -> (rest: Vec<char>)
    ensures
        rest@ == front_dropped(chars@, set),
{
    let mut i: usize = 0;
    assert(chars@.skip(0) == chars@);
    while i < chars.len() && set.contains(chars[i])
        invariant
            i <= chars@.len(),
            front_dropped(chars@, set) == front_dropped(chars@.skip(i as int), set),
        decreases chars@.len() - i,
    {
        assert(chars@.skip(i as int).skip(1) == chars@.skip(i + 1));
        i = i + 1;
    }
    assert(chars@.skip(i as int) == chars@.subrange(i as int, chars@.len() as int));
    slice(chars, i, chars.len())
}

/// Drops the longest run of characters of `set` at the back.
pub fn drop_back(chars: &Vec<char>, set: CharSet) -> (rest: Vec<char>)
    ensures
        rest@ == back_dropped(chars@, set),
{
    let mut i: usize = chars.len();
    assert(chars@.take(chars@.len() as int) == chars@);
    while i > 0 && set.contains(chars[i - 1])
        invariant
            i <= chars@.len(),
            back_dropped(chars@, set) == back_dropped(chars@.take(i as int), set),
        decreases i,
    {
        assert(chars@.take(i as int).drop_last() == chars@.take(i - 1));
        i = i - 1;
    }
    assert(chars@.take(i as int) == chars@.subrange(0, i as int));
    slice(chars, 0, i)
}

/// Drops the white space at either end.
pub fn trim(chars: &Vec<char>) -> (rest: Vec<char>)
    ensures
        rest@ == trimmed(chars@),
{
    drop_back(&drop_front(chars, CharSet::Whitespace), CharSet::Whitespace)
}

/// Where `c` first stands in `s`, if it does.
pub open spec fn first_position(s: Seq<char>, c: char) -> Option<int>
    decreases s.len(),
{
    if s.len() == 0 {
        None
    } else if s[0] == c {
        Some(0)
    } else {
        match first_position(s.skip(1), c) {
            Some(i) => Some(i + 1),
            None => None,
        }
    }
}

/// Where a character stands first: it stands there, and nowhere before.
pub proof fn law_first_position(s: Seq<char>, c: char)
    ensures
        (match first_position(s, c) {
            Some(i) => 0 <= i < s.len() && s[i] == c && !s.take(i).contains(c),
            None => !s.contains(c),
        }),
    decreases s.len(),
{
    if s.len() > 0 && s[0] != c {
        law_first_position(s.skip(1), c);
        match first_position(s.skip(1), c) {
            Some(i) => {
                assert forall|j: int| 0 <= j < i + 1 implies #[trigger] s[j] != c by {
                    if j > 0 {
                        assert(s.skip(1).take(i)[j - 1] == s[j]);
                    }
                }
            },
            None => {
                assert forall|j: int| 0 <= j < s.len() implies s[j] != c by {
                    if j > 0 {
                        assert(s.skip(1)[j - 1] == s[j]);
                    }
                }
            },
        }
    }
}

/// Where `c` first stands in `chars`.
pub fn position(chars: &Vec<char>, c: char) -> (found: Option<usize>)
    ensures
        (match found {
            Some(i) => first_position(chars@, c) == Some(i as int) && i < chars@.len(),
            None => first_position(chars@, c) is None,
        }),
{
    let mut i: usize = 0;
    assert(chars@.skip(0) == chars@);
    while i < chars.len()
        invariant
            i <= chars@.len(),
            first_position(chars@, c) == (match first_position(chars@.skip(i as int), c) {
                Some(j) => Some(j + i),
                None => None::<int>,
            }),
        decreases chars@.len() - i,
    {
        if chars[i] == c {
            return Some(i);
        }
        assert(chars@.skip(i as int).skip(1) == chars@.skip(i + 1));
        i = i + 1;
    }
    None
}

/// The decimal digits.
pub open spec fn digits() -> Seq<char> {
    seq!['0', '1', '2', '3', '4', '5', '6', '7', '8', '9']
}

/// `n` in decimal.
pub open spec fn decimal(n: nat) -> Seq<char>
    decreases n,
{
    if n < 10 {
        seq![digits()[n as int]]
    } else {
        decimal(n / 10).push(digits()[(n % 10) as int])
    }
}

/// `n` in decimal.
pub fn decimal_text(n: u64) -> (s: String)
    ensures
        s@ == decimal(n as nat),
    decreases n,
{
    let digit: char = match n % 10 {
        0 => '0',
        1 => '1',
        2 => '2',
        3 => '3',
        4 => '4',
        5 => '5',
        6 => '6',
        7 => '7',
        8 => '8',
        _ => '9',
    };
    let mut s: String = if n < 10 {
        String::new()
    } else {
        decimal_text(n / 10)
    };
    s.push(digit);
    s
}

/// `s` with spaces behind it up to `width` characters.
pub open spec fn padded(s: Seq<char>, width: nat) -> Seq<char> {
    if s.len() >= width {
        s
    } else {
        s + Seq::new((width - s.len()) as nat, |i: int| ' ')
    }
}

/// `s` with spaces behind it up to `width` characters.
pub fn pad(s: &str, width: usize) -> (r: String)
    ensures
        r@ == padded(s@, width as nat),
{
    let mut count: usize = chars_of(s).len();
    let mut r: String = s.to_owned();
    while count < width
        invariant
            s@.len() <= count,
            count <= width || count == s@.len(),
            r@ == s@ + Seq::new((count - s@.len()) as nat, |i: int| ' '),
        decreases width - count,
    {
        r.push(' ');
        count = count + 1;
    }
    r
}

/// Whether `c` stands in `s`.
pub fn contains_char(s: &str, c: char) -> (r: bool)
    ensures
        r == s@.contains(c),
{
    proof {
        law_first_position(s@, c);
    }
    position(&chars_of(s), c).is_some()
}

/// `s` as a string.
pub fn whole(chars: &Vec<char>) -> (s: String)
    ensures
        s@ == chars@,
{
    assert(chars@.subrange(0, chars@.len() as int) == chars@);
    string_of(chars, 0, chars.len())
}

/// Whether `chars` spell `text`.
pub fn spells(chars: &Vec<char>, text: &str) -> (r: bool)
    ensures
        r == (chars@ == text@),
{
    same_chars(chars, &chars_of(text))
}

/// What follows `prefix` in `chars`, where they begin with it.
pub fn strip_prefix(chars: &Vec<char>, prefix: &str) -> (rest: Option<Vec<char>>)
    ensures
        (match rest {
            Some(r) => begins(chars@, prefix@) && r@ == chars@.skip(prefix@.len() as int),
            None => !begins(chars@, prefix@),
        }),
{
    assert(chars@.skip(0) == chars@);
    if begins_at(chars, 0, prefix) {
        let n: usize = chars_of(prefix).len();
        assert(chars@.skip(n as int) == chars@.subrange(n as int, chars@.len() as int));
        Some(slice(chars, n, chars.len()))
    } else {
        None
    }
}

/// A text begins with a prefix exactly where it is the prefix and something behind it.
pub proof fn law_begins_with_what_stands_in_front(
    s: Seq<char>,
    prefix: Seq<char>,
    rest: Seq<char>,
)
    ensures
        begins(prefix + rest, prefix),
        begins(s, prefix) ==> s == prefix + s.skip(prefix.len() as int),
        begins(s, prefix) ==> prefix.len() <= s.len(),
{
    assert((prefix + rest).take(prefix.len() as int) =~= prefix);
    if begins(s, prefix) {
        assert(s =~= s.take(prefix.len() as int) + s.skip(prefix.len() as int));
    }
}

/// One character's set has that character and no other.
pub proof fn law_a_single_character_set(c: char, d: char)
    ensures
        CharSet::Only(d).has_char(c) <==> c == d,
        CharSet::Whitespace.has_char(c) <==> is_whitespace(c),
{
}

/// Every character of `s` is in the set.
pub open spec fn all_in(s: Seq<char>, set: CharSet) -> bool {
    forall|i: int| 0 <= i < s.len() ==> set.has_char(#[trigger] s[i])
}

/// What is dropped from the front are characters of the set, as many as there are: whatever
/// stands behind them is kept whole.
pub proof fn law_front_dropped_keeps_the_rest(run: Seq<char>, rest: Seq<char>, set: CharSet)
    requires
        all_in(run, set),
        rest.len() > 0 ==> !set.has_char(rest[0]),
    ensures
        front_dropped(run + rest, set) == rest,
    decreases run.len(),
{
    if run.len() == 0 {
        assert(run + rest =~= rest);
    } else {
        let s = run + rest;
        assert(s[0] == run[0]);
        assert(s.skip(1) =~= run.skip(1) + rest);
        assert forall|i: int| 0 <= i < run.skip(1).len() implies set.has_char(
            #[trigger] run.skip(1)[i],
        ) by {
            assert(set.has_char(run[i + 1]));
        }
        law_front_dropped_keeps_the_rest(run.skip(1), rest, set);
    }
}

/// What is dropped from the back are characters of the set, as many as there are: whatever
/// stands before them is kept whole.
pub proof fn law_back_dropped_keeps_the_rest(rest: Seq<char>, run: Seq<char>, set: CharSet)
    requires
        all_in(run, set),
        rest.len() > 0 ==> !set.has_char(rest.last()),
    ensures
        back_dropped(rest + run, set) == rest,
    decreases run.len(),
{
    if run.len() == 0 {
        assert(rest + run =~= rest);
    } else {
        let s = rest + run;
        assert(s.last() == run.last());
        assert(set.has_char(run[run.len() - 1]));
        assert(s.drop_last() =~= rest + run.drop_last());
        assert forall|i: int| 0 <= i < run.drop_last().len() implies set.has_char(
            #[trigger] run.drop_last()[i],
        ) by {
            assert(set.has_char(run[i]));
        }
        law_back_dropped_keeps_the_rest(rest, run.drop_last(), set);
    }
}

/// Trimming takes off white space at either end and nothing else: whatever stands between is
/// kept whole.
pub proof fn law_trimmed_keeps_the_middle(front: Seq<char>, middle: Seq<char>, back: Seq<char>)
    requires
        forall|i: int| 0 <= i < front.len() ==> is_whitespace(#[trigger] front[i]),
        forall|i: int| 0 <= i < back.len() ==> is_whitespace(#[trigger] back[i]),
        middle.len() > 0 ==> !is_whitespace(middle[0]) && !is_whitespace(middle.last()),
    ensures
        trimmed(front + middle + back) == middle,
{
    let set = CharSet::Whitespace;
    if middle.len() == 0 {
        let all = front + back;
        assert(front + middle + back =~= all + Seq::<char>::empty());
        assert forall|i: int| 0 <= i < all.len() implies set.has_char(#[trigger] all[i]) by {
            if i < front.len() {
                assert(is_whitespace(front[i]));
            } else {
                assert(is_whitespace(back[i - front.len()]));
            }
        }
        law_front_dropped_keeps_the_rest(all, Seq::empty(), set);
        assert(middle =~= Seq::empty());
    } else {
        assert forall|i: int| 0 <= i < front.len() implies set.has_char(#[trigger] front[i]) by {}
        assert forall|i: int| 0 <= i < back.len() implies set.has_char(#[trigger] back[i]) by {}
        assert(front + middle + back =~= front + (middle + back));
        law_front_dropped_keeps_the_rest(front, middle + back, set);
        law_back_dropped_keeps_the_rest(middle, back, set);
    }
}

/// The number that decimal digits stand for.
pub open spec fn digits_value(s: Seq<char>) -> int
    decreases s.len(),
{
    if s.len() == 0 {
        0
    } else {
        10 * digits_value(s.drop_last()) + (s.last() as int - '0' as int)
    }
}

/// A number's decimal text is made of digits, stands for that number, and has no zero in front
/// unless the number is zero.
pub proof fn law_decimal_stands_for_the_number(n: nat)
    ensures
        digits_value(decimal(n)) == n,
        decimal(n).len() > 0,
        forall|i: int| 0 <= i < decimal(n).len() ==> '0' <= #[trigger] decimal(n)[i] <= '9',
        n > 0 ==> decimal(n)[0] != '0',
        n == 0 ==> decimal(n).len() == 1,
    decreases n,
{
    let last = digits()[(n % 10) as int];
    assert(last as int - '0' as int == n % 10);
    if n >= 10 {
        law_decimal_stands_for_the_number(n / 10);
        assert(decimal(n).drop_last() =~= decimal(n / 10));
        assert forall|i: int| 0 <= i < decimal(n).len() implies '0' <= #[trigger] decimal(n)[i]
            <= '9' by {
            if i < decimal(n / 10).len() {
                assert(decimal(n)[i] == decimal(n / 10)[i]);
            }
        }
        assert(decimal(n)[0] == decimal(n / 10)[0]);
    } else {
        assert(decimal(n).drop_last() =~= Seq::empty());
        assert(digits_value(Seq::<char>::empty()) == 0);
        assert(n % 10 == n);
    }
}

/// A padded text is the text and spaces behind it, just as many as it takes.
pub proof fn law_padded_is_the_text_and_spaces(s: Seq<char>, width: nat)
    ensures
        padded(s, width).len() == (if s.len() < width {
            width
        } else {
            s.len()
        }),
        begins(padded(s, width), s),
        forall|i: int| s.len() <= i < padded(s, width).len() ==> #[trigger] padded(s, width)[i] == ' ',
{
    assert(padded(s, width).take(s.len() as int) =~= s);
}

/// White space is the tab, the line feed, the vertical tab, the form feed, the carriage return,
/// the space, the next line, the no-break space, the Ogham space mark, the spaces of general
/// punctuation, the line and paragraph separators and the ideographic space: these and no other
/// character.
pub proof fn law_white_space_is_these_characters(c: char)
    ensures
        is_whitespace(c) <==> seq![
            '\t',
            '\n',
            '\u{b}',
            '\u{c}',
            '\r',
            ' ',
            '\u{85}',
            '\u{a0}',
            '\u{1680}',
            '\u{2000}',
            '\u{2001}',
            '\u{2002}',
            '\u{2003}',
            '\u{2004}',
            '\u{2005}',
            '\u{2006}',
            '\u{2007}',
            '\u{2008}',
            '\u{2009}',
            '\u{200a}',
            '\u{2028}',
            '\u{2029}',
            '\u{202f}',
            '\u{205f}',
            '\u{3000}',
        ].contains(c),
{
    let spaces = seq![
        '\t',
        '\n',
        '\u{b}',
        '\u{c}',
        '\r',
        ' ',
        '\u{85}',
        '\u{a0}',
        '\u{1680}',
        '\u{2000}',
        '\u{2001}',
        '\u{2002}',
        '\u{2003}',
        '\u{2004}',
        '\u{2005}',
        '\u{2006}',
        '\u{2007}',
        '\u{2008}',
        '\u{2009}',
        '\u{200a}',
        '\u{2028}',
        '\u{2029}',
        '\u{202f}',
        '\u{205f}',
        '\u{3000}',
    ];
    assert(spaces.len() == 25);
    if is_whitespace(c) {
        let n = c as u32;
        let i: int = if n <= 13 {
            n - 9
        } else if n == 0x20 {
            5
        } else if n == 0x85 {
            6
        } else if n == 0xa0 {
            7
        } else if n == 0x1680 {
            8
        } else if n <= 0x200a {
            9 + (n - 0x2000)
        } else if n == 0x2028 {
            20
        } else if n == 0x2029 {
            21
        } else if n == 0x202f {
            22
        } else if n == 0x205f {
            23
        } else {
            24
        };
        assert(spaces[i] == c);
    } else if spaces.contains(c) {
        let i = choose|i: int| 0 <= i < spaces.len() && spaces[i] == c;
        assert(is_whitespace(spaces[i]));
    }
}

/// White space before or behind a text is lost when it is trimmed, whatever the text.
pub proof fn law_white_space_around_is_lost(s: Seq<char>, c: char)
    requires
        is_whitespace(c),
    ensures
        trimmed(seq![c] + s) == trimmed(s),
        trimmed(s.push(c)) == trimmed(s),
    decreases s.len(),
{
    let set = CharSet::Whitespace;
    assert((seq![c] + s).skip(1) =~= s);
    assert((seq![c] + s)[0] == c);
    let t = s.push(c);
    if s.len() == 0 {
        assert(t.skip(1) =~= s);
        assert(front_dropped(t, set) == front_dropped(s, set));
    } else {
        assert(t[0] == s[0]);
        assert(t.skip(1) =~= s.skip(1).push(c));
        if set.has_char(s[0]) {
            law_white_space_around_is_lost(s.skip(1), c);
            assert(front_dropped(t, set) == front_dropped(t.skip(1), set));
        } else {
            assert(t.drop_last() =~= s);
            assert(t.last() == c);
        }
    }
}

/// Behind a text with no white space at its ends, trimming takes off what is dropped from the
/// back of the rest; and trimming that gives what trimming the rest gives.
pub proof fn law_trimmed_behind_a_word(head: Seq<char>, rest: Seq<char>)
    requires
        head.len() > 0,
        !is_whitespace(head[0]),
        !is_whitespace(head.last()),
    ensures
        begins(trimmed(head + rest), head),
        trimmed(trimmed(head + rest).skip(head.len() as int)) == trimmed(rest),
    decreases rest.len(),
{
    let s = head + rest;
    assert(s[0] == head[0]);
    if rest.len() == 0 {
        assert(s =~= head);
        assert(trimmed(s) == head);
        assert(head.take(head.len() as int) =~= head);
        assert(head.skip(head.len() as int) =~= rest);
    } else if is_whitespace(rest.last()) {
        let less = rest.drop_last();
        assert(less.push(rest.last()) =~= rest);
        assert((head + less).push(rest.last()) =~= s);
        law_white_space_around_is_lost(head + less, rest.last());
        law_white_space_around_is_lost(less, rest.last());
        law_trimmed_behind_a_word(head, less);
    } else {
        assert(s.last() == rest.last());
        assert(trimmed(s) == s);
        assert(s.take(head.len() as int) =~= head);
        assert(s.skip(head.len() as int) =~= rest);
    }
}

} // verus!
