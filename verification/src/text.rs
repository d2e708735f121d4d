//! Text as sequences of characters: trimming, splitting, searching and joining.

use vstd::prelude::*;

verus! {

/// The characters with the Unicode property `White_Space`.
pub open spec fn white_space(c: char) -> bool {
    let code = c as u32;
    ||| 0x9 <= code <= 0xd
    ||| code == 0x20
    ||| code == 0x85
    ||| code == 0xa0
    ||| code == 0x1680
    ||| 0x2000 <= code <= 0x200a
    ||| code == 0x2028
    ||| code == 0x2029
    ||| code == 0x202f
    ||| code == 0x205f
    ||| code == 0x3000
}

/// What may be stripped from the ends of a text.
#[derive(Clone, Copy)]
pub enum CharClass {
    /// Every white-space character.
    WhiteSpace,
    /// One character.
    Only(char),
}

impl CharClass {
    /// Whether `c` belongs to the class.
    pub open spec fn has(self, c: char) -> bool {
        match self {
            CharClass::WhiteSpace => white_space(c),
            CharClass::Only(only) => c == only,
        }
    }

    /// Tells whether `c` belongs to the class.
    pub fn contains(self, c: char) -> (found: bool)
        ensures
            found == self.has(c),
    {
        match self {
            CharClass::WhiteSpace => is_white_space(c),
            CharClass::Only(only) => c == only,
        }
    }
}

/// `s` without its longest prefix of characters of `class`.
pub open spec fn strip_start(s: Seq<char>, class: CharClass) -> Seq<char>
    decreases s.len(),
{
    if s.len() > 0 && class.has(s[0]) {
        strip_start(s.skip(1), class)
    } else {
        s
    }
}

/// `s` without its longest suffix of characters of `class`.
pub open spec fn strip_end(s: Seq<char>, class: CharClass) -> Seq<char>
    decreases s.len(),
{
    if s.len() > 0 && class.has(s.last()) {
        strip_end(s.drop_last(), class)
    } else {
        s
    }
}

/// `s` without the characters of `class` at either end.
pub open spec fn stripped(s: Seq<char>, class: CharClass) -> Seq<char> {
    strip_end(strip_start(s, class), class)
}

/// `s` without white space at either end.
pub open spec fn trimmed(s: Seq<char>) -> Seq<char> {
    stripped(s, CharClass::WhiteSpace)
}

/// `s` without the copies of `prefix` that it starts with, however many there are.
pub open spec fn strip_prefixes(s: Seq<char>, prefix: Seq<char>) -> Seq<char>
    decreases s.len(),
{
    if prefix.len() > 0 && prefix.is_prefix_of(s) {
        strip_prefixes(s.skip(prefix.len() as int), prefix)
    } else {
        s
    }
}

/// What stands before the first `c` in `s`; all of `s` where there is none.
pub open spec fn before_first(s: Seq<char>, c: char) -> Seq<char> {
    match s.index_of_first(c) {
        Some(i) => s.take(i),
        None => s,
    }
}

/// What stands behind the first `c` in `s`, if there is one.
pub open spec fn after_first(s: Seq<char>, c: char) -> Option<Seq<char>> {
    match s.index_of_first(c) {
        Some(i) => Some(s.skip(i + 1)),
        None => None,
    }
}

/// What stands behind the last `c` in `s`, if there is one.
pub open spec fn after_last(s: Seq<char>, c: char) -> Option<Seq<char>> {
    match s.index_of_last(c) {
        Some(i) => Some(s.skip(i + 1)),
        None => None,
    }
}

/// How many characters stand in `s` before the first one of `class`; all of them
/// where there is none.
pub open spec fn free_prefix(s: Seq<char>, class: CharClass) -> nat
    decreases s.len(),
{
    if s.len() == 0 || class.has(s[0]) {
        0
    } else {
        1 + free_prefix(s.skip(1), class)
    }
}

/// The pieces of `s` between the occurrences of `sep`, in order.
pub open spec fn split_on(s: Seq<char>, sep: char) -> Seq<Seq<char>>
    decreases s.len(),
{
    proof {
        s.index_of_first_ensures(sep);
    }
    match s.index_of_first(sep) {
        Some(i) => seq![s.take(i)] + split_on(s.skip(i + 1), sep),
        None => seq![s],
    }
}

/// `s` with every occurrence of `from`, taken from the left without overlap,
/// replaced by `to`.
pub open spec fn replaced(s: Seq<char>, from: Seq<char>, to: Seq<char>) -> Seq<char>
    decreases s.len(),
{
    if s.len() == 0 || from.len() == 0 {
        s
    } else if from.is_prefix_of(s) {
        to + replaced(s.skip(from.len() as int), from, to)
    } else {
        seq![s[0]] + replaced(s.skip(1), from, to)
    }
}

/// Tells whether `c` is a white-space character.
pub fn is_white_space(c: char) -> (found: bool)
    ensures
        found == white_space(c),
{
    let code: u32 = c as u32;
    (0x9 <= code && code <= 0xd) || code == 0x20 || code == 0x85 || code == 0xa0 || code == 0x1680
        || (0x2000 <= code && code <= 0x200a) || code == 0x2028 || code == 0x2029 || code == 0x202f
        || code == 0x205f || code == 0x3000
}

/// The characters of `s`, one by one.
pub fn chars_of(s: &str) -> (chars: Vec<char>)
    ensures
        chars@ == s@,
{
    let mut chars: Vec<char> = Vec::new();
    for c in it: s.chars()
        invariant
            chars@ == it.seq().take(it.index() as int),
            it.seq() == s@,
    {
        chars.push(c);
    }
    chars
}

/// Strips the characters of `class` from both ends of `s`.
pub fn strip<'a>(s: &'a str, class: CharClass) -> (middle: &'a str)
    ensures
        middle@ == stripped(s@, class),
{
    let chars = chars_of(s);
    let n: usize = chars.len();
    let mut lo: usize = 0;
    assert(s@.skip(0) =~= s@);
    while lo < n && class.contains(chars[lo])
        invariant
            chars@ == s@,
            n == chars@.len(),
            lo <= n,
            strip_start(s@, class) == strip_start(s@.skip(lo as int), class),
        decreases n - lo,
    {
        assert(s@.skip(lo as int).skip(1) =~= s@.skip(lo + 1));
        lo += 1;
    }
    let ghost rest = s@.skip(lo as int);
    let mut hi: usize = n;
    while lo < hi && class.contains(chars[hi - 1])
        invariant
            chars@ == s@,
            n == chars@.len(),
            lo <= hi <= n,
            rest == s@.skip(lo as int),
            strip_end(rest, class) == strip_end(s@.subrange(lo as int, hi as int), class),
        decreases hi - lo,
    {
        assert(s@.subrange(lo as int, hi as int).drop_last() =~= s@.subrange(
            lo as int,
            hi - 1,
        ));
        hi -= 1;
    }
    s.substring_char(lo, hi)
}

/// Strips white space from both ends of `s`.
pub fn trim<'a>(s: &'a str) -> (middle: &'a str)
    ensures
        middle@ == trimmed(s@),
{
    strip(s, CharClass::WhiteSpace)
}

/// Whether the characters of `piece` stand in `chars` from position `at` on.
pub open spec fn stands_at(chars: Seq<char>, piece: Seq<char>, at: int) -> bool {
    0 <= at && at + piece.len() <= chars.len() && chars.subrange(at, at + piece.len()) == piece
}

/// Tells whether the characters of `piece` stand in `chars` from position `at` on.
fn stands_in(chars: &Vec<char>, piece: &Vec<char>, at: usize) -> (found: bool)
    requires
        at <= chars@.len(),
    ensures
        found == stands_at(chars@, piece@, at as int),
{
    if piece.len() > chars.len() - at {
        return false;
    }
    let n: usize = piece.len();
    let total: usize = chars.len();
    let mut i: usize = 0;
    while i < n
        invariant
            n == piece@.len(),
            total == chars@.len(),
            at + n <= total,
            i <= n,
            forall|j: int| 0 <= j < i ==> chars@[at + j] == piece@[j],
        decreases n - i,
    {
        if chars[at + i] != piece[i] {
            assert(chars@.subrange(at as int, at + n)[i as int] != piece@[i as int]);
            return false;
        }
        i += 1;
    }
    assert(chars@.subrange(at as int, at + n) =~= piece@);
    true
}

/// Tells whether `a` and `b` hold the same characters.
pub fn same_text(a: &str, b: &str) -> (same: bool)
    ensures
        same == (a@ == b@),
{
    let a_chars = chars_of(a);
    let b_chars = chars_of(b);
    if a_chars.len() != b_chars.len() {
        return false;
    }
    assert(a@.subrange(0, a@.len() as int) =~= a@);
    stands_in(&a_chars, &b_chars, 0)
}

/// Tells whether `s` starts with `prefix`.
pub fn starts_with(s: &str, prefix: &str) -> (found: bool)
    ensures
        found == prefix@.is_prefix_of(s@),
{
    let chars = chars_of(s);
    let piece = chars_of(prefix);
    stands_in(&chars, &piece, 0)
}

/// Tells whether `s` ends with `suffix`.
pub fn ends_with(s: &str, suffix: &str) -> (found: bool)
    ensures
        found == suffix@.is_suffix_of(s@),
{
    let chars = chars_of(s);
    let piece = chars_of(suffix);
    if piece.len() > chars.len() {
        return false;
    }
    stands_in(&chars, &piece, chars.len() - piece.len())
}

/// The position of the first `c` in `s`, counted in characters.
pub fn find(s: &str, c: char) -> (at: Option<usize>)
    ensures
        match (at, s@.index_of_first(c)) {
            (Some(i), Some(j)) => i == j && j < s@.len(),
            (None, None) => true,
            _ => false,
        },
{
    let chars = chars_of(s);
    let n: usize = chars.len();
    proof {
        s@.index_of_first_ensures(c);
    }
    let mut i: usize = 0;
    while i < n
        invariant
            chars@ == s@,
            n == s@.len(),
            i <= n,
            forall|j: int| 0 <= j < i ==> s@[j] != c,
            match s@.index_of_first(c) {
                Some(j) => 0 <= j < s@.len() && s@[j] == c && forall|k: int|
                    0 <= k < j < s@.len() ==> s@[k] != c,
                None => !s@.contains(c),
            },
        decreases n - i,
    {
        if chars[i] == c {
            assert(s@.contains(c));
            return Some(i);
        }
        i += 1;
    }
    None
}

/// The position of the last `c` in `s`, counted in characters.
pub fn find_last(s: &str, c: char) -> (at: Option<usize>)
    ensures
        match (at, s@.index_of_last(c)) {
            (Some(i), Some(j)) => i == j && j < s@.len(),
            (None, None) => true,
            _ => false,
        },
{
    let chars = chars_of(s);
    let n: usize = chars.len();
    proof {
        s@.index_of_last_ensures(c);
    }
    let mut i: usize = n;
    while i > 0
        invariant
            chars@ == s@,
            n == s@.len(),
            i <= n,
            forall|j: int| i <= j < n ==> s@[j] != c,
            match s@.index_of_last(c) {
                Some(j) => 0 <= j < s@.len() && s@[j] == c && forall|k: int|
                    0 <= j < k < s@.len() ==> s@[k] != c,
                None => !s@.contains(c),
            },
        decreases i,
    {
        i -= 1;
        if chars[i] == c {
            assert(s@.contains(c));
            return Some(i);
        }
    }
    None
}

/// Counts the characters of `s` before the first one of `class`.
pub fn count_free_prefix(s: &str, class: CharClass) -> (n: usize)
    ensures
        n == free_prefix(s@, class),
        n <= s@.len(),
{
    let chars = chars_of(s);
    let n: usize = chars.len();
    let mut i: usize = 0;
    assert(s@.skip(0) =~= s@);
    while i < n && !class.contains(chars[i])
        invariant
            chars@ == s@,
            n == s@.len(),
            i <= n,
            free_prefix(s@, class) == i + free_prefix(s@.skip(i as int), class),
        decreases n - i,
    {
        assert(s@.skip(i as int).skip(1) =~= s@.skip(i + 1));
        i += 1;
    }
    i
}

/// Splits `s` at the first `c` into what stands before it and what stands behind
/// it.
pub fn split_first<'a>(s: &'a str, c: char) -> (parts: (&'a str, Option<&'a str>))
    ensures
        parts.0@ == before_first(s@, c),
        parts.1.deep_view() == after_first(s@, c),
{
    match find(s, c) {
        Some(i) => {
            let n: usize = s.unicode_len();
            (s.substring_char(0, i), Some(s.substring_char(i + 1, n)))
        },
        None => (s, None),
    }
}

/// What stands in `s` behind the last `c`.
pub fn split_last<'a>(s: &'a str, c: char) -> (tail: Option<&'a str>)
    ensures
        tail.deep_view() == after_last(s@, c),
{
    match find_last(s, c) {
        Some(i) => {
            let n: usize = s.unicode_len();
            Some(s.substring_char(i + 1, n))
        },
        None => None,
    }
}

/// Strips from the start of `s` every copy of `prefix`.
pub fn strip_repeated<'a>(s: &'a str, prefix: &str) -> (rest: &'a str)
    ensures
        rest@ == strip_prefixes(s@, prefix@),
{
    let chars = chars_of(s);
    let piece = chars_of(prefix);
    let n: usize = chars.len();
    let mut at: usize = 0;
    assert(s@.skip(0) =~= s@);
    while piece.len() > 0 && stands_in(&chars, &piece, at)
        invariant
            chars@ == s@,
            piece@ == prefix@,
            n == s@.len(),
            at <= n,
            strip_prefixes(s@, prefix@) == strip_prefixes(s@.skip(at as int), prefix@),
        decreases n - at,
    {
        let ghost rest = s@.skip(at as int);
        assert(rest.subrange(0, prefix@.len() as int) =~= s@.subrange(at as int, at + prefix@.len()));
        assert(rest.skip(prefix@.len() as int) =~= s@.skip(at + prefix@.len()));
        at += piece.len();
    }
    proof {
        let rest = s@.skip(at as int);
        if prefix@.is_prefix_of(rest) {
            assert(rest.subrange(0, prefix@.len() as int) =~= s@.subrange(
                at as int,
                at + prefix@.len(),
            ));
        }
    }
    s.substring_char(at, n)
}

/// Replaces every occurrence of `from` in `s` by `to`.
pub fn replace(s: &str, from: &str, to: &str) -> (out: String)
    requires
        from@.len() > 0,
    ensures
        out@ == replaced(s@, from@, to@),
{
    let chars = chars_of(s);
    let piece = chars_of(from);
    let n: usize = chars.len();
    let mut out = String::new();
    let mut at: usize = 0;
    assert(s@.skip(0) =~= s@);
    while at < n
        invariant
            chars@ == s@,
            piece@ == from@,
            from@.len() > 0,
            n == s@.len(),
            at <= n,
            replaced(s@, from@, to@) == out@ + replaced(s@.skip(at as int), from@, to@),
        decreases n - at,
    {
        let ghost rest = s@.skip(at as int);
        let ghost done = out@;
        if stands_in(&chars, &piece, at) {
            assert(rest.subrange(0, from@.len() as int) =~= s@.subrange(at as int, at + from@.len()));
            assert(rest.skip(from@.len() as int) =~= s@.skip(at + from@.len()));
            out.append(to);
            at += piece.len();
            assert(done + (to@ + replaced(s@.skip(at as int), from@, to@)) =~= (done + to@)
                + replaced(s@.skip(at as int), from@, to@));
        } else {
            proof {
                if from@.is_prefix_of(rest) {
                    assert(rest.subrange(0, from@.len() as int) =~= s@.subrange(
                        at as int,
                        at + from@.len(),
                    ));
                }
            }
            let one = s.substring_char(at, at + 1);
            assert(one@ =~= seq![rest[0]]);
            assert(rest.skip(1) =~= s@.skip(at + 1));
            out.append(one);
            at += 1;
            assert(done + (one@ + replaced(s@.skip(at as int), from@, to@)) =~= (done + one@)
                + replaced(s@.skip(at as int), from@, to@));
        }
    }
    assert(out@ + replaced(s@.skip(n as int), from@, to@) =~= out@);
    out
}

/// The decimal digit that stands for `d`, for `d` below ten.
pub open spec fn digit(d: nat) -> char {
    (48 + d) as char
}

/// `n` in decimal notation.
pub open spec fn decimal(n: nat) -> Seq<char>
    decreases n,
{
    if n < 10 {
        seq![digit(n)]
    } else {
        decimal(n / 10).push(digit(n % 10))
    }
}

fn digit_text(d: u64) -> (out: &'static str)
    requires
        d < 10,
    ensures
        out@ == seq![digit(d as nat)],
{
    proof {
        reveal_strlit("0");
        reveal_strlit("1");
        reveal_strlit("2");
        reveal_strlit("3");
        reveal_strlit("4");
        reveal_strlit("5");
        reveal_strlit("6");
        reveal_strlit("7");
        reveal_strlit("8");
        reveal_strlit("9");
    }
    match d {
        0 => "0",
        1 => "1",
        2 => "2",
        3 => "3",
        4 => "4",
        5 => "5",
        6 => "6",
        7 => "7",
        8 => "8",
        _ => "9",
    }
}

/// Writes `n` in decimal notation.
pub fn decimal_text(n: u64) -> (out: String)
    ensures
        out@ == decimal(n as nat),
    decreases n,
{
    if n < 10 {
        let mut out = String::new();
        out.append(digit_text(n));
        assert(out@ =~= seq![digit(n as nat)]);
        out
    } else {
        let mut out = decimal_text(n / 10);
        let ghost high = out@;
        out.append(digit_text(n % 10));
        assert(out@ =~= high.push(digit((n % 10) as nat)));
        out
    }
}

/// `piece` written `n` times.
pub open spec fn repeated(piece: Seq<char>, n: nat) -> Seq<char>
    decreases n,
{
    if n == 0 {
        Seq::empty()
    } else {
        repeated(piece, (n - 1) as nat) + piece
    }
}

/// Writes `piece` `n` times.
pub fn repeat(piece: &str, n: usize) -> (out: String)
    ensures
        out@ == repeated(piece@, n as nat),
{
    let mut out = String::new();
    let mut i: usize = 0;
    while i < n
        invariant
            i <= n,
            out@ == repeated(piece@, i as nat),
        decreases n - i,
    {
        out.append(piece);
        i += 1;
    }
    out
}

/// Whether all of `s` belongs to `class`.
pub open spec fn all_in(s: Seq<char>, class: CharClass) -> bool {
    forall|i: int| 0 <= i < s.len() ==> class.has(#[trigger] s[i])
}

/// Whether neither end of `s` belongs to `class`, and `s` is not empty.
pub open spec fn bare(s: Seq<char>, class: CharClass) -> bool {
    s.len() > 0 && !class.has(s[0]) && !class.has(s.last())
}

/// What stands before a text of bare ends is stripped from its start.
proof fn strip_start_reaches(before: Seq<char>, s: Seq<char>, class: CharClass)
    requires
        all_in(before, class),
        s.len() > 0,
        !class.has(s[0]),
    ensures
        strip_start(before + s, class) == s,
    decreases before.len(),
{
    let whole = before + s;
    if before.len() == 0 {
        assert(whole =~= s);
    } else {
        assert(whole[0] == before[0]);
        assert(whole.skip(1) =~= before.skip(1) + s);
        assert forall|i: int| 0 <= i < before.skip(1).len() implies class.has(
            #[trigger] before.skip(1)[i],
        ) by {
            assert(before.skip(1)[i] == before[i + 1]);
        }
        strip_start_reaches(before.skip(1), s, class);
    }
}

proof fn strip_end_reaches(s: Seq<char>, behind: Seq<char>, class: CharClass)
    requires
        all_in(behind, class),
        s.len() > 0,
        !class.has(s.last()),
    ensures
        strip_end(s + behind, class) == s,
    decreases behind.len(),
{
    let whole = s + behind;
    if behind.len() == 0 {
        assert(whole =~= s);
    } else {
        assert(whole.last() == behind.last());
        assert(whole.drop_last() =~= s + behind.drop_last());
        strip_end_reaches(s, behind.drop_last(), class);
    }
}

/// Law: stripping gives back what was written between characters of the class.
pub proof fn law_stripping_undoes_padding(
    before: Seq<char>,
    s: Seq<char>,
    behind: Seq<char>,
    class: CharClass,
)
    requires
        all_in(before, class),
        bare(s, class),
        all_in(behind, class),
    ensures
        stripped(before + s + behind, class) == s,
{
    assert(before + s + behind =~= before + (s + behind));
    strip_start_reaches(before, s + behind, class);
    strip_end_reaches(s, behind, class);
}

/// Law: what has been stripped is empty or has bare ends.
pub proof fn law_stripped_is_bare(s: Seq<char>, class: CharClass)
    ensures
        stripped(s, class).len() == 0 || bare(stripped(s, class), class),
{
    strip_start_is_bare(s, class);
    strip_end_is_bare(strip_start(s, class), class);
}

proof fn strip_start_is_bare(s: Seq<char>, class: CharClass)
    ensures
        strip_start(s, class).len() == 0 || !class.has(strip_start(s, class)[0]),
    decreases s.len(),
{
    if s.len() > 0 && class.has(s[0]) {
        strip_start_is_bare(s.skip(1), class);
    }
}

proof fn strip_end_is_bare(s: Seq<char>, class: CharClass)
    requires
        s.len() == 0 || !class.has(s[0]),
    ensures
        strip_end(s, class).len() == 0 || bare(strip_end(s, class), class),
    decreases s.len(),
{
    if s.len() > 0 && class.has(s.last()) {
        strip_end_is_bare(s.drop_last(), class);
    }
}

/// Where the first `c` stands in a text that is put together around it.
pub(crate) proof fn first_of_joined(before: Seq<char>, c: char, behind: Seq<char>)
    requires
        !before.contains(c),
    ensures
        (before + seq![c] + behind).index_of_first(c) == Some(before.len() as int),
        before_first(before + seq![c] + behind, c) == before,
        after_first(before + seq![c] + behind, c) == Some(behind),
{
    let whole = before + seq![c] + behind;
    whole.index_of_first_ensures(c);
    assert(whole[before.len() as int] == c);
    assert(whole.contains(c));
    let at = whole.index_of_first(c)->0;
    if at < before.len() {
        assert(before[at] == c);
    }
    assert(whole.take(before.len() as int) =~= before);
    assert(whole.skip(before.len() as int + 1) =~= behind);
}

/// A text that lacks `c` is not split at it.
pub(crate) proof fn nothing_to_split(s: Seq<char>, c: char)
    requires
        !s.contains(c),
    ensures
        before_first(s, c) == s,
        after_first(s, c) is None,
        after_last(s, c) is None,
        split_on(s, c) == seq![s],
{
    s.index_of_first_ensures(c);
    s.index_of_last_ensures(c);
}

/// Law: these are the white-space characters.
pub proof fn law_white_space_characters(c: char)
    ensures
        white_space(c) <==> {
            ||| c == '\t' || c == '\n' || c == '\u{b}' || c == '\u{c}' || c == '\r' || c == ' '
            ||| c == '\u{85}' || c == '\u{a0}' || c == '\u{1680}'
            ||| c == '\u{2000}' || c == '\u{2001}' || c == '\u{2002}' || c == '\u{2003}'
            ||| c == '\u{2004}' || c == '\u{2005}' || c == '\u{2006}' || c == '\u{2007}'
            ||| c == '\u{2008}' || c == '\u{2009}' || c == '\u{200a}'
            ||| c == '\u{2028}' || c == '\u{2029}' || c == '\u{202f}' || c == '\u{205f}'
            ||| c == '\u{3000}'
        },
        CharClass::WhiteSpace.has(c) <==> white_space(c),
{
}

/// Law: the class of one character holds that character and no other.
pub proof fn law_class_of_one_character(only: char, c: char)
    ensures
        CharClass::Only(only).has(c) <==> c == only,
{
}

/// Law: a text is what is left of it when it is stripped, between characters of the
/// class; and what is left is empty or has at neither end a character of the class.
/// No other part of the text is like that.
pub proof fn law_stripping_takes_the_padding(s: Seq<char>, class: CharClass)
    ensures
        exists|before: Seq<char>, behind: Seq<char>|
            {
                &&& s == #[trigger] (before + stripped(s, class) + behind)
                &&& forall|i: int| 0 <= i < before.len() ==> class.has(#[trigger] before[i])
                &&& forall|i: int| 0 <= i < behind.len() ==> class.has(#[trigger] behind[i])
            },
        stripped(s, class).len() > 0 ==> !class.has(stripped(s, class)[0]) && !class.has(
            stripped(s, class).last(),
        ),
{
    law_stripped_is_bare(s, class);
    let middle = strip_start(s, class);
    let before = strip_start_takes(s, class);
    let behind = strip_end_takes(middle, class);
    assert(before + stripped(s, class) + behind =~= before + middle);
}

proof fn strip_start_takes(s: Seq<char>, class: CharClass) -> (before: Seq<char>)
    ensures
        s == before + strip_start(s, class),
        forall|i: int| 0 <= i < before.len() ==> class.has(#[trigger] before[i]),
    decreases s.len(),
{
    if s.len() > 0 && class.has(s[0]) {
        let rest = strip_start_takes(s.skip(1), class);
        let before = seq![s[0]] + rest;
        assert(s =~= seq![s[0]] + s.skip(1));
        assert(s.skip(1) == rest + strip_start(s, class));
        assert(before + strip_start(s, class) =~= seq![s[0]] + s.skip(1));
        before
    } else {
        assert(s =~= Seq::<char>::empty() + s);
        Seq::empty()
    }
}

proof fn strip_end_takes(s: Seq<char>, class: CharClass) -> (behind: Seq<char>)
    ensures
        s == strip_end(s, class) + behind,
        forall|i: int| 0 <= i < behind.len() ==> class.has(#[trigger] behind[i]),
    decreases s.len(),
{
    if s.len() > 0 && class.has(s.last()) {
        let rest = strip_end_takes(s.drop_last(), class);
        let behind = rest.push(s.last());
        assert(s =~= s.drop_last().push(s.last()));
        assert(s.drop_last() == strip_end(s, class) + rest);
        assert(strip_end(s, class) + behind =~= s.drop_last().push(s.last()));
        behind
    } else {
        assert(s =~= s + Seq::<char>::empty());
        Seq::empty()
    }
}

/// Law: a text is split at its first `c` into what was written before it and what was
/// written behind it; one without `c` is not split.
pub proof fn law_split_at_the_first(before: Seq<char>, c: char, behind: Seq<char>)
    requires
        forall|i: int| 0 <= i < before.len() ==> #[trigger] before[i] != c,
    ensures
        before_first(before + seq![c] + behind, c) == before,
        after_first(before + seq![c] + behind, c) == Some(behind),
        before_first(before, c) == before,
        after_first(before, c) is None,
{
    first_of_joined(before, c, behind);
    nothing_to_split(before, c);
}

/// Law: what stands behind the last `c` of a text is what was written behind it, if
/// no `c` was written there; in a text without `c` nothing stands behind one.
pub proof fn law_split_at_the_last(before: Seq<char>, c: char, behind: Seq<char>)
    requires
        forall|i: int| 0 <= i < behind.len() ==> #[trigger] behind[i] != c,
    ensures
        after_last(before + seq![c] + behind, c) == Some(behind),
        after_last(behind, c) is None,
{
    let whole = before + seq![c] + behind;
    whole.index_of_last_ensures(c);
    let n = before.len() as int;
    assert(whole[n] == c);
    assert(whole.contains(c));
    let at = whole.index_of_last(c)->0;
    if at > n {
        assert(whole[at] == behind[at - n - 1]);
    }
    assert(whole.skip(n + 1) =~= behind);
    nothing_to_split(behind, c);
}

/// Law: the pieces of a text between separators are the pieces that it was joined of:
/// the first one, and those of what follows.
pub proof fn law_pieces_are_those_joined(piece: Seq<char>, sep: char, rest: Seq<char>)
    requires
        forall|i: int| 0 <= i < piece.len() ==> #[trigger] piece[i] != sep,
    ensures
        split_on(piece, sep) == seq![piece],
        split_on(piece + seq![sep] + rest, sep) == seq![piece] + split_on(rest, sep),
{
    nothing_to_split(piece, sep);
    first_of_joined(piece, sep, rest);
    let whole = piece + seq![sep] + rest;
    assert(whole.take(piece.len() as int) =~= piece);
    assert(whole.skip(piece.len() as int + 1) =~= rest);
}

/// Law: the copies of a prefix are stripped one after the other, and a text that does
/// not start with it is kept.
pub proof fn law_prefixes_are_stripped(prefix: Seq<char>, n: nat, s: Seq<char>)
    requires
        prefix.len() > 0,
        !(prefix.len() <= s.len() && s.take(prefix.len() as int) == prefix),
    ensures
        strip_prefixes(repeated(prefix, n) + s, prefix) == s,
    decreases n,
{
    if n == 0 {
        assert(repeated(prefix, 0) + s =~= s);
    } else {
        let before = repeated(prefix, (n - 1) as nat);
        let whole = repeated(prefix, n) + s;
        repeated_from_the_front(prefix, n);
        assert(whole =~= prefix + (before + s));
        assert(whole.subrange(0, prefix.len() as int) =~= prefix);
        assert(whole.skip(prefix.len() as int) =~= before + s);
        law_prefixes_are_stripped(prefix, (n - 1) as nat, s);
    }
}

pub(crate) proof fn repeated_from_the_front(piece: Seq<char>, n: nat)
    requires
        n > 0,
    ensures
        repeated(piece, n) == piece + repeated(piece, (n - 1) as nat),
    decreases n,
{
    if n == 1 {
        assert(repeated(piece, 1) == repeated(piece, 0) + piece);
        assert(repeated(piece, 0) + piece =~= piece + repeated(piece, 0));
    } else {
        repeated_from_the_front(piece, (n - 1) as nat);
        assert(repeated(piece, n) =~= piece + repeated(piece, (n - 1) as nat));
    }
}

/// Law: each copy in a repeated piece holds the characters of the piece.
pub proof fn law_repeating_copies(piece: Seq<char>, n: nat, copy: nat, i: int)
    requires
        copy < n,
        0 <= i < piece.len(),
    ensures
        repeated(piece, n).len() == n * piece.len(),
        0 <= copy * piece.len() + i < n * piece.len(),
        repeated(piece, n)[copy * piece.len() + i] == piece[i],
    decreases n,
{
    law_repeated_length(piece, n);
    law_repeated_length(piece, (n - 1) as nat);
    let len = piece.len() as int;
    assert(copy * len + i < n * len) by (nonlinear_arith)
        requires
            0 <= copy < n,
            0 <= i < len,
    ;
    assert(0 <= copy * len) by (nonlinear_arith)
        requires
            0 <= copy,
            0 <= len,
    ;
    if copy < n - 1 {
        assert(copy * len + i < (n - 1) * len) by (nonlinear_arith)
            requires
                0 <= copy < n - 1,
                0 <= i < len,
        ;
        law_repeating_copies(piece, (n - 1) as nat, copy, i);
    }
}

/// Law: a repeated piece is as long as all its copies together, also where there are
/// none.
pub proof fn law_repeated_length(piece: Seq<char>, n: nat)
    ensures
        repeated(piece, n).len() == n * piece.len(),
    decreases n,
{
    if n > 0 {
        law_repeated_length(piece, (n - 1) as nat);
        assert((n - 1) * piece.len() + piece.len() == n * piece.len()) by (nonlinear_arith);
    } else {
        assert(0 * piece.len() == 0) by (nonlinear_arith);
    }
}

/// Law: replacing goes through a text from its start. It puts the new text where the
/// old one stands, and goes on behind it; any other character it keeps.
pub proof fn law_replacing_goes_on(from: Seq<char>, to: Seq<char>, c: char, rest: Seq<char>)
    requires
        from.len() > 0,
    ensures
        replaced(Seq::empty(), from, to) == Seq::<char>::empty(),
        replaced(from + rest, from, to) == to + replaced(rest, from, to),
        !(from.len() <= rest.len() + 1 && (seq![c] + rest).take(from.len() as int) == from)
            ==> replaced(seq![c] + rest, from, to) == seq![c] + replaced(rest, from, to),
{
    let whole = from + rest;
    assert(whole.subrange(0, from.len() as int) =~= from);
    assert(whole.skip(from.len() as int) =~= rest);
    let other = seq![c] + rest;
    assert(other.skip(1) =~= rest);
}

/// Law: a number below ten is written as its digit, and the last digit of a larger
/// one stands behind the number that is left when it is taken off.
pub proof fn law_decimal_notation(n: nat, d: nat)
    requires
        d < 10,
    ensures
        decimal(d) == seq![(48 + d) as char],
        n > 0 ==> decimal(10 * n + d) == decimal(n).push((48 + d) as char),
{
}

/// Law: the prefix free of a class ends where the first character of the class was
/// written, or at the end of the text.
pub proof fn law_free_prefix_ends(head: Seq<char>, tail: Seq<char>, class: CharClass)
    requires
        forall|i: int| 0 <= i < head.len() ==> !class.has(#[trigger] head[i]),
        tail.len() > 0 ==> class.has(tail[0]),
    ensures
        free_prefix(head + tail, class) == head.len(),
    decreases head.len(),
{
    let whole = head + tail;
    if head.len() == 0 {
        assert(whole =~= tail);
    } else {
        let rest = head.skip(1);
        assert(whole.skip(1) =~= rest + tail);
        assert forall|i: int| 0 <= i < rest.len() implies !class.has(#[trigger] rest[i]) by {
            assert(rest[i] == head[i + 1]);
        }
        law_free_prefix_ends(rest, tail, class);
    }
}

/// Law: of a text of padding alone nothing is left when it is stripped.
pub proof fn law_padding_alone_leaves_nothing(s: Seq<char>, class: CharClass)
    requires
        forall|i: int| 0 <= i < s.len() ==> class.has(#[trigger] s[i]),
    ensures
        stripped(s, class) == Seq::<char>::empty(),
{
    law_stripping_takes_the_padding(s, class);
    let middle = stripped(s, class);
    let (before, behind) = choose|before: Seq<char>, behind: Seq<char>|
        s == #[trigger] (before + middle + behind);
    if middle.len() > 0 {
        assert(s[before.len() as int] == middle[0]);
    }
}

/// Law: trimming leaves what stands between white space, also where that is nothing.
pub proof fn law_trimming_leaves_the_middle(a: Seq<char>, s: Seq<char>, b: Seq<char>)
    requires
        forall|i: int| 0 <= i < a.len() ==> white_space(#[trigger] a[i]),
        forall|i: int| 0 <= i < b.len() ==> white_space(#[trigger] b[i]),
        s.len() > 0 ==> !white_space(s[0]) && !white_space(s.last()),
    ensures
        trimmed(a + s + b) == s,
{
    if s.len() == 0 {
        law_padding_alone_leaves_nothing(a + s + b, CharClass::WhiteSpace);
        assert(s =~= Seq::empty());
    } else {
        law_stripping_undoes_padding(a, s, b, CharClass::WhiteSpace);
    }
}

}
