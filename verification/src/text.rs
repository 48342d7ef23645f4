//! Text as sequences of characters: search, trimming, splitting, decimal
//! numbers, and the shape in which text enters the full-text index.
use vstd::prelude::*;

verus! {

/// Whether a character has the Unicode property `White_Space`.
pub open spec fn is_space(c: char) -> bool {
    let n = c as int;
    ||| 0x09 <= n <= 0x0d
    ||| n == 0x20
    ||| n == 0x85
    ||| n == 0xa0
    ||| n == 0x1680
    ||| 0x2000 <= n <= 0x200a
    ||| n == 0x2028
    ||| n == 0x2029
    ||| n == 0x202f
    ||| n == 0x205f
    ||| n == 0x3000
}

/// `char::is_whitespace`: whether the character has the Unicode property
/// `White_Space`.
pub assume_specification [ char::is_whitespace ](c: char) -> (r: bool)
    ensures
        r == is_space(c),
;

/// `String::push` appends one character.
pub assume_specification [ String::push ](s: &mut String, c: char)
    ensures
        final(s)@ == old(s)@.push(c),
;

/// `==` on `str` holds exactly when both hold the same characters.
pub assume_specification [ <str as PartialEq>::eq ](a: &str, b: &str) -> (r: bool)
    ensures
        r == (a@ == b@),
;

/// Whether two texts hold the same characters.
pub fn same(a: &str, b: &str) -> (r: bool)
    ensures
        r == (a@ == b@),
{
    *a == *b
}

/// The characters of a text, one by one.
pub fn chars_of(s: &str) -> (r: Vec<char>)
    ensures
        r@ == s@,
{
    let mut out: Vec<char> = Vec::new();
    for c in it: s.chars()
        invariant
            it.seq() == s@,
            out@ == s@.take(it.index() as int),
    {
        out.push(c);
    }
    out
}

/// The text made of `chars[from..to]`.
pub fn string_of(chars: &Vec<char>, from: usize, to: usize) -> (r: String)
    requires
        from <= to <= chars@.len(),
    ensures
        r@ == chars@.subrange(from as int, to as int),
{
    let mut out = String::new();
    let mut i: usize = from;
    while i < to
        invariant
            from <= i <= to <= chars@.len(),
            out@ == chars@.subrange(from as int, i as int),
        decreases to - i,
    {
        out.push(chars[i]);
        i = i + 1;
        assert(chars@.subrange(from as int, i as int) =~= chars@.subrange(
            from as int,
            i - 1,
        ).push(chars@[i - 1]));
    }
    out
}

/// The texts of a list.
pub open spec fn texts_view(v: Seq<String>) -> Seq<Seq<char>> {
    Seq::new(v.len(), |i: int| v[i]@)
}

/// The view of a text that may be missing.
pub open spec fn maybe_view(s: Option<String>) -> Option<Seq<char>> {
    match s {
        Some(s) => Some(s@),
        None => None,
    }
}

/// Copies a list of texts.
pub fn copy_texts(v: &Vec<String>) -> (r: Vec<String>)
    ensures
        texts_view(r@) == texts_view(v@),
{
    let mut out: Vec<String> = Vec::new();
    let mut i: usize = 0;
    while i < v.len()
        invariant
            i <= v@.len(),
            out@.len() == i,
            forall|k: int| 0 <= k < i ==> (#[trigger] out@[k])@ == v@[k]@,
        decreases v@.len() - i,
    {
        out.push(v[i].clone());
        i = i + 1;
    }
    assert(texts_view(out@) =~= texts_view(v@));
    out
}

/// Whether `needle` stands in `s` at position `i`.
pub open spec fn occurs_at(s: Seq<char>, needle: Seq<char>, i: int) -> bool {
    0 <= i && i + needle.len() <= s.len() && s.subrange(i, i + needle.len()) == needle
}

/// Whether `needle` stands anywhere in `s`; the empty text stands everywhere.
pub open spec fn occurs(s: Seq<char>, needle: Seq<char>) -> bool {
    exists|i: int| occurs_at(s, needle, i)
}

fn matches_at(s: &Vec<char>, needle: &Vec<char>, i: usize) -> (r: bool)
    requires
        i + needle@.len() <= s@.len(),
    ensures
        r == occurs_at(s@, needle@, i as int),
{
    let total: usize = s.len();
    let mut k: usize = 0;
    while k < needle.len()
        invariant
            total == s@.len(),
            i + needle@.len() <= s@.len(),
            k <= needle@.len(),
            forall|j: int| 0 <= j < k ==> s@[i + j] == needle@[j],
        decreases needle@.len() - k,
    {
        if s[i + k] != needle[k] {
            proof {
                if occurs_at(s@, needle@, i as int) {
                    assert(s@.subrange(i as int, i + needle@.len())[k as int] == needle@[k as int]);
                }
            }
            return false;
        }
        k = k + 1;
    }
    assert(s@.subrange(i as int, i + needle@.len()) =~= needle@);
    true
}

/// Whether `needle` stands anywhere in `s`.
pub fn contains(s: &str, needle: &str) -> (r: bool)
    ensures
        r == occurs(s@, needle@),
{
    let hay = chars_of(s);
    let pat = chars_of(needle);
    if pat.len() > hay.len() {
        return false;
    }
    let end: usize = hay.len() - pat.len();
    let mut i: usize = 0;
    while i <= end
        invariant
            hay@ == s@,
            pat@ == needle@,
            end + pat@.len() == hay@.len(),
            i <= end + 1,
            forall|j: int| 0 <= j < i ==> !occurs_at(hay@, pat@, j),
        decreases end + 1 - i,
    {
        if matches_at(&hay, &pat, i) {
            return true;
        }
        if i == end {
            return false;
        }
        i = i + 1;
    }
    false
}

/// Whether `s` begins with `prefix`.
pub fn starts_with(s: &str, prefix: &str) -> (r: bool)
    ensures
        r == prefix@.is_prefix_of(s@),
{
    let hay = chars_of(s);
    let pat = chars_of(prefix);
    if pat.len() > hay.len() {
        return false;
    }
    matches_at(&hay, &pat, 0)
}

/// Whether `s` ends with `suffix`.
pub open spec fn has_suffix(s: Seq<char>, suffix: Seq<char>) -> bool {
    occurs_at(s, suffix, s.len() - suffix.len())
}

/// Whether `s` ends with `suffix`.
pub fn ends_with(s: &str, suffix: &str) -> (r: bool)
    ensures
        r == has_suffix(s@, suffix@),
{
    let hay = chars_of(s);
    let pat = chars_of(suffix);
    if pat.len() > hay.len() {
        return false;
    }
    matches_at(&hay, &pat, hay.len() - pat.len())
}

/// Whether `c` stands in `s`.
pub fn has_char(s: &str, c: char) -> (r: bool)
    ensures
        r == s@.contains(c),
{
    let v = chars_of(s);
    let mut i: usize = 0;
    while i < v.len()
        invariant
            v@ == s@,
            i <= v@.len(),
            forall|j: int| 0 <= j < i ==> v@[j] != c,
        decreases v@.len() - i,
    {
        if v[i] == c {
            assert(s@[i as int] == c);
            return true;
        }
        i = i + 1;
    }
    false
}

/// `first` followed by `second`.
pub fn concat(first: &str, second: &str) -> (r: String)
    ensures
        r@ == first@ + second@,
{
    let mut out = String::new();
    out.append(first);
    out.append(second);
    assert(out@ =~= first@ + second@);
    out
}

/// The parts in order, `sep` between each two.
pub open spec fn joined(parts: Seq<Seq<char>>, sep: Seq<char>) -> Seq<char>
    decreases parts.len(),
{
    if parts.len() == 0 {
        Seq::empty()
    } else if parts.len() == 1 {
        parts[0]
    } else {
        joined(parts.drop_last(), sep) + sep + parts.last()
    }
}

/// The parts in order, `sep` between each two.
pub fn join(parts: &Vec<String>, sep: &str) -> (r: String)
    ensures
        r@ == joined(texts_view(parts@), sep@),
{
    let mut out = String::new();
    let mut i: usize = 0;
    let ghost all = texts_view(parts@);
    while i < parts.len()
        invariant
            all == texts_view(parts@),
            i <= parts@.len(),
            out@ == joined(all.take(i as int), sep@),
        decreases parts@.len() - i,
    {
        assert(all.take(i + 1).drop_last() =~= all.take(i as int));
        assert(all.take(i + 1).last() == parts@[i as int]@);
        if i > 0 {
            out.append(sep);
        }
        out.append(parts[i].as_str());
        i = i + 1;
        assert(i == 1 ==> out@ =~= all.take(1)[0]);
    }
    assert(all.take(all.len() as int) =~= all);
    out
}

// ---------------------------------------------------------------- order

/// The order of texts by their first differing character, a proper prefix
/// coming first.
pub open spec fn text_lt(a: Seq<char>, b: Seq<char>) -> bool
    decreases a.len(),
{
    if b.len() == 0 {
        false
    } else if a.len() == 0 {
        true
    } else if a[0] != b[0] {
        a[0] < b[0]
    } else {
        text_lt(a.skip(1), b.skip(1))
    }
}

/// Whether `a` comes before `b`.
pub fn text_less(a: &str, b: &str) -> (r: bool)
    ensures
        r == text_lt(a@, b@),
{
    let x = chars_of(a);
    let y = chars_of(b);
    let mut i: usize = 0;
    assert(x@.skip(0) =~= x@ && y@.skip(0) =~= y@);
    loop
        invariant
            x@ == a@,
            y@ == b@,
            i <= x@.len(),
            i <= y@.len(),
            text_lt(a@, b@) == text_lt(x@.skip(i as int), y@.skip(i as int)),
        decreases x@.len() - i,
    {
        if i == y.len() {
            return false;
        }
        if i == x.len() {
            return true;
        }
        if x[i] != y[i] {
            return x[i] < y[i];
        }
        assert(x@.skip(i as int).skip(1) =~= x@.skip(i + 1));
        assert(y@.skip(i as int).skip(1) =~= y@.skip(i + 1));
        i = i + 1;
    }
}

/// No text comes before itself.
pub proof fn lemma_text_lt_irreflexive(a: Seq<char>)
    ensures
        !text_lt(a, a),
    decreases a.len(),
{
    if a.len() > 0 {
        lemma_text_lt_irreflexive(a.skip(1));
    }
}

/// The order of texts is transitive.
pub proof fn lemma_text_lt_transitive(a: Seq<char>, b: Seq<char>, c: Seq<char>)
    requires
        text_lt(a, b),
        text_lt(b, c),
    ensures
        text_lt(a, c),
    decreases a.len(),
{
    if a.len() > 0 && b.len() > 0 && c.len() > 0 && a[0] == b[0] && b[0] == c[0] {
        lemma_text_lt_transitive(a.skip(1), b.skip(1), c.skip(1));
    }
}

/// Of two different texts one comes before the other.
pub proof fn lemma_text_lt_total(a: Seq<char>, b: Seq<char>)
    ensures
        a == b || text_lt(a, b) || text_lt(b, a),
    decreases a.len(),
{
    if a.len() > 0 && b.len() > 0 && a[0] == b[0] {
        lemma_text_lt_total(a.skip(1), b.skip(1));
        if a.skip(1) == b.skip(1) {
            assert(a =~= seq![a[0]] + a.skip(1));
            assert(b =~= seq![b[0]] + b.skip(1));
        }
    } else if a.len() == 0 && b.len() == 0 {
        assert(a =~= b);
    }
}

// ------------------------------------------------------------- decimals

/// The character of one decimal digit.
pub open spec fn digit_char(d: int) -> char {
    (48 + d) as char
}

/// The decimal digits of `n`, without leading zeros.
pub open spec fn digits(n: nat) -> Seq<char>
    decreases n,
{
    if n < 10 {
        seq![digit_char(n as int)]
    } else {
        digits(n / 10).push(digit_char((n % 10) as int))
    }
}

/// The decimal form of `n`, with a minus sign where it is negative.
pub open spec fn decimal(n: int) -> Seq<char> {
    if n < 0 {
        seq!['-'] + digits((-n) as nat)
    } else {
        digits(n as nat)
    }
}

fn push_digits(out: &mut String, n: u64)
    ensures
        final(out)@ == old(out)@ + digits(n as nat),
    decreases n,
{
    if n >= 10 {
        push_digits(out, n / 10);
    }
    let d: u8 = (n % 10) as u8;
    out.push((48 + d) as char);
    assert(out@ =~= old(out)@ + digits(n as nat));
}

/// The decimal form of a signed number.
pub fn decimal_text(n: i64) -> (r: String)
    ensures
        r@ == decimal(n as int),
{
    let mut out = String::new();
    if n < 0 {
        out.push('-');
        let m: u64 = if n == i64::MIN {
            9223372036854775808u64
        } else {
            (-n) as u64
        };
        push_digits(&mut out, m);
        assert(out@ =~= seq!['-'] + digits((-n) as nat));
    } else {
        push_digits(&mut out, n as u64);
        assert(out@ =~= digits(n as nat));
    }
    out
}

/// Whether `c` is a decimal digit of ASCII.
pub open spec fn is_digit(c: char) -> bool {
    '0' <= c && c <= '9'
}

/// Whether every character is a decimal digit of ASCII.
pub open spec fn all_digits(s: Seq<char>) -> bool {
    forall|i: int| 0 <= i < s.len() ==> is_digit(#[trigger] s[i])
}

/// Whether every character is a decimal digit of ASCII.
pub fn only_digits(s: &str) -> (r: bool)
    ensures
        r == all_digits(s@),
{
    let v = chars_of(s);
    let mut i: usize = 0;
    while i < v.len()
        invariant
            v@ == s@,
            i <= v@.len(),
            forall|j: int| 0 <= j < i ==> is_digit(#[trigger] v@[j]),
        decreases v@.len() - i,
    {
        if v[i] < '0' || v[i] > '9' {
            assert(!is_digit(s@[i as int]));
            return false;
        }
        i = i + 1;
    }
    true
}

/// The number that a run of digits stands for.
pub open spec fn digits_value(s: Seq<char>) -> int
    decreases s.len(),
{
    if s.len() == 0 {
        0
    } else {
        digits_value(s.drop_last()) * 10 + (s.last() as int - 48)
    }
}

/// What a text without its sign is: at least one digit and nothing else.
pub open spec fn unsigned_part(s: Seq<char>) -> Option<int> {
    if s.len() > 0 && all_digits(s) {
        Some(digits_value(s))
    } else {
        None
    }
}

/// The number that an optional sign and digits stand for.
pub open spec fn signed_value(s: Seq<char>) -> Option<int> {
    if s.len() > 0 && s[0] == '-' {
        match unsigned_part(s.skip(1)) {
            Some(n) => Some(-n),
            None => None,
        }
    } else if s.len() > 0 && s[0] == '+' {
        unsigned_part(s.skip(1))
    } else {
        unsigned_part(s)
    }
}

/// The signed number of 64 bits that a text stands for.
pub open spec fn parsed(s: Seq<char>) -> Option<i64> {
    match signed_value(s) {
        Some(n) => if i64::MIN <= n <= i64::MAX {
            Some(n as i64)
        } else {
            None
        },
        None => None,
    }
}

proof fn lemma_digits_value_grows(s: Seq<char>, i: int)
    requires
        0 <= i <= s.len(),
        all_digits(s),
    ensures
        0 <= digits_value(s.take(i)) <= digits_value(s),
    decreases s.len(),
{
    if i < s.len() {
        lemma_digits_value_grows(s.drop_last(), i);
        assert(s.drop_last().take(i) =~= s.take(i));
    } else {
        assert(s.take(i) =~= s);
        if s.len() > 0 {
            lemma_digits_value_grows(s.drop_last(), s.len() - 1);
            assert(s.drop_last().take(s.len() - 1) =~= s.drop_last());
        }
    }
}

/// The words in which std refuses a text that is no signed number of 64 bits.
pub uninterp spec fn parse_error(s: Seq<char>) -> Seq<char>;

/// `str::parse` to an `i64`, for the error alone: where the text stands for no
/// such number, what the error displays, which depends on the text alone. What
/// the words are is left unsaid.
#[verifier::external_body]
pub(crate) fn parse_refusal(s: &str) -> (r: String)
    ensures
        parsed(s@) is None ==> r@ == parse_error(s@),
{
    s.parse::<i64>().err().map_or(String::new(), |e| e.to_string())
}

/// Reads a signed decimal number of 64 bits: an optional sign, then digits.
/// `None` where the text is not of that form or the number does not fit.
pub fn parse_decimal(s: &str) -> (r: Option<i64>)
    ensures
        r == parsed(s@),
{
    let v = chars_of(s);
    let mut i: usize = 0;
    let mut negative = false;
    if v.len() > 0 && (v[0] == '-' || v[0] == '+') {
        negative = v[0] == '-';
        i = 1;
    }
    let ghost start = i as int;
    let ghost body = s@.skip(start);
    assert(start == 0 ==> body =~= s@);
    if i == v.len() {
        return None;
    }
    let mut n: i128 = 0;
    while i < v.len()
        invariant
            v@ == s@,
            0 <= start <= i <= v@.len(),
            body == s@.skip(start),
            body.len() > 0,
            negative ==> start == 1 && s@[0] == '-',
            !negative && start == 1 ==> s@[0] == '+',
            start == 0 || start == 1,
            start == 0 ==> s@[0] != '-' && s@[0] != '+' && body == s@,
            0 <= n <= 9223372036854775808,
            n == digits_value(body.take(i - start)),
            forall|j: int| 0 <= j < i - start ==> is_digit(#[trigger] body[j]),
        decreases v@.len() - i,
    {
        let c: char = v[i];
        assert(c == body[i - start]);
        if c < '0' || c > '9' {
            assert(!is_digit(body[i - start]));
            return None;
        }
        let d: i128 = (c as u32 - 48) as i128;
        assert(body.take(i - start + 1).drop_last() =~= body.take(i - start));
        n = n * 10 + d;
        i = i + 1;
        assert(n == digits_value(body.take(i - start)));
        if n > 9223372036854775808 {
            proof {
                if all_digits(body) {
                    lemma_digits_value_grows(body, i - start);
                }
            }
            return None;
        }
    }
    assert(body.take(body.len() as int) =~= body);
    assert(all_digits(body));
    if negative {
        Some((-n) as i64)
    } else if n == 9223372036854775808 {
        None
    } else {
        Some(n as i64)
    }
}

proof fn lemma_digits_are_digits(n: nat)
    ensures
        digits(n).len() > 0,
        all_digits(digits(n)),
        digits_value(digits(n)) == n,
    decreases n,
{
    if n < 10 {
        let s = digits(n);
        assert(s.drop_last() =~= Seq::<char>::empty());
        assert(digits_value(s.drop_last()) == 0);
        assert(s.last() == digit_char(n as int));
    } else {
        lemma_digits_are_digits(n / 10);
        let s = digits(n);
        assert(s.drop_last() =~= digits(n / 10));
        assert(s.last() == digit_char((n % 10) as int));
    }
}

/// Reading a number's decimal form gives the number back.
pub proof fn law_decimal_round_trip(n: i64)
    ensures
        parsed(decimal(n as int)) == Some(n),
{
    if n < 0 {
        lemma_digits_are_digits((-n) as nat);
        assert(decimal(n as int).skip(1) =~= digits((-n) as nat));
    } else {
        lemma_digits_are_digits(n as nat);
        assert(is_digit(decimal(n as int)[0]));
    }
}

/// A decimal form holds digits and at most a minus sign.
pub proof fn lemma_decimal_chars(n: int, i: int)
    requires
        0 <= i < decimal(n).len(),
    ensures
        decimal(n)[i] == '-' || is_digit(decimal(n)[i]),
{
    if n < 0 {
        lemma_digits_are_digits((-n) as nat);
    } else {
        lemma_digits_are_digits(n as nat);
    }
}

/// Parts are joined from the first to the last, with what separates them between
/// each two and nowhere else.
pub proof fn law_parts_are_joined(parts: Seq<Seq<char>>, last: Seq<char>, sep: Seq<char>)
    ensures
        joined(Seq::empty(), sep) == Seq::<char>::empty(),
        joined(seq![last], sep) == last,
        parts.len() > 0 ==> joined(parts.push(last), sep) == joined(parts, sep) + sep + last,
{
    assert(parts.push(last).drop_last() =~= parts);
}

/// Whether two texts agree before a place, at which the first ends or has the
/// smaller character.
pub open spec fn differ_at(a: Seq<char>, b: Seq<char>, i: int) -> bool {
    &&& 0 <= i < b.len() && i <= a.len()
    &&& a.take(i) == b.take(i)
    &&& i == a.len() || (a[i] as int) < (b[i] as int)
}

/// One text comes before another exactly when it is a beginning of the other, or
/// has the smaller character at the first place where they differ.
pub proof fn law_texts_are_ordered_by_characters(a: Seq<char>, b: Seq<char>)
    ensures
        text_lt(a, b) <==> exists|i: int| differ_at(a, b, i),
    decreases a.len(),
{
    if b.len() > 0 && a.len() == 0 {
        assert(a.take(0) =~= b.take(0));
        assert(differ_at(a, b, 0));
    } else if b.len() > 0 && a[0] != b[0] {
        if a[0] < b[0] {
            assert(a.take(0) =~= b.take(0));
            assert(differ_at(a, b, 0));
        }
        if exists|i: int| differ_at(a, b, i) {
            let i = choose|i: int| differ_at(a, b, i);
            if i > 0 {
                assert(a.take(i)[0] == b.take(i)[0]);
            }
        }
    } else if b.len() > 0 {
        let (s, t) = (a.skip(1), b.skip(1));
        law_texts_are_ordered_by_characters(s, t);
        if text_lt(s, t) {
            let i = choose|i: int| differ_at(s, t, i);
            assert forall|k: int| 0 <= k < i + 1 implies a[k] == b[k] by {
                if k > 0 {
                    assert(s.take(i)[k - 1] == t.take(i)[k - 1]);
                }
            }
            assert(a.take(i + 1) =~= b.take(i + 1));
            assert(differ_at(a, b, i + 1));
        }
        if exists|i: int| differ_at(a, b, i) {
            let i = choose|i: int| differ_at(a, b, i);
            assert(i > 0);
            assert forall|k: int| 0 <= k < i - 1 implies s[k] == t[k] by {
                assert(a.take(i)[k + 1] == b.take(i)[k + 1]);
            }
            assert(s.take(i - 1) =~= t.take(i - 1));
            assert(differ_at(s, t, i - 1));
        }
    }
}

proof fn lemma_digits_are_plain(n: nat)
    ensures
        digits(n).len() > 0,
        all_digits(digits(n)),
        n > 0 ==> digits(n)[0] != '0',
        n == 0 ==> digits(n) == seq!['0'],
    decreases n,
{
    if n >= 10 {
        lemma_digits_are_plain(n / 10);
    }
}

/// A number is written in decimal digits, the first of which is no zero unless
/// the number is, behind a minus sign where the number is negative.
pub proof fn law_numbers_are_written_plainly(n: int)
    ensures
        n == 0 ==> decimal(n) == seq!['0'],
        n > 0 ==> all_digits(decimal(n)) && decimal(n).len() > 0 && decimal(n)[0] != '0',
        n < 0 ==> decimal(n) == seq!['-'] + decimal(-n),
{
    lemma_digits_are_plain(
        if n < 0 {
            (-n) as nat
        } else {
            n as nat
        },
    );
}

/// A text is read as a number exactly when it is made of digits, at least one,
/// behind a sign or none, and the number fits into 64 bits with a sign.
pub proof fn law_numbers_are_read(s: Seq<char>, d: char)
    requires
        s.len() > 0,
        all_digits(s),
        is_digit(d),
    ensures
        digits_value(seq![d]) == d as int - 48,
        digits_value(s.push(d)) == 10 * digits_value(s) + (d as int - 48),
        parsed(s) == (if digits_value(s) <= i64::MAX {
            Some(digits_value(s) as i64)
        } else {
            None
        }),
        parsed(seq!['+'] + s) == parsed(s),
        parsed(seq!['-'] + s) == (if digits_value(s) <= i64::MAX + 1 {
            Some((-digits_value(s)) as i64)
        } else {
            None
        }),
{
    reveal_with_fuel(digits_value, 2);
    assert(seq![d].drop_last() =~= Seq::empty());
    assert(s.push(d).drop_last() =~= s);
    assert((seq!['+'] + s).skip(1) =~= s);
    assert((seq!['-'] + s).skip(1) =~= s);
    assert(is_digit(s[0]));
    lemma_value_is_no_debt(s);
}

proof fn lemma_value_is_no_debt(s: Seq<char>)
    requires
        all_digits(s),
    ensures
        digits_value(s) >= 0,
    decreases s.len(),
{
    if s.len() > 0 {
        assert(is_digit(s[s.len() - 1]));
        assert forall|i: int| 0 <= i < s.drop_last().len() implies is_digit(
            #[trigger] s.drop_last()[i],
        ) by {
            assert(is_digit(s[i]));
        }
        lemma_value_is_no_debt(s.drop_last());
    }
}

/// What is no number is not read as one: the empty text, a sign alone, and any
/// text in which something other than a digit stands behind the first character,
/// or something other than a digit or a sign stands first.
pub proof fn law_no_other_text_is_a_number(s: Seq<char>)
    ensures
        parsed(s) is Some ==> {
            &&& s.len() > 0
            &&& is_digit(s[0]) || ((s[0] == '-' || s[0] == '+') && s.len() > 1)
            &&& forall|i: int| 0 < i < s.len() ==> is_digit(#[trigger] s[i])
        },
{
    if parsed(s) is Some {
        if s[0] == '-' || s[0] == '+' {
            assert forall|i: int| 0 < i < s.len() implies is_digit(#[trigger] s[i]) by {
                assert(is_digit(s.skip(1)[i - 1]));
            }
        } else {
            assert(is_digit(s[0]));
        }
    }
}

/// A text stands in another where the other is made of something, the text, and
/// something; it stands at its end where nothing follows.
pub proof fn law_texts_stand_in_texts(s: Seq<char>, t: Seq<char>)
    ensures
        occurs(s, t) <==> exists|head: Seq<char>, tail: Seq<char>|
            s == #[trigger] (head + t + tail),
        has_suffix(s, t) <==> exists|head: Seq<char>| s == #[trigger] (head + t),
{
    if occurs(s, t) {
        let i = choose|i: int| occurs_at(s, t, i);
        assert(s =~= s.take(i) + t + s.skip(i + t.len()));
    }
    if exists|head: Seq<char>, tail: Seq<char>| s == #[trigger] (head + t + tail) {
        let (head, tail) = choose|head: Seq<char>, tail: Seq<char>|
            s == #[trigger] (head + t + tail);
        assert(s.subrange(head.len() as int, (head.len() + t.len()) as int) =~= t);
        assert(occurs_at(s, t, head.len() as int));
    }
    if has_suffix(s, t) {
        assert(s =~= s.take(s.len() - t.len()) + t);
    }
    if exists|head: Seq<char>| s == #[trigger] (head + t) {
        let head = choose|head: Seq<char>| s == #[trigger] (head + t);
        assert(s.subrange(s.len() - t.len(), s.len() as int) =~= t);
    }
}

} // verus!
