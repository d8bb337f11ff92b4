//! Text: comparison, joining, splitting and decimal numbers.
//!
//! A string is modelled by the sequence of its characters.
use vstd::prelude::*;
use vstd::utf8::{
    decode_utf8, encode_scalar, encode_utf8, encode_utf8_decode_utf8, valid_utf8,
};

verus! {

/// `std::string::String::push` appends the character to the end of the string.
pub assume_specification[ String::push ](s: &mut String, c: char)
    ensures
        final(s)@ == old(s)@.push(c),
;

/// Lexicographic order of texts by the code points of their characters.
pub open spec fn before(a: Seq<char>, b: Seq<char>) -> bool
    decreases a.len(),
{
    if b.len() == 0 {
        false
    } else if a.len() == 0 {
        true
    } else if a[0] == b[0] {
        before(a.skip(1), b.skip(1))
    } else {
        (a[0] as int) < (b[0] as int)
    }
}

/// Whether a text stands before another.
pub(crate) fn precedes(a: &str, b: &str) -> (r: bool)
    ensures
        r == before(a@, b@),
{
    let first = chars(a);
    let second = chars(b);
    let mut i: usize = 0;
    assert(a@.skip(0) =~= a@);
    assert(b@.skip(0) =~= b@);
    while i < first.len() && i < second.len()
        invariant
            i <= first@.len(),
            i <= second@.len(),
            first@ == a@,
            second@ == b@,
            before(a@, b@) == before(a@.skip(i as int), b@.skip(i as int)),
        decreases first@.len() - i,
    {
        let c: char = first[i];
        let d: char = second[i];
        if c != d {
            return c < d;
        }
        assert(a@.skip(i as int).skip(1) =~= a@.skip(i + 1));
        assert(b@.skip(i as int).skip(1) =~= b@.skip(i + 1));
        i += 1;
    }
    i < second.len()
}

/// The message of the error with which `std::str::from_utf8` refuses bytes.
pub uninterp spec fn utf8_message(bytes: Seq<u8>) -> Seq<char>;

/// Calls `std::str::from_utf8`, which accepts exactly the valid UTF-8 sequences and hands
/// back the characters they encode; an error is handed on as its message.
#[verifier::external_body]
pub(crate) fn from_utf8(bytes: &[u8]) -> (r: Result<&str, String>)
    ensures
        r is Ok <==> valid_utf8(bytes@),
        r is Ok ==> r->Ok_0@ == decode_utf8(bytes@),
        r is Err ==> r->Err_0@ == utf8_message(bytes@),
{
    std::str::from_utf8(bytes).map_err(|e| e.to_string())
}

/// What `char::is_whitespace` says of a character.
pub uninterp spec fn whitespace(c: char) -> bool;

/// Calls `char::is_whitespace`.
#[verifier::external_body]
pub(crate) fn is_whitespace(c: char) -> (r: bool)
    ensures
        r == whitespace(c),
{
    c.is_whitespace()
}

/// How a text is written between quotation marks by its `Debug` form.
pub uninterp spec fn quoted(s: Seq<char>) -> Seq<char>;

/// Formats a string with its `Debug` form.
#[verifier::external_body]
pub(crate) fn quote(s: &str) -> (r: String)
    ensures
        r@ == quoted(s@),
{
    format!("{s:?}")
}

/// Whether two strings hold the same characters.
pub fn same(a: &str, b: &str) -> (r: bool)
    ensures
        r == (a@ == b@),
{
    let x = a.as_bytes();
    let y = b.as_bytes();
    proof {
        encode_utf8_decode_utf8(a@);
        encode_utf8_decode_utf8(b@);
    }
    if x.len() != y.len() {
        return false;
    }
    let mut i: usize = 0;
    while i < x.len()
        invariant
            i <= x.len(),
            x@.len() == y@.len(),
            x@ == encode_utf8(a@),
            y@ == encode_utf8(b@),
            forall|j: int| 0 <= j < i ==> x@[j] == y@[j],
        decreases x.len() - i,
    {
        if x[i] != y[i] {
            return false;
        }
        i += 1;
    }
    assert(x@ =~= y@);
    true
}

/// Whether a string holds no characters.
pub fn is_empty(s: &str) -> (r: bool)
    ensures
        r == (s@.len() == 0),
{
    proof {
        reveal_strlit("");
        if s@.len() == 0 {
            assert(s@ =~= ""@);
        }
    }
    same(s, "")
}

/// The characters of a string, in order.
pub fn chars(s: &str) -> (r: Vec<char>)
    ensures
        r@ == s@,
{
    let mut out: Vec<char> = Vec::new();
    for c in it: s.chars()
        invariant
            out@ =~= s@.take(it.index() as int),
            it.seq() == s@,
            0 <= it.index() <= s@.len(),
    {
        out.push(c);
    }
    assert(s@.take(s@.len() as int) =~= s@);
    out
}

/// Two texts, one behind the other.
pub fn join(a: &str, b: &str) -> (r: String)
    ensures
        r@ == a@ + b@,
{
    let mut out = a.to_owned();
    out.append(b);
    out
}

/// Three texts, one behind the other.
pub fn join3(a: &str, b: &str, c: &str) -> (r: String)
    ensures
        r@ == a@ + b@ + c@,
{
    let mut out = a.to_owned();
    out.append(b);
    out.append(c);
    out
}

/// Four texts, one behind the other.
pub fn join4(a: &str, b: &str, c: &str, d: &str) -> (r: String)
    ensures
        r@ == a@ + b@ + c@ + d@,
{
    let mut out = a.to_owned();
    out.append(b);
    out.append(c);
    out.append(d);
    out
}

pub open spec fn has_prefix(s: Seq<char>, prefix: Seq<char>) -> bool {
    prefix.len() <= s.len() && s.take(prefix.len() as int) == prefix
}

pub open spec fn has_suffix(s: Seq<char>, suffix: Seq<char>) -> bool {
    suffix.len() <= s.len() && s.skip(s.len() - suffix.len()) == suffix
}

/// Whether the text begins with the prefix.
pub fn starts_with(s: &str, prefix: &str) -> (r: bool)
    ensures
        r == has_prefix(s@, prefix@),
{
    let n = prefix.unicode_len();
    if s.unicode_len() < n {
        return false;
    }
    same(s.substring_char(0, n), prefix)
}

/// Whether the text ends with the suffix.
pub fn ends_with(s: &str, suffix: &str) -> (r: bool)
    ensures
        r == has_suffix(s@, suffix@),
{
    let n = suffix.unicode_len();
    let len = s.unicode_len();
    if len < n {
        return false;
    }
    same(s.substring_char(len - n, len), suffix)
}

pub open spec fn blank(s: Seq<char>) -> bool {
    forall|i: int| 0 <= i < s.len() ==> whitespace(#[trigger] s[i])
}

/// Whether the text holds whitespace only (the empty text does).
pub fn is_blank(s: &str) -> (r: bool)
    ensures
        r == blank(s@),
{
    let cs = chars(s);
    let mut i: usize = 0;
    while i < cs.len()
        invariant
            i <= cs.len(),
            cs@ == s@,
            forall|j: int| 0 <= j < i ==> whitespace(#[trigger] s@[j]),
        decreases cs.len() - i,
    {
        if !is_whitespace(cs[i]) {
            assert(!whitespace(s@[i as int]));
            return false;
        }
        i += 1;
    }
    true
}

/// What stands behind the last separator: the whole text where it holds none.
pub open spec fn after_last(s: Seq<char>, separator: char) -> Seq<char>
    decreases s.len(),
{
    if s.len() == 0 || s.last() == separator {
        Seq::empty()
    } else {
        after_last(s.drop_last(), separator).push(s.last())
    }
}

pub fn tail_after(s: &str, separator: char) -> (r: String)
    ensures
        r@ == after_last(s@, separator),
{
    let cs = chars(s);
    let n = cs.len();
    let mut i: usize = n;
    proof {
        assert(s@.take(n as int) =~= s@);
        assert(after_last(s@, separator) =~= after_last(s@.take(n as int), separator) + s@.skip(n as int));
    }
    while i > 0 && cs[i - 1] != separator
        invariant
            i <= n,
            n == cs@.len(),
            cs@ == s@,
            after_last(s@, separator) == after_last(s@.take(i as int), separator) + s@.skip(i as int),
        decreases i,
    {
        proof {
            let p = s@.take(i as int);
            assert(p.drop_last() =~= s@.take(i - 1));
            assert(p.last() == s@[i - 1]);
            assert(after_last(p, separator) == after_last(p.drop_last(), separator).push(p.last()));
            assert(after_last(p, separator) + s@.skip(i as int)
                =~= after_last(s@.take(i - 1), separator) + s@.skip(i - 1));
        }
        i -= 1;
    }
    proof {
        let p = s@.take(i as int);
        assert(after_last(p, separator) =~= Seq::empty());
        assert(s@.skip(i as int) =~= cs@.subrange(i as int, n as int));
        assert(after_last(s@, separator) =~= s@.skip(i as int));
    }
    let tail = s.substring_char(i, n);
    assert(tail@ =~= s@.skip(i as int));
    tail.to_owned()
}

/// The character of a decimal digit.
pub open spec fn digit(d: nat) -> char {
    if d == 0 { '0' } else if d == 1 { '1' } else if d == 2 { '2' } else if d == 3 { '3' }
    else if d == 4 { '4' } else if d == 5 { '5' } else if d == 6 { '6' } else if d == 7 { '7' }
    else if d == 8 { '8' } else { '9' }
}

/// The decimal digits of a number, without leading zeros.
pub open spec fn decimal(n: nat) -> Seq<char>
    decreases n,
{
    if n < 10 {
        seq![digit(n)]
    } else {
        decimal(n / 10).push(digit(n % 10))
    }
}

fn digit_char(d: u64) -> (r: char)
    requires
        d < 10,
    ensures
        r == digit(d as nat),
{
    if d == 0 { '0' } else if d == 1 { '1' } else if d == 2 { '2' } else if d == 3 { '3' }
    else if d == 4 { '4' } else if d == 5 { '5' } else if d == 6 { '6' } else if d == 7 { '7' }
    else if d == 8 { '8' } else { '9' }
}

/// A number written in decimal.
pub fn number(n: u64) -> (r: String)
    ensures
        r@ == decimal(n as nat),
    decreases n,
{
    if n < 10 {
        let mut out = String::new();
        out.push(digit_char(n));
        assert(out@ =~= seq![digit(n as nat)]);
        out
    } else {
        let mut out = number(n / 10);
        out.push(digit_char(n % 10));
        out
    }
}

pub open spec fn is_digit(c: char) -> bool {
    '0' as u32 <= c as u32 <= '9' as u32
}

/// The number that decimal digits write.
pub open spec fn decimal_value(s: Seq<char>) -> nat
    decreases s.len(),
{
    if s.len() == 0 {
        0
    } else {
        10 * decimal_value(s.drop_last()) + (s.last() as u32 - '0' as u32) as nat
    }
}

pub open spec fn all_digits(s: Seq<char>) -> bool {
    forall|i: int| 0 <= i < s.len() ==> is_digit(#[trigger] s[i])
}

/// The number that a text writes in decimal digits, where it does and 64 bits hold it.
pub open spec fn parsed_number(s: Seq<char>) -> Option<u64> {
    if s.len() > 0 && all_digits(s) && decimal_value(s) <= u64::MAX {
        Some(decimal_value(s) as u64)
    } else {
        None
    }
}

proof fn decimal_value_grows(s: Seq<char>, n: int)
    requires
        0 <= n <= s.len(),
        all_digits(s),
    ensures
        decimal_value(s.take(n)) <= decimal_value(s),
    decreases s.len() - n,
{
    if n < s.len() {
        decimal_value_grows(s, n + 1);
        assert(s.take(n + 1).drop_last() =~= s.take(n));
        assert(s.take(n + 1).last() == s[n]);
        assert(is_digit(s[n]));
    } else {
        assert(s.take(n) =~= s);
    }
}

pub fn parse_number(s: &str) -> (r: Option<u64>)
    ensures
        r == parsed_number(s@),
{
    let cs = chars(s);
    if cs.len() == 0 {
        return None;
    }
    let mut i: usize = 0;
    let mut value: u64 = 0;
    while i < cs.len()
        invariant
            i <= cs.len(),
            cs@ == s@,
            value == decimal_value(s@.take(i as int)),
            forall|j: int| 0 <= j < i ==> is_digit(#[trigger] s@[j]),
        decreases cs.len() - i,
    {
        let code: u32 = cs[i] as u32;
        if code < '0' as u32 || code > '9' as u32 {
            assert(!is_digit(s@[i as int]));
            return None;
        }
        let d: u64 = (code - '0' as u32) as u64;
        proof {
            assert(s@.take(i + 1).drop_last() =~= s@.take(i as int));
            assert(s@.take(i + 1).last() == s@[i as int]);
            assert(decimal_value(s@.take(i + 1)) == 10 * value + d);
            if 10 * value + d > u64::MAX && all_digits(s@) {
                decimal_value_grows(s@, i + 1);
            }
        }
        if value > (u64::MAX - d) / 10 {
            return None;
        }
        value = value * 10 + d;
        i += 1;
    }
    assert(s@.take(s@.len() as int) =~= s@);
    Some(value)
}

/// An integer in decimal, with a sign where it is negative.
pub open spec fn signed_decimal(n: int) -> Seq<char> {
    if n < 0 {
        "-"@ + decimal((-n) as nat)
    } else {
        decimal(n as nat)
    }
}

/// A signed number written in decimal.
pub fn signed_number(n: i64) -> (r: String)
    ensures
        r@ == signed_decimal(n as int),
{
    if n < 0 {
        // The negation of the least number does not fit its type.
        let size: u64 = ((-(n + 1)) as u64) + 1;
        let digits = number(size);
        join("-", digits.as_str())
    } else {
        number(n as u64)
    }
}

// ---------------------------------------------------------------------------------------
// Fragments
// ---------------------------------------------------------------------------------------
/// The bytes that a text takes in UTF-8.
pub open spec fn byte_len(s: Seq<char>) -> nat {
    encode_utf8(s).len()
}

/// The bytes that a character takes in UTF-8.
pub open spec fn width(c: char) -> nat {
    encode_scalar(c as u32).len()
}

fn char_width(c: char) -> (r: usize)
    ensures
        r == width(c),
        1 <= r <= 4,
{
    let code: u32 = c as u32;
    if code < 0x80 {
        1
    } else if code < 0x800 {
        2
    } else if code < 0x10000 {
        3
    } else {
        4
    }
}

/// A text takes the bytes of its parts.
pub proof fn byte_len_adds(a: Seq<char>, b: Seq<char>)
    ensures
        byte_len(a + b) == byte_len(a) + byte_len(b),
    decreases a.len(),
{
    if a.len() == 0 {
        assert(a + b =~= b);
    } else {
        assert((a + b).drop_first() =~= a.drop_first() + b);
        assert((a + b)[0] == a[0]);
        byte_len_adds(a.drop_first(), b);
    }
}

proof fn byte_len_of_one(c: char)
    ensures
        byte_len(seq![c]) == width(c),
{
    assert(seq![c].drop_first() =~= Seq::empty());
    assert(encode_utf8(seq![c]) =~= encode_scalar(c as u32) + encode_utf8(Seq::empty()));
}

/// How many characters of a text fit in a number of bytes.
pub open spec fn fitting(s: Seq<char>, limit: nat) -> nat
    decreases s.len(),
{
    if s.len() == 0 || width(s[0]) > limit {
        0
    } else {
        1 + fitting(s.drop_first(), (limit - width(s[0])) as nat)
    }
}

/// A text cut into fragments of as many whole characters as fit a number of bytes; the empty
/// text is one fragment.
pub open spec fn fragments(s: Seq<char>, limit: nat) -> Seq<Seq<char>>
    decreases s.len(),
{
    let n = fitting(s, limit);
    if n == 0 || n >= s.len() {
        seq![s]
    } else {
        seq![s.take(n as int)] + fragments(s.skip(n as int), limit)
    }
}

proof fn fitting_fits(s: Seq<char>, limit: nat)
    ensures
        fitting(s, limit) <= s.len(),
        byte_len(s.take(fitting(s, limit) as int)) <= limit,
        fitting(s, limit) < s.len() ==> byte_len(s.take(fitting(s, limit) as int + 1)) > limit,
        limit >= 4 && s.len() > 0 ==> fitting(s, limit) > 0,
    decreases s.len(),
{
    if s.len() == 0 {
        assert(s.take(0) =~= Seq::empty());
    } else if width(s[0]) > limit {
        assert(s.take(0) =~= Seq::empty());
        assert(s.take(1) =~= seq![s[0]]);
        byte_len_of_one(s[0]);
    } else {
        let rest = s.drop_first();
        let left = (limit - width(s[0])) as nat;
        let n = fitting(rest, left) as int;
        fitting_fits(rest, left);
        byte_len_of_one(s[0]);
        assert(s.take(n + 1) =~= seq![s[0]] + rest.take(n));
        byte_len_adds(seq![s[0]], rest.take(n));
        if n < rest.len() {
            assert(s.take(n + 2) =~= seq![s[0]] + rest.take(n + 1));
            byte_len_adds(seq![s[0]], rest.take(n + 1));
        }
    }
}

/// Texts, one behind the other.
pub open spec fn concatenated(parts: Seq<Seq<char>>) -> Seq<char>
    decreases parts.len(),
{
    if parts.len() == 0 {
        Seq::empty()
    } else {
        parts[0] + concatenated(parts.drop_first())
    }
}

/// Fragments put together are the text, and each takes no more than the limit.
pub proof fn fragments_make_up_the_text(s: Seq<char>, limit: nat)
    requires
        limit >= 4,
    ensures
        concatenated(fragments(s, limit)) == s,
        forall|i: int|
            0 <= i < fragments(s, limit).len() ==> byte_len(#[trigger] fragments(s, limit)[i])
                <= limit,
    decreases s.len(),
{
    let n = fitting(s, limit);
    fitting_fits(s, limit);
    if n == 0 || n >= s.len() {
        let parts = seq![s];
        assert(parts.drop_first() =~= Seq::empty());
        assert(concatenated(parts) =~= s + concatenated(parts.drop_first()));
        assert(s + Seq::empty() =~= s);
        assert(s.take(n as int) =~= s);
    } else {
        let first = s.take(n as int);
        let rest = fragments(s.skip(n as int), limit);
        fragments_make_up_the_text(s.skip(n as int), limit);
        let parts = seq![first] + rest;
        assert(parts.drop_first() =~= rest);
        assert(first + s.skip(n as int) =~= s);
        assert forall|i: int| 0 <= i < parts.len() implies byte_len(#[trigger] parts[i])
            <= limit by {
            if i > 0 {
                assert(parts[i] == rest[i - 1]);
            }
        }
    }
}

/// Fragments are no smaller than they must be: another character would not have fitted.
pub proof fn fragments_are_full(s: Seq<char>, limit: nat)
    requires
        limit >= 4,
        fragments(s, limit).len() > 1,
    ensures
        0 < fragments(s, limit)[0].len() < s.len(),
        byte_len(s.take(fragments(s, limit)[0].len() as int + 1)) > limit,
{
    fitting_fits(s, limit);
}

/// Cuts a text into fragments of at most so many bytes.
pub fn split_fragments(s: &str, limit: usize) -> (r: Vec<String>)
    requires
        limit >= 4,
    ensures
        r.deep_view() == fragments(s@, limit as nat),
{
    let cs = chars(s);
    let ghost all = s@;
    let mut out: Vec<String> = Vec::new();
    let mut start: usize = 0;
    let mut done = false;
    proof {
        assert(all.skip(0) =~= all);
        assert(out.deep_view() + fragments(all, limit as nat) =~= fragments(all, limit as nat));
    }
    while !done
        invariant
            limit >= 4,
            cs@ == all,
            all == s@,
            start <= cs@.len(),
            !done ==> out.deep_view() + fragments(all.skip(start as int), limit as nat)
                == fragments(all, limit as nat),
            done ==> out.deep_view() == fragments(all, limit as nat),
        decreases cs@.len() - start, (if done { 0int } else { 1int }),
    {
        let ghost rest = all.skip(start as int);
        let mut end: usize = start;
        let mut used: usize = 0;
        proof {
            assert(rest.skip(0) =~= rest);
        }
        while end < cs.len() && char_width(cs[end]) <= limit - used
            invariant
                cs@ == all,
                start <= end <= cs@.len(),
                used <= limit,
                rest == all.skip(start as int),
                fitting(rest, limit as nat) == (end - start) + fitting(
                    rest.skip(end - start),
                    (limit - used) as nat,
                ),
            decreases cs@.len() - end,
        {
            proof {
                let tail = rest.skip(end - start);
                assert(tail[0] == all[end as int]);
                assert(tail.drop_first() =~= rest.skip(end - start + 1));
            }
            used = used + char_width(cs[end]);
            end += 1;
        }
        proof {
            let tail = rest.skip(end - start);
            if end < cs@.len() {
                assert(tail[0] == all[end as int]);
            } else {
                assert(tail.len() == 0);
            }
            assert(fitting(rest, limit as nat) == end - start);
            fitting_fits(rest, limit as nat);
        }
        let part = s.substring_char(start, end);
        let ghost before = out.deep_view();
        let ghost added = part@;
        out.push(part.to_owned());
        proof {
            assert(out.deep_view() =~= before.push(added));
            assert(added =~= rest.take(end - start));
        }
        if end == cs.len() {
            proof {
                assert(rest.take(end - start) =~= rest);
                assert(before + seq![rest] =~= out.deep_view());
            }
            done = true;
        } else {
            proof {
                let later = fragments(all.skip(end as int), limit as nat);
                assert(rest.skip(end - start) =~= all.skip(end as int));
                assert(before + (seq![added] + later) =~= out.deep_view() + later);
            }
        }
        start = end;
    }
    out
}

/// A number that was written in decimal is read as that number. It has digits alone, and no
/// leading zero.
pub proof fn decimals_are_read_back(n: nat)
    ensures
        decimal(n).len() > 0,
        all_digits(decimal(n)),
        decimal_value(decimal(n)) == n,
        n > 0 ==> decimal(n)[0] != '0',
        n <= u64::MAX ==> parsed_number(decimal(n)) == Some(n as u64),
    decreases n,
{
    let all = decimal(n);
    if n < 10 {
        assert(all.drop_last() =~= Seq::empty());
        assert(decimal_value(all.drop_last()) == 0);
    } else {
        let front = decimal(n / 10);
        decimals_are_read_back(n / 10);
        assert(all.drop_last() =~= front);
        assert(all.last() == digit(n % 10));
        assert forall|i: int| 0 <= i < all.len() implies is_digit(#[trigger] all[i]) by {
            if i < front.len() {
                assert(all[i] == front[i]);
            }
        }
        assert(all[0] == front[0]);
    }
}

/// Different numbers are written differently.
pub proof fn decimals_tell_numbers_apart(a: nat, b: nat)
    ensures
        decimal(a) == decimal(b) ==> a == b,
{
    decimals_are_read_back(a);
    decimals_are_read_back(b);
}

/// Of two texts that differ one comes before the other, and not the other way round.
pub proof fn texts_are_ordered(a: Seq<char>, b: Seq<char>)
    ensures
        !before(a, a),
        a != b ==> (before(a, b) <==> !before(b, a)),
        b.len() > a.len() && b.take(a.len() as int) == a ==> before(a, b),
    decreases a.len(),
{
    if a.len() > 0 {
        texts_are_ordered(a.skip(1), a.skip(1));
    }
    if a.len() > 0 && b.len() > 0 {
        if a[0] == b[0] {
            texts_are_ordered(a.skip(1), b.skip(1));
            if a.skip(1) == b.skip(1) {
                assert(a =~= seq![a[0]] + a.skip(1));
                assert(b =~= seq![b[0]] + b.skip(1));
            }
            if b.len() > a.len() && b.take(a.len() as int) == a {
                assert(b.skip(1).take(a.skip(1).len() as int) =~= a.skip(1));
            }
        } else if b.len() > a.len() && b.take(a.len() as int) == a {
            assert(b.take(a.len() as int)[0] == b[0]);
        }
    } else if a.len() == 0 && b.len() == 0 {
        assert(a =~= b);
    }
}

/// What comes before a text that comes before a third comes before the third.
pub proof fn the_order_of_texts_goes_on(a: Seq<char>, b: Seq<char>, c: Seq<char>)
    requires
        before(a, b),
        before(b, c),
    ensures
        before(a, c),
    decreases a.len(),
{
    if a.len() > 0 && a[0] == b[0] && b[0] == c[0] {
        the_order_of_texts_goes_on(a.skip(1), b.skip(1), c.skip(1));
    }
}

/// What stands behind the last separator holds none, and stands at the end behind one.
pub proof fn the_tail_is_behind_the_last_separator(whole: Seq<char>, separator: char)
    ensures
        ({
            let tail = after_last(whole, separator);
            &&& tail.len() <= whole.len()
            &&& tail == whole.skip(whole.len() - tail.len())
            &&& !tail.contains(separator)
            &&& tail.len() < whole.len() ==> whole[whole.len() - tail.len() - 1] == separator
        }),
    decreases whole.len(),
{
    let tail = after_last(whole, separator);
    if whole.len() > 0 && whole.last() != separator {
        let front = whole.drop_last();
        let inner = after_last(front, separator);
        the_tail_is_behind_the_last_separator(front, separator);
        assert(tail == inner.push(whole.last()));
        assert(tail =~= whole.skip(whole.len() - tail.len()));
        assert forall|i: int| 0 <= i < tail.len() implies tail[i] != separator by {
            if i < inner.len() {
                assert(inner.contains(inner[i]));
            }
        }
    } else {
        assert(tail =~= whole.skip(whole.len() as int));
    }
}

} // verus!
