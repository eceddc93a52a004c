//! Byte-level helpers shared by the text grammars of this crate.

use vstd::prelude::*;

verus! {

pub const SPACE: u8 = 0x20;
pub const TAB: u8 = 0x09;
pub const CR: u8 = 0x0d;
pub const LF: u8 = 0x0a;
pub const PLUS: u8 = 0x2b;
pub const COMMA: u8 = 0x2c;
pub const DOT: u8 = 0x2e;
pub const COLON: u8 = 0x3a;
pub const SEMICOLON: u8 = 0x3b;
pub const EQUALS: u8 = 0x3d;
pub const QUOTE: u8 = 0x22;

/// Index of the first `delim` in `buf` at or after `from`, if there is one.
pub open spec fn find_from(buf: Seq<u8>, from: int, delim: u8) -> Option<int>
    decreases buf.len() - from,
{
    if from < 0 || from >= buf.len() {
        None
    } else if buf[from] == delim {
        Some(from)
    } else {
        find_from(buf, from + 1, delim)
    }
}

/// Any index that holds `delim`, with none before it from `from` on, is the
/// one `find_from` returns.
pub proof fn lemma_find_from_is(buf: Seq<u8>, from: int, delim: u8, at: int)
    requires
        0 <= from <= at < buf.len(),
        buf[at] == delim,
        forall|j: int| from <= j < at ==> buf[j] != delim,
    ensures
        find_from(buf, from, delim) == Some(at),
    decreases at - from,
{
    if from < at {
        lemma_find_from_is(buf, from + 1, delim, at);
    }
}

/// Nothing is found where no index from `from` on holds `delim`.
pub proof fn lemma_find_from_none(buf: Seq<u8>, from: int, delim: u8)
    requires
        0 <= from,
        forall|j: int| from <= j < buf.len() ==> buf[j] != delim,
    ensures
        find_from(buf, from, delim) is None,
    decreases buf.len() - from,
{
    if from < buf.len() {
        lemma_find_from_none(buf, from + 1, delim);
    }
}

/// Searches `buf` from `from` on for the first `delim`.
pub fn find_byte(buf: &[u8], from: usize, delim: u8) -> (r: Option<usize>)
    ensures
        match r {
            Some(i) => {
                &&& find_from(buf@, from as int, delim) == Some(i as int)
                &&& from <= i < buf.len()
                &&& buf@[i as int] == delim
                &&& forall|j: int| from <= j < i ==> buf@[j] != delim
            },
            None => {
                &&& find_from(buf@, from as int, delim) is None
                &&& forall|j: int| from <= j < buf@.len() ==> buf@[j] != delim
            },
        },
{
    let mut i: usize = from;
    while i < buf.len()
        invariant
            from <= i,
            forall|j: int| from <= j < i && j < buf@.len() ==> buf@[j] != delim,
        decreases buf.len() - i,
    {
        if buf[i] == delim {
            proof {
                lemma_find_from_is(buf@, from as int, delim, i as int);
            }
            return Some(i);
        }
        i += 1;
    }
    proof {
        lemma_find_from_none(buf@, from as int, delim);
    }
    None
}

pub open spec fn is_digit(b: u8) -> bool {
    0x30 <= b <= 0x39
}

pub open spec fn all_digits(s: Seq<u8>) -> bool {
    forall|i: int| 0 <= i < s.len() ==> is_digit(#[trigger] s[i])
}

/// The number that a string of decimal digits denotes.
pub open spec fn decimal_value(s: Seq<u8>) -> nat
    decreases s.len(),
{
    if s.len() == 0 {
        0
    } else {
        decimal_value(s.drop_last()) * 10 + (s.last() - 0x30) as nat
    }
}

/// A longer digit string denotes no less than any of its prefixes.
pub proof fn lemma_decimal_prefix(s: Seq<u8>, k: int)
    requires
        all_digits(s),
        0 <= k <= s.len(),
    ensures
        decimal_value(s.subrange(0, k)) <= decimal_value(s),
    decreases s.len() - k,
{
    if k < s.len() {
        lemma_decimal_prefix(s, k + 1);
        let t = s.subrange(0, k + 1);
        assert(t.drop_last() =~= s.subrange(0, k));
        assert(is_digit(s[k]));
        assert(t.last() == s[k]);
    } else {
        assert(s.subrange(0, k) =~= s);
    }
}

/// The value of an unsigned decimal number of at most `max`: an optional
/// `+` sign, then one or more digits.
pub open spec fn spec_unsigned(s: Seq<u8>, max: nat) -> Option<nat> {
    let digits = if s.len() > 0 && s[0] == PLUS {
        s.subrange(1, s.len() as int)
    } else {
        s
    };
    if digits.len() > 0 && all_digits(digits) && decimal_value(digits) <= max {
        Some(decimal_value(digits))
    } else {
        None
    }
}

/// Parses the decimal digits `buf[from..]`, none of them if that is empty,
/// by the rules of `spec_unsigned` after the sign.
pub(crate) fn parse_digits(buf: &[u8], from: usize, max: u32) -> (r: Option<u32>)
    requires
        from <= buf.len(),
    ensures
        ({
            let d = buf@.subrange(from as int, buf@.len() as int);
            match r {
                Some(v) => d.len() > 0 && all_digits(d) && decimal_value(d) == v && v <= max,
                None => !(d.len() > 0 && all_digits(d) && decimal_value(d) <= max),
            }
        }),
{
    let ghost d = buf@.subrange(from as int, buf@.len() as int);
    if from == buf.len() {
        return None;
    }
    let mut acc: u64 = 0;
    let mut i: usize = from;
    while i < buf.len()
        invariant
            from <= i <= buf.len(),
            d == buf@.subrange(from as int, buf@.len() as int),
            all_digits(d.subrange(0, i - from)),
            acc == decimal_value(d.subrange(0, i - from)),
            acc <= max,
        decreases buf.len() - i,
    {
        let b = buf[i];
        let ghost next = d.subrange(0, i - from + 1);
        proof {
            assert(next.drop_last() =~= d.subrange(0, i - from));
            assert(next.last() == b);
        }
        if b < 0x30 || b > 0x39 {
            assert(!is_digit(d[i - from]));
            return None;
        }
        acc = acc * 10 + (b - 0x30) as u64;
        proof {
            assert forall|j: int| 0 <= j < next.len() implies is_digit(#[trigger] next[j]) by {
                if j < next.len() - 1 {
                    assert(next[j] == d.subrange(0, i - from)[j]);
                }
            }
        }
        if acc > max as u64 {
            proof {
                if all_digits(d) {
                    lemma_decimal_prefix(d, i - from + 1);
                }
            }
            return None;
        }
        i += 1;
    }
    proof {
        assert(d.subrange(0, i - from) =~= d);
    }
    Some(acc as u32)
}

/// Parses an unsigned decimal number of at most `max`.
pub fn parse_unsigned(buf: &[u8], max: u32) -> (r: Option<u32>)
    ensures
        match r {
            Some(v) => spec_unsigned(buf@, max as nat) == Some(v as nat),
            None => spec_unsigned(buf@, max as nat) is None,
        },
{
    if buf.len() > 0 && buf[0] == PLUS {
        let rest = &buf[1..buf.len()];
        let r = parse_digits(rest, 0, max);
        proof {
            assert(rest@.subrange(0, rest@.len() as int) =~= rest@);
        }
        r
    } else {
        let r = parse_digits(buf, 0, max);
        proof {
            assert(buf@.subrange(0, buf@.len() as int) =~= buf@);
        }
        r
    }
}

/// Where `field` and then `delim` stand in `buf` at `pos`, and `field`
/// holds no `delim`, the search from `pos` ends where the field ends.
pub proof fn lemma_find_after_field(buf: Seq<u8>, pos: int, field: Seq<u8>, delim: u8)
    requires
        0 <= pos,
        pos + field.len() < buf.len(),
        forall|j: int| 0 <= j < field.len() ==> buf[pos + j] == field[j] && field[j] != delim,
        buf[pos + field.len()] == delim,
    ensures
        find_from(buf, pos, delim) == Some(pos + field.len()),
        buf.subrange(pos, pos + field.len()) == field,
{
    assert forall|j: int| pos <= j < pos + field.len() implies buf[j] != delim by {
        assert(buf[pos + (j - pos)] == field[j - pos]);
    }
    lemma_find_from_is(buf, pos, delim, pos + field.len());
    assert(buf.subrange(pos, pos + field.len()) =~= field);
}

/// Where `buf` ends within a field that holds no `delim`, the search from
/// the start of the field finds nothing.
pub proof fn lemma_find_in_cut_field(buf: Seq<u8>, pos: int, field: Seq<u8>, delim: u8)
    requires
        0 <= pos <= buf.len(),
        buf.len() <= pos + field.len(),
        forall|j: int| 0 <= j < buf.len() - pos ==> buf[pos + j] == field[j],
        forall|j: int| 0 <= j < field.len() ==> field[j] != delim,
    ensures
        find_from(buf, pos, delim) is None,
{
    assert forall|j: int| pos <= j < buf.len() implies buf[j] != delim by {
        assert(buf[pos + (j - pos)] == field[j - pos]);
    }
    lemma_find_from_none(buf, pos, delim);
}

/// A byte with an upper-case letter of ASCII turned into lower case.
pub open spec fn lower_byte(b: u8) -> u8 {
    if 0x41 <= b <= 0x5a {
        (b + 0x20) as u8
    } else {
        b
    }
}

/// Bytes with every upper-case letter of ASCII turned into lower case.
pub open spec fn lower(s: Seq<u8>) -> Seq<u8> {
    Seq::new(s.len(), |i: int| lower_byte(s[i]))
}

/// Turns every upper-case letter of ASCII into lower case.
pub fn to_lower(bytes: &[u8]) -> (r: Vec<u8>)
    ensures
        r@ == lower(bytes@),
{
    let mut out: Vec<u8> = Vec::new();
    let mut i: usize = 0;
    while i < bytes.len()
        invariant
            i <= bytes.len(),
            out@.len() == i,
            forall|j: int| 0 <= j < i ==> out@[j] == lower_byte(bytes@[j]),
        decreases bytes.len() - i,
    {
        let b = bytes[i];
        if 0x41 <= b && b <= 0x5a {
            out.push(b + 0x20);
        } else {
            out.push(b);
        }
        i += 1;
    }
    assert(out@ =~= lower(bytes@));
    out
}

/// Whether two byte strings hold the same bytes.
pub fn bytes_eq(a: &[u8], b: &[u8]) -> (r: bool)
    ensures
        r == (a@ == b@),
{
    if a.len() != b.len() {
        return false;
    }
    let mut i: usize = 0;
    while i < a.len()
        invariant
            i <= a.len(),
            a.len() == b.len(),
            forall|j: int| 0 <= j < i ==> a@[j] == b@[j],
        decreases a.len() - i,
    {
        if a[i] != b[i] {
            return false;
        }
        i += 1;
    }
    assert(a@ =~= b@);
    true
}

/// Whether two byte strings are the same but for the case of letters.
pub fn eq_ignore_case(a: &[u8], b: &[u8]) -> (r: bool)
    ensures
        r == (lower(a@) == lower(b@)),
{
    if a.len() != b.len() {
        assert(lower(a@).len() != lower(b@).len());
        return false;
    }
    let mut i: usize = 0;
    while i < a.len()
        invariant
            i <= a.len(),
            a.len() == b.len(),
            forall|j: int| 0 <= j < i ==> lower_byte(a@[j]) == lower_byte(b@[j]),
        decreases a.len() - i,
    {
        let x = a[i];
        let y = b[i];
        let lx = if 0x41 <= x && x <= 0x5a {
            x + 0x20
        } else {
            x
        };
        let ly = if 0x41 <= y && y <= 0x5a {
            y + 0x20
        } else {
            y
        };
        if lx != ly {
            assert(lower(a@)[i as int] != lower(b@)[i as int]);
            return false;
        }
        i += 1;
    }
    assert(lower(a@) =~= lower(b@));
    true
}

/// The bytes of a text in ASCII.
pub open spec fn ascii(text: Seq<char>) -> Seq<u8> {
    Seq::new(text.len(), |i: int| text[i] as u8)
}

/// Copies a text in ASCII out as bytes.
pub fn ascii_bytes(text: &str) -> (r: Vec<u8>)
    requires
        text.is_ascii(),
    ensures
        r@ == ascii(text@),
{
    proof {
        vstd::string::is_ascii_spec_bytes(text);
    }
    let r = vstd::slice::slice_to_vec(text.as_bytes());
    assert(r@ =~= ascii(text@));
    r
}

/// Whether `word` stands in `buf` at `pos`.
pub open spec fn has_at(buf: Seq<u8>, pos: int, word: Seq<u8>) -> bool {
    0 <= pos && pos + word.len() <= buf.len() && buf.subrange(pos, pos + word.len()) == word
}

/// Whether `word` stands somewhere in `buf`.
pub open spec fn contains(buf: Seq<u8>, word: Seq<u8>) -> bool {
    exists|pos: int| has_at(buf, pos, word)
}

/// Says whether `word` stands somewhere in `buf`.
pub fn contains_bytes(buf: &[u8], word: &[u8]) -> (r: bool)
    ensures
        r == contains(buf@, word@),
{
    if word.len() > buf.len() {
        assert forall|pos: int| !has_at(buf@, pos, word@) by {}
        return false;
    }
    let last = buf.len() - word.len();
    let mut i: usize = 0;
    loop
        invariant
            i <= last,
            last == buf.len() - word.len(),
            forall|pos: int| 0 <= pos < i ==> !has_at(buf@, pos, word@),
        decreases last - i,
    {
        if bytes_eq(&buf[i..i + word.len()], word) {
            assert(has_at(buf@, i as int, word@));
            return true;
        }
        if i == last {
            assert forall|pos: int| !has_at(buf@, pos, word@) by {}
            return false;
        }
        i += 1;
    }
}

/// Whether a byte is a space or a tab, the only blanks that the text of a
/// header value can hold.
pub open spec fn is_blank(b: u8) -> bool {
    b == SPACE || b == TAB
}

/// `s` without the blanks that it starts with.
pub open spec fn trim_start(s: Seq<u8>) -> Seq<u8>
    decreases s.len(),
{
    if s.len() > 0 && is_blank(s[0]) {
        trim_start(s.drop_first())
    } else {
        s
    }
}

/// `s` without the blanks that it ends with.
pub open spec fn trim_end(s: Seq<u8>) -> Seq<u8>
    decreases s.len(),
{
    if s.len() > 0 && is_blank(s.last()) {
        trim_end(s.drop_last())
    } else {
        s
    }
}

/// `s` without the blanks at either end.
pub open spec fn trim(s: Seq<u8>) -> Seq<u8> {
    trim_end(trim_start(s))
}

/// Cuts the blanks off both ends.
pub fn trim_bytes(s: &[u8]) -> (r: &[u8])
    ensures
        r@ == trim(s@),
{
    let mut a: usize = 0;
    assert(s@.subrange(0, s@.len() as int) =~= s@);
    while a < s.len() && (s[a] == SPACE || s[a] == TAB)
        invariant
            a <= s.len(),
            trim_start(s@) == trim_start(s@.subrange(a as int, s@.len() as int)),
        decreases s.len() - a,
    {
        proof {
            let cur = s@.subrange(a as int, s@.len() as int);
            assert(cur.drop_first() =~= s@.subrange(a + 1, s@.len() as int));
        }
        a += 1;
    }
    let ghost tail = s@.subrange(a as int, s@.len() as int);
    assert(trim_start(s@) == tail);
    let mut b: usize = s.len();
    while b > a && (s[b - 1] == SPACE || s[b - 1] == TAB)
        invariant
            a <= b <= s.len(),
            trim_end(tail) == trim_end(s@.subrange(a as int, b as int)),
            tail == s@.subrange(a as int, s@.len() as int),
        decreases b - a,
    {
        proof {
            let cur = s@.subrange(a as int, b as int);
            assert(cur.drop_last() =~= s@.subrange(a as int, b - 1));
        }
        b -= 1;
    }
    &s[a..b]
}

/// Whether one of the items of a comma-separated list, from the item that
/// starts at `from` on, is `token` but for blanks around it and the case
/// of letters.
pub open spec fn list_has(value: Seq<u8>, from: int, token: Seq<u8>) -> bool
    decreases value.len() - from,
{
    if from < 0 || from > value.len() {
        false
    } else {
        match find_from(value, from, COMMA) {
            None => lower(trim(value.subrange(from, value.len() as int))) == lower(token),
            Some(c) => if c < from || c >= value.len() {
                false
            } else {
                lower(trim(value.subrange(from, c))) == lower(token) || list_has(
                    value,
                    c + 1,
                    token,
                )
            },
        }
    }
}

/// Says whether one of the items of a comma-separated list is `token`
/// but for blanks around it and the case of letters.
pub fn list_contains(value: &[u8], token: &[u8]) -> (r: bool)
    ensures
        r == list_has(value@, 0, token@),
{
    let mut pos: usize = 0;
    loop
        invariant
            pos <= value.len(),
            list_has(value@, 0, token@) == list_has(value@, pos as int, token@),
        decreases value.len() - pos,
    {
        match find_byte(value, pos, COMMA) {
            None => {
                return eq_ignore_case(trim_bytes(&value[pos..value.len()]), token);
            },
            Some(c) => {
                if eq_ignore_case(trim_bytes(&value[pos..c]), token) {
                    return true;
                }
                pos = c + 1;
            },
        }
    }
}

/// `pre`, then a field, then the delimiter that ends the field.
pub open spec fn with_field(pre: Seq<u8>, field: Seq<u8>, delim: u8) -> Seq<u8> {
    pre + field + seq![delim]
}

/// Whether `line` starts with `start`.
pub open spec fn starts_with(line: Seq<u8>, start: Seq<u8>) -> bool {
    start.len() <= line.len() && forall|j: int| 0 <= j < start.len() ==> line[j] == start[j]
}

/// Whether `buf` and `line` hold the same bytes as far as both go: one is
/// the start of the other.
pub open spec fn agrees(buf: Seq<u8>, line: Seq<u8>) -> bool {
    forall|j: int| 0 <= j < buf.len() && j < line.len() ==> buf[j] == line[j]
}

/// A line that starts with `pre`, a field and a delimiter starts with
/// `pre`.
pub proof fn lemma_starts_with_field(line: Seq<u8>, pre: Seq<u8>, field: Seq<u8>, delim: u8)
    requires
        starts_with(line, with_field(pre, field, delim)),
    ensures
        starts_with(line, pre),
        pre.len() + field.len() < line.len(),
        forall|j: int| 0 <= j < field.len() ==> line[pre.len() + j] == field[j],
        line[pre.len() + field.len() as int] == delim,
{
    let w = with_field(pre, field, delim);
    assert forall|j: int| 0 <= j < pre.len() implies line[j] == pre[j] by {
        assert(w[j] == pre[j]);
    }
    assert forall|j: int| 0 <= j < field.len() implies line[pre.len() + j] == field[j] by {
        assert(w[pre.len() + j] == field[j]);
    }
    assert(w[pre.len() + field.len() as int] == delim);
}

/// What is put together from two parts starts with the first.
pub proof fn lemma_starts_with_self(start: Seq<u8>, rest: Seq<u8>)
    ensures
        starts_with(start + rest, start),
{
}

/// A line starts with whatever its start starts with.
pub proof fn lemma_starts_with_start(line: Seq<u8>, middle: Seq<u8>, start: Seq<u8>)
    requires
        starts_with(line, middle),
        starts_with(middle, start),
    ensures
        starts_with(line, start),
{
    assert forall|j: int| 0 <= j < start.len() implies line[j] == start[j] by {
        assert(middle[j] == start[j]);
        assert(line[j] == middle[j]);
    }
}

/// What a buffer holds where it agrees with a line that starts with
/// `pre`, a field and a delimiter: the field's bytes as far as the buffer
/// goes, and the delimiter if the buffer goes that far.
pub proof fn lemma_field_in_buffer(
    buf: Seq<u8>,
    line: Seq<u8>,
    pre: Seq<u8>,
    field: Seq<u8>,
    delim: u8,
)
    requires
        agrees(buf, line),
        starts_with(line, with_field(pre, field, delim)),
    ensures
        forall|j: int|
            0 <= j < field.len() && pre.len() + j < buf.len() ==> buf[pre.len() + j] == field[j],
        pre.len() + field.len() < buf.len() ==> buf[pre.len() + field.len() as int] == delim,
{
    lemma_starts_with_field(line, pre, field, delim);
}

/// The digits of `n`, without leading zeros.
pub open spec fn decimal_text(n: nat) -> Seq<u8>
    decreases n,
{
    if n < 10 {
        seq![(0x30 + n) as u8]
    } else {
        decimal_text(n / 10).push((0x30 + n % 10) as u8)
    }
}

/// `decimal_text` writes digits only, as many as the number needs, and
/// they denote the number.
pub proof fn lemma_decimal_text(n: nat)
    ensures
        all_digits(decimal_text(n)),
        decimal_text(n).len() >= 1,
        decimal_value(decimal_text(n)) == n,
        n > 0 ==> decimal_text(n)[0] != 0x30,
        n < 10 ==> decimal_text(n) == seq![(0x30 + n) as u8],
        n < 10 ==> decimal_text(n).len() == 1,
        n < 100 ==> decimal_text(n).len() <= 2,
        n < 1000 ==> decimal_text(n).len() <= 3,
        n < 10000 ==> decimal_text(n).len() <= 4,
        n < 100000 ==> decimal_text(n).len() <= 5,
    decreases n,
{
    let t = decimal_text(n);
    if n < 10 {
        assert(t.drop_last() =~= Seq::<u8>::empty());
        assert(decimal_value(t.drop_last()) == 0);
    } else {
        let h = decimal_text(n / 10);
        lemma_decimal_text(n / 10);
        assert(t.drop_last() =~= h);
        assert(t[0] == h[0]);
        assert forall|i: int| 0 <= i < t.len() implies is_digit(#[trigger] t[i]) by {
            if i < h.len() {
                assert(t[i] == h[i]);
            }
        }
    }
}

/// The text of a number of at most `max` reads back as that number.
pub proof fn lemma_unsigned_round_trip(n: nat, max: nat)
    requires
        n <= max,
    ensures
        spec_unsigned(decimal_text(n), max) == Some(n),
{
    lemma_decimal_text(n);
    assert(is_digit(decimal_text(n)[0]));
}

/// Writes the digits of `n` at the end of `out`.
pub fn push_decimal(out: &mut Vec<u8>, n: u32)
    ensures
        final(out)@ == old(out)@ + decimal_text(n as nat),
    decreases n,
{
    if n >= 10 {
        push_decimal(out, n / 10);
    }
    out.push(0x30 + (n % 10) as u8);
    proof {
        if n >= 10 {
            assert(final(out)@ =~= old(out)@ + decimal_text(n as nat));
        } else {
            assert(final(out)@ =~= old(out)@ + decimal_text(n as nat));
        }
    }
}

} // verus!
