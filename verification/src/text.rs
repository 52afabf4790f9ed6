//! Decimal numbers and slash-separated paths, as character sequences.
//!
//! The spec functions here describe, character by character, how an
//! unsigned 64-bit number is written in decimal, how a path is cut at
//! each `/`, and which texts denote an unsigned 64-bit number (an optional
//! leading `+` followed by one or more ASCII digits whose value fits).

use vstd::prelude::*;

verus! {

broadcast use vstd::string::group_string_axioms;

/// The ASCII digit character for a value below ten.
pub open spec fn digit_char(d: nat) -> char {
    ((d + 48) as u32) as char
}

pub open spec fn is_digit(c: char) -> bool {
    '0' <= c && c <= '9'
}

/// Numeric value of an ASCII digit character.
pub open spec fn digit_value(c: char) -> nat {
    (c as int - 48) as nat
}

pub open spec fn all_digits(s: Seq<char>) -> bool {
    forall|i: int| 0 <= i < s.len() ==> is_digit(#[trigger] s[i])
}

/// Value of a sequence of digits read as a decimal number (0 when empty).
pub open spec fn digits_value(s: Seq<char>) -> nat
    decreases s.len(),
{
    if s.len() == 0 {
        0
    } else {
        digits_value(s.drop_last()) * 10 + digit_value(s.last())
    }
}

/// The number that a text denotes as an unsigned 64-bit integer, if any:
/// an optional `+`, then at least one digit, with a value at most `u64::MAX`.
pub open spec fn parse_u64_text(s: Seq<char>) -> Option<u64> {
    let d = if s.len() > 0 && s[0] == '+' { s.drop_first() } else { s };
    if d.len() > 0 && all_digits(d) && digits_value(d) <= u64::MAX {
        Some(digits_value(d) as u64)
    } else {
        None
    }
}

/// The shortest decimal text of a number.
pub open spec fn decimal_text(n: nat) -> Seq<char>
    decreases n,
{
    if n < 10 {
        seq![digit_char(n)]
    } else {
        decimal_text(n / 10).push(digit_char(n % 10))
    }
}

/// The pieces of a text between the `/` characters, in order; a text
/// without `/` is one piece, and two adjacent `/` enclose an empty piece.
pub open spec fn split_on_slash(s: Seq<char>) -> Seq<Seq<char>>
    decreases s.len(),
{
    if s.len() == 0 {
        seq![Seq::<char>::empty()]
    } else {
        let p = split_on_slash(s.drop_last());
        if s.last() == '/' {
            p.push(Seq::<char>::empty())
        } else {
            p.update(p.len() - 1, p.last().push(s.last()))
        }
    }
}

/// Texts joined with `/` between consecutive ones.
pub open spec fn join_with_slash(parts: Seq<Seq<char>>) -> Seq<char>
    decreases parts.len(),
{
    if parts.len() == 0 {
        Seq::<char>::empty()
    } else if parts.len() == 1 {
        parts[0]
    } else {
        join_with_slash(parts.drop_last()).push('/') + parts.last()
    }
}

pub proof fn lemma_split_nonempty(s: Seq<char>)
    ensures
        split_on_slash(s).len() >= 1,
    decreases s.len(),
{
    if s.len() > 0 {
        lemma_split_nonempty(s.drop_last());
    }
}

/// A prefix of a digit sequence never has a larger value than the whole.
pub proof fn lemma_digits_value_prefix(s: Seq<char>, k: int)
    requires
        0 <= k <= s.len(),
    ensures
        digits_value(s.take(k)) <= digits_value(s),
    decreases s.len(),
{
    if k < s.len() {
        lemma_digits_value_prefix(s.drop_last(), k);
        assert(s.drop_last().take(k) == s.take(k));
    } else {
        assert(s.take(k) == s);
    }
}

proof fn lemma_digit_char(d: nat)
    requires
        d < 10,
    ensures
        is_digit(digit_char(d)),
        digit_value(digit_char(d)) == d,
        digit_char(d) != '/',
        digit_char(d) != '+',
{
}

/// The decimal text of a number is a non-empty run of digits that reads
/// back as the number.
pub proof fn lemma_decimal_text(n: nat)
    ensures
        decimal_text(n).len() >= 1,
        all_digits(decimal_text(n)),
        digits_value(decimal_text(n)) == n,
    decreases n,
{
    if n < 10 {
        lemma_digit_char(n);
        let t = decimal_text(n);
        assert(t.drop_last() =~= Seq::<char>::empty());
        assert(digits_value(t) == digits_value(t.drop_last()) * 10 + digit_value(t.last()));
    } else {
        lemma_decimal_text(n / 10);
        lemma_digit_char(n % 10);
        let t = decimal_text(n);
        assert(t.drop_last() == decimal_text(n / 10));
        assert(t.last() == digit_char(n % 10));
        assert(digits_value(t) == digits_value(t.drop_last()) * 10 + digit_value(t.last()));
        assert(n == (n / 10) * 10 + n % 10);
        assert forall|i: int| 0 <= i < t.len() implies is_digit(#[trigger] t[i]) by {
            if i < t.len() - 1 {
                assert(t[i] == decimal_text(n / 10)[i]);
            }
        }
    }
}

/// Every number up to `u64::MAX` is read back from its decimal text.
pub proof fn lemma_parse_decimal_text(n: u64)
    ensures
        parse_u64_text(decimal_text(n as nat)) == Some(n),
{
    lemma_decimal_text(n as nat);
    let t = decimal_text(n as nat);
    assert(is_digit(t[0]));
}

/// Splitting a text that holds no `/` after some prefix only extends the
/// prefix's last piece.
proof fn lemma_split_append_plain(a: Seq<char>, b: Seq<char>)
    requires
        forall|i: int| 0 <= i < b.len() ==> b[i] != '/',
    ensures
        split_on_slash(a + b) == split_on_slash(a).update(
            split_on_slash(a).len() - 1,
            split_on_slash(a).last() + b,
        ),
    decreases b.len(),
{
    lemma_split_nonempty(a);
    if b.len() == 0 {
        assert(a + b == a);
        assert(split_on_slash(a).last() + b == split_on_slash(a).last());
        assert(split_on_slash(a).update(split_on_slash(a).len() - 1, split_on_slash(a).last())
            == split_on_slash(a));
    } else {
        let b0 = b.drop_last();
        lemma_split_append_plain(a, b0);
        assert((a + b).drop_last() == a + b0);
        assert((a + b).last() == b.last());
        assert(split_on_slash(a).last() + b0 + seq![b.last()] == split_on_slash(a).last() + b);
        lemma_split_nonempty(a + b0);
        let sa = split_on_slash(a);
        let k = sa.len() - 1;
        let p = split_on_slash(a + b0);
        assert(b.last() != '/') by {
            assert(b[b.len() - 1] != '/');
        }
        assert(split_on_slash(a + b) == p.update(p.len() - 1, p.last().push(b.last())));
        assert(p.len() == sa.len());
        assert(p.last() == sa.last() + b0);
        assert((sa.last() + b0).push(b.last()) =~= sa.last() + b);
        assert(split_on_slash(a + b) =~= split_on_slash(a).update(
            split_on_slash(a).len() - 1,
            split_on_slash(a).last() + b,
        ));
    }
}

/// Splitting joined pieces that hold no `/` gives the pieces back.
pub proof fn lemma_split_join(parts: Seq<Seq<char>>)
    requires
        parts.len() >= 1,
        forall|i: int, j: int|
            0 <= i < parts.len() && 0 <= j < parts[i].len() ==> parts[i][j] != '/',
    ensures
        split_on_slash(join_with_slash(parts)) == parts,
    decreases parts.len(),
{
    if parts.len() == 1 {
        let e = Seq::<char>::empty();
        lemma_split_append_plain(e, parts[0]);
        assert(e + parts[0] == parts[0]);
        assert(split_on_slash(e) =~= seq![e]);
        assert(e + parts[0] == parts[0]);
        assert(split_on_slash(parts[0]) =~= parts);
    } else {
        let init = parts.drop_last();
        lemma_split_join(init);
        let a = join_with_slash(init).push('/');
        lemma_split_append_plain(a, parts.last());
        assert(a.drop_last() == join_with_slash(init));
        assert(split_on_slash(a) == init.push(Seq::<char>::empty()));
        assert(Seq::<char>::empty() + parts.last() == parts.last());
        assert(split_on_slash(join_with_slash(parts)) =~= parts);
    }
}

/// Reads `cs[start..end]` as an unsigned 64-bit integer, accepting exactly
/// the texts that `parse_u64_text` accepts.
pub fn parse_u64_chars(cs: &Vec<char>, start: usize, end: usize) -> (r: Option<u64>)
    requires
        start <= end <= cs@.len(),
    ensures
        r == parse_u64_text(cs@.subrange(start as int, end as int)),
{
    let ghost s = cs@.subrange(start as int, end as int);
    let mut i = start;
    if i < end && cs[i] == '+' {
        i = i + 1;
    }
    let dstart = i;
    let ghost d = cs@.subrange(dstart as int, end as int);
    assert(d == (if s.len() > 0 && s[0] == '+' { s.drop_first() } else { s }));
    if i == end {
        return None;
    }
    let mut v: u64 = 0;
    while i < end
        invariant
            start <= dstart <= i <= end <= cs@.len(),
            dstart < end,
            d == cs@.subrange(dstart as int, end as int),
            d == (if s.len() > 0 && s[0] == '+' { s.drop_first() } else { s }),
            s == cs@.subrange(start as int, end as int),
            all_digits(cs@.subrange(dstart as int, i as int)),
            v == digits_value(cs@.subrange(dstart as int, i as int)),
        decreases end - i,
    {
        let ghost pre = cs@.subrange(dstart as int, i as int);
        let ghost next = cs@.subrange(dstart as int, i + 1);
        assert(next.drop_last() == pre);
        assert(next == d.take(i + 1 - dstart));
        let c = cs[i];
        if !('0' <= c && c <= '9') {
            assert(!is_digit(d[i - dstart]));
            return None;
        }
        let dig = (c as u32 - 48) as u64;
        let m = v.checked_mul(10);
        if m.is_none() {
            proof {
                lemma_digits_value_prefix(d, i + 1 - dstart);
            }
            return None;
        }
        let n = m.unwrap().checked_add(dig);
        if n.is_none() {
            proof {
                lemma_digits_value_prefix(d, i + 1 - dstart);
            }
            return None;
        }
        v = n.unwrap();
        i = i + 1;
    }
    assert(cs@.subrange(dstart as int, i as int) == d);
    Some(v)
}

/// The characters of a string slice, in order.
pub fn str_chars(s: &str) -> (v: Vec<char>)
    ensures
        v@ == s@,
{
    let mut v: Vec<char> = Vec::new();
    for c in it: s.chars()
        invariant
            v@ == it.seq().take(it.index() as int),
    {
        v.push(c);
    }
    v
}

/// The text with every occurrence of `c` removed.
pub open spec fn without_char(s: Seq<char>, c: char) -> Seq<char>
    decreases s.len(),
{
    if s.len() == 0 {
        Seq::<char>::empty()
    } else if s.last() == c {
        without_char(s.drop_last(), c)
    } else {
        without_char(s.drop_last(), c).push(s.last())
    }
}

/// A text in which `c` does not occur is left as it is.
pub proof fn lemma_without_absent_char(s: Seq<char>, c: char)
    requires
        forall|i: int| 0 <= i < s.len() ==> s[i] != c,
    ensures
        without_char(s, c) == s,
    decreases s.len(),
{
    if s.len() > 0 {
        lemma_without_absent_char(s.drop_last(), c);
        assert(s.drop_last().push(s.last()) =~= s);
    }
}

/// Removes every occurrence of `c` from `s`.
pub fn remove_char(s: &str, c: char) -> (r: String)
    ensures
        r@ == without_char(s@, c),
{
    let cs = str_chars(s);
    let n = cs.len();
    let mut out = String::new();
    let mut run_start: usize = 0;
    let mut i: usize = 0;
    proof {
        assert(cs@.take(0) =~= Seq::<char>::empty());
        assert(cs@.subrange(0, 0) =~= Seq::<char>::empty());
    }
    while i < n
        invariant
            n == cs@.len(),
            cs@ == s@,
            run_start <= i <= n,
            without_char(cs@.take(i as int), c) == out@ + cs@.subrange(run_start as int, i as int),
        decreases n - i,
    {
        let ghost next = cs@.take(i + 1);
        assert(next.drop_last() == cs@.take(i as int));
        assert(next.last() == cs@[i as int]);
        if cs[i] == c {
            let piece = s.substring_char(run_start, i);
            out.append(piece);
            run_start = i + 1;
            assert(cs@.subrange(run_start as int, i + 1) =~= Seq::<char>::empty());
            assert(out@ + cs@.subrange(run_start as int, i + 1) =~= out@);
        } else {
            assert(cs@.subrange(run_start as int, i + 1) =~= cs@.subrange(run_start as int, i as int).push(cs@[i as int]));
            assert(out@ + cs@.subrange(run_start as int, i + 1) =~= (out@ + cs@.subrange(run_start as int, i as int)).push(cs@[i as int]));
        }
        i = i + 1;
    }
    assert(cs@.take(n as int) =~= cs@);
    let piece = s.substring_char(run_start, n);
    out.append(piece);
    out
}

/// A lowercase hexadecimal digit.
pub open spec fn is_lower_hex(c: char) -> bool {
    ('0' <= c && c <= '9') || ('a' <= c && c <= 'f')
}

pub open spec fn all_lower_hex(s: Seq<char>) -> bool {
    forall|i: int| 0 <= i < s.len() ==> is_lower_hex(#[trigger] s[i])
}

/// Removing a character from two joined texts is removing it from each.
pub proof fn lemma_without_char_append(a: Seq<char>, b: Seq<char>, c: char)
    ensures
        without_char(a + b, c) == without_char(a, c) + without_char(b, c),
    decreases b.len(),
{
    if b.len() == 0 {
        assert(a + b =~= a);
        assert(without_char(b, c) =~= Seq::<char>::empty());
        assert(without_char(a, c) + without_char(b, c) =~= without_char(a, c));
    } else {
        lemma_without_char_append(a, b.drop_last(), c);
        assert((a + b).drop_last() =~= a + b.drop_last());
        assert((a + b).last() == b.last());
        if b.last() == c {
        } else {
            assert((without_char(a, c) + without_char(b.drop_last(), c)).push(b.last())
                =~= without_char(a, c) + without_char(b.drop_last(), c).push(b.last()));
        }
    }
}

/// The lowercase hexadecimal digit for a value below sixteen.
pub open spec fn hex_digit_char(d: nat) -> char {
    if d < 10 {
        digit_char(d)
    } else {
        ((d + 87) as u32) as char
    }
}

/// Two lowercase hexadecimal digits of a byte, high nibble first.
pub open spec fn byte_hex(b: u8) -> Seq<char> {
    seq![hex_digit_char((b / 16) as nat), hex_digit_char((b % 16) as nat)]
}

/// The lowercase hexadecimal text of a byte sequence, two digits per byte.
pub open spec fn bytes_hex(b: Seq<u8>) -> Seq<char>
    decreases b.len(),
{
    if b.len() == 0 {
        Seq::<char>::empty()
    } else {
        bytes_hex(b.drop_last()) + byte_hex(b.last())
    }
}

/// The 16 bytes of a random (version 4, RFC 4122 variant) UUID made from
/// 16 random bytes: the high nibble of byte 6 becomes 4, and the two high
/// bits of byte 8 become `10`.
pub open spec fn v4_uuid_bytes(b: Seq<u8>) -> Seq<u8> {
    b.update(6, (b[6] & 0x0f) | 0x40).update(8, (b[8] & 0x3f) | 0x80)
}

/// A 32-digit hexadecimal text with hyphens after the 8th, 12th, 16th and
/// 20th digit.
pub open spec fn hyphenated(h: Seq<char>) -> Seq<char> {
    h.subrange(0, 8) + seq!['-'] + h.subrange(8, 12) + seq!['-'] + h.subrange(12, 16) + seq!['-']
        + h.subrange(16, 20) + seq!['-'] + h.subrange(20, 32)
}

/// The hyphenated lowercase text of the version 4 UUID made from `b`, such
/// as `67e55044-10b1-426f-9247-bb680e5fe0c8`.
pub open spec fn v4_hyphenated_text(b: Seq<u8>) -> Seq<char> {
    hyphenated(bytes_hex(v4_uuid_bytes(b)))
}

/// The 32 hexadecimal digits of the version 4 UUID made from `b`: its
/// hyphenated text without the hyphens.
pub open spec fn v4_uuid_hex(b: Seq<u8>) -> Seq<char> {
    without_char(v4_hyphenated_text(b), '-')
}

proof fn lemma_hex_digit_char(d: nat)
    requires
        d < 16,
    ensures
        is_lower_hex(hex_digit_char(d)),
{
}

/// The hexadecimal text of `n` bytes has `2n` lowercase digits, and the
/// digits of byte `i` stand at `2i` and `2i + 1`.
pub proof fn lemma_bytes_hex(b: Seq<u8>)
    ensures
        bytes_hex(b).len() == 2 * b.len(),
        all_lower_hex(bytes_hex(b)),
        forall|i: int| 0 <= i < b.len() ==> bytes_hex(b)[2 * i] == hex_digit_char((#[trigger] b[i] / 16) as nat),
        forall|i: int| 0 <= i < b.len() ==> bytes_hex(b)[2 * i + 1] == hex_digit_char((#[trigger] b[i] % 16) as nat),
    decreases b.len(),
{
    if b.len() > 0 {
        let init = b.drop_last();
        lemma_bytes_hex(init);
        let x = b.last();
        lemma_hex_digit_char((x / 16) as nat);
        lemma_hex_digit_char((x % 16) as nat);
        let h = bytes_hex(b);
        assert(h == bytes_hex(init) + byte_hex(x));
        assert forall|i: int| 0 <= i < h.len() implies is_lower_hex(#[trigger] h[i]) by {
            if i < bytes_hex(init).len() {
                assert(h[i] == bytes_hex(init)[i]);
            }
        }
        assert forall|i: int| 0 <= i < b.len() implies h[2 * i] == hex_digit_char((#[trigger] b[i] / 16) as nat) by {
            if i < init.len() {
                assert(h[2 * i] == bytes_hex(init)[2 * i]);
                assert(b[i] == init[i]);
            }
        }
        assert forall|i: int| 0 <= i < b.len() implies h[2 * i + 1] == hex_digit_char((#[trigger] b[i] % 16) as nat) by {
            if i < init.len() {
                assert(h[2 * i + 1] == bytes_hex(init)[2 * i + 1]);
                assert(b[i] == init[i]);
            }
        }
    }
}

proof fn lemma_no_hyphen_in_hex(h: Seq<char>, i: int, j: int)
    requires
        all_lower_hex(h),
        0 <= i <= j <= h.len(),
    ensures
        without_char(h.subrange(i, j), '-') == h.subrange(i, j),
{
    let s = h.subrange(i, j);
    assert forall|k: int| 0 <= k < s.len() implies s[k] != '-' by {
        assert(is_lower_hex(h[i + k]));
    }
    lemma_without_absent_char(s, '-');
}

/// The digits of a version 4 UUID made from 16 bytes: its hexadecimal text
/// with the version and variant bits set, 32 lowercase digits.
pub proof fn lemma_v4_uuid_hex(b: Seq<u8>)
    requires
        b.len() == 16,
    ensures
        v4_uuid_hex(b) == bytes_hex(v4_uuid_bytes(b)),
        v4_uuid_hex(b).len() == 32,
        all_lower_hex(v4_uuid_hex(b)),
{
    let h = bytes_hex(v4_uuid_bytes(b));
    lemma_bytes_hex(v4_uuid_bytes(b));
    let d = seq!['-'];
    let p0 = h.subrange(0, 8);
    let p1 = h.subrange(8, 12);
    let p2 = h.subrange(12, 16);
    let p3 = h.subrange(16, 20);
    let p4 = h.subrange(20, 32);
    lemma_no_hyphen_in_hex(h, 0, 8);
    lemma_no_hyphen_in_hex(h, 8, 12);
    lemma_no_hyphen_in_hex(h, 12, 16);
    lemma_no_hyphen_in_hex(h, 16, 20);
    lemma_no_hyphen_in_hex(h, 20, 32);
    assert(d.drop_last() =~= Seq::<char>::empty());
    assert(d.last() == '-');
    assert(without_char(d.drop_last(), '-') == Seq::<char>::empty());
    assert(without_char(d, '-') == without_char(d.drop_last(), '-'));
    assert(without_char(d, '-') =~= Seq::<char>::empty());
    lemma_without_char_append(p0, d, '-');
    lemma_without_char_append(p0 + d, p1, '-');
    lemma_without_char_append(p0 + d + p1, d, '-');
    lemma_without_char_append(p0 + d + p1 + d, p2, '-');
    lemma_without_char_append(p0 + d + p1 + d + p2, d, '-');
    lemma_without_char_append(p0 + d + p1 + d + p2 + d, p3, '-');
    lemma_without_char_append(p0 + d + p1 + d + p2 + d + p3, d, '-');
    lemma_without_char_append(p0 + d + p1 + d + p2 + d + p3 + d, p4, '-');
    assert(p0 + p1 + p2 + p3 + p4 =~= h);
    assert(v4_uuid_hex(b) =~= h);
}

/// The digits of a version 4 UUID carry its version and variant: the 13th
/// digit is always `4`, and the 17th is one of `8`, `9`, `a` and `b`.
pub proof fn law_v4_uuid_version_digits(b: Seq<u8>)
    requires
        b.len() == 16,
    ensures
        v4_uuid_hex(b).len() == 32,
        v4_uuid_hex(b)[12] == '4',
        v4_uuid_hex(b)[16] == '8' || v4_uuid_hex(b)[16] == '9' || v4_uuid_hex(b)[16] == 'a'
            || v4_uuid_hex(b)[16] == 'b',
{
    lemma_v4_uuid_hex(b);
    let v = v4_uuid_bytes(b);
    lemma_bytes_hex(v);
    let x6 = b[6];
    let x8 = b[8];
    assert(((x6 & 0x0f) | 0x40) / 16 == 4) by (bit_vector);
    assert(8 <= ((x8 & 0x3f) | 0x80) / 16 <= 11) by (bit_vector);
    assert(v[6] == (x6 & 0x0f) | 0x40);
    assert(v[8] == (x8 & 0x3f) | 0x80);
    assert(bytes_hex(v)[2 * 6int] == hex_digit_char((v[6] / 16) as nat));
    assert(bytes_hex(v)[2 * 8int] == hex_digit_char((v[8] / 16) as nat));
}

} // verus!
