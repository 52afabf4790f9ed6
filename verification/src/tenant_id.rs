//! Hierarchical tenant identifiers.
//!
//! A tenant identifier is a non-empty list of opaque numeric segments: the
//! first names a root tenant, each further one a child of the tenant before
//! it. Its text form is the segments in decimal, separated by `/`, as in
//! `12345678/87654321`.

use vstd::prelude::*;
use crate::error::AmiError;
use crate::random::{generate_secure_u64, random_failure_message};
use crate::text::{
    decimal_text, digit_char, join_with_slash, parse_u64_chars, parse_u64_text, split_on_slash, str_chars,
};

verus! {

broadcast use vstd::string::group_string_axioms;

/// Hierarchical tenant identifier made of numeric segments.
#[derive(Debug, Clone, PartialEq, Eq, Hash)]
pub struct TenantId {
    segments: Vec<u64>,
}

impl View for TenantId {
    type V = Seq<u64>;

    closed spec fn view(&self) -> Seq<u64> {
        self.segments@
    }
}

/// `outer` lies strictly above `inner` in the hierarchy: its segments are a
/// proper prefix of `inner`'s.
pub open spec fn is_proper_prefix(outer: Seq<u64>, inner: Seq<u64>) -> bool {
    outer.len() < inner.len() && inner.take(outer.len() as int) == outer
}

/// The hierarchy depth of an identifier: 0 for a root, one more per level.
pub open spec fn depth_of(v: Seq<u64>) -> nat {
    if v.len() == 0 {
        0
    } else {
        (v.len() - 1) as nat
    }
}

/// The decimal texts of the segments.
pub open spec fn segment_texts(v: Seq<u64>) -> Seq<Seq<char>> {
    v.map_values(|n: u64| decimal_text(n as nat))
}

/// Text form of an identifier: its segments in decimal, joined with `/`.
pub open spec fn tenant_id_text(v: Seq<u64>) -> Seq<char> {
    join_with_slash(segment_texts(v))
}

/// Reads the pieces of a text as segments, left to right; the first piece
/// that is not an unsigned 64-bit number is reported.
pub open spec fn parse_segments(pieces: Seq<Seq<char>>) -> Result<Seq<u64>, Seq<char>>
    decreases pieces.len(),
{
    if pieces.len() == 0 {
        Ok(Seq::<u64>::empty())
    } else {
        match parse_segments(pieces.drop_last()) {
            Err(bad) => Err(bad),
            Ok(v) => match parse_u64_text(pieces.last()) {
                Some(n) => Ok(v.push(n)),
                None => Err(pieces.last()),
            },
        }
    }
}

pub open spec fn empty_id_message() -> Seq<char> {
    "Tenant ID cannot be empty"@
}

pub open spec fn invalid_segment_message(piece: Seq<char>) -> Seq<char> {
    "Invalid tenant ID segment: '"@ + piece + "' (must be a u64)"@
}

/// What parsing a text gives: the segments, or the message of the error.
pub open spec fn tenant_id_parse(s: Seq<char>) -> Result<Seq<u64>, Seq<char>> {
    if s.len() == 0 {
        Err(empty_id_message())
    } else {
        match parse_segments(split_on_slash(s)) {
            Ok(v) => Ok(v),
            Err(bad) => Err(invalid_segment_message(bad)),
        }
    }
}

/// Appends the decimal digit `d` to `out`.
fn append_digit(out: &mut String, d: u64)
    requires
        d < 10,
    ensures
        final(out)@ == old(out)@.push(digit_char(d as nat)),
{
    proof {
        reveal_strlit("0");
        reveal_strlit("1");
        reveal_strlit("2");
        reveal_strlit("3");
        reveal_strlit("4");
        reveal_strlit("5");
        reveal_strlit("6");
        reveal_strlit("7");
        reveal_strlit("8");
        reveal_strlit("9");
    }
    if d == 0 {
        out.append("0");
    } else if d == 1 {
        out.append("1");
    } else if d == 2 {
        out.append("2");
    } else if d == 3 {
        out.append("3");
    } else if d == 4 {
        out.append("4");
    } else if d == 5 {
        out.append("5");
    } else if d == 6 {
        out.append("6");
    } else if d == 7 {
        out.append("7");
    } else if d == 8 {
        out.append("8");
    } else {
        out.append("9");
    }
}

/// Appends the decimal text of `n` to `out`.
fn append_decimal(out: &mut String, n: u64)
    ensures
        final(out)@ == old(out)@ + decimal_text(n as nat),
    decreases n,
{
    if n >= 10 {
        append_decimal(out, n / 10);
    }
    append_digit(out, n % 10);
    proof {
        if n < 10 {
            assert(decimal_text(n as nat) == seq![digit_char(n as nat)]);
        } else {
            assert(decimal_text(n as nat) == decimal_text((n / 10) as nat).push(digit_char((n % 10) as nat)));
        }
    }
}

/// The decimal text of `n`, without sign or leading zeros.
fn decimal_string(n: u64) -> (s: String)
    ensures
        s@ == decimal_text(n as nat),
{
    let mut s = String::new();
    append_decimal(&mut s, n);
    assert(Seq::<char>::empty() + decimal_text(n as nat) =~= decimal_text(n as nat));
    s
}

impl TenantId {
    /// The root identifier with the given segment.
    pub fn root_with_segment(segment: u64) -> (t: TenantId)
        ensures
            t@ == seq![segment],
    {
        let mut segments: Vec<u64> = Vec::new();
        segments.push(segment);
        TenantId { segments }
    }

    /// Generates a new root tenant ID with a random numeric segment.
    pub fn root() -> (r: Result<TenantId, AmiError>)
        ensures
            r matches Ok(t) ==> t@.len() == 1,
            r matches Err(e) ==> (e matches AmiError::InternalError { message }
                && message@ == random_failure_message()),
    {
        let segment = generate_secure_u64()?;
        Ok(TenantId::root_with_segment(segment))
    }

    /// The child of this identifier with the given segment appended.
    pub fn child_with_segment(&self, segment: u64) -> (t: TenantId)
        ensures
            t@ == self@.push(segment),
    {
        let mut segments = copy_prefix(&self.segments, self.segments.len());
        segments.push(segment);
        TenantId { segments }
    }

    /// Creates a child tenant ID by appending a new random numeric segment.
    pub fn child(&self) -> (r: Result<TenantId, AmiError>)
        ensures
            r matches Ok(t) ==> t@.drop_last() == self@ && t@.len() == self@.len() + 1,
            r matches Err(e) ==> (e matches AmiError::InternalError { message }
                && message@ == random_failure_message()),
    {
        let segment = generate_secure_u64()?;
        let t = self.child_with_segment(segment);
        assert(t@.drop_last() == self@);
        Ok(t)
    }

    /// The parent identifier; `None` for a root.
    pub fn parent(&self) -> (r: Option<TenantId>)
        ensures
            self@.len() <= 1 ==> r is None,
            self@.len() > 1 ==> (r matches Some(p) && p@ == self@.drop_last()),
    {
        let n = self.segments.len();
        if n <= 1 {
            None
        } else {
            let segments = copy_prefix(&self.segments, n - 1);
            assert(segments@ == self@.drop_last());
            Some(TenantId { segments })
        }
    }

    /// Hierarchy depth (0 = root, 1 = first level child, and so on).
    pub fn depth(&self) -> (d: usize)
        ensures
            d == depth_of(self@),
    {
        self.segments.len().saturating_sub(1)
    }

    /// All ancestor identifiers, from the root down to this one included.
    pub fn ancestors(&self) -> (r: Vec<TenantId>)
        ensures
            r@.len() == self@.len(),
            forall|i: int| 0 <= i < r@.len() ==> #[trigger] r@[i]@ == self@.take(i + 1),
    {
        let n = self.segments.len();
        let mut out: Vec<TenantId> = Vec::new();
        let mut i: usize = 0;
        while i < n
            invariant
                i <= n,
                n == self@.len(),
                out@.len() == i,
                forall|j: int| 0 <= j < out@.len() ==> #[trigger] out@[j]@ == self@.take(j + 1),
            decreases n - i,
        {
            let segments = copy_prefix(&self.segments, i + 1);
            out.push(TenantId { segments });
            i = i + 1;
        }
        out
    }

    /// Whether this tenant lies strictly below `other` in the hierarchy.
    pub fn is_descendant_of(&self, other: &TenantId) -> (b: bool)
        ensures
            b == is_proper_prefix(other@, self@),
            b == (other@.len() < self@.len() && forall|i: int|
                0 <= i < other@.len() ==> self@[i] == other@[i]),
    {
        let n = other.segments.len();
        if self.segments.len() <= n {
            return false;
        }
        let mut i: usize = 0;
        while i < n
            invariant
                n == other@.len(),
                n < self@.len(),
                i <= n,
                forall|j: int| 0 <= j < i ==> self@[j] == other@[j],
            decreases n - i,
        {
            if self.segments[i] != other.segments[i] {
                assert(self@.take(n as int)[i as int] != other@[i as int]);
                return false;
            }
            i = i + 1;
        }
        assert(self@.take(n as int) =~= other@);
        true
    }

    /// Whether this tenant lies strictly above `other` in the hierarchy.
    pub fn is_ancestor_of(&self, other: &TenantId) -> (b: bool)
        ensures
            b == is_proper_prefix(self@, other@),
    {
        other.is_descendant_of(self)
    }

    /// The text form: the segments in decimal, separated by `/`.
    pub fn as_str(&self) -> (s: String)
        ensures
            s@ == tenant_id_text(self@),
    {
        let n = self.segments.len();
        let mut out = String::new();
        let mut i: usize = 0;
        proof {
            reveal_strlit("/");
            assert(segment_texts(self@.take(0)) =~= Seq::<Seq<char>>::empty());
        }
        while i < n
            invariant
                i <= n,
                n == self@.len(),
                out@ == join_with_slash(segment_texts(self@.take(i as int))),
                "/"@ == seq!['/'],
            decreases n - i,
        {
            let ghost before = segment_texts(self@.take(i as int));
            let ghost after = segment_texts(self@.take(i + 1));
            assert(after.drop_last() =~= before);
            assert(after.last() == decimal_text(self@[i as int] as nat));
            if i > 0 {
                out.append("/");
            }
            let piece = decimal_string(self.segments[i]);
            out.append(piece.as_str());
            proof {
                if i == 0 {
                    assert(out@ == after[0]);
                } else {
                    assert(out@ == join_with_slash(before).push('/') + after.last());
                }
            }
            i = i + 1;
        }
        assert(self@.take(n as int) =~= self@);
        out
    }

    /// Parses a tenant ID from its text form: slash-separated unsigned
    /// 64-bit numbers. The empty text, and a text with a piece that is not
    /// such a number, are refused with an invalid-parameter error.
    pub fn from_string(s: &str) -> (r: Result<TenantId, AmiError>)
        ensures
            match tenant_id_parse(s@) {
                Ok(v) => r matches Ok(t) && t@ == v,
                Err(m) => r matches Err(AmiError::InvalidParameter { message }) && message@ == m,
            },
    {
        let cs = str_chars(s);
        let n = cs.len();
        if n == 0 {
            return Err(AmiError::InvalidParameter { message: "Tenant ID cannot be empty".to_string() });
        }
        let mut values: Vec<u64> = Vec::new();
        let mut bad: Option<(usize, usize)> = None;
        let mut start: usize = 0;
        let mut i: usize = 0;
        proof {
            assert(cs@.take(0) =~= Seq::<char>::empty());
            assert(cs@.subrange(0, 0) =~= Seq::<char>::empty());
        }
        while i < n
            invariant
                n == cs@.len(),
                start <= i <= n,
                split_on_slash(cs@.take(i as int)).len() >= 1,
                split_on_slash(cs@.take(i as int)).last() == cs@.subrange(start as int, i as int),
                match parse_segments(split_on_slash(cs@.take(i as int)).drop_last()) {
                    Ok(v) => bad is None && values@ == v,
                    Err(e) => bad matches Some(p) && p.0 <= p.1 <= n
                        && cs@.subrange(p.0 as int, p.1 as int) == e,
                },
            decreases n - i,
        {
            let ghost sp = split_on_slash(cs@.take(i as int));
            let ghost next = cs@.take(i + 1);
            assert(next.drop_last() == cs@.take(i as int));
            assert(next.last() == cs@[i as int]);
            assert(sp.drop_last().push(sp.last()) == sp);
            if cs[i] == '/' {
                if bad.is_none() {
                    match parse_u64_chars(&cs, start, i) {
                        Some(x) => {
                            values.push(x);
                        },
                        None => {
                            bad = Some((start, i));
                        },
                    }
                }
                assert(split_on_slash(next).drop_last() == sp);
                start = i + 1;
                assert(cs@.subrange(start as int, i + 1) =~= Seq::<char>::empty());
            } else {
                let ghost sn = split_on_slash(next);
                assert(sn.drop_last() =~= sp.drop_last());
                assert(cs@.subrange(start as int, i + 1) =~= cs@.subrange(start as int, i as int).push(cs@[i as int]));
            }
            i = i + 1;
        }
        assert(cs@.take(n as int) =~= cs@);
        proof {
            let sp = split_on_slash(cs@);
            assert(sp.drop_last().push(sp.last()) == sp);
        }
        if bad.is_none() {
            match parse_u64_chars(&cs, start, n) {
                Some(x) => {
                    values.push(x);
                },
                None => {
                    bad = Some((start, n));
                },
            }
        }
        match bad {
            None => Ok(TenantId { segments: values }),
            Some((a, b)) => {
                let piece = s.substring_char(a, b);
                let mut message = "Invalid tenant ID segment: '".to_string();
                message.append(piece);
                message.append("' (must be a u64)");
                Err(AmiError::InvalidParameter { message })
            },
        }
    }

    /// The segments, root first.
    pub fn segments(&self) -> (s: &[u64])
        ensures
            s@ == self@,
    {
        self.segments.as_slice()
    }
}

/// A fresh vector holding the first `k` values of `v`.
fn copy_prefix(v: &Vec<u64>, k: usize) -> (r: Vec<u64>)
    requires
        k <= v@.len(),
    ensures
        r@ == v@.take(k as int),
{
    let mut r: Vec<u64> = Vec::new();
    let mut i: usize = 0;
    while i < k
        invariant
            i <= k <= v@.len(),
            r@ == v@.take(i as int),
        decreases k - i,
    {
        r.push(v[i]);
        assert(v@.take(i + 1) == v@.take(i as int).push(v@[i as int]));
        i = i + 1;
    }
    r
}

} // verus!
