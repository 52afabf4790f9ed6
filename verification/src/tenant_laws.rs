//! Properties that relate the operations on tenant identifiers.

use vstd::prelude::*;
use crate::text::{
    all_digits, decimal_text, digit_char, digits_value, is_digit, join_with_slash,
    lemma_decimal_text, lemma_parse_decimal_text, lemma_split_join, parse_u64_text,
    split_on_slash,
};
use crate::tenant_id::{
    depth_of, is_proper_prefix, parse_segments, segment_texts, tenant_id_parse, tenant_id_text,
};

verus! {

proof fn lemma_parse_segment_texts(v: Seq<u64>)
    ensures
        parse_segments(segment_texts(v)) == Ok::<Seq<u64>, Seq<char>>(v),
    decreases v.len(),
{
    if v.len() > 0 {
        lemma_parse_segment_texts(v.drop_last());
        assert(segment_texts(v).drop_last() =~= segment_texts(v.drop_last()));
        lemma_parse_decimal_text(v.last());
        let t = segment_texts(v);
        assert(t.last() == decimal_text(v.last() as nat));
        assert(v.drop_last().push(v.last()) =~= v);
        assert(parse_segments(t) == match parse_segments(t.drop_last()) {
            Err(bad) => Err(bad),
            Ok(w) => match crate::text::parse_u64_text(t.last()) {
                Some(n) => Ok(w.push(n)),
                None => Err(t.last()),
            },
        });
    } else {
        assert(segment_texts(v) =~= Seq::<Seq<char>>::empty());
        assert(v =~= Seq::<u64>::empty());
    }
}

proof fn lemma_join_not_shorter_than_last(parts: Seq<Seq<char>>)
    requires
        parts.len() >= 1,
    ensures
        join_with_slash(parts).len() >= parts.last().len(),
{
}

/// Reading back the text form of a well-formed identifier gives the same
/// identifier: `from_string(&t.as_str())` is `Ok` of a value equal to `t`.
pub proof fn law_text_round_trip(v: Seq<u64>)
    requires
        v.len() >= 1,
    ensures
        tenant_id_parse(tenant_id_text(v)) == Ok::<Seq<u64>, Seq<char>>(v),
{
    let parts = segment_texts(v);
    assert forall|i: int, j: int|
        0 <= i < parts.len() && 0 <= j < parts[i].len() implies parts[i][j] != '/' by {
        lemma_decimal_text(v[i] as nat);
        assert(is_digit(decimal_text(v[i] as nat)[j]));
    }
    lemma_split_join(parts);
    lemma_parse_segment_texts(v);
    lemma_decimal_text(v.last() as nat);
    lemma_join_not_shorter_than_last(parts);
}

/// Every identifier that parsing accepts has at least one segment.
pub proof fn law_parsed_ids_are_well_formed(s: Seq<char>)
    ensures
        tenant_id_parse(s) matches Ok(v) ==> v.len() >= 1,
{
    if let Ok(v) = tenant_id_parse(s) {
        lemma_parse_segments_len(split_on_slash(s));
        crate::text::lemma_split_nonempty(s);
    }
}

proof fn lemma_parse_segments_len(pieces: Seq<Seq<char>>)
    ensures
        parse_segments(pieces) matches Ok(v) ==> v.len() == pieces.len(),
    decreases pieces.len(),
{
    if pieces.len() > 0 {
        lemma_parse_segments_len(pieces.drop_last());
    }
}

/// A root has depth 0, and a child is one level deeper than its parent.
pub proof fn law_depth_of_root_and_child(v: Seq<u64>, segment: u64)
    requires
        v.len() >= 1,
    ensures
        depth_of(seq![segment]) == 0,
        depth_of(v.push(segment)) == depth_of(v) + 1,
{
}

/// The parent of a child is the identifier it was made from, and a child
/// lies strictly below it.
pub proof fn law_parent_of_child(v: Seq<u64>, segment: u64)
    requires
        v.len() >= 1,
    ensures
        v.push(segment).len() > 1,
        v.push(segment).drop_last() == v,
        is_proper_prefix(v, v.push(segment)),
{
    assert(v.push(segment).take(v.len() as int) =~= v);
}

/// A non-root identifier lies strictly below its parent.
pub proof fn law_parent_is_ancestor(v: Seq<u64>)
    requires
        v.len() > 1,
    ensures
        is_proper_prefix(v.drop_last(), v),
{
    assert(v.take(v.drop_last().len() as int) =~= v.drop_last());
}

/// Lying strictly below is a strict order: never reflexive, never both
/// ways, and transitive.
pub proof fn law_descendant_strict_order(a: Seq<u64>, b: Seq<u64>, c: Seq<u64>)
    ensures
        !is_proper_prefix(a, a),
        is_proper_prefix(a, b) ==> !is_proper_prefix(b, a),
        is_proper_prefix(a, b) && is_proper_prefix(b, c) ==> is_proper_prefix(a, c),
{
    if is_proper_prefix(a, b) && is_proper_prefix(b, c) {
        assert(c.take(a.len() as int) =~= c.take(b.len() as int).take(a.len() as int));
    }
}

/// The ancestors of a well-formed identifier number its depth plus one;
/// the last is the identifier itself, and each one before it lies strictly
/// above it.
pub proof fn law_ancestor_chain(v: Seq<u64>)
    requires
        v.len() >= 1,
    ensures
        v.len() == depth_of(v) + 1,
        v.take(v.len() as int) == v,
        forall|i: int| 0 <= i < v.len() - 1 ==> is_proper_prefix(#[trigger] v.take(i + 1), v),
{
    assert(v.take(v.len() as int) =~= v);
    assert forall|i: int| 0 <= i < v.len() - 1 implies is_proper_prefix(#[trigger] v.take(i + 1), v) by {
        assert(v.take(v.take(i + 1).len() as int) =~= v.take(i + 1));
    }
}

/// A tenant lies below another exactly when the other has fewer segments
/// and agrees with it on every one of them; differing at any position the
/// other has rules it out.
pub proof fn law_descendant_means_prefix(a: Seq<u64>, b: Seq<u64>)
    ensures
        is_proper_prefix(b, a) <==> (b.len() < a.len() && forall|i: int|
            0 <= i < b.len() ==> a[i] == b[i]),
        (exists|i: int| 0 <= i < b.len() && i < a.len() && a[i] != b[i]) ==> !is_proper_prefix(b, a),
{
    if b.len() < a.len() && forall|i: int| 0 <= i < b.len() ==> a[i] == b[i] {
        assert(a.take(b.len() as int) =~= b);
    }
    if is_proper_prefix(b, a) {
        assert forall|i: int| 0 <= i < b.len() implies a[i] == b[i] by {
            assert(a.take(b.len() as int)[i] == a[i]);
        }
    }
}

proof fn lemma_decimal_text_first_digit(n: nat)
    ensures
        decimal_text(n).len() > 1 ==> decimal_text(n)[0] != '0',
    decreases n,
{
    if n >= 10 {
        lemma_decimal_text_first_digit(n / 10);
        lemma_decimal_text(n / 10);
        let t = decimal_text(n);
        assert(t[0] == decimal_text(n / 10)[0]);
        if n / 10 < 10 {
            assert(decimal_text(n / 10) == seq![digit_char(n / 10)]);
            assert(digit_char(n / 10) as int == n / 10 + 48);
            assert('0' as int == 48);
            assert(digit_char(n / 10) != '0');
        } else {
            lemma_decimal_text((n / 10) / 10);
            assert(decimal_text(n / 10) == decimal_text((n / 10) / 10).push(digit_char((n / 10) % 10)));
            assert(decimal_text(n / 10).len() > 1);
        }
    }
}

proof fn lemma_join_digit_chars(parts: Seq<Seq<char>>)
    requires
        forall|i: int| 0 <= i < parts.len() ==> all_digits(#[trigger] parts[i]),
    ensures
        forall|k: int| 0 <= k < join_with_slash(parts).len() ==> is_digit(
            #[trigger] join_with_slash(parts)[k],
        ) || join_with_slash(parts)[k] == '/',
    decreases parts.len(),
{
    if parts.len() == 1 {
        assert(all_digits(parts[0]));
    } else if parts.len() > 1 {
        let init = parts.drop_last();
        assert forall|i: int| 0 <= i < init.len() implies all_digits(#[trigger] init[i]) by {
            assert(init[i] == parts[i]);
        }
        lemma_join_digit_chars(init);
        let a = join_with_slash(init).push('/');
        let j = join_with_slash(parts);
        assert(j == a + parts.last());
        assert(all_digits(parts[parts.len() - 1]));
        assert forall|k: int| 0 <= k < j.len() implies is_digit(#[trigger] j[k]) || j[k] == '/' by {
            if k < a.len() - 1 {
                assert(j[k] == join_with_slash(init)[k]);
            } else if k >= a.len() {
                assert(j[k] == parts.last()[k - a.len()]);
            }
        }
    }
}

/// The text form of a well-formed identifier holds only ASCII digits and
/// `/`; cut at each `/` it has one piece per segment, and piece `i` is the
/// shortest decimal text of segment `i`: non-empty, digits only, no leading
/// zero, and of value segment `i`.
pub proof fn law_text_form(v: Seq<u64>)
    requires
        v.len() >= 1,
    ensures
        forall|k: int| 0 <= k < tenant_id_text(v).len() ==> is_digit(#[trigger] tenant_id_text(v)[k])
            || tenant_id_text(v)[k] == '/',
        split_on_slash(tenant_id_text(v)).len() == v.len(),
        forall|i: int| 0 <= i < v.len() ==> {
            let p = #[trigger] split_on_slash(tenant_id_text(v))[i];
            &&& p.len() >= 1
            &&& all_digits(p)
            &&& digits_value(p) == v[i]
            &&& (p.len() > 1 ==> p[0] != '0')
        },
{
    let parts = segment_texts(v);
    assert forall|i: int| 0 <= i < parts.len() implies all_digits(#[trigger] parts[i]) by {
        lemma_decimal_text(v[i] as nat);
    }
    assert forall|i: int, j: int|
        0 <= i < parts.len() && 0 <= j < parts[i].len() implies parts[i][j] != '/' by {
        lemma_decimal_text(v[i] as nat);
        assert(is_digit(decimal_text(v[i] as nat)[j]));
    }
    lemma_split_join(parts);
    lemma_join_digit_chars(parts);
    assert forall|i: int| 0 <= i < v.len() implies {
        let p = #[trigger] split_on_slash(tenant_id_text(v))[i];
        &&& p.len() >= 1
        &&& all_digits(p)
        &&& digits_value(p) == v[i]
        &&& (p.len() > 1 ==> p[0] != '0')
    } by {
        lemma_decimal_text(v[i] as nat);
        lemma_decimal_text_first_digit(v[i] as nat);
        assert(split_on_slash(tenant_id_text(v))[i] == decimal_text(v[i] as nat));
    }
}

proof fn lemma_parse_segments_all_numbers(pieces: Seq<Seq<char>>)
    requires
        forall|i: int| 0 <= i < pieces.len() ==> parse_u64_text(#[trigger] pieces[i]) is Some,
    ensures
        parse_segments(pieces) matches Ok(v) && v.len() == pieces.len() && forall|i: int|
            0 <= i < pieces.len() ==> parse_u64_text(#[trigger] pieces[i]) == Some(v[i]),
    decreases pieces.len(),
{
    if pieces.len() > 0 {
        let init = pieces.drop_last();
        assert forall|i: int| 0 <= i < init.len() implies parse_u64_text(#[trigger] init[i]) is Some by {
            assert(init[i] == pieces[i]);
        }
        lemma_parse_segments_all_numbers(init);
        assert(parse_u64_text(pieces[pieces.len() - 1]) is Some);
        let w = parse_segments(init)->Ok_0;
        let n = parse_u64_text(pieces.last())->Some_0;
        assert(parse_segments(pieces) == Ok::<Seq<u64>, Seq<char>>(w.push(n)));
        assert forall|i: int| 0 <= i < pieces.len() implies parse_u64_text(#[trigger] pieces[i])
            == Some(w.push(n)[i]) by {
            if i < init.len() {
                assert(init[i] == pieces[i]);
            }
        }
    } else {
        assert(parse_segments(pieces) == Ok::<Seq<u64>, Seq<char>>(Seq::<u64>::empty()));
    }
}

proof fn lemma_parse_segments_bad_piece(pieces: Seq<Seq<char>>, j: int)
    requires
        0 <= j < pieces.len(),
        parse_u64_text(pieces[j]) is None,
    ensures
        parse_segments(pieces) is Err,
    decreases pieces.len(),
{
    if j < pieces.len() - 1 {
        lemma_parse_segments_bad_piece(pieces.drop_last(), j);
    }
}

/// Parsing reads the pieces of a non-empty text between the `/` characters
/// in order: when every piece is an unsigned 64-bit number, the result has
/// one segment per piece and segment `i` is the value of piece `i`; when
/// some piece is not, parsing fails.
pub proof fn law_parse_reads_pieces_in_order(s: Seq<char>)
    requires
        s.len() > 0,
    ensures
        (forall|i: int| 0 <= i < split_on_slash(s).len() ==> parse_u64_text(
            #[trigger] split_on_slash(s)[i],
        ) is Some) ==> (tenant_id_parse(s) matches Ok(v) && v.len() == split_on_slash(s).len()
            && forall|i: int| 0 <= i < v.len() ==> parse_u64_text(
            #[trigger] split_on_slash(s)[i],
        ) == Some(v[i])),
        (exists|j: int| 0 <= j < split_on_slash(s).len() && parse_u64_text(
            #[trigger] split_on_slash(s)[j],
        ) is None) ==> tenant_id_parse(s) is Err,
{
    let pieces = split_on_slash(s);
    if forall|i: int| 0 <= i < pieces.len() ==> parse_u64_text(#[trigger] pieces[i]) is Some {
        lemma_parse_segments_all_numbers(pieces);
    }
    if exists|j: int| 0 <= j < pieces.len() && parse_u64_text(#[trigger] pieces[j]) is None {
        let j = choose|j: int| 0 <= j < pieces.len() && parse_u64_text(#[trigger] pieces[j]) is None;
        lemma_parse_segments_bad_piece(pieces, j);
    }
}

} // verus!
