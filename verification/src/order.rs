use vstd::prelude::*;

verus! {

/// Lexicographic order on texts, character by character: the order of Rust's
/// `String` comparison (byte-wise order of UTF-8 agrees with code-point order).
pub open spec fn text_less(a: Seq<char>, b: Seq<char>) -> bool
    decreases a.len(),
{
    if a.len() == 0 {
        b.len() > 0
    } else if b.len() == 0 {
        false
    } else if a[0] != b[0] {
        (a[0] as int) < (b[0] as int)
    } else {
        text_less(a.drop_first(), b.drop_first())
    }
}

pub proof fn lemma_text_less_irreflexive(a: Seq<char>)
    ensures
        !text_less(a, a),
    decreases a.len(),
{
    if a.len() > 0 {
        lemma_text_less_irreflexive(a.drop_first());
    }
}

pub proof fn lemma_text_less_asymmetric(a: Seq<char>, b: Seq<char>)
    requires
        text_less(a, b),
    ensures
        !text_less(b, a),
    decreases a.len(),
{
    if a.len() > 0 && b.len() > 0 && a[0] == b[0] {
        lemma_text_less_asymmetric(a.drop_first(), b.drop_first());
    }
}

pub proof fn lemma_text_less_total(a: Seq<char>, b: Seq<char>)
    requires
        a != b,
    ensures
        text_less(a, b) || text_less(b, a),
    decreases a.len(),
{
    if a.len() > 0 && b.len() > 0 && a[0] == b[0] {
        if a.drop_first() == b.drop_first() {
            assert(a =~= b) by {
                assert(a.len() == a.drop_first().len() + 1);
                assert(b.len() == b.drop_first().len() + 1);
                assert forall|i: int| 0 <= i < a.len() implies a[i] == b[i] by {
                    if i > 0 {
                        assert(a[i] == a.drop_first()[i - 1]);
                        assert(b[i] == b.drop_first()[i - 1]);
                    }
                }
            }
        }
        lemma_text_less_total(a.drop_first(), b.drop_first());
    } else if a.len() == 0 && b.len() == 0 {
        assert(a =~= b);
    }
}

pub proof fn lemma_text_less_transitive(a: Seq<char>, b: Seq<char>, c: Seq<char>)
    requires
        text_less(a, b),
        text_less(b, c),
    ensures
        text_less(a, c),
    decreases a.len(),
{
    if a.len() > 0 && b.len() > 0 && c.len() > 0 && a[0] == b[0] && b[0] == c[0] {
        lemma_text_less_transitive(a.drop_first(), b.drop_first(), c.drop_first());
    }
}

/// Outcome of comparing two texts.
#[derive(Debug, Clone, Copy, PartialEq, Eq)]
pub enum TextOrder {
    Less,
    Equal,
    Greater,
}

/// Compares two texts in the order of `text_less`.
pub fn compare_text(a: &str, b: &str) -> (r: TextOrder)
    ensures
        (r == TextOrder::Less) == text_less(a@, b@),
        (r == TextOrder::Equal) == (a@ == b@),
        (r == TextOrder::Greater) == text_less(b@, a@),
{
    let la = a.unicode_len();
    let lb = b.unicode_len();
    let ghost sa = a@;
    let ghost sb = b@;
    let mut i: usize = 0;
    assert(sa.skip(0) =~= sa);
    assert(sb.skip(0) =~= sb);
    while i < la && i < lb
        invariant
            i <= la,
            i <= lb,
            la == sa.len(),
            lb == sb.len(),
            sa == a@,
            sb == b@,
            sa.take(i as int) =~= sb.take(i as int),
            text_less(sa, sb) == text_less(sa.skip(i as int), sb.skip(i as int)),
            text_less(sb, sa) == text_less(sb.skip(i as int), sa.skip(i as int)),
            (sa == sb) == (sa.skip(i as int) == sb.skip(i as int)),
        decreases la - i,
    {
        let ca = a.get_char(i);
        let cb = b.get_char(i);
        let ghost ra = sa.skip(i as int);
        let ghost rb = sb.skip(i as int);
        assert(ra[0] == ca && rb[0] == cb);
        if ca != cb {
            assert(sa != sb) by {
                if sa == sb {
                    assert(sa[i as int] == sb[i as int]);
                }
            }
            if ca < cb {
                proof {
                    lemma_text_less_asymmetric(ra, rb);
                }
                return TextOrder::Less;
            } else {
                proof {
                    lemma_text_less_asymmetric(rb, ra);
                }
                return TextOrder::Greater;
            }
        }
        assert(ra.drop_first() =~= sa.skip(i + 1));
        assert(rb.drop_first() =~= sb.skip(i + 1));
        assert((ra == rb) == (ra.drop_first() == rb.drop_first())) by {
            if ra.drop_first() == rb.drop_first() {
                assert(ra.len() == ra.drop_first().len() + 1);
                assert(rb.len() == rb.drop_first().len() + 1);
                assert forall|k: int| 0 <= k < ra.len() implies ra[k] == rb[k] by {
                    if k > 0 {
                        assert(ra[k] == ra.drop_first()[k - 1]);
                        assert(rb[k] == rb.drop_first()[k - 1]);
                    }
                }
                assert(ra =~= rb);
            }
        }
        i = i + 1;
    }
    let ghost ra = sa.skip(i as int);
    let ghost rb = sb.skip(i as int);
    if la == lb {
        assert(ra =~= rb);
        proof {
            lemma_text_less_irreflexive(ra);
        }
        TextOrder::Equal
    } else if la < lb {
        assert(ra.len() == 0 && rb.len() > 0);
        assert(ra != rb);
        TextOrder::Less
    } else {
        assert(rb.len() == 0 && ra.len() > 0);
        assert(ra != rb);
        TextOrder::Greater
    }
}

} // verus!
