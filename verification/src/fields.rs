//! Splitting text at dashes.

use vstd::prelude::*;

use crate::ascii;

verus! {

/// The fields of `s` between its dashes, in order; there is one more field
/// than there are dashes.
pub open spec fn fields(s: Seq<char>) -> Seq<Seq<char>>
    decreases s.len(),
{
    if s.len() == 0 {
        seq![Seq::empty()]
    } else {
        let before = fields(s.drop_last());
        if s.last() == '-' {
            before.push(Seq::empty())
        } else {
            before.drop_last().push(before.last().push(s.last()))
        }
    }
}

/// Text always has a field.
pub proof fn lemma_fields_nonempty(s: Seq<char>)
    ensures
        fields(s).len() >= 1,
    decreases s.len(),
{
    if s.len() > 0 {
        lemma_fields_nonempty(s.drop_last());
    }
}

/// Text without a dash is one field.
pub proof fn lemma_fields_single(s: Seq<char>)
    requires
        !s.contains('-'),
    ensures
        fields(s) == seq![s],
    decreases s.len(),
{
    if s.len() == 0 {
        assert(s =~= Seq::empty());
    } else {
        assert(s[s.len() - 1] != '-');
        assert forall|c: char| s.drop_last().contains(c) implies s.contains(c) by {
            let i = s.drop_last().index_of(c);
            assert(s[i] == c);
        }
        lemma_fields_single(s.drop_last());
        assert(s.drop_last().push(s.last()) =~= s);
        assert(fields(s) =~= seq![s]);
    }
}

/// A dash joins the fields on its two sides.
pub proof fn lemma_fields_join(a: Seq<char>, b: Seq<char>)
    ensures
        fields(a + seq!['-'] + b) == fields(a) + fields(b),
    decreases b.len(),
{
    let whole = a + seq!['-'] + b;
    lemma_fields_nonempty(a);
    lemma_fields_nonempty(b);
    if b.len() == 0 {
        assert(whole.drop_last() =~= a);
        assert(fields(whole) =~= fields(a) + fields(b));
    } else {
        lemma_fields_join(a, b.drop_last());
        lemma_fields_nonempty(b.drop_last());
        assert(whole.drop_last() =~= a + seq!['-'] + b.drop_last());
        assert(fields(whole) =~= fields(a) + fields(b));
    }
}

/// `parts` with a dash between each two of them.
pub open spec fn joined(parts: Seq<Seq<char>>) -> Seq<char>
    decreases parts.len(),
{
    if parts.len() == 0 {
        Seq::empty()
    } else if parts.len() == 1 {
        parts[0]
    } else {
        joined(parts.drop_last()) + seq!['-'] + parts.last()
    }
}

/// Joining undoes splitting.
pub proof fn lemma_joined_fields(s: Seq<char>)
    ensures
        joined(fields(s)) == s,
    decreases s.len(),
{
    if s.len() == 0 {
        assert(s =~= Seq::empty());
    } else {
        let head = s.drop_last();
        let before = fields(head);
        lemma_joined_fields(head);
        lemma_fields_nonempty(head);
        assert(head.push(s.last()) =~= s);
        if s.last() == '-' {
            let after = before.push(Seq::empty());
            assert(after.drop_last() =~= before);
            assert(joined(after) =~= s);
        } else {
            let after = before.drop_last().push(before.last().push(s.last()));
            assert(after.drop_last() =~= before.drop_last());
            assert(joined(after) =~= joined(before).push(s.last()));
        }
    }
}

/// Four fields, joined.
pub proof fn lemma_joined_four(a: Seq<char>, b: Seq<char>, c: Seq<char>, d: Seq<char>)
    ensures
        joined(seq![a, b, c, d]) == a + seq!['-'] + b + seq!['-'] + c + seq!['-'] + d,
{
    assert(seq![a, b, c, d].drop_last() =~= seq![a, b, c]);
    assert(seq![a, b, c].drop_last() =~= seq![a, b]);
    assert(seq![a, b].drop_last() =~= seq![a]);
    assert(joined(seq![a]) == a);
    assert(joined(seq![a, b]) == a + seq!['-'] + b);
    assert(joined(seq![a, b, c]) == a + seq!['-'] + b + seq!['-'] + c);
}

/// Case folding keeps the dashes where they are.
pub proof fn lemma_fields_lower(s: Seq<char>)
    ensures
        fields(ascii::lower(s)) == fields(s).map_values(|f: Seq<char>| ascii::lower(f)),
    decreases s.len(),
{
    let folded = ascii::lower(s);
    let expected = fields(s).map_values(|f: Seq<char>| ascii::lower(f));
    if s.len() == 0 {
        assert(folded =~= Seq::empty());
        assert(ascii::lower(Seq::<char>::empty()) =~= Seq::<char>::empty());
        assert(fields(folded) =~= expected);
    } else {
        let head = s.drop_last();
        lemma_fields_lower(head);
        lemma_fields_nonempty(head);
        assert(folded.drop_last() =~= ascii::lower(head));
        assert(ascii::lower(Seq::<char>::empty()) =~= Seq::<char>::empty());
        let last = fields(head).last();
        assert(ascii::lower(last.push(s.last())) =~= ascii::lower(last).push(folded.last()));
        assert(fields(folded) =~= expected);
    }
}

} // verus!
