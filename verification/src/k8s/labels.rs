use vstd::prelude::*;

verus! {

/// The selector term `key=value`.
pub open spec fn label_term(key: Seq<char>, value: Seq<char>) -> Seq<char> {
    key + seq!['='] + value
}

/// The label selector of a label map: its entries as `key=value` terms,
/// in order, joined by commas; empty for no entry.
pub open spec fn selector_text(labels: Seq<(String, String)>) -> Seq<char>
    decreases labels.len(),
{
    if labels.len() == 0 {
        Seq::empty()
    } else if labels.len() == 1 {
        label_term(labels[0].0@, labels[0].1@)
    } else {
        selector_text(labels.drop_last()) + seq![','] + label_term(
            labels.last().0@,
            labels.last().1@,
        )
    }
}

/// The total length of the `key=value` terms of the entries.
pub open spec fn terms_len(labels: Seq<(String, String)>) -> int
    decreases labels.len(),
{
    if labels.len() == 0 {
        0
    } else {
        terms_len(labels.drop_last()) + labels.last().0@.len() + 1 + labels.last().1@.len()
    }
}

/// Selectors compose: the selector of two nonempty label lists, one after
/// the other, is the first selector, a comma, then the second selector.
pub proof fn lemma_selector_concat(a: Seq<(String, String)>, b: Seq<(String, String)>)
    requires
        a.len() > 0,
        b.len() > 0,
    ensures
        selector_text(a + b) == selector_text(a) + seq![','] + selector_text(b),
    decreases b.len(),
{
    let ab = a + b;
    assert(ab.last() == b.last());
    if b.len() == 1 {
        assert(ab.drop_last() =~= a);
        assert(selector_text(b) == label_term(b[0].0@, b[0].1@));
    } else {
        assert(ab.drop_last() =~= a + b.drop_last());
        lemma_selector_concat(a, b.drop_last());
        let t = label_term(b.last().0@, b.last().1@);
        assert(selector_text(ab) == selector_text(a + b.drop_last()) + seq![','] + t);
        assert(selector_text(b) == selector_text(b.drop_last()) + seq![','] + t);
        assert(selector_text(ab) =~= selector_text(a) + seq![','] + selector_text(b));
    }
}

/// The selector of a single entry is its `key=value` term.
pub proof fn lemma_selector_single(l: (String, String))
    ensures
        selector_text(seq![l]) == l.0@ + seq!['='] + l.1@,
{
}

/// A selector is its terms and one comma between each two consecutive
/// terms: its length is the terms' total length plus one less than the
/// number of entries.
pub proof fn lemma_selector_len(labels: Seq<(String, String)>)
    ensures
        labels.len() > 0 ==> selector_text(labels).len() == terms_len(labels) + labels.len() - 1,
        labels.len() == 0 ==> selector_text(labels).len() == 0,
    decreases labels.len(),
{
    if labels.len() > 1 {
        lemma_selector_len(labels.drop_last());
        let t = label_term(labels.last().0@, labels.last().1@);
        assert(t.len() == labels.last().0@.len() + 1 + labels.last().1@.len());
        assert(selector_text(labels) == selector_text(labels.drop_last()) + seq![','] + t);
    } else if labels.len() == 1 {
        assert(labels.drop_last().len() == 0);
        assert(terms_len(labels.drop_last()) == 0);
        assert(labels.last() == labels[0]);
        let t = label_term(labels[0].0@, labels[0].1@);
        assert(t.len() == labels[0].0@.len() + 1 + labels[0].1@.len());
    }
}

/// Writes the label selector that matches every entry of a label map.
pub fn label_selector(labels: &Vec<(String, String)>) -> (s: String)
    ensures
        s@ == selector_text(labels@),
{
    let mut s = String::new();
    let mut i: usize = 0;
    proof {
        reveal_strlit(",");
        reveal_strlit("=");
        assert(labels@.take(0) =~= Seq::<(String, String)>::empty());
    }
    while i < labels.len()
        invariant
            i <= labels.len(),
            s@ == selector_text(labels@.take(i as int)),
        decreases labels.len() - i,
    {
        let (key, value) = &labels[i];
        let ghost before = s@;
        if i > 0 {
            s.append(",");
        }
        s.append(key.as_str());
        s.append("=");
        s.append(value.as_str());
        proof {
            reveal_strlit(",");
            reveal_strlit("=");
            let t = labels@.take(i + 1);
            assert(t.drop_last() =~= labels@.take(i as int));
            assert(t.last() == labels@[i as int]);
            if i == 0 {
                assert(s@ =~= label_term(key@, value@));
            } else {
                assert(s@ =~= before + seq![','] + label_term(key@, value@));
            }
        }
        i = i + 1;
    }
    proof {
        assert(labels@.take(labels.len() as int) =~= labels@);
    }
    s
}

} // verus!
