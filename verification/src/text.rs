//! Joining texts with a separator, and what the joined text holds.

use vstd::prelude::*;
use vstd::string::StringExecFns;

verus! {

/// The texts of a list of strings.
pub open spec fn texts(parts: Seq<String>) -> Seq<Seq<char>> {
    parts.map_values(|s: String| s@)
}

/// The parts in order, with `sep` between each two neighbours.
pub open spec fn joined(parts: Seq<Seq<char>>, sep: Seq<char>) -> Seq<char>
    decreases parts.len(),
{
    if parts.len() == 0 {
        Seq::empty()
    } else if parts.len() == 1 {
        parts[0]
    } else {
        joined(parts.drop_last(), sep) + sep + parts.last()
    }
}

/// Whether `needle` stands somewhere in `hay`, unbroken.
pub open spec fn occurs_in(needle: Seq<char>, hay: Seq<char>) -> bool {
    exists|k: int|
        0 <= k && k + needle.len() <= hay.len() && #[trigger] hay.subrange(
            k,
            k + needle.len(),
        ) == needle
}

/// A text that stands in `inner` stands in `left + inner + right` too.
pub proof fn lemma_occurs_in_framed(
    needle: Seq<char>,
    left: Seq<char>,
    inner: Seq<char>,
    right: Seq<char>,
)
    requires
        occurs_in(needle, inner),
    ensures
        occurs_in(needle, left + inner + right),
{
    let k = choose|k: int|
        0 <= k && k + needle.len() <= inner.len() && #[trigger] inner.subrange(
            k,
            k + needle.len(),
        ) == needle;
    let whole = left + inner + right;
    let at = left.len() + k;
    assert(whole.subrange(at, at + needle.len()) =~= needle);
}

/// Every text stands in itself.
pub proof fn lemma_occurs_in_self(text: Seq<char>)
    ensures
        occurs_in(text, text),
{
    assert(text.subrange(0, 0 + text.len() as int) =~= text);
}

/// Joining loses nothing: each part stands, unbroken, in the joined text.
pub proof fn lemma_joined_holds_each_part(parts: Seq<Seq<char>>, sep: Seq<char>, i: int)
    requires
        0 <= i < parts.len(),
    ensures
        occurs_in(parts[i], joined(parts, sep)),
    decreases parts.len(),
{
    if parts.len() == 1 {
        lemma_occurs_in_self(parts[0]);
    } else {
        let front = joined(parts.drop_last(), sep);
        if i == parts.len() - 1 {
            lemma_occurs_in_self(parts.last());
            lemma_occurs_in_framed(parts.last(), front + sep, parts.last(), Seq::empty());
            assert(front + sep + parts.last() + Seq::<char>::empty() =~= front + sep
                + parts.last());
        } else {
            lemma_joined_holds_each_part(parts.drop_last(), sep, i);
            lemma_occurs_in_framed(parts[i], Seq::empty(), front, sep + parts.last());
            assert(Seq::<char>::empty() + front + (sep + parts.last()) =~= front + sep
                + parts.last());
        }
    }
}

/// The strings of `parts` in order, with `sep` between each two neighbours.
pub fn join(parts: &Vec<String>, sep: &str) -> (r: String)
    ensures
        r@ == joined(texts(parts@), sep@),
{
    let mut out = String::new();
    let mut i: usize = 0;
    while i < parts.len()
        invariant
            i <= parts.len(),
            out@ == joined(texts(parts@).take(i as int), sep@),
        decreases parts.len() - i,
    {
        proof {
            let before = texts(parts@).take(i as int);
            let after = texts(parts@).take(i + 1);
            assert(after.drop_last() =~= before);
            assert(after.last() == parts@[i as int]@);
            if i == 0 {
                assert(out@ + parts@[0]@ =~= parts@[0]@);
            }
        }
        if i > 0 {
            out.append(sep);
        }
        out.append(parts[i].as_str());
        i += 1;
    }
    proof {
        assert(texts(parts@).take(parts.len() as int) =~= texts(parts@));
    }
    out
}

} // verus!
