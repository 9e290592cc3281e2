//! Joining and splitting of strings at a separator character.
use vstd::prelude::*;
use vstd::std_specs::iter::IteratorSpec;
use vstd::string::StringExecFns;

verus! {

/// The parts, in order, with `sep` between neighbours.
pub open spec fn joined(parts: Seq<Seq<char>>, sep: Seq<char>) -> Seq<char>
    decreases parts.len(),
{
    if parts.len() == 0 {
        Seq::empty()
    } else if parts.len() == 1 {
        parts[0]
    } else {
        joined(parts.drop_last(), sep) + sep + parts.last()
    }
}

/// The fields of `s`: the stretches between occurrences of `sep`. There is
/// always at least one field, and a separator at either end bounds an empty one.
pub open spec fn fields(s: Seq<char>, sep: char) -> Seq<Seq<char>>
    decreases s.len(),
{
    if s.len() == 0 {
        seq![Seq::<char>::empty()]
    } else {
        let before = fields(s.drop_last(), sep);
        if s.last() == sep {
            before.push(Seq::empty())
        } else {
            before.drop_last().push(before.last().push(s.last()))
        }
    }
}

/// No part holds the character `c`.
pub open spec fn free_of(parts: Seq<Seq<char>>, c: char) -> bool {
    forall|i: int| 0 <= i < parts.len() ==> !(#[trigger] parts[i]).contains(c)
}

/// `String::push` of std: the character is appended, and nothing else changes.
pub assume_specification[ String::push ](s: &mut String, c: char)
    ensures
        final(s)@ == old(s)@.push(c),
;

/// Joins the parts with `sep` between neighbours.
pub fn join(parts: &Vec<String>, sep: &str) -> (out: String)
    ensures
        out@ == joined(parts.deep_view(), sep@),
{
    let mut out = String::new();
    let mut i: usize = 0;
    while i < parts.len()
        invariant
            i <= parts.len(),
            out@ == joined(parts.deep_view().take(i as int), sep@),
        decreases parts.len() - i,
    {
        if i > 0 {
            out.append(sep);
        }
        out.append(parts[i].as_str());
        proof {
            let d = parts.deep_view();
            assert(d.take(i + 1).drop_last() == d.take(i as int));
        }
        i += 1;
    }
    proof {
        assert(parts.deep_view().take(parts.len() as int) == parts.deep_view());
    }
    out
}

/// Whether `c` occurs in `s`.
pub fn contains_char(s: &str, c: char) -> (found: bool)
    ensures
        found == s@.contains(c),
{
    let mut it = s.chars();
    let ghost mut seen: Seq<char> = Seq::empty();
    let mut found = false;
    loop
        invariant
            it.obeys_prophetic_iter_laws(),
            it.decrease() is Some,
            seen + it.remaining() == s@,
            found == seen.contains(c),
        ensures
            found == s@.contains(c),
        decreases it.decrease()->0,
    {
        match it.next() {
            Some(x) => {
                proof {
                    if x == c {
                        assert(seen.push(x)[seen.len() as int] == c);
                    } else if seen.push(x).contains(c) {
                        let j = choose|j: int| 0 <= j < seen.push(x).len() && seen.push(x)[j] == c;
                        assert(seen[j] == c);
                    } else if seen.contains(c) {
                        let j = choose|j: int| 0 <= j < seen.len() && seen[j] == c;
                        assert(seen.push(x)[j] == c);
                    }
                    seen = seen.push(x);
                }
                if x == c {
                    found = true;
                }
            },
            None => {
                break;
            },
        }
    }
    found
}

/// Splits `text` into its fields at every occurrence of `sep`.
pub fn split(text: &str, sep: char) -> (out: Vec<String>)
    ensures
        out.deep_view() == fields(text@, sep),
{
    let mut out: Vec<String> = Vec::new();
    let mut current = String::new();
    let mut it = text.chars();
    let ghost mut seen: Seq<char> = Seq::empty();
    loop
        invariant
            it.obeys_prophetic_iter_laws(),
            it.decrease() is Some,
            seen + it.remaining() == text@,
            out.deep_view().push(current@) == fields(seen, sep),
        ensures
            seen == text@,
            out.deep_view().push(current@) == fields(seen, sep),
        decreases it.decrease()->0,
    {
        match it.next() {
            Some(x) => {
                if x == sep {
                    out.push(current);
                    current = String::new();
                } else {
                    current.push(x);
                }
                proof {
                    assert(seen.push(x).drop_last() == seen);
                    seen = seen.push(x);
                }
            },
            None => {
                break;
            },
        }
    }
    out.push(current);
    out
}

/// Every string has at least one field, and no field holds the separator.
pub proof fn fields_are_free(s: Seq<char>, sep: char)
    ensures
        fields(s, sep).len() >= 1,
        free_of(fields(s, sep), sep),
    decreases s.len(),
{
    if s.len() > 0 {
        fields_are_free(s.drop_last(), sep);
        let before = fields(s.drop_last(), sep);
        if s.last() != sep {
            let last = before.last().push(s.last());
            assert forall|j: int| 0 <= j < last.len() implies last[j] != sep by {
                if j < before.last().len() {
                    assert(before.last()[j] == last[j]);
                }
            }
        }
    }
}

/// The fields of `a + b`, where `b` holds no separator: those of `a`, the last
/// of them lengthened by `b`.
proof fn fields_of_extension(a: Seq<char>, b: Seq<char>, sep: char)
    requires
        !b.contains(sep),
    ensures
        fields(a + b, sep) == fields(a, sep).drop_last().push(fields(a, sep).last() + b),
    decreases b.len(),
{
    fields_are_free(a, sep);
    let fa = fields(a, sep);
    if b.len() > 0 {
        let head = b.drop_last();
        assert forall|j: int| 0 <= j < head.len() implies head[j] != sep by {
            assert(b[j] == head[j]);
        }
        fields_of_extension(a, head, sep);
        assert((a + b).drop_last() == a + head);
        assert((fa.last() + head).push(b.last()) == fa.last() + b);
    }
}

/// Splitting what was joined gives the parts back, where there is at least one
/// part and none holds the separator.
pub proof fn fields_of_join(parts: Seq<Seq<char>>, sep: char)
    requires
        parts.len() >= 1,
        free_of(parts, sep),
    ensures
        fields(joined(parts, seq![sep]), sep) == parts,
    decreases parts.len(),
{
    let empty = Seq::<char>::empty();
    if parts.len() == 1 {
        fields_of_extension(empty, parts[0], sep);
    } else {
        let head = parts.drop_last();
        assert forall|i: int| 0 <= i < head.len() implies !(#[trigger] head[i]).contains(sep) by {
            assert(head[i] == parts[i]);
        }
        fields_of_join(head, sep);
        let text = joined(head, seq![sep]);
        let cut = text + seq![sep];
        assert(cut.drop_last() == text);
        fields_of_extension(cut, parts.last(), sep);
    }
}

} // verus!
