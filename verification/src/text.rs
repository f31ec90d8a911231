//! Names as sequences of characters: containment and alphabetical order.

use vstd::prelude::*;
use vstd::relations::total_ordering;
use vstd::std_specs::iter::IteratorSpec;

verus! {

/// The values of a sequence of names, in the same order.
pub open spec fn name_views(names: Seq<String>) -> Seq<Seq<char>> {
    names.map_values(|name: String| name@)
}

/// The characters of `text`, one by one.
pub fn chars_of(text: &str) -> (chars: Vec<char>)
    ensures
        chars@ == text@,
{
    let mut chars: Vec<char> = Vec::new();
    for c in it: text.chars()
        invariant
            it.seq() == text@,
            chars@ == it.seq().take(it.index() as int),
    {
        chars.push(c);
    }
    chars
}

/// `needle` stands in `hay`, character for character, from position `at` on.
pub open spec fn occurs_at(hay: Seq<char>, needle: Seq<char>, at: int) -> bool {
    &&& 0 <= at
    &&& at + needle.len() <= hay.len()
    &&& hay.subrange(at, at + needle.len()) == needle
}

/// `needle` stands somewhere in `hay`. The empty sequence stands in every
/// sequence.
pub open spec fn spec_contains(hay: Seq<char>, needle: Seq<char>) -> bool {
    exists|at: int| occurs_at(hay, needle, at)
}

/// Tells whether `needle` is a substring of `hay`. Upper and lower case
/// differ, and the match may start anywhere.
pub fn contains(hay: &str, needle: &str) -> (found: bool)
    ensures
        found == spec_contains(hay@, needle@),
{
    let hay_chars = chars_of(hay);
    let needle_chars = chars_of(needle);
    let h: usize = hay_chars.len();
    let n: usize = needle_chars.len();
    if n > h {
        return false;
    }
    let mut at: usize = 0;
    while at <= h - n
        invariant
            hay_chars@ == hay@,
            needle_chars@ == needle@,
            h == hay@.len(),
            n == needle@.len(),
            n <= h,
            at <= h - n + 1,
            forall|k: int| 0 <= k < at ==> !occurs_at(hay@, needle@, k),
        decreases h - n + 1 - at,
    {
        let mut matched: usize = 0;
        while matched < n && hay_chars[at + matched] == needle_chars[matched]
            invariant
                hay_chars@ == hay@,
                needle_chars@ == needle@,
                h == hay@.len(),
                n == needle@.len(),
                at + n <= h,
                matched <= n,
                forall|t: int| 0 <= t < matched ==> hay@[at + t] == needle@[t],
            decreases n - matched,
        {
            matched += 1;
        }
        if matched == n {
            assert(hay@.subrange(at as int, at + n) =~= needle@);
            assert(occurs_at(hay@, needle@, at as int));
            return true;
        }
        assert(!occurs_at(hay@, needle@, at as int)) by {
            assert(hay@.subrange(at as int, at + n)[matched as int] != needle@[matched as int]);
        }
        at += 1;
    }
    false
}

/// Alphabetical order, by the code points of the characters: `a` comes no
/// later than `b`. A name comes before every name that it begins.
pub open spec fn spec_name_le(a: Seq<char>, b: Seq<char>) -> bool
    decreases a.len(),
{
    if a.len() == 0 {
        true
    } else if b.len() == 0 {
        false
    } else if a[0] == b[0] {
        spec_name_le(a.drop_first(), b.drop_first())
    } else {
        a[0] < b[0]
    }
}

/// Tells whether `a` comes no later than `b` in alphabetical order.
pub fn name_le(a: &str, b: &str) -> (le: bool)
    ensures
        le == spec_name_le(a@, b@),
{
    broadcast use vstd::string::group_string_axioms;

    let mut rest_a = a.chars();
    let mut rest_b = b.chars();
    loop
        invariant
            spec_name_le(a@, b@) == spec_name_le(rest_a.remaining(), rest_b.remaining()),
            rest_a.decrease() is Some,
        decreases rest_a.decrease()->0,
    {
        match rest_a.next() {
            None => {
                return true;
            },
            Some(first_a) => match rest_b.next() {
                None => {
                    return false;
                },
                Some(first_b) => {
                    if first_a != first_b {
                        return first_a < first_b;
                    }
                },
            },
        }
    }
}

/// Alphabetical order as a relation between names.
pub open spec fn name_order() -> spec_fn(Seq<char>, Seq<char>) -> bool {
    |a: Seq<char>, b: Seq<char>| spec_name_le(a, b)
}

/// Of two names, one comes no later than the other.
pub proof fn lemma_name_le_total(a: Seq<char>, b: Seq<char>)
    ensures
        spec_name_le(a, b) || spec_name_le(b, a),
    decreases a.len(),
{
    if a.len() > 0 && b.len() > 0 && a[0] == b[0] {
        lemma_name_le_total(a.drop_first(), b.drop_first());
    }
}

/// What comes no later than a name comes no later than all that follow it.
pub proof fn lemma_name_le_transitive(a: Seq<char>, b: Seq<char>, c: Seq<char>)
    requires
        spec_name_le(a, b),
        spec_name_le(b, c),
    ensures
        spec_name_le(a, c),
    decreases a.len(),
{
    if a.len() > 0 && b.len() > 0 && c.len() > 0 && a[0] == b[0] && b[0] == c[0] {
        lemma_name_le_transitive(a.drop_first(), b.drop_first(), c.drop_first());
    }
}

/// Two names that each come no later than the other are one name.
pub proof fn lemma_name_le_antisymmetric(a: Seq<char>, b: Seq<char>)
    requires
        spec_name_le(a, b),
        spec_name_le(b, a),
    ensures
        a == b,
    decreases a.len(),
{
    if a.len() > 0 && b.len() > 0 {
        lemma_name_le_antisymmetric(a.drop_first(), b.drop_first());
        assert(a =~= seq![a[0]] + a.drop_first());
        assert(b =~= seq![b[0]] + b.drop_first());
    }
}

/// Alphabetical order is a total order: any two names compare, a name
/// compares with itself, and no two names are level.
pub proof fn lemma_name_order_is_total()
    ensures
        total_ordering(name_order()),
{
    let order = name_order();
    assert forall|a: Seq<char>| #[trigger] order(a, a) by {
        lemma_name_le_total(a, a);
    }
    assert forall|a: Seq<char>, b: Seq<char>| #[trigger] order(a, b) && #[trigger] order(
        b,
        a,
    ) implies a == b by {
        lemma_name_le_antisymmetric(a, b);
    }
    assert forall|a: Seq<char>, b: Seq<char>, c: Seq<char>| #[trigger] order(a, b) && #[trigger] order(
        b,
        c,
    ) implies order(a, c) by {
        lemma_name_le_transitive(a, b, c);
    }
    assert forall|a: Seq<char>, b: Seq<char>| #[trigger] order(a, b) || #[trigger] order(b, a) by {
        lemma_name_le_total(a, b);
    }
}

} // verus!
