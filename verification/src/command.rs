//! Splitting a command line into a program name and its arguments.
//!
//! The split is the naive one on single spaces: no quoting or escaping is
//! understood, and consecutive spaces produce empty parts.

use vstd::prelude::*;
use crate::text::push_char;

verus! {

/// Joins parts with one space between each pair. The inverse of the split:
/// a list of space-free parts is the split of its join.
pub open spec fn join_spaces(parts: Seq<Seq<char>>) -> Seq<char>
    decreases parts.len(),
{
    if parts.len() == 0 {
        Seq::empty()
    } else if parts.len() == 1 {
        parts[0]
    } else {
        parts[0] + seq![' '] + join_spaces(parts.drop_first())
    }
}

proof fn lemma_join_snoc(parts: Seq<Seq<char>>, p: Seq<char>)
    ensures
        parts.len() == 0 ==> join_spaces(parts.push(p)) == p,
        parts.len() > 0 ==> join_spaces(parts.push(p)) == join_spaces(parts) + seq![' '] + p,
    decreases parts.len(),
{
    if parts.len() == 0 {
        assert(parts.push(p) =~= seq![p]);
        assert(join_spaces(seq![p]) == p);
    } else if parts.len() == 1 {
        assert(parts.push(p).len() == 2);
        assert(parts.push(p)[0] == parts[0]);
        assert(parts.push(p).drop_first() =~= seq![p]);
        assert(join_spaces(seq![p]) == p);
        assert(join_spaces(parts.push(p)) == parts[0] + seq![' '] + p);
        assert(join_spaces(parts) == parts[0]);
    } else {
        assert(parts.push(p).drop_first() =~= parts.drop_first().push(p));
        lemma_join_snoc(parts.drop_first(), p);
        assert(parts.push(p)[0] == parts[0]);
        assert(join_spaces(parts.push(p)) == parts[0] + seq![' '] + join_spaces(
            parts.drop_first().push(p),
        ));
        assert(join_spaces(parts) == parts[0] + seq![' '] + join_spaces(parts.drop_first()));
        assert(parts[0] + seq![' '] + (join_spaces(parts.drop_first()) + seq![' '] + p) =~= (
        parts[0] + seq![' '] + join_spaces(parts.drop_first())) + seq![' '] + p);
    }
}

/// Splits a command string on single spaces: the first part is the program,
/// the rest are its arguments, kept verbatim. Every string splits into at
/// least one part; the parts are space-free and joining them with spaces
/// gives the input back, which pins the split down exactly.
pub fn split_command(s: &str) -> (parts: Vec<String>)
    ensures
        parts@.len() >= 1,
        join_spaces(parts@.map_values(|p: String| p@)) == s@,
        forall|i: int| 0 <= i < parts@.len() ==> !(#[trigger] parts@[i])@.contains(' '),
{
    let n = s.unicode_len();
    let mut parts: Vec<String> = Vec::new();
    let mut cur = String::new();
    let mut i: usize = 0;
    proof {
        assert(parts@.map_values(|p: String| p@).push(cur@) =~= seq![cur@]);
        assert(s@.take(0) =~= Seq::<char>::empty());
    }
    while i < n
        invariant
            i <= n,
            n == s@.len(),
            !cur@.contains(' '),
            forall|k: int| 0 <= k < parts@.len() ==> !(#[trigger] parts@[k])@.contains(' '),
            join_spaces(parts@.map_values(|p: String| p@).push(cur@)) == s@.take(i as int),
        decreases n - i,
    {
        let ghost mapped = parts@.map_values(|p: String| p@);
        let ghost cur0 = cur@;
        let c = s.get_char(i);
        if c == ' ' {
            parts.push(cur);
            cur = String::new();
            proof {
                let mapped2 = parts@.map_values(|p: String| p@);
                assert(mapped2 =~= mapped.push(cur0));
                lemma_join_snoc(mapped2, Seq::<char>::empty());
                assert(mapped2.len() > 0);
                assert(join_spaces(mapped2) == s@.take(i as int));
                assert(join_spaces(mapped2.push(cur@)) =~= s@.take(i as int + 1));
            }
        } else {
            push_char(&mut cur, c);
            proof {
                assert(cur@ == cur0.push(c));
                assert(!cur@.contains(' ')) by {
                    assert(forall|k: int|
                        0 <= k < cur@.len() ==> cur@[k] == (if k < cur0.len() {
                            cur0[k]
                        } else {
                            c
                        }));
                }
                lemma_join_snoc(mapped, cur0);
                lemma_join_snoc(mapped, cur@);
                if mapped.len() == 0 {
                    assert(cur0 == s@.take(i as int));
                    assert(cur@ =~= s@.take(i as int + 1));
                } else {
                    assert(join_spaces(mapped) + seq![' '] + cur@ =~= s@.take(i as int + 1));
                }
            }
        }
        i += 1;
    }
    let ghost mapped = parts@.map_values(|p: String| p@);
    let ghost cur0 = cur@;
    parts.push(cur);
    proof {
        assert(parts@.map_values(|p: String| p@) =~= mapped.push(cur0));
        assert(s@.take(n as int) =~= s@);
    }
    parts
}

} // verus!
