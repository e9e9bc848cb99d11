use vstd::prelude::*;

verus! {

/// The characters of `s`, in order.
pub fn chars_of(s: &str) -> (v: Vec<char>)
    ensures
        v@ == s@,
{
    let n = s.unicode_len();
    let mut v: Vec<char> = Vec::new();
    let mut i: usize = 0;
    while i < n
        invariant
            n == s@.len(),
            i <= n,
            v@ == s@.take(i as int),
        decreases n - i,
    {
        v.push(s.get_char(i));
        i = i + 1;
        assert(v@ =~= s@.take(i as int));
    }
    assert(v@ =~= s@);
    v
}

/// Whether `c` occurs in `v`.
pub fn contains_char(v: &Vec<char>, c: char) -> (b: bool)
    ensures
        b == v@.contains(c),
{
    let mut i: usize = 0;
    while i < v.len()
        invariant
            i <= v@.len(),
            forall|j: int| 0 <= j < i ==> v@[j] != c,
        decreases v@.len() - i,
    {
        if v[i] == c {
            return true;
        }
        i = i + 1;
    }
    false
}

/// The characters of `s` with later repeats left out, in order of first occurrence.
pub fn distinct_chars(s: &str) -> (r: Vec<char>)
    ensures
        r@.no_duplicates(),
        r@.to_set() == s@.to_set(),
        s@.len() > 0 ==> r@.len() > 0,
{
    let v = chars_of(s);
    let mut r: Vec<char> = Vec::new();
    let mut i: usize = 0;
    while i < v.len()
        invariant
            v@ == s@,
            i <= v@.len(),
            r@.no_duplicates(),
            r@.to_set() == v@.take(i as int).to_set(),
            i > 0 ==> r@.len() > 0,
        decreases v@.len() - i,
    {
        let c = v[i];
        let ghost before = r@;
        if !contains_char(&r, c) {
            r.push(c);
            assert(r@[r@.len() - 1] == c);
        }
        proof {
            assert(v@.take(i + 1) =~= v@.take(i as int).push(c));
            assert(r@.contains(c));
            assert forall|x: char|
                r@.to_set().contains(x) == v@.take(i + 1).to_set().contains(x) by {
                if r@ != before {
                    assert(r@ == before.push(c));
                    vstd::seq_lib::lemma_seq_contains_after_push(before, c, x);
                }
                vstd::seq_lib::lemma_seq_contains_after_push(v@.take(i as int), c, x);
                assert(before.to_set().contains(x) == v@.take(i as int).to_set().contains(x));
            }
            assert(r@.to_set() =~= v@.take(i + 1).to_set());
        }
        i = i + 1;
    }
    assert(v@.take(v@.len() as int) =~= v@);
    r
}

/// Relies on String::push: the character is appended at the end.
#[verifier::external_body]
fn push_char(s: &mut String, c: char)
    ensures
        final(s)@ == old(s)@.push(c),
{
    s.push(c)
}

/// A string holding the characters of `v`, in order.
pub fn string_of(v: &Vec<char>) -> (r: String)
    ensures
        r@ == v@,
{
    let mut r = String::new();
    let mut i: usize = 0;
    while i < v.len()
        invariant
            i <= v@.len(),
            r@ == v@.take(i as int),
        decreases v@.len() - i,
    {
        push_char(&mut r, v[i]);
        i = i + 1;
        assert(r@ =~= v@.take(i as int));
    }
    assert(v@.take(v@.len() as int) =~= v@);
    r
}

} // verus!
