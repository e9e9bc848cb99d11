use vstd::prelude::*;

use crate::category::{
    all_categories, non_symbols, resolved_chars, selected_by_flags, selected_by_mask, unknown_flags, Category,
};
use crate::error::Error;
use crate::text::{chars_of, contains_char};

verus! {

/// The characters that occur in at least one of `sets`.
pub open spec fn union_of(sets: Seq<Set<char>>) -> Set<char> {
    Set::new(|c: char| exists|i: int| 0 <= i < sets.len() && #[trigger] sets[i].contains(c))
}

/// Whether some character of `s` belongs to `set`.
pub open spec fn has_any(set: Set<char>, s: Seq<char>) -> bool {
    exists|j: int| 0 <= j < s.len() && set.contains(#[trigger] s[j])
}

/// Whether every one of `sets` has at least one of its characters in `s`.
pub open spec fn covers(sets: Seq<Set<char>>, s: Seq<char>) -> bool {
    forall|i: int| 0 <= i < sets.len() ==> has_any(#[trigger] sets[i], s)
}

/// The character set of each category in `cats`, in the same order.
pub open spec fn resolved_sets(cats: Seq<Category>, is_easy: bool, symbols: Seq<char>) -> Seq<
    Set<char>,
> {
    cats.map_values(|k: Category| resolved_chars(k, is_easy, symbols).to_set())
}

/// The resolved character sets of the selected categories, one per category.
#[derive(Debug, PartialEq)]
pub struct CharSets {
    char_sets: Vec<Vec<char>>,
}

impl View for CharSets {
    type V = Seq<Set<char>>;

    closed spec fn view(&self) -> Seq<Set<char>> {
        self.char_sets@.map_values(|v: Vec<char>| v@.to_set())
    }
}

impl CharSets {
    /// One to four sets, each non-empty and held without repeats.
    pub closed spec fn wf(&self) -> bool {
        &&& 1 <= self.char_sets@.len() <= 4
        &&& forall|i: int|
            0 <= i < self.char_sets@.len() ==> {
                &&& (#[trigger] self.char_sets@[i])@.len() > 0
                &&& self.char_sets@[i]@.no_duplicates()
            }
    }

    /// Resolves the character set of each category in `char_sets`.
    pub fn new(char_sets: Vec<Category>, is_easy: bool, symbols: String) -> (r: Self)
        requires
            1 <= char_sets@.len() <= 4,
        ensures
            r.wf(),
            r@ == resolved_sets(char_sets@, is_easy, symbols@),
    {
        let mut sets: Vec<Vec<char>> = Vec::new();
        let mut i: usize = 0;
        while i < char_sets.len()
            invariant
                i <= char_sets@.len(),
                sets@.len() == i,
                forall|j: int|
                    0 <= j < i ==> {
                        &&& (#[trigger] sets@[j])@.len() > 0
                        &&& sets@[j]@.no_duplicates()
                        &&& sets@[j]@.to_set() == resolved_chars(
                            char_sets@[j],
                            is_easy,
                            symbols@,
                        ).to_set()
                    },
            decreases char_sets@.len() - i,
        {
            sets.push(char_sets[i].char_set(is_easy, &symbols));
            i = i + 1;
        }
        let r = CharSets { char_sets: sets };
        assert(r@ =~= resolved_sets(char_sets@, is_easy, symbols@));
        r
    }

    /// The sets, one per selected category, each without repeats.
    pub fn char_sets(&self) -> (r: &Vec<Vec<char>>)
        ensures
            r@.map_values(|v: Vec<char>| v@.to_set()) == self@,
    {
        &self.char_sets
    }

    /// A well-formed value holds one to four non-empty sets.
    pub proof fn lemma_wf(&self)
        requires
            self.wf(),
        ensures
            1 <= self@.len() <= 4,
            forall|i: int| 0 <= i < self@.len() ==> (#[trigger] self@[i]).len() > 0,
    {
        assert forall|i: int| 0 <= i < self@.len() implies (#[trigger] self@[i]).len() > 0 by {
            let v = self.char_sets@[i]@;
            assert(v.to_set().contains(v[0]));
            vstd::set_lib::lemma_set_empty_equivalency_len(v.to_set());
        }
    }

    /// The sets of the categories whose flag occurs in `flag_str`, under the given
    /// mode and custom symbols. The flags are checked first, then the symbols.
    pub fn from_cli(flag_str: String, is_easy: bool, symbols: String) -> (r: Result<Self, Error>)
        ensures
            unknown_flags(flag_str@).len() > 0 <==> (r matches Err(Error::CategoryFlagErr(_))),
            r matches Err(Error::CategoryFlagErr(e)) ==> e@ == unknown_flags(flag_str@),
            unknown_flags(flag_str@).len() == 0 && flag_str@.len() == 0 <==> (r matches Err(
                Error::CharactersErr(_),
            )),
            flag_str@.len() > 0 && unknown_flags(flag_str@).len() == 0 && non_symbols(
                symbols@,
            ).len() > 0 <==> (r matches Err(Error::NotSymbolErr(_))),
            r matches Err(Error::NotSymbolErr(e)) ==> e@ == non_symbols(symbols@),
            r is Ok <==> flag_str@.len() > 0 && unknown_flags(flag_str@).len() == 0 && non_symbols(
                symbols@,
            ).len() == 0,
            r matches Ok(cs) ==> cs.wf() && cs@ == resolved_sets(
                selected_by_flags(flag_str@),
                is_easy,
                symbols@,
            ),
    {
        let cats = match Category::from_cli(flag_str) {
            Ok(cats) => cats,
            Err(e) => {
                return Err(e);
            },
        };
        match Category::validate_symbols(&symbols) {
            Ok(()) => {},
            Err(e) => {
                return Err(e);
            },
        }
        proof {
            assert(all_categories().len() == 4);
            all_categories().lemma_filter_len(|k: Category| flag_str@.contains(k.spec_flag()));
        }
        Ok(Self::new(cats, is_easy, symbols))
    }

    /// The sets of the categories whose bit is set in `code`, under the given mode
    /// and custom symbols. The mask is checked first, then the symbols.
    pub fn from_code(code: usize, is_easy: bool, symbols: String) -> (r: Result<Self, Error>)
        ensures
            code < 1 || code > 15 <==> (r matches Err(Error::InvalidMaskErr(m)) && m == code),
            1 <= code <= 15 && non_symbols(symbols@).len() > 0 <==> (r matches Err(
                Error::NotSymbolErr(_),
            )),
            r matches Err(Error::NotSymbolErr(e)) ==> e@ == non_symbols(symbols@),
            r is Ok <==> 1 <= code <= 15 && non_symbols(symbols@).len() == 0,
            r matches Ok(cs) ==> cs.wf() && cs@ == resolved_sets(
                selected_by_mask(code),
                is_easy,
                symbols@,
            ),
    {
        let cats = match Category::from_code(code) {
            Ok(cats) => cats,
            Err(e) => {
                return Err(e);
            },
        };
        match Category::validate_symbols(&symbols) {
            Ok(()) => {},
            Err(e) => {
                return Err(e);
            },
        }
        proof {
            assert(all_categories().len() == 4);
            all_categories().lemma_filter_len(
                |k: Category| code & k.spec_code() == k.spec_code(),
            );
        }
        Ok(Self::new(cats, is_easy, symbols))
    }

    /// `s` with its first characters replaced, one taken from each set in turn, so
    /// that every set is represented.
    pub fn cover(&self, s: &String) -> (r: String)
        requires
            self.wf(),
            self@.len() <= s@.len(),
            forall|i: int| 0 <= i < s@.len() ==> union_of(self@).contains(#[trigger] s@[i]),
        ensures
            r@.len() == s@.len(),
            forall|i: int| 0 <= i < r@.len() ==> union_of(self@).contains(#[trigger] r@[i]),
            forall|i: int| 0 <= i < self@.len() ==> self@[i].contains(#[trigger] r@[i]),
            forall|i: int| self@.len() <= i < r@.len() ==> #[trigger] r@[i] == s@[i],
            covers(self@, r@),
    {
        let mut v = chars_of(s.as_str());
        let mut i: usize = 0;
        while i < self.char_sets.len()
            invariant
                self.wf(),
                i <= self.char_sets@.len() <= v@.len(),
                v@.len() == s@.len(),
                forall|k: int| i <= k < v@.len() ==> #[trigger] v@[k] == s@[k],
                forall|k: int| 0 <= k < v@.len() ==> union_of(self@).contains(#[trigger] v@[k]),
                forall|k: int| 0 <= k < i ==> #[trigger] v@[k] == self.char_sets@[k]@[0],
            decreases self.char_sets@.len() - i,
        {
            let c = self.char_sets[i][0];
            proof {
                assert(self@[i as int].contains(c));
            }
            v[i] = c;
            i = i + 1;
        }
        let r = crate::text::string_of(&v);
        proof {
            assert forall|k: int| 0 <= k < self@.len() implies has_any(#[trigger] self@[k], r@) by {
                assert(self@[k].contains(r@[k]));
            }
        }
        r
    }

    /// The distinct characters of all sets.
    pub fn characters(&self) -> (r: Vec<char>)
        ensures
            r@.no_duplicates(),
            r@.to_set() == union_of(self@),
            self.wf() ==> r@.len() > 0,
    {
        let mut r: Vec<char> = Vec::new();
        let mut i: usize = 0;
        while i < self.char_sets.len()
            invariant
                i <= self.char_sets@.len(),
                r@.no_duplicates(),
                forall|c: char|
                    r@.contains(c) <==> exists|k: int|
                        0 <= k < i && #[trigger] self.char_sets@[k]@.contains(c),
            decreases self.char_sets@.len() - i,
        {
            let set = &self.char_sets[i];
            let mut j: usize = 0;
            while j < set.len()
                invariant
                    i < self.char_sets@.len(),
                    set == self.char_sets@[i as int],
                    j <= set@.len(),
                    r@.no_duplicates(),
                    forall|c: char|
                        r@.contains(c) <==> (exists|k: int|
                            0 <= k < i && #[trigger] self.char_sets@[k]@.contains(c))
                            || set@.take(j as int).contains(c),
                decreases set@.len() - j,
            {
                let c = set[j];
                let ghost before = r@;
                if !contains_char(&r, c) {
                    r.push(c);
                }
                proof {
                    assert(set@.take(j + 1) =~= set@.take(j as int).push(c));
                    assert forall|x: char|
                        r@.contains(x) <==> (exists|k: int|
                            0 <= k < i && #[trigger] self.char_sets@[k]@.contains(x))
                            || set@.take(j + 1).contains(x) by {
                        if r@ != before {
                            vstd::seq_lib::lemma_seq_contains_after_push(before, c, x);
                        }
                        vstd::seq_lib::lemma_seq_contains_after_push(set@.take(j as int), c, x);
                        assert(before.contains(x) <==> (exists|k: int|
                            0 <= k < i && #[trigger] self.char_sets@[k]@.contains(x))
                            || set@.take(j as int).contains(x));
                    }
                }
                j = j + 1;
            }
            proof {
                assert(set@.take(set@.len() as int) =~= set@);
                assert forall|c: char|
                    r@.contains(c) <==> exists|k: int|
                        0 <= k < i + 1 && #[trigger] self.char_sets@[k]@.contains(c) by {
                    if set@.contains(c) {
                        assert(self.char_sets@[i as int]@.contains(c));
                    }
                }
            }
            i = i + 1;
        }
        proof {
            assert forall|c: char| r@.to_set().contains(c) == union_of(self@).contains(c) by {
                if r@.contains(c) {
                    let k = choose|k: int|
                        0 <= k < self.char_sets@.len() && #[trigger] self.char_sets@[k]@.contains(
                            c,
                        );
                    assert(self@[k].contains(c));
                }
                if union_of(self@).contains(c) {
                    let k = choose|k: int| 0 <= k < self@.len() && #[trigger] self@[k].contains(c);
                    assert(self.char_sets@[k]@.contains(c));
                }
            }
            assert(r@.to_set() =~= union_of(self@));
            if self.wf() {
                let c = self.char_sets@[0]@[0];
                assert(self@[0].contains(c));
                assert(r@.to_set().contains(c));
            }
        }
        r
    }

    /// Whether `str` holds at least one character of every set.
    pub fn exists_intersection(&self, str: &String) -> (r: bool)
        ensures
            r == covers(self@, str@),
    {
        let s = chars_of(str.as_str());
        let mut i: usize = 0;
        while i < self.char_sets.len()
            invariant
                s@ == str@,
                i <= self.char_sets@.len(),
                forall|k: int| 0 <= k < i ==> has_any(#[trigger] self@[k], s@),
            decreases self.char_sets@.len() - i,
        {
            if !shares_char(&self.char_sets[i], &s) {
                assert(!covers(self@, str@)) by {
                    if covers(self@, str@) {
                        assert(has_any(self@[i as int], s@));
                        let j = choose|j: int|
                            0 <= j < s@.len() && self@[i as int].contains(#[trigger] s@[j]);
                        assert(self.char_sets@[i as int]@.contains(s@[j]));
                    }
                }
                return false;
            }
            proof {
                let j = choose|j: int|
                    0 <= j < s@.len() && self.char_sets@[i as int]@.contains(#[trigger] s@[j]);
                assert(self@[i as int].contains(s@[j]));
            }
            i = i + 1;
        }
        true
    }
}

/// Whether some character of `s` occurs in `set`.
fn shares_char(set: &Vec<char>, s: &Vec<char>) -> (r: bool)
    ensures
        r == exists|j: int| 0 <= j < s@.len() && set@.contains(#[trigger] s@[j]),
{
    let mut j: usize = 0;
    while j < s.len()
        invariant
            j <= s@.len(),
            forall|k: int| 0 <= k < j ==> !set@.contains(#[trigger] s@[k]),
        decreases s@.len() - j,
    {
        if contains_char(set, s[j]) {
            return true;
        }
        j = j + 1;
    }
    false
}

} // verus!
