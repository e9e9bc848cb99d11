use vstd::prelude::*;

use crate::category::{
    lemma_alphabet_class, non_symbols, selected_by_flags, selected_by_mask, unknown_flags, Category,
};
use crate::character::{covers, resolved_sets, union_of, CharSets};
use crate::error::Error;
use crate::random::{pick, thread_rng};
use crate::text::string_of;

verus! {

/// The shortest password that can be requested.
pub const MIN_LENGTH: i128 = 8;

/// The longest password that can be requested.
pub const MAX_LENGTH: i128 = 255;

/// How many candidates `generate` draws before it patches the last one.
pub const MAX_DRAWS: u32 = 100000;

/// Whether `s` is an acceptable password of length `len` over `sets`: every
/// character comes from one of the sets, and every set is represented.
pub open spec fn is_password_for(sets: Seq<Set<char>>, len: nat, s: Seq<char>) -> bool {
    &&& s.len() == len
    &&& forall|i: int| 0 <= i < s.len() ==> union_of(sets).contains(#[trigger] s[i])
    &&& covers(sets, s)
}

/// Custom symbols replace the symbol alphabet: once they are given, every symbol
/// in a password over the resolved sets is one of them.
pub proof fn lemma_custom_symbols_only(
    cats: Seq<Category>,
    is_easy: bool,
    symbols: Seq<char>,
    len: nat,
    s: Seq<char>,
)
    requires
        symbols.len() > 0,
        is_password_for(resolved_sets(cats, is_easy, symbols), len, s),
    ensures
        forall|i: int|
            0 <= i < s.len() && Category::Symbol.spec_chars_all().contains(#[trigger] s[i])
                ==> symbols.contains(s[i]),
{
    let sets = resolved_sets(cats, is_easy, symbols);
    assert forall|i: int|
        0 <= i < s.len() && Category::Symbol.spec_chars_all().contains(#[trigger] s[i]) implies symbols.contains(s[i]) by {
        let c = s[i];
        assert(union_of(sets).contains(c));
        let k = choose|k: int| 0 <= k < sets.len() && #[trigger] sets[k].contains(c);
        lemma_alphabet_class(cats[k], c);
        lemma_alphabet_class(Category::Symbol, c);
    }
}

/// In easy mode, with custom symbols that are all symbols, a password over the
/// resolved sets holds no lower case letter that the easy lower case alphabet
/// leaves out.
pub proof fn lemma_easy_lower_only(cats: Seq<Category>, symbols: Seq<char>, len: nat, s: Seq<char>)
    requires
        non_symbols(symbols).len() == 0,
        is_password_for(resolved_sets(cats, true, symbols), len, s),
    ensures
        forall|i: int|
            0 <= i < s.len() && Category::Lower.spec_chars_all().contains(#[trigger] s[i])
                ==> Category::Lower.spec_chars_easy().contains(s[i]),
{
    let sets = resolved_sets(cats, true, symbols);
    assert forall|i: int|
        0 <= i < s.len() && Category::Lower.spec_chars_all().contains(#[trigger] s[i]) implies Category::Lower.spec_chars_easy().contains(s[i]) by {
        let c = s[i];
        assert(union_of(sets).contains(c));
        let k = choose|k: int| 0 <= k < sets.len() && #[trigger] sets[k].contains(c);
        lemma_alphabet_class(cats[k], c);
        lemma_alphabet_class(Category::Lower, c);
        if cats[k] == Category::Symbol && symbols.len() > 0 {
            let j = choose|j: int| 0 <= j < symbols.len() && symbols[j] == c;
            if !Category::Symbol.spec_chars_all().contains(c) {
                symbols.lemma_filter_contains(
                    |x: char| !Category::Symbol.spec_chars_all().contains(x),
                    j,
                );
            }
            lemma_alphabet_class(Category::Symbol, c);
        }
    }
}

/// A password generator: a length and the character sets that must all appear.
pub struct Generator {
    length: usize,
    usable: CharSets,
}

impl Generator {
    /// The requested length.
    pub closed spec fn spec_length(&self) -> nat {
        self.length as nat
    }

    /// The resolved character set of each selected category.
    pub closed spec fn sets(&self) -> Seq<Set<char>> {
        self.usable@
    }

    /// The length lies in bounds and the sets are well formed.
    pub closed spec fn wf(&self) -> bool {
        &&& self.usable.wf()
        &&& MIN_LENGTH <= self.length <= MAX_LENGTH
    }

    /// Checks that `length` lies within `MIN_LENGTH..=MAX_LENGTH`.
    pub fn validate_length(length: i128) -> (r: Result<(), Error>)
        ensures
            length < MIN_LENGTH <==> (r matches Err(Error::LengthInsufficientErr(l)) && l
                == length),
            length > MAX_LENGTH <==> (r matches Err(Error::LengthExcessErr(l)) && l == length),
            MIN_LENGTH <= length <= MAX_LENGTH <==> r is Ok,
    {
        if length < MIN_LENGTH {
            Err(Error::LengthInsufficientErr(length))
        } else if MAX_LENGTH < length {
            Err(Error::LengthExcessErr(length))
        } else {
            Ok(())
        }
    }

    /// A generator for the categories whose flag occurs in `flag_str`. The flags
    /// are checked first, then the custom symbols, then the length.
    pub fn from_cli(length: usize, flag_str: String, is_easy: bool, symbols: String) -> (r:
        Result<Self, Error>)
        ensures
            unknown_flags(flag_str@).len() > 0 <==> (r matches Err(Error::CategoryFlagErr(_))),
            r matches Err(Error::CategoryFlagErr(e)) ==> e@ == unknown_flags(flag_str@),
            unknown_flags(flag_str@).len() == 0 && flag_str@.len() == 0 <==> (r matches Err(
                Error::CharactersErr(_),
            )),
            flag_str@.len() > 0 && unknown_flags(flag_str@).len() == 0 && non_symbols(
                symbols@,
            ).len() > 0 <==> (r matches Err(Error::NotSymbolErr(_))),
            r matches Err(Error::NotSymbolErr(e)) ==> e@ == non_symbols(symbols@),
            flag_str@.len() > 0 && unknown_flags(flag_str@).len() == 0 && non_symbols(
                symbols@,
            ).len() == 0 ==> {
                &&& (length < MIN_LENGTH <==> (r matches Err(Error::LengthInsufficientErr(l))
                    && l == length))
                &&& (length > MAX_LENGTH <==> (r matches Err(Error::LengthExcessErr(l)) && l
                    == length))
                &&& (MIN_LENGTH <= length <= MAX_LENGTH <==> r is Ok)
            },
            r matches Ok(g) ==> {
                &&& g.wf()
                &&& g.spec_length() == length
                &&& g.sets() == resolved_sets(selected_by_flags(flag_str@), is_easy, symbols@)
            },
    {
        match CharSets::from_cli(flag_str, is_easy, symbols) {
            Ok(usable) => Self::new(length, usable),
            Err(e) => Err(e),
        }
    }

    /// A generator for the categories whose bit is set in `code`. The mask is
    /// checked first, then the custom symbols, then the length.
    pub fn from_code(length: usize, code: usize, is_easy: bool, symbols: String) -> (r: Result<
        Self,
        Error,
    >)
        ensures
            code < 1 || code > 15 <==> (r matches Err(Error::InvalidMaskErr(m)) && m == code),
            1 <= code <= 15 && non_symbols(symbols@).len() > 0 <==> (r matches Err(
                Error::NotSymbolErr(_),
            )),
            r matches Err(Error::NotSymbolErr(e)) ==> e@ == non_symbols(symbols@),
            1 <= code <= 15 && non_symbols(symbols@).len() == 0 ==> {
                &&& (length < MIN_LENGTH <==> (r matches Err(Error::LengthInsufficientErr(l))
                    && l == length))
                &&& (length > MAX_LENGTH <==> (r matches Err(Error::LengthExcessErr(l)) && l
                    == length))
                &&& (MIN_LENGTH <= length <= MAX_LENGTH <==> r is Ok)
            },
            r matches Ok(g) ==> {
                &&& g.wf()
                &&& g.spec_length() == length
                &&& g.sets() == resolved_sets(selected_by_mask(code), is_easy, symbols@)
            },
    {
        match CharSets::from_code(code, is_easy, symbols) {
            Ok(usable) => Self::new(length, usable),
            Err(e) => Err(e),
        }
    }

    /// A generator of passwords of `length` characters over `usable`.
    pub fn new(length: usize, usable: CharSets) -> (r: Result<Self, Error>)
        requires
            usable.wf(),
        ensures
            length < MIN_LENGTH <==> (r matches Err(Error::LengthInsufficientErr(l)) && l
                == length),
            length > MAX_LENGTH <==> (r matches Err(Error::LengthExcessErr(l)) && l == length),
            MIN_LENGTH <= length <= MAX_LENGTH <==> r is Ok,
            r matches Ok(g) ==> g.wf() && g.spec_length() == length && g.sets() == usable@,
    {
        match Self::validate_length(length as i128) {
            Ok(()) => Ok(Generator { length: length, usable: usable }),
            Err(e) => Err(e),
        }
    }

    /// The requested length.
    pub fn length(&self) -> (r: usize)
        ensures
            r == self.spec_length(),
    {
        self.length
    }

    /// The resolved character sets.
    pub fn usable(&self) -> (r: &CharSets)
        ensures
            r@ == self.sets(),
    {
        &self.usable
    }

    /// One candidate: `length` characters drawn independently and uniformly from
    /// the distinct characters of all sets.
    fn generate_str(&self) -> (r: String)
        requires
            self.wf(),
        ensures
            r@.len() == self.spec_length(),
            forall|i: int| 0 <= i < r@.len() ==> union_of(self.sets()).contains(#[trigger] r@[i]),
    {
        let characters = self.usable.characters();
        let mut rng = thread_rng();
        let mut s: Vec<char> = Vec::new();
        let mut i: usize = 0;
        while i < self.length
            invariant
                characters@.len() > 0,
                characters@.to_set() == union_of(self.sets()),
                i <= self.length,
                s@.len() == i,
                forall|k: int| 0 <= k < s@.len() ==> union_of(self.sets()).contains(#[trigger] s@[k]),
            decreases self.length - i,
        {
            match pick(&characters, &mut rng) {
                Some(c) => {
                    proof {
                        assert(characters@.to_set().contains(c));
                    }
                    s.push(c);
                },
                None => {},
            }
            i = i + 1;
        }
        string_of(&s)
    }

    /// A password of the requested length in which every selected category is
    /// represented.
    ///
    /// Candidates are drawn until one holds a character of every set. Since the
    /// length is at least eight and at most four sets are selected, a candidate
    /// misses a set only with small probability; should `MAX_DRAWS` candidates all
    /// miss one, the first characters of the last are replaced by one character of
    /// each set, so that the call always ends.
    pub fn generate(&self) -> (r: String)
        requires
            self.wf(),
        ensures
            is_password_for(self.sets(), self.spec_length(), r@),
    {
        let mut generated = self.generate_str();
        let mut draws: u32 = 1;
        while draws < MAX_DRAWS && !self.usable.exists_intersection(&generated)
            invariant
                self.wf(),
                generated@.len() == self.spec_length(),
                forall|i: int|
                    0 <= i < generated@.len() ==> union_of(self.sets()).contains(
                        #[trigger] generated@[i],
                    ),
            decreases MAX_DRAWS - draws,
        {
            generated = self.generate_str();
            draws = draws + 1;
        }
        if self.usable.exists_intersection(&generated) {
            generated
        } else {
            proof {
                self.usable.lemma_wf();
            }
            self.usable.cover(&generated)
        }
    }
}

} // verus!
