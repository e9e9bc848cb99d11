use vstd::prelude::*;

use crate::error::Error;
use crate::text::{chars_of, contains_char, distinct_chars, string_of};

verus! {

/// A class of characters that a password may be required to contain.
#[derive(Clone, Copy, Debug, PartialEq, Eq, Structural)]
pub enum Category {
    Lower,
    Upper,
    Number,
    Symbol,
}

/// Lower case letters.
pub const LOWER: Category = Category::Lower;

/// Upper case letters.
pub const UPPER: Category = Category::Upper;

/// Decimal digits.
pub const NUMBER: Category = Category::Number;

/// Punctuation and other symbols.
pub const SYMBOL: Category = Category::Symbol;

/// The four categories in their canonical order.
pub open spec fn all_categories() -> Seq<Category> {
    seq![Category::Lower, Category::Upper, Category::Number, Category::Symbol]
}

/// Whether `c` is the flag of some category.
pub open spec fn is_flag(c: char) -> bool {
    exists|k: Category| k.spec_flag() == c
}

/// The characters of `s` that are the flag of no category, in order.
pub open spec fn unknown_flags(s: Seq<char>) -> Seq<char> {
    s.filter(|c: char| !is_flag(c))
}

/// The characters of `s` that are not in the full symbol alphabet, in order.
pub open spec fn non_symbols(s: Seq<char>) -> Seq<char> {
    s.filter(|c: char| !Category::Symbol.spec_chars_all().contains(c))
}

/// The categories whose flag occurs in `s`, in canonical order.
pub open spec fn selected_by_flags(s: Seq<char>) -> Seq<Category> {
    all_categories().filter(|k: Category| s.contains(k.spec_flag()))
}

/// The categories whose bit is set in `mask`, in canonical order.
pub open spec fn selected_by_mask(mask: usize) -> Seq<Category> {
    all_categories().filter(|k: Category| mask & k.spec_code() == k.spec_code())
}

/// The characters that make up category `k`'s alphabet: custom symbols replace the
/// symbol alphabet when non-empty, otherwise easy mode picks the restricted alphabet.
pub open spec fn resolved_chars(k: Category, is_easy: bool, symbols: Seq<char>) -> Seq<char> {
    if k == Category::Symbol && symbols.len() > 0 {
        symbols
    } else if is_easy {
        k.spec_chars_easy()
    } else {
        k.spec_chars_all()
    }
}

proof fn lemma_alphabets_nonempty(k: Category)
    ensures
        k.spec_chars_all().len() > 0,
        k.spec_chars_easy().len() > 0,
{
    reveal_strlit("abcdefghijklmnopqrstuvwxyz");
    reveal_strlit("ABCDEFGHIJKLMNOPQRSTUVWXYZ");
    reveal_strlit("0123456789");
    reveal_strlit(r##"!@#$%^&*()\=+_-{}[]:`~|'"<>?;/.,"##);
    reveal_strlit("abcdefghijkmnpqrstuvwxyz");
    reveal_strlit("ABCDEFGHJKLMNPQRSTUVWXYZ");
    reveal_strlit("23456789");
    reveal_strlit(r##"!@#$%^&*=+~"<>?"##);
}

/// Flags and masks are two encodings of one selection: a flag string and a mask
/// that name the same categories select the same categories, in the same order.
pub proof fn lemma_flags_mask_agree(flag_str: Seq<char>, mask: usize)
    requires
        forall|k: Category|
            flag_str.contains(#[trigger] k.spec_flag()) <==> (mask & k.spec_code()
                == k.spec_code()),
    ensures
        selected_by_flags(flag_str) == selected_by_mask(mask),
{
    assert((|k: Category| flag_str.contains(k.spec_flag())) =~= (|k: Category|
        mask & k.spec_code() == k.spec_code()));
}

/// Whether `c` is an ASCII letter or digit.
pub open spec fn is_alphanumeric(c: char) -> bool {
    ('a' <= c <= 'z') || ('A' <= c <= 'Z') || ('0' <= c <= '9')
}

/// The range of characters that category `k`'s alphabets are drawn from.
pub open spec fn in_class(k: Category, c: char) -> bool {
    match k {
        Category::Lower => 'a' <= c <= 'z',
        Category::Upper => 'A' <= c <= 'Z',
        Category::Number => '0' <= c <= '9',
        Category::Symbol => !is_alphanumeric(c),
    }
}

/// Each alphabet of a category keeps to the category's range of characters, so
/// the alphabets of distinct categories are disjoint.
pub proof fn lemma_alphabet_class(k: Category, c: char)
    ensures
        k.spec_chars_all().contains(c) ==> in_class(k, c),
        k.spec_chars_easy().contains(c) ==> in_class(k, c),
{
    if k == Category::Lower && k.spec_chars_all().contains(c) {
        reveal_strlit("abcdefghijklmnopqrstuvwxyz");
        let s = k.spec_chars_all();
        let i = choose|i: int| 0 <= i < s.len() && s[i] == c;
        assert(
            i == 0 || i == 1 || i == 2 || i == 3 || i == 4 || i == 5 || i == 6 || i == 7 ||
                i == 8 || i == 9 || i == 10 || i == 11 || i == 12 || i == 13 || i == 14 ||
                i == 15 || i == 16 || i == 17 || i == 18 || i == 19 || i == 20 || i == 21 ||
                i == 22 || i == 23 || i == 24 || i == 25
        );
    }
    if k == Category::Upper && k.spec_chars_all().contains(c) {
        reveal_strlit("ABCDEFGHIJKLMNOPQRSTUVWXYZ");
        let s = k.spec_chars_all();
        let i = choose|i: int| 0 <= i < s.len() && s[i] == c;
        assert(
            i == 0 || i == 1 || i == 2 || i == 3 || i == 4 || i == 5 || i == 6 || i == 7 ||
                i == 8 || i == 9 || i == 10 || i == 11 || i == 12 || i == 13 || i == 14 ||
                i == 15 || i == 16 || i == 17 || i == 18 || i == 19 || i == 20 || i == 21 ||
                i == 22 || i == 23 || i == 24 || i == 25
        );
    }
    if k == Category::Number && k.spec_chars_all().contains(c) {
        reveal_strlit("0123456789");
        let s = k.spec_chars_all();
        let i = choose|i: int| 0 <= i < s.len() && s[i] == c;
        assert(
            i == 0 || i == 1 || i == 2 || i == 3 || i == 4 || i == 5 || i == 6 || i == 7 ||
                i == 8 || i == 9
        );
    }
    if k == Category::Symbol && k.spec_chars_all().contains(c) {
        reveal_strlit(r##"!@#$%^&*()\=+_-{}[]:`~|'"<>?;/.,"##);
        let s = k.spec_chars_all();
        let i = choose|i: int| 0 <= i < s.len() && s[i] == c;
        assert(
            i == 0 || i == 1 || i == 2 || i == 3 || i == 4 || i == 5 || i == 6 || i == 7 ||
                i == 8 || i == 9 || i == 10 || i == 11 || i == 12 || i == 13 || i == 14 ||
                i == 15 || i == 16 || i == 17 || i == 18 || i == 19 || i == 20 || i == 21 ||
                i == 22 || i == 23 || i == 24 || i == 25 || i == 26 || i == 27 || i == 28 ||
                i == 29 || i == 30 || i == 31
        );
    }
    if k == Category::Lower && k.spec_chars_easy().contains(c) {
        reveal_strlit("abcdefghijkmnpqrstuvwxyz");
        let s = k.spec_chars_easy();
        let i = choose|i: int| 0 <= i < s.len() && s[i] == c;
        assert(
            i == 0 || i == 1 || i == 2 || i == 3 || i == 4 || i == 5 || i == 6 || i == 7 ||
                i == 8 || i == 9 || i == 10 || i == 11 || i == 12 || i == 13 || i == 14 ||
                i == 15 || i == 16 || i == 17 || i == 18 || i == 19 || i == 20 || i == 21 ||
                i == 22 || i == 23
        );
    }
    if k == Category::Upper && k.spec_chars_easy().contains(c) {
        reveal_strlit("ABCDEFGHJKLMNPQRSTUVWXYZ");
        let s = k.spec_chars_easy();
        let i = choose|i: int| 0 <= i < s.len() && s[i] == c;
        assert(
            i == 0 || i == 1 || i == 2 || i == 3 || i == 4 || i == 5 || i == 6 || i == 7 ||
                i == 8 || i == 9 || i == 10 || i == 11 || i == 12 || i == 13 || i == 14 ||
                i == 15 || i == 16 || i == 17 || i == 18 || i == 19 || i == 20 || i == 21 ||
                i == 22 || i == 23
        );
    }
    if k == Category::Number && k.spec_chars_easy().contains(c) {
        reveal_strlit("23456789");
        let s = k.spec_chars_easy();
        let i = choose|i: int| 0 <= i < s.len() && s[i] == c;
        assert(
            i == 0 || i == 1 || i == 2 || i == 3 || i == 4 || i == 5 || i == 6 || i == 7
        );
    }
    if k == Category::Symbol && k.spec_chars_easy().contains(c) {
        reveal_strlit(r##"!@#$%^&*=+~"<>?"##);
        let s = k.spec_chars_easy();
        let i = choose|i: int| 0 <= i < s.len() && s[i] == c;
        assert(
            i == 0 || i == 1 || i == 2 || i == 3 || i == 4 || i == 5 || i == 6 || i == 7 ||
                i == 8 || i == 9 || i == 10 || i == 11 || i == 12 || i == 13 || i == 14
        );
    }
}

impl Category {
    pub open spec fn spec_flag(self) -> char {
        match self {
            Category::Lower => 'l',
            Category::Upper => 'u',
            Category::Number => 'n',
            Category::Symbol => 's',
        }
    }

    pub open spec fn spec_code_point(self) -> usize {
        match self {
            Category::Lower => 0,
            Category::Upper => 1,
            Category::Number => 2,
            Category::Symbol => 3,
        }
    }

    pub open spec fn spec_code(self) -> usize {
        1usize << self.spec_code_point()
    }

    pub open spec fn spec_chars_all(self) -> Seq<char> {
        match self {
            Category::Lower => "abcdefghijklmnopqrstuvwxyz"@,
            Category::Upper => "ABCDEFGHIJKLMNOPQRSTUVWXYZ"@,
            Category::Number => "0123456789"@,
            Category::Symbol => r##"!@#$%^&*()\=+_-{}[]:`~|'"<>?;/.,"##@,
        }
    }

    pub open spec fn spec_chars_easy(self) -> Seq<char> {
        match self {
            Category::Lower => "abcdefghijkmnpqrstuvwxyz"@,
            Category::Upper => "ABCDEFGHJKLMNPQRSTUVWXYZ"@,
            Category::Number => "23456789"@,
            Category::Symbol => r##"!@#$%^&*=+~"<>?"##@,
        }
    }

    /// The full alphabet of the category.
    pub fn chars_all(&self) -> (r: &'static str)
        ensures
            r@ == self.spec_chars_all(),
    {
        match self {
            Category::Lower => "abcdefghijklmnopqrstuvwxyz",
            Category::Upper => "ABCDEFGHIJKLMNOPQRSTUVWXYZ",
            Category::Number => "0123456789",
            Category::Symbol => r##"!@#$%^&*()\=+_-{}[]:`~|'"<>?;/.,"##,
        }
    }

    /// The alphabet of the category without visually ambiguous characters.
    pub fn chars_easy(&self) -> (r: &'static str)
        ensures
            r@ == self.spec_chars_easy(),
    {
        match self {
            Category::Lower => "abcdefghijkmnpqrstuvwxyz",
            Category::Upper => "ABCDEFGHJKLMNPQRSTUVWXYZ",
            Category::Number => "23456789",
            Category::Symbol => r##"!@#$%^&*=+~"<>?"##,
        }
    }

    /// The flag character that selects the category.
    pub fn flag(&self) -> (r: char)
        ensures
            r == self.spec_flag(),
    {
        match self {
            Category::Lower => 'l',
            Category::Upper => 'u',
            Category::Number => 'n',
            Category::Symbol => 's',
        }
    }

    /// The bit position of the category in a selection mask.
    pub fn code_point(&self) -> (r: usize)
        ensures
            r == self.spec_code_point(),
    {
        match self {
            Category::Lower => 0,
            Category::Upper => 1,
            Category::Number => 2,
            Category::Symbol => 3,
        }
    }

    /// The bit of the category in a selection mask.
    pub fn code(&self) -> (r: usize)
        ensures
            r == self.spec_code(),
    {
        1usize << self.code_point()
    }
}

/// The characters of `s` that do not occur in `alphabet`, in order.
fn chars_outside(s: &Vec<char>, alphabet: &Vec<char>) -> (r: Vec<char>)
    ensures
        r@ == s@.filter(|c: char| !alphabet@.contains(c)),
{
    let ghost pred = |c: char| !alphabet@.contains(c);
    let mut r: Vec<char> = Vec::new();
    let mut i: usize = 0;
    while i < s.len()
        invariant
            i <= s@.len(),
            r@ == s@.take(i as int).filter(pred),
            pred == (|c: char| !alphabet@.contains(c)),
        decreases s@.len() - i,
    {
        let c = s[i];
        let outside = !contains_char(alphabet, c);
        if outside {
            r.push(c);
        }
        proof {
            assert(s@.take(i + 1) =~= s@.take(i as int).push(c));
            s@.take(i as int).lemma_filter_push(c, pred);
        }
        i = i + 1;
    }
    assert(s@.take(s@.len() as int) =~= s@);
    r
}

/// The categories, in canonical order.
fn all() -> (v: Vec<Category>)
    ensures
        v@ == all_categories(),
{
    let v = vec![LOWER, UPPER, NUMBER, SYMBOL];
    assert(v@ =~= all_categories());
    v
}

proof fn lemma_flag_listed(c: char)
    ensures
        is_flag(c) <==> all_categories().map_values(|k: Category| k.spec_flag()).contains(c),
{
    let fl = all_categories().map_values(|k: Category| k.spec_flag());
    if is_flag(c) {
        let k = choose|k: Category| k.spec_flag() == c;
        match k {
            Category::Lower => assert(fl[0] == c),
            Category::Upper => assert(fl[1] == c),
            Category::Number => assert(fl[2] == c),
            Category::Symbol => assert(fl[3] == c),
        }
    }
    if fl.contains(c) {
        let i = choose|i: int| 0 <= i < fl.len() && fl[i] == c;
        assert(all_categories()[i].spec_flag() == c);
    }
}

impl Category {
    /// The categories whose flag or bit `p` accepts, in canonical order;
    /// an error when it accepts none.
    pub fn new<F: Fn(Category) -> bool>(p: F) -> (r: Result<Vec<Category>, Error>)
        requires
            forall|k: Category| p.requires((k,)),
            forall|k: Category, a: bool, b: bool|
                p.ensures((k,), a) && p.ensures((k,), b) ==> a == b,
        ensures
            ({
                let chosen = all_categories().filter(|k: Category| p.ensures((k,), true));
                &&& (chosen.len() == 0 <==> (r matches Err(Error::CharactersErr(_))))
                &&& (chosen.len() > 0 <==> r is Ok)
                &&& (r matches Ok(v) ==> v@ == chosen)
            }),
            forall|k: Category| #[trigger] p.ensures((k,), true) || p.ensures((k,), false),
    {
        let ghost pred = |k: Category| p.ensures((k,), true);
        let cats = all();
        let mut v: Vec<Category> = Vec::new();
        let mut i: usize = 0;
        while i < cats.len()
            invariant
                cats@ == all_categories(),
                i <= cats@.len(),
                v@ == cats@.take(i as int).filter(pred),
                pred == (|k: Category| p.ensures((k,), true)),
                forall|j: int|
                    0 <= j < i ==> #[trigger] p.ensures((cats@[j],), true) || p.ensures(
                        (cats@[j],),
                        false,
                    ),
                forall|k: Category| p.requires((k,)),
                forall|k: Category, a: bool, b: bool|
                    p.ensures((k,), a) && p.ensures((k,), b) ==> a == b,
            decreases cats@.len() - i,
        {
            let k = cats[i];
            let b = p(k);
            if b {
                v.push(k);
            }
            proof {
                assert(b == pred(k));
                assert(cats@.take(i + 1) =~= cats@.take(i as int).push(k));
                cats@.take(i as int).lemma_filter_push(k, pred);
            }
            i = i + 1;
        }
        assert(cats@.take(cats@.len() as int) =~= cats@);
        assert forall|k: Category| #[trigger] p.ensures((k,), true) || p.ensures((k,), false) by {
            match k {
                Category::Lower => assert(cats@[0] == k),
                Category::Upper => assert(cats@[1] == k),
                Category::Number => assert(cats@[2] == k),
                Category::Symbol => assert(cats@[3] == k),
            }
        }
        if v.len() == 0 {
            Err(Error::CharactersErr(()))
        } else {
            Ok(v)
        }
    }

    /// The flags of all categories, in canonical order.
    pub fn flags() -> (r: String)
        ensures
            r@ == all_categories().map_values(|k: Category| k.spec_flag()),
    {
        let cats = all();
        let mut v: Vec<char> = Vec::new();
        let mut i: usize = 0;
        while i < cats.len()
            invariant
                cats@ == all_categories(),
                i <= cats@.len(),
                v@ == cats@.take(i as int).map_values(|k: Category| k.spec_flag()),
            decreases cats@.len() - i,
        {
            v.push(cats[i].flag());
            i = i + 1;
            assert(v@ =~= cats@.take(i as int).map_values(|k: Category| k.spec_flag()));
        }
        assert(cats@.take(cats@.len() as int) =~= cats@);
        string_of(&v)
    }

    /// Checks that every character of `flag_str` is the flag of a category;
    /// otherwise lists the characters that are not.
    pub fn validate_flag(flag_str: &String) -> (r: Result<(), Error>)
        ensures
            unknown_flags(flag_str@).len() == 0 <==> r is Ok,
            r is Err ==> (r matches Err(Error::CategoryFlagErr(e)) && e@ == unknown_flags(
                flag_str@,
            )),
    {
        let flags = chars_of(Self::flags().as_str());
        let errors = chars_outside(&chars_of(flag_str.as_str()), &flags);
        proof {
            assert forall|c: char| is_flag(c) <==> flags@.contains(c) by {
                lemma_flag_listed(c);
            }
            assert((|c: char| !flags@.contains(c)) =~= (|c: char| !is_flag(c)));
        }
        if errors.len() == 0 {
            Ok(())
        } else {
            Err(Error::CategoryFlagErr(string_of(&errors)))
        }
    }

    /// Checks that every character of `symbols` is in the full symbol alphabet;
    /// otherwise lists the characters that are not.
    pub fn validate_symbols(symbols: &String) -> (r: Result<(), Error>)
        ensures
            non_symbols(symbols@).len() == 0 <==> r is Ok,
            r is Err ==> (r matches Err(Error::NotSymbolErr(e)) && e@ == non_symbols(symbols@)),
    {
        let symbol_all = chars_of(SYMBOL.chars_all());
        let errors = chars_outside(&chars_of(symbols.as_str()), &symbol_all);
        proof {
            assert((|c: char| !symbol_all@.contains(c)) =~= (|c: char|
                !Category::Symbol.spec_chars_all().contains(c)));
        }
        if errors.len() == 0 {
            Ok(())
        } else {
            Err(Error::NotSymbolErr(string_of(&errors)))
        }
    }

    /// The categories whose flag occurs in `flag_str`, in canonical order. Every
    /// character must be a flag, and at least one must be given.
    pub fn from_cli(flag_str: String) -> (r: Result<Vec<Category>, Error>)
        ensures
            unknown_flags(flag_str@).len() > 0 <==> (r matches Err(Error::CategoryFlagErr(_))),
            r matches Err(Error::CategoryFlagErr(e)) ==> e@ == unknown_flags(flag_str@),
            unknown_flags(flag_str@).len() == 0 && flag_str@.len() == 0 <==> (r matches Err(
                Error::CharactersErr(_),
            )),
            unknown_flags(flag_str@).len() == 0 && flag_str@.len() > 0 <==> r is Ok,
            r matches Ok(v) ==> v@ == selected_by_flags(flag_str@) && v@.len() > 0,
    {
        match Self::validate_flag(&flag_str) {
            Err(e) => {
                return Err(e);
            },
            Ok(()) => {},
        }
        let chars = chars_of(flag_str.as_str());
        let p = |k: Category| -> (b: bool)
            ensures
                b == chars@.contains(k.spec_flag()),
            { contains_char(&chars, k.flag()) };
        let r = Self::new(p);
        proof {
            let by_flag = |k: Category| flag_str@.contains(k.spec_flag());
            assert((|k: Category| p.ensures((k,), true)) =~= by_flag);
            if all_categories().filter(by_flag).len() > 0 {
                all_categories().lemma_filter_pred(by_flag, 0);
            }
            if flag_str@.len() > 0 {
                let c = flag_str@[0];
                if !is_flag(c) {
                    flag_str@.lemma_filter_contains(|c: char| !is_flag(c), 0);
                }
                let k = choose|k: Category| k.spec_flag() == c;
                let i: int = match k {
                    Category::Lower => 0,
                    Category::Upper => 1,
                    Category::Number => 2,
                    Category::Symbol => 3,
                };
                assert(all_categories()[i] == k);
                all_categories().lemma_filter_contains(by_flag, i);
            }
        }
        r
    }

    /// The categories whose bit is set in `code`, in canonical order. The mask
    /// must lie in `1..=15`.
    pub fn from_code(code: usize) -> (r: Result<Vec<Category>, Error>)
        ensures
            code < 1 || code > 15 <==> (r matches Err(Error::InvalidMaskErr(m)) && m == code),
            1 <= code <= 15 <==> r is Ok,
            r matches Ok(v) ==> v@ == selected_by_mask(code) && v@.len() > 0,
    {
        if code < 1 || code > 15 {
            return Err(Error::InvalidMaskErr(code));
        }
        let p = |k: Category| -> (b: bool)
            ensures
                b == (code & k.spec_code() == k.spec_code()),
            { code & k.code() == k.code() };
        let r = Self::new(p);
        proof {
            let by_mask = |k: Category| code & k.spec_code() == k.spec_code();
            assert((|k: Category| p.ensures((k,), true)) =~= by_mask);
            assert(1usize << 0usize == 1usize) by (bit_vector);
            assert(1usize << 1usize == 2usize) by (bit_vector);
            assert(1usize << 2usize == 4usize) by (bit_vector);
            assert(1usize << 3usize == 8usize) by (bit_vector);
            assert(1 <= code <= 15 ==> (code & 1 == 1 || code & 2 == 2 || code & 4 == 4 || code
                & 8 == 8)) by (bit_vector);
            if code & 1 == 1 {
                all_categories().lemma_filter_contains(by_mask, 0);
            } else if code & 2 == 2 {
                all_categories().lemma_filter_contains(by_mask, 1);
            } else if code & 4 == 4 {
                all_categories().lemma_filter_contains(by_mask, 2);
            } else {
                all_categories().lemma_filter_contains(by_mask, 3);
            }
        }
        r
    }

    /// The characters the category contributes under the given mode and custom
    /// symbols, each once.
    pub fn char_set(&self, is_easy: bool, symbols: &String) -> (r: Vec<char>)
        ensures
            r@.no_duplicates(),
            r@.to_set() == resolved_chars(*self, is_easy, symbols@).to_set(),
            r@.len() > 0,
    {
        proof {
            lemma_alphabets_nonempty(*self);
        }
        if *self == SYMBOL && symbols.unicode_len() > 0 {
            distinct_chars(symbols.as_str())
        } else if is_easy {
            distinct_chars(self.chars_easy())
        } else {
            distinct_chars(self.chars_all())
        }
    }
}

} // verus!
