//! The catalog of known rule codes and the packaged list of default codes.
use vstd::prelude::*;
use crate::text::{trim, trimmed_of};

verus! {

/// Why rules could not be loaded or selected.
pub enum RuleManagerError {
    /// A selected code is not in the catalog.
    InvalidRule(String),
    /// The default list holds no code.
    DefaultRulesError(String),
    /// A resolved rule could not be loaded.
    RulesetLoadError(String),
    /// No rule resource was packaged.
    NoRulesAvailable,
}

/// `i` is the index of the last `.` of `s`.
pub open spec fn last_dot_at(s: Seq<char>, i: int) -> bool {
    &&& 0 <= i < s.len()
    &&& s[i] == '.'
    &&& forall|j: int| i < j < s.len() ==> s[j] != '.'
}

/// The stem of a file name: the part before its last `.`, unless that `.` is the first
/// character, in which case the whole name.
pub open spec fn stem_of(name: Seq<char>) -> Seq<char> {
    if exists|i: int| 0 < i && last_dot_at(name, i) {
        name.subrange(0, choose|i: int| 0 < i && last_dot_at(name, i))
    } else {
        name
    }
}

/// The rule codes that a list of resource file names stands for.
pub open spec fn codes_of_resources(names: Seq<Seq<char>>) -> Set<Seq<char>> {
    Set::new(|c: Seq<char>| exists|j: int| 0 <= j < names.len() && stem_of(names[j]) == c)
}

/// The rule code of a resource, taken from its file name.
pub fn code_from_resource_name(name: &str) -> (r: String)
    ensures
        r@ == stem_of(name@),
{
    let n = name.unicode_len();
    let mut i: usize = n;
    while i > 0
        invariant
            n == name@.len(),
            i <= n,
            forall|j: int| i <= j < n ==> name@[j] != '.',
        decreases i,
    {
        if name.get_char(i - 1) == '.' {
            let k = (i - 1) as usize;
            assert(last_dot_at(name@, k as int));
            if k > 0 {
                proof {
                    let c = choose|c: int| 0 < c && last_dot_at(name@, c);
                    if c < k {
                        assert(name@[k as int] == '.');
                    } else if c > k {
                        assert(name@[c] == '.');
                    }
                }
                return String::from_str(name.substring_char(0, k));
            } else {
                assert(!exists|c: int| 0 < c && last_dot_at(name@, c)) by {
                    if exists|c: int| 0 < c && last_dot_at(name@, c) {
                        let c = choose|c: int| 0 < c && last_dot_at(name@, c);
                        assert(name@[c] == '.');
                    }
                }
                return String::from_str(name);
            }
        }
        i = i - 1;
    }
    assert(!exists|c: int| 0 < c && last_dot_at(name@, c)) by {
        if exists|c: int| 0 < c && last_dot_at(name@, c) {
            let c = choose|c: int| 0 < c && last_dot_at(name@, c);
            assert(name@[c] == '.');
        }
    }
    String::from_str(name)
}

/// Whether `codes` holds `code`.
pub fn contains_code(codes: &Vec<String>, code: &String) -> (r: bool)
    ensures
        r == codes.deep_view().contains(code@),
{
    let mut i: usize = 0;
    while i < codes.len()
        invariant
            i <= codes@.len(),
            forall|j: int| 0 <= j < i ==> codes@[j]@ != code@,
        decreases codes@.len() - i,
    {
        if codes[i] == *code {
            assert(codes.deep_view()[i as int] == code@);
            return true;
        }
        i = i + 1;
    }
    assert(!codes.deep_view().contains(code@)) by {
        if codes.deep_view().contains(code@) {
            let j = choose|j: int| 0 <= j < codes.deep_view().len() && codes.deep_view()[j] == code@;
            assert(codes@[j]@ == code@);
        }
    }
    false
}

/// The set of all rule codes known to the system.
pub struct RuleCatalog {
    codes: Vec<String>,
}

impl View for RuleCatalog {
    type V = Set<Seq<char>>;

    closed spec fn view(&self) -> Set<Seq<char>> {
        self.codes.deep_view().to_set()
    }
}

impl RuleCatalog {
    #[verifier::type_invariant]
    closed spec fn inv(self) -> bool {
        &&& self.codes.deep_view().no_duplicates()
        &&& self.codes@.len() > 0
    }

    /// The catalog of the rules whose resources have the given file names; each rule's
    /// code is the stem of its file name. Fails when there is no resource.
    pub fn from_resource_names(names: &Vec<String>) -> (r: Result<RuleCatalog, RuleManagerError>)
        ensures
            names@.len() == 0 ==> r matches Err(RuleManagerError::NoRulesAvailable),
            names@.len() > 0 ==> r is Ok && r->Ok_0@ == codes_of_resources(names.deep_view()),
    {
        let mut codes: Vec<String> = Vec::new();
        let mut i: usize = 0;
        while i < names.len()
            invariant
                i <= names@.len(),
                codes.deep_view().no_duplicates(),
                codes@.len() <= i,
                i > 0 ==> codes@.len() > 0,
                forall|c: Seq<char>|
                    codes.deep_view().contains(c) <==> exists|j: int|
                        0 <= j < i && stem_of(names.deep_view()[j]) == c,
            decreases names@.len() - i,
        {
            let code = code_from_resource_name(names[i].as_str());
            let ghost before = codes.deep_view();
            assert(names.deep_view()[i as int] == names@[i as int]@);
            if !contains_code(&codes, &code) {
                codes.push(code);
                assert(codes.deep_view() =~= before.push(code@));
            }
            assert forall|c: Seq<char>|
                codes.deep_view().contains(c) implies exists|j: int|
                    0 <= j < i + 1 && stem_of(names.deep_view()[j]) == c by {
                if c == code@ {
                    assert(stem_of(names.deep_view()[i as int]) == c);
                } else {
                    let k = choose|k: int| 0 <= k < codes.deep_view().len() && codes.deep_view()[k] == c;
                    assert(before[k] == c);
                    assert(before.contains(c));
                }
            }
            assert forall|c: Seq<char>|
                (exists|j: int| 0 <= j < i + 1 && stem_of(names.deep_view()[j]) == c) implies
                codes.deep_view().contains(c) by {
                let j = choose|j: int| 0 <= j < i + 1 && stem_of(names.deep_view()[j]) == c;
                if j < i {
                    assert(before.contains(c));
                    let k = choose|k: int| 0 <= k < before.len() && before[k] == c;
                    assert(codes.deep_view()[k] == c);
                } else {
                    assert(c == code@);
                    if before.contains(c) {
                        let k = choose|k: int| 0 <= k < before.len() && before[k] == c;
                        assert(codes.deep_view()[k] == c);
                    } else {
                        assert(codes.deep_view()[codes.deep_view().len() - 1] == c);
                    }
                }
            }
            i = i + 1;
        }
        if codes.len() == 0 {
            return Err(RuleManagerError::NoRulesAvailable);
        }
        let r = RuleCatalog { codes };
        assert(r@ =~= codes_of_resources(names.deep_view()));
        Ok(r)
    }

    /// Whether `code` is a known rule code.
    pub fn contains(&self, code: &String) -> (r: bool)
        ensures
            r == self@.contains(code@),
    {
        contains_code(&self.codes, code)
    }

    /// Every known rule code, once each.
    pub fn all_codes(&self) -> (r: Vec<String>)
        ensures
            r.deep_view().to_set() == self@,
            r.deep_view().no_duplicates(),
    {
        proof {
            use_type_invariant(self);
        }
        let mut r: Vec<String> = Vec::new();
        let mut i: usize = 0;
        while i < self.codes.len()
            invariant
                i <= self.codes@.len(),
                r.deep_view() == self.codes.deep_view().subrange(0, i as int),
            decreases self.codes@.len() - i,
        {
            let code = self.codes[i].clone();
            assert(code@ == self.codes.deep_view()[i as int]);
            let ghost before = r.deep_view();
            r.push(code);
            assert(r.deep_view() =~= before.push(code@));
            assert(r.deep_view() =~= self.codes.deep_view().subrange(0, i + 1));
            i = i + 1;
        }
        assert(r.deep_view() =~= self.codes.deep_view());
        r
    }
}

/// The codes of the default list held by `text`: each line trimmed, blank lines left out.
pub open spec fn default_codes_of(text: Seq<char>) -> Seq<Seq<char>> {
    with_line(line_state(text).0, line_state(text).1)
}

/// `codes`, followed by the trimmed `line` unless it is blank.
pub open spec fn with_line(codes: Seq<Seq<char>>, line: Seq<char>) -> Seq<Seq<char>> {
    if trimmed_of(line).len() > 0 {
        codes.push(trimmed_of(line))
    } else {
        codes
    }
}

/// The codes of the complete lines of `text`, and the text of its last, unfinished line.
pub open spec fn line_state(text: Seq<char>) -> (Seq<Seq<char>>, Seq<char>)
    decreases text.len(),
{
    if text.len() == 0 {
        (Seq::empty(), Seq::empty())
    } else {
        let (codes, line) = line_state(text.drop_last());
        if text.last() == '\n' {
            (with_line(codes, line), Seq::empty())
        } else {
            (codes, line.push(text.last()))
        }
    }
}

/// The codes listed by the default list `text`, one per line; blank lines are ignored.
pub fn parse_default_rules(text: &str) -> (r: Vec<String>)
    ensures
        r.deep_view() == default_codes_of(text@),
{
    let n = text.unicode_len();
    let mut r: Vec<String> = Vec::new();
    let mut start: usize = 0;
    let mut i: usize = 0;
    while i < n
        invariant
            n == text@.len(),
            start <= i <= n,
            r.deep_view() == line_state(text@.subrange(0, i as int)).0,
            text@.subrange(start as int, i as int) == line_state(text@.subrange(0, i as int)).1,
        decreases n - i,
    {
        assert(text@.subrange(0, i + 1).drop_last() == text@.subrange(0, i as int));
        if text.get_char(i) == '\n' {
            let line = trim(text.substring_char(start, i));
            if line.unicode_len() > 0 {
                let ghost before = r.deep_view();
                r.push(line);
                assert(r.deep_view() =~= before.push(line@));
            }
            start = i + 1;
            assert(text@.subrange(start as int, i + 1) =~= Seq::<char>::empty());
        } else {
            assert(text@.subrange(start as int, i + 1) =~= text@.subrange(start as int, i as int).push(
                text@[i as int],
            ));
        }
        i = i + 1;
    }
    assert(text@.subrange(0, n as int) =~= text@);
    let line = trim(text.substring_char(start, n));
    if line.unicode_len() > 0 {
        let ghost before = r.deep_view();
        r.push(line);
        assert(r.deep_view() =~= before.push(line@));
    }
    r
}

} // verus!
