//! One parsed package declaration and the line parser that produces it.
//!
//! A configuration line is split on whitespace; the first token is the
//! subject (`[category/]name[-version]`), every later token is a feature
//! flag.  Comment lines (first token starting with `#`) and blank lines
//! yield no declaration.

use vstd::prelude::*;
use crate::categories::PackageCategory;
use crate::error::ConsignError;
use crate::text::{find_char, find_char_in_str, lemma_tokens_nonempty, split_tokens, tokens_of};

verus! {

/// The mathematical content of a `Package`: every string as a `Seq<char>`.
pub struct PackageModel {
    pub category: Option<PackageCategory>,
    pub name: Seq<char>,
    pub version: Option<Seq<char>>,
    pub available_flags: Seq<Seq<char>>,
    pub enabled_flags: Seq<Seq<char>>,
    pub disabled_flags: Seq<Seq<char>>,
}

/// One package declaration parsed from a configuration line.
#[derive(Debug)]
pub struct Package {
    pub category: Option<PackageCategory>,
    pub name: String,
    pub version: Option<String>,
    pub available_flags: Vec<String>,
    pub enabled_flags: Vec<String>,
    pub disabled_flags: Vec<String>,
}

impl View for Package {
    type V = PackageModel;

    open spec fn view(&self) -> PackageModel {
        PackageModel {
            category: self.category,
            name: self.name@,
            version: self.version.deep_view(),
            available_flags: self.available_flags.deep_view(),
            enabled_flags: self.enabled_flags.deep_view(),
            disabled_flags: self.disabled_flags.deep_view(),
        }
    }
}

impl DeepView for Package {
    type V = PackageModel;

    open spec fn deep_view(&self) -> PackageModel {
        self.view()
    }
}

/// ASCII decimal digits; the version suffix must start with one.
pub open spec fn is_ascii_digit_char(c: char) -> bool {
    48 <= c as u32 && c as u32 <= 57
}

/// Executable test for `is_ascii_digit_char`.
pub fn is_ascii_digit(c: char) -> (r: bool)
    ensures
        r == is_ascii_digit_char(c),
{
    let u = c as u32;
    48 <= u && u <= 57
}

/// A version suffix starts at position `j + 1` when position `j` holds a `-`
/// immediately followed by a digit.
pub open spec fn version_cut_at(s: Seq<char>, j: int) -> bool {
    &&& 0 <= j
    &&& j + 1 < s.len()
    &&& s[j] == '-'
    &&& is_ascii_digit_char(s[j + 1])
}

/// The hyphen-delimited version suffix of a subject: everything after the
/// first `-` that is immediately followed by a digit, or nothing when no
/// such `-` exists.
pub open spec fn version_of_seq(s: Seq<char>) -> Option<Seq<char>>
    decreases s.len(),
{
    if s.len() == 0 {
        None
    } else if s[0] == '-' && s.len() >= 2 && is_ascii_digit_char(s[1]) {
        Some(s.skip(1))
    } else {
        version_of_seq(s.drop_first())
    }
}

pub proof fn lemma_version_at(s: Seq<char>, j: int)
    requires
        version_cut_at(s, j),
        forall|k: int| 0 <= k < j ==> !version_cut_at(s, k),
    ensures
        version_of_seq(s) == Some(s.skip(j + 1)),
    decreases j,
{
    if j == 0 {
        assert(version_of_seq(s) == Some(s.skip(1)));
    } else {
        assert(!version_cut_at(s, 0));
        let t = s.drop_first();
        assert(t[j - 1] == s[j] && t[j] == s[j + 1]);
        assert(version_cut_at(t, j - 1));
        assert forall|k: int| 0 <= k < j - 1 implies !version_cut_at(t, k) by {
            assert(t[k] == s[k + 1]);
            if k + 1 < t.len() {
                assert(t[k + 1] == s[k + 2]);
            }
            assert(!version_cut_at(s, k + 1));
        }
        lemma_version_at(t, j - 1);
        assert(t.skip(j) =~= s.skip(j + 1));
    }
}

pub proof fn lemma_version_none(s: Seq<char>)
    requires
        forall|k: int| !version_cut_at(s, k),
    ensures
        version_of_seq(s) is None,
    decreases s.len(),
{
    if s.len() > 0 {
        assert(!version_cut_at(s, 0));
        let t = s.drop_first();
        assert forall|k: int| !version_cut_at(t, k) by {
            if 0 <= k && k + 1 < t.len() {
                assert(t[k] == s[k + 1]);
                assert(t[k + 1] == s[k + 2]);
                assert(!version_cut_at(s, k + 1));
            }
        }
        lemma_version_none(t);
    }
}

/// The category half of a subject: the text before the first `/`, matched
/// against the known category set, provided something follows the `/`.
pub open spec fn subject_category(subj: Seq<char>) -> Option<PackageCategory> {
    match find_char(subj, '/') {
        Some(i) => if i + 1 < subj.len() {
            Some(PackageCategory::of_label(subj.take(i)))
        } else {
            None
        },
        None => None,
    }
}

/// The name half of a subject: the text after the first `/`, or the whole
/// subject when there is no `/` or nothing follows it.
pub open spec fn subject_name(subj: Seq<char>) -> Seq<char> {
    match find_char(subj, '/') {
        Some(i) => if i + 1 < subj.len() {
            subj.skip(i + 1)
        } else {
            subj
        },
        None => subj,
    }
}

/// The declaration a line yields: `None` for blank lines, comment lines and
/// lines with no token.
pub open spec fn line_model(line: Seq<char>) -> Option<PackageModel> {
    let toks = tokens_of(line);
    if toks.len() == 0 {
        None
    } else if toks[0][0] == '#' {
        None
    } else {
        Some(PackageModel {
            category: subject_category(toks[0]),
            name: subject_name(toks[0]),
            version: version_of_seq(toks[0]),
            available_flags: toks.drop_first(),
            enabled_flags: Seq::empty(),
            disabled_flags: Seq::empty(),
        })
    }
}

/// Clones a vector of strings element by element.
fn clone_strings(v: &Vec<String>) -> (r: Vec<String>)
    ensures
        r@ == v@,
{
    let mut r: Vec<String> = Vec::new();
    let mut i: usize = 0;
    proof {
        assert(r@ =~= v@.take(0));
    }
    while i < v.len()
        invariant
            i <= v@.len(),
            r@ == v@.take(i as int),
        decreases v@.len() - i,
    {
        r.push(v[i].clone());
        proof {
            assert(r@ =~= v@.take(i as int + 1));
        }
        i = i + 1;
    }
    proof {
        assert(v@.take(v@.len() as int) =~= v@);
    }
    r
}

impl Clone for Package {
    /// The copy carries the same model as the original.
    fn clone(&self) -> (res: Self)
        ensures
            res@ == self@,
    {
        let res = Package {
            category: self.category,
            name: self.name.clone(),
            version: match &self.version {
                Some(v) => Some(v.clone()),
                None => None,
            },
            available_flags: clone_strings(&self.available_flags),
            enabled_flags: clone_strings(&self.enabled_flags),
            disabled_flags: clone_strings(&self.disabled_flags),
        };
        res
    }
}

impl Package {
    /// Builds a declaration from its parts, verbatim.
    pub fn new(
        category: Option<PackageCategory>,
        name: String,
        version: Option<String>,
        available_flags: Vec<String>,
        enabled_flags: Vec<String>,
        disabled_flags: Vec<String>,
    ) -> (p: Package)
        ensures
            p.category == category,
            p.name == name,
            p.version == version,
            p.available_flags == available_flags,
            p.enabled_flags == enabled_flags,
            p.disabled_flags == disabled_flags,
    {
        Package { category, name, version, available_flags, enabled_flags, disabled_flags }
    }

    /// Splits a subject into category and name at the first `/`; when no
    /// `/` exists or nothing follows it, the whole subject is the name and
    /// there is no category.
    pub fn maybe_category_from_line(line: &str) -> (r: (Option<PackageCategory>, String))
        ensures
            r.0 == subject_category(line@),
            r.1@ == subject_name(line@),
    {
        match find_char_in_str(line, '/') {
            Some(i) => {
                let n = line.unicode_len();
                if i + 1 < n {
                    let cat_str = line.substring_char(0, i);
                    let name = line.substring_char(i + 1, n).to_owned();
                    proof {
                        assert(line@.take(i as int) =~= line@.subrange(0, i as int));
                        assert(line@.skip(i as int + 1) =~= line@.subrange(
                            i as int + 1,
                            n as int,
                        ));
                    }
                    (Some(PackageCategory::from_label(cat_str)), name)
                } else {
                    (None, line.to_owned())
                }
            },
            None => (None, line.to_owned()),
        }
    }

    /// Extracts the version suffix of a subject, as `version_of_seq`
    /// describes it: the text after the first `-` that is immediately
    /// followed by an ASCII digit.
    pub fn maybe_version_from_line(line: &str) -> (r: Option<String>)
        ensures
            match r {
                Some(v) => version_of_seq(line@) == Some(v@),
                None => version_of_seq(line@) is None,
            },
    {
        let n = line.unicode_len();
        let mut j: usize = 0;
        while j < n
            invariant
                j <= n,
                n == line@.len(),
                forall|k: int| 0 <= k < j ==> !version_cut_at(line@, k),
            decreases n - j,
        {
            if line.get_char(j) == '-' && j + 1 < n && is_ascii_digit(line.get_char(j + 1)) {
                proof {
                    lemma_version_at(line@, j as int);
                }
                return Some(line.substring_char(j + 1, n).to_owned());
            }
            j = j + 1;
        }
        proof {
            lemma_version_none(line@);
        }
        None
    }

    /// Parses one configuration line.  Lines with no token and comment
    /// lines yield an error (they carry no declaration and are dropped by
    /// the file scanner); every other line yields the declaration that
    /// `line_model` describes.
    pub fn try_from_line(line: &str) -> (r: Result<Package, ConsignError>)
        ensures
            match r {
                Ok(p) => line_model(line@) == Some(p@),
                Err(e) => {
                    &&& line_model(line@) is None
                    &&& if tokens_of(line@).len() == 0 {
                        e matches ConsignError::GeneralFailure(m) && m@ == "Invalid package line"@
                    } else {
                        tokens_of(line@)[0][0] == '#' && (e matches ConsignError::GeneralFailure(m)
                            && m@ == "Comment line"@)
                    }
                },
            },
    {
        let parts = split_tokens(line);
        if parts.len() == 0 {
            proof {
                assert(parts.deep_view().len() == 0);
            }
            return Err(ConsignError::GeneralFailure(String::from_str("Invalid package line")));
        }
        proof {
            lemma_tokens_nonempty(line@);
            assert(parts.deep_view()[0] == parts@[0]@);
        }
        let subject = &parts[0];
        if subject.as_str().get_char(0) == '#' {
            return Err(ConsignError::GeneralFailure(String::from_str("Comment line")));
        }

        let (category, name) = Self::maybe_category_from_line(subject.as_str());
        let version = Self::maybe_version_from_line(subject.as_str());
        let mut available_flags: Vec<String> = Vec::new();
        let mut k: usize = 1;
        proof {
            assert(available_flags.deep_view() =~= parts.deep_view().subrange(1, 1));
        }
        while k < parts.len()
            invariant
                1 <= k <= parts@.len(),
                parts.deep_view().len() == parts@.len(),
                available_flags.deep_view() == parts.deep_view().subrange(1, k as int),
            decreases parts@.len() - k,
        {
            let ghost pre = available_flags.deep_view();
            available_flags.push(parts[k].clone());
            proof {
                assert(available_flags.deep_view() =~= pre.push(parts@[k as int]@));
                assert(parts.deep_view()[k as int] == parts@[k as int]@);
                assert(pre.push(parts@[k as int]@) =~= parts.deep_view().subrange(
                    1,
                    k as int + 1,
                ));
            }
            k = k + 1;
        }
        let p = Package::new(category, name, version, available_flags, Vec::new(), Vec::new());
        proof {
            let toks = tokens_of(line@);
            assert(toks[0] == subject@);
            assert(p.available_flags.deep_view() =~= toks.drop_first());
            assert(p.enabled_flags.deep_view() =~= Seq::<Seq<char>>::empty());
            assert(p.disabled_flags.deep_view() =~= Seq::<Seq<char>>::empty());
            assert(p@.version == version_of_seq(toks[0]));
        }
        Ok(p)
    }
}

} // verus!
