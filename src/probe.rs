//! Decisions taken on what the working directory holds: which kind of
//! project it is, and whether version control reports uncommitted changes.
use vstd::prelude::*;
use crate::generator::strings_view;
use crate::text::{blank_char, chars_of, find_sub, find_sub_in, is_blank_char, occurs_at, same_chars};

verus! {

pub const PACKAGE_JSON: &'static str = "package.json";
pub const ANGULAR_CORE: &'static str = "@angular/core";
pub const CSPROJ_EXTENSION: &'static str = ".csproj";
pub const SLN_EXTENSION: &'static str = ".sln";

/// What a directory holds, as far as choosing a configuration goes.
#[derive(Debug, Clone, Copy, PartialEq, Eq, Structural)]
pub enum ProjectProbe {
    /// A `package.json` that depends on Angular.
    Angular,
    /// No `package.json`, but a .NET project or solution file.
    Dotnet,
    /// A `package.json` without Angular: not a supported project.
    NotAngular,
    /// A `package.json` that could not be read.
    PackageUnreadable,
    /// Neither kind of project.
    Unsupported,
}

/// `name` is a file name with extension `dotted_ext` (which starts with the
/// dot) after a non-empty stem.
pub open spec fn has_extension(name: Seq<char>, dotted_ext: Seq<char>) -> bool {
    &&& name.len() > dotted_ext.len()
    &&& name.subrange(name.len() - dotted_ext.len(), name.len() as int) == dotted_ext
}

pub open spec fn lists_name(names: Seq<Seq<char>>, n: Seq<char>) -> bool {
    exists|i: int| 0 <= i < names.len() && #[trigger] names[i] == n
}

pub open spec fn lists_dotnet_project(names: Seq<Seq<char>>) -> bool {
    exists|i: int|
        0 <= i < names.len() && (has_extension(#[trigger] names[i], CSPROJ_EXTENSION@)
            || has_extension(names[i], SLN_EXTENSION@))
}

/// What a directory with entries `names` is, given the contents of its
/// `package.json` where it could be read.
pub open spec fn probe_spec(names: Seq<Seq<char>>, package_json: Option<Seq<char>>) -> ProjectProbe {
    if lists_name(names, PACKAGE_JSON@) {
        match package_json {
            None => ProjectProbe::PackageUnreadable,
            Some(p) => if find_sub(p, ANGULAR_CORE@, 0) is Some {
                ProjectProbe::Angular
            } else {
                ProjectProbe::NotAngular
            },
        }
    } else if lists_dotnet_project(names) {
        ProjectProbe::Dotnet
    } else {
        ProjectProbe::Unsupported
    }
}

/// Whether `name` ends with `dotted_ext` after a non-empty stem.
fn ends_with_extension(name: &Vec<char>, dotted_ext: &Vec<char>) -> (r: bool)
    ensures
        r == has_extension(name@, dotted_ext@),
{
    if name.len() <= dotted_ext.len() {
        return false;
    }
    occurs_at(name, dotted_ext, name.len() - dotted_ext.len())
}

/// Classifies a directory from the names of its entries and, where it has
/// one and it could be read, the contents of its `package.json`.
pub fn detect_project(entry_names: &Vec<String>, package_json: Option<&str>) -> (r: ProjectProbe)
    ensures
        r == probe_spec(
            strings_view(entry_names@),
            match package_json {
                Some(p) => Some(p@),
                None => None,
            },
        ),
{
    let ghost names = strings_view(entry_names@);
    let package = chars_of(PACKAGE_JSON);
    let csproj = chars_of(CSPROJ_EXTENSION);
    let sln = chars_of(SLN_EXTENSION);
    let mut has_package = false;
    let mut has_dotnet = false;
    let mut i: usize = 0;
    while i < entry_names.len()
        invariant
            i <= entry_names.len(),
            names == strings_view(entry_names@),
            package@ == PACKAGE_JSON@,
            csproj@ == CSPROJ_EXTENSION@,
            sln@ == SLN_EXTENSION@,
            has_package == exists|j: int| 0 <= j < i && #[trigger] names[j] == PACKAGE_JSON@,
            has_dotnet == exists|j: int|
                0 <= j < i && (has_extension(#[trigger] names[j], CSPROJ_EXTENSION@)
                    || has_extension(names[j], SLN_EXTENSION@)),
        decreases entry_names.len() - i,
    {
        let name = chars_of(entry_names[i].as_str());
        assert(names[i as int] == name@);
        if same_chars(&name, &package) {
            has_package = true;
        }
        if ends_with_extension(&name, &csproj) || ends_with_extension(&name, &sln) {
            has_dotnet = true;
        }
        i = i + 1;
    }
    if has_package {
        match package_json {
            None => ProjectProbe::PackageUnreadable,
            Some(p) => {
                if find_sub_in(&chars_of(p), &chars_of(ANGULAR_CORE), 0).is_some() {
                    ProjectProbe::Angular
                } else {
                    ProjectProbe::NotAngular
                }
            },
        }
    } else if has_dotnet {
        ProjectProbe::Dotnet
    } else {
        ProjectProbe::Unsupported
    }
}

/// On one line of `s`, a non-blank character at `i`, a blank one at `j` and
/// a non-blank one at `k`: the line has at least two fields.
pub open spec fn two_fields_at(s: Seq<char>, i: int, j: int, k: int) -> bool {
    &&& 0 <= i < j < k < s.len()
    &&& !is_blank_char(s[i])
    &&& is_blank_char(s[j])
    &&& !is_blank_char(s[k])
    &&& forall|m: int| i <= m <= k ==> s[m] != '\n'
}

/// Porcelain status output reports a change: some line of it holds at least
/// two whitespace-separated fields.
pub open spec fn reports_changes(s: Seq<char>) -> bool {
    exists|i: int, j: int, k: int| #[trigger] two_fields_at(s, i, j, k)
}

/// Whether `git status --porcelain` output reports any change: a line with a
/// status and a path. The configuration file counts like any other.
pub fn has_uncommitted_changes(porcelain: &str) -> (r: bool)
    ensures
        r == reports_changes(porcelain@),
{
    let s = chars_of(porcelain);
    let mut line_start: usize = 0;
    let mut first: Option<usize> = None;
    let mut gap: Option<usize> = None;
    let mut p: usize = 0;
    while p < s.len()
        invariant
            s@ == porcelain@,
            line_start <= p <= s.len(),
            line_start == 0 || s@[line_start - 1] == '\n',
            forall|m: int| line_start <= m < p ==> s@[m] != '\n',
            first matches Some(i) ==> line_start <= i < p && !is_blank_char(s@[i as int]),
            first is None ==> forall|m: int| line_start <= m < p ==> is_blank_char(#[trigger] s@[m]),
            gap matches Some(j) ==> (first matches Some(i) && i < j < p && is_blank_char(
                s@[j as int],
            )),
            gap is None ==> forall|a: int, b: int|
                line_start <= a < b < p && !is_blank_char(#[trigger] s@[a]) ==> !is_blank_char(
                    #[trigger] s@[b],
                ),
            forall|i: int, j: int, k: int| k < p ==> !#[trigger] two_fields_at(s@, i, j, k),
        decreases s.len() - p,
    {
        let c = s[p];
        if c == '\n' {
            assert forall|i: int, j: int, k: int| k < p + 1 implies !#[trigger] two_fields_at(
                s@,
                i,
                j,
                k,
            ) by {
                if k == p {
                    assert(is_blank_char(s@[k]));
                }
            }
            line_start = p + 1;
            first = None;
            gap = None;
        } else if blank_char(c) {
            if first.is_some() && gap.is_none() {
                gap = Some(p);
            }
            assert forall|i: int, j: int, k: int| k < p + 1 implies !#[trigger] two_fields_at(
                s@,
                i,
                j,
                k,
            ) by {
                if k == p {
                    assert(is_blank_char(s@[k]));
                }
            }
        } else {
            if let Some(j) = gap {
                let i = first.unwrap();
                assert(two_fields_at(s@, i as int, j as int, p as int));
                return true;
            }
            assert forall|i: int, j: int, k: int| k < p + 1 implies !#[trigger] two_fields_at(
                s@,
                i,
                j,
                k,
            ) by {
                if k == p && two_fields_at(s@, i, j, k) {
                    if i < line_start {
                        assert(s@[line_start - 1] == '\n');
                        assert(i <= line_start - 1 <= k);
                    }
                    assert(!is_blank_char(s@[i]));
                    assert(is_blank_char(s@[j]));
                }
            }
            if first.is_none() {
                first = Some(p);
            }
        }
        p = p + 1;
    }
    false
}

} // verus!
