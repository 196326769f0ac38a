//! Template packages: which template types the embedded set provides, and
//! which installed packages are behind the current version.

use vstd::prelude::*;
use crate::templates::texts;

verus! {

/// The version of this tool, which installed packages are compared with.
pub fn get_docgen_version() -> (r: String)
    ensures
        r@ == crate::templates::DOCGEN_VERSION@,
        r@.len() > 0,
{
    crate::templates::get_docgen_version()
}

/// The paths of the templates shipped with the tool, relative to the
/// template root.
pub open spec fn embedded_paths() -> Seq<Seq<char>> {
    seq![
        "invoice/default.typ"@,
        "offer/default.typ"@,
        "credentials/default.typ"@,
        "concept/default.typ"@,
        "documentation/default.typ"@,
        "common/styles.typ"@,
    ]
}

/// The paths of the templates shipped with the tool.
pub fn embedded_template_paths() -> (r: Vec<String>)
    ensures
        texts(r@) == embedded_paths(),
{
    let r = vec![
        String::from_str("invoice/default.typ"),
        String::from_str("offer/default.typ"),
        String::from_str("credentials/default.typ"),
        String::from_str("concept/default.typ"),
        String::from_str("documentation/default.typ"),
        String::from_str("common/styles.typ"),
    ];
    assert(texts(r@) =~= embedded_paths());
    r
}

/// `k` is the first position of `/` in `p`.
pub open spec fn first_slash(p: Seq<char>, k: int) -> bool {
    0 <= k < p.len() && p[k] == '/' && forall|j: int| 0 <= j < k ==> p[j] != '/'
}

/// A template of some type: the path has a directory part, and that is not
/// the shared `common/` directory.
pub open spec fn is_template_path(p: Seq<char>) -> bool {
    &&& exists|k: int| first_slash(p, k)
    &&& !(p.len() >= 7 && p.subrange(0, 7) == "common/"@)
}

/// The template type of a path: its first directory.
pub open spec fn template_type_of(p: Seq<char>) -> Seq<char> {
    p.subrange(0, choose|k: int| first_slash(p, k))
}

fn type_of_path(p: &String) -> (r: Option<String>)
    ensures
        match r {
            Some(t) => is_template_path(p@) && t@ == template_type_of(p@),
            None => !is_template_path(p@),
        },
{
    let s = p.as_str();
    let n = s.unicode_len();
    let mut k: usize = 0;
    while k < n && s.get_char(k) != '/'
        invariant
            n == p@.len(),
            s@ == p@,
            k <= n,
            forall|j: int| 0 <= j < k ==> p@[j] != '/',
        decreases n - k,
    {
        k = k + 1;
    }
    if k == n {
        return None;
    }
    proof {
        assert(first_slash(p@, k as int));
        let c = choose|c: int| first_slash(p@, c);
        assert(c == k);
    }
    if n >= 7 {
        let head = String::from_str(s.substring_char(0, 7));
        if head == String::from_str("common/") {
            return None;
        }
    }
    Some(String::from_str(s.substring_char(0, k)))
}

/// The template types among `paths`, each once, in order of first
/// appearance: the first directory of every path that has one, other than
/// `common/`.
pub open spec fn template_types_of(paths: Seq<Seq<char>>) -> Seq<Seq<char>>
    decreases paths.len(),
{
    if paths.len() == 0 {
        Seq::empty()
    } else {
        let rest = template_types_of(paths.drop_last());
        let p = paths.last();
        if is_template_path(p) && !rest.contains(template_type_of(p)) {
            rest.push(template_type_of(p))
        } else {
            rest
        }
    }
}

/// The template types among `paths`, each once, in order of first appearance.
pub fn template_types(paths: &Vec<String>) -> (r: Vec<String>)
    ensures
        texts(r@) == template_types_of(texts(paths@)),
{
    let mut out: Vec<String> = Vec::new();
    let mut j: usize = 0;
    while j < paths.len()
        invariant
            j <= paths@.len(),
            texts(out@) == template_types_of(texts(paths@.subrange(0, j as int))),
        decreases paths@.len() - j,
    {
        proof {
            assert(texts(paths@.subrange(0, j + 1)).drop_last() =~= texts(
                paths@.subrange(0, j as int),
            ));
            assert(texts(paths@.subrange(0, j + 1)).last() == paths@[j as int]@);
        }
        match type_of_path(&paths[j]) {
            None => {},
            Some(t) => {
                let mut seen = false;
                let mut i: usize = 0;
                while i < out.len()
                    invariant
                        i <= out@.len(),
                        seen == exists|q: int| 0 <= q < i && out@[q]@ == t@,
                    decreases out@.len() - i,
                {
                    if out[i] == t {
                        seen = true;
                    }
                    i = i + 1;
                }
                proof {
                    if seen {
                        let q = choose|q: int| 0 <= q < out@.len() && out@[q]@ == t@;
                        assert(texts(out@)[q] == t@);
                    } else {
                        assert forall|q: int| 0 <= q < texts(out@).len() implies texts(out@)[q]
                            != t@ by {
                            assert(texts(out@)[q] == out@[q]@);
                        }
                    }
                }
                if !seen {
                    let ghost before = out@;
                    out.push(t);
                    proof {
                        assert(texts(out@) =~= texts(before).push(t@));
                    }
                }
            },
        }
        j = j + 1;
    }
    assert(paths@.subrange(0, j as int) =~= paths@);
    out
}

/// The template types that the shipped templates provide.
pub fn get_available_templates() -> (r: Vec<String>)
    ensures
        texts(r@) == template_types_of(embedded_paths()),
{
    let paths = embedded_template_paths();
    template_types(&paths)
}

/// `name` with the `docgen-` prefix removed, when it has it.
pub open spec fn package_template(name: Seq<char>) -> Option<Seq<char>> {
    if name.len() >= 7 && name.subrange(0, 7) == "docgen-"@ {
        Some(name.subrange(7, name.len() as int))
    } else {
        None
    }
}

/// The updates that bring installed packages to `current_version`: for each
/// installed `docgen-` package (name, version) whose version differs, in
/// order, the template name, the old version and the current version.
pub open spec fn pending_updates(installed: Seq<(Seq<char>, Seq<char>)>, current: Seq<char>) -> Seq<
    (Seq<char>, Seq<char>, Seq<char>),
>
    decreases installed.len(),
{
    if installed.len() == 0 {
        Seq::empty()
    } else {
        let rest = pending_updates(installed.drop_last(), current);
        let (name, version) = installed.last();
        match package_template(name) {
            Some(t) => if version != current {
                rest.push((t, version, current))
            } else {
                rest
            },
            None => rest,
        }
    }
}

pub open spec fn pair_texts(v: Seq<(String, String)>) -> Seq<(Seq<char>, Seq<char>)> {
    v.map_values(|p: (String, String)| (p.0@, p.1@))
}

pub open spec fn triple_texts(v: Seq<(String, String, String)>) -> Seq<
    (Seq<char>, Seq<char>, Seq<char>),
> {
    v.map_values(|p: (String, String, String)| (p.0@, p.1@, p.2@))
}

/// Which installed packages (name, version) need reinstalling at
/// `current_version`, with the template name, old and new version of each.
pub fn packages_to_update(installed: &Vec<(String, String)>, current_version: &str) -> (r: Vec<
    (String, String, String),
>)
    ensures
        triple_texts(r@) == pending_updates(pair_texts(installed@), current_version@),
{
    let mut out: Vec<(String, String, String)> = Vec::new();
    let current = String::from_str(current_version);
    let prefix = String::from_str("docgen-");
    let mut i: usize = 0;
    while i < installed.len()
        invariant
            i <= installed@.len(),
            current@ == current_version@,
            prefix@ == "docgen-"@,
            triple_texts(out@) == pending_updates(
                pair_texts(installed@.subrange(0, i as int)),
                current_version@,
            ),
        decreases installed@.len() - i,
    {
        let name = installed[i].0.as_str();
        let version = &installed[i].1;
        let ghost before = out@;
        proof {
            assert(pair_texts(installed@.subrange(0, i + 1)).drop_last() =~= pair_texts(
                installed@.subrange(0, i as int),
            ));
        }
        let n = name.unicode_len();
        if n >= 7 && String::from_str(name.substring_char(0, 7)) == prefix {
            if !(*version == current) {
                let template = String::from_str(name.substring_char(7, n));
                out.push((template, version.clone(), current.clone()));
                proof {
                    assert(triple_texts(out@) =~= triple_texts(before).push(
                        (installed@[i as int].0@.subrange(7, n as int), version@, current@),
                    ));
                }
            }
        }
        i = i + 1;
    }
    assert(installed@.subrange(0, i as int) =~= installed@);
    out
}

} // verus!
