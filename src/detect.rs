//! Change detection: which packages are touched by a set of changed files.
use vstd::prelude::*;
use vstd::string::StringExecFns;

verus! {

/// The character contents of each string in `v`.
pub open spec fn texts(v: Seq<String>) -> Seq<Seq<char>> {
    v.map_values(|s: String| s@)
}

/// `p` is a literal prefix of `s`.
pub open spec fn is_prefix_of(p: Seq<char>, s: Seq<char>) -> bool {
    p.len() <= s.len() && s.subrange(0, p.len() as int) == p
}

/// The path of package `name` relative to the workspace root, with a
/// trailing separator, so that `foo` never claims files under `foobar/`.
pub open spec fn package_prefix(package_dir: Seq<char>, name: Seq<char>) -> Seq<char> {
    package_dir + seq!['/'] + name + seq!['/']
}

/// Some changed file lies inside package `name`.
pub open spec fn touched(package_dir: Seq<char>, files: Seq<Seq<char>>, name: Seq<char>) -> bool {
    exists|j: int|
        0 <= j < files.len() && is_prefix_of(package_prefix(package_dir, name), #[trigger] files[j])
}

/// `touched` as a predicate on package names.
pub open spec fn touched_by(package_dir: Seq<char>, files: Seq<Seq<char>>) -> spec_fn(Seq<char>) -> bool {
    |name: Seq<char>| touched(package_dir, files, name)
}

/// The touched packages, in discovery order.
pub open spec fn select_spec(
    package_dir: Seq<char>,
    packages: Seq<Seq<char>>,
    files: Seq<Seq<char>>,
) -> Seq<Seq<char>> {
    packages.filter(touched_by(package_dir, files))
}

/// Relies on str::starts_with with a string pattern: true exactly when
/// `prefix` is a prefix of `s`.
#[verifier::external_body]
fn starts_with(s: &str, prefix: &str) -> (r: bool)
    ensures
        r == is_prefix_of(prefix@, s@),
{
    s.starts_with(prefix)
}

/// Builds `package_dir/name/`.
pub fn package_prefix_of(package_dir: &String, name: &String) -> (r: String)
    ensures
        r@ == package_prefix(package_dir@, name@),
{
    proof {
        reveal_strlit("/");
    }
    let mut prefix = package_dir.clone();
    prefix.append("/");
    prefix.append(name.as_str());
    prefix.append("/");
    prefix
}

/// Whether some file in `files` starts with `prefix`.
pub fn any_starts_with(files: &Vec<String>, prefix: &String) -> (r: bool)
    ensures
        r == exists|j: int| 0 <= j < files@.len() && is_prefix_of(prefix@, #[trigger] files@[j]@),
{
    let mut j: usize = 0;
    while j < files.len()
        invariant
            0 <= j <= files@.len(),
            forall|k: int| 0 <= k < j ==> !is_prefix_of(prefix@, #[trigger] files@[k]@),
        decreases files@.len() - j,
    {
        if starts_with(files[j].as_str(), prefix.as_str()) {
            return true;
        }
        j = j + 1;
    }
    false
}

/// Selects, in discovery order, each package of `packages` (directories under
/// `package_dir`) that holds at least one of the `changed` paths, which are
/// relative to the workspace root. Each package comes out at most once, however
/// many of its files changed.
pub fn filter_files_to_packages(
    package_dir: &String,
    packages: &Vec<String>,
    changed: &Vec<String>,
) -> (r: Vec<String>)
    ensures
        texts(r@) == select_spec(package_dir@, texts(packages@), texts(changed@)),
{
    let ghost pred = touched_by(package_dir@, texts(changed@));
    let mut selected: Vec<String> = Vec::new();
    let mut i: usize = 0;
    while i < packages.len()
        invariant
            0 <= i <= packages@.len(),
            pred == touched_by(package_dir@, texts(changed@)),
            texts(selected@) == texts(packages@).take(i as int).filter(pred),
        decreases packages@.len() - i,
    {
        let prefix = package_prefix_of(package_dir, &packages[i]);
        let hit = any_starts_with(changed, &prefix);
        proof {
            let all = texts(packages@);
            let files = texts(changed@);
            let before = all.take(i as int);
            let after = all.take(i as int + 1);
            assert(after.drop_last() =~= before);
            assert(after.last() == packages@[i as int]@);
            reveal_with_fuel(Seq::filter, 1);
            if hit {
                let j = choose|j: int|
                    0 <= j < changed@.len() && is_prefix_of(prefix@, #[trigger] changed@[j]@);
                assert(files[j] == changed@[j]@);
                assert(pred(after.last()));
            } else {
                assert forall|j: int| 0 <= j < files.len() implies !is_prefix_of(
                    package_prefix(package_dir@, packages@[i as int]@),
                    #[trigger] files[j],
                ) by {
                    assert(files[j] == changed@[j]@);
                }
                assert(!pred(after.last()));
            }
        }
        if hit {
            selected.push(packages[i].clone());
            assert(texts(selected@) =~= texts(packages@).take(i as int + 1).filter(pred));
        }
        i = i + 1;
    }
    assert(texts(packages@).take(packages@.len() as int) =~= texts(packages@));
    selected
}

/// The selection is a sub-list of the packages, and a package is in it exactly
/// when it is one of the packages and one of the changed files lies inside it.
pub proof fn lemma_select_exact(
    package_dir: Seq<char>,
    packages: Seq<Seq<char>>,
    files: Seq<Seq<char>>,
)
    ensures
        forall|p: Seq<char>|
            #[trigger] select_spec(package_dir, packages, files).contains(p) <==> (
            packages.contains(p) && touched(package_dir, files, p)),
{
    broadcast use Seq::lemma_filter_contains_rev;

    let pred = touched_by(package_dir, files);
    let sel = select_spec(package_dir, packages, files);
    assert forall|p: Seq<char>| #[trigger] sel.contains(p) <==> (packages.contains(p) && touched(
        package_dir,
        files,
        p,
    )) by {
        if sel.contains(p) {
            let i = choose|i: int| 0 <= i < sel.len() && sel[i] == p;
            packages.lemma_filter_pred(pred, i);
        }
        if packages.contains(p) && touched(package_dir, files, p) {
            let i = choose|i: int| 0 <= i < packages.len() && packages[i] == p;
            packages.lemma_filter_contains(pred, i);
        }
    }
}

/// Filtering keeps a list free of duplicates.
proof fn lemma_filter_no_duplicates(s: Seq<Seq<char>>, pred: spec_fn(Seq<char>) -> bool)
    requires
        s.no_duplicates(),
    ensures
        s.filter(pred).no_duplicates(),
    decreases s.len(),
{
    reveal_with_fuel(Seq::filter, 1);
    if s.len() > 0 {
        let rest = s.drop_last();
        assert(rest.no_duplicates()) by {
            assert forall|i: int, j: int|
                0 <= i < rest.len() && 0 <= j < rest.len() && i != j implies rest[i] != rest[j] by {
                assert(rest[i] == s[i] && rest[j] == s[j]);
            }
        }
        lemma_filter_no_duplicates(rest, pred);
        let sub = rest.filter(pred);
        if pred(s.last()) {
            if sub.contains(s.last()) {
                rest.lemma_filter_contains_rev(pred, s.last());
                let k = choose|k: int| 0 <= k < rest.len() && rest[k] == s.last();
                assert(s[k] == s[s.len() - 1]);
            }
            let out = sub.push(s.last());
            assert forall|i: int, j: int|
                0 <= i < out.len() && 0 <= j < out.len() && i != j implies out[i] != out[j] by {
                if i < sub.len() && j < sub.len() {
                    assert(out[i] == sub[i] && out[j] == sub[j]);
                } else if i < sub.len() {
                    assert(out[i] == sub[i]);
                } else if j < sub.len() {
                    assert(out[j] == sub[j]);
                }
            }
        }
    }
}

/// With package names unique, no package appears twice in the selection,
/// however many of its files changed.
pub proof fn lemma_select_no_duplicates(
    package_dir: Seq<char>,
    packages: Seq<Seq<char>>,
    files: Seq<Seq<char>>,
)
    requires
        packages.no_duplicates(),
    ensures
        select_spec(package_dir, packages, files).no_duplicates(),
{
    lemma_filter_no_duplicates(packages, touched_by(package_dir, files));
}

/// With no changed file, no package is selected.
pub proof fn lemma_no_changes_selects_nothing(package_dir: Seq<char>, packages: Seq<Seq<char>>)
    ensures
        select_spec(package_dir, packages, Seq::empty()).len() == 0,
{
    let pred = touched_by(package_dir, Seq::<Seq<char>>::empty());
    let sel = select_spec(package_dir, packages, Seq::empty());
    if sel.len() > 0 {
        packages.lemma_filter_pred(pred, 0);
    }
}

/// The packages a run works on: with `detect_changes`, those that `changed`
/// touches (see `filter_files_to_packages`); otherwise all of them, in order.
pub fn select_packages(
    detect_changes: bool,
    package_dir: &String,
    packages: &Vec<String>,
    changed: &Vec<String>,
) -> (r: Vec<String>)
    ensures
        texts(r@) == if detect_changes {
            select_spec(package_dir@, texts(packages@), texts(changed@))
        } else {
            texts(packages@)
        },
{
    if detect_changes {
        filter_files_to_packages(package_dir, packages, changed)
    } else {
        packages.clone()
    }
}

} // verus!
