use vstd::prelude::*;
use crate::errors::{ErrorModel, SwitchError};
use crate::theme::ThemeName;

verus! {

/// The informational line printed when a source carries no theme at all:
/// an empty catalog is a reportable answer, never an error.
pub open spec fn no_themes_line() -> Seq<char> {
    "No themes found in the scripts directory."@
}

/// The conventional file-name prefix of a scheme script.
pub open spec fn scheme_prefix() -> Seq<char> {
    "base16-"@
}

/// The extension a scheme script carries.
pub open spec fn sh_extension() -> Seq<char> {
    ".sh"@
}

/// Index of the last `'.'` in `s`, if there is one.
pub open spec fn rfind_dot(s: Seq<char>) -> Option<int>
    decreases s.len(),
{
    if s.len() == 0 {
        None
    } else if s[s.len() - 1] == '.' {
        Some(s.len() - 1)
    } else {
        rfind_dot(s.drop_last())
    }
}

/// The file stem: everything before the last `'.'`, except that a dot at the
/// very start of the name does not begin an extension.
pub open spec fn stem_of(s: Seq<char>) -> Seq<char> {
    match rfind_dot(s) {
        Some(i) => if i >= 1 {
            s.take(i)
        } else {
            s
        },
        None => s,
    }
}

/// A file follows the scheme-script convention when its stem is the
/// conventional prefix followed by a non-empty canonical name.
pub open spec fn is_scheme_file(s: Seq<char>) -> bool {
    &&& stem_of(s).len() > scheme_prefix().len()
    &&& stem_of(s).take(scheme_prefix().len() as int) == scheme_prefix()
}

/// The canonical theme name derived from a scheme-script file name.
pub open spec fn canonical_of(s: Seq<char>) -> Seq<char> {
    stem_of(s).skip(scheme_prefix().len() as int)
}

/// The canonical names of the files that follow the convention, in the order
/// the files were given.
pub open spec fn catalog_of(files: Seq<Seq<char>>) -> Seq<Seq<char>> {
    files.filter(|f: Seq<char>| is_scheme_file(f)).map_values(|f: Seq<char>| canonical_of(f))
}

/// The file name of the scheme script for a theme.
pub open spec fn scheme_script_filename_spec(name: Seq<char>) -> Seq<char> {
    scheme_prefix() + name + sh_extension()
}

proof fn lemma_rfind_dot_none(s: Seq<char>)
    requires
        forall|j: int| 0 <= j < s.len() ==> s[j] != '.',
    ensures
        rfind_dot(s) is None,
    decreases s.len(),
{
    if s.len() > 0 {
        lemma_rfind_dot_none(s.drop_last());
    }
}

proof fn lemma_rfind_dot_last(s: Seq<char>, k: int)
    requires
        0 <= k < s.len(),
        s[k] == '.',
        forall|j: int| k < j < s.len() ==> s[j] != '.',
    ensures
        rfind_dot(s) == Some(k),
    decreases s.len(),
{
    if k < s.len() - 1 {
        lemma_rfind_dot_last(s.drop_last(), k);
    }
}

/// Derives the canonical theme name from a scheme-script file name, or
/// `None` when the file does not follow the naming convention.
pub fn derive_scheme_name(file_name: &str) -> (r: Option<String>)
    ensures
        r is Some <==> is_scheme_file(file_name@),
        r matches Some(n) ==> n@ == canonical_of(file_name@),
{
    let ghost s = file_name@;
    let len = file_name.unicode_len();

    // Find the last dot, scanning from the end.
    let mut i: usize = len;
    let mut dot_idx: usize = len;
    while i > 0
        invariant
            0 <= i <= len,
            dot_idx <= len,
            len == s.len(),
            s == file_name@,
            dot_idx == len ==> forall|j: int| i <= j < len ==> s[j] != '.',
            dot_idx < len ==> i <= dot_idx && s[dot_idx as int] == '.' && forall|j: int|
                dot_idx < j < len ==> s[j] != '.',
        decreases i,
    {
        i -= 1;
        if dot_idx == len && file_name.get_char(i) == '.' {
            dot_idx = i;
        }
    }

    let stem_end: usize = if dot_idx == len {
        len
    } else if dot_idx >= 1 {
        dot_idx
    } else {
        len
    };
    proof {
        if dot_idx == len {
            lemma_rfind_dot_none(s);
        } else {
            lemma_rfind_dot_last(s, dot_idx as int);
        }
        assert(stem_of(s) =~= s.take(stem_end as int));
    }

    // The stem must be strictly longer than the prefix.
    if stem_end <= 7 {
        proof {
            reveal_strlit("base16-");
        }
        return None;
    }

    // The stem must begin with the prefix.
    let pre = file_name.substring_char(0, 7);
    let pre_owned: String = pre.to_owned();
    let expected: String = String::from_str("base16-");
    proof {
        reveal_strlit("base16-");
        assert(stem_of(s).take(7) =~= s.subrange(0, 7));
    }
    if pre_owned != expected {
        return None;
    }

    let name = file_name.substring_char(7, stem_end);
    proof {
        assert(canonical_of(s) =~= s.subrange(7, stem_end as int));
    }
    Some(name.to_owned())
}

/// Lists the catalog of a directory: derives the canonical name of every
/// file that follows the scheme-script convention, keeping the order the
/// files were given in.  Files that do not follow it are skipped.
pub fn list(file_names: &Vec<String>) -> (r: Vec<String>)
    ensures
        r.deep_view() == catalog_of(file_names.deep_view()),
{
    let ghost files = file_names.deep_view();
    let mut r: Vec<String> = Vec::new();
    let mut i: usize = 0;
    while i < file_names.len()
        invariant
            0 <= i <= file_names.len(),
            files == file_names.deep_view(),
            files.len() == file_names.len(),
            forall|j: int| 0 <= j < files.len() ==> files[j] == file_names@[j]@,
            r.deep_view() == catalog_of(files.take(i as int)),
        decreases file_names.len() - i,
    {
        let ghost prev = files.take(i as int);
        match derive_scheme_name(file_names[i].as_str()) {
            Some(name) => {
                r.push(name);
            },
            None => {},
        }
        proof {
            let pred = |f: Seq<char>| is_scheme_file(f);
            assert(files.take(i + 1).drop_last() =~= prev);
            assert(files.take(i + 1).last() == files[i as int]);
            reveal_with_fuel(Seq::<_>::filter, 2);
            if is_scheme_file(files[i as int]) {
                assert(files.take(i + 1).filter(pred) =~= prev.filter(pred).push(
                    files[i as int],
                ));
                assert(catalog_of(files.take(i + 1)) =~= catalog_of(prev).push(
                    canonical_of(files[i as int]),
                ));
            } else {
                assert(files.take(i + 1).filter(pred) =~= prev.filter(pred));
                assert(catalog_of(files.take(i + 1)) =~= catalog_of(prev));
            }
        }
        i += 1;
    }
    proof {
        assert(files.take(files.len() as int) =~= files);
    }
    r
}

/// Decides the output of the listing command.  Takes whether the source's
/// `scripts/` path is a directory and its file listing, and returns the
/// lines to print: one canonical theme name per matching file, in the
/// order the files were given, or the single informational line when no
/// file matches.  A missing scripts directory is an invalid source.
pub fn list_command(scripts_path: String, scripts_is_dir: bool, file_names: &Vec<String>) -> (r:
    Result<Vec<String>, SwitchError>)
    ensures
        !scripts_is_dir ==> (r matches Err(e) && e@ == (ErrorModel::SourceInvalid {
            path: scripts_path@,
            missing: "scripts"@,
        })),
        scripts_is_dir ==> (r matches Ok(lines) && {
            let names = catalog_of(file_names.deep_view());
            if names.len() == 0 {
                lines.deep_view() == seq![no_themes_line()]
            } else {
                lines.deep_view() == names
            }
        }),
{
    if !scripts_is_dir {
        return Err(
            SwitchError::SourceInvalid { path: scripts_path, missing: String::from_str("scripts") },
        );
    }
    let names = list(file_names);
    if names.len() == 0 {
        let mut lines: Vec<String> = Vec::new();
        lines.push(String::from_str("No themes found in the scripts directory."));
        proof {
            assert(lines.deep_view() =~= seq![no_themes_line()]);
        }
        Ok(lines)
    } else {
        Ok(names)
    }
}

/// The file name of the scheme script that represents a theme.
pub fn scheme_script_filename(name: &ThemeName) -> (r: String)
    ensures
        r@ == scheme_script_filename_spec(name@),
{
    let mut s = String::from_str("base16-");
    s.append(name.as_str());
    s.append(".sh");
    s
}

/// The catalog holds exactly the canonical names of the files that follow
/// the convention: the name derived from every matching file appears in
/// it, and everything in it is derived from some matching file.  Sorted,
/// the catalog therefore equals the sorted set of derivable names.
pub proof fn lemma_catalog_exact(files: Seq<Seq<char>>)
    ensures
        forall|i: int|
            0 <= i < files.len() && is_scheme_file(#[trigger] files[i]) ==> catalog_of(
                files,
            ).contains(canonical_of(files[i])),
        forall|n: Seq<char>| #[trigger]
            catalog_of(files).contains(n) ==> exists|i: int|
                0 <= i < files.len() && is_scheme_file(#[trigger] files[i]) && canonical_of(
                    files[i],
                ) == n,
{
    let pred = |f: Seq<char>| is_scheme_file(f);
    let conv = |f: Seq<char>| canonical_of(f);
    let filtered = files.filter(pred);
    let cat = catalog_of(files);
    crate::hooks::lemma_filter_is_subset(files, pred);
    assert forall|i: int|
        0 <= i < files.len() && is_scheme_file(#[trigger] files[i]) implies cat.contains(
        canonical_of(files[i]),
    ) by {
        files.lemma_filter_contains(pred, i);
        let j = choose|j: int| 0 <= j < filtered.len() && filtered[j] == files[i];
        assert(cat[j] == conv(filtered[j]));
        assert(cat.contains(cat[j]));
    }
    assert forall|n: Seq<char>| #[trigger] cat.contains(n) implies exists|i: int|
        0 <= i < files.len() && is_scheme_file(#[trigger] files[i]) && canonical_of(files[i])
            == n by {
        let j = choose|j: int| 0 <= j < cat.len() && cat[j] == n;
        assert(cat[j] == conv(filtered[j]));
        assert(filtered.contains(filtered[j]));
        assert(files.contains(filtered[j]) && pred(filtered[j]));
        let i = choose|i: int| 0 <= i < files.len() && files[i] == filtered[j];
        assert(is_scheme_file(files[i]) && canonical_of(files[i]) == n);
    }
}

/// Catalog coherence: the file named after a theme follows the convention,
/// and the name derived from it is the theme's own.  This ties the
/// switcher's lookup of a single script file to catalog membership.
pub proof fn lemma_script_filename_canonical(name: Seq<char>)
    requires
        name.len() > 0,
    ensures
        is_scheme_file(scheme_script_filename_spec(name)),
        canonical_of(scheme_script_filename_spec(name)) == name,
{
    reveal_strlit("base16-");
    reveal_strlit(".sh");
    let s = scheme_script_filename_spec(name);
    let n = s.len() as int;
    assert(s[n - 3] == '.');
    assert(s[n - 2] == 's');
    assert(s[n - 1] == 'h');
    lemma_rfind_dot_last(s, n - 3);
    assert(stem_of(s) =~= scheme_prefix() + name);
    assert(stem_of(s).take(7) =~= scheme_prefix());
    assert(canonical_of(s) =~= name);
}

} // verus!
