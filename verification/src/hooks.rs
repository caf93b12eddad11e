use vstd::prelude::*;
use vstd::relations::{sorted_by, total_ordering};
use crate::catalog::sh_extension;

verus! {

/// A file in the hooks directory is run when its extension marks it as a
/// shell script.
pub open spec fn is_hook_name(s: Seq<char>) -> bool {
    &&& s.len() >= 4
    &&& s.skip(s.len() - 3) == sh_extension()
}

/// Lexicographic order on names, by unicode scalar value, character by
/// character; a proper prefix comes first.
pub open spec fn lex_leq(a: Seq<char>, b: Seq<char>) -> bool
    decreases a.len(),
{
    if a.len() == 0 {
        true
    } else if b.len() == 0 {
        false
    } else if a[0] == b[0] {
        lex_leq(a.drop_first(), b.drop_first())
    } else {
        (a[0] as u32) < (b[0] as u32)
    }
}

/// The order as a first-class relation, for use with `sorted_by`.
pub open spec fn lex_leq_fn() -> spec_fn(Seq<char>, Seq<char>) -> bool {
    |a: Seq<char>, b: Seq<char>| lex_leq(a, b)
}

proof fn lemma_char_cast_neq(c: char, d: char)
    requires
        c != d,
    ensures
        c as u32 != d as u32,
{
}

proof fn lemma_lex_refl(a: Seq<char>)
    ensures
        lex_leq(a, a),
    decreases a.len(),
{
    if a.len() > 0 {
        lemma_lex_refl(a.drop_first());
    }
}

proof fn lemma_lex_connected(a: Seq<char>, b: Seq<char>)
    ensures
        lex_leq(a, b) || lex_leq(b, a),
    decreases a.len(),
{
    if a.len() > 0 && b.len() > 0 {
        if a[0] == b[0] {
            lemma_lex_connected(a.drop_first(), b.drop_first());
        } else {
            lemma_char_cast_neq(a[0], b[0]);
        }
    }
}

proof fn lemma_lex_antisym(a: Seq<char>, b: Seq<char>)
    requires
        lex_leq(a, b),
        lex_leq(b, a),
    ensures
        a == b,
    decreases a.len(),
{
    if a.len() == 0 {
        assert(a =~= b);
    } else if b.len() == 0 {
        assert(!lex_leq(a, b));
        assert(a =~= b);
    } else if a[0] == b[0] {
        lemma_lex_antisym(a.drop_first(), b.drop_first());
        assert forall|i: int| 0 <= i < a.len() implies a[i] == b[i] by {
            if i > 0 {
                assert(a.drop_first()[i - 1] == b.drop_first()[i - 1]);
            }
        }
        assert(a =~= b);
    } else {
        lemma_char_cast_neq(a[0], b[0]);
        assert(a =~= b);
    }
}

proof fn lemma_lex_trans(a: Seq<char>, b: Seq<char>, c: Seq<char>)
    requires
        lex_leq(a, b),
        lex_leq(b, c),
    ensures
        lex_leq(a, c),
    decreases a.len(),
{
    if a.len() > 0 && b.len() > 0 && c.len() > 0 && a[0] == b[0] && b[0] == c[0] {
        lemma_lex_trans(a.drop_first(), b.drop_first(), c.drop_first());
    }
}

/// The lexicographic order is a total order, so sorting by it is
/// deterministic: there is exactly one sorted arrangement of any multiset of
/// names.
pub proof fn lemma_lex_total_ordering()
    ensures
        total_ordering(lex_leq_fn()),
{
    let leq = lex_leq_fn();
    assert forall|a: Seq<char>| #[trigger] leq(a, a) by {
        lemma_lex_refl(a);
    }
    assert forall|a: Seq<char>, b: Seq<char>| #[trigger] leq(a, b) && #[trigger] leq(b, a)
        implies a == b by {
        lemma_lex_antisym(a, b);
    }
    assert forall|a: Seq<char>, b: Seq<char>, c: Seq<char>|
        #[trigger] leq(a, b) && #[trigger] leq(b, c) implies leq(a, c) by {
        lemma_lex_trans(a, b, c);
    }
    assert forall|a: Seq<char>, b: Seq<char>| !(#[trigger] leq(a, b)) implies leq(b, a) by {
        lemma_lex_connected(a, b);
    }
}

/// Decides the lexicographic order on two names.
pub fn str_lex_leq(a: &str, b: &str) -> (r: bool)
    ensures
        r == lex_leq(a@, b@),
{
    let alen = a.unicode_len();
    let blen = b.unicode_len();
    let mut i: usize = 0;
    proof {
        assert(a@.skip(0) =~= a@);
        assert(b@.skip(0) =~= b@);
    }
    while i < alen && i < blen
        invariant
            0 <= i <= alen,
            0 <= i <= blen,
            alen == a@.len(),
            blen == b@.len(),
            lex_leq(a@, b@) == lex_leq(a@.skip(i as int), b@.skip(i as int)),
        decreases alen - i,
    {
        let ca = a.get_char(i);
        let cb = b.get_char(i);
        if ca != cb {
            return (ca as u32) < (cb as u32);
        }
        proof {
            assert(a@.skip(i as int).drop_first() =~= a@.skip(i + 1));
            assert(b@.skip(i as int).drop_first() =~= b@.skip(i + 1));
        }
        i += 1;
    }
    alen <= blen
}

/// Checks whether a file name marks a hook script.
pub fn is_hook_file(name: &str) -> (r: bool)
    ensures
        r == is_hook_name(name@),
{
    let len = name.unicode_len();
    if len < 4 {
        return false;
    }
    let tail = name.substring_char(len - 3, len);
    let r = tail.to_owned() == String::from_str(".sh");
    proof {
        assert(name@.skip(len - 3) =~= name@.subrange(len - 3, len as int));
    }
    r
}

/// Whatever a filtered sequence contains, the base sequence contains, and
/// it satisfies the predicate.
pub proof fn lemma_filter_is_subset<A>(s: Seq<A>, pred: spec_fn(A) -> bool)
    ensures
        forall|x: A| #[trigger] s.filter(pred).contains(x) ==> s.contains(x) && pred(x),
    decreases s.len(),
{
    reveal(Seq::filter);
    if s.len() > 0 {
        lemma_filter_is_subset(s.drop_last(), pred);
        let f = s.filter(pred);
        let fd = s.drop_last().filter(pred);
        assert forall|x: A| #[trigger] f.contains(x) implies s.contains(x) && pred(x) by {
            let i = choose|i: int| 0 <= i < f.len() && f[i] == x;
            if pred(s.last()) && x == s.last() {
                assert(s[s.len() - 1] == x);
            } else {
                if pred(s.last()) {
                    assert(f == fd.push(s.last()));
                    assert(i < fd.len());
                    assert(fd[i] == x);
                } else {
                    assert(f == fd);
                }
                assert(fd.contains(x));
                let j = choose|j: int| 0 <= j < s.drop_last().len() && s.drop_last()[j] == x;
                assert(s[j] == x);
            }
        }
    }
}

proof fn lemma_insert_to_multiset<A>(s: Seq<A>, i: int, x: A)
    requires
        0 <= i <= s.len(),
    ensures
        s.insert(i, x).to_multiset() == s.to_multiset().insert(x),
    decreases s.len(),
{
    broadcast use vstd::seq_lib::group_to_multiset_ensures;

    if i == s.len() {
        assert(s.insert(i, x) =~= s.push(x));
    } else {
        let t = s.drop_last();
        assert(s.insert(i, x) =~= t.insert(i, x).push(s.last()));
        lemma_insert_to_multiset(t, i, x);
        assert(s =~= t.push(s.last()));
        assert(t.insert(i, x).push(s.last()).to_multiset() =~= t.to_multiset().insert(x).insert(
            s.last(),
        ));
        assert(t.to_multiset().insert(x).insert(s.last()) =~= t.to_multiset().insert(
            s.last(),
        ).insert(x));
    }
}

/// Sorts a list of names into the lexicographic order.  The result holds
/// exactly the given names.
pub fn sort_names(v: Vec<String>) -> (r: Vec<String>)
    ensures
        sorted_by(r.deep_view(), lex_leq_fn()),
        r.deep_view().to_multiset() == v.deep_view().to_multiset(),
{
    let ghost leq = lex_leq_fn();
    let mut out: Vec<String> = Vec::new();
    let mut i: usize = 0;
    proof {
        assert(out.deep_view() =~= Seq::<Seq<char>>::empty());
        assert(v.deep_view().take(0) =~= Seq::<Seq<char>>::empty());
    }
    while i < v.len()
        invariant
            0 <= i <= v.len(),
            sorted_by(out.deep_view(), leq),
            leq == lex_leq_fn(),
            out.deep_view().to_multiset() == v.deep_view().take(i as int).to_multiset(),
        decreases v.len() - i,
    {
        let ghost prev = out.deep_view();
        let x = v[i].clone();
        let mut j: usize = 0;
        while j < out.len() && str_lex_leq(out[j].as_str(), x.as_str())
            invariant
                0 <= j <= out.len(),
                x@ == v.deep_view()[i as int],
                i < v.len(),
                prev == out.deep_view(),
                forall|k: int| 0 <= k < j ==> lex_leq(prev[k], x@),
            decreases out.len() - j,
        {
            j += 1;
        }
        proof {
            lemma_lex_total_ordering();
            if j < prev.len() {
                assert(lex_leq(x@, prev[j as int])) by {
                    lemma_lex_connected(prev[j as int], x@);
                }
            }
        }
        out.insert(j, x);
        proof {
            assert(out.deep_view() =~= prev.insert(j as int, x@));
            lemma_insert_to_multiset(prev, j as int, x@);
            broadcast use vstd::seq_lib::group_to_multiset_ensures;

            assert(v.deep_view().take(i + 1) =~= v.deep_view().take(i as int).push(x@));
            assert(sorted_by(out.deep_view(), leq)) by {
                let s = prev.insert(j as int, x@);
                assert forall|p: int, q: int| 0 <= p < q < s.len() implies #[trigger] leq(
                    s[p],
                    s[q],
                ) by {
                    if p < j && q < j {
                        assert(leq(prev[p], prev[q]));
                    } else if p < j && q == j {
                        assert(lex_leq(prev[p], x@));
                    } else if p < j && q > j {
                        assert(leq(prev[p], prev[q - 1]));
                    } else if p == j && q > j {
                        if j as int == q - 1 {
                            assert(lex_leq(x@, prev[j as int]));
                        } else {
                            assert(leq(prev[j as int], prev[q - 1]));
                            lemma_lex_trans(x@, prev[j as int], prev[q - 1]);
                        }
                    } else {
                        assert(p > j && q > j);
                        assert(leq(prev[p - 1], prev[q - 1]));
                    }
                }
            }
        }
        i += 1;
    }
    proof {
        assert(v.deep_view().take(v.len() as int) =~= v.deep_view());
    }
    out
}

/// Name of the variable carrying the theme-name file's path into a hook.
pub const BASE16_SHELL_THEME_NAME_PATH_ENV: &'static str = "BASE16_SHELL_THEME_NAME_PATH";

/// Name of the variable carrying the base configuration directory's path
/// into a hook.
pub const BASE16_SHELL_CONFIG_PATH_ENV: &'static str = "BASE16_CONFIG_PATH";

/// Name of the variable carrying the newly active theme's name into a hook.
pub const BASE16_THEME_ENV: &'static str = "BASE16_THEME";

/// The environment contract handed to every hook process: the path of the
/// theme-name file, the base configuration directory, and the newly active
/// theme's name.  Built fresh for each switch and owned by the hook run; it
/// is never persisted.
pub struct HookEnvironment {
    pub theme_name_path: String,
    pub config_path: String,
    pub theme_name: String,
}

/// The mathematical shape of a `HookEnvironment`.
pub struct HookEnvironmentModel {
    pub theme_name_path: Seq<char>,
    pub config_path: Seq<char>,
    pub theme_name: Seq<char>,
}

impl View for HookEnvironment {
    type V = HookEnvironmentModel;

    open spec fn view(&self) -> HookEnvironmentModel {
        HookEnvironmentModel {
            theme_name_path: self.theme_name_path@,
            config_path: self.config_path@,
            theme_name: self.theme_name@,
        }
    }
}

impl Clone for HookEnvironment {
    fn clone(&self) -> (r: Self)
        ensures
            r@ == self@,
    {
        HookEnvironment {
            theme_name_path: self.theme_name_path.clone(),
            config_path: self.config_path.clone(),
            theme_name: self.theme_name.clone(),
        }
    }
}

impl HookEnvironment {
    /// The environment as named variables, ready to inject into a child
    /// process on top of the inherited environment.
    pub fn vars(&self) -> (r: Vec<(String, String)>)
        ensures
            r@.len() == 3,
            r@[0].0@ == BASE16_SHELL_THEME_NAME_PATH_ENV@ && r@[0].1@ == self@.theme_name_path,
            r@[1].0@ == BASE16_SHELL_CONFIG_PATH_ENV@ && r@[1].1@ == self@.config_path,
            r@[2].0@ == BASE16_THEME_ENV@ && r@[2].1@ == self@.theme_name,
    {
        let mut r: Vec<(String, String)> = Vec::new();
        r.push((BASE16_SHELL_THEME_NAME_PATH_ENV.to_owned(), self.theme_name_path.clone()));
        r.push((BASE16_SHELL_CONFIG_PATH_ENV.to_owned(), self.config_path.clone()));
        r.push((BASE16_THEME_ENV.to_owned(), self.theme_name.clone()));
        r
    }
}

/// The hook execution plan of a hooks directory listing: the names that
/// mark shell scripts, in the lexicographic order.
pub open spec fn hook_plan_of(files: Seq<Seq<char>>) -> Seq<Seq<char>> {
    files.filter(|f: Seq<char>| is_hook_name(f)).sort_by(lex_leq_fn())
}

/// Selects and orders the hooks to run from a hooks directory listing:
/// exactly the files whose name marks a shell script, in the lexicographic
/// order, so that a given source always runs its hooks in the same order.
pub fn select_hooks(file_names: &Vec<String>) -> (r: Vec<String>)
    ensures
        r.deep_view() == hook_plan_of(file_names.deep_view()),
        sorted_by(r.deep_view(), lex_leq_fn()),
{
    let ghost files = file_names.deep_view();
    let mut picked: Vec<String> = Vec::new();
    let mut i: usize = 0;
    while i < file_names.len()
        invariant
            0 <= i <= file_names.len(),
            files == file_names.deep_view(),
            files.len() == file_names.len(),
            forall|j: int| 0 <= j < files.len() ==> files[j] == file_names@[j]@,
            picked.deep_view() == files.take(i as int).filter(|f: Seq<char>| is_hook_name(f)),
        decreases file_names.len() - i,
    {
        let ghost prev = files.take(i as int);
        if is_hook_file(file_names[i].as_str()) {
            let name = file_names[i].clone();
            picked.push(name);
        }
        proof {
            let pred = |f: Seq<char>| is_hook_name(f);
            assert(files.take(i + 1).drop_last() =~= prev);
            assert(files.take(i + 1).last() == files[i as int]);
            reveal_with_fuel(Seq::<_>::filter, 2);
            if is_hook_name(files[i as int]) {
                assert(picked.deep_view() =~= prev.filter(pred).push(files[i as int]));
            } else {
                assert(picked.deep_view() =~= prev.filter(pred));
            }
        }
        i += 1;
    }
    proof {
        assert(files.take(files.len() as int) =~= files);
    }
    let r = sort_names(picked);
    proof {
        lemma_lex_total_ordering();
        files.filter(|f: Seq<char>| is_hook_name(f)).lemma_sort_by_ensures(lex_leq_fn());
        vstd::seq_lib::lemma_sorted_unique(r.deep_view(), hook_plan_of(files), lex_leq_fn());
    }
    r
}

} // verus!
