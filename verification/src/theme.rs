use vstd::prelude::*;

verus! {

/// A theme name is usable when it is non-empty and holds no path separator,
/// so that it can serve both as a catalog key and as a single path component
/// of the scheme script named after it.
pub open spec fn valid_theme_name(s: Seq<char>) -> bool {
    &&& s.len() > 0
    &&& forall|i: int| 0 <= i < s.len() ==> s[i] != '/'
}

/// A validated theme name: the catalog lookup key and the persisted
/// current-theme value.  Comparison is case-sensitive.
pub struct ThemeName {
    name: String,
}

impl View for ThemeName {
    type V = Seq<char>;

    closed spec fn view(&self) -> Seq<char> {
        self.name@
    }
}

impl ThemeName {
    /// Every value of this type satisfies the validity predicate; the
    /// constructor refuses anything else.
    pub open spec fn wf(&self) -> bool {
        valid_theme_name(self@)
    }

    /// Validates a requested name.  Returns `None` exactly on names that are
    /// empty or contain a path separator.
    pub fn new(name: String) -> (r: Option<ThemeName>)
        ensures
            r is Some <==> valid_theme_name(name@),
            r matches Some(t) ==> t@ == name@ && t.wf(),
    {
        let len = name.as_str().unicode_len();
        if len == 0 {
            return None;
        }
        let mut i: usize = 0;
        while i < len
            invariant
                0 <= i <= len,
                len == name@.len(),
                forall|j: int| 0 <= j < i ==> name@[j] != '/',
            decreases len - i,
        {
            if name.as_str().get_char(i) == '/' {
                return None;
            }
            i += 1;
        }
        Some(ThemeName { name })
    }

    /// The name as a plain string slice.
    pub fn as_str(&self) -> (r: &str)
        ensures
            r@ == self@,
    {
        self.name.as_str()
    }
}

impl Clone for ThemeName {
    fn clone(&self) -> (r: Self)
        ensures
            r@ == self@,
            r.wf() == self.wf(),
    {
        ThemeName { name: self.name.clone() }
    }
}

} // verus!
